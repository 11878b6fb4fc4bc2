use vstd::prelude::*;

verus! {

/// Lexicographic order of strings by code point, which is the order of their
/// UTF-8 bytes and so the order of `String`'s `Ord`.
pub open spec fn lex_lt(a: Seq<char>, b: Seq<char>) -> bool
    decreases a.len(),
{
    if a.len() == 0 {
        b.len() > 0
    } else if b.len() == 0 {
        false
    } else if a[0] != b[0] {
        (a[0] as u32) < (b[0] as u32)
    } else {
        lex_lt(a.drop_first(), b.drop_first())
    }
}

/// Strictly increasing: sorted, with no name twice.
pub open spec fn is_ordered_set(s: Seq<Seq<char>>) -> bool {
    forall|i: int, j: int| 0 <= i < j < s.len() ==> lex_lt(s[i], s[j])
}

/// The views of a list of strings.
pub open spec fn names_of(v: Seq<String>) -> Seq<Seq<char>> {
    v.map_values(|s: String| s@)
}

/// The top-level key names of `body` read as JSON, where it is an object; `None`
/// where it is not JSON or not an object.
pub uninterp spec fn json_object_keys(body: Seq<u8>) -> Option<Set<Seq<char>>>;

/// Relies on `serde_json::from_slice` into a `Value` and on the keys of its `Map`,
/// which (without the `preserve_order` feature) is a `BTreeMap<String, Value>`: its
/// keys come out once each and in ascending order.
#[verifier::external_body]
fn object_keys(body: &[u8]) -> (r: Option<Vec<String>>)
    ensures
        match r {
            Some(v) => json_object_keys(body@) == Some(names_of(v@).to_set()) && is_ordered_set(
                names_of(v@),
            ),
            None => json_object_keys(body@) is None,
        },
{
    match serde_json::from_slice::<serde_json::Value>(body) {
        Ok(serde_json::Value::Object(m)) => Some(m.keys().cloned().collect()),
        _ => None,
    }
}

/// The field names of a request body: the top-level keys of a JSON object, in
/// ascending order and without repeats; empty for any other body.
pub fn extract_json_keys(body: &[u8]) -> (r: Vec<String>)
    ensures
        is_ordered_set(names_of(r@)),
        match json_object_keys(body@) {
            Some(keys) => names_of(r@).to_set() == keys,
            None => r@.len() == 0,
        },
{
    match object_keys(body) {
        Some(v) => v,
        None => Vec::new(),
    }
}

proof fn lemma_lex_lt_asymmetric(a: Seq<char>, b: Seq<char>)
    ensures
        !(lex_lt(a, b) && lex_lt(b, a)),
    decreases a.len(),
{
    if a.len() > 0 && b.len() > 0 && a[0] == b[0] {
        lemma_lex_lt_asymmetric(a.drop_first(), b.drop_first());
    }
}

/// An ordered set of names is fixed by the names it holds: two of them that hold
/// the same names are the same sequence, whatever order or repeats the names
/// were found in.
pub proof fn lemma_ordered_set_determined(a: Seq<Seq<char>>, b: Seq<Seq<char>>)
    requires
        is_ordered_set(a),
        is_ordered_set(b),
        a.to_set() == b.to_set(),
    ensures
        a == b,
    decreases a.len(),
{
    if a.len() == 0 {
        if b.len() > 0 {
            assert(a.to_set().contains(b[0]));
        }
        assert(b =~= a);
    } else if b.len() == 0 {
        assert(b.to_set().contains(a[0]));
    } else {
        assert(b.to_set().contains(a[0]));
        let k = choose|k: int| 0 <= k < b.len() && b[k] == a[0];
        assert(a.to_set().contains(b[0]));
        let m = choose|m: int| 0 <= m < a.len() && a[m] == b[0];
        if k > 0 {
            if m > 0 {
                lemma_lex_lt_asymmetric(a[0], a[m]);
            } else {
                lemma_lex_lt_asymmetric(b[0], b[k]);
            }
        }
        assert(a[0] == b[0]);
        let a1 = a.drop_first();
        let b1 = b.drop_first();
        assert forall|x: Seq<char>| a1.to_set().contains(x) implies b1.to_set().contains(x) by {
            let i = choose|i: int| 0 <= i < a1.len() && a1[i] == x;
            assert(a.to_set().contains(x));
            let j = choose|j: int| 0 <= j < b.len() && b[j] == x;
            if j == 0 {
                lemma_lex_lt_asymmetric(a[0], a[i + 1]);
            }
            assert(b1[j - 1] == x);
        }
        assert forall|x: Seq<char>| b1.to_set().contains(x) implies a1.to_set().contains(x) by {
            let i = choose|i: int| 0 <= i < b1.len() && b1[i] == x;
            assert(b.to_set().contains(x));
            let j = choose|j: int| 0 <= j < a.len() && a[j] == x;
            if j == 0 {
                lemma_lex_lt_asymmetric(b[0], b[i + 1]);
            }
            assert(a1[j - 1] == x);
        }
        assert(a1.to_set() =~= b1.to_set());
        lemma_ordered_set_determined(a1, b1);
        assert(a.len() == b.len());
        assert forall|i: int| 0 <= i < a.len() implies a[i] == b[i] by {
            if i > 0 {
                assert(a[i] == a1[i - 1]);
                assert(b[i] == b1[i - 1]);
            }
        }
        assert(a =~= b);
    }
}

} // verus!
