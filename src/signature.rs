use vstd::prelude::*;
use vstd::string::StringExecFns;
use vstd::utf8::encode_utf8;
use crate::fields::{is_ordered_set, names_of, lex_lt};

verus! {

/// What `str::to_uppercase` makes of a string.
pub uninterp spec fn upper_of(s: Seq<char>) -> Seq<char>;

/// What SHA-256 makes of a byte string.
pub uninterp spec fn sha256_of(b: Seq<u8>) -> Seq<u8>;

/// Relies on `str::to_uppercase`: the result depends on the characters alone.
#[verifier::external_body]
fn uppercase(s: &str) -> (r: String)
    ensures
        r@ == upper_of(s@),
{
    s.to_uppercase()
}

/// Relies on `sha2::Sha256::digest`: the 32-byte SHA-256 digest of `b`.
#[verifier::external_body]
fn sha256(b: &[u8]) -> (r: Vec<u8>)
    ensures
        r@ == sha256_of(b@),
        r@.len() == 32,
{
    <sha2::Sha256 as sha2::Digest>::digest(b).to_vec()
}

/// The lowercase hexadecimal digit of `n`, for `n` below 16.
pub open spec fn hex_digit(n: int) -> char {
    seq!['0', '1', '2', '3', '4', '5', '6', '7', '8', '9', 'a', 'b', 'c', 'd', 'e', 'f'][n]
}

/// Two lowercase hexadecimal digits for each byte, high half first.
pub open spec fn hex_of(b: Seq<u8>) -> Seq<char>
    decreases b.len(),
{
    if b.len() == 0 {
        Seq::empty()
    } else {
        seq![hex_digit(b[0] as int / 16), hex_digit(b[0] as int % 16)] + hex_of(b.drop_first())
    }
}

/// Relies on `hex::encode`: two lowercase hexadecimal digits for each byte, in order.
#[verifier::external_body]
fn to_hex(b: &[u8]) -> (r: String)
    ensures
        r@ == hex_of(b@),
{
    hex::encode(b)
}

/// The names joined with commas between them.
pub open spec fn join_names(f: Seq<Seq<char>>) -> Seq<char>
    decreases f.len(),
{
    if f.len() == 0 {
        Seq::empty()
    } else if f.len() == 1 {
        f[0]
    } else {
        join_names(f.drop_last()) + seq![','] + f.last()
    }
}

/// The canonical string of a call: host, upper-cased method, path and the
/// comma-joined field names, with `|` between the four parts.
pub open spec fn canonical_form(
    host: Seq<char>,
    method: Seq<char>,
    path: Seq<char>,
    fields: Seq<Seq<char>>,
) -> Seq<char> {
    host + seq!['|'] + upper_of(method) + seq!['|'] + path + seq!['|'] + join_names(fields)
}

/// The digest of a call: SHA-256 of the UTF-8 bytes of its canonical string, in hex.
pub open spec fn signature_of(
    host: Seq<char>,
    method: Seq<char>,
    path: Seq<char>,
    fields: Seq<Seq<char>>,
) -> Seq<char> {
    hex_of(sha256_of(encode_utf8(canonical_form(host, method, path, fields))))
}

/// The canonical string of a call, for an ordered set of field names.
pub fn canonical_string(host: &str, method: &str, path: &str, fields: &Vec<String>) -> (r: String)
    ensures
        r@ == canonical_form(host@, method@, path@, names_of(fields@)),
{
    proof {
        reveal_strlit("|");
        reveal_strlit(",");
    }
    let upper = uppercase(method);
    let mut s = host.to_owned();
    s.append("|");
    s.append(upper.as_str());
    s.append("|");
    s.append(path);
    s.append("|");
    let ghost head = s@;
    let ghost names = names_of(fields@);
    let mut i: usize = 0;
    while i < fields.len()
        invariant
            i <= fields@.len(),
            names == names_of(fields@),
            s@ == head + join_names(names.take(i as int)),
        decreases fields@.len() - i,
    {
        proof {
            reveal_strlit(",");
        }
        if i > 0 {
            s.append(",");
        }
        s.append(fields[i].as_str());
        proof {
            assert(names.take(i + 1).drop_last() =~= names.take(i as int));
            if i == 0 {
                assert(join_names(names.take(1)) == names[0]);
            }
        }
        i += 1;
    }
    assert(names.take(fields@.len() as int) =~= names);
    s
}

/// Every character is a lowercase hexadecimal digit.
pub open spec fn is_lower_hex(s: Seq<char>) -> bool {
    forall|i: int| 0 <= i < s.len() ==> ('0' <= #[trigger] s[i] <= '9' || 'a' <= s[i] <= 'f')
}

proof fn lemma_hex_shape(b: Seq<u8>)
    ensures
        hex_of(b).len() == 2 * b.len(),
        is_lower_hex(hex_of(b)),
    decreases b.len(),
{
    if b.len() > 0 {
        lemma_hex_shape(b.drop_first());
        let h = seq![hex_digit(b[0] as int / 16), hex_digit(b[0] as int % 16)];
        let ds = seq!['0', '1', '2', '3', '4', '5', '6', '7', '8', '9', 'a', 'b', 'c', 'd', 'e', 'f'];
        assert forall|k: int| 0 <= k < 16 implies ('0' <= #[trigger] ds[k] <= '9' || 'a' <= ds[k] <= 'f') by {}
        assert(is_lower_hex(h));
        let t = hex_of(b.drop_first());
        assert forall|i: int| 0 <= i < (h + t).len() implies ('0' <= #[trigger] (h + t)[i] <= '9' || 'a' <= (h
            + t)[i] <= 'f') by {
            if i >= 2 {
                assert((h + t)[i] == t[i - 2]);
            }
        }
    }
}

/// The signature of an observed call: a hex SHA-256 digest of its canonical string.
pub fn generate_signature(host: &str, method: &str, path: &str, fields: &Vec<String>) -> (r: String)
    requires
        is_ordered_set(names_of(fields@)),
    ensures
        r@ == signature_of(host@, method@, path@, names_of(fields@)),
        r@.len() == 64,
        is_lower_hex(r@),
{
    let s = canonical_string(host, method, path, fields);
    let digest = sha256(s.as_str().as_bytes());
    proof {
        lemma_hex_shape(digest@);
    }
    to_hex(digest.as_slice())
}

/// A signature depends on the method only through its upper-case form and on the
/// field names only through the set of them: two calls that agree on the host, the
/// path, the upper-cased method and the set of field names have one signature.
pub proof fn lemma_signature_deterministic(
    host: Seq<char>,
    method_a: Seq<char>,
    method_b: Seq<char>,
    path: Seq<char>,
    fields_a: Seq<Seq<char>>,
    fields_b: Seq<Seq<char>>,
)
    requires
        upper_of(method_a) == upper_of(method_b),
        is_ordered_set(fields_a),
        is_ordered_set(fields_b),
        fields_a.to_set() == fields_b.to_set(),
    ensures
        signature_of(host, method_a, path, fields_a) == signature_of(host, method_b, path, fields_b),
{
    crate::fields::lemma_ordered_set_determined(fields_a, fields_b);
}

} // verus!
