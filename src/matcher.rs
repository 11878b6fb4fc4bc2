use vstd::prelude::*;
use vstd::string::StringExecFns;
use std::collections::HashMap;
use crate::contract::TypeDefinition;
use crate::types::{Primitive, primitive_of};

verus! {

/// A JSON value.
#[verifier::external_type_specification]
#[verifier::external_body]
pub struct ExValue(serde_json::Value);

/// The kind of a JSON value, as far as a declared type tag can ask for it.
#[derive(Debug, Clone, Copy, PartialEq, Eq, Structural)]
pub enum JsonKind {
    Null,
    Bool,
    Number { float: bool },
    Str,
    Array,
    Object,
}

/// The outcome of checking a response against its declared type.
#[derive(Debug)]
pub struct ValidationResult {
    pub is_valid: bool,
    pub errors: Vec<String>,
}

/// Relies on `HashMap::iter`: each entry of the map exactly once, in the map's own order.
#[verifier::external_body]
fn declared_fields(m: &HashMap<String, String>) -> (r: Vec<(String, String)>)
    ensures
        r@.len() == m@.len(),
        forall|i: int| 0 <= i < r@.len() ==> #[trigger] m@.contains_key(r@[i].0) && m@[r@[i].0] == r@[i].1,
        forall|i: int, j: int| 0 <= i < j < r@.len() ==> (#[trigger] r@[i]).0 != (#[trigger] r@[j]).0,
{
    m.iter().map(|(k, v)| (k.clone(), v.clone())).collect()
}

/// Relies on `serde_json::Value::as_object`: the members of an object with the kind
/// of each value; `None` for any other value.
#[verifier::external_body]
fn object_fields(v: &serde_json::Value) -> (r: Option<Vec<(String, JsonKind)>>) {
    v.as_object().map(|m| m.iter().map(|(k, x)| (k.clone(), match x {
        serde_json::Value::Null => JsonKind::Null,
        serde_json::Value::Bool(_) => JsonKind::Bool,
        serde_json::Value::Number(n) => JsonKind::Number { float: n.is_f64() },
        serde_json::Value::String(_) => JsonKind::Str,
        serde_json::Value::Array(_) => JsonKind::Array,
        serde_json::Value::Object(_) => JsonKind::Object,
    })).collect())
}

pub open spec fn declared_view(v: Seq<(String, String)>) -> Seq<(Seq<char>, Seq<char>)> {
    v.map_values(|p: (String, String)| (p.0@, p.1@))
}

pub open spec fn actual_view(v: Seq<(String, JsonKind)>) -> Seq<(Seq<char>, JsonKind)> {
    v.map_values(|p: (String, JsonKind)| (p.0@, p.1))
}

/// The kind of the first member called `name`.
pub open spec fn lookup_kind(actual: Seq<(Seq<char>, JsonKind)>, name: Seq<char>) -> Option<JsonKind>
    decreases actual.len(),
{
    if actual.len() == 0 {
        None
    } else if actual[0].0 == name {
        Some(actual[0].1)
    } else {
        lookup_kind(actual.drop_first(), name)
    }
}

/// A value of kind `k` is of the primitive type `p`.
pub open spec fn kind_matches(p: Primitive, k: JsonKind) -> bool {
    match p {
        Primitive::Str => k == JsonKind::Str,
        Primitive::Int => k == JsonKind::Number { float: false },
        Primitive::Bool => k == JsonKind::Bool,
    }
}

/// What is wrong with one declared field in the actual members, if anything.
pub open spec fn field_violation(name: Seq<char>, tag: Seq<char>, actual: Seq<(Seq<char>, JsonKind)>) -> Option<Seq<char>> {
    match lookup_kind(actual, name) {
        None => Some("MISSING FIELD: "@ + name),
        Some(k) => match primitive_of(tag) {
            None => Some("UNKNOWN TYPE: "@ + name),
            Some(p) => if kind_matches(p, k) {
                None
            } else {
                Some("TYPE MISMATCH: "@ + name)
            },
        },
    }
}

/// The violations of the declared fields, in their order.
pub open spec fn declared_violations(
    expected: Seq<(Seq<char>, Seq<char>)>,
    actual: Seq<(Seq<char>, JsonKind)>,
) -> Seq<Seq<char>>
    decreases expected.len(),
{
    if expected.len() == 0 {
        Seq::empty()
    } else {
        let rest = declared_violations(expected.drop_last(), actual);
        match field_violation(expected.last().0, expected.last().1, actual) {
            Some(e) => rest.push(e),
            None => rest,
        }
    }
}

pub open spec fn is_declared(expected: Seq<(Seq<char>, Seq<char>)>, name: Seq<char>) -> bool {
    exists|i: int| 0 <= i < expected.len() && (#[trigger] expected[i]).0 == name
}

/// One error for each actual member that the type does not declare, in their order.
pub open spec fn extra_violations(
    expected: Seq<(Seq<char>, Seq<char>)>,
    actual: Seq<(Seq<char>, JsonKind)>,
) -> Seq<Seq<char>>
    decreases actual.len(),
{
    if actual.len() == 0 {
        Seq::empty()
    } else {
        let rest = extra_violations(expected, actual.drop_last());
        if is_declared(expected, actual.last().0) {
            rest
        } else {
            rest.push("EXTRA FIELD: "@ + actual.last().0)
        }
    }
}

/// Every error of a response against its declared fields: a body that is not an
/// object, then missing fields, unknown tags and type mismatches, then extra fields.
pub open spec fn violations(
    expected: Seq<(Seq<char>, Seq<char>)>,
    actual: Option<Seq<(Seq<char>, JsonKind)>>,
) -> Seq<Seq<char>> {
    match actual {
        None => seq!["NOT AN OBJECT"@],
        Some(a) => declared_violations(expected, a) + extra_violations(expected, a),
    }
}

fn find_kind(actual: &Vec<(String, JsonKind)>, name: &String) -> (r: Option<JsonKind>)
    ensures
        r == lookup_kind(actual_view(actual@), name@),
{
    let ghost av = actual_view(actual@);
    let mut i: usize = 0;
    assert(av.subrange(0, av.len() as int) =~= av);
    while i < actual.len()
        invariant
            i <= actual@.len(),
            av == actual_view(actual@),
            lookup_kind(av, name@) == lookup_kind(av.subrange(i as int, av.len() as int), name@),
        decreases actual@.len() - i,
    {
        assert(av.subrange(i as int, av.len() as int).drop_first() =~= av.subrange(i + 1, av.len() as int));
        if actual[i].0 == *name {
            return Some(actual[i].1);
        }
        i += 1;
    }
    assert(av.subrange(i as int, av.len() as int) =~= Seq::<(Seq<char>, JsonKind)>::empty());
    None
}

fn prefixed(prefix: &str, name: &String) -> (r: String)
    ensures
        r@ == prefix@ + name@,
{
    let mut s = prefix.to_owned();
    s.append(name.as_str());
    s
}

fn check_field(name: &String, tag: &String, actual: &Vec<(String, JsonKind)>) -> (r: Option<String>)
    ensures
        match r {
            Some(e) => field_violation(name@, tag@, actual_view(actual@)) == Some(e@),
            None => field_violation(name@, tag@, actual_view(actual@)) is None,
        },
{
    match find_kind(actual, name) {
        None => Some(prefixed("MISSING FIELD: ", name)),
        Some(k) => match Primitive::from_str(tag.as_str()) {
            None => Some(prefixed("UNKNOWN TYPE: ", name)),
            Some(p) => {
                let ok = match p {
                    Primitive::Str => k == JsonKind::Str,
                    Primitive::Int => k == JsonKind::Number { float: false },
                    Primitive::Bool => k == JsonKind::Bool,
                };
                if ok {
                    None
                } else {
                    Some(prefixed("TYPE MISMATCH: ", name))
                }
            },
        },
    }
}

fn declared_has(expected: &Vec<(String, String)>, name: &String) -> (r: bool)
    ensures
        r == is_declared(declared_view(expected@), name@),
{
    let ghost ev = declared_view(expected@);
    let mut i: usize = 0;
    while i < expected.len()
        invariant
            i <= expected@.len(),
            ev == declared_view(expected@),
            forall|j: int| 0 <= j < i ==> (#[trigger] ev[j]).0 != name@,
        decreases expected@.len() - i,
    {
        if expected[i].0 == *name {
            assert(ev[i as int].0 == name@);
            return true;
        }
        i += 1;
    }
    false
}

/// Checks the members of a response against the declared fields and type tags;
/// `actual` is `None` where the response is not an object.
pub fn check_fields(expected: &Vec<(String, String)>, actual: &Option<Vec<(String, JsonKind)>>) -> (r: ValidationResult)
    ensures
        r.errors@.map_values(|e: String| e@) == violations(declared_view(expected@), match actual {
            Some(a) => Some(actual_view(a@)),
            None => None,
        }),
        r.is_valid == (r.errors@.len() == 0),
{
    let mut errors: Vec<String> = Vec::new();
    match actual {
        None => {
            errors.push("NOT AN OBJECT".to_owned());
            assert(errors@.map_values(|e: String| e@) =~= seq!["NOT AN OBJECT"@]);
        },
        Some(a) => {
            let ghost ev = declared_view(expected@);
            let ghost av = actual_view(a@);
            let mut i: usize = 0;
            while i < expected.len()
                invariant
                    i <= expected@.len(),
                    ev == declared_view(expected@),
                    av == actual_view(a@),
                    errors@.map_values(|e: String| e@) == declared_violations(ev.take(i as int), av),
                decreases expected@.len() - i,
            {
                assert(ev.take(i + 1).drop_last() =~= ev.take(i as int));
                match check_field(&expected[i].0, &expected[i].1, a) {
                    Some(e) => {
                        errors.push(e);
                        assert(errors@.map_values(|e: String| e@) =~= declared_violations(ev.take(i as int), av).push(e@));
                    },
                    None => {},
                }
                i += 1;
            }
            assert(ev.take(expected@.len() as int) =~= ev);
            let ghost head = errors@.map_values(|e: String| e@);
            let mut j: usize = 0;
            while j < a.len()
                invariant
                    j <= a@.len(),
                    ev == declared_view(expected@),
                    av == actual_view(a@),
                    errors@.map_values(|e: String| e@) == head + extra_violations(ev, av.take(j as int)),
                decreases a@.len() - j,
            {
                assert(av.take(j + 1).drop_last() =~= av.take(j as int));
                if !declared_has(expected, &a[j].0) {
                    let e = prefixed("EXTRA FIELD: ", &a[j].0);
                    let ghost before = errors@.map_values(|e: String| e@);
                    errors.push(e);
                    assert(errors@.map_values(|e: String| e@) =~= before.push(e@));
                    assert(av.take(j + 1).last() == av[j as int]);
                    assert((head + extra_violations(ev, av.take(j as int))).push(e@) =~= head + extra_violations(
                        ev,
                        av.take(j as int),
                    ).push(e@));
                }
                j += 1;
            }
            assert(av.take(a@.len() as int) =~= av);
        },
    }
    ValidationResult { is_valid: errors.len() == 0, errors }
}

/// Checks a response body against its declared type: every declared field must
/// be present with a value of its tag's type, and no other member may be there.
/// The result is valid exactly when it lists no error.
pub fn validate_response(expected_type: &TypeDefinition, actual_json: &serde_json::Value) -> (r: ValidationResult)
    ensures
        r.is_valid == (r.errors@.len() == 0),
{
    let expected = declared_fields(&expected_type.fields);
    let actual = object_fields(actual_json);
    check_fields(&expected, &actual)
}

} // verus!
