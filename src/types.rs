use vstd::prelude::*;

verus! {

/// The primitive type tags that a declared contract may give a field.
#[derive(Debug, Clone, Copy, PartialEq, Eq, Structural)]
pub enum Primitive {
    Str,
    Int,
    Bool,
}

/// The type tag spelled by `s`, if it spells one.
pub open spec fn primitive_of(s: Seq<char>) -> Option<Primitive> {
    if s == "!string"@ {
        Some(Primitive::Str)
    } else if s == "!int"@ {
        Some(Primitive::Int)
    } else if s == "!bool"@ {
        Some(Primitive::Bool)
    } else {
        None
    }
}

impl Primitive {
    /// Reads a type tag: `!string`, `!int` or `!bool`.
    pub fn from_str(s: &str) -> (r: Option<Self>)
        ensures
            r == primitive_of(s@),
    {
        proof {
            reveal_strlit("!string");
            reveal_strlit("!int");
            reveal_strlit("!bool");
        }
        let t = s.to_owned();
        if t == "!string".to_owned() {
            Some(Primitive::Str)
        } else if t == "!int".to_owned() {
            Some(Primitive::Int)
        } else if t == "!bool".to_owned() {
            Some(Primitive::Bool)
        } else {
            None
        }
    }
}

} // verus!
