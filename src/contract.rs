use vstd::prelude::*;
use std::collections::HashMap;

verus! {

/// A declared contract: named types and named endpoints.
#[derive(Debug)]
pub struct GuardiTree {
    pub types: HashMap<String, TypeDefinition>,
    pub api: HashMap<String, Endpoint>,
}

/// A declared type: each field name with its type tag (`email` -> `!string`).
#[derive(Debug)]
pub struct TypeDefinition {
    pub fields: HashMap<String, String>,
}

/// A declared endpoint: its method, the headers it expects, and the name of the
/// type of its response.
#[derive(Debug)]
pub struct Endpoint {
    pub method: String,
    pub headers: Option<HashMap<String, String>>,
    pub response: String,
}

} // verus!
