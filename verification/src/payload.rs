//! The delivery payload: an opaque JSON document constrained to be
//! object-rooted.
//!
//! The library does not interpret the document beyond its root kind; the
//! serialized text travels through unchanged. Callers that hold a parsed JSON
//! value convert it to a `Payload` by recording the root kind and the
//! serialized form.

use vstd::prelude::*;

verus! {

/// The kind of a JSON document's root value.
#[derive(Clone, Copy, Debug, PartialEq, Eq, Structural)]
pub enum JsonKind {
    Null,
    Bool,
    Number,
    Text,
    Array,
    Object,
}

/// A JSON document: its root kind and its serialized text.
#[derive(Debug)]
pub struct Payload {
    pub kind: JsonKind,
    pub raw: String,
}

impl Clone for Payload {
    fn clone(&self) -> (res: Self)
        ensures
            res == *self,
    {
        Payload { kind: self.kind, raw: self.raw.clone() }
    }
}

impl Payload {
    /// Whether the document is object-rooted — the only kind a schedule
    /// accepts.
    pub open spec fn is_object(self) -> bool {
        self.kind is Object
    }

    /// Whether the document is object-rooted.
    pub fn check_object(&self) -> (r: bool)
        ensures
            r == self.is_object(),
    {
        match self.kind {
            JsonKind::Object => true,
            _ => false,
        }
    }
}

} // verus!
