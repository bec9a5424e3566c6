use vstd::prelude::*;
use vstd::string::*;

verus! {

/// A stored user entry. It carries no fields beyond the identifier the store
/// assigns to it; this struct is the extension point for real user data.
#[derive(Clone, Copy, PartialEq, Eq, Structural, Debug)]
pub struct UserRecord {}

/// The deterministic text form served for a live record: an empty braces
/// placeholder, until the record grows real fields.
pub open spec fn spec_render() -> Seq<char> {
    "{}"@
}

impl UserRecord {
    /// A fresh record with default (empty) content.
    pub fn new() -> (r: UserRecord)
        ensures
            r == (UserRecord {}),
    {
        UserRecord {}
    }

    /// Serialize the record for an HTTP body.
    pub fn render(&self) -> (s: String)
        ensures
            s@ == spec_render(),
    {
        String::from_str("{}")
    }
}

} // verus!
