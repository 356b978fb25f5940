//! Tradable instruments.

use vstd::prelude::*;

verus! {

/// A tradable instrument, known by its identifier alone.
#[derive(Debug, Eq, PartialEq, Hash)]
pub struct Asset {
    id: String,
}

impl View for Asset {
    type V = Seq<char>;

    /// The identifier.
    closed spec fn view(&self) -> Seq<char> {
        self.id@
    }
}

impl Clone for Asset {
    fn clone(&self) -> (copy: Asset)
        ensures
            copy@ == self@,
    {
        Asset { id: self.id.clone() }
    }
}

impl Asset {
    /// The asset with the given identifier.
    pub fn new(id: &str) -> (asset: Asset)
        ensures
            asset@ == id@,
    {
        Asset { id: id.to_owned() }
    }

    /// Whether `id` is the identifier.
    pub fn has_id(&self, id: &String) -> (same: bool)
        ensures
            same == (self@ == id@),
    {
        self.id == *id
    }

    /// The identifier.
    pub fn id(&self) -> (id: &str)
        ensures
            id@ == self@,
    {
        self.id.as_str()
    }
}

} // verus!
