use vstd::prelude::*;

verus! {

/// One to-do row: a store-assigned identifier and its text, kept as bytes.
pub struct Entry {
    pub id: u32,
    pub text: Vec<u8>,
}

impl Entry {
    pub fn new(id: u32, text: Vec<u8>) -> (e: Entry)
        ensures
            e.id == id,
            e.text@ == text@,
    {
        Entry { id, text }
    }
}

} // verus!
