//! An opaque key: raw bytes, compared, ordered and hashed byte-wise.
use vstd::prelude::*;

verus! {

#[derive(Debug, Eq, PartialEq, Ord, PartialOrd, Hash, Clone)]
pub struct Key(Vec<u8>);

impl View for Key {
    type V = Seq<u8>;

    closed spec fn view(&self) -> Seq<u8> {
        self.0@
    }
}

impl Key {
    /// A key holding a copy of `key`.
    pub fn from_raw(key: &[u8]) -> (r: Key)
        ensures
            r@ == key@,
    {
        Key(vstd::slice::slice_to_vec(key))
    }

    pub fn as_raw(&self) -> (r: &Vec<u8>)
        ensures
            r@ == self@,
    {
        &self.0
    }

    pub fn into_raw(self) -> (r: Vec<u8>)
        ensures
            r@ == self@,
    {
        self.0
    }
}

} // verus!
