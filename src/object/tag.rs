//! Tag objects: for now opaque bytes, kept as they are, like blobs.
use vstd::prelude::*;

use crate::object::{GitObject, ObjectKind};

verus! {

/// A tag object.
pub struct GitTag {
    pub data: Vec<u8>,
}

impl GitTag {
    /// Parsing a tag always succeeds and keeps the bytes unchanged.
    pub fn new(data: Vec<u8>) -> (r: GitTag)
        ensures
            r.data@ == data@,
    {
        GitTag { data }
    }
}

impl GitObject for GitTag {
    open spec fn kind_spec(&self) -> ObjectKind {
        ObjectKind::Tag
    }

    open spec fn bytes_spec(&self) -> Seq<u8> {
        self.data@
    }

    fn kind(&self) -> (r: ObjectKind) {
        ObjectKind::Tag
    }

    fn serialize(&self) -> (r: &[u8]) {
        self.data.as_slice()
    }
}

} // verus!
