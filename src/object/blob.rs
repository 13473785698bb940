//! Blob objects: opaque bytes, kept as they are.
use vstd::prelude::*;

use crate::object::{GitObject, ObjectKind};

verus! {

/// A blob object.
pub struct GitBlob {
    pub data: Vec<u8>,
}

impl GitBlob {
    /// Parsing a blob always succeeds and keeps the bytes unchanged.
    pub fn new(data: Vec<u8>) -> (r: GitBlob)
        ensures
            r.data@ == data@,
    {
        GitBlob { data }
    }
}

impl GitObject for GitBlob {
    open spec fn kind_spec(&self) -> ObjectKind {
        ObjectKind::Blob
    }

    open spec fn bytes_spec(&self) -> Seq<u8> {
        self.data@
    }

    fn kind(&self) -> (r: ObjectKind) {
        ObjectKind::Blob
    }

    fn serialize(&self) -> (r: &[u8]) {
        self.data.as_slice()
    }
}

} // verus!
