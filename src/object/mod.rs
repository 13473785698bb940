//! The four object variants, their common interface, and the framing
//! `<type> SP <decimal length> NUL <content>` that is hashed and stored.
use vstd::prelude::*;

pub mod blob;
pub mod commit;
pub mod tag;
pub mod tree;

pub use blob::GitBlob;
pub use commit::GitCommit;
pub use tag::GitTag;
pub use tree::GitTree;

use crate::bytes::{
    bytes_eq, copy_range, dec_digits, find_byte, first_from, lemma_dec_digits,
    lemma_first_from_at,
};
use crate::addressing::{compute_id, object_id, valid_id};
use crate::codec::{deflated, encode, inflated};
use commit::{parse_commit, GitCommitView};
use tree::{parse_tree, TreeView};

verus! {

/// The closed set of object variants.
#[derive(PartialEq, Eq, Structural, Clone, Copy, Debug)]
pub enum ObjectKind {
    Blob,
    Tree,
    Commit,
    Tag,
}

/// Everything that can go wrong in the object store and the repository layout.
#[derive(PartialEq, Eq, Structural, Clone, Copy, Debug)]
pub enum ObjectError {
    InvalidPath,
    InvalidObjectId,
    ObjectNotFound,
    CorruptObject,
    UnknownObjectType,
    MalformedTreeEntry,
    MalformedCommitHeader,
}

impl ObjectKind {
    /// The type name written in an object's header.
    pub open spec fn name_spec(self) -> Seq<u8> {
        match self {
            ObjectKind::Blob => seq![98u8, 108, 111, 98],
            ObjectKind::Tree => seq![116u8, 114, 101, 101],
            ObjectKind::Commit => seq![99u8, 111, 109, 109, 105, 116],
            ObjectKind::Tag => seq![116u8, 97, 103],
        }
    }

    /// The type name as text.
    pub open spec fn text_spec(self) -> Seq<char> {
        match self {
            ObjectKind::Blob => seq!['b', 'l', 'o', 'b'],
            ObjectKind::Tree => seq!['t', 'r', 'e', 'e'],
            ObjectKind::Commit => seq!['c', 'o', 'm', 'm', 'i', 't'],
            ObjectKind::Tag => seq!['t', 'a', 'g'],
        }
    }

    /// The type name written in an object's header.
    pub fn name(&self) -> (r: Vec<u8>)
        ensures
            r@ == self.name_spec(),
    {
        match self {
            ObjectKind::Blob => vec![98u8, 108, 111, 98],
            ObjectKind::Tree => vec![116u8, 114, 101, 101],
            ObjectKind::Commit => vec![99u8, 111, 109, 109, 105, 116],
            ObjectKind::Tag => vec![116u8, 97, 103],
        }
    }

    /// The type name as text.
    pub fn as_str(&self) -> (r: &'static str)
        ensures
            r@ == self.text_spec(),
    {
        proof {
            reveal_strlit("blob");
            reveal_strlit("tree");
            reveal_strlit("commit");
            reveal_strlit("tag");
        }
        match self {
            ObjectKind::Blob => "blob",
            ObjectKind::Tree => "tree",
            ObjectKind::Commit => "commit",
            ObjectKind::Tag => "tag",
        }
    }
}

/// The kind whose header name is `n`.
pub open spec fn kind_of_name(n: Seq<u8>) -> Option<ObjectKind> {
    if n == ObjectKind::Blob.name_spec() {
        Some(ObjectKind::Blob)
    } else if n == ObjectKind::Tree.name_spec() {
        Some(ObjectKind::Tree)
    } else if n == ObjectKind::Commit.name_spec() {
        Some(ObjectKind::Commit)
    } else if n == ObjectKind::Tag.name_spec() {
        Some(ObjectKind::Tag)
    } else {
        None
    }
}

/// The kind whose header name is `n`.
pub fn kind_from_name(n: &[u8]) -> (r: Option<ObjectKind>)
    ensures
        r == kind_of_name(n@),
{
    if bytes_eq(n, ObjectKind::Blob.name().as_slice()) {
        Some(ObjectKind::Blob)
    } else if bytes_eq(n, ObjectKind::Tree.name().as_slice()) {
        Some(ObjectKind::Tree)
    } else if bytes_eq(n, ObjectKind::Commit.name().as_slice()) {
        Some(ObjectKind::Commit)
    } else if bytes_eq(n, ObjectKind::Tag.name().as_slice()) {
        Some(ObjectKind::Tag)
    } else {
        None
    }
}

/// What every object offers: its kind and its serialized bytes.
pub trait GitObject {
    spec fn kind_spec(&self) -> ObjectKind;

    spec fn bytes_spec(&self) -> Seq<u8>;

    fn kind(&self) -> (r: ObjectKind)
        ensures
            r == self.kind_spec(),
    ;

    /// The serialized content, without the header.
    fn serialize(&self) -> (r: &[u8])
        ensures
            r@ == self.bytes_spec(),
    ;

    /// The type name, as written in the header.
    fn object_type(&self) -> (r: &'static str)
        ensures
            r@ == self.kind_spec().text_spec(),
    {
        self.kind().as_str()
    }

    /// The length of the content in bytes (not compressed, header not counted).
    fn size(&self) -> (r: usize)
        ensures
            r == self.bytes_spec().len(),
    {
        self.serialize().len()
    }
}

/// A value of any of the four variants.
pub enum Object {
    Blob(GitBlob),
    Tree(GitTree),
    Commit(GitCommit),
    Tag(GitTag),
}

impl Object {
    /// The parsed fields agree with the bytes.
    pub open spec fn wf(&self) -> bool {
        match self {
            Object::Tree(t) => t.wf(),
            Object::Commit(c) => c.wf(),
            _ => true,
        }
    }
}

impl GitObject for Object {
    open spec fn kind_spec(&self) -> ObjectKind {
        match self {
            Object::Blob(o) => o.kind_spec(),
            Object::Tree(o) => o.kind_spec(),
            Object::Commit(o) => o.kind_spec(),
            Object::Tag(o) => o.kind_spec(),
        }
    }

    open spec fn bytes_spec(&self) -> Seq<u8> {
        match self {
            Object::Blob(o) => o.bytes_spec(),
            Object::Tree(o) => o.bytes_spec(),
            Object::Commit(o) => o.bytes_spec(),
            Object::Tag(o) => o.bytes_spec(),
        }
    }

    fn kind(&self) -> (r: ObjectKind) {
        match self {
            Object::Blob(o) => o.kind(),
            Object::Tree(o) => o.kind(),
            Object::Commit(o) => o.kind(),
            Object::Tag(o) => o.kind(),
        }
    }

    fn serialize(&self) -> (r: &[u8]) {
        match self {
            Object::Blob(o) => o.serialize(),
            Object::Tree(o) => o.serialize(),
            Object::Commit(o) => o.serialize(),
            Object::Tag(o) => o.serialize(),
        }
    }
}

/// The mathematical value of an object: its bytes together with what they say.
pub enum ObjectModel {
    Blob(Seq<u8>),
    Tree(TreeView),
    Commit(GitCommitView),
    Tag(Seq<u8>),
}

impl Object {
    pub open spec fn model(&self) -> ObjectModel {
        match self {
            Object::Blob(o) => ObjectModel::Blob(o.data@),
            Object::Tree(o) => ObjectModel::Tree(o@),
            Object::Commit(o) => ObjectModel::Commit(o@),
            Object::Tag(o) => ObjectModel::Tag(o.data@),
        }
    }
}

/// What parsing `b` as the given kind yields, or `None` where it fails.
pub open spec fn parse_spec(kind: ObjectKind, b: Seq<u8>) -> Option<ObjectModel> {
    match kind {
        ObjectKind::Blob => Some(ObjectModel::Blob(b)),
        ObjectKind::Tag => Some(ObjectModel::Tag(b)),
        ObjectKind::Tree => match parse_tree(b) {
            Some(es) => Some(ObjectModel::Tree(TreeView { data: b, entries: es })),
            None => None,
        },
        ObjectKind::Commit => match parse_commit(b) {
            Some(c) => Some(ObjectModel::Commit(GitCommitView { data: b, commit: c })),
            None => None,
        },
    }
}

/// The bytes an object serializes to.
pub open spec fn serialize_spec(m: ObjectModel) -> Seq<u8> {
    match m {
        ObjectModel::Blob(b) => b,
        ObjectModel::Tree(t) => t.data,
        ObjectModel::Commit(c) => c.data,
        ObjectModel::Tag(b) => b,
    }
}

/// Round trip of every kind: bytes that parse serialize back to themselves,
/// and an object that parsing produced parses again from its serialized
/// bytes to the same object.
pub proof fn lemma_object_round_trip(kind: ObjectKind, b: Seq<u8>)
    ensures
        parse_spec(kind, b) matches Some(m) ==> serialize_spec(m) == b && parse_spec(
            kind,
            serialize_spec(m),
        ) == Some(m),
{
}

/// Why `b` is not a valid content of the given kind, if it is not.
pub open spec fn content_error(kind: ObjectKind, b: Seq<u8>) -> Option<ObjectError> {
    match kind {
        ObjectKind::Tree => if parse_tree(b) is None {
            Some(ObjectError::MalformedTreeEntry)
        } else {
            None
        },
        ObjectKind::Commit => if parse_commit(b) is None {
            Some(ObjectError::MalformedCommitHeader)
        } else {
            None
        },
        _ => None,
    }
}

/// Parses `content` as an object of the given kind.
pub fn parse_object(kind: ObjectKind, content: Vec<u8>) -> (r: Result<Object, ObjectError>)
    ensures
        match r {
            Ok(o) => content_error(kind, content@) is None && o.wf() && o.kind_spec() == kind
                && o.bytes_spec() == content@ && parse_spec(kind, content@) == Some(o.model()),
            Err(e) => content_error(kind, content@) == Some(e),
        },
{
    match kind {
        ObjectKind::Blob => Ok(Object::Blob(GitBlob::new(content))),
        ObjectKind::Tag => Ok(Object::Tag(GitTag::new(content))),
        ObjectKind::Tree => match GitTree::new(content) {
            Ok(t) => Ok(Object::Tree(t)),
            Err(e) => Err(e),
        },
        ObjectKind::Commit => match GitCommit::new(content) {
            Ok(c) => Ok(Object::Commit(c)),
            Err(e) => Err(e),
        },
    }
}

/// The header `<type> SP <decimal length> NUL`.
pub open spec fn header(kind: ObjectKind, len: nat) -> Seq<u8> {
    kind.name_spec() + seq![32u8] + dec_digits(len) + seq![0u8]
}

/// The exact byte stream that is hashed and, compressed, stored.
pub open spec fn frame(kind: ObjectKind, content: Seq<u8>) -> Seq<u8> {
    header(kind, content.len()) + content
}

/// The header of an object of the given kind with `len` content bytes.
pub fn object_header(kind: ObjectKind, len: usize) -> (r: Vec<u8>)
    ensures
        r@ == header(kind, len as nat),
{
    let mut h = kind.name();
    h.push(32u8);
    let d = crate::bytes::decimal(len);
    crate::bytes::append_bytes(&mut h, d.as_slice());
    h.push(0u8);
    h
}

/// The kind and content that a framed byte stream holds, or why it holds none.
pub open spec fn decode_frame_spec(raw: Seq<u8>) -> Result<(ObjectKind, Seq<u8>), ObjectError> {
    let s = first_from(raw, 0, 32);
    let z = first_from(raw, s + 1, 0);
    if s >= raw.len() || z >= raw.len() {
        Err(ObjectError::CorruptObject)
    } else if raw.subrange(s + 1, z) != dec_digits((raw.len() - z - 1) as nat) {
        Err(ObjectError::CorruptObject)
    } else {
        match kind_of_name(raw.subrange(0, s)) {
            None => Err(ObjectError::UnknownObjectType),
            Some(k) => match content_error(k, raw.subrange(z + 1, raw.len() as int)) {
                Some(e) => Err(e),
                None => Ok((k, raw.subrange(z + 1, raw.len() as int))),
            },
        }
    }
}

/// An object result matches the expected kind and content, or the expected error.
pub open spec fn agrees(
    r: Result<Object, ObjectError>,
    expected: Result<(ObjectKind, Seq<u8>), ObjectError>,
) -> bool {
    match r {
        Ok(o) => o.wf() && expected == Ok::<(ObjectKind, Seq<u8>), ObjectError>(
            (o.kind_spec(), o.bytes_spec()),
        ),
        Err(e) => expected == Err::<(ObjectKind, Seq<u8>), ObjectError>(e),
    }
}

/// Splits a decompressed object into header and content, checks the
/// length, and parses the content as the named kind.
pub fn decode_frame(raw: &[u8]) -> (r: Result<Object, ObjectError>)
    ensures
        agrees(r, decode_frame_spec(raw@)),
{
    let s = find_byte(raw, 0, 32);
    if s >= raw.len() {
        return Err(ObjectError::CorruptObject);
    }
    let z = find_byte(raw, s + 1, 0);
    if z >= raw.len() {
        return Err(ObjectError::CorruptObject);
    }
    let expected = crate::bytes::decimal(raw.len() - z - 1);
    if !bytes_eq(&raw[s + 1..z], expected.as_slice()) {
        return Err(ObjectError::CorruptObject);
    }
    let kind = match kind_from_name(&raw[0..s]) {
        Some(k) => k,
        None => {
            return Err(ObjectError::UnknownObjectType);
        },
    };
    let content = copy_range(raw, z + 1, raw.len());
    parse_object(kind, content)
}

/// Reading back a framed object gives the kind and content it was framed
/// from, whenever the content is valid for that kind.
pub proof fn lemma_frame_round_trip(kind: ObjectKind, content: Seq<u8>)
    requires
        content_error(kind, content) is None,
    ensures
        decode_frame_spec(frame(kind, content))
            == Ok::<(ObjectKind, Seq<u8>), ObjectError>((kind, content)),
{
    let raw = frame(kind, content);
    let n = kind.name_spec();
    let d = dec_digits(content.len());
    lemma_dec_digits(content.len());
    let s = n.len() as int;
    let z = s + 1 + d.len();
    assert forall|k: int| 0 <= k < s implies raw[k] != 32 by {
        assert(raw[k] == n[k]);
    }
    assert(raw[s] == 32);
    lemma_first_from_at(raw, 0, s, 32);
    assert forall|k: int| s + 1 <= k < z implies raw[k] != 0 by {
        assert(raw[k] == d[k - s - 1]);
    }
    assert(raw[z] == 0);
    lemma_first_from_at(raw, s + 1, z, 0);
    assert(raw.subrange(s + 1, z) =~= d);
    assert(raw.subrange(0, s) =~= n);
    assert(raw.subrange(z + 1, raw.len() as int) =~= content);
}

/// The id of an object: the hex SHA-1 of its header and content.
pub fn hash_object<T: GitObject>(object: &T) -> (r: String)
    ensures
        r@ == object_id(object.kind_spec(), object.bytes_spec()),
        valid_id(r@),
{
    compute_id(object.kind(), object.serialize())
}

/// The bytes to store for an object: its framed bytes, compressed.
pub fn encode_object(kind: ObjectKind, content: &[u8]) -> (r: Vec<u8>)
    ensures
        r@ == deflated(frame(kind, content@)),
        inflated(r@) == Some(frame(kind, content@)),
{
    let mut raw = object_header(kind, content.len());
    crate::bytes::append_bytes(&mut raw, content);
    encode(raw.as_slice())
}

} // verus!
