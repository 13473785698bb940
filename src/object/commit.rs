//! Commit objects: header lines `key SP value`, a blank line, then the message.
use vstd::prelude::*;
use vstd::utf8::valid_utf8;

use crate::bytes::{bytes_eq, copy_range, find_byte, first_from, lemma_first_from};
use crate::object::{GitObject, ObjectError, ObjectKind};

verus! {

/// Header pairs as (key, value) byte strings.
pub open spec fn headers_view(hs: Seq<(Vec<u8>, Vec<u8>)>) -> Seq<(Seq<u8>, Seq<u8>)> {
    hs.map_values(|h: (Vec<u8>, Vec<u8>)| (h.0@, h.1@))
}

pub open spec fn bytes_list_view(vs: Seq<Vec<u8>>) -> Seq<Seq<u8>> {
    vs.map_values(|v: Vec<u8>| v@)
}

/// Where the line that starts at `i` and whose newline is at `e` ends: a
/// carriage return right before the newline is not part of the line.
pub open spec fn line_stop(b: Seq<u8>, i: int, e: int) -> int {
    if e < b.len() && e > i && b[e - 1] == 13 {
        e - 1
    } else {
        e
    }
}

/// The header lines of `b[i..]` up to the first empty line, with the index
/// where the message starts; `None` when a header line has no space. Lines
/// end at `\n` or `\r\n`.
pub open spec fn parse_headers_from(b: Seq<u8>, i: nat) -> Option<(Seq<(Seq<u8>, Seq<u8>)>, nat)>
    decreases b.len() + 1 - i via parse_headers_decreases
{
    if i >= b.len() {
        Some((Seq::empty(), b.len()))
    } else {
        let e = first_from(b, i as int, 10);
        let le = line_stop(b, i as int, e);
        let sp = first_from(b, i as int, 32);
        if le == i {
            Some((Seq::empty(), (e + 1) as nat))
        } else if sp >= le {
            None
        } else {
            match parse_headers_from(b, (e + 1) as nat) {
                Some((rest, m)) => Some(
                    (seq![(b.subrange(i as int, sp), b.subrange(sp + 1, le))] + rest, m),
                ),
                None => None,
            }
        }
    }
}

#[via_fn]
proof fn parse_headers_decreases(b: Seq<u8>, i: nat) {
    if i < b.len() {
        lemma_first_from(b, i as int, 10);
        lemma_first_from(b, i as int, 32);
    }
}

/// The values of the headers named `key`, in order.
pub open spec fn values_of(hs: Seq<(Seq<u8>, Seq<u8>)>, key: Seq<u8>) -> Seq<Seq<u8>>
    decreases hs.len(),
{
    if hs.len() == 0 {
        Seq::empty()
    } else if hs.last().0 == key {
        values_of(hs.drop_last(), key).push(hs.last().1)
    } else {
        values_of(hs.drop_last(), key)
    }
}

pub open spec fn first_of(vs: Seq<Seq<u8>>) -> Option<Seq<u8>> {
    if vs.len() > 0 {
        Some(vs[0])
    } else {
        None
    }
}

pub open spec fn tree_key() -> Seq<u8> {
    seq![116u8, 114, 101, 101]
}

pub open spec fn parent_key() -> Seq<u8> {
    seq![112u8, 97, 114, 101, 110, 116]
}

pub open spec fn author_key() -> Seq<u8> {
    seq![97u8, 117, 116, 104, 111, 114]
}

pub open spec fn committer_key() -> Seq<u8> {
    seq![99u8, 111, 109, 109, 105, 116, 116, 101, 114]
}

/// What a commit's bytes say.
pub struct CommitView {
    pub headers: Seq<(Seq<u8>, Seq<u8>)>,
    pub tree: Seq<u8>,
    pub parents: Seq<Seq<u8>>,
    pub author: Option<Seq<u8>>,
    pub committer: Option<Seq<u8>>,
    pub message: Seq<u8>,
    /// The message is not well-formed UTF-8.
    pub encoding_issue: bool,
}

/// The parsed form of a commit; `None` when a header line has no space or
/// when there is not exactly one `tree` header.
pub open spec fn parse_commit(b: Seq<u8>) -> Option<CommitView> {
    match parse_headers_from(b, 0) {
        None => None,
        Some((hs, m)) => {
            let trees = values_of(hs, tree_key());
            if trees.len() != 1 {
                None
            } else {
                Some(
                    CommitView {
                        headers: hs,
                        tree: trees[0],
                        parents: values_of(hs, parent_key()),
                        author: first_of(values_of(hs, author_key())),
                        committer: first_of(values_of(hs, committer_key())),
                        message: b.subrange(m as int, b.len() as int),
                        encoding_issue: !valid_utf8(b.subrange(m as int, b.len() as int)),
                    },
                )
            }
        }
    }
}

spec fn prepend_headers(
    pre: Seq<(Seq<u8>, Seq<u8>)>,
    o: Option<(Seq<(Seq<u8>, Seq<u8>)>, nat)>,
) -> Option<(Seq<(Seq<u8>, Seq<u8>)>, nat)> {
    match o {
        Some((rest, m)) => Some((pre + rest, m)),
        None => None,
    }
}

/// Relies on std::str::from_utf8: it succeeds exactly on well-formed UTF-8.
#[verifier::external_body]
fn is_utf8(b: &[u8]) -> (r: bool)
    ensures
        r == valid_utf8(b@),
{
    std::str::from_utf8(b).is_ok()
}

/// Reads the header block of a commit: the (key, value) pairs in order and
/// the index where the message starts.
pub fn read_commit_header(data: &[u8]) -> (r: Result<(Vec<(Vec<u8>, Vec<u8>)>, usize), ObjectError>)
    ensures
        match r {
            Ok((hs, m)) => parse_headers_from(data@, 0) == Some((headers_view(hs@), m as nat))
                && m <= data@.len(),
            Err(e) => e == ObjectError::MalformedCommitHeader && parse_headers_from(data@, 0) is None,
        },
{
    let mut hs: Vec<(Vec<u8>, Vec<u8>)> = Vec::new();
    let mut i: usize = 0;
    loop
        invariant
            i <= data@.len(),
            parse_headers_from(data@, 0) == prepend_headers(headers_view(hs@), parse_headers_from(data@, i as nat)),
        decreases data@.len() - i,
    {
        if i >= data.len() {
            proof {
                assert(headers_view(hs@) + Seq::<(Seq<u8>, Seq<u8>)>::empty() =~= headers_view(hs@));
            }
            return Ok((hs, data.len()));
        }
        let e = find_byte(data, i, 10);
        let le = if e < data.len() && e > i && data[e - 1] == 13 {
            e - 1
        } else {
            e
        };
        if le == i {
            proof {
                assert(headers_view(hs@) + Seq::<(Seq<u8>, Seq<u8>)>::empty() =~= headers_view(hs@));
            }
            return Ok((hs, e + 1));
        }
        let sp = find_byte(data, i, 32);
        if sp >= le {
            return Err(ObjectError::MalformedCommitHeader);
        }
        let ghost pre = headers_view(hs@);
        let key = copy_range(data, i, sp);
        let value = copy_range(data, sp + 1, le);
        let ghost kv = (key@, value@);
        hs.push((key, value));
        if e >= data.len() {
            proof {
                assert(headers_view(hs@) =~= pre.push(kv));
                assert(parse_headers_from(data@, (e + 1) as nat) == Some((Seq::<(Seq<u8>, Seq<u8>)>::empty(), data@.len())));
                assert(parse_headers_from(data@, i as nat) == Some((seq![kv] + Seq::<(Seq<u8>, Seq<u8>)>::empty(), data@.len())));
                assert(pre + (seq![kv] + Seq::<(Seq<u8>, Seq<u8>)>::empty()) =~= pre.push(kv));
            }
            return Ok((hs, data.len()));
        }
        i = e + 1;
        proof {
            assert(headers_view(hs@) =~= pre.push(kv));
            match parse_headers_from(data@, i as nat) {
                Some((rest, m)) => {
                    assert(pre + (seq![kv] + rest) =~= pre.push(kv) + rest);
                },
                None => {},
            }
        }
    }
}

/// Copies of the values of the headers named `key`, in order.
fn values_for(hs: &Vec<(Vec<u8>, Vec<u8>)>, key: &[u8]) -> (r: Vec<Vec<u8>>)
    ensures
        bytes_list_view(r@) == values_of(headers_view(hs@), key@),
{
    let mut r: Vec<Vec<u8>> = Vec::new();
    let mut i: usize = 0;
    while i < hs.len()
        invariant
            i <= hs@.len(),
            bytes_list_view(r@) == values_of(headers_view(hs@).take(i as int), key@),
        decreases hs@.len() - i,
    {
        let ghost hv = headers_view(hs@);
        proof {
            assert(hv.take(i + 1).drop_last() =~= hv.take(i as int));
        }
        let k = &hs[i].0;
        if bytes_eq(k.as_slice(), key) {
            let v = copy_range(hs[i].1.as_slice(), 0, hs[i].1.len());
            proof {
                assert(hs[i as int].1@.subrange(0, hs[i as int].1@.len() as int) =~= hs[i as int].1@);
            }
            let ghost old_r = r@;
            r.push(v);
            proof {
                assert(bytes_list_view(r@) =~= bytes_list_view(old_r).push(v@));
            }
        }
        i = i + 1;
    }
    proof {
        assert(headers_view(hs@).take(i as int) =~= headers_view(hs@));
    }
    r
}

/// A parsed commit object.
pub struct GitCommit {
    data: Vec<u8>,
    headers: Vec<(Vec<u8>, Vec<u8>)>,
    tree: Vec<u8>,
    parents: Vec<Vec<u8>>,
    author: Option<Vec<u8>>,
    committer: Option<Vec<u8>>,
    message: Vec<u8>,
    encoding_issue: bool,
}

pub struct GitCommitView {
    pub data: Seq<u8>,
    pub commit: CommitView,
}

pub open spec fn opt_view(o: Option<Vec<u8>>) -> Option<Seq<u8>> {
    match o {
        Some(v) => Some(v@),
        None => None,
    }
}

impl View for GitCommit {
    type V = GitCommitView;

    closed spec fn view(&self) -> GitCommitView {
        GitCommitView {
            data: self.data@,
            commit: CommitView {
                headers: headers_view(self.headers@),
                tree: self.tree@,
                parents: bytes_list_view(self.parents@),
                author: opt_view(self.author),
                committer: opt_view(self.committer),
                message: self.message@,
                encoding_issue: self.encoding_issue,
            },
        }
    }
}

fn first_copy(vs: &Vec<Vec<u8>>) -> (r: Option<Vec<u8>>)
    ensures
        opt_view(r) == first_of(bytes_list_view(vs@)),
{
    if vs.len() > 0 {
        let v = copy_range(vs[0].as_slice(), 0, vs[0].len());
        proof {
            assert(vs@[0]@.subrange(0, vs@[0]@.len() as int) =~= vs@[0]@);
        }
        Some(v)
    } else {
        None
    }
}

impl GitCommit {
    /// The fields are exactly what the bytes say.
    pub open spec fn wf(&self) -> bool {
        parse_commit(self@.data) == Some(self@.commit)
    }

    /// Parses the bytes of a commit object.
    pub fn new(data: Vec<u8>) -> (r: Result<GitCommit, ObjectError>)
        ensures
            match r {
                Ok(c) => c.wf() && c@.data == data@,
                Err(e) => e == ObjectError::MalformedCommitHeader && parse_commit(data@) is None,
            },
    {
        let (headers, m) = match read_commit_header(data.as_slice()) {
            Ok(x) => x,
            Err(e) => {
                return Err(e);
            },
        };
        let trees = values_for(&headers, vec![116u8, 114, 101, 101].as_slice());
        if trees.len() != 1 {
            return Err(ObjectError::MalformedCommitHeader);
        }
        let tree = copy_range(trees[0].as_slice(), 0, trees[0].len());
        let parents = values_for(&headers, vec![112u8, 97, 114, 101, 110, 116].as_slice());
        let authors = values_for(&headers, vec![97u8, 117, 116, 104, 111, 114].as_slice());
        let committers = values_for(
            &headers,
            vec![99u8, 111, 109, 109, 105, 116, 116, 101, 114].as_slice(),
        );
        let author = first_copy(&authors);
        let committer = first_copy(&committers);
        let message = copy_range(data.as_slice(), m, data.len());
        let encoding_issue = !is_utf8(message.as_slice());
        proof {
            assert(trees@[0]@.subrange(0, trees@[0]@.len() as int) =~= trees@[0]@);
            assert(bytes_list_view(trees@)[0] == trees@[0]@);
        }
        let c = GitCommit {
            data,
            headers,
            tree,
            parents,
            author,
            committer,
            message,
            encoding_issue,
        };
        proof {
            assert(c@.commit =~= parse_commit(c@.data).unwrap());
        }
        Ok(c)
    }

    /// All header pairs, in order.
    pub fn headers(&self) -> (r: &Vec<(Vec<u8>, Vec<u8>)>)
        ensures
            headers_view(r@) == self@.commit.headers,
    {
        &self.headers
    }

    /// The value of the single `tree` header.
    pub fn tree(&self) -> (r: &Vec<u8>)
        ensures
            r@ == self@.commit.tree,
    {
        &self.tree
    }

    /// The values of the `parent` headers, in order.
    pub fn parents(&self) -> (r: &Vec<Vec<u8>>)
        ensures
            bytes_list_view(r@) == self@.commit.parents,
    {
        &self.parents
    }

    /// The value of the first `author` header, if any.
    pub fn author(&self) -> (r: &Option<Vec<u8>>)
        ensures
            opt_view(*r) == self@.commit.author,
    {
        &self.author
    }

    /// The value of the first `committer` header, if any.
    pub fn committer(&self) -> (r: &Option<Vec<u8>>)
        ensures
            opt_view(*r) == self@.commit.committer,
    {
        &self.committer
    }

    /// The message: every byte after the first empty line.
    pub fn message(&self) -> (r: &Vec<u8>)
        ensures
            r@ == self@.commit.message,
    {
        &self.message
    }

    /// Whether the message is not well-formed UTF-8 (it is kept as bytes either way).
    pub fn encoding_issue(&self) -> (r: bool)
        ensures
            r == self@.commit.encoding_issue,
    {
        self.encoding_issue
    }
}

impl GitObject for GitCommit {
    open spec fn kind_spec(&self) -> ObjectKind {
        ObjectKind::Commit
    }

    open spec fn bytes_spec(&self) -> Seq<u8> {
        self@.data
    }

    fn kind(&self) -> (r: ObjectKind) {
        ObjectKind::Commit
    }

    /// The bytes exactly as parsed.
    fn serialize(&self) -> (r: &[u8]) {
        self.data.as_slice()
    }
}

} // verus!
