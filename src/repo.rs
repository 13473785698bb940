//! The repository layout: paths under the metadata directory, the
//! initialization plan, and the decisions of symbolic-ref resolution.
use vstd::prelude::*;

use crate::addressing::{is_hex_char, valid_id};
use crate::codec::{decode, inflated};
use crate::object::{
    agrees, content_error, decode_frame, decode_frame_spec, frame, lemma_frame_round_trip, Object,
    ObjectError, ObjectKind,
};

verus! {

/// `base` extended by `p` as a path: an absolute `p` replaces `base`, and a
/// separator is put between them unless `base` is empty or already ends in one.
pub open spec fn path_push(base: Seq<char>, p: Seq<char>) -> Seq<char> {
    if p.len() > 0 && p[0] == '/' {
        p
    } else if base.len() == 0 || base.last() == '/' {
        base + p
    } else {
        base + seq!['/'] + p
    }
}

/// `base` extended by each of `ps` in turn.
pub open spec fn path_push_all(base: Seq<char>, ps: Seq<Seq<char>>) -> Seq<char>
    decreases ps.len(),
{
    if ps.len() == 0 {
        base
    } else {
        path_push(path_push_all(base, ps.drop_last()), ps.last())
    }
}

pub open spec fn strs_view(names: Seq<&str>) -> Seq<Seq<char>> {
    names.map_values(|n: &str| n@)
}

/// Extends the path in `buf` by `p`.
fn push_path(buf: &mut String, p: &str)
    ensures
        final(buf)@ == path_push(old(buf)@, p@),
{
    proof {
        reveal_strlit("/");
    }
    let n = p.unicode_len();
    if n > 0 && p.get_char(0) == '/' {
        *buf = String::from_str(p);
        return ;
    }
    let m = buf.as_str().unicode_len();
    if m > 0 && buf.as_str().get_char(m - 1) != '/' {
        buf.append("/");
    }
    buf.append(p);
}

pub open spec fn objects_dir() -> Seq<char> {
    seq!['o', 'b', 'j', 'e', 'c', 't', 's']
}

/// Where the object with id `sha` is stored: the first two hex digits name a
/// subdirectory of `objects`, the other 38 the file.
pub open spec fn object_path(git_dir: Seq<char>, sha: Seq<char>) -> Seq<char> {
    path_push_all(git_dir, seq![objects_dir(), sha.subrange(0, 2), sha.subrange(2, 40)])
}

/// The outcome of reading stored bytes: decompress, then decode the frame.
pub open spec fn read_stored_spec(stored: Seq<u8>) -> Result<(ObjectKind, Seq<u8>), ObjectError> {
    match inflated(stored) {
        None => Err(ObjectError::CorruptObject),
        Some(raw) => decode_frame_spec(raw),
    }
}

/// Store round trip: bytes that decompress to the frame of a kind and a
/// content (as the bytes `encode_object` produces do) read back as that kind
/// and content, for any content that is valid for the kind (any content at
/// all for blobs and tags, empty or holding NUL bytes included).
pub proof fn lemma_store_round_trip(kind: ObjectKind, content: Seq<u8>, stored: Seq<u8>)
    requires
        content_error(kind, content) is None,
        inflated(stored) == Some(frame(kind, content)),
    ensures
        read_stored_spec(stored) == Ok::<(ObjectKind, Seq<u8>), ObjectError>((kind, content)),
{
    lemma_frame_round_trip(kind, content);
}

/// Whether `sha` is a well-formed object id.
pub fn check_id(sha: &str) -> (r: bool)
    ensures
        r == valid_id(sha@),
{
    if sha.unicode_len() != 40 {
        return false;
    }
    let mut i: usize = 0;
    while i < 40
        invariant
            sha@.len() == 40,
            i <= 40,
            forall|k: int| 0 <= k < i ==> is_hex_char(#[trigger] sha@[k]),
        decreases 40 - i,
    {
        let c = sha.get_char(i);
        if !(('0' <= c && c <= '9') || ('a' <= c && c <= 'f') || ('A' <= c && c <= 'F')) {
            return false;
        }
        i = i + 1;
    }
    true
}

/// How many `ref: ` indirections are followed before a chain counts as cyclic.
pub const MAX_REF_DEPTH: usize = 5;

/// Why a ref could not be resolved.
#[derive(PartialEq, Eq, Structural, Clone, Copy, Debug)]
pub enum RefError {
    /// The ref file does not exist.
    MissingRef,
    /// More than `MAX_REF_DEPTH` indirections.
    CyclicRef,
    /// The line is neither `ref: <name>` nor an object id.
    MalformedRef,
}

/// What to do with the content of one ref file.
pub enum RefStep {
    /// The chain ends in this object id.
    Resolved(String),
    /// Go on with the ref of this name.
    Follow(String),
    Failed(RefError),
}

pub open spec fn is_blank(c: char) -> bool {
    c == ' ' || c == '\t' || c == '\r'
}

/// Index of the first newline at or after `i`, or the length.
pub open spec fn line_end(s: Seq<char>, i: int) -> int
    decreases s.len() - i,
{
    if i >= s.len() {
        s.len() as int
    } else if s[i] == '\n' {
        i
    } else {
        line_end(s, i + 1)
    }
}

pub open spec fn trim_lo(s: Seq<char>, i: int, e: int) -> int
    decreases e - i,
{
    if i < e && is_blank(s[i]) {
        trim_lo(s, i + 1, e)
    } else {
        i
    }
}

pub open spec fn trim_hi(s: Seq<char>, lo: int, j: int) -> int
    decreases j - lo,
{
    if j > lo && is_blank(s[j - 1]) {
        trim_hi(s, lo, j - 1)
    } else {
        j
    }
}

/// The first line of a ref file, without surrounding blanks.
pub open spec fn ref_line(s: Seq<char>) -> Seq<char> {
    let e = line_end(s, 0);
    let lo = trim_lo(s, 0, e);
    s.subrange(lo, trim_hi(s, lo, e))
}

/// The target of a symbolic line `ref: <target>`.
pub open spec fn symbolic_target(line: Seq<char>) -> Option<Seq<char>> {
    if line.len() >= 5 && line.subrange(0, 5) == seq!['r', 'e', 'f', ':', ' '] {
        Some(line.subrange(5, line.len() as int))
    } else {
        None
    }
}

/// Decides what the content of a ref file means, `depth` indirections into
/// a resolution: an object id ends it, `ref: <name>` continues with `name`
/// unless the depth bound is reached.
pub fn ref_step(content: &str, depth: usize) -> (r: RefStep)
    ensures
        ({
            let line = ref_line(content@);
            match symbolic_target(line) {
                Some(t) => if depth >= MAX_REF_DEPTH {
                    r == RefStep::Failed(RefError::CyclicRef)
                } else {
                    r matches RefStep::Follow(n) && n@ == t
                },
                None => if valid_id(line) {
                    r matches RefStep::Resolved(id) && id@ == line
                } else {
                    r == RefStep::Failed(RefError::MalformedRef)
                },
            }
        }),
{
    let ghost s = content@;
    let n = content.unicode_len();
    let mut e: usize = 0;
    while e < n && content.get_char(e) != '\n'
        invariant
            s == content@,
            n == s.len(),
            e <= n,
            line_end(s, 0) == line_end(s, e as int),
        decreases n - e,
    {
        e = e + 1;
    }
    let mut lo: usize = 0;
    while lo < e && is_blank_char(content.get_char(lo))
        invariant
            s == content@,
            n == s.len(),
            e == line_end(s, 0),
            e <= n,
            lo <= e,
            trim_lo(s, 0, e as int) == trim_lo(s, lo as int, e as int),
        decreases e - lo,
    {
        lo = lo + 1;
    }
    let mut hi: usize = e;
    while hi > lo && is_blank_char(content.get_char(hi - 1))
        invariant
            s == content@,
            n == s.len(),
            e <= n,
            lo <= hi <= e,
            lo == trim_lo(s, 0, line_end(s, 0)),
            e == line_end(s, 0),
            trim_hi(s, lo as int, e as int) == trim_hi(s, lo as int, hi as int),
        decreases hi - lo,
    {
        hi = hi - 1;
    }
    let line = content.substring_char(lo, hi);
    let len = hi - lo;
    if len >= 5 && line.get_char(0) == 'r' && line.get_char(1) == 'e' && line.get_char(2) == 'f'
        && line.get_char(3) == ':' && line.get_char(4) == ' ' {
        proof {
            assert(line@.subrange(0, 5) =~= seq!['r', 'e', 'f', ':', ' ']);
        }
        if depth >= MAX_REF_DEPTH {
            return RefStep::Failed(RefError::CyclicRef);
        }
        return RefStep::Follow(String::from_str(line.substring_char(5, len)));
    }
    proof {
        if line@.len() >= 5 && line@.subrange(0, 5) == seq!['r', 'e', 'f', ':', ' '] {
            assert(line@[0] == line@.subrange(0, 5)[0]);
            assert(line@[1] == line@.subrange(0, 5)[1]);
            assert(line@[2] == line@.subrange(0, 5)[2]);
            assert(line@[3] == line@.subrange(0, 5)[3]);
            assert(line@[4] == line@.subrange(0, 5)[4]);
        }
    }
    if check_id(line) {
        RefStep::Resolved(String::from_str(line))
    } else {
        RefStep::Failed(RefError::MalformedRef)
    }
}

fn is_blank_char(c: char) -> (r: bool)
    ensures
        r == is_blank(c),
{
    c == ' ' || c == '\t' || c == '\r'
}

/// One step of creating a repository's metadata directory.
pub enum InitStep {
    /// Create this directory and its missing ancestors.
    CreateDir(String),
    /// Write this file with this text.
    WriteFile(String, String),
}

pub open spec fn is_dir_step(s: InitStep, path: Seq<char>) -> bool {
    s matches InitStep::CreateDir(p) && p@ == path
}

pub open spec fn is_file_step(s: InitStep, path: Seq<char>, text: Seq<char>) -> bool {
    s matches InitStep::WriteFile(p, t) && p@ == path && t@ == text
}

pub open spec fn head_text() -> Seq<char> {
    "ref: refs/heads/master\n"@
}

pub open spec fn description_text() -> Seq<char> {
    "Unnamed repository; edit this file 'description' to name the repository.\n"@
}

/// A repository: a working tree and its metadata directory.
pub struct GitRepository {
    worktree: String,
    git_dir: String,
}

pub struct RepositoryView {
    pub worktree: Seq<char>,
    pub git_dir: Seq<char>,
}

impl View for GitRepository {
    type V = RepositoryView;

    closed spec fn view(&self) -> RepositoryView {
        RepositoryView { worktree: self.worktree@, git_dir: self.git_dir@ }
    }
}

impl GitRepository {
    /// The repository of the current directory: `.` with metadata in `.git`.
    pub fn default() -> (r: GitRepository)
        ensures
            r@.worktree == seq!['.'],
            r@.git_dir == seq!['.', 'g', 'i', 't'],
    {
        proof {
            reveal_strlit(".");
            reveal_strlit(".git");
        }
        GitRepository { worktree: String::from_str("."), git_dir: String::from_str(".git") }
    }

    /// The repository whose working tree is `worktree`, with metadata in its `.git`.
    pub fn for_worktree(worktree: &str) -> (r: GitRepository)
        ensures
            r@.worktree == worktree@,
            r@.git_dir == path_push(worktree@, seq!['.', 'g', 'i', 't']),
    {
        proof {
            reveal_strlit(".git");
        }
        let mut git_dir = String::from_str(worktree);
        push_path(&mut git_dir, ".git");
        GitRepository { worktree: String::from_str(worktree), git_dir }
    }

    pub fn worktree(&self) -> (r: &str)
        ensures
            r@ == self@.worktree,
    {
        self.worktree.as_str()
    }

    pub fn git_dir(&self) -> (r: &str)
        ensures
            r@ == self@.git_dir,
    {
        self.git_dir.as_str()
    }

    /// The path of `name` inside the metadata directory.
    pub fn repo_file(&self, name: &str) -> (r: String)
        ensures
            r@ == path_push(self@.git_dir, name@),
    {
        let mut r = String::from_str(self.git_dir.as_str());
        push_path(&mut r, name);
        r
    }

    /// The path inside the metadata directory reached by each of `names` in turn.
    pub fn repo_files(&self, names: &[&str]) -> (r: String)
        ensures
            r@ == path_push_all(self@.git_dir, strs_view(names@)),
    {
        let mut r = String::from_str(self.git_dir.as_str());
        let mut i: usize = 0;
        while i < names.len()
            invariant
                i <= names@.len(),
                r@ == path_push_all(self@.git_dir, strs_view(names@).take(i as int)),
            decreases names@.len() - i,
        {
            proof {
                assert(strs_view(names@).take(i + 1).drop_last() =~= strs_view(names@).take(i as int));
            }
            push_path(&mut r, names[i]);
            i = i + 1;
        }
        proof {
            assert(strs_view(names@).take(i as int) =~= strs_view(names@));
        }
        r
    }

    /// The path of the file that holds the object `sha`.
    pub fn object_file(&self, sha: &str) -> (r: Result<String, ObjectError>)
        ensures
            match r {
                Ok(p) => valid_id(sha@) && p@ == object_path(self@.git_dir, sha@),
                Err(e) => !valid_id(sha@) && e == ObjectError::InvalidObjectId,
            },
    {
        if !check_id(sha) {
            return Err(ObjectError::InvalidObjectId);
        }
        proof {
            reveal_strlit("objects");
        }
        let mut r = String::from_str(self.git_dir.as_str());
        push_path(&mut r, "objects");
        push_path(&mut r, sha.substring_char(0, 2));
        push_path(&mut r, sha.substring_char(2, 40));
        proof {
            let g = self@.git_dir;
            let ps = seq![objects_dir(), sha@.subrange(0, 2), sha@.subrange(2, 40)];
            assert("objects"@ =~= objects_dir());
            assert(ps.drop_last().drop_last().drop_last() =~= Seq::<Seq<char>>::empty());
            assert(ps.drop_last().drop_last() =~= seq![objects_dir()]);
            assert(ps.drop_last() =~= seq![objects_dir(), sha@.subrange(0, 2)]);
            let p1 = seq![objects_dir()];
            assert(p1.drop_last() =~= Seq::<Seq<char>>::empty());
            assert(path_push_all(g, p1.drop_last()) == g);
            assert(path_push_all(g, p1) == path_push(g, objects_dir()));
            assert(path_push_all(g, ps.drop_last()) == path_push(
                path_push(g, objects_dir()),
                sha@.subrange(0, 2),
            ));
        }
        Ok(r)
    }

    /// Reads an object from its stored (compressed) bytes.
    pub fn new(&self, stored: &[u8]) -> (r: Result<Object, ObjectError>)
        ensures
            agrees(r, read_stored_spec(stored@)),
    {
        match decode(stored) {
            Ok(raw) => decode_frame(raw.as_slice()),
            Err(e) => Err(e),
        }
    }

    /// Reads the object `sha`, given the bytes found at its path (`None`
    /// where no file is there). The id is checked before anything else.
    pub fn read_object(&self, sha: &str, stored: Option<&[u8]>) -> (r: Result<Object, ObjectError>)
        ensures
            agrees(
                r,
                if !valid_id(sha@) {
                    Err(ObjectError::InvalidObjectId)
                } else {
                    match stored {
                        None => Err(ObjectError::ObjectNotFound),
                        Some(b) => read_stored_spec(b@),
                    }
                },
            ),
    {
        if !check_id(sha) {
            return Err(ObjectError::InvalidObjectId);
        }
        match stored {
            None => Err(ObjectError::ObjectNotFound),
            Some(b) => self.new(b),
        }
    }

    /// What creating the metadata directory takes: nothing where it already
    /// exists, so that existing refs, HEAD and description stay as they are.
    pub fn init_steps(&self, git_dir_exists: bool) -> (r: Vec<InitStep>)
        ensures
            git_dir_exists ==> r@.len() == 0,
            !git_dir_exists ==> {
                &&& r@.len() == 5
                &&& is_dir_step(r@[0], path_push(self@.git_dir, "objects"@))
                &&& is_dir_step(r@[1], path_push(self@.git_dir, "refs/tags"@))
                &&& is_dir_step(r@[2], path_push(self@.git_dir, "refs/heads"@))
                &&& is_file_step(r@[3], path_push(self@.git_dir, "HEAD"@), head_text())
                &&& is_file_step(r@[4], path_push(self@.git_dir, "description"@), description_text())
            },
    {
        let mut steps: Vec<InitStep> = Vec::new();
        if git_dir_exists {
            return steps;
        }
        steps.push(InitStep::CreateDir(self.repo_file("objects")));
        steps.push(InitStep::CreateDir(self.repo_file("refs/tags")));
        steps.push(InitStep::CreateDir(self.repo_file("refs/heads")));
        steps.push(
            InitStep::WriteFile(self.repo_file("HEAD"), String::from_str("ref: refs/heads/master\n")),
        );
        steps.push(
            InitStep::WriteFile(
                self.repo_file("description"),
                String::from_str(
                    "Unnamed repository; edit this file 'description' to name the repository.\n",
                ),
            ),
        );
        steps
    }
}

} // verus!
