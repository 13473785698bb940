//! Tree objects: a sequence of `mode SP filename NUL <20-byte id>` entries.
use vstd::prelude::*;

use crate::bytes::{
    all_digits, append_bytes, copy_range, dec_digits, dec_value, find_byte, first_from,
    lemma_dec_digits, lemma_dec_value_prefix, lemma_first_from, lemma_first_from_at, decimal,
};
use crate::object::{GitObject, ObjectError, ObjectKind};

verus! {

/// One directory entry of a tree.
pub struct GitTreeEntry {
    pub mode: u32,
    pub filename: Vec<u8>,
    /// The referenced object's id, in its 20-byte binary form.
    pub sha: Vec<u8>,
}

/// The mathematical value of a tree entry.
pub struct TreeEntryView {
    pub mode: u32,
    pub filename: Seq<u8>,
    pub sha: Seq<u8>,
}

impl View for GitTreeEntry {
    type V = TreeEntryView;

    open spec fn view(&self) -> TreeEntryView {
        TreeEntryView { mode: self.mode, filename: self.filename@, sha: self.sha@ }
    }
}

pub open spec fn entries_view(items: Seq<GitTreeEntry>) -> Seq<TreeEntryView> {
    items.map_values(|e: GitTreeEntry| e@)
}

/// A mode field: a non-empty run of decimal digits whose value fits in 32 bits.
pub open spec fn mode_ok(m: Seq<u8>) -> bool {
    m.len() > 0 && all_digits(m) && dec_value(m) <= u32::MAX
}

/// The entries of `b[i..]`, or `None` when some entry there is malformed.
pub open spec fn parse_entries_from(b: Seq<u8>, i: nat) -> Option<Seq<TreeEntryView>>
    decreases b.len() - i via parse_entries_decreases
{
    if i >= b.len() {
        Some(Seq::empty())
    } else {
        let s = first_from(b, i as int, 32);
        let z = first_from(b, s + 1, 0);
        if s >= b.len() || !mode_ok(b.subrange(i as int, s)) || z >= b.len() || z + 21 > b.len() {
            None
        } else {
            match parse_entries_from(b, (z + 21) as nat) {
                Some(rest) => Some(
                    seq![
                        TreeEntryView {
                            mode: dec_value(b.subrange(i as int, s)) as u32,
                            filename: b.subrange(s + 1, z),
                            sha: b.subrange(z + 1, z + 21),
                        },
                    ] + rest,
                ),
                None => None,
            }
        }
    }
}

#[via_fn]
proof fn parse_entries_decreases(b: Seq<u8>, i: nat) {
    if i < b.len() {
        lemma_first_from(b, i as int, 32);
        let s = first_from(b, i as int, 32);
        if s < b.len() {
            lemma_first_from(b, s + 1, 0);
        }
    }
}

/// The entries of a serialized tree, in stored order.
pub open spec fn parse_tree(b: Seq<u8>) -> Option<Seq<TreeEntryView>> {
    parse_entries_from(b, 0)
}

/// An entry that can be written: a filename without NUL and a 20-byte id.
pub open spec fn entry_ok(e: TreeEntryView) -> bool {
    &&& forall|k: int| 0 <= k < e.filename.len() ==> e.filename[k] != 0
    &&& e.sha.len() == 20
}

pub open spec fn encode_entry(e: TreeEntryView) -> Seq<u8> {
    dec_digits(e.mode as nat) + seq![32u8] + e.filename + seq![0u8] + e.sha
}

pub open spec fn encode_entries(es: Seq<TreeEntryView>) -> Seq<u8>
    decreases es.len(),
{
    if es.len() == 0 {
        Seq::empty()
    } else {
        encode_entries(es.drop_last()) + encode_entry(es.last())
    }
}

spec fn prepend(pre: Seq<TreeEntryView>, o: Option<Seq<TreeEntryView>>) -> Option<Seq<TreeEntryView>> {
    match o {
        Some(rest) => Some(pre + rest),
        None => None,
    }
}

/// A parsed tree object: its bytes and the entries they hold.
pub struct GitTree {
    data: Vec<u8>,
    items: Vec<GitTreeEntry>,
}

pub struct TreeView {
    pub data: Seq<u8>,
    pub entries: Seq<TreeEntryView>,
}

impl View for GitTree {
    type V = TreeView;

    closed spec fn view(&self) -> TreeView {
        TreeView { data: self.data@, entries: entries_view(self.items@) }
    }
}

impl GitTree {
    /// The entries are exactly what the bytes hold.
    pub open spec fn wf(&self) -> bool {
        parse_tree(self@.data) == Some(self@.entries)
    }

    /// Parses the bytes of a tree object; fails on any malformed or truncated entry.
    pub fn new(data: Vec<u8>) -> (r: Result<GitTree, ObjectError>)
        ensures
            match r {
                Ok(t) => t.wf() && t@.data == data@,
                Err(e) => e == ObjectError::MalformedTreeEntry && parse_tree(data@) is None,
            },
    {
        let mut items: Vec<GitTreeEntry> = Vec::new();
        let mut i: usize = 0;
        let b = data.as_slice();
        while i < b.len()
            invariant
                i <= b@.len(),
                b@ == data@,
                parse_tree(data@) == prepend(entries_view(items@), parse_entries_from(data@, i as nat)),
            decreases b@.len() - i,
        {
            let ghost pre = entries_view(items@);
            let s = find_byte(b, i, 32);
            if s >= b.len() {
                return Err(ObjectError::MalformedTreeEntry);
            }
            let mode = match parse_mode(b, i, s) {
                Some(m) => m,
                None => {
                    return Err(ObjectError::MalformedTreeEntry);
                },
            };
            let z = find_byte(b, s + 1, 0);
            if z >= b.len() || b.len() - z < 21 {
                return Err(ObjectError::MalformedTreeEntry);
            }
            let filename = copy_range(b, s + 1, z);
            let sha = copy_range(b, z + 1, z + 21);
            let e = GitTreeEntry { mode, filename, sha };
            let ghost ev = e@;
            items.push(e);
            i = z + 21;
            proof {
                assert(entries_view(items@) =~= pre.push(ev));
                match parse_entries_from(data@, i as nat) {
                    Some(rest) => {
                        assert(pre + (seq![ev] + rest) =~= pre.push(ev) + rest);
                    },
                    None => {},
                }
            }
        }
        proof {
            assert(entries_view(items@) + Seq::<TreeEntryView>::empty() =~= entries_view(items@));
        }
        Ok(GitTree { data, items })
    }

    /// The tree whose bytes encode `entries` in the given order.
    pub fn from_entries(entries: Vec<GitTreeEntry>) -> (r: GitTree)
        requires
            forall|k: int| 0 <= k < entries@.len() ==> entry_ok(#[trigger] entries@[k]@),
            encode_entries(entries_view(entries@)).len() <= usize::MAX,
        ensures
            r.wf(),
            r@.data == encode_entries(entries_view(entries@)),
            r@.entries == entries_view(entries@),
    {
        let mut data: Vec<u8> = Vec::new();
        let mut i: usize = 0;
        while i < entries.len()
            invariant
                i <= entries@.len(),
                encode_entries(entries_view(entries@)).len() <= usize::MAX,
                data@ == encode_entries(entries_view(entries@).take(i as int)),
            decreases entries@.len() - i,
        {
            let ghost es = entries_view(entries@);
            proof {
                assert(es.take(i + 1).drop_last() =~= es.take(i as int));
                lemma_encode_prefix_len(es, i + 1);
            }
            let e = &entries[i];
            let m = decimal(e.mode as usize);
            append_bytes(&mut data, m.as_slice());
            data.push(32u8);
            append_bytes(&mut data, e.filename.as_slice());
            data.push(0u8);
            append_bytes(&mut data, e.sha.as_slice());
            i = i + 1;
            proof {
                assert(data@ =~= encode_entries(es.take(i as int)));
            }
        }
        proof {
            assert(entries_view(entries@).take(i as int) =~= entries_view(entries@));
            lemma_tree_round_trip(entries_view(entries@));
        }
        GitTree { data, items: entries }
    }

    /// The entries, in stored order.
    pub fn entries(&self) -> (r: &Vec<GitTreeEntry>)
        ensures
            entries_view(r@) == self@.entries,
    {
        &self.items
    }
}

/// Reads the mode field `b[i..s]`.
fn parse_mode(b: &[u8], i: usize, s: usize) -> (r: Option<u32>)
    requires
        i <= s <= b@.len(),
    ensures
        r == (if mode_ok(b@.subrange(i as int, s as int)) {
            Some(dec_value(b@.subrange(i as int, s as int)) as u32)
        } else {
            None::<u32>
        }),
{
    let ghost m = b@.subrange(i as int, s as int);
    if s == i {
        return None;
    }
    let mut acc: u32 = 0;
    let mut k: usize = i;
    while k < s
        invariant
            i <= k <= s <= b@.len(),
            m == b@.subrange(i as int, s as int),
            all_digits(b@.subrange(i as int, k as int)),
            acc as nat == dec_value(b@.subrange(i as int, k as int)),
        decreases s - k,
    {
        let c = b[k];
        let ghost next = b@.subrange(i as int, k + 1);
        proof {
            assert(next.drop_last() =~= b@.subrange(i as int, k as int));
            assert(m.subrange(0, k + 1 - i) =~= next);
        }
        if c < 48 || c > 57 {
            proof {
                assert(m[k - i] == c);
            }
            return None;
        }
        let d: u32 = (c - 48) as u32;
        if acc > (u32::MAX - d) / 10 {
            proof {
                assert(acc * 10 + d > u32::MAX) by (nonlinear_arith)
                    requires
                        acc > (u32::MAX - d) / 10,
                        d <= 9,
                ;
                if all_digits(m) {
                    lemma_dec_value_prefix(m, k + 1 - i);
                }
            }
            return None;
        }
        proof {
            assert(acc * 10 + d <= u32::MAX) by (nonlinear_arith)
                requires
                    acc <= (u32::MAX - d) / 10,
                    d <= 9,
            ;
        }
        acc = acc * 10 + d;
        k = k + 1;
        proof {
            assert(all_digits(b@.subrange(i as int, k as int)));
        }
    }
    proof {
        assert(b@.subrange(i as int, k as int) =~= m);
    }
    Some(acc)
}

proof fn lemma_encode_prefix_len(es: Seq<TreeEntryView>, j: int)
    requires
        0 <= j <= es.len(),
    ensures
        encode_entries(es.take(j)).len() <= encode_entries(es).len(),
    decreases es.len(),
{
    if j < es.len() {
        assert(es.drop_last().take(j) =~= es.take(j));
        lemma_encode_prefix_len(es.drop_last(), j);
    } else {
        assert(es.take(j) =~= es);
    }
}

/// Splitting off the first entry of an encoding.
proof fn lemma_encode_front(es: Seq<TreeEntryView>)
    requires
        es.len() > 0,
    ensures
        encode_entries(es) =~= encode_entry(es[0]) + encode_entries(es.drop_first()),
    decreases es.len(),
{
    if es.len() > 1 {
        lemma_encode_front(es.drop_last());
        assert(es.drop_last().drop_first() =~= es.drop_first().drop_last());
    } else {
        assert(es.drop_first() =~= Seq::<TreeEntryView>::empty());
        assert(es.drop_last() =~= Seq::<TreeEntryView>::empty());
    }
}

/// Bytes that end in an encoding of `es` parse back to `es` from where it starts.
/// Entries written out in order parse back to the same entries in the same order.
pub proof fn lemma_tree_round_trip(es: Seq<TreeEntryView>)
    requires
        forall|k: int| 0 <= k < es.len() ==> entry_ok(#[trigger] es[k]),
    ensures
        parse_tree(encode_entries(es)) == Some(es),
{
    let enc = encode_entries(es);
    assert(enc.subrange(0, enc.len() as int) =~= enc);
    lemma_parse_encoded(enc, 0, es);
}

#[verifier::rlimit(60)]
proof fn lemma_parse_encoded(b: Seq<u8>, i: nat, es: Seq<TreeEntryView>)
    requires
        i <= b.len(),
        b.subrange(i as int, b.len() as int) == encode_entries(es),
        forall|k: int| 0 <= k < es.len() ==> entry_ok(#[trigger] es[k]),
    ensures
        parse_entries_from(b, i) == Some(es),
    decreases es.len(),
{
    if es.len() == 0 {
        assert(b.subrange(i as int, b.len() as int).len() == 0);
        assert(es =~= Seq::<TreeEntryView>::empty());
    } else {
        let e = es[0];
        assert(entry_ok(e));
        lemma_encode_front(es);
        lemma_dec_digits(e.mode as nat);
        let d = dec_digits(e.mode as nat);
        let tail = b.subrange(i as int, b.len() as int);
        let s: int = i + d.len() as int;
        let z: int = s + 1 + e.filename.len() as int;
        assert(tail.subrange(0, d.len() as int) =~= d);
        assert forall|k: int| i <= k < s implies b[k] != 32 by {
            assert(b[k] == tail[k - i]);
            assert(tail[k - i] == d[k - i]);
        }
        assert(b[s] == tail[s - i]);
        lemma_first_from_at(b, i as int, s, 32);
        assert forall|k: int| s + 1 <= k < z implies b[k] != 0 by {
            assert(b[k] == tail[k - i]);
            assert(tail[k - i] == e.filename[k - s - 1]);
        }
        assert(b[z] == tail[z - i]);
        lemma_first_from_at(b, s + 1, z, 0);
        assert(b.subrange(i as int, s) =~= d);
        let front = encode_entry(e);
        assert(tail =~= front + encode_entries(es.drop_first()));
        assert forall|k: int| 0 <= k < e.filename.len() implies b[s + 1 + k] == e.filename[k] by {
            assert(b[s + 1 + k] == tail[s + 1 + k - i]);
            assert(tail[s + 1 + k - i] == front[d.len() + 1 + k]);
        }
        assert forall|k: int| 0 <= k < 20 implies b[z + 1 + k] == e.sha[k] by {
            assert(b[z + 1 + k] == tail[z + 1 + k - i]);
            assert(tail[z + 1 + k - i] == front[d.len() + 2 + e.filename.len() + k]);
        }
        assert(b.subrange(s + 1, z) =~= e.filename);
        assert(b.subrange(z + 1, z + 21) =~= e.sha);
        let n = (z + 21) as nat;
        let rest = encode_entries(es.drop_first());
        assert(front.len() == n - i);
        assert forall|k: int| 0 <= k < rest.len() implies b[n + k] == rest[k] by {
            assert(b[n + k] == tail[n + k - i]);
            assert(tail[n + k - i] == rest[k]);
        }
        assert(b.subrange(n as int, b.len() as int) =~= rest);
        lemma_parse_encoded(b, n, es.drop_first());
        assert(seq![e] + es.drop_first() =~= es);
    }
}

impl GitObject for GitTree {
    open spec fn kind_spec(&self) -> ObjectKind {
        ObjectKind::Tree
    }

    open spec fn bytes_spec(&self) -> Seq<u8> {
        self@.data
    }

    fn kind(&self) -> (r: ObjectKind) {
        ObjectKind::Tree
    }

    /// The bytes exactly as parsed.
    fn serialize(&self) -> (r: &[u8]) {
        self.data.as_slice()
    }
}

} // verus!
