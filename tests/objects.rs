use git::addressing::{compute_id, id_to_hex};
use git::codec::{decode, encode};
use git::object::commit::read_commit_header;
use git::object::tree::GitTreeEntry;
use git::object::{
    decode_frame, encode_object, hash_object, kind_from_name, object_header, parse_object,
    GitBlob, GitCommit, GitObject, GitTag, GitTree, Object, ObjectError, ObjectKind,
};

#[test]
fn test_write_object() {
    let obj = GitBlob {
        data: "hello world\x0a".as_bytes().to_vec(),
    };
    assert_eq!(hash_object(&obj), "3b18e512dba79e4c8300dd08aeb37f8e728b8dad");
}

#[test]
fn test_read_into_kv() {
    let data = "tree parent1\ntree parent2\ncommitter me\n\nI'm the commit message";

    let kv = read_commit_header(data.as_bytes()).unwrap().0;

    assert_eq!(kv.len(), 3);
}

#[test]
fn known_blob_id() {
    assert_eq!(
        compute_id(ObjectKind::Blob, b"hello world\n"),
        "3b18e512dba79e4c8300dd08aeb37f8e728b8dad"
    );
}

#[test]
fn empty_blob_and_tree_ids() {
    assert_eq!(compute_id(ObjectKind::Blob, b""), "e69de29bb2d1d6434b8b29ae775ad8c2e48c5391");
    assert_eq!(compute_id(ObjectKind::Tree, b""), "4b825dc642cb6eb9a060e54bf8d69288fbee4904");
}

#[test]
fn id_is_deterministic() {
    let a = compute_id(ObjectKind::Commit, b"tree x\n");
    let b = compute_id(ObjectKind::Commit, b"tree x\n");
    let c = compute_id(ObjectKind::Blob, b"tree x\n");
    assert_eq!(a, b);
    assert_ne!(a, c);
    assert_eq!(a.len(), 40);
}

#[test]
fn hex_of_binary_id() {
    assert_eq!(id_to_hex(&[0xab, 0x01, 0xff]), "ab01ff");
}

#[test]
fn header_bytes() {
    assert_eq!(object_header(ObjectKind::Blob, 12), b"blob 12\0".to_vec());
    assert_eq!(object_header(ObjectKind::Commit, 0), b"commit 0\0".to_vec());
    assert_eq!(object_header(ObjectKind::Tag, 105), b"tag 105\0".to_vec());
}

#[test]
fn kind_names() {
    assert_eq!(kind_from_name(b"tree"), Some(ObjectKind::Tree));
    assert_eq!(kind_from_name(b"blob"), Some(ObjectKind::Blob));
    assert_eq!(kind_from_name(b"tags"), None);
    assert_eq!(ObjectKind::Commit.as_str(), "commit");
}

#[test]
fn codec_round_trip() {
    let raw = b"blob 3\0a\0b".to_vec();
    let stored = encode(&raw);
    assert_ne!(stored, raw);
    assert_eq!(decode(&stored), Ok(raw));
}

#[test]
fn codec_rejects_garbage() {
    assert_eq!(decode(b"definitely not zlib"), Err(ObjectError::CorruptObject));
}

fn entry(mode: u32, name: &str, fill: u8) -> GitTreeEntry {
    GitTreeEntry { mode, filename: name.as_bytes().to_vec(), sha: vec![fill; 20] }
}

#[test]
fn tree_entries_round_trip() {
    let tree = GitTree::from_entries(vec![entry(100644, "a.txt", 1), entry(40000, "subdir", 2)]);
    let parsed = GitTree::new(tree.serialize().to_vec()).unwrap();
    let es = parsed.entries();
    assert_eq!(es.len(), 2);
    assert_eq!(es[0].mode, 100644);
    assert_eq!(es[0].filename, b"a.txt".to_vec());
    assert_eq!(es[0].sha, vec![1u8; 20]);
    assert_eq!(es[1].mode, 40000);
    assert_eq!(es[1].filename, b"subdir".to_vec());
    assert_eq!(es[1].sha, vec![2u8; 20]);
    assert_eq!(parsed.serialize(), tree.serialize());
}

#[test]
fn tree_bytes_layout() {
    let tree = GitTree::from_entries(vec![entry(40000, "d", 7)]);
    let mut expected = b"40000 d\0".to_vec();
    expected.extend_from_slice(&[7u8; 20]);
    assert_eq!(tree.serialize(), &expected[..]);
    assert_eq!(tree.size(), 28);
    assert_eq!(tree.object_type(), "tree");
}

#[test]
fn tree_keeps_leading_zero_mode_bytes() {
    let mut data = b"040000 d\0".to_vec();
    data.extend_from_slice(&[9u8; 20]);
    let t = GitTree::new(data.clone()).unwrap();
    assert_eq!(t.entries()[0].mode, 40000);
    assert_eq!(t.serialize(), &data[..]);
}

#[test]
fn empty_tree_parses() {
    let t = GitTree::new(Vec::new()).unwrap();
    assert_eq!(t.entries().len(), 0);
}

#[test]
fn tree_rejects_malformed() {
    let mut bad_mode = b"10x644 a\0".to_vec();
    bad_mode.extend_from_slice(&[0u8; 20]);
    assert!(matches!(GitTree::new(bad_mode), Err(ObjectError::MalformedTreeEntry)));
    let mut empty_mode = b" a\0".to_vec();
    empty_mode.extend_from_slice(&[0u8; 20]);
    assert!(matches!(GitTree::new(empty_mode), Err(ObjectError::MalformedTreeEntry)));
    let mut short_id = b"100644 a\0".to_vec();
    short_id.extend_from_slice(&[0u8; 19]);
    assert!(matches!(GitTree::new(short_id), Err(ObjectError::MalformedTreeEntry)));
    assert!(matches!(GitTree::new(b"100644 a".to_vec()), Err(ObjectError::MalformedTreeEntry)));
    assert!(matches!(GitTree::new(b"100644".to_vec()), Err(ObjectError::MalformedTreeEntry)));
    let mut huge = b"99999999999 a\0".to_vec();
    huge.extend_from_slice(&[0u8; 20]);
    assert!(matches!(GitTree::new(huge), Err(ObjectError::MalformedTreeEntry)));
}

#[test]
fn commit_parse() {
    let input = b"tree T\nparent parent1\nparent parent2\nauthor A\ncommitter C\n\nmessage body\n".to_vec();
    let c = GitCommit::new(input.clone()).unwrap();
    assert_eq!(c.tree(), &b"T".to_vec());
    assert_eq!(c.parents(), &vec![b"parent1".to_vec(), b"parent2".to_vec()]);
    assert_eq!(c.author(), &Some(b"A".to_vec()));
    assert_eq!(c.committer(), &Some(b"C".to_vec()));
    assert_eq!(c.message(), &b"message body\n".to_vec());
    assert!(!c.encoding_issue());
    assert_eq!(c.headers().len(), 5);
    assert_eq!(c.serialize(), &input[..]);
}

#[test]
fn commit_without_parents_or_message() {
    let c = GitCommit::new(b"tree T\nx-extra value with spaces\n".to_vec()).unwrap();
    assert_eq!(c.parents().len(), 0);
    assert_eq!(c.message().len(), 0);
    assert_eq!(c.author(), &None);
    assert_eq!(c.headers()[1], (b"x-extra".to_vec(), b"value with spaces".to_vec()));
}

#[test]
fn commit_crlf_lines() {
    let c = GitCommit::new(b"tree T\r\n\r\nmsg".to_vec()).unwrap();
    assert_eq!(c.tree(), &b"T".to_vec());
    assert_eq!(c.headers().len(), 1);
    assert_eq!(c.message(), &b"msg".to_vec());
    let c = GitCommit::new(b"tree T\r\nparent p\r\n\r\nbody\r\n".to_vec()).unwrap();
    assert_eq!(c.parents(), &vec![b"p".to_vec()]);
    assert_eq!(c.message(), &b"body\r\n".to_vec());
    let kv = read_commit_header(b"tree a b\r\n").unwrap();
    assert_eq!(kv.0, vec![(b"tree".to_vec(), b"a b".to_vec())]);
    assert_eq!(kv.1, 10);
}

#[test]
fn commit_errors() {
    let missing = GitCommit::new(b"parent P\n\nmsg".to_vec());
    assert!(matches!(missing, Err(ObjectError::MalformedCommitHeader)));
    let duplicate = GitCommit::new(b"tree A\ntree B\n\nmsg".to_vec());
    assert!(matches!(duplicate, Err(ObjectError::MalformedCommitHeader)));
    let no_space = GitCommit::new(b"tree A\nbroken\n\nmsg".to_vec());
    assert!(matches!(no_space, Err(ObjectError::MalformedCommitHeader)));
}

#[test]
fn commit_encoding_issue_is_flagged() {
    let c = GitCommit::new(b"tree T\n\n\xff\xfe bytes\n".to_vec()).unwrap();
    assert!(c.encoding_issue());
    assert_eq!(c.message(), &b"\xff\xfe bytes\n".to_vec());
}

#[test]
fn blob_and_tag_pass_through() {
    let b = GitBlob::new(vec![0, 1, 2]);
    assert_eq!(b.serialize(), &[0u8, 1, 2][..]);
    assert_eq!(b.size(), 3);
    assert_eq!(b.object_type(), "blob");
    let t = GitTag::new(b"object x\n".to_vec());
    assert_eq!(t.serialize(), b"object x\n");
    assert_eq!(t.kind(), ObjectKind::Tag);
}

#[test]
fn parse_then_serialize_every_kind() {
    let cases: Vec<(ObjectKind, Vec<u8>)> = vec![
        (ObjectKind::Blob, b"x\0y".to_vec()),
        (ObjectKind::Tag, b"".to_vec()),
        (ObjectKind::Commit, b"tree T\n\nm\n".to_vec()),
        (ObjectKind::Tree, b"".to_vec()),
    ];
    for (kind, bytes) in cases {
        let o = parse_object(kind, bytes.clone()).unwrap_or_else(|_| panic!("parse failed"));
        assert_eq!(o.kind(), kind);
        assert_eq!(o.serialize(), &bytes[..]);
        let again = parse_object(kind, o.serialize().to_vec()).unwrap_or_else(|_| panic!("reparse failed"));
        assert_eq!(again.serialize(), o.serialize());
    }
}

#[test]
fn frame_errors() {
    assert!(matches!(decode_frame(b"blub 3\0abc"), Err(ObjectError::UnknownObjectType)));
    assert!(matches!(decode_frame(b"blob 4\0abc"), Err(ObjectError::CorruptObject)));
    assert!(matches!(decode_frame(b"blob 03\0abc"), Err(ObjectError::CorruptObject)));
    assert!(matches!(decode_frame(b"blob3abc"), Err(ObjectError::CorruptObject)));
    assert!(matches!(decode_frame(b"blob 3abc"), Err(ObjectError::CorruptObject)));
    assert!(matches!(decode_frame(b"tree 2\0ab"), Err(ObjectError::MalformedTreeEntry)));
    assert!(matches!(decode_frame(b"commit 2\0ab"), Err(ObjectError::MalformedCommitHeader)));
    match decode_frame(b"blob 3\0abc") {
        Ok(Object::Blob(b)) => assert_eq!(b.data, b"abc".to_vec()),
        _ => panic!("expected a blob"),
    }
}

#[test]
fn encoded_object_holds_frame() {
    let stored = encode_object(ObjectKind::Blob, b"hi");
    assert_eq!(decode(&stored), Ok(b"blob 2\0hi".to_vec()));
}
