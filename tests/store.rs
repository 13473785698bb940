use git::addressing::compute_id;
use git::object::{encode_object, GitObject, Object, ObjectError, ObjectKind};
use git::repo::{ref_step, GitRepository, InitStep, RefError, RefStep};
use std::path::PathBuf;

#[test]
fn repo_files() {
    let files = &["objects/", "3b", "18e512dba79e4c8300dd08aeb37f8e728b8dad"];
    let repo = GitRepository::default();

    assert_eq!(
        PathBuf::from(repo.repo_files(files)),
        PathBuf::from(".git/objects/3b/18e512dba79e4c8300dd08aeb37f8e728b8dad")
    )
}

#[test]
fn repo_files_exact_text() {
    let repo = GitRepository::default();
    assert_eq!(repo.repo_files(&["objects/", "3b", "18e5"]), ".git/objects/3b/18e5");
    assert_eq!(repo.repo_files(&[]), ".git");
    assert_eq!(repo.repo_file("/abs/path"), "/abs/path");
    assert_eq!(repo.repo_file("HEAD"), ".git/HEAD");
}

#[test]
fn worktree_layout() {
    let repo = GitRepository::for_worktree("/tmp/work/");
    assert_eq!(repo.git_dir(), "/tmp/work/.git");
    let repo = GitRepository::for_worktree("/tmp/work");
    assert_eq!(repo.git_dir(), "/tmp/work/.git");
    assert_eq!(repo.worktree(), "/tmp/work");
}

#[test]
fn object_file_path() {
    let repo = GitRepository::default();
    assert_eq!(
        repo.object_file("3b18e512dba79e4c8300dd08aeb37f8e728b8dad"),
        Ok(".git/objects/3b/18e512dba79e4c8300dd08aeb37f8e728b8dad".to_string())
    );
    assert_eq!(repo.object_file("3b18"), Err(ObjectError::InvalidObjectId));
}

fn store_and_read(kind: ObjectKind, content: &[u8]) {
    let repo = GitRepository::default();
    let id = compute_id(kind, content);
    let stored = encode_object(kind, content);
    match repo.read_object(&id, Some(&stored)) {
        Ok(o) => {
            assert_eq!(o.kind(), kind);
            assert_eq!(o.serialize(), content);
            assert_eq!(o.size(), content.len());
        }
        Err(e) => panic!("read failed: {:?}", e),
    }
}

#[test]
fn store_round_trip() {
    store_and_read(ObjectKind::Blob, b"hello world\n");
    store_and_read(ObjectKind::Blob, b"");
    store_and_read(ObjectKind::Blob, b"\0nul\0inside\0");
    store_and_read(ObjectKind::Tag, b"object x\n");
    store_and_read(ObjectKind::Commit, b"tree T\nparent P\n\nmsg\n");
    let mut tree = b"100644 a.txt\0".to_vec();
    tree.extend_from_slice(&[3u8; 20]);
    store_and_read(ObjectKind::Tree, &tree);
}

#[test]
fn invalid_id_rejected() {
    let repo = GitRepository::default();
    assert!(matches!(repo.read_object("not-a-valid-sha", None), Err(ObjectError::InvalidObjectId)));
    assert!(matches!(repo.read_object("", None), Err(ObjectError::InvalidObjectId)));
    let stored = encode_object(ObjectKind::Blob, b"x");
    assert!(matches!(repo.read_object("", Some(&stored)), Err(ObjectError::InvalidObjectId)));
}

#[test]
fn missing_and_corrupt_objects() {
    let repo = GitRepository::default();
    let id = "3b18e512dba79e4c8300dd08aeb37f8e728b8dad";
    assert!(matches!(repo.read_object(id, None), Err(ObjectError::ObjectNotFound)));
    assert!(matches!(repo.read_object(id, Some(b"garbage")), Err(ObjectError::CorruptObject)));
    assert!(matches!(repo.new(b"garbage"), Err(ObjectError::CorruptObject)));
}

#[test]
fn read_parses_commit_fields() {
    let repo = GitRepository::default();
    let stored = encode_object(ObjectKind::Commit, b"tree T\nparent first\n\nbody");
    match repo.new(&stored) {
        Ok(Object::Commit(c)) => {
            assert_eq!(c.tree(), &b"T".to_vec());
            assert_eq!(c.parents(), &vec![b"first".to_vec()]);
            assert_eq!(c.message(), &b"body".to_vec());
        }
        _ => panic!("expected a commit"),
    }
}

#[test]
fn init_steps_once() {
    let repo = GitRepository::for_worktree("/w");
    assert_eq!(repo.init_steps(true).len(), 0);
    let steps = repo.init_steps(false);
    assert_eq!(steps.len(), 5);
    match &steps[0] {
        InitStep::CreateDir(p) => assert_eq!(p, "/w/.git/objects"),
        _ => panic!("expected a directory"),
    }
    match &steps[3] {
        InitStep::WriteFile(p, t) => {
            assert_eq!(p, "/w/.git/HEAD");
            assert_eq!(t, "ref: refs/heads/master\n");
        }
        _ => panic!("expected a file"),
    }
    match &steps[4] {
        InitStep::WriteFile(p, _) => assert_eq!(p, "/w/.git/description"),
        _ => panic!("expected a file"),
    }
}

#[test]
fn ref_steps() {
    match ref_step("ref: refs/heads/master\n", 0) {
        RefStep::Follow(n) => assert_eq!(n, "refs/heads/master"),
        _ => panic!("expected to follow"),
    }
    assert!(matches!(ref_step("ref: refs/heads/master\n", 5), RefStep::Failed(RefError::CyclicRef)));
    match ref_step("  3b18e512dba79e4c8300dd08aeb37f8e728b8dad \r\nrest", 3) {
        RefStep::Resolved(id) => assert_eq!(id, "3b18e512dba79e4c8300dd08aeb37f8e728b8dad"),
        _ => panic!("expected an id"),
    }
    assert!(matches!(ref_step("not an id\n", 0), RefStep::Failed(RefError::MalformedRef)));
    assert!(matches!(ref_step("", 0), RefStep::Failed(RefError::MalformedRef)));
}
