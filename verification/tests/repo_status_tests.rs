//! Reading the status of real repositories, built in memory through git2 (no file of
//! the working tree is written).
use git2::{IndexEntry, IndexTime, Oid, Repository, Signature};
use gitover::git::{FileStatusKind, RepoStatus};
use gitover::scan::get_repo_status;

/// A fresh directory for one test's repository.
fn repo_dir(name: &str) -> String {
    format!("/tmp/gitover-repo-tests/{name}")
}

fn index_entry(path: &str, id: Oid, size: u32) -> IndexEntry {
    IndexEntry {
        ctime: IndexTime::new(0, 0),
        mtime: IndexTime::new(0, 0),
        dev: 0,
        ino: 0,
        mode: 0o100644,
        uid: 0,
        gid: 0,
        file_size: size,
        id,
        flags: 0,
        flags_extended: 0,
        path: path.as_bytes().to_vec(),
    }
}

/// A repository on branch `branch` whose one commit holds the files of `files`, which
/// are also in the index; the working tree holds none of them.
fn make_repo(name: &str, branch: &str, files: &[(&str, &str)]) -> String {
    let path = repo_dir(name);
    let repo = Repository::init(&path).expect("init repo");
    repo.set_head(&format!("refs/heads/{branch}")).unwrap();
    if repo.head().is_err() {
        let mut index = repo.index().unwrap();
        for (p, content) in files {
            let id = repo.blob(content.as_bytes()).unwrap();
            index.add_frombuffer(&index_entry(p, id, content.len() as u32), content.as_bytes()).unwrap();
        }
        index.write().unwrap();
        let tree_id = index.write_tree().unwrap();
        let tree = repo.find_tree(tree_id).unwrap();
        let sig = Signature::now("Test User", "test@example.com").unwrap();
        repo.commit(Some("HEAD"), &sig, &sig, "initial commit", &tree, &[]).unwrap();
    }
    path
}

#[test]
fn integration_clean_repo() {
    let path = make_repo("clean", "main", &[]);

    let status = get_repo_status(&path, false).expect("get_repo_status");

    assert_eq!(status.branch, "main");
    assert!(status.is_clean(), "fresh repo should be clean");
    assert!(status.error.is_none());
    assert_eq!(status.added, 0);
    assert_eq!(status.modified, 0);
    assert_eq!(status.staged, 0);
    assert_eq!(status.deleted, 0);
    assert_eq!(status.conflict, 0);
    assert!(status.files.is_empty());
}

#[test]
fn integration_staged_file() {
    let path = make_repo("staged", "main", &[]);

    let repo = Repository::open(&path).unwrap();
    let mut index = repo.index().unwrap();
    let content = "staged content";
    let id = repo.blob(content.as_bytes()).unwrap();
    index.add_frombuffer(&index_entry("staged.txt", id, content.len() as u32), content.as_bytes()).unwrap();
    index.write().unwrap();

    let status = get_repo_status(&path, false).expect("get_repo_status");

    assert!(!status.is_clean());
    assert_eq!(status.staged, 1);
    assert!(status.files.iter().any(|f| f.status == FileStatusKind::Staged));
}

#[test]
fn integration_unborn_branch() {
    let path = repo_dir("unborn");
    Repository::init(&path).expect("init repo");

    let status = get_repo_status(&path, false).expect("get_repo_status on unborn branch");

    assert!(!status.branch.is_empty());
    assert_ne!(status.branch, "detached");
    assert!(status.error.is_none());
}

#[test]
fn integration_invalid_path_returns_error_entry() {
    let path = "/nonexistent/path/to/repo";
    assert!(get_repo_status(path, false).is_err());

    let entry = RepoStatus::error_entry(path, "test error".to_string());
    assert_eq!(entry.path, path);
    assert!(entry.error.is_some());
    assert!(!entry.is_clean());
}

#[test]
fn integration_local_branches_listed() {
    let path = make_repo("branches", "main", &[]);

    let repo = Repository::open(&path).unwrap();
    let head = repo.head().unwrap();
    let commit = repo.find_commit(head.target().unwrap()).unwrap();
    repo.branch("feature-x", &commit, true).unwrap();

    let status = get_repo_status(&path, false).expect("get_repo_status");

    assert!(status.local_branches.contains(&"main".to_string()), "should list main branch");
    assert!(status.local_branches.contains(&"feature-x".to_string()), "should list feature-x branch");
}

#[test]
fn integration_deleted_file_shows_in_status() {
    // README.md is committed and in the index, but not in the working tree.
    let path = make_repo("deleted", "main", &[("README.md", "hello")]);

    let status = get_repo_status(&path, false).expect("get_repo_status");
    assert_eq!(status.deleted, 1, "should report 1 deleted file");
    assert!(status.files.iter().any(|f| f.status == FileStatusKind::Deleted), "should have a Deleted entry");
}

#[test]
fn status_files_are_ordered_case_insensitively_by_default() {
    let path = make_repo("ordering", "main", &[("b.txt", "1"), ("A.txt", "2"), ("C.txt", "3")]);

    let names = |cs: bool| -> Vec<String> {
        get_repo_status(&path, cs).expect("get_repo_status").files.iter().map(|f| f.path.clone()).collect()
    };
    assert_eq!(names(false), vec!["A.txt", "b.txt", "C.txt"]);
    assert_eq!(names(true), vec!["A.txt", "C.txt", "b.txt"]);
}
