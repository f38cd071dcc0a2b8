use ggo::error::GgoError;
use ggo::storage::{
    applied_versions, cleanup_deleted_branches, create_alias, get_branch_records, get_stats,
    list_aliases, open_db, open_memory_db, record_checkout,
};
use ggo::validation::{validate_repo_path, ValidationError};

const NOW: i64 = 1_700_000_000;

#[test]
fn store_on_disk_keeps_its_records() {
    let dir = tempfile::tempdir().unwrap();
    let file = dir.path().join("data.db");
    let path = file.to_str().unwrap();
    {
        let mut store = open_db(path, NOW).unwrap();
        assert_eq!(store.path(), path);
        record_checkout(&mut store, "/repo", "main", NOW).unwrap();
        record_checkout(&mut store, "/repo", "main", NOW + 1).unwrap();
    }
    let mut store = open_db(path, NOW + 2).unwrap();
    let records = get_branch_records(&mut store, "/repo").unwrap();
    assert_eq!(records.len(), 1);
    assert_eq!(records[0].switch_count, 2);
    assert_eq!(records[0].last_used, NOW + 1);
    assert_eq!(applied_versions(&mut store).unwrap(), vec![1, 2]);
    let stats = get_stats(&mut store).unwrap();
    assert_eq!(stats.db_path, path);
    assert_eq!(stats.total_switches, 2);
    assert_eq!(stats.unique_branches, 1);
    assert_eq!(stats.unique_repos, 1);
}

#[test]
fn store_in_memory_has_no_path() {
    let mut store = open_memory_db(NOW).unwrap();
    assert_eq!(store.path(), "");
    let stats = get_stats(&mut store).unwrap();
    assert_eq!(stats.db_path, "");
    assert_eq!(stats.total_switches, 0);
}

#[test]
fn store_in_a_missing_directory_cannot_be_opened() {
    let dir = tempfile::tempdir().unwrap();
    let file = dir.path().join("missing").join("data.db");
    match open_db(file.to_str().unwrap(), NOW) {
        Err(GgoError::DatabaseError(words)) => {
            assert!(words.starts_with("Failed to open database: "))
        }
        Err(other) => panic!("unexpected {:?}", other),
        Ok(_) => panic!("opened a store in a missing directory"),
    }
}

#[test]
fn repository_path_must_be_a_directory() {
    let dir = tempfile::tempdir().unwrap();
    assert_eq!(validate_repo_path(dir.path().to_str().unwrap()), Ok(()));
    let file = tempfile::NamedTempFile::new_in(dir.path()).unwrap();
    assert_eq!(
        validate_repo_path(file.path().to_str().unwrap()),
        Err(ValidationError::NotDirectory)
    );
    let missing = dir.path().join("missing");
    assert_eq!(validate_repo_path(missing.to_str().unwrap()), Err(ValidationError::Missing));
}

#[test]
fn records_of_deleted_branches_are_removed_with_their_aliases() {
    let dir = tempfile::tempdir().unwrap();
    let repo = git2::Repository::init(dir.path()).unwrap();
    let tree_id = repo.treebuilder(None).unwrap().write().unwrap();
    let tree = repo.find_tree(tree_id).unwrap();
    let signature = git2::Signature::now("Test User", "test@example.com").unwrap();
    repo.commit(Some("HEAD"), &signature, &signature, "Initial commit", &tree, &[]).unwrap();
    let live = repo.head().unwrap().shorthand().unwrap().to_string();
    let repo_path = dir.path().to_str().unwrap();

    let mut store = open_memory_db(NOW).unwrap();
    record_checkout(&mut store, repo_path, &live, NOW).unwrap();
    record_checkout(&mut store, repo_path, "deleted-branch", NOW + 1).unwrap();
    create_alias(&mut store, repo_path, "l", &live, NOW).unwrap();
    create_alias(&mut store, repo_path, "d", "deleted-branch", NOW).unwrap();

    assert_eq!(cleanup_deleted_branches(&mut store).unwrap(), 1);

    let records = get_branch_records(&mut store, repo_path).unwrap();
    assert_eq!(records.len(), 1);
    assert_eq!(records[0].branch_name, live);
    let aliases = list_aliases(&mut store, repo_path).unwrap();
    assert_eq!(aliases.len(), 1);
    assert_eq!(aliases[0].alias, "l");
    assert_eq!(cleanup_deleted_branches(&mut store).unwrap(), 0);
}

