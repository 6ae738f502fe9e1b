use password_store::encryption::Cipher;
use password_store::errors::StoreError;
use password_store::model::{Credentials, EntryData, EntryGroupData};
use password_store::store::Database;

fn cipher_for(user: &str, password: &str) -> Cipher {
    let credentials = Credentials::new(String::from(user), String::from(password));
    Cipher::new(&credentials.derive_key())
}

fn temp_store_path(dir: &tempfile::TempDir, name: &str) -> String {
    dir.path().join(name).to_str().unwrap().to_string()
}

#[test]
fn create_then_reopen_with_same_credentials() {
    let dir = tempfile::tempdir().unwrap();
    let path = temp_store_path(&dir, "alice.db");
    let cipher = cipher_for("alice", "pw1");
    let db = Database::create(path.as_str(), &cipher).unwrap();
    assert_eq!(db.root_group_id(), 1);
    drop(db);
    let reopened = Database::open(path.as_str(), &cipher).unwrap();
    assert_eq!(reopened.root_group_id(), 1);
}

#[test]
fn create_fails_when_file_already_exists() {
    let dir = tempfile::tempdir().unwrap();
    let path = temp_store_path(&dir, "alice.db");
    let cipher = cipher_for("alice", "pw1");
    drop(Database::create(path.as_str(), &cipher).unwrap());
    let again = Database::create(path.as_str(), &cipher);
    assert_eq!(again.err().unwrap(), StoreError::AlreadyExists);
}

#[test]
fn open_fails_when_no_file_exists() {
    let dir = tempfile::tempdir().unwrap();
    let path = temp_store_path(&dir, "missing.db");
    let cipher = cipher_for("alice", "pw1");
    let got = Database::open(path.as_str(), &cipher);
    assert_eq!(got.err().unwrap(), StoreError::NotFound);
}

#[test]
fn challenge_gate_rejects_other_credentials() {
    let dir = tempfile::tempdir().unwrap();
    let path = temp_store_path(&dir, "alice.db");
    let cipher_a = cipher_for("alice", "pw1");
    drop(Database::create(path.as_str(), &cipher_a).unwrap());

    let cipher_b = cipher_for("alice", "pw2");
    let refused = Database::open(path.as_str(), &cipher_b);
    assert_eq!(refused.err().unwrap(), StoreError::WrongCredentials);

    Database::open(path.as_str(), &cipher_a).unwrap();
}

#[test]
fn fresh_store_has_root_group_with_no_parent_edge() {
    let dir = tempfile::tempdir().unwrap();
    let path = temp_store_path(&dir, "tree.db");
    let cipher = cipher_for("alice", "pw1");
    let db = Database::create(path.as_str(), &cipher).unwrap();

    let all = db.groups(None).unwrap();
    assert_eq!(all.len(), 1);
    assert_eq!(all[0].id(), db.root_group_id());
    assert_eq!(all[0].data().name(), "");
    // The root group is no child of any group, itself included.
    let children_of_root = db.groups(Some(db.root_group_id())).unwrap();
    assert_eq!(children_of_root.len(), 0);
}

#[test]
fn inserted_group_appears_under_parent_once() {
    let dir = tempfile::tempdir().unwrap();
    let path = temp_store_path(&dir, "tree.db");
    let cipher = cipher_for("alice", "pw1");
    let mut db = Database::create(path.as_str(), &cipher).unwrap();
    let root = db.root_group_id();

    let child = db
        .insert_entry_group(root, &EntryGroupData::new(String::from("work")))
        .unwrap();
    assert_ne!(child, root);

    let children = db.groups(Some(root)).unwrap();
    assert_eq!(children.len(), 1);
    assert_eq!(children[0].id(), child);
    assert_eq!(children[0].data().name(), "work");
    // The new group has exactly the one parent edge: it is no child of
    // itself or of anything else.
    assert_eq!(db.groups(Some(child)).unwrap().len(), 0);

    let all = db.groups(None).unwrap();
    assert_eq!(all.len(), 2);
}

#[test]
fn group_insert_under_missing_parent_leaves_no_orphan() {
    let dir = tempfile::tempdir().unwrap();
    let path = temp_store_path(&dir, "atomic.db");
    let cipher = cipher_for("alice", "pw1");
    let mut db = Database::create(path.as_str(), &cipher).unwrap();

    let refused = db.insert_entry_group(999, &EntryGroupData::new(String::from("orphan")));
    assert_eq!(refused.err().unwrap(), StoreError::GroupNotFound);

    // No group row became visible: only the root remains.
    let all = db.groups(None).unwrap();
    assert_eq!(all.len(), 1);
    assert_eq!(all[0].id(), db.root_group_id());
}

#[test]
fn entry_insert_into_missing_group_is_rejected() {
    let dir = tempfile::tempdir().unwrap();
    let path = temp_store_path(&dir, "entries.db");
    let cipher = cipher_for("alice", "pw1");
    let mut db = Database::create(path.as_str(), &cipher).unwrap();

    let data = EntryData::new(
        String::from("site"),
        String::from("user"),
        String::from("pw"),
    );
    let refused = db.insert_entry(42, &data);
    assert_eq!(refused.err().unwrap(), StoreError::GroupNotFound);
    assert_eq!(db.entries(None, None).unwrap().len(), 0);
}

#[test]
fn missing_entry_is_not_found() {
    let dir = tempfile::tempdir().unwrap();
    let path = temp_store_path(&dir, "entries.db");
    let cipher = cipher_for("alice", "pw1");
    let db = Database::create(path.as_str(), &cipher).unwrap();
    assert_eq!(db.entry(7).err().unwrap(), StoreError::EntryNotFound);
}

#[test]
fn name_filter_returns_exactly_the_matching_entries() {
    let dir = tempfile::tempdir().unwrap();
    let path = temp_store_path(&dir, "filter.db");
    let cipher = cipher_for("alice", "pw1");
    let mut db = Database::create(path.as_str(), &cipher).unwrap();
    let root = db.root_group_id();

    for name in ["abcdef", "entry name", "protected"] {
        let data = EntryData::new(
            String::from(name),
            String::from("u"),
            String::from("p"),
        );
        db.insert_entry(root, &data).unwrap();
    }

    let matched = db.entries(Some("ted"), None).unwrap();
    assert_eq!(matched.len(), 1);
    assert_eq!(matched[0].data().name(), "protected");

    let matched = db.entries(Some("e"), None).unwrap();
    let names: Vec<&str> = matched.iter().map(|e| e.data().name()).collect();
    assert_eq!(names, vec!["abcdef", "entry name", "protected"]);

    let matched = db.entries(Some("no such"), None).unwrap();
    assert_eq!(matched.len(), 0);
}

#[test]
fn group_filter_restricts_entries_to_that_group() {
    let dir = tempfile::tempdir().unwrap();
    let path = temp_store_path(&dir, "filter.db");
    let cipher = cipher_for("alice", "pw1");
    let mut db = Database::create(path.as_str(), &cipher).unwrap();
    let root = db.root_group_id();
    let side = db
        .insert_entry_group(root, &EntryGroupData::new(String::from("side")))
        .unwrap();

    let in_root = EntryData::new(String::from("a"), String::from("u"), String::from("p"));
    let in_side = EntryData::new(String::from("b"), String::from("u"), String::from("p"));
    db.insert_entry(root, &in_root).unwrap();
    let side_id = db.insert_entry(side, &in_side).unwrap();

    let got = db.entries(None, Some(side)).unwrap();
    assert_eq!(got.len(), 1);
    assert_eq!(got[0].id(), side_id);
    assert_eq!(got[0].data().name(), "b");

    assert_eq!(db.entries(None, None).unwrap().len(), 2);
    assert_eq!(db.entries(None, Some(999)).unwrap().len(), 0);
}

#[test]
fn full_scenario_insert_read_and_wrong_password() {
    let dir = tempfile::tempdir().unwrap();
    let path = temp_store_path(&dir, "alice.db");
    let cipher = cipher_for("alice", "pw1");
    let mut db = Database::create(path.as_str(), &cipher).unwrap();
    let root = db.root_group_id();

    let data = EntryData::new(
        String::from("site1"),
        String::from("alice@x"),
        String::from("p@ss"),
    );
    let id = db.insert_entry(root, &data).unwrap();

    let all = db.entries(None, None).unwrap();
    assert_eq!(all.len(), 1);
    assert_eq!(all[0].id(), id);
    assert_eq!(all[0].data().name(), "site1");
    assert_eq!(all[0].data().username(), "alice@x");
    assert_eq!(all[0].data().password(), "p@ss");

    let fetched = db.entry(id).unwrap();
    assert_eq!(fetched.id(), id);
    assert_eq!(fetched.data().name(), "site1");
    assert_eq!(fetched.data().username(), "alice@x");
    assert_eq!(fetched.data().password(), "p@ss");

    drop(db);
    let wrong = cipher_for("alice", "wrong");
    let refused = Database::open(path.as_str(), &wrong);
    assert_eq!(refused.err().unwrap(), StoreError::WrongCredentials);
}

#[test]
fn root_group_cannot_be_inserted_twice() {
    let dir = tempfile::tempdir().unwrap();
    let path = temp_store_path(&dir, "root.db");
    let cipher = cipher_for("alice", "pw1");
    let mut db = Database::create(path.as_str(), &cipher).unwrap();
    // The reserved id is taken at creation; the primary-key constraint
    // rejects a second root row and nothing changes.
    let refused = db.insert_root_entry_group(&EntryGroupData::new(String::from("again")));
    assert_eq!(refused.err().unwrap(), StoreError::Storage);
    assert_eq!(db.groups(None).unwrap().len(), 1);
}

#[test]
fn credentials_expose_user() {
    let credentials = Credentials::new(String::from("alice"), String::from("pw1"));
    assert_eq!(credentials.user(), "alice");
}

#[test]
fn key_derivation_order_matters() {
    let dir = tempfile::tempdir().unwrap();
    let path = temp_store_path(&dir, "order_key.db");
    let straight = cipher_for("user", "pass");
    drop(Database::create(path.as_str(), &straight).unwrap());
    let reversed = cipher_for("pass", "user");
    let swapped = Database::open(path.as_str(), &reversed);
    assert_eq!(swapped.err().unwrap(), StoreError::WrongCredentials);
}

#[test]
fn entries_come_back_in_insertion_order() {
    let dir = tempfile::tempdir().unwrap();
    let path = temp_store_path(&dir, "order.db");
    let cipher = cipher_for("alice", "pw1");
    let mut db = Database::create(path.as_str(), &cipher).unwrap();
    let root = db.root_group_id();

    let mut ids = Vec::new();
    for name in ["one", "two", "three", "four"] {
        let data = EntryData::new(
            String::from(name),
            String::from("u"),
            String::from("p"),
        );
        ids.push(db.insert_entry(root, &data).unwrap());
    }
    let got = db.entries(None, None).unwrap();
    let got_ids: Vec<i64> = got.iter().map(|e| e.id()).collect();
    assert_eq!(got_ids, ids);
    let names: Vec<&str> = got.iter().map(|e| e.data().name()).collect();
    assert_eq!(names, vec!["one", "two", "three", "four"]);
}
