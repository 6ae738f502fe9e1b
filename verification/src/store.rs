//! The relational store: encrypted entry and group rows in SQLite.
//!
//! The database holds four tables — `Entry(id, group_id, data)`,
//! `EntryGroup(id, data)`, `EntryGroupParent(parent_id, child_id)` and
//! `Metadata(challenge)` — whose binary columns are `nonce || ciphertext`
//! blobs. The tables are modeled as maps, a set and a sequence of plain
//! values; every SQL statement sits behind a trusted wrapper whose contract
//! says how it reads or changes those models, and everything above the
//! wrappers is verified against them. The models describe one connection's
//! view of the file, which is the whole story here: one store handle is
//! used by one session at a time, with no other writer.

use crate::blob::{open as open_blob, seal, spec_open_blob};
use crate::encryption::Cipher;
use crate::errors::StoreError;
use crate::model::{
    Entry, EntryData, EntryDataView, EntryGroup, EntryGroupData, EntryGroupDataView, EntryView,
};
use crate::record::{
    decode_entry_data, decode_group_data, encode_entry_data, encode_group_data,
    lemma_entry_data_round_trip, lemma_group_data_round_trip, spec_decode_entry_data,
    spec_decode_group_data,
};
use crate::text::{contains_substring, spec_contains_substring};
use rusqlite::Connection;
use vstd::bytes::lemma_auto_spec_u64_to_from_le_bytes;
use vstd::prelude::*;
use vstd::utf8::encode_utf8;

verus! {

/// Reserved identifier of the root group, assigned once at store creation;
/// auto-assigned row identifiers never collide with it.
pub const ROOT_GROUP_ID: i64 = 1;

/// The fixed 32-byte challenge plaintext, sealed once at store creation and
/// checked on every open to verify that a cipher can decrypt this store.
pub const CHALLENGE: [u8; 32] = [
    71, 241, 152, 110, 194, 42, 171, 124, 37, 122, 211, 128, 57, 254, 234, 253, 82, 237, 131, 16,
    141, 243, 50, 140, 6, 250, 169, 73, 249, 69, 19, 174,
];

#[verifier::external_type_specification]
#[verifier::external_body]
pub struct ExConnection(Connection);

/// The entry rows the database holds: id -> (group id, stored blob).
pub uninterp spec fn entry_rows(conn: Connection) -> Map<i64, (i64, Seq<u8>)>;

/// The group rows the database holds: id -> stored blob.
pub uninterp spec fn group_rows(conn: Connection) -> Map<i64, Seq<u8>>;

/// The parent edges the database holds, as (parent id, child id) pairs.
pub uninterp spec fn edge_rows(conn: Connection) -> Set<(i64, i64)>;

/// The challenge blobs the metadata table holds, in row order.
pub uninterp spec fn challenge_rows(conn: Connection) -> Seq<Seq<u8>>;

/// The entry-table model of a store with no entries.
pub open spec fn spec_no_entries() -> Map<i64, (i64, Seq<u8>)> {
    Map::empty()
}

/// The group-table model of a store with no groups.
pub open spec fn spec_no_groups() -> Map<i64, Seq<u8>> {
    Map::empty()
}

/// The edge-table model of a store with no parent edges.
pub open spec fn spec_no_edges() -> Set<(i64, i64)> {
    Set::empty()
}

/// Every parent edge points at an existing group.
pub open spec fn spec_tree_wf(groups: Map<i64, Seq<u8>>, edges: Set<(i64, i64)>) -> bool {
    forall|e: (i64, i64)| #[trigger] edges.contains(e) ==> groups.contains_key(e.1)
}

/// Law: a group freshly inserted by `insert_entry_group` has exactly one
/// parent edge, the one to the parent it was inserted under. In a
/// well-formed store no earlier edge can point at the fresh group id, so
/// after the insert the new edge is the only edge into it.
pub proof fn lemma_new_group_single_parent(
    groups0: Map<i64, Seq<u8>>,
    edges0: Set<(i64, i64)>,
    parent_id: i64,
    new_id: i64,
)
    requires
        spec_tree_wf(groups0, edges0),
        !groups0.contains_key(new_id),
    ensures
        forall|p: i64|
            #[trigger] edges0.insert((parent_id, new_id)).contains((p, new_id)) <==> p
                == parent_id,
{
    assert forall|p: i64|
        #[trigger] edges0.insert((parent_id, new_id)).contains((p, new_id)) <==> p
            == parent_id by {
        if edges0.contains((p, new_id)) {
            assert(groups0.contains_key(new_id));
        }
    }
}

/// Relies on `std::path::Path::exists`. The result depends on the file
/// system, so nothing is promised of it.
#[verifier::external_body]
fn path_exists(path: &str) -> bool {
    std::path::Path::new(path).exists()
}

/// Relies on `rusqlite::Connection::open_with_flags` without the CREATE
/// flag: opens an existing database file, failing when there is none. The
/// contents found on disk are arbitrary, so nothing is promised of the
/// table models.
#[verifier::external_body]
fn open_db(path: &str) -> (r: Result<Connection, ()>)
{
    let flags = rusqlite::OpenFlags::default() & !rusqlite::OpenFlags::SQLITE_OPEN_CREATE;
    match Connection::open_with_flags(path, flags) {
        Ok(conn) => Ok(conn),
        Err(_) => Err(()),
    }
}

/// Relies on `rusqlite::Connection::open`, `Connection::transaction` and
/// `Transaction::execute`/`execute_batch`/`commit`: creates the database
/// file and provisions, in one committed transaction, the four-table
/// schema, the root group row under `ROOT_GROUP_ID` with `root_blob`, and
/// the single metadata row holding `challenge_blob`.
#[verifier::external_body]
fn create_db(path: &str, root_blob: &[u8], challenge_blob: &[u8]) -> (r: Result<Connection, ()>)
    ensures
        r matches Ok(conn) ==> entry_rows(conn) == spec_no_entries()
            && group_rows(conn) == spec_no_groups().insert(ROOT_GROUP_ID, root_blob@)
            && edge_rows(conn) == spec_no_edges()
            && challenge_rows(conn) == seq![challenge_blob@],
{
    let mut conn = match Connection::open(path) {
        Ok(c) => c,
        Err(_) => return Err(()),
    };
    let tx = conn.transaction().map_err(|_| ())?;
    tx.execute_batch(
        "CREATE TABLE Entry(id INTEGER PRIMARY KEY, group_id INTEGER NOT NULL, data BLOB NOT NULL);
         CREATE TABLE EntryGroup(id INTEGER PRIMARY KEY, data BLOB NOT NULL);
         CREATE TABLE EntryGroupParent(parent_id INTEGER NOT NULL, child_id INTEGER NOT NULL);
         CREATE TABLE Metadata(challenge BLOB NOT NULL);",
    ).map_err(|_| ())?;
    tx.execute("INSERT INTO EntryGroup(id, data) VALUES (?1, ?2);", (ROOT_GROUP_ID, root_blob))
        .map_err(|_| ())?;
    tx.execute("INSERT INTO Metadata(challenge) VALUES (?1);", (challenge_blob,))
        .map_err(|_| ())?;
    tx.commit().map_err(|_| ())?;
    Ok(conn)
}

/// Relies on `rusqlite::Connection::query_row`: reads the first metadata
/// row in row order.
#[verifier::external_body]
fn db_select_challenge(conn: &Connection) -> (r: Result<Vec<u8>, ()>)
    ensures
        r matches Ok(b) ==> challenge_rows(*conn).len() > 0 && b@ == challenge_rows(*conn)[0],
{
    conn.query_row(
        "SELECT challenge FROM Metadata ORDER BY rowid LIMIT 1;",
        [],
        |row| row.get(0),
    ).map_err(|_| ())
}

/// Relies on `rusqlite::Connection::query_row`: whether a group row with
/// this id exists.
#[verifier::external_body]
fn db_group_exists(conn: &Connection, id: i64) -> (r: Result<bool, ()>)
    ensures
        r matches Ok(b) ==> b == group_rows(*conn).contains_key(id),
{
    match conn.query_row("SELECT 1 FROM EntryGroup WHERE id = ?1;", [id], |_row| Ok(0i64)) {
        Ok(_) => Ok(true),
        Err(rusqlite::Error::QueryReturnedNoRows) => Ok(false),
        Err(_) => Err(()),
    }
}

/// Relies on `rusqlite::Connection::query_row`: reads the blob of the entry
/// row with this id, telling "no such row" apart from engine failure.
#[verifier::external_body]
fn db_select_entry(conn: &Connection, id: i64) -> (r: Result<Option<Vec<u8>>, ()>)
    ensures
        r matches Ok(Some(b)) ==> entry_rows(*conn).contains_key(id) && entry_rows(*conn)[id].1
            == b@,
        r matches Ok(o) && o is None ==> !entry_rows(*conn).contains_key(id),
{
    match conn.query_row("SELECT data FROM Entry WHERE id = ?1;", [id], |row| row.get(0)) {
        Ok(b) => Ok(Some(b)),
        Err(rusqlite::Error::QueryReturnedNoRows) => Ok(None),
        Err(_) => Err(()),
    }
}

/// Relies on `rusqlite::Connection::prepare` and `Statement::query_map`:
/// every entry row as (id, group id, blob), in ascending id order.
#[verifier::external_body]
fn db_select_entries(conn: &Connection) -> (r: Result<Vec<(i64, i64, Vec<u8>)>, ()>)
    ensures
        r matches Ok(v) ==> (forall|i: int|
            0 <= i < v@.len() ==> entry_rows(*conn).contains_key(#[trigger] v@[i].0) && entry_rows(
                *conn,
            )[v@[i].0] == (v@[i].1, v@[i].2@)) && (forall|id: i64|
            #[trigger] entry_rows(*conn).contains_key(id) ==> exists|i: int|
                0 <= i < v@.len() && v@[i].0 == id) && (forall|i: int, j: int|
            0 <= i < j < v@.len() ==> v@[i].0 < v@[j].0),
{
    let mut stmt = match conn.prepare("SELECT id, group_id, data FROM Entry ORDER BY id;") {
        Ok(s) => s,
        Err(_) => return Err(()),
    };
    let rows = stmt.query_map([], |row| Ok((row.get(0)?, row.get(1)?, row.get(2)?)));
    match rows {
        Ok(it) => it.collect::<Result<Vec<(i64, i64, Vec<u8>)>, _>>().map_err(|_| ()),
        Err(_) => Err(()),
    }
}

/// Relies on `rusqlite::Connection::prepare` and `Statement::query_map`:
/// every group row as (id, blob), in ascending id order.
#[verifier::external_body]
fn db_select_groups(conn: &Connection) -> (r: Result<Vec<(i64, Vec<u8>)>, ()>)
    ensures
        r matches Ok(v) ==> (forall|i: int|
            0 <= i < v@.len() ==> group_rows(*conn).contains_key(#[trigger] v@[i].0) && group_rows(
                *conn,
            )[v@[i].0] == v@[i].1@) && (forall|id: i64|
            #[trigger] group_rows(*conn).contains_key(id) ==> exists|i: int|
                0 <= i < v@.len() && v@[i].0 == id) && (forall|i: int, j: int|
            0 <= i < j < v@.len() ==> v@[i].0 < v@[j].0),
{
    let mut stmt = match conn.prepare("SELECT id, data FROM EntryGroup ORDER BY id;") {
        Ok(s) => s,
        Err(_) => return Err(()),
    };
    let rows = stmt.query_map([], |row| Ok((row.get(0)?, row.get(1)?)));
    match rows {
        Ok(it) => it.collect::<Result<Vec<(i64, Vec<u8>)>, _>>().map_err(|_| ()),
        Err(_) => Err(()),
    }
}

/// Relies on `rusqlite::Connection::prepare` and `Statement::query_map`:
/// every distinct parent edge as (parent id, child id), in ascending
/// lexicographic order.
#[verifier::external_body]
fn db_select_edges(conn: &Connection) -> (r: Result<Vec<(i64, i64)>, ()>)
    ensures
        r matches Ok(v) ==> (forall|i: int|
            0 <= i < v@.len() ==> edge_rows(*conn).contains(#[trigger] v@[i])) && (forall|
            e: (i64, i64),
        |
            #[trigger] edge_rows(*conn).contains(e) ==> exists|i: int|
                0 <= i < v@.len() && v@[i] == e) && (forall|i: int, j: int|
            0 <= i < j < v@.len() ==> v@[i].0 < v@[j].0 || (v@[i].0 == v@[j].0 && v@[i].1
                < v@[j].1)),
{
    let mut stmt = match conn.prepare(
        "SELECT DISTINCT parent_id, child_id FROM EntryGroupParent ORDER BY parent_id, child_id;",
    ) {
        Ok(s) => s,
        Err(_) => return Err(()),
    };
    let rows = stmt.query_map([], |row| Ok((row.get(0)?, row.get(1)?)));
    match rows {
        Ok(it) => it.collect::<Result<Vec<(i64, i64)>, _>>().map_err(|_| ()),
        Err(_) => Err(()),
    }
}

/// Relies on `rusqlite::Connection::execute` and `last_insert_rowid`:
/// inserts one entry row under a freshly assigned id; a single statement,
/// so on failure nothing changes.
#[verifier::external_body]
fn db_insert_entry(conn: &mut Connection, group_id: i64, blob: &[u8]) -> (r: Result<i64, ()>)
    ensures
        r matches Ok(id) ==> !entry_rows(*old(conn)).contains_key(id) && entry_rows(*final(conn))
            == entry_rows(*old(conn)).insert(id, (group_id, blob@)) && group_rows(*final(conn))
            == group_rows(*old(conn)) && edge_rows(*final(conn)) == edge_rows(*old(conn))
            && challenge_rows(*final(conn)) == challenge_rows(*old(conn)),
        r is Err ==> entry_rows(*final(conn)) == entry_rows(*old(conn)) && group_rows(*final(conn))
            == group_rows(*old(conn)) && edge_rows(*final(conn)) == edge_rows(*old(conn))
            && challenge_rows(*final(conn)) == challenge_rows(*old(conn)),
{
    match conn.execute("INSERT INTO Entry(group_id, data) VALUES (?1, ?2);", (group_id, blob)) {
        Ok(_) => Ok(conn.last_insert_rowid()),
        Err(_) => Err(()),
    }
}

/// Relies on `rusqlite::Connection::execute` and `last_insert_rowid`:
/// inserts the root group row under `ROOT_GROUP_ID`; the primary-key
/// constraint rejects the insert when that id is taken, and on failure
/// nothing changes.
#[verifier::external_body]
fn db_insert_root_group(conn: &mut Connection, blob: &[u8]) -> (r: Result<i64, ()>)
    ensures
        r matches Ok(id) ==> id == ROOT_GROUP_ID && !group_rows(*old(conn)).contains_key(
            ROOT_GROUP_ID,
        ) && group_rows(*final(conn)) == group_rows(*old(conn)).insert(ROOT_GROUP_ID, blob@)
            && entry_rows(*final(conn)) == entry_rows(*old(conn)) && edge_rows(*final(conn))
            == edge_rows(*old(conn)) && challenge_rows(*final(conn)) == challenge_rows(*old(conn)),
        r is Err ==> entry_rows(*final(conn)) == entry_rows(*old(conn)) && group_rows(*final(conn))
            == group_rows(*old(conn)) && edge_rows(*final(conn)) == edge_rows(*old(conn))
            && challenge_rows(*final(conn)) == challenge_rows(*old(conn)),
{
    match conn.execute(
        "INSERT INTO EntryGroup(id, data) VALUES (?1, ?2);",
        (ROOT_GROUP_ID, blob),
    ) {
        Ok(_) => Ok(conn.last_insert_rowid()),
        Err(_) => Err(()),
    }
}

/// Relies on `rusqlite::Connection::transaction`, `Transaction::execute`,
/// `last_insert_rowid` and `commit`: inserts one group row under a freshly
/// assigned id and its parent edge as a single transaction — on any
/// failure the transaction rolls back and neither row is committed.
#[verifier::external_body]
fn db_insert_group_with_edge(conn: &mut Connection, parent_id: i64, blob: &[u8]) -> (r: Result<
    i64,
    (),
>)
    ensures
        r matches Ok(id) ==> !group_rows(*old(conn)).contains_key(id) && group_rows(*final(conn))
            == group_rows(*old(conn)).insert(id, blob@) && edge_rows(*final(conn)) == edge_rows(
            *old(conn),
        ).insert((parent_id, id)) && entry_rows(*final(conn)) == entry_rows(*old(conn))
            && challenge_rows(*final(conn)) == challenge_rows(*old(conn)),
        r is Err ==> entry_rows(*final(conn)) == entry_rows(*old(conn)) && group_rows(*final(conn))
            == group_rows(*old(conn)) && edge_rows(*final(conn)) == edge_rows(*old(conn))
            && challenge_rows(*final(conn)) == challenge_rows(*old(conn)),
{
    let tx = conn.transaction().map_err(|_| ())?;
    tx.execute("INSERT INTO EntryGroup(data) VALUES (?1);", (blob,)).map_err(|_| ())?;
    let id = tx.last_insert_rowid();
    tx.execute(
        "INSERT INTO EntryGroupParent(parent_id, child_id) VALUES (?1, ?2);",
        (parent_id, id),
    ).map_err(|_| ())?;
    tx.commit().map_err(|_| ())?;
    Ok(id)
}

/// Byte-for-byte slice equality.
fn bytes_eq(a: &[u8], b: &[u8]) -> (r: bool)
    ensures
        r == (a@ == b@),
{
    if a.len() != b.len() {
        return false;
    }
    let n = a.len();
    let mut i: usize = 0;
    while i < n
        invariant
            i <= n,
            n == a@.len(),
            n == b@.len(),
            forall|j: int| 0 <= j < i ==> a@[j] == b@[j],
        decreases n - i,
    {
        if *vstd::slice::slice_index_get(a, i) != *vstd::slice::slice_index_get(b, i) {
            return false;
        }
        i += 1;
    }
    assert(a@ =~= b@);
    true
}

/// What reading an entry blob yields under `key`: the record, or the first
/// failure — `MalformedBlob` or `AuthenticationFailure` from the blob
/// codec, `CorruptRecord` from record decoding. Opaque so that contracts
/// quantifying over many rows stay cheap; reveal it to see the definition.
#[verifier::opaque]
pub open spec fn spec_read_entry(key: Seq<u8>, blob: Seq<u8>) -> Result<EntryDataView, StoreError> {
    match spec_open_blob(key, blob) {
        Ok(p) => match spec_decode_entry_data(p) {
            Some(d) => Ok(d),
            None => Err(StoreError::CorruptRecord),
        },
        Err(e) => Err(e),
    }
}

/// Whether an entry row lying in group `gid` passes the optional parent
/// group filter (equality on the group id).
pub open spec fn spec_group_selected(gid: i64, filter: Option<i64>) -> bool {
    match filter {
        Some(p) => gid == p,
        None => true,
    }
}

/// Whether a decoded entry passes the optional name filter
/// (case-sensitive substring containment on the entry name).
pub open spec fn spec_name_selected(d: EntryDataView, filter: Option<&str>) -> bool {
    match filter {
        Some(n) => spec_contains_substring(d.entry_name, n@),
        None => true,
    }
}

/// Linear scan for one edge in a fetched edge list.
fn edge_list_contains(edges: &Vec<(i64, i64)>, parent: i64, child: i64) -> (r: bool)
    ensures
        r == exists|i: int| 0 <= i < edges@.len() && edges@[i] == (parent, child),
{
    let es = edges.as_slice();
    let mut i: usize = 0;
    while i < es.len()
        invariant
            i <= edges@.len(),
            es@ == edges@,
            forall|j: int| 0 <= j < i ==> edges@[j] != (parent, child),
        decreases edges@.len() - i,
    {
        let e = *vstd::slice::slice_index_get(es, i);
        if e.0 == parent && e.1 == child {
            assert(edges@[i as int] == (parent, child));
            return true;
        }
        i += 1;
    }
    false
}

/// What reading a group blob yields under `key`. Opaque for the same
/// reason as the entry variant.
#[verifier::opaque]
pub open spec fn spec_read_group(key: Seq<u8>, blob: Seq<u8>) -> Result<
    EntryGroupDataView,
    StoreError,
> {
    match spec_open_blob(key, blob) {
        Ok(p) => match spec_decode_group_data(p) {
            Some(g) => Ok(g),
            None => Err(StoreError::CorruptRecord),
        },
        Err(e) => Err(e),
    }
}

/// Opens and decodes one stored entry blob.
fn read_entry_blob(cipher: &Cipher, blob: &[u8]) -> (r: Result<EntryData, StoreError>)
    ensures
        r matches Ok(d) ==> spec_read_entry(cipher@, blob@) == Ok::<EntryDataView, StoreError>(d@),
        r matches Err(e) ==> spec_read_entry(cipher@, blob@) == Err::<EntryDataView, StoreError>(
            e,
        ),
{
    proof {
        reveal(spec_read_entry);
    }
    let plain = match open_blob(cipher, blob) {
        Ok(p) => p,
        Err(e) => {
            return Err(e);
        },
    };
    decode_entry_data(plain.as_slice())
}

/// Opens and decodes one stored group blob.
fn read_group_blob(cipher: &Cipher, blob: &[u8]) -> (r: Result<EntryGroupData, StoreError>)
    ensures
        r matches Ok(g) ==> spec_read_group(cipher@, blob@) == Ok::<
            EntryGroupDataView,
            StoreError,
        >(g@),
        r matches Err(e) ==> spec_read_group(cipher@, blob@) == Err::<
            EntryGroupDataView,
            StoreError,
        >(e),
{
    proof {
        reveal(spec_read_group);
    }
    let plain = match open_blob(cipher, blob) {
        Ok(p) => p,
        Err(e) => {
            return Err(e);
        },
    };
    decode_group_data(plain.as_slice())
}

/// An open handle on one store file, holding the session's cipher for its
/// whole lifetime.
pub struct Database<'a> {
    conn: Connection,
    cipher: &'a Cipher,
}

impl<'a> Database<'a> {
    /// The session key the store encrypts and decrypts with.
    pub closed spec fn key(self) -> Seq<u8> {
        self.cipher@
    }

    /// Model of the entry table: id -> (group id, blob).
    pub closed spec fn entries_model(self) -> Map<i64, (i64, Seq<u8>)> {
        entry_rows(self.conn)
    }

    /// Model of the group table: id -> blob.
    pub closed spec fn groups_model(self) -> Map<i64, Seq<u8>> {
        group_rows(self.conn)
    }

    /// Model of the parent-edge table.
    pub closed spec fn edges_model(self) -> Set<(i64, i64)> {
        edge_rows(self.conn)
    }

    /// Model of the metadata table.
    pub closed spec fn challenges_model(self) -> Seq<Seq<u8>> {
        challenge_rows(self.conn)
    }

    /// Every parent edge points at an existing group: the shape every store
    /// reached from `create` keeps.
    pub open spec fn wf(self) -> bool {
        spec_tree_wf(self.groups_model(), self.edges_model())
    }

    /// Creates a new store at `path`: provisions the schema, the root group
    /// row (reserved id, empty name) and the sealed challenge row, all in
    /// one transaction. Fails with `AlreadyExists` when a file is already
    /// present at `path`.
    pub fn create(path: &str, cipher: &'a Cipher) -> (r: Result<Self, StoreError>)
        ensures
            r matches Ok(db) ==> db.key() == cipher@ && db.wf() && db.entries_model()
                == spec_no_entries() && db.edges_model() == spec_no_edges()
                && db.groups_model().dom() == set![ROOT_GROUP_ID] && spec_read_group(
                cipher@,
                db.groups_model()[ROOT_GROUP_ID],
            ) == Ok::<EntryGroupDataView, StoreError>(
                EntryGroupDataView { group_name: Seq::empty() },
            ) && db.challenges_model().len() == 1 && spec_open_blob(
                cipher@,
                db.challenges_model()[0],
            ) == Ok::<Seq<u8>, StoreError>(CHALLENGE@),
            r matches Err(e) ==> e == StoreError::AlreadyExists || e == StoreError::Storage,
    {
        if path_exists(path) {
            return Err(StoreError::AlreadyExists);
        }
        let root_data = EntryGroupData::new(String::new());
        let root_plain = encode_group_data(&root_data);
        let root_blob = match seal(cipher, root_plain.as_slice()) {
            Ok(b) => b,
            Err(_) => {
                return Err(StoreError::Storage);
            },
        };
        let challenge_blob = match seal(cipher, CHALLENGE.as_slice()) {
            Ok(b) => b,
            Err(_) => {
                return Err(StoreError::Storage);
            },
        };
        let conn = match create_db(path, root_blob.as_slice(), challenge_blob.as_slice()) {
            Ok(c) => c,
            Err(_) => {
                return Err(StoreError::Storage);
            },
        };
        let db = Database { conn, cipher };
        proof {
            reveal(spec_read_group);
            lemma_group_data_round_trip(root_data@);
            assert(db.groups_model().dom() =~= set![ROOT_GROUP_ID]);
        }
        Ok(db)
    }

    /// Opens an existing store at `path`. Fails with `NotFound` when no
    /// file exists there, and with `WrongCredentials` when the stored
    /// challenge, decrypted with `cipher`, does not equal the fixed
    /// challenge constant — the one signal for a wrong username or
    /// password and for an undecryptable store alike.
    pub fn open(path: &str, cipher: &'a Cipher) -> (r: Result<Self, StoreError>)
        ensures
            r matches Ok(db) ==> db.key() == cipher@ && db.challenges_model().len() > 0
                && spec_open_blob(cipher@, db.challenges_model()[0]) == Ok::<Seq<u8>, StoreError>(
                CHALLENGE@,
            ),
            r matches Err(e) ==> e == StoreError::NotFound || e == StoreError::WrongCredentials
                || e == StoreError::Storage,
    {
        if !path_exists(path) {
            return Err(StoreError::NotFound);
        }
        let conn = match open_db(path) {
            Ok(c) => c,
            Err(_) => {
                return Err(StoreError::Storage);
            },
        };
        let challenge_blob = match db_select_challenge(&conn) {
            Ok(b) => b,
            Err(_) => {
                return Err(StoreError::Storage);
            },
        };
        let decrypted = match open_blob(cipher, challenge_blob.as_slice()) {
            Ok(p) => p,
            Err(_) => {
                return Err(StoreError::WrongCredentials);
            },
        };
        if !bytes_eq(decrypted.as_slice(), CHALLENGE.as_slice()) {
            return Err(StoreError::WrongCredentials);
        }
        Ok(Database { conn, cipher })
    }

    /// The reserved, well-known identifier of the root group: a constant,
    /// not computed by traversal.
    pub fn root_group_id(&self) -> (r: i64)
        ensures
            r == ROOT_GROUP_ID,
    {
        ROOT_GROUP_ID
    }

    /// What looking up the entry row `row_id` yields: the decrypted,
    /// decoded entry, or the failure the lookup runs into first.
    pub open spec fn spec_entry_result(self, row_id: i64) -> Result<EntryView, StoreError> {
        if !self.entries_model().contains_key(row_id) {
            Err(StoreError::EntryNotFound)
        } else {
            match spec_read_entry(self.key(), self.entries_model()[row_id].1) {
                Ok(d) => Ok(EntryView { id: row_id, data: d }),
                Err(e) => Err(e),
            }
        }
    }

    /// Reads one entry row. Fails with `EntryNotFound` when no such row
    /// exists, and with `AuthenticationFailure`, `MalformedBlob` or
    /// `CorruptRecord` when the stored blob fails to decrypt or decode.
    pub fn entry(&self, row_id: i64) -> (r: Result<Entry, StoreError>)
        ensures
            r matches Ok(e) ==> self.spec_entry_result(row_id) == Ok::<EntryView, StoreError>(e@),
            r matches Err(e) ==> e == StoreError::Storage || self.spec_entry_result(row_id)
                == Err::<EntryView, StoreError>(e),
    {
        let got = match db_select_entry(&self.conn, row_id) {
            Ok(o) => o,
            Err(_) => {
                return Err(StoreError::Storage);
            },
        };
        let blob = match got {
            Some(b) => b,
            None => {
                return Err(StoreError::EntryNotFound);
            },
        };
        match read_entry_blob(self.cipher, blob.as_slice()) {
            Ok(data) => Ok(Entry::new(row_id, data)),
            Err(e) => Err(e),
        }
    }

    /// Encrypts and appends one new entry row in `group_id`, returning its
    /// freshly assigned identifier. Fails with `GroupNotFound` when
    /// `group_id` does not reference an existing group; a single-row
    /// insert, not transactional with anything else.
    pub fn insert_entry(&mut self, group_id: i64, entry: &EntryData) -> (r: Result<i64, StoreError>)
        ensures
            final(self).key() == old(self).key(),
            final(self).groups_model() == old(self).groups_model(),
            final(self).edges_model() == old(self).edges_model(),
            final(self).challenges_model() == old(self).challenges_model(),
            old(self).wf() ==> final(self).wf(),
            r matches Ok(id) ==> !old(self).entries_model().contains_key(id) && final(self).entries_model().contains_key(id) && final(self).entries_model()[id].0 == group_id
                && spec_read_entry(old(self).key(), final(self).entries_model()[id].1) == Ok::<
                EntryDataView,
                StoreError,
            >(entry@) && final(self).entries_model().remove(id) == old(self).entries_model()
                && old(self).groups_model().contains_key(group_id),
            r matches Err(e) ==> final(self).entries_model() == old(self).entries_model() && (e
                == StoreError::GroupNotFound || e == StoreError::Storage),
            r == Err::<i64, StoreError>(StoreError::GroupNotFound) ==> !old(self).groups_model().contains_key(group_id),
    {
        let group_ok = match db_group_exists(&self.conn, group_id) {
            Ok(b) => b,
            Err(_) => {
                return Err(StoreError::Storage);
            },
        };
        if !group_ok {
            return Err(StoreError::GroupNotFound);
        }
        let plain = encode_entry_data(entry);
        let plain_len = plain.len();
        proof {
            reveal(spec_read_entry);
            lemma_auto_spec_u64_to_from_le_bytes();
            assert(encode_utf8(entry@.entry_name).len() <= plain_len);
            assert(encode_utf8(entry@.username).len() <= plain_len);
            assert(encode_utf8(entry@.password).len() <= plain_len);
            lemma_entry_data_round_trip(entry@);
        }
        let blob = match seal(self.cipher, plain.as_slice()) {
            Ok(b) => b,
            Err(_) => {
                return Err(StoreError::Storage);
            },
        };
        let id = match db_insert_entry(&mut self.conn, group_id, blob.as_slice()) {
            Ok(i) => i,
            Err(_) => {
                return Err(StoreError::Storage);
            },
        };
        proof {
            assert(final(self).entries_model().remove(id) =~= old(self).entries_model());
        }
        Ok(id)
    }

    /// Encrypts and inserts the root group row under the reserved
    /// identifier; used when provisioning a store. Fails when that
    /// identifier is already taken.
    pub fn insert_root_entry_group(&mut self, group_data: &EntryGroupData) -> (r: Result<
        i64,
        StoreError,
    >)
        ensures
            final(self).key() == old(self).key(),
            final(self).entries_model() == old(self).entries_model(),
            final(self).edges_model() == old(self).edges_model(),
            final(self).challenges_model() == old(self).challenges_model(),
            r matches Ok(id) ==> id == ROOT_GROUP_ID && !old(self).groups_model().contains_key(
                ROOT_GROUP_ID,
            ) && final(self).groups_model().contains_key(ROOT_GROUP_ID) && spec_read_group(
                old(self).key(),
                final(self).groups_model()[ROOT_GROUP_ID],
            ) == Ok::<EntryGroupDataView, StoreError>(group_data@) && final(self).groups_model().remove(ROOT_GROUP_ID) == old(self).groups_model(),
            r matches Err(e) ==> final(self).groups_model() == old(self).groups_model() && e
                == StoreError::Storage,
    {
        let plain = encode_group_data(group_data);
        let plain_len = plain.len();
        proof {
            reveal(spec_read_group);
            lemma_auto_spec_u64_to_from_le_bytes();
            assert(encode_utf8(group_data@.group_name).len() <= plain_len);
            lemma_group_data_round_trip(group_data@);
        }
        let blob = match seal(self.cipher, plain.as_slice()) {
            Ok(b) => b,
            Err(_) => {
                return Err(StoreError::Storage);
            },
        };
        let id = match db_insert_root_group(&mut self.conn, blob.as_slice()) {
            Ok(i) => i,
            Err(_) => {
                return Err(StoreError::Storage);
            },
        };
        proof {
            assert(final(self).groups_model().remove(ROOT_GROUP_ID) =~= old(self).groups_model());
        }
        Ok(id)
    }

    /// Encrypts and inserts one new group row and its parent edge as a
    /// single transaction: on any failure neither row is committed, so no
    /// orphaned group can appear. Fails with `GroupNotFound` when
    /// `parent_group_id` does not reference an existing group.
    pub fn insert_entry_group(
        &mut self,
        parent_group_id: i64,
        group_data: &EntryGroupData,
    ) -> (r: Result<i64, StoreError>)
        ensures
            final(self).key() == old(self).key(),
            final(self).entries_model() == old(self).entries_model(),
            final(self).challenges_model() == old(self).challenges_model(),
            old(self).wf() ==> final(self).wf(),
            r matches Ok(id) ==> !old(self).groups_model().contains_key(id) && final(self).groups_model().contains_key(id) && spec_read_group(
                old(self).key(),
                final(self).groups_model()[id],
            ) == Ok::<EntryGroupDataView, StoreError>(group_data@) && final(self).groups_model().remove(id) == old(self).groups_model() && final(self).edges_model()
                == old(self).edges_model().insert((parent_group_id, id)) && old(self).groups_model().contains_key(parent_group_id),
            r matches Err(e) ==> final(self).groups_model() == old(self).groups_model() && final(self).edges_model() == old(self).edges_model() && (e == StoreError::GroupNotFound || e
                == StoreError::Storage),
            r == Err::<i64, StoreError>(StoreError::GroupNotFound) ==> !old(self).groups_model().contains_key(parent_group_id),
    {
        let parent_ok = match db_group_exists(&self.conn, parent_group_id) {
            Ok(b) => b,
            Err(_) => {
                return Err(StoreError::Storage);
            },
        };
        if !parent_ok {
            return Err(StoreError::GroupNotFound);
        }
        let plain = encode_group_data(group_data);
        let plain_len = plain.len();
        proof {
            reveal(spec_read_group);
            lemma_auto_spec_u64_to_from_le_bytes();
            assert(encode_utf8(group_data@.group_name).len() <= plain_len);
            lemma_group_data_round_trip(group_data@);
        }
        let blob = match seal(self.cipher, plain.as_slice()) {
            Ok(b) => b,
            Err(_) => {
                return Err(StoreError::Storage);
            },
        };
        let id = match db_insert_group_with_edge(&mut self.conn, parent_group_id, blob.as_slice())
        {
            Ok(i) => i,
            Err(_) => {
                return Err(StoreError::Storage);
            },
        };
        proof {
            assert(final(self).groups_model().remove(id) =~= old(self).groups_model());
            if old(self).wf() {
                assert forall|e: (i64, i64)| #[trigger]
                    final(self).edges_model().contains(e) implies final(self).groups_model().contains_key(e.1) by {
                    if e != (parent_group_id, id) {
                        assert(old(self).edges_model().contains(e));
                    }
                }
            }
        }
        Ok(id)
    }

    /// Whether the group row `id` passes the optional parent filter: with
    /// `Some(p)`, exactly the direct children of `p` via the parent-edge
    /// table are selected.
    pub open spec fn spec_group_row_selected(self, id: i64, filter: Option<i64>) -> bool {
        match filter {
            Some(p) => self.edges_model().contains((p, id)),
            None => true,
        }
    }

    /// Returns all entries, in ascending id order, optionally restricted
    /// to one group and optionally filtered to those whose decoded name
    /// contains `name_filter` as a substring. Every candidate row is
    /// decrypted before the name test; a row that fails to decrypt or
    /// decode fails the whole call.
    #[verifier::rlimit(100)]
    #[verifier::spinoff_prover]
    pub fn entries(&self, name_filter: Option<&str>, parent_group_id: Option<i64>) -> (r: Result<
        Vec<Entry>,
        StoreError,
    >)
        ensures
            r matches Ok(es) ==> (forall|i: int|
                0 <= i < es@.len() ==> self.entries_model().contains_key(
                    (#[trigger] es@[i])@.id,
                ) && spec_group_selected(self.entries_model()[es@[i]@.id].0, parent_group_id)
                    && spec_read_entry(self.key(), self.entries_model()[es@[i]@.id].1) == Ok::<
                    EntryDataView,
                    StoreError,
                >(es@[i]@.data) && spec_name_selected(es@[i]@.data, name_filter)),
            r matches Ok(es) ==> (forall|id: i64|
                (#[trigger] self.entries_model().contains_key(id)) && spec_group_selected(
                    self.entries_model()[id].0,
                    parent_group_id,
                ) ==> spec_read_entry(self.key(), self.entries_model()[id].1) is Ok),
            r matches Ok(es) ==> (forall|id: i64|
                (#[trigger] self.entries_model().contains_key(id)) && spec_group_selected(
                    self.entries_model()[id].0,
                    parent_group_id,
                ) && spec_read_entry(self.key(), self.entries_model()[id].1) is Ok
                    && spec_name_selected(
                    spec_read_entry(self.key(), self.entries_model()[id].1)->Ok_0,
                    name_filter,
                ) ==> exists|i: int| 0 <= i < es@.len() && (#[trigger] es@[i])@.id == id),
            r matches Ok(es) ==> (forall|i: int, j: int|
                0 <= i < j < es@.len() ==> es@[i]@.id < es@[j]@.id),
            r matches Err(e) ==> e == StoreError::Storage || (exists|id: i64|
                (#[trigger] self.entries_model().contains_key(id)) && spec_group_selected(
                    self.entries_model()[id].0,
                    parent_group_id,
                ) && spec_read_entry(self.key(), self.entries_model()[id].1) == Err::<
                    EntryDataView,
                    StoreError,
                >(e)),
    {
        let rows = match db_select_entries(&self.conn) {
            Ok(v) => v,
            Err(_) => {
                return Err(StoreError::Storage);
            },
        };
        let rs = rows.as_slice();
        let mut out: Vec<Entry> = Vec::new();
        let mut idx: usize = 0;
        while idx < rs.len()
            invariant
                idx <= rows@.len(),
                rs@ == rows@,
                forall|i: int|
                    0 <= i < rows@.len() ==> self.entries_model().contains_key(
                        (#[trigger] rows@[i]).0,
                    ) && self.entries_model()[rows@[i].0] == (rows@[i].1, rows@[i].2@),
                forall|id: i64|
                    #[trigger] self.entries_model().contains_key(id) ==> exists|i: int|
                        0 <= i < rows@.len() && rows@[i].0 == id,
                forall|i: int, j: int| 0 <= i < j < rows@.len() ==> rows@[i].0 < rows@[j].0,
                forall|j: int|
                    0 <= j < idx && spec_group_selected((#[trigger] rows@[j]).1, parent_group_id)
                        ==> spec_read_entry(self.key(), rows@[j].2@) is Ok,
                forall|k: int|
                    0 <= k < out@.len() ==> exists|j: int|
                        0 <= j < idx && (#[trigger] out@[k])@.id == rows@[j].0,
                forall|k: int|
                    0 <= k < out@.len() ==> self.entries_model().contains_key(
                        (#[trigger] out@[k])@.id,
                    ) && spec_group_selected(
                        self.entries_model()[out@[k]@.id].0,
                        parent_group_id,
                    ) && spec_read_entry(self.key(), self.entries_model()[out@[k]@.id].1) == Ok::<
                        EntryDataView,
                        StoreError,
                    >(out@[k]@.data) && spec_name_selected(out@[k]@.data, name_filter),
                forall|j: int|
                    0 <= j < idx && spec_group_selected((#[trigger] rows@[j]).1, parent_group_id)
                        && spec_read_entry(self.key(), rows@[j].2@) is Ok && spec_name_selected(
                        spec_read_entry(self.key(), rows@[j].2@)->Ok_0,
                        name_filter,
                    ) ==> exists|k: int| 0 <= k < out@.len() && (#[trigger] out@[k])@.id
                        == rows@[j].0,
                forall|k: int, j: int|
                    0 <= k < out@.len() && idx <= j < rows@.len() ==> (#[trigger] out@[k])@.id < (
                    #[trigger] rows@[j]).0,
                forall|k1: int, k2: int|
                    0 <= k1 < k2 < out@.len() ==> out@[k1]@.id < out@[k2]@.id,
            decreases rows@.len() - idx,
        {
            let row = vstd::slice::slice_index_get(rs, idx);
            let selected = match parent_group_id {
                Some(p) => row.1 == p,
                None => true,
            };
            proof {
                assert(selected == spec_group_selected(rows@[idx as int].1, parent_group_id));
            }
            if selected {
                let data = match read_entry_blob(self.cipher, row.2.as_slice()) {
                    Ok(d) => d,
                    Err(e) => {
                        assert(self.entries_model().contains_key(rows@[idx as int].0));
                        assert(self.entries_model()[rows@[idx as int].0] == (
                            rows@[idx as int].1,
                            rows@[idx as int].2@,
                        ));
                        return Err(e);
                    },
                };
                proof {
                    assert(spec_read_entry(self.key(), rows@[idx as int].2@) == Ok::<
                        EntryDataView,
                        StoreError,
                    >(data@));
                }
                let keep = match name_filter {
                    Some(nf) => contains_substring(data.name(), nf),
                    None => true,
                };
                proof {
                    assert(keep == spec_name_selected(data@, name_filter));
                }
                if keep {
                    let ghost out_before = out@;
                    let row_id = row.0;
                    out.push(Entry::new(row_id, data));
                    proof {
                        assert(out@[out@.len() - 1]@.id == rows@[idx as int].0);
                        assert forall|k: int| 0 <= k < out_before.len() implies out@[k]
                            == out_before[k] by {}
                    }
                }
            }
            idx += 1;
        }
        proof {
            assert forall|id: i64|
                (#[trigger] self.entries_model().contains_key(id)) && spec_group_selected(
                    self.entries_model()[id].0,
                    parent_group_id,
                ) implies spec_read_entry(self.key(), self.entries_model()[id].1) is Ok && (
            spec_name_selected(
                spec_read_entry(self.key(), self.entries_model()[id].1)->Ok_0,
                name_filter,
            ) ==> exists|i: int| 0 <= i < out@.len() && (#[trigger] out@[i])@.id == id) by {
                let j = choose|j: int| 0 <= j < rows@.len() && rows@[j].0 == id;
                assert(self.entries_model()[id] == (rows@[j].1, rows@[j].2@));
            }
        }
        Ok(out)
    }

    /// Returns all groups, in ascending id order, or only the direct
    /// children of `parent_group_id` via the parent-edge table. Only
    /// selected rows are decrypted; one that fails to decrypt or decode
    /// fails the whole call.
    #[verifier::rlimit(100)]
    #[verifier::spinoff_prover]
    pub fn groups(&self, parent_group_id: Option<i64>) -> (r: Result<Vec<EntryGroup>, StoreError>)
        ensures
            r matches Ok(gs) ==> (forall|i: int|
                0 <= i < gs@.len() ==> self.groups_model().contains_key((#[trigger] gs@[i])@.id)
                    && self.spec_group_row_selected(gs@[i]@.id, parent_group_id)
                    && spec_read_group(self.key(), self.groups_model()[gs@[i]@.id]) == Ok::<
                    EntryGroupDataView,
                    StoreError,
                >(gs@[i]@.data)),
            r matches Ok(gs) ==> (forall|id: i64|
                (#[trigger] self.groups_model().contains_key(id))
                    && self.spec_group_row_selected(id, parent_group_id) ==> spec_read_group(
                    self.key(),
                    self.groups_model()[id],
                ) is Ok && (exists|i: int| 0 <= i < gs@.len() && (#[trigger] gs@[i])@.id == id)),
            r matches Ok(gs) ==> (forall|i: int, j: int|
                0 <= i < j < gs@.len() ==> gs@[i]@.id < gs@[j]@.id),
            r matches Err(e) ==> e == StoreError::Storage || (exists|id: i64|
                (#[trigger] self.groups_model().contains_key(id))
                    && self.spec_group_row_selected(id, parent_group_id) && spec_read_group(
                    self.key(),
                    self.groups_model()[id],
                ) == Err::<EntryGroupDataView, StoreError>(e)),
    {
        let rows = match db_select_groups(&self.conn) {
            Ok(v) => v,
            Err(_) => {
                return Err(StoreError::Storage);
            },
        };
        let edges = match db_select_edges(&self.conn) {
            Ok(v) => v,
            Err(_) => {
                return Err(StoreError::Storage);
            },
        };
        let rs = rows.as_slice();
        let mut out: Vec<EntryGroup> = Vec::new();
        let mut idx: usize = 0;
        while idx < rs.len()
            invariant
                idx <= rows@.len(),
                rs@ == rows@,
                forall|i: int|
                    0 <= i < rows@.len() ==> self.groups_model().contains_key(
                        (#[trigger] rows@[i]).0,
                    ) && self.groups_model()[rows@[i].0] == rows@[i].1@,
                forall|id: i64|
                    #[trigger] self.groups_model().contains_key(id) ==> exists|i: int|
                        0 <= i < rows@.len() && rows@[i].0 == id,
                forall|i: int, j: int| 0 <= i < j < rows@.len() ==> rows@[i].0 < rows@[j].0,
                forall|i: int|
                    0 <= i < edges@.len() ==> self.edges_model().contains(#[trigger] edges@[i]),
                forall|e: (i64, i64)|
                    #[trigger] self.edges_model().contains(e) ==> exists|i: int|
                        0 <= i < edges@.len() && edges@[i] == e,
                forall|j: int|
                    0 <= j < idx && self.spec_group_row_selected(
                        (#[trigger] rows@[j]).0,
                        parent_group_id,
                    ) ==> spec_read_group(self.key(), rows@[j].1@) is Ok,
                forall|k: int|
                    0 <= k < out@.len() ==> exists|j: int|
                        0 <= j < idx && (#[trigger] out@[k])@.id == rows@[j].0,
                forall|k: int|
                    0 <= k < out@.len() ==> self.groups_model().contains_key(
                        (#[trigger] out@[k])@.id,
                    ) && self.spec_group_row_selected(out@[k]@.id, parent_group_id)
                        && spec_read_group(self.key(), self.groups_model()[out@[k]@.id]) == Ok::<
                        EntryGroupDataView,
                        StoreError,
                    >(out@[k]@.data),
                forall|j: int|
                    0 <= j < idx && self.spec_group_row_selected(
                        (#[trigger] rows@[j]).0,
                        parent_group_id,
                    ) ==> exists|k: int| 0 <= k < out@.len() && (#[trigger] out@[k])@.id
                        == rows@[j].0,
                forall|k: int, j: int|
                    0 <= k < out@.len() && idx <= j < rows@.len() ==> (#[trigger] out@[k])@.id < (
                    #[trigger] rows@[j]).0,
                forall|k1: int, k2: int|
                    0 <= k1 < k2 < out@.len() ==> out@[k1]@.id < out@[k2]@.id,
            decreases rows@.len() - idx,
        {
            let row = vstd::slice::slice_index_get(rs, idx);
            let selected = match parent_group_id {
                Some(p) => edge_list_contains(&edges, p, row.0),
                None => true,
            };
            proof {
                assert(selected == self.spec_group_row_selected(
                    rows@[idx as int].0,
                    parent_group_id,
                )) by {
                    match parent_group_id {
                        Some(p) => {
                            if self.edges_model().contains((p, rows@[idx as int].0)) {
                                assert(exists|i: int|
                                    0 <= i < edges@.len() && edges@[i] == (
                                    p,
                                    rows@[idx as int].0,
                                ));
                            } else {
                                if exists|i: int|
                                    0 <= i < edges@.len() && edges@[i] == (
                                    p,
                                    rows@[idx as int].0,
                                ) {
                                    let i = choose|i: int|
                                        0 <= i < edges@.len() && edges@[i] == (
                                        p,
                                        rows@[idx as int].0,
                                    );
                                    assert(self.edges_model().contains(edges@[i]));
                                }
                            }
                        },
                        None => {},
                    }
                }
            }
            if selected {
                let data = match read_group_blob(self.cipher, row.1.as_slice()) {
                    Ok(d) => d,
                    Err(e) => {
                        assert(self.groups_model().contains_key(rows@[idx as int].0));
                        assert(self.groups_model()[rows@[idx as int].0] == rows@[idx as int].1@);
                        return Err(e);
                    },
                };
                proof {
                    assert(spec_read_group(self.key(), rows@[idx as int].1@) == Ok::<
                        EntryGroupDataView,
                        StoreError,
                    >(data@));
                }
                let ghost out_before = out@;
                let row_id = row.0;
                out.push(EntryGroup::new(row_id, data));
                proof {
                    assert(out@[out@.len() - 1]@.id == rows@[idx as int].0);
                    assert forall|k: int| 0 <= k < out_before.len() implies out@[k]
                        == out_before[k] by {}
                }
            }
            idx += 1;
        }
        proof {
            assert forall|id: i64|
                (#[trigger] self.groups_model().contains_key(id))
                    && self.spec_group_row_selected(id, parent_group_id) implies spec_read_group(
                self.key(),
                self.groups_model()[id],
            ) is Ok && (exists|i: int| 0 <= i < out@.len() && (#[trigger] out@[i])@.id == id) by {
                let j = choose|j: int| 0 <= j < rows@.len() && rows@[j].0 == id;
                assert(self.groups_model()[id] == rows@[j].1@);
            }
        }
        Ok(out)
    }
}

} // verus!
