//! The data model: credentials and the entry / group records.
//!
//! Credentials are consumed once, to derive a cipher key: a single keyed
//! hash pass over the user bytes followed by the password bytes. Entries
//! and groups pair a row identifier with their decrypted record data.

use crate::encryption::{sha256_of, CipherKey};
use vstd::prelude::*;
use vstd::utf8::encode_utf8;

verus! {

/// Username and password, held only until a key is derived from them.
pub struct Credentials {
    user: String,
    password: String,
}

pub ghost struct CredentialsView {
    pub user: Seq<char>,
    pub password: Seq<char>,
}

impl View for Credentials {
    type V = CredentialsView;

    closed spec fn view(&self) -> CredentialsView {
        CredentialsView { user: self.user@, password: self.password@ }
    }
}

impl Credentials {
    pub fn new(user: String, password: String) -> (r: Self)
        ensures
            r@.user == user@,
            r@.password == password@,
    {
        Credentials { user, password }
    }

    pub fn user(&self) -> (r: &str)
        ensures
            r@ == self@.user,
    {
        self.user.as_str()
    }

    /// Derives the 256-bit cipher key: one hash pass over
    /// `user_bytes ++ password_bytes` (user first, no delimiter).
    /// Deterministic: the same credentials always give the same key.
    pub fn derive_key(&self) -> (r: CipherKey)
        ensures
            r@ == sha256_of(encode_utf8(self@.user) + encode_utf8(self@.password)),
    {
        let mut input: Vec<u8> = Vec::new();
        input.extend_from_slice(self.user.as_str().as_bytes());
        input.extend_from_slice(self.password.as_str().as_bytes());
        assert(input@ =~= encode_utf8(self@.user) + encode_utf8(self@.password));
        CipherKey::from_bytes(input.as_slice())
    }
}

/// The decrypted payload of one entry row.
#[derive(Debug)]
pub struct EntryData {
    entry_name: String,
    username: String,
    password: String,
}

pub ghost struct EntryDataView {
    pub entry_name: Seq<char>,
    pub username: Seq<char>,
    pub password: Seq<char>,
}

impl View for EntryData {
    type V = EntryDataView;

    closed spec fn view(&self) -> EntryDataView {
        EntryDataView {
            entry_name: self.entry_name@,
            username: self.username@,
            password: self.password@,
        }
    }
}

impl EntryData {
    pub fn new(entry_name: String, username: String, password: String) -> (r: Self)
        ensures
            r@ == (EntryDataView { entry_name: entry_name@, username: username@, password: password@ }),
    {
        EntryData { entry_name, username, password }
    }

    pub fn name(&self) -> (r: &str)
        ensures
            r@ == self@.entry_name,
    {
        self.entry_name.as_str()
    }

    pub fn username(&self) -> (r: &str)
        ensures
            r@ == self@.username,
    {
        self.username.as_str()
    }

    pub fn password(&self) -> (r: &str)
        ensures
            r@ == self@.password,
    {
        self.password.as_str()
    }
}

/// One entry row: identifier plus decrypted data. Every entry belongs to
/// exactly one group.
#[derive(Debug)]
pub struct Entry {
    id: i64,
    data: EntryData,
}

pub ghost struct EntryView {
    pub id: i64,
    pub data: EntryDataView,
}

impl View for Entry {
    type V = EntryView;

    closed spec fn view(&self) -> EntryView {
        EntryView { id: self.id, data: self.data@ }
    }
}

impl Entry {
    pub fn new(id: i64, data: EntryData) -> (r: Self)
        ensures
            r@.id == id,
            r@.data == data@,
    {
        Entry { id, data }
    }

    pub fn data(&self) -> (r: &EntryData)
        ensures
            r@ == self@.data,
    {
        &self.data
    }

    pub fn id(&self) -> (r: i64)
        ensures
            r == self@.id,
    {
        self.id
    }
}

/// The decrypted payload of one group row.
#[derive(Debug)]
pub struct EntryGroupData {
    group_name: String,
}

pub ghost struct EntryGroupDataView {
    pub group_name: Seq<char>,
}

impl View for EntryGroupData {
    type V = EntryGroupDataView;

    closed spec fn view(&self) -> EntryGroupDataView {
        EntryGroupDataView { group_name: self.group_name@ }
    }
}

impl EntryGroupData {
    pub fn new(group_name: String) -> (r: Self)
        ensures
            r@ == (EntryGroupDataView { group_name: group_name@ }),
    {
        EntryGroupData { group_name }
    }

    pub fn name(&self) -> (r: &str)
        ensures
            r@ == self@.group_name,
    {
        self.group_name.as_str()
    }
}

/// One group row: identifier plus decrypted data. Groups form a tree
/// rooted at a single well-known group.
pub struct EntryGroup {
    id: i64,
    data: EntryGroupData,
}

pub ghost struct EntryGroupView {
    pub id: i64,
    pub data: EntryGroupDataView,
}

impl View for EntryGroup {
    type V = EntryGroupView;

    closed spec fn view(&self) -> EntryGroupView {
        EntryGroupView { id: self.id, data: self.data@ }
    }
}

impl EntryGroup {
    pub fn new(id: i64, data: EntryGroupData) -> (r: Self)
        ensures
            r@.id == id,
            r@.data == data@,
    {
        EntryGroup { id, data }
    }

    pub fn data(&self) -> (r: &EntryGroupData)
        ensures
            r@ == self@.data,
    {
        &self.data
    }

    pub fn id(&self) -> (r: i64)
        ensures
            r == self@.id,
    {
        self.id
    }
}

} // verus!
