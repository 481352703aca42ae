//! The warm tier: a key-value store of files, one for each key, named by
//! the SHA-256 digest of the key.

use vstd::prelude::*;
use vstd::string::StringExecFns;
use crate::storage::layout::{FileOp, FileOpView, FileTable, file_name, file_op_views, name_of};
use crate::storage::types::{StorageKey, StorageResult, StorageValue};

verus! {

/// The warm tier. The store keeps the contents of its files and notes each
/// write and deletion, for the caller to carry out below the base directory.
#[derive(Debug, Clone)]
pub struct WarmStore {
    base_dir: String,
    table: FileTable,
}

impl WarmStore {
    /// The contents of the files by the digests that name them.
    pub closed spec fn files(self) -> Map<Seq<u8>, Seq<u8>> {
        self.table.files()
    }

    /// The writes and deletions that are still to be carried out on disk.
    pub closed spec fn pending(self) -> Seq<FileOpView> {
        self.table.pending()
    }

    /// The base directory.
    pub closed spec fn base(self) -> Seq<char> {
        self.base_dir@
    }

    pub closed spec fn wf(self) -> bool {
        self.table.wf()
    }

    /// The value stored under `key`, if there is one.
    pub open spec fn stored(self, key: Seq<u8>) -> Option<Seq<u8>> {
        if self.files().dom().contains(file_name(key)) {
            Some(self.files()[file_name(key)])
        } else {
            None
        }
    }

    /// An empty store for the directory `path`.
    pub fn new(path: &str) -> (store: Self)
        ensures
            store.wf(),
            store.base() == path@,
            store.files() == Map::<Seq<u8>, Seq<u8>>::empty(),
            store.pending().len() == 0,
    {
        WarmStore { base_dir: String::from_str(path), table: FileTable::new() }
    }

    /// The base directory.
    pub fn base_dir(&self) -> (path: &str)
        ensures
            path@ == self.base(),
    {
        self.base_dir.as_str()
    }

    /// The value stored under `key`.
    pub fn get(&self, key: &StorageKey) -> (r: StorageResult<Option<StorageValue>>)
        requires
            self.wf(),
        ensures
            r matches Ok(found) && (match found {
                Some(value) => self.stored(key.0@) == Some(value.0@),
                None => self.stored(key.0@) is None,
            }),
    {
        let name = name_of(key);
        match self.table.read(&name) {
            Some(bytes) => Ok(Some(StorageValue(bytes))),
            None => Ok(None),
        }
    }

    /// Stores `value` under `key`.
    pub fn put(&mut self, key: &StorageKey, value: &StorageValue) -> (r: StorageResult<()>)
        requires
            old(self).wf(),
        ensures
            r is Ok,
            final(self).wf(),
            final(self).base() == old(self).base(),
            final(self).files() == old(self).files().insert(file_name(key.0@), value.0@),
            final(self).pending() == old(self).pending().push(
                FileOpView::Write { name: file_name(key.0@), data: value.0@ },
            ),
    {
        let name = name_of(key);
        self.table.write(name, value.0.clone());
        Ok(())
    }

    /// Removes `key` and returns the value that was stored under it.
    pub fn remove(&mut self, key: &StorageKey) -> (r: StorageResult<Option<StorageValue>>)
        requires
            old(self).wf(),
        ensures
            final(self).wf(),
            final(self).base() == old(self).base(),
            final(self).files() == old(self).files().remove(file_name(key.0@)),
            r matches Ok(found) && (match found {
                Some(value) => old(self).stored(key.0@) == Some(value.0@) && final(self).pending()
                    == old(self).pending().push(FileOpView::Delete { name: file_name(key.0@) }),
                None => old(self).stored(key.0@) is None && final(self).pending() == old(
                    self,
                ).pending(),
            }),
    {
        let name = name_of(key);
        match self.table.delete(&name) {
            Some(bytes) => Ok(Some(StorageValue(bytes))),
            None => Ok(None),
        }
    }

    /// Whether a value is stored under `key`.
    pub fn contains(&self, key: &StorageKey) -> (r: bool)
        requires
            self.wf(),
        ensures
            r == self.stored(key.0@).is_some(),
    {
        let name = name_of(key);
        self.table.has_file(&name)
    }

    /// Takes in a file that was found on disk under the name `name`.
    pub fn load(&mut self, name: [u8; 32], data: Vec<u8>)
        requires
            old(self).wf(),
        ensures
            final(self).wf(),
            final(self).base() == old(self).base(),
            final(self).files() == old(self).files().insert(name@, data@),
            final(self).pending() == old(self).pending(),
    {
        self.table.load(name, data);
    }

    /// Hands out the writes and deletions that are still to be carried out
    /// on disk, and forgets them.
    pub fn take_pending(&mut self) -> (ops: Vec<FileOp>)
        ensures
            file_op_views(ops@) == old(self).pending(),
            final(self).pending().len() == 0,
            final(self).files() == old(self).files(),
            final(self).base() == old(self).base(),
            old(self).wf() ==> final(self).wf(),
    {
        self.table.take_pending()
    }
}

} // verus!
