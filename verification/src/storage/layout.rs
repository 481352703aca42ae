//! Where the entries of the warm and the cold tier lie on disk, and the
//! table of files that each of the two tiers keeps.

use vstd::prelude::*;
use vstd::string::StringExecFns;
use crate::crypto::{hex_encode, hex_text, sha256, sha256_digest};
use crate::keymap::KeyMap;
use crate::storage::types::StorageKey;

verus! {

/// The name of the file of a key: the SHA-256 digest of the key.
pub open spec fn file_name(key: Seq<u8>) -> Seq<u8> {
    sha256_digest(key)
}

/// The hex text of the digest of a key. Its first two characters name the
/// shard directory and the rest names the file.
pub open spec fn hashed_key_text(key: Seq<u8>) -> Seq<char> {
    hex_text(sha256_digest(key))
}

/// The SHA-256 digest of `key` as lower-case hex text.
pub fn hash_key(key: &StorageKey) -> (text: String)
    ensures
        text@ == hashed_key_text(key.0@),
{
    let digest = sha256(key.0.as_slice());
    hex_encode(digest.as_slice())
}

/// The shard directory and the file name of a digest: the first two hex
/// characters and the sixty-two that follow.
pub fn shard_and_file(name: &[u8; 32]) -> (parts: (String, String))
    ensures
        parts.0@ == hex_text(name@.subrange(0, 1)),
        parts.1@ == hex_text(name@.subrange(1, 32)),
        parts.0@ + parts.1@ == hex_text(name@),
{
    let all = name.as_slice();
    let shard = hex_encode(vstd::slice::slice_subrange(all, 0, 1));
    let file = hex_encode(vstd::slice::slice_subrange(all, 1, 32));
    proof {
        assert(hex_text(name@.subrange(0, 1)) + hex_text(name@.subrange(1, 32)) =~= hex_text(
            name@,
        ));
    }
    (shard, file)
}

/// The path of the file of `key` below `base_dir`: the base directory, the
/// shard directory and the file name, with `/` between them.
pub fn key_path(base_dir: &str, key: &StorageKey) -> (path: String)
    ensures
        path@ == base_dir@ + "/"@ + hex_text(file_name(key.0@).subrange(0, 1)) + "/"@ + hex_text(
            file_name(key.0@).subrange(1, 32),
        ),
{
    let digest = sha256(key.0.as_slice());
    let (shard, file) = shard_and_file(&digest);
    let mut path = String::from_str(base_dir);
    path.append("/");
    path.append(shard.as_str());
    path.append("/");
    path.append(file.as_str());
    path
}

/// What is to be done to a file of a tier on disk.
#[derive(Debug, Clone, PartialEq, Eq)]
pub enum FileOp {
    /// Write `data` to the file named by the digest `name`.
    Write { name: [u8; 32], data: Vec<u8> },
    /// Delete the file named by the digest `name`.
    Delete { name: [u8; 32] },
}

/// A file operation as plain values.
pub enum FileOpView {
    Write { name: Seq<u8>, data: Seq<u8> },
    Delete { name: Seq<u8> },
}

impl View for FileOp {
    type V = FileOpView;

    open spec fn view(&self) -> FileOpView {
        match self {
            FileOp::Write { name, data } => FileOpView::Write { name: name@, data: data@ },
            FileOp::Delete { name } => FileOpView::Delete { name: name@ },
        }
    }
}

/// The operations of a sequence as plain values.
pub open spec fn file_op_views(ops: Seq<FileOp>) -> Seq<FileOpView> {
    Seq::new(ops.len(), |i: int| ops[i]@)
}

/// The files of a tier: the contents of each file by the digest that names
/// it, and the operations that are still to be carried out on disk.
#[derive(Debug, Clone)]
pub struct FileTable {
    files: KeyMap<Vec<u8>>,
    pending: Vec<FileOp>,
}

impl FileTable {
    /// The contents of the files by their names.
    pub closed spec fn files(self) -> Map<Seq<u8>, Seq<u8>> {
        Map::new(
            |name: Seq<u8>| self.files.contains(name),
            |name: Seq<u8>| self.files.value(name)@,
        )
    }

    /// The operations that are still to be carried out on disk, the oldest first.
    pub closed spec fn pending(self) -> Seq<FileOpView> {
        file_op_views(self.pending@)
    }

    /// The table holds each file once.
    pub closed spec fn wf(self) -> bool {
        self.files.wf()
    }

    /// An empty table.
    pub fn new() -> (table: Self)
        ensures
            table.wf(),
            table.files() == Map::<Seq<u8>, Seq<u8>>::empty(),
            table.pending().len() == 0,
    {
        let table = FileTable { files: KeyMap::new(), pending: Vec::new() };
        assert(table.files() =~= Map::<Seq<u8>, Seq<u8>>::empty());
        table
    }

    /// The contents of the file `name`.
    pub fn read(&self, name: &[u8; 32]) -> (data: Option<Vec<u8>>)
        requires
            self.wf(),
        ensures
            match data {
                Some(bytes) => self.files().dom().contains(name@) && bytes@ == self.files()[name@],
                None => !self.files().dom().contains(name@),
            },
    {
        match self.files.get(name) {
            Some(bytes) => Some(bytes.clone()),
            None => None,
        }
    }

    /// Whether the file `name` exists.
    pub fn has_file(&self, name: &[u8; 32]) -> (r: bool)
        requires
            self.wf(),
        ensures
            r == self.files().dom().contains(name@),
    {
        self.files.contains_key(name)
    }

    /// Writes `data` to the file `name`, and notes the write for the disk.
    pub fn write(&mut self, name: [u8; 32], data: Vec<u8>)
        requires
            old(self).wf(),
        ensures
            final(self).wf(),
            final(self).files() == old(self).files().insert(name@, data@),
            final(self).pending() == old(self).pending().push(
                FileOpView::Write { name: name@, data: data@ },
            ),
    {
        let ghost before = self.files@;
        let copy = data.clone();
        self.files.insert(name, data);
        self.pending.push(FileOp::Write { name, data: copy });
        proof {
            assert(self.files@ == before.insert(name@, data));
            assert(self.files() =~= old(self).files().insert(name@, data@)) by {
                assert forall|n: Seq<u8>| self.files().dom().contains(n) <==> old(
                    self,
                ).files().insert(name@, data@).dom().contains(n) by {
                    assert(self.files@.dom().contains(n) <==> before.insert(
                        name@,
                        data,
                    ).dom().contains(n));
                }
                assert forall|n: Seq<u8>| self.files().dom().contains(n) implies self.files()[n]
                    == old(self).files().insert(name@, data@)[n] by {
                    assert(self.files@[n] == before.insert(name@, data)[n]);
                }
            }
            assert(self.pending() =~= old(self).pending().push(
                FileOpView::Write { name: name@, data: data@ },
            ));
        }
    }

    /// Deletes the file `name` and returns what it held. The deletion is
    /// noted for the disk where the file existed.
    pub fn delete(&mut self, name: &[u8; 32]) -> (data: Option<Vec<u8>>)
        requires
            old(self).wf(),
        ensures
            final(self).wf(),
            final(self).files() == old(self).files().remove(name@),
            match data {
                Some(bytes) => old(self).files().dom().contains(name@) && bytes@ == old(
                    self,
                ).files()[name@] && final(self).pending() == old(self).pending().push(
                    FileOpView::Delete { name: name@ },
                ),
                None => !old(self).files().dom().contains(name@) && final(self).pending() == old(
                    self,
                ).pending(),
            },
    {
        let ghost before = self.files@;
        let removed = self.files.remove(name);
        proof {
            assert(self.files@ == before.remove(name@));
            assert(self.files() =~= old(self).files().remove(name@)) by {
                assert forall|n: Seq<u8>| self.files().dom().contains(n) <==> old(
                    self,
                ).files().remove(name@).dom().contains(n) by {
                    assert(self.files@.dom().contains(n) <==> before.remove(name@).dom().contains(
                        n,
                    ));
                }
                assert forall|n: Seq<u8>| self.files().dom().contains(n) implies self.files()[n]
                    == old(self).files().remove(name@)[n] by {
                    assert(self.files@[n] == before.remove(name@)[n]);
                }
            }
        }
        match removed {
            Some(bytes) => {
                self.pending.push(FileOp::Delete { name: *name });
                proof {
                    assert(self.pending() =~= old(self).pending().push(
                        FileOpView::Delete { name: name@ },
                    ));
                }
                Some(bytes)
            },
            None => None,
        }
    }

    /// Takes in a file that was found on disk, without noting anything.
    pub fn load(&mut self, name: [u8; 32], data: Vec<u8>)
        requires
            old(self).wf(),
        ensures
            final(self).wf(),
            final(self).files() == old(self).files().insert(name@, data@),
            final(self).pending() == old(self).pending(),
    {
        let ghost before = self.files@;
        self.files.insert(name, data);
        proof {
            assert(self.files@ == before.insert(name@, data));
            assert(self.files() =~= old(self).files().insert(name@, data@)) by {
                assert forall|n: Seq<u8>| self.files().dom().contains(n) <==> old(
                    self,
                ).files().insert(name@, data@).dom().contains(n) by {
                    assert(self.files@.dom().contains(n) <==> before.insert(
                        name@,
                        data,
                    ).dom().contains(n));
                }
                assert forall|n: Seq<u8>| self.files().dom().contains(n) implies self.files()[n]
                    == old(self).files().insert(name@, data@)[n] by {
                    assert(self.files@[n] == before.insert(name@, data)[n]);
                }
            }
        }
    }

    /// Hands out the operations that are still to be carried out on disk,
    /// and forgets them.
    pub fn take_pending(&mut self) -> (ops: Vec<FileOp>)
        ensures
            file_op_views(ops@) == old(self).pending(),
            final(self).pending().len() == 0,
            final(self).files() == old(self).files(),
            old(self).wf() ==> final(self).wf(),
    {
        let mut ops: Vec<FileOp> = Vec::new();
        core::mem::swap(&mut ops, &mut self.pending);
        ops
    }

}

/// The digest that names the file of `key`.
pub fn name_of(key: &StorageKey) -> (name: [u8; 32])
    ensures
        name@ == file_name(key.0@),
{
    sha256(key.0.as_slice())
}

} // verus!
