//! The write coordinator.
//!
//! `Writer` owns at most one live engine writer per directory (the
//! instance cache) and the set of directories whose index was dropped
//! inside the current, not yet committed transaction (the drop-pending
//! set). Its contracts are stated over two abstractions: `cache()`,
//! the map from directory id to the model of the cached writer, and
//! `pending()`, the set of drop-pending directory ids.

use std::collections::HashMap;
use std::collections::HashSet;

use vstd::prelude::*;

use crate::descriptor::{encode_descriptor, IndexDescriptor, DESCRIPTOR_FILE_NAME};
use crate::document::{distinct_field_names, has_duplicate_field_name, SearchDocument, SearchFieldDef};
use crate::engine;
use crate::engine::WriterHandle;
use crate::error::WriterError;
use crate::model::{
    acquired_model, m_commit, m_delete_seq, m_insert, m_rollback, others_unchanged, WriterModel,
};

verus! {

broadcast use vstd::std_specs::hash::group_hash_axioms;

/// Identity of one index's storage location: a stable numeric id (the
/// map key everywhere) and the filesystem path the host resolved for
/// it. The host resolves one path per id for the life of the process.
pub struct WriterDirectory {
    pub index_oid: u64,
    pub path: String,
}

/// What a commit did, beyond making buffered mutations durable: whether
/// the engine-level commit ran (it is skipped, without error, when the
/// directory is gone from disk), and whether a pending drop deleted the
/// index. The caller is expected to log the skipped case.
#[derive(Debug, Clone, Copy, PartialEq, Eq, Structural)]
pub struct CommitOutcome {
    pub engine_committed: bool,
    pub index_dropped: bool,
}

/// The entity that coordinates index writers.
pub struct Writer {
    writers: HashMap<u64, WriterHandle>,
    drop_requested: HashSet<u64>,
}

impl Writer {
    /// The model of each cached writer, keyed by directory id.
    pub closed spec fn cache(&self) -> Map<u64, WriterModel> {
        self.writers@.map_values(|h: WriterHandle| h.model())
    }

    /// The ids of the directories whose drop awaits the next commit.
    pub closed spec fn pending(&self) -> Set<u64> {
        self.drop_requested@
    }

    pub fn new() -> (w: Writer)
        ensures
            w.cache() == Map::<u64, WriterModel>::empty(),
            w.pending() == Set::<u64>::empty(),
    {
        let w = Writer { writers: HashMap::new(), drop_requested: HashSet::new() };
        proof {
            assert(w.cache() =~= Map::<u64, WriterModel>::empty());
        }
        w
    }

    /// Takes the cached writer for the directory out of the cache, or
    /// opens a new one if none is cached.
    fn take_or_open(&mut self, directory: &WriterDirectory) -> (r: Result<
        WriterHandle,
        WriterError,
    >)
        ensures
            final(self).pending() == old(self).pending(),
            r is Ok ==> {
                &&& r->Ok_0.model() == acquired_model(old(self).cache(), directory.index_oid)
                &&& final(self).cache() == old(self).cache().remove(directory.index_oid)
            },
            r is Err ==> {
                &&& r->Err_0 is WriterUnavailable
                &&& !old(self).cache().contains_key(directory.index_oid)
                &&& final(self).cache() == old(self).cache()
            },
    {
        let key = directory.index_oid;
        match self.writers.remove(&key) {
            Some(handle) => {
                proof {
                    assert(self.cache() =~= old(self).cache().remove(key));
                }
                Ok(handle)
            },
            None => {
                proof {
                    assert(self.cache() =~= old(self).cache());
                    assert(self.cache() =~= old(self).cache().remove(key));
                }
                match WriterHandle::open(&directory.path) {
                    Ok(handle) => Ok(handle),
                    Err(message) => Err(WriterError::WriterUnavailable(message)),
                }
            },
        }
    }

    /// Puts a writer (back) into the cache under the directory id.
    fn put_writer(&mut self, key: u64, handle: WriterHandle)
        ensures
            final(self).pending() == old(self).pending(),
            final(self).cache() == old(self).cache().insert(key, handle.model()),
    {
        let _previous = self.writers.insert(key, handle);
        proof {
            assert(self.cache() =~= old(self).cache().insert(key, handle.model()));
        }
    }

    /// Looks up the cached writer for the directory, lazily
    /// creating and caching one bound to it if none is cached. On a
    /// directory already cached this is a cache hit: the cache is
    /// returned unchanged, with the same writer instance under the id.
    pub fn acquire(&mut self, directory: &WriterDirectory) -> (r: Result<(), WriterError>)
        ensures
            final(self).pending() == old(self).pending(),
            r is Ok ==> final(self).cache() == old(self).cache().insert(
                directory.index_oid,
                acquired_model(old(self).cache(), directory.index_oid),
            ),
            r is Ok && old(self).cache().contains_key(directory.index_oid) ==> final(self).cache()
                == old(self).cache(),
            r is Err ==> {
                &&& r->Err_0 is WriterUnavailable
                &&& !old(self).cache().contains_key(directory.index_oid)
                &&& final(self).cache() == old(self).cache()
            },
            others_unchanged(
                old(self).cache(),
                final(self).cache(),
                old(self).pending(),
                final(self).pending(),
                directory.index_oid,
            ),
    {
        let key = directory.index_oid;
        match self.take_or_open(directory) {
            Err(e) => Err(e),
            Ok(handle) => {
                self.put_writer(key, handle);
                proof {
                    if old(self).cache().contains_key(key) {
                        assert(self.cache() =~= old(self).cache());
                    }
                }
                Ok(())
            },
        }
    }

    /// Buffers the document in the directory's writer; it stays
    /// invisible until the transaction commits.
    pub fn insert(&mut self, directory: &WriterDirectory, document: &SearchDocument) -> (r: Result<
        (),
        WriterError,
    >)
        ensures
            final(self).pending() == old(self).pending(),
            r is Ok ==> final(self).cache() == old(self).cache().insert(
                directory.index_oid,
                m_insert(acquired_model(old(self).cache(), directory.index_oid), document@),
            ),
            r is Err ==> r->Err_0 is WriterUnavailable || r->Err_0 is WriteFailed,
            r is Err && r->Err_0 is WriterUnavailable ==> final(self).cache() == old(self).cache()
                && !old(self).cache().contains_key(directory.index_oid),
            r is Err && r->Err_0 is WriteFailed ==> final(self).cache() == old(self).cache().insert(
                directory.index_oid,
                acquired_model(old(self).cache(), directory.index_oid),
            ),
            others_unchanged(
                old(self).cache(),
                final(self).cache(),
                old(self).pending(),
                final(self).pending(),
                directory.index_oid,
            ),
    {
        let key = directory.index_oid;
        let mut handle = match self.take_or_open(directory) {
            Err(e) => {
                return Err(e);
            },
            Ok(h) => h,
        };
        match handle.add(document) {
            Ok(()) => {
                self.put_writer(key, handle);
                Ok(())
            },
            Err(message) => {
                self.put_writer(key, handle);
                Err(WriterError::WriteFailed(message))
            },
        }
    }

    /// Buffers one tombstone per key value against the key
    /// field; matching documents disappear at the next commit. A key
    /// field id that names no field of the index's schema is rejected
    /// with `WriteFailed` and nothing is buffered.
    pub fn delete(&mut self, directory: &WriterDirectory, key_field_id: u32, key_values: &Vec<
        u64,
    >) -> (r: Result<(), WriterError>)
        ensures
            final(self).pending() == old(self).pending(),
            r is Ok ==> final(self).cache() == old(self).cache().insert(
                directory.index_oid,
                m_delete_seq(
                    acquired_model(old(self).cache(), directory.index_oid),
                    key_field_id,
                    key_values@,
                ),
            ),
            r is Err ==> r->Err_0 is WriterUnavailable || r->Err_0 is WriteFailed,
            r is Err && r->Err_0 is WriterUnavailable ==> final(self).cache() == old(self).cache()
                && !old(self).cache().contains_key(directory.index_oid),
            r is Err && r->Err_0 is WriteFailed ==> final(self).cache() == old(self).cache().insert(
                directory.index_oid,
                acquired_model(old(self).cache(), directory.index_oid),
            ),
            others_unchanged(
                old(self).cache(),
                final(self).cache(),
                old(self).pending(),
                final(self).pending(),
                directory.index_oid,
            ),
    {
        let key = directory.index_oid;
        let mut handle = match self.take_or_open(directory) {
            Err(e) => {
                return Err(e);
            },
            Ok(h) => h,
        };
        match handle.delete_terms(key_field_id, key_values) {
            Ok(()) => {
                self.put_writer(key, handle);
                Ok(())
            },
            Err(message) => {
                self.put_writer(key, handle);
                Err(WriterError::WriteFailed(message))
            },
        }
    }

    /// The commit boundary. Reads whether the directory still
    /// exists on disk, then hands the answer to
    /// `commit_after_existence`, which does the rest.
    pub fn commit(&mut self, directory: &WriterDirectory) -> (r: Result<
        CommitOutcome,
        WriterError,
    >)
        ensures
            r is Ok ==> final(self).pending() == old(self).pending().remove(directory.index_oid),
            r is Ok && r->Ok_0.engine_committed && !old(self).pending().contains(
                directory.index_oid,
            ) ==> final(self).cache() == old(self).cache().insert(
                directory.index_oid,
                m_commit(acquired_model(old(self).cache(), directory.index_oid)),
            ),
            r is Ok ==> (r->Ok_0.index_dropped <==> old(self).pending().contains(
                directory.index_oid,
            )),
            r is Ok && r->Ok_0.index_dropped ==> final(self).cache() == old(self).cache().remove(
                directory.index_oid,
            ),
            r is Ok && !r->Ok_0.engine_committed && !r->Ok_0.index_dropped ==> final(self).cache()
                == old(self).cache(),
            r is Ok ==> final(self).cache() == old(self).cache().insert(
                directory.index_oid,
                m_commit(acquired_model(old(self).cache(), directory.index_oid)),
            ) || final(self).cache() == old(self).cache().remove(directory.index_oid) || final(self).cache() == old(self).cache(),
            r is Err ==> match r->Err_0 {
                WriterError::WriterUnavailable(_) => !old(self).cache().contains_key(
                    directory.index_oid,
                ) && final(self).cache() == old(self).cache() && final(self).pending() == old(self).pending(),
                WriterError::CommitFailed(_) => final(self).cache() == old(self).cache().insert(
                    directory.index_oid,
                    acquired_model(old(self).cache(), directory.index_oid),
                ) && final(self).pending() == old(self).pending(),
                WriterError::DeletionFailed(_) => old(self).pending().contains(directory.index_oid)
                    && final(self).pending() == old(self).pending().remove(directory.index_oid)
                    && final(self).cache() == old(self).cache().remove(directory.index_oid),
                _ => false,
            },
            others_unchanged(
                old(self).cache(),
                final(self).cache(),
                old(self).pending(),
                final(self).pending(),
                directory.index_oid,
            ),
    {
        let directory_exists = engine::directory_exists(&directory.path);
        self.commit_after_existence(directory, directory_exists)
    }

    /// The commit boundary with the outside existence check already made. When the
    /// directory is gone from disk the engine-level commit is skipped
    /// without error (the caller logs it); a pending drop is still
    /// processed either way. When the directory exists, the writer is
    /// acquired and committed in two steps (prepare, then finalize; a
    /// failed prepare is never finalized), and a pending drop then
    /// evicts the writer and deletes the directory's storage.
    pub fn commit_after_existence(
        &mut self,
        directory: &WriterDirectory,
        directory_exists: bool,
    ) -> (r: Result<CommitOutcome, WriterError>)
        ensures
            r is Ok ==> final(self).pending() == old(self).pending().remove(directory.index_oid),
            r is Ok ==> (r->Ok_0.engine_committed <==> directory_exists),
            r is Ok ==> (r->Ok_0.index_dropped <==> old(self).pending().contains(
                directory.index_oid,
            )),
            // with no pending drop, a missing directory commits
            // vacuously: no error, nothing changed.
            !directory_exists && !old(self).pending().contains(directory.index_oid) ==> r == Ok::<
                CommitOutcome,
                WriterError,
            >((CommitOutcome { engine_committed: false, index_dropped: false })) && final(self).cache() == old(self).cache(),
            // a missing directory with a pending drop: nothing on disk
            // to delete; the entry is evicted and the drop succeeds.
            !directory_exists && old(self).pending().contains(directory.index_oid) ==> r == Ok::<
                CommitOutcome,
                WriterError,
            >((CommitOutcome { engine_committed: false, index_dropped: true })) && final(self).cache() == old(self).cache().remove(directory.index_oid),
            r is Ok && directory_exists && !old(self).pending().contains(directory.index_oid)
                ==> final(self).cache() == old(self).cache().insert(
                directory.index_oid,
                m_commit(acquired_model(old(self).cache(), directory.index_oid)),
            ),
            r is Ok && old(self).pending().contains(directory.index_oid) ==> final(self).cache()
                == old(self).cache().remove(directory.index_oid),
            r is Err ==> match r->Err_0 {
                WriterError::WriterUnavailable(_) => directory_exists && !old(self).cache().contains_key(directory.index_oid) && final(self).cache() == old(self).cache() && final(self).pending() == old(self).pending(),
                WriterError::CommitFailed(_) => directory_exists && final(self).cache() == old(self).cache().insert(
                    directory.index_oid,
                    acquired_model(old(self).cache(), directory.index_oid),
                ) && final(self).pending() == old(self).pending(),
                WriterError::DeletionFailed(_) => directory_exists && old(self).pending().contains(
                    directory.index_oid,
                ) && final(self).pending() == old(self).pending().remove(directory.index_oid)
                    && final(self).cache() == old(self).cache().remove(directory.index_oid),
                _ => false,
            },
            others_unchanged(
                old(self).cache(),
                final(self).cache(),
                old(self).pending(),
                final(self).pending(),
                directory.index_oid,
            ),
    {
        let key = directory.index_oid;
        let mut engine_committed = false;
        if directory_exists {
            let mut handle = match self.take_or_open(directory) {
                Err(e) => {
                    return Err(e);
                },
                Ok(h) => h,
            };
            match handle.commit_writes() {
                Ok(()) => {
                    self.put_writer(key, handle);
                    engine_committed = true;
                },
                Err(message) => {
                    self.put_writer(key, handle);
                    return Err(WriterError::CommitFailed(message));
                },
            }
        }
        let was_pending = self.drop_requested.remove(&key);
        if was_pending {
            match self.drop_index_on_commit(directory, directory_exists) {
                Ok(()) => {},
                Err(e) => {
                    return Err(e);
                },
            }
            proof {
                assert(self.cache() =~= old(self).cache().remove(key));
            }
            Ok(CommitOutcome { engine_committed, index_dropped: true })
        } else {
            proof {
                if !old(self).pending().contains(key) {
                    assert(self.pending() =~= old(self).pending().remove(key));
                }
                if !directory_exists {
                    assert(self.cache() =~= old(self).cache());
                }
            }
            Ok(CommitOutcome { engine_committed, index_dropped: false })
        }
    }

    /// The physical phase of dropping an index, run only when the drop
    /// is committed: the cached writer is discarded (released, not
    /// committed) and the directory's storage is deleted recursively.
    /// When the directory is already gone from disk there is nothing
    /// to delete and the eviction alone succeeds.
    fn drop_index_on_commit(&mut self, directory: &WriterDirectory, directory_exists: bool) -> (r:
        Result<(), WriterError>)
        ensures
            final(self).pending() == old(self).pending(),
            final(self).cache() == old(self).cache().remove(directory.index_oid),
            r is Err ==> r->Err_0 is DeletionFailed && directory_exists,
            !directory_exists ==> r is Ok,
    {
        let key = directory.index_oid;
        let ghost cache_before_evict = self.cache();
        let _evicted = self.writers.remove(&key);
        proof {
            assert(self.cache() =~= cache_before_evict.remove(key));
        }
        if directory_exists {
            match engine::directory_remove(&directory.path) {
                Ok(()) => Ok(()),
                Err(message) => Err(WriterError::DeletionFailed(message)),
            }
        } else {
            Ok(())
        }
    }

    /// The abort boundary. The drop intent for the directory is
    /// discarded unconditionally; a cached writer is rolled back to its
    /// last commit. If the engine cannot roll back cleanly the handle
    /// is unreliable and is evicted, so the next operation opens a
    /// fresh writer.
    pub fn abort(&mut self, directory: &WriterDirectory) -> (r: Result<(), WriterError>)
        ensures
            final(self).pending() == old(self).pending().remove(directory.index_oid),
            r is Ok && old(self).cache().contains_key(directory.index_oid) ==> final(self).cache()
                == old(self).cache().insert(
                directory.index_oid,
                m_rollback(old(self).cache()[directory.index_oid]),
            ),
            r is Ok && !old(self).cache().contains_key(directory.index_oid) ==> final(self).cache()
                == old(self).cache(),
            r is Err ==> r->Err_0 is RollbackFailed && old(self).cache().contains_key(
                directory.index_oid,
            ) && final(self).cache() == old(self).cache().remove(directory.index_oid),
            others_unchanged(
                old(self).cache(),
                final(self).cache(),
                old(self).pending(),
                final(self).pending(),
                directory.index_oid,
            ),
    {
        let key = directory.index_oid;
        // the drop intent is undone whether or not a writer is cached,
        // and whether or not the rollback below succeeds
        let _was_pending = self.drop_requested.remove(&key);
        match self.writers.remove(&key) {
            None => {
                proof {
                    assert(self.cache() =~= old(self).cache());
                }
                Ok(())
            },
            Some(mut handle) => {
                proof {
                    assert(self.cache() =~= old(self).cache().remove(key));
                }
                match handle.rollback_writes() {
                    Ok(()) => {
                        self.put_writer(key, handle);
                        proof {
                            assert(self.cache() =~= old(self).cache().insert(
                                key,
                                m_rollback(old(self).cache()[key]),
                            ));
                        }
                        Ok(())
                    },
                    Err(message) => Err(WriterError::RollbackFailed(message)),
                }
            },
        }
    }

    /// Blocks until the engine has reclaimed storage that no
    /// live segment references. Buffered and committed operations are
    /// untouched either way.
    pub fn vacuum(&mut self, directory: &WriterDirectory) -> (r: Result<(), WriterError>)
        ensures
            final(self).pending() == old(self).pending(),
            r is Ok ==> final(self).cache() == old(self).cache().insert(
                directory.index_oid,
                acquired_model(old(self).cache(), directory.index_oid),
            ),
            r is Err ==> r->Err_0 is WriterUnavailable || r->Err_0 is VacuumFailed,
            r is Err && r->Err_0 is WriterUnavailable ==> final(self).cache() == old(self).cache()
                && !old(self).cache().contains_key(directory.index_oid),
            r is Err && r->Err_0 is VacuumFailed ==> final(self).cache() == old(self).cache().insert(
                directory.index_oid,
                acquired_model(old(self).cache(), directory.index_oid),
            ),
            others_unchanged(
                old(self).cache(),
                final(self).cache(),
                old(self).pending(),
                final(self).pending(),
                directory.index_oid,
            ),
    {
        let key = directory.index_oid;
        let handle = match self.take_or_open(directory) {
            Err(e) => {
                return Err(e);
            },
            Ok(h) => h,
        };
        let gc_result = handle.garbage_collect();
        self.put_writer(key, handle);
        match gc_result {
            Ok(()) => Ok(()),
            Err(message) => Err(WriterError::VacuumFailed(message)),
        }
    }

    /// Builds the engine schema from the field definitions,
    /// creates the on-disk index, and persists the descriptor. The key
    /// field index must name a defined field and no two fields may
    /// share a name (the engine does not admit that); creation on a
    /// directory that already holds an index fails fast with `IoError`
    /// rather than overwrite. The filesystem directory itself must
    /// already exist: resolving and creating the location is the
    /// host's job, and a missing one is reported as `IoError`.
    pub fn create_index(
        &mut self,
        directory: &WriterDirectory,
        fields: Vec<SearchFieldDef>,
        uuid: String,
        key_field_index: usize,
    ) -> (r: Result<(), WriterError>)
        ensures
            final(self).pending() == old(self).pending(),
            final(self).cache() == old(self).cache(),
            r is Err && r->Err_0 is SchemaError <==> (key_field_index >= fields@.len()
                || !distinct_field_names(fields@)),
            r is Err ==> r->Err_0 is SchemaError || r->Err_0 is IoError,
            others_unchanged(
                old(self).cache(),
                final(self).cache(),
                old(self).pending(),
                final(self).pending(),
                directory.index_oid,
            ),
    {
        if key_field_index >= fields.len() {
            return Err(
                WriterError::SchemaError("key field index names no defined field".to_string()),
            );
        }
        if has_duplicate_field_name(&fields) {
            return Err(
                WriterError::SchemaError("two field definitions share a name".to_string()),
            );
        }
        let schema = engine::build_schema(&fields);
        let _index = match engine::index_create_in_dir(&directory.path, schema) {
            Err(message) => {
                return Err(WriterError::IoError(message));
            },
            Ok(index) => index,
        };
        // persist the descriptor so other processes opening the
        // directory later observe a consistent definition
        let record = IndexDescriptor {
            fields,
            uuid,
            key_field_index,
            is_dirty: false,
            is_pending_drop: false,
            is_pending_create: true,
        };
        let bytes = encode_descriptor(&record);
        match engine::write_file_in_directory(&directory.path, DESCRIPTOR_FILE_NAME, &bytes) {
            Err(message) => Err(WriterError::IoError(message)),
            Ok(()) => Ok(()),
        }
    }

    /// The logical phase of dropping an index: records the drop intent only; no files are
    /// touched, and the writer keeps its buffered state in case the
    /// transaction aborts. Dropping an already-pending directory is a
    /// no-op; the operation always succeeds.
    pub fn drop_index(&mut self, directory: &WriterDirectory) -> (r: Result<(), WriterError>)
        ensures
            r is Ok,
            final(self).pending() == old(self).pending().insert(directory.index_oid),
            final(self).cache() == old(self).cache(),
            others_unchanged(
                old(self).cache(),
                final(self).cache(),
                old(self).pending(),
                final(self).pending(),
                directory.index_oid,
            ),
    {
        let _newly = self.drop_requested.insert(directory.index_oid);
        Ok(())
    }

    /// Whether a writer is cached for the directory.
    pub fn is_cached(&self, directory: &WriterDirectory) -> (r: bool)
        ensures
            r == self.cache().contains_key(directory.index_oid),
    {
        self.writers.contains_key(&directory.index_oid)
    }

    /// How many writers are cached.
    pub fn cached_count(&self) -> (r: usize)
        ensures
            r == self.cache().len(),
    {
        proof {
            assert(self.cache().dom() =~= self.writers@.dom());
        }
        self.writers.len()
    }

    /// Whether the directory's drop awaits the next commit.
    pub fn is_drop_pending(&self, directory: &WriterDirectory) -> (r: bool)
        ensures
            r == self.pending().contains(directory.index_oid),
    {
        self.drop_requested.contains(&directory.index_oid)
    }
}

/// One typed request, addressed by directory.
pub enum WriterRequest {
    Insert { directory: WriterDirectory, document: SearchDocument },
    Delete { directory: WriterDirectory, field: u32, ctids: Vec<u64> },
    CreateIndex {
        directory: WriterDirectory,
        fields: Vec<SearchFieldDef>,
        uuid: String,
        key_field_index: usize,
    },
    DropIndex { directory: WriterDirectory },
    Commit { directory: WriterDirectory },
    Abort { directory: WriterDirectory },
    Vacuum { directory: WriterDirectory },
}

/// The directory id a request addresses.
pub open spec fn request_directory_oid(request: WriterRequest) -> u64 {
    match request {
        WriterRequest::Insert { directory, .. } => directory.index_oid,
        WriterRequest::Delete { directory, .. } => directory.index_oid,
        WriterRequest::CreateIndex { directory, .. } => directory.index_oid,
        WriterRequest::DropIndex { directory } => directory.index_oid,
        WriterRequest::Commit { directory } => directory.index_oid,
        WriterRequest::Abort { directory } => directory.index_oid,
        WriterRequest::Vacuum { directory } => directory.index_oid,
    }
}

impl Writer {
    /// Routes one request to the operation it names, with the
    /// operation's own contract restated for each variant: the result
    /// (and its error kind) is exactly the invoked operation's, and a
    /// request addressed to one directory leaves every other
    /// directory's cache entry and drop intent untouched.
    pub fn handle(&mut self, request: WriterRequest) -> (r: Result<(), WriterError>)
        ensures
            others_unchanged(
                old(self).cache(),
                final(self).cache(),
                old(self).pending(),
                final(self).pending(),
                request_directory_oid(request),
            ),
            request matches WriterRequest::Insert { directory, document } ==> {
                &&& final(self).pending() == old(self).pending()
                &&& (r is Ok ==> final(self).cache() == old(self).cache().insert(
                    directory.index_oid,
                    m_insert(acquired_model(old(self).cache(), directory.index_oid), document@),
                ))
                &&& (r is Err ==> r->Err_0 is WriterUnavailable || r->Err_0 is WriteFailed)
                &&& (r is Err && r->Err_0 is WriterUnavailable ==> final(self).cache() == old(self).cache() && !old(self).cache().contains_key(directory.index_oid))
                &&& (r is Err && r->Err_0 is WriteFailed ==> final(self).cache() == old(self).cache().insert(
                    directory.index_oid,
                    acquired_model(old(self).cache(), directory.index_oid),
                ))
            },
            request matches WriterRequest::Delete { directory, field, ctids } ==> {
                &&& final(self).pending() == old(self).pending()
                &&& (r is Ok ==> final(self).cache() == old(self).cache().insert(
                    directory.index_oid,
                    m_delete_seq(
                        acquired_model(old(self).cache(), directory.index_oid),
                        field,
                        ctids@,
                    ),
                ))
                &&& (r is Err ==> r->Err_0 is WriterUnavailable || r->Err_0 is WriteFailed)
                &&& (r is Err && r->Err_0 is WriterUnavailable ==> final(self).cache() == old(self).cache() && !old(self).cache().contains_key(directory.index_oid))
                &&& (r is Err && r->Err_0 is WriteFailed ==> final(self).cache() == old(self).cache().insert(
                    directory.index_oid,
                    acquired_model(old(self).cache(), directory.index_oid),
                ))
            },
            request matches WriterRequest::CreateIndex { directory, fields, uuid, key_field_index }
                ==> {
                &&& final(self).pending() == old(self).pending()
                &&& final(self).cache() == old(self).cache()
                &&& ((r is Err && r->Err_0 is SchemaError) <==> (key_field_index >= fields@.len()
                    || !distinct_field_names(fields@)))
                &&& (r is Err ==> r->Err_0 is SchemaError || r->Err_0 is IoError)
            },
            request matches WriterRequest::DropIndex { directory } ==> r is Ok && final(self).pending() == old(self).pending().insert(directory.index_oid) && final(self).cache()
                == old(self).cache(),
            request matches WriterRequest::Commit { directory } ==> {
                &&& (r is Ok ==> final(self).pending() == old(self).pending().remove(
                    directory.index_oid,
                ))
                &&& (r is Ok ==> final(self).cache() == old(self).cache().insert(
                    directory.index_oid,
                    m_commit(acquired_model(old(self).cache(), directory.index_oid)),
                ) || final(self).cache() == old(self).cache().remove(directory.index_oid) || final(self).cache() == old(self).cache())
                &&& (r is Err ==> match r->Err_0 {
                    WriterError::WriterUnavailable(_) => !old(self).cache().contains_key(
                        directory.index_oid,
                    ) && final(self).cache() == old(self).cache() && final(self).pending() == old(self).pending(),
                    WriterError::CommitFailed(_) => final(self).cache() == old(self).cache().insert(
                        directory.index_oid,
                        acquired_model(old(self).cache(), directory.index_oid),
                    ) && final(self).pending() == old(self).pending(),
                    WriterError::DeletionFailed(_) => old(self).pending().contains(
                        directory.index_oid,
                    ) && final(self).pending() == old(self).pending().remove(directory.index_oid)
                        && final(self).cache() == old(self).cache().remove(directory.index_oid),
                    _ => false,
                })
            },
            request matches WriterRequest::Abort { directory } ==> {
                &&& final(self).pending() == old(self).pending().remove(directory.index_oid)
                &&& (r is Ok && old(self).cache().contains_key(directory.index_oid) ==> final(self).cache() == old(self).cache().insert(
                    directory.index_oid,
                    m_rollback(old(self).cache()[directory.index_oid]),
                ))
                &&& (r is Ok && !old(self).cache().contains_key(directory.index_oid) ==> final(self).cache() == old(self).cache())
                &&& (r is Err ==> r->Err_0 is RollbackFailed && old(self).cache().contains_key(
                    directory.index_oid,
                ) && final(self).cache() == old(self).cache().remove(directory.index_oid))
            },
            request matches WriterRequest::Vacuum { directory } ==> {
                &&& final(self).pending() == old(self).pending()
                &&& (r is Ok ==> final(self).cache() == old(self).cache().insert(
                    directory.index_oid,
                    acquired_model(old(self).cache(), directory.index_oid),
                ))
                &&& (r is Err ==> r->Err_0 is WriterUnavailable || r->Err_0 is VacuumFailed)
                &&& (r is Err && r->Err_0 is WriterUnavailable ==> final(self).cache() == old(self).cache() && !old(self).cache().contains_key(directory.index_oid))
                &&& (r is Err && r->Err_0 is VacuumFailed ==> final(self).cache() == old(self).cache().insert(
                    directory.index_oid,
                    acquired_model(old(self).cache(), directory.index_oid),
                ))
            },
    {
        match request {
            WriterRequest::Insert { directory, document } => self.insert(&directory, &document),
            WriterRequest::Delete { directory, field, ctids } => self.delete(
                &directory,
                field,
                &ctids,
            ),
            WriterRequest::CreateIndex { directory, fields, uuid, key_field_index } => self
                .create_index(&directory, fields, uuid, key_field_index),
            WriterRequest::DropIndex { directory } => self.drop_index(&directory),
            WriterRequest::Commit { directory } => match self.commit(&directory) {
                Ok(_outcome) => Ok(()),
                Err(e) => Err(e),
            },
            WriterRequest::Abort { directory } => self.abort(&directory),
            WriterRequest::Vacuum { directory } => self.vacuum(&directory),
        }
    }
}

} // verus!
