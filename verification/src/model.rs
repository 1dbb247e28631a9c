//! The abstract model of one engine writer.
//!
//! The engine buffers mutations in an open writer until they are
//! committed or rolled back. The model records, for one writer handle,
//! the operations committed through it since it was opened and the
//! operations still buffered. `visible` interprets a committed
//! operation sequence as the documents a reader would observe, starting
//! from an empty index (for an index created in this process the start
//! really is empty; for a reopened index the sequence reads as the
//! delta over whatever the directory already held).

use vstd::prelude::*;

use crate::document::{FieldEntryV, FieldValueV};

verus! {

/// One buffered mutation, as the engine orders them.
pub enum IndexOp {
    /// Append a document.
    Insert(Seq<FieldEntryV>),
    /// Tombstone every document whose field `field_id` holds the
    /// unsigned value `value`.
    DeleteTerm { field_id: u32, value: u64 },
}

/// The state of one writer handle: what was committed through it and
/// what is still buffered.
#[verifier::ext_equal]
pub struct WriterModel {
    pub committed: Seq<IndexOp>,
    pub buffered: Seq<IndexOp>,
}

/// The model of a writer that was just opened: nothing committed
/// through it, nothing buffered.
pub open spec fn fresh_model() -> WriterModel {
    WriterModel { committed: Seq::empty(), buffered: Seq::empty() }
}

/// Buffer an insert.
pub open spec fn m_insert(m: WriterModel, doc: Seq<FieldEntryV>) -> WriterModel {
    WriterModel { committed: m.committed, buffered: m.buffered.push(IndexOp::Insert(doc)) }
}

/// Buffer one term deletion.
pub open spec fn m_delete(m: WriterModel, field_id: u32, value: u64) -> WriterModel {
    WriterModel {
        committed: m.committed,
        buffered: m.buffered.push(IndexOp::DeleteTerm { field_id, value }),
    }
}

/// Buffer a term deletion for each value in order.
pub open spec fn m_delete_seq(m: WriterModel, field_id: u32, values: Seq<u64>) -> WriterModel
    decreases values.len(),
{
    if values.len() == 0 {
        m
    } else {
        m_delete(m_delete_seq(m, field_id, values.drop_last()), field_id, values.last())
    }
}

/// Commit: every buffered operation becomes committed, in order.
pub open spec fn m_commit(m: WriterModel) -> WriterModel {
    WriterModel { committed: m.committed + m.buffered, buffered: Seq::empty() }
}

/// Rollback: buffered operations are discarded; committed state keeps.
pub open spec fn m_rollback(m: WriterModel) -> WriterModel {
    WriterModel { committed: m.committed, buffered: Seq::empty() }
}

/// Whether a document holds `value` in its unsigned field `field_id`,
/// so that a term deletion on that pair tombstones it.
pub open spec fn doc_has_term(doc: Seq<FieldEntryV>, field_id: u32, value: u64) -> bool {
    exists|i: int|
        0 <= i < doc.len() && doc[i].field_id == field_id && doc[i].value
            == FieldValueV::Unsigned(value)
}

/// The documents a reader observes after the operations `ops` were
/// committed against an initially empty index, in insertion order.
pub open spec fn visible(ops: Seq<IndexOp>) -> Seq<Seq<FieldEntryV>>
    decreases ops.len(),
{
    if ops.len() == 0 {
        Seq::empty()
    } else {
        let prev = visible(ops.drop_last());
        match ops.last() {
            IndexOp::Insert(doc) => prev.push(doc),
            IndexOp::DeleteTerm { field_id, value } => prev.filter(
                |doc: Seq<FieldEntryV>| !doc_has_term(doc, field_id, value),
            ),
        }
    }
}

/// The model of the writer that acquiring a directory yields, given
/// the cache: the cached writer when one is there, else a fresh one.
pub open spec fn acquired_model(c: Map<u64, WriterModel>, k: u64) -> WriterModel {
    if c.contains_key(k) {
        c[k]
    } else {
        fresh_model()
    }
}

/// No shared state between directories: an operation addressed to the
/// directory with id `k` leaves every other directory's cache entry
/// and drop intent exactly as it was.
pub open spec fn others_unchanged(
    cache0: Map<u64, WriterModel>,
    cache1: Map<u64, WriterModel>,
    pending0: Set<u64>,
    pending1: Set<u64>,
    k: u64,
) -> bool {
    &&& forall|o: u64| o != k ==> (#[trigger] cache1.contains_key(o) <==> cache0.contains_key(o))
    &&& forall|o: u64| o != k && cache0.contains_key(o) ==> #[trigger] cache1[o] == cache0[o]
    &&& forall|o: u64| o != k ==> (#[trigger] pending1.contains(o) <==> pending0.contains(o))
}

/// Acquiring a directory that is already cached is a cache hit: the
/// cache an acquire yields is the cache itself, with the same writer
/// (not a new one) under the directory's id.
pub proof fn lemma_acquire_cache_hit(c: Map<u64, WriterModel>, k: u64)
    requires
        c.contains_key(k),
    ensures
        c.insert(k, acquired_model(c, k)) == c,
        acquired_model(c, k) == c[k],
{
    assert(c.insert(k, c[k]) =~= c);
}

/// A drop intent that is aborted is undone completely: the pending set
/// ends as if the drop had never been requested.
pub proof fn lemma_drop_then_abort_cancels(pending: Set<u64>, k: u64)
    requires
        !pending.contains(k),
    ensures
        pending.insert(k).remove(k) == pending,
{
    assert(pending.insert(k).remove(k) =~= pending);
}

/// An insert that is rolled back leaves no trace: the writer ends in
/// the same state as if the insert had never been buffered, so no later
/// commit can publish the document.
pub proof fn lemma_insert_then_abort_is_noop(m: WriterModel, doc: Seq<FieldEntryV>)
    ensures
        m_rollback(m_insert(m, doc)) == m_rollback(m),
{
}

/// Rollback never touches committed state.
pub proof fn lemma_rollback_preserves_committed(m: WriterModel)
    ensures
        m_rollback(m).committed == m.committed,
{
}

/// An insert followed by a commit publishes exactly the documents that
/// a commit without the insert would have published, plus the inserted
/// document; in particular the document is visible afterwards. This
/// speaks of the engine-commit step itself; when a drop of the
/// directory is pending, the coordinator's commit deletes the index
/// after this step, and its own contract says so.
pub proof fn lemma_insert_then_commit_is_visible(m: WriterModel, doc: Seq<FieldEntryV>)
    ensures
        visible(m_commit(m_insert(m, doc)).committed) == visible(m_commit(m).committed).push(doc),
        visible(m_commit(m_insert(m, doc)).committed).contains(doc),
{
    let s = m.committed + m.buffered;
    assert(m_commit(m_insert(m, doc)).committed =~= s.push(IndexOp::Insert(doc)));
    assert(s.push(IndexOp::Insert(doc)).drop_last() =~= s);
    let published = visible(m_commit(m_insert(m, doc)).committed);
    assert(published == visible(s).push(doc));
    assert(published[published.len() - 1] == doc);
}

/// A buffered term deletion followed by a commit publishes exactly the
/// documents a commit without it would have published, minus every
/// document matching the term: tombstones remove matches and nothing
/// else.
pub proof fn lemma_delete_then_commit_filters(m: WriterModel, field_id: u32, value: u64)
    ensures
        visible(m_commit(m_delete(m, field_id, value)).committed) == visible(
            m_commit(m).committed,
        ).filter(|doc: Seq<FieldEntryV>| !doc_has_term(doc, field_id, value)),
{
    let s = m.committed + m.buffered;
    let op = IndexOp::DeleteTerm { field_id, value };
    assert(m_commit(m_delete(m, field_id, value)).committed =~= s.push(op));
    assert(s.push(op).drop_last() =~= s);
    assert(s.push(op).last() == op);
}

} // verus!
