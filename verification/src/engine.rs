//! The boundary to the index engine.
//!
//! Every call into the engine crate goes through one trusted wrapper
//! here; each wrapper makes exactly one engine call and converts its
//! arguments and result. `WriterHandle` is the verified handle around
//! one open engine writer: it performs the engine calls and keeps the
//! abstract model of the writer's buffered and committed operations.

use vstd::prelude::*;

use crate::document::{distinct_field_names, SearchDocument, SearchFieldDef, SearchFieldType};
use crate::model::{fresh_model, m_commit, m_delete, m_delete_seq, m_insert, m_rollback, WriterModel};

verus! {

#[verifier::external_type_specification]
#[verifier::external_body]
pub struct ExIndexWriter(tantivy::IndexWriter);

#[verifier::external_type_specification]
#[verifier::external_body]
pub struct ExIndex(tantivy::Index);

#[verifier::external_type_specification]
#[verifier::external_body]
pub struct ExSchema(tantivy::schema::Schema);

#[verifier::external_type_specification]
#[verifier::external_body]
pub struct ExSchemaBuilder(tantivy::schema::SchemaBuilder);

#[verifier::external_type_specification]
#[verifier::external_body]
pub struct ExTantivyDocument(tantivy::Document);

#[verifier::external_type_specification]
#[verifier::external_body]
pub struct ExMmapDirectory(tantivy::directory::MmapDirectory);

/// Heap the engine writer may fill before flushing a segment. The
/// engine rejects budgets below its own minimum; this is well above it.
pub const WRITER_MEMORY_BUDGET: usize = 50_000_000;

/// The field definitions a schema is built from: type and name, in
/// definition order (the engine numbers fields densely in that order).
pub open spec fn field_defs_view(fields: Seq<SearchFieldDef>) -> Seq<(SearchFieldType, Seq<char>)> {
    fields.map_values(|f: SearchFieldDef| (f.field_type, f.name@))
}

/// An engine schema builder together with the model of the fields
/// defined through it, in order. Every definition goes through the
/// wrappers below, which keep the model in step.
pub struct EngineSchemaBuilder {
    inner: tantivy::schema::SchemaBuilder,
    defined: Ghost<Seq<(SearchFieldType, Seq<char>)>>,
}

/// A finished engine schema together with the model of its fields.
pub struct EngineSchema {
    schema: tantivy::schema::Schema,
    defined: Ghost<Seq<(SearchFieldType, Seq<char>)>>,
}

impl EngineSchemaBuilder {
    /// The fields defined so far: type and name, in order.
    pub closed spec fn model(&self) -> Seq<(SearchFieldType, Seq<char>)> {
        self.defined@
    }

    /// An empty builder: no fields defined yet.
    pub fn new() -> (r: EngineSchemaBuilder)
        ensures
            r.model() == Seq::<(SearchFieldType, Seq<char>)>::empty(),
    {
        EngineSchemaBuilder {
            inner: schema_builder_new(),
            defined: Ghost(Seq::empty()),
        }
    }

    /// Finishes the schema; it holds exactly the defined fields.
    pub fn build(self) -> (r: EngineSchema)
        ensures
            r.model() == self.model(),
    {
        let EngineSchemaBuilder { inner, defined } = self;
        EngineSchema { schema: schema_build(inner), defined }
    }
}

impl EngineSchema {
    /// The fields this schema holds: type and name, in order.
    pub closed spec fn model(&self) -> Seq<(SearchFieldType, Seq<char>)> {
        self.defined@
    }
}

/// Relies on tantivy::schema::Schema::builder: returns an empty schema
/// builder.
#[verifier::external_body]
fn schema_builder_new() -> tantivy::schema::SchemaBuilder {
    tantivy::schema::Schema::builder()
}

/// Relies on tantivy::schema::SchemaBuilder::add_u64_field: defines the
/// next field, an unsigned field (indexed, stored, fast) with the given
/// name; the engine numbers fields densely in definition order. The
/// engine does not admit a repeated field name (it panics), so a fresh
/// name is required.
#[verifier::external_body]
fn schema_add_unsigned_field(builder: &mut EngineSchemaBuilder, name: &String)
    requires
        forall|t: int|
            0 <= t < old(builder).model().len() ==> (#[trigger] old(builder).model()[t]).1
                != name@,
    ensures
        final(builder).model() == old(builder).model().push(
            (SearchFieldType::Unsigned, name@),
        ),
{
    builder.inner.add_u64_field(
        name.as_str(),
        tantivy::schema::INDEXED | tantivy::schema::STORED | tantivy::schema::FAST,
    );
}

/// Relies on tantivy::schema::SchemaBuilder::add_text_field: defines
/// the next field, a tokenized text field (indexed, stored) with the
/// given name; the engine numbers fields densely in definition order.
/// The engine does not admit a repeated field name (it panics), so a
/// fresh name is required.
#[verifier::external_body]
fn schema_add_text_field(builder: &mut EngineSchemaBuilder, name: &String)
    requires
        forall|t: int|
            0 <= t < old(builder).model().len() ==> (#[trigger] old(builder).model()[t]).1
                != name@,
    ensures
        final(builder).model() == old(builder).model().push((SearchFieldType::Text, name@)),
{
    builder.inner.add_text_field(name.as_str(), tantivy::schema::TEXT | tantivy::schema::STORED);
}

/// Relies on tantivy::schema::SchemaBuilder::build: finalizes the
/// schema with the fields defined so far.
#[verifier::external_body]
fn schema_build(builder: tantivy::schema::SchemaBuilder) -> tantivy::schema::Schema {
    builder.build()
}

/// Builds the engine schema for the given field definitions, one engine
/// field per definition, in order: the schema's model is exactly the
/// definitions' view.
pub(crate) fn build_schema(fields: &Vec<SearchFieldDef>) -> (r: EngineSchema)
    requires
        distinct_field_names(fields@),
    ensures
        r.model() == field_defs_view(fields@),
{
    let mut builder = EngineSchemaBuilder::new();
    let n = fields.len();
    let mut i: usize = 0;
    while i < n
        invariant
            n == fields@.len(),
            i <= n,
            distinct_field_names(fields@),
            builder.model() == field_defs_view(fields@.take(i as int)),
        decreases n - i,
    {
        let field = &fields[i];
        proof {
            assert forall|t: int|
                0 <= t < builder.model().len() implies (#[trigger] builder.model()[t]).1
                != field.name@ by {
                assert(field_defs_view(fields@.take(i as int))[t] == (
                    fields@[t].field_type,
                    fields@[t].name@,
                ));
                assert(fields@[t].name@ != fields@[i as int].name@);
            }
        }
        match field.field_type {
            SearchFieldType::Unsigned => schema_add_unsigned_field(&mut builder, &field.name),
            SearchFieldType::Text => schema_add_text_field(&mut builder, &field.name),
        }
        proof {
            assert(builder.model() =~= field_defs_view(fields@.take(i + 1)));
        }
        i = i + 1;
    }
    proof {
        assert(fields@.take(n as int) =~= fields@);
        assert(field_defs_view(fields@.take(n as int)) =~= field_defs_view(fields@));
    }
    builder.build()
}

/// Relies on tantivy::Index::create_in_dir: creates a fresh index at
/// the directory with exactly the handed schema; fails if the
/// directory is unusable or missing, or already holds an index.
#[verifier::external_body]
pub(crate) fn index_create_in_dir(path: &String, schema: EngineSchema) -> Result<
    tantivy::Index,
    String,
> {
    tantivy::Index::create_in_dir(path.as_str(), schema.schema).map_err(|e| format!("{e}"))
}

/// Relies on tantivy::Index::open_in_dir: opens the index stored at the
/// directory; fails if none is there.
#[verifier::external_body]
fn index_open_in_dir(path: &String) -> Result<tantivy::Index, String> {
    tantivy::Index::open_in_dir(path.as_str()).map_err(|e| format!("{e}"))
}

/// Relies on tantivy::Index::writer_with_num_threads: binds a new
/// single-threaded writer to the index (this crate serializes all
/// operations against one directory).
#[verifier::external_body]
fn index_writer(index: &tantivy::Index, memory_budget: usize) -> Result<
    tantivy::IndexWriter,
    String,
> {
    index.writer_with_num_threads(1, memory_budget).map_err(|e| format!("{e}"))
}

/// Relies on tantivy::Index::schema and
/// tantivy::schema::Schema::num_fields: the number of fields of the
/// schema the index carries; every writer bound to the index shares
/// that schema, and the engine's term operations look field entries up
/// by id below this count.
#[verifier::external_body]
fn index_field_count(index: &tantivy::Index) -> usize {
    index.schema().num_fields()
}

/// Relies on tantivy::Document::new: returns an empty engine document.
#[verifier::external_body]
fn tantivy_doc_new() -> tantivy::Document {
    tantivy::Document::new()
}

/// Relies on tantivy::Document::add_u64: appends an unsigned value
/// under the field with the given id.
#[verifier::external_body]
fn tantivy_doc_add_unsigned(doc: &mut tantivy::Document, field_id: u32, value: u64) {
    doc.add_u64(tantivy::schema::Field::from_field_id(field_id), value);
}

/// Relies on tantivy::Document::add_text: appends a text value under
/// the field with the given id.
#[verifier::external_body]
fn tantivy_doc_add_text(doc: &mut tantivy::Document, field_id: u32, text: &String) {
    doc.add_text(tantivy::schema::Field::from_field_id(field_id), text.as_str());
}

/// Relies on tantivy::IndexWriter::add_document: buffers the document
/// for the next commit; an error leaves it unbuffered.
#[verifier::external_body]
fn writer_add_document(writer: &tantivy::IndexWriter, doc: tantivy::Document) -> Result<
    (),
    String,
> {
    writer.add_document(doc).map(|_opstamp| ()).map_err(|e| format!("{e}"))
}

/// Relies on tantivy::IndexWriter::delete_term and
/// tantivy::Term::from_field_u64: buffers a tombstone for every
/// document whose unsigned field `field_id` holds `value`. The engine
/// evaluates the deletion against the writer's schema at once and does
/// not admit a field id at or beyond the schema's field count (the
/// lookup panics), so the id is required to lie below the count the
/// handle read when it was opened.
#[verifier::external_body]
fn writer_delete_unsigned_term(handle: &WriterHandle, field_id: u32, value: u64)
    requires
        field_id < handle.field_count(),
{
    handle.writer.delete_term(
        tantivy::Term::from_field_u64(tantivy::schema::Field::from_field_id(field_id), value),
    );
}

/// Relies on tantivy::IndexWriter::prepare_commit: flushes the buffered
/// operations to a prepared, not yet visible state. The prepared
/// handle is released without finalizing; the following
/// `writer_commit` publishes.
#[verifier::external_body]
fn writer_prepare_commit(writer: &mut tantivy::IndexWriter) -> Result<(), String> {
    writer.prepare_commit().map(|_prepared| ()).map_err(|e| format!("{e}"))
}

/// Relies on tantivy::IndexWriter::commit: atomically publishes every
/// buffered operation; on success readers opened afterwards observe
/// them and they survive a process restart.
#[verifier::external_body]
fn writer_commit(writer: &mut tantivy::IndexWriter) -> Result<(), String> {
    writer.commit().map(|_opstamp| ()).map_err(|e| format!("{e}"))
}

/// Relies on tantivy::IndexWriter::rollback: discards every operation
/// buffered since the last commit.
#[verifier::external_body]
fn writer_rollback(writer: &mut tantivy::IndexWriter) -> Result<(), String> {
    writer.rollback().map(|_opstamp| ()).map_err(|e| format!("{e}"))
}

/// Relies on tantivy::IndexWriter::garbage_collect_files: blocks until
/// the engine has reclaimed storage no live segment references; the
/// visible documents are unchanged.
#[verifier::external_body]
fn writer_garbage_collect(writer: &tantivy::IndexWriter) -> Result<(), String> {
    writer.garbage_collect_files().wait().map(|_report| ()).map_err(|e| format!("{e}"))
}

/// Relies on tantivy::directory::MmapDirectory::open: fails when the
/// path does not exist or is not a directory.
#[verifier::external_body]
fn mmap_directory_open(path: &String) -> Result<tantivy::directory::MmapDirectory, String> {
    tantivy::directory::MmapDirectory::open(path.as_str()).map_err(|e| format!("{e}"))
}

/// Relies on tantivy::directory::Directory::atomic_write: writes the
/// bytes as the named file inside the directory, atomically.
#[verifier::external_body]
fn directory_write_file(
    dir: &tantivy::directory::MmapDirectory,
    file_name: &str,
    bytes: &Vec<u8>,
) -> Result<(), String> {
    tantivy::Directory::atomic_write(dir, std::path::Path::new(file_name), bytes.as_slice())
        .map_err(|e| format!("{e}"))
}

/// Relies on remove_dir_all::remove_dir_all: recursively deletes the
/// directory and everything under it; on failure files may be partially
/// removed.
#[verifier::external_body]
pub(crate) fn directory_remove(path: &String) -> Result<(), String> {
    remove_dir_all::remove_dir_all(path.as_str()).map_err(|e| format!("{e}"))
}

/// Whether the directory currently exists on disk. The result is read
/// from the outside world; nothing is assumed about it.
pub(crate) fn directory_exists(path: &String) -> bool {
    match mmap_directory_open(path) {
        Ok(_dir) => true,
        Err(_e) => false,
    }
}

/// Writes `bytes` as the file `file_name` inside the directory at
/// `path`, atomically.
pub(crate) fn write_file_in_directory(path: &String, file_name: &str, bytes: &Vec<u8>) -> Result<
    (),
    String,
> {
    match mmap_directory_open(path) {
        Err(e) => Err(e),
        Ok(dir) => directory_write_file(&dir, file_name, bytes),
    }
}

/// One live engine writer, with the abstract model of the operations
/// committed and buffered through it since it was opened.
///
/// The model is the crate's claim about the engine state: every engine
/// mutation goes through a method here that records the operation, and
/// the wrappers above say in words which engine behaviour each step
/// relies on.
pub struct WriterHandle {
    writer: tantivy::IndexWriter,
    schema_fields: usize,
    model: Ghost<WriterModel>,
}

impl WriterHandle {
    /// The operations committed and buffered through this handle.
    pub closed spec fn model(&self) -> WriterModel {
        self.model@
    }

    /// How many fields the schema of the opened index defines; field
    /// ids at or beyond it name no field.
    pub closed spec fn field_count(&self) -> usize {
        self.schema_fields
    }

    /// Opens the index stored at `path` and binds a fresh writer to it.
    pub fn open(path: &String) -> (r: Result<WriterHandle, String>)
        ensures
            r is Ok ==> r->Ok_0.model() == fresh_model(),
    {
        match index_open_in_dir(path) {
            Err(e) => Err(e),
            Ok(index) => {
                let schema_fields = index_field_count(&index);
                match index_writer(&index, WRITER_MEMORY_BUDGET) {
                    Err(e) => Err(e),
                    Ok(writer) => Ok(
                        WriterHandle { writer, schema_fields, model: Ghost(fresh_model()) },
                    ),
                }
            },
        }
    }

    /// Buffers the document; it stays invisible until a commit. A
    /// document naming a field id at or beyond the schema's field
    /// count is rejected here: the engine would queue it and its
    /// indexing worker would then die on the unknown field, leaving
    /// the writer failing until evicted.
    pub fn add(&mut self, document: &SearchDocument) -> (r: Result<(), String>)
        ensures
            r is Ok ==> final(self).model() == m_insert(old(self).model(), document@),
            r is Err ==> final(self).model() == old(self).model(),
    {
        let n = document.entries.len();
        let mut i: usize = 0;
        while i < n
            invariant
                n == document.entries.len(),
            decreases n - i,
        {
            if document.entries[i].field_id as usize >= self.schema_fields {
                return Err("document field id lies outside the schema".to_string());
            }
            i = i + 1;
        }
        let mut doc = tantivy_doc_new();
        i = 0;
        while i < n
            invariant
                n == document.entries.len(),
            decreases n - i,
        {
            let entry = &document.entries[i];
            match &entry.value {
                crate::document::FieldValue::Unsigned(u) => {
                    tantivy_doc_add_unsigned(&mut doc, entry.field_id, *u);
                },
                crate::document::FieldValue::Text(s) => {
                    tantivy_doc_add_text(&mut doc, entry.field_id, s);
                },
            }
            i = i + 1;
        }
        match writer_add_document(&self.writer, doc) {
            Ok(()) => {
                self.model = Ghost(m_insert(self.model@, document@));
                Ok(())
            },
            Err(e) => Err(e),
        }
    }

    /// Buffers one tombstone per value, in order. A field id at or
    /// beyond the schema's field count names no field and is rejected
    /// here (the engine's own lookup would panic on it).
    pub fn delete_terms(&mut self, field_id: u32, values: &Vec<u64>) -> (r: Result<(), String>)
        ensures
            r is Ok ==> final(self).model() == m_delete_seq(old(self).model(), field_id, values@),
            r is Err ==> final(self).model() == old(self).model(),
    {
        if field_id as usize >= self.schema_fields {
            return Err("key field id lies outside the schema".to_string());
        }
        let n = values.len();
        let mut i: usize = 0;
        while i < n
            invariant
                n == values@.len(),
                i <= n,
                (field_id as usize) < self.field_count(),
                self.model() == m_delete_seq(old(self).model(), field_id, values@.take(i as int)),
            decreases n - i,
        {
            writer_delete_unsigned_term(self, field_id, values[i]);
            proof {
                let s = values@;
                assert(s.take(i + 1).drop_last() =~= s.take(i as int));
                assert(s.take(i + 1).last() == s[i as int]);
            }
            self.model = Ghost(m_delete(self.model@, field_id, values@[i as int]));
            i = i + 1;
        }
        proof {
            assert(values@.take(n as int) =~= values@);
        }
        Ok(())
    }

    /// The two-step commit boundary: prepare (flush to a not yet
    /// visible state), then finalize (publish atomically). A failed
    /// prepare is returned at once and never finalized; on any failure
    /// the buffered operations remain uncommitted.
    pub fn commit_writes(&mut self) -> (r: Result<(), String>)
        ensures
            r is Ok ==> final(self).model() == m_commit(old(self).model()),
            r is Err ==> final(self).model() == old(self).model(),
    {
        match writer_prepare_commit(&mut self.writer) {
            Err(e) => Err(e),
            Ok(()) => match writer_commit(&mut self.writer) {
                Err(e) => Err(e),
                Ok(()) => {
                    self.model = Ghost(m_commit(self.model@));
                    Ok(())
                },
            },
        }
    }

    /// Rolls the writer back to its last commit, discarding every
    /// buffered operation; on failure the handle is unreliable and the
    /// caller is expected to evict it.
    pub fn rollback_writes(&mut self) -> (r: Result<(), String>)
        ensures
            r is Ok ==> final(self).model() == m_rollback(old(self).model()),
            r is Err ==> final(self).model() == old(self).model(),
    {
        match writer_rollback(&mut self.writer) {
            Err(e) => Err(e),
            Ok(()) => {
                self.model = Ghost(m_rollback(self.model@));
                Ok(())
            },
        }
    }

    /// Blocks until the engine has reclaimed unreferenced storage; the
    /// committed and buffered operations are untouched.
    pub fn garbage_collect(&self) -> Result<(), String> {
        writer_garbage_collect(&self.writer)
    }
}

} // verus!
