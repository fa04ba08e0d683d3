//! The index: its fixed schema, and the ingestion of a catalog as one batch.

use vstd::prelude::*;
use serde_json::Value;
use tantivy::schema::{DocParsingError, FieldType, Schema, SchemaBuilder};
use tantivy::{Index, IndexWriter, TantivyDocument, TantivyError};
use crate::catalog::{
    drop_null_api_version, record_entries, without_null_api_version, ExtensionListData, JsonShape,
};
use crate::package_meta::{well_typed, StoredValueView, FIELD_COUNT};
use crate::progress::{Counters, Progress, ProgressView};
use crate::mirror::{staged_index_path, staging_root};
use crate::text::{join2, strip_trailing_slash};

verus! {

#[verifier::external_type_specification]
#[verifier::external_body]
pub struct ExSchema(Schema);

#[verifier::external_type_specification]
#[verifier::external_body]
pub struct ExSchemaBuilder(SchemaBuilder);

#[verifier::external_type_specification]
#[verifier::external_body]
pub struct ExIndex(Index);

#[verifier::external_type_specification]
#[verifier::external_body]
pub struct ExTantivyError(TantivyError);

#[verifier::external_type_specification]
#[verifier::external_body]
pub struct ExDocParsingError(DocParsingError);

/// Most fields that a schema can have for its documents to be made: a
/// document holds the number of a field in 16 bits.
pub const MAX_DOCUMENT_FIELDS: usize = 65536;

/// Memory that the writer of a batch may use, in bytes.
pub const WRITER_MEMORY_BUDGET: usize = 15_000_000;

/// What a field of a schema holds.
#[derive(Debug, Clone, Copy, PartialEq, Eq, Structural)]
pub enum FieldKind {
    /// Text indexed as one term: found by exact match only.
    Keyword,
    /// Text split into lower-case words, each indexed: found by any word.
    FullText,
    /// Signed 64-bit numbers.
    SignedNumber,
    /// Unsigned 64-bit numbers.
    UnsignedNumber,
    /// Anything else.
    Other,
}

/// One field of a schema.
pub struct FieldDecl {
    pub name: Seq<char>,
    pub kind: FieldKind,
    /// Whether the values of the field are stored with the document, so
    /// that they can be read back.
    pub stored: bool,
}

/// Whether a text can name a field: it is not empty and does not start
/// with `-`.
pub open spec fn valid_field_name(name: Seq<char>) -> bool {
    name.len() > 0 && name[0] != '-'
}

/// Whether one of the fields has this name and holds signed numbers.
pub open spec fn has_number_field(fields: Seq<FieldDecl>, name: Seq<char>) -> bool {
    exists|i: int|
        0 <= i < fields.len() && (#[trigger] fields[i]).name == name && fields[i].kind
            == FieldKind::SignedNumber
}

/// The fields that a schema under construction has so far, in the order of
/// their numbers.
pub uninterp spec fn builder_fields(builder: SchemaBuilder) -> Seq<FieldDecl>;

/// The fields of a schema, in the order of their numbers.
pub uninterp spec fn schema_fields(schema: Schema) -> Seq<FieldDecl>;

/// The fields of the schema of an index, in the order of their numbers.
pub uninterp spec fn index_fields(index: Index) -> Seq<FieldDecl>;

/// Whether one of the fields has this name.
pub open spec fn has_field(fields: Seq<FieldDecl>, name: Seq<char>) -> bool {
    exists|i: int| 0 <= i < fields.len() && (#[trigger] fields[i]).name == name
}

/// The fields of the index of packages. Every one is stored.
pub open spec fn field_table() -> Seq<FieldDecl> {
    seq![
        FieldDecl { name: "id"@, kind: FieldKind::Keyword, stored: true },
        FieldDecl { name: "name"@, kind: FieldKind::FullText, stored: true },
        FieldDecl { name: "version"@, kind: FieldKind::Keyword, stored: true },
        FieldDecl { name: "description"@, kind: FieldKind::Keyword, stored: true },
        FieldDecl { name: "authors"@, kind: FieldKind::FullText, stored: true },
        FieldDecl { name: "repository"@, kind: FieldKind::Keyword, stored: true },
        FieldDecl { name: "schema_version"@, kind: FieldKind::SignedNumber, stored: true },
        FieldDecl { name: "wasm_api_version"@, kind: FieldKind::FullText, stored: true },
        FieldDecl { name: "provides"@, kind: FieldKind::Keyword, stored: true },
        FieldDecl { name: "published_at"@, kind: FieldKind::Keyword, stored: true },
        FieldDecl { name: "download_count"@, kind: FieldKind::UnsignedNumber, stored: true },
    ]
}

/// Calls `SchemaBuilder::new`. Trusted: the new builder has no fields.
#[verifier::external_body]
fn new_builder() -> (r: SchemaBuilder)
    ensures
        builder_fields(r) == Seq::<FieldDecl>::empty(),
{
    SchemaBuilder::new()
}

/// Calls `SchemaBuilder::add_text_field` for a stored text field, raw for a
/// keyword and tokenized for full text. Trusted: the field is added after
/// those that are there. A name that is taken is left out, as the call
/// panics on it, and so is a name that cannot name a field.
#[verifier::external_body]
fn add_text_field(builder: &mut SchemaBuilder, name: &str, kind: FieldKind)
    requires
        kind == FieldKind::Keyword || kind == FieldKind::FullText,
        valid_field_name(name@),
        !has_field(builder_fields(*old(builder)), name@),
    ensures
        builder_fields(*final(builder)) == builder_fields(*old(builder)).push(
            FieldDecl { name: name@, kind, stored: true },
        ),
{
    let options = match kind {
        FieldKind::FullText => tantivy::schema::STORED | tantivy::schema::TEXT,
        _ => tantivy::schema::STORED | tantivy::schema::STRING,
    };
    builder.add_text_field(name, options);
}

/// Calls `SchemaBuilder::add_i64_field` for a stored, indexed field.
/// Trusted: the field is added after those that are there. A name that is
/// taken is left out, as the call panics on it, and so is a name that
/// cannot name a field.
#[verifier::external_body]
fn add_i64_field(builder: &mut SchemaBuilder, name: &str)
    requires
        valid_field_name(name@),
        !has_field(builder_fields(*old(builder)), name@),
    ensures
        builder_fields(*final(builder)) == builder_fields(*old(builder)).push(
            FieldDecl { name: name@, kind: FieldKind::SignedNumber, stored: true },
        ),
{
    builder.add_i64_field(name, tantivy::schema::STORED | tantivy::schema::INDEXED);
}

/// Calls `SchemaBuilder::add_u64_field` for a stored, indexed field.
/// Trusted: the field is added after those that are there. A name that is
/// taken is left out, as the call panics on it, and so is a name that
/// cannot name a field.
#[verifier::external_body]
fn add_u64_field(builder: &mut SchemaBuilder, name: &str)
    requires
        valid_field_name(name@),
        !has_field(builder_fields(*old(builder)), name@),
    ensures
        builder_fields(*final(builder)) == builder_fields(*old(builder)).push(
            FieldDecl { name: name@, kind: FieldKind::UnsignedNumber, stored: true },
        ),
{
    builder.add_u64_field(name, tantivy::schema::STORED | tantivy::schema::INDEXED);
}

/// Calls `SchemaBuilder::build`. Trusted: the schema has the builder's
/// fields.
#[verifier::external_body]
fn build_schema(builder: SchemaBuilder) -> (r: Schema)
    ensures
        schema_fields(r) == builder_fields(builder),
{
    builder.build()
}

/// Whether the field with number `id` is the only one of this name.
pub open spec fn only_field(fields: Seq<FieldDecl>, name: Seq<char>, id: u32) -> bool {
    &&& id < fields.len()
    &&& fields[id as int].name == name
    &&& forall|j: int| 0 <= j < fields.len() && (#[trigger] fields[j]).name == name ==> j == id
}

/// Calls `Schema::get_field`. Trusted: the result is the number of the
/// field with this name, of which a schema has no more than one; `None`
/// where the schema has no such field.
#[verifier::external_body]
pub(crate) fn schema_field_id(schema: &Schema, name: &str) -> (r: Option<u32>)
    ensures
        match r {
            Some(id) => only_field(schema_fields(*schema), name@, id),
            None => !has_field(schema_fields(*schema), name@),
        },
{
    schema.get_field(name).ok().map(|f| f.field_id())
}

/// Calls `Schema::get_field_entry` and tells the variants of the field's
/// type apart. Trusted: the result tells whether the field holds signed
/// numbers. A number that the schema has no field for is left out, as the
/// call panics on it.
#[verifier::external_body]
pub(crate) fn schema_field_is_signed(schema: &Schema, id: u32) -> (r: bool)
    requires
        id < schema_fields(*schema).len(),
    ensures
        r == (schema_fields(*schema)[id as int].kind == FieldKind::SignedNumber),
{
    match schema.get_field_entry(tantivy::schema::Field::from_field_id(id)).field_type() {
        FieldType::I64(_) => true,
        FieldType::Str(_) => false,
        FieldType::U64(_) => false,
        FieldType::F64(_) => false,
        FieldType::Bool(_) => false,
        FieldType::Date(_) => false,
        FieldType::Facet(_) => false,
        FieldType::Bytes(_) => false,
        FieldType::JsonObject(_) => false,
        FieldType::IpAddr(_) => false,
    }
}

/// Calls `Schema::num_fields`. Trusted: the result is the number of
/// fields of the schema.
#[verifier::external_body]
fn schema_field_count(schema: &Schema) -> (r: usize)
    ensures
        r == schema_fields(*schema).len(),
{
    schema.num_fields()
}

/// Calls `Index::schema`. Trusted: the schema has the fields of the
/// index.
#[verifier::external_body]
pub(crate) fn index_schema(index: &Index) -> (r: Schema)
    ensures
        schema_fields(r) == index_fields(*index),
{
    index.schema()
}

/// The names of the fields of the index can name fields and differ from
/// one another.
pub proof fn lemma_field_names_differ()
    ensures
        field_table().len() == FIELD_COUNT,
        forall|i: int|
            0 <= i < field_table().len() ==> valid_field_name((#[trigger] field_table()[i]).name),
        forall|i: int, j: int|
            0 <= i < j < field_table().len() ==> (#[trigger] field_table()[i]).name != (
            #[trigger] field_table()[j]).name,
{
    reveal_strlit("id");
    reveal_strlit("name");
    reveal_strlit("version");
    reveal_strlit("description");
    reveal_strlit("authors");
    reveal_strlit("repository");
    reveal_strlit("schema_version");
    reveal_strlit("wasm_api_version");
    reveal_strlit("provides");
    reveal_strlit("published_at");
    reveal_strlit("download_count");
    let t = field_table();
    assert(t[0].name.len() == 2 && t[0].name[0] == 'i');
    assert(t[1].name.len() == 4 && t[1].name[0] == 'n');
    assert(t[2].name.len() == 7 && t[2].name[0] == 'v');
    assert(t[3].name.len() == 11 && t[3].name[0] == 'd');
    assert(t[4].name.len() == 7 && t[4].name[0] == 'a');
    assert(t[5].name.len() == 10 && t[5].name[0] == 'r');
    assert(t[6].name.len() == 14 && t[6].name[0] == 's');
    assert(t[7].name.len() == 16 && t[7].name[0] == 'w');
    assert(t[8].name.len() == 8 && t[8].name[0] == 'p');
    assert(t[9].name.len() == 12 && t[9].name[0] == 'p');
    assert(t[10].name.len() == 14 && t[10].name[0] == 'd');
    assert forall|i: int, j: int| 0 <= i < j < t.len() implies (#[trigger] t[i]).name != (
    #[trigger] t[j]).name by {
        if t[i].name == t[j].name {
            assert(t[i].name.len() == t[j].name.len());
            assert(t[i].name[0] == t[j].name[0]);
        }
    }
}

/// The shape of value that a field of this kind stores.
pub open spec fn kind_holds(kind: FieldKind, value: StoredValueView) -> bool {
    match kind {
        FieldKind::Keyword => value is Str,
        FieldKind::FullText => value is Str,
        FieldKind::SignedNumber => value is I64,
        FieldKind::UnsignedNumber => value is U64,
        FieldKind::Other => false,
    }
}

/// The decoding of stored documents goes by the schema: a value is well
/// typed for a field number exactly when the field with that number stores
/// values of its shape.
pub proof fn lemma_decoding_follows_schema(field_id: u32, value: StoredValueView)
    ensures
        well_typed(field_id, value) <==> field_id < field_table().len() && kind_holds(
            field_table()[field_id as int].kind,
            value,
        ),
{
}

/// The schema of the index of packages.
pub fn schema() -> (r: Schema)
    ensures
        schema_fields(r) == field_table(),
{
    let mut builder = new_builder();
    proof {
        lemma_field_names_differ();
    }
    let ghost table = field_table();
    assert(builder_fields(builder) =~= table.take(0));
    add_text_field(&mut builder, "id", FieldKind::Keyword);
    assert(builder_fields(builder) =~= table.take(1));
    assert(!has_field(table.take(1), "name"@)) by {
        assert forall|i: int| 0 <= i < 1 implies table.take(1)[i].name != table[1].name by {
            assert(table.take(1)[i] == table[i]);
        }
    }
    add_text_field(&mut builder, "name", FieldKind::FullText);
    assert(builder_fields(builder) =~= table.take(2));
    assert(!has_field(table.take(2), "version"@)) by {
        assert forall|i: int| 0 <= i < 2 implies table.take(2)[i].name != table[2].name by {
            assert(table.take(2)[i] == table[i]);
        }
    }
    add_text_field(&mut builder, "version", FieldKind::Keyword);
    assert(builder_fields(builder) =~= table.take(3));
    assert(!has_field(table.take(3), "description"@)) by {
        assert forall|i: int| 0 <= i < 3 implies table.take(3)[i].name != table[3].name by {
            assert(table.take(3)[i] == table[i]);
        }
    }
    add_text_field(&mut builder, "description", FieldKind::Keyword);
    assert(builder_fields(builder) =~= table.take(4));
    assert(!has_field(table.take(4), "authors"@)) by {
        assert forall|i: int| 0 <= i < 4 implies table.take(4)[i].name != table[4].name by {
            assert(table.take(4)[i] == table[i]);
        }
    }
    add_text_field(&mut builder, "authors", FieldKind::FullText);
    assert(builder_fields(builder) =~= table.take(5));
    assert(!has_field(table.take(5), "repository"@)) by {
        assert forall|i: int| 0 <= i < 5 implies table.take(5)[i].name != table[5].name by {
            assert(table.take(5)[i] == table[i]);
        }
    }
    add_text_field(&mut builder, "repository", FieldKind::Keyword);
    assert(builder_fields(builder) =~= table.take(6));
    assert(!has_field(table.take(6), "schema_version"@)) by {
        assert forall|i: int| 0 <= i < 6 implies table.take(6)[i].name != table[6].name by {
            assert(table.take(6)[i] == table[i]);
        }
    }
    add_i64_field(&mut builder, "schema_version");
    assert(builder_fields(builder) =~= table.take(7));
    assert(!has_field(table.take(7), "wasm_api_version"@)) by {
        assert forall|i: int| 0 <= i < 7 implies table.take(7)[i].name != table[7].name by {
            assert(table.take(7)[i] == table[i]);
        }
    }
    add_text_field(&mut builder, "wasm_api_version", FieldKind::FullText);
    assert(builder_fields(builder) =~= table.take(8));
    assert(!has_field(table.take(8), "provides"@)) by {
        assert forall|i: int| 0 <= i < 8 implies table.take(8)[i].name != table[8].name by {
            assert(table.take(8)[i] == table[i]);
        }
    }
    add_text_field(&mut builder, "provides", FieldKind::Keyword);
    assert(builder_fields(builder) =~= table.take(9));
    assert(!has_field(table.take(9), "published_at"@)) by {
        assert forall|i: int| 0 <= i < 9 implies table.take(9)[i].name != table[9].name by {
            assert(table.take(9)[i] == table[i]);
        }
    }
    add_text_field(&mut builder, "published_at", FieldKind::Keyword);
    assert(builder_fields(builder) =~= table.take(10));
    assert(!has_field(table.take(10), "download_count"@)) by {
        assert forall|i: int| 0 <= i < 10 implies table.take(10)[i].name != table[10].name by {
            assert(table.take(10)[i] == table[i]);
        }
    }
    add_u64_field(&mut builder, "download_count");
    assert(builder_fields(builder) =~= table);
    build_schema(builder)
}

/// The writer of one batch of documents. It holds the outside crate's
/// `IndexWriter`, whose declaration is bound by one of that crate's traits
/// and so cannot be made known to the verifier.
#[verifier::external_body]
pub struct BatchWriter {
    inner: IndexWriter,
}

/// The records that were handed to a writer as documents and that it has
/// not committed yet, in order, each by its fields.
pub uninterp spec fn batch_pending(writer: BatchWriter) -> Seq<Map<Seq<char>, JsonShape>>;

/// The records whose documents a writer has committed since it was made,
/// in order, each by its fields.
pub uninterp spec fn batch_committed(writer: BatchWriter) -> Seq<Map<Seq<char>, JsonShape>>;

/// The directory that an index was created in or opened from.
pub uninterp spec fn index_location(index: Index) -> Seq<char>;

/// Why a catalog could not be indexed.
#[derive(Debug)]
pub enum IndexError {
    /// The index could not be created.
    Create(TantivyError),
    /// No writer could be had for the index.
    Writer(TantivyError),
    /// The record at this position does not fit the schema.
    Document(usize, DocParsingError),
    /// The document of the record at this position could not be added.
    Add(usize, TantivyError),
    /// The batch could not be committed.
    Commit(TantivyError),
    /// The schema of the index has more fields than a document can hold.
    Schema,
}

/// Why a record did not enter a batch.
#[derive(Debug)]
pub enum RecordError {
    /// The record does not fit the schema.
    Document(DocParsingError),
    /// The document of the record could not be added.
    Add(TantivyError),
}

/// Calls `Index::create` on the directory that `MmapDirectory::open` gives
/// for the path, with default settings; an index that the directory held
/// before is erased by the call. Trusted: an index that was created has
/// the fields of the schema it was created with and lies in the directory.
#[verifier::external_body]
fn create_index_in_dir(dir: &str, schema: Schema) -> (r: Result<Index, TantivyError>)
    ensures
        r matches Ok(index) ==> index_fields(index) == schema_fields(schema) && index_location(index) == dir@,
{
    let directory = tantivy::directory::MmapDirectory::open(dir)?;
    Index::create(directory, schema, tantivy::IndexSettings::default())
}

/// Calls `Index::writer`. Trusted: a writer that was made has no record
/// pending and has committed none.
#[verifier::external_body]
fn open_writer(index: &Index, memory_budget: usize) -> (r: Result<BatchWriter, TantivyError>)
    ensures
        r matches Ok(writer) ==> batch_pending(writer).len() == 0 && batch_committed(writer).len()
            == 0,
{
    index.writer(memory_budget).map(|inner| BatchWriter { inner })
}

/// Calls `IndexWriter::add_document` on the document that
/// `TantivyDocument::from_json_object` makes of the record. Trusted: on
/// success the record is pending after those that were; on failure the
/// pending records are as before; nothing is committed either way. A
/// schema with more fields than a document can hold is left out, as
/// making the document panics on a field number beyond 16 bits.
#[verifier::external_body]
fn add_record(writer: &mut BatchWriter, schema: &Schema, rec: serde_json::Map<String, Value>) -> (r:
    Result<(), RecordError>)
    requires
        schema_fields(*schema).len() <= MAX_DOCUMENT_FIELDS,
    ensures
        batch_committed(*final(writer)) == batch_committed(*old(writer)),
        r is Ok ==> batch_pending(*final(writer)) == batch_pending(*old(writer)).push(
            record_entries(rec),
        ),
        r is Err ==> batch_pending(*final(writer)) == batch_pending(*old(writer)),
{
    let doc = match TantivyDocument::from_json_object(schema, rec) {
        Ok(doc) => doc,
        Err(e) => return Err(RecordError::Document(e)),
    };
    writer.inner.add_document(doc).map(|_| ()).map_err(RecordError::Add)
}

/// Calls `IndexWriter::commit`. Trusted: on success the records that were
/// pending are committed after those that were, and none is pending. Of a
/// failure nothing is stated.
#[verifier::external_body]
fn commit(writer: &mut BatchWriter) -> (r: Result<(), TantivyError>)
    ensures
        r is Ok ==> batch_committed(*final(writer)) == batch_committed(*old(writer))
            + batch_pending(*old(writer)) && batch_pending(*final(writer)).len() == 0,
{
    writer.inner.commit().map(|_| ())
}

/// Where the index of a run is staged: in the staging area of the output
/// root, where the promotion takes it from.
pub open spec fn index_staging_dir(output: Seq<char>) -> Seq<char> {
    staged_index_path(staging_root(output))
}

/// The counters after `k` more units were counted as succeeded, one at a
/// time; the count wraps at 64 bits.
pub open spec fn succeeded_more(c: Counters, k: nat) -> Counters {
    Counters { success: ((c.success + k) % 0x1_0000_0000_0000_0000) as u64, ..c }
}

/// The records as they enter the index, each by its fields: without the
/// API version where that is an explicit null.
pub open spec fn prepared(records: Seq<serde_json::Map<String, Value>>) -> Seq<
    Map<Seq<char>, JsonShape>,
> {
    records.map_values(
        |rec: serde_json::Map<String, Value>| without_null_api_version(record_entries(rec)),
    )
}

/// What ingesting records through a writer of its own comes to, as far as
/// the writer tells: on success a writer has committed exactly the
/// records, as they enter the index, and has none pending; where a record
/// failed, a writer holds the records before it pending and has committed
/// nothing.
pub open spec fn indexed(
    records: Seq<serde_json::Map<String, Value>>,
    r: Result<(), IndexError>,
) -> bool {
    match r {
        Ok(()) => exists|w: BatchWriter|
            #[trigger] batch_committed(w) == prepared(records) && batch_pending(w).len() == 0,
        Err(IndexError::Document(k, _)) => exists|w: BatchWriter|
            #[trigger] batch_committed(w).len() == 0 && batch_pending(w) == prepared(
                records.take(k as int),
            ),
        Err(IndexError::Add(k, _)) => exists|w: BatchWriter|
            #[trigger] batch_committed(w).len() == 0 && batch_pending(w) == prepared(
                records.take(k as int),
            ),
        Err(_) => true,
    }
}

/// Builds the index of a run.
pub struct Indexer {
    index: Index,
}

impl Indexer {
    /// The index that documents go to.
    pub closed spec fn target(&self) -> Index {
        self.index
    }

    /// Where the index of a run into `output` is staged.
    pub fn staging_dir(output: &str) -> (r: String)
        ensures
            r@ == index_staging_dir(output@),
    {
        let root = strip_trailing_slash(output);
        let mut r = join2(root.as_str(), "/.tmp");
        r.append("/idx");
        r
    }

    /// Creates the index of a run in the staging directory below `output`,
    /// with the schema of the index of packages; an index left there
    /// before is erased. The staging directory must be there; whether the
    /// index can be created in it is for the outside crate to say.
    pub fn init(output: &str) -> (r: Result<Indexer, IndexError>)
        ensures
            r matches Ok(indexer) ==> index_fields(indexer.target()) == field_table()
                && index_location(indexer.target()) == index_staging_dir(output@),
            r matches Err(e) ==> e is Create,
    {
        let dir = Indexer::staging_dir(output);
        match create_index_in_dir(dir.as_str(), schema()) {
            Ok(index) => Ok(Indexer { index }),
            Err(e) => Err(IndexError::Create(e)),
        }
    }

    /// An indexer for an index that is there already.
    pub fn from_index(index: Index) -> (r: Indexer)
        ensures
            r.target() == index,
    {
        Indexer { index }
    }

    /// A writer for one batch: nothing pending, nothing committed. Whether
    /// one can be had is for the outside crate to say.
    pub fn writer(&self) -> (r: Result<BatchWriter, IndexError>)
        ensures
            r matches Ok(writer) ==> batch_pending(writer).len() == 0 && batch_committed(
                writer,
            ).len() == 0,
            r matches Err(e) ==> e is Writer,
    {
        match open_writer(&self.index, WRITER_MEMORY_BUDGET) {
            Ok(writer) => Ok(writer),
            Err(e) => Err(IndexError::Writer(e)),
        }
    }

    /// Ingests a catalog through a writer as one batch: each record enters
    /// as one document, without its API version where that is an explicit
    /// null, and the batch is committed once all have entered. Each record
    /// that entered counts as one file succeeded.
    ///
    /// On success the writer has committed, after what it had committed
    /// and what was pending, every record of the catalog, and nothing is
    /// pending. Where a record fails, the error gives its position: the
    /// records before it are pending and were counted, and the writer has
    /// committed nothing more. Of a failed commit only the counters are
    /// stated. An index whose schema has more fields than a document can
    /// hold takes no record at all.
    pub fn index_with(
        &self,
        writer: &mut BatchWriter,
        data: ExtensionListData,
        progress: &mut Progress,
    ) -> (r: Result<(), IndexError>)
        ensures
            final(progress)@ == (ProgressView {
                files: final(progress)@.files,
                ..old(progress)@
            }),
            match r {
                Ok(()) => {
                    &&& final(progress)@.files == succeeded_more(
                        old(progress)@.files,
                        data.data@.len(),
                    )
                    &&& batch_committed(*final(writer)) == batch_committed(*old(writer))
                        + batch_pending(*old(writer)) + prepared(data.data@)
                    &&& batch_pending(*final(writer)).len() == 0
                },
                Err(IndexError::Create(_)) => false,
                Err(IndexError::Writer(_)) => false,
                Err(IndexError::Schema) => {
                    &&& final(progress)@.files == old(progress)@.files
                    &&& batch_committed(*final(writer)) == batch_committed(*old(writer))
                    &&& batch_pending(*final(writer)) == batch_pending(*old(writer))
                },
                Err(IndexError::Document(k, _)) => {
                    &&& k < data.data@.len()
                    &&& final(progress)@.files == succeeded_more(old(progress)@.files, k as nat)
                    &&& batch_committed(*final(writer)) == batch_committed(*old(writer))
                    &&& batch_pending(*final(writer)) == batch_pending(*old(writer)) + prepared(
                        data.data@.take(k as int),
                    )
                },
                Err(IndexError::Add(k, _)) => {
                    &&& k < data.data@.len()
                    &&& final(progress)@.files == succeeded_more(old(progress)@.files, k as nat)
                    &&& batch_committed(*final(writer)) == batch_committed(*old(writer))
                    &&& batch_pending(*final(writer)) == batch_pending(*old(writer)) + prepared(
                        data.data@.take(k as int),
                    )
                },
                Err(IndexError::Commit(_)) => final(progress)@.files == succeeded_more(
                    old(progress)@.files,
                    data.data@.len(),
                ),
            },
            r matches Err(IndexError::Schema) <==> index_fields(self.target()).len()
                > MAX_DOCUMENT_FIELDS,
    {
        let schema = index_schema(&self.index);
        if schema_field_count(&schema) > MAX_DOCUMENT_FIELDS {
            return Err(IndexError::Schema);
        }
        let n = data.data.len();
        let ghost records = data.data@;
        let mut i: usize = 0;
        assert(prepared(records.take(0)) =~= Seq::empty());
        assert(batch_pending(*writer) + prepared(records.take(0)) =~= batch_pending(*writer));
        for rec in it: data.data.into_iter()
            invariant
                it.seq() == records,
                records.len() == n,
                schema_fields(schema).len() <= MAX_DOCUMENT_FIELDS,
                schema_fields(schema) == index_fields(self.target()),
                i == it.index(),
                progress@ == (ProgressView { files: progress@.files, ..old(progress)@ }),
                progress@.files == succeeded_more(old(progress)@.files, i as nat),
                batch_committed(*writer) == batch_committed(*old(writer)),
                batch_pending(*writer) == batch_pending(*old(writer)) + prepared(
                    records.take(i as int),
                ),
        {
            let mut rec = rec;
            let ghost entries = record_entries(rec);
            assert(entries == record_entries(records[i as int]));
            drop_null_api_version(&mut rec);
            proof {
                let before = records.take(i as int);
                let upto = records.take(i as int + 1);
                assert(upto =~= before.push(records[i as int]));
                assert(prepared(upto) =~= prepared(before).push(
                    without_null_api_version(entries),
                ));
                assert((batch_pending(*old(writer)) + prepared(before)).push(
                    without_null_api_version(entries),
                ) =~= batch_pending(*old(writer)) + prepared(upto));
            }
            match add_record(writer, &schema, rec) {
                Ok(()) => {},
                Err(RecordError::Document(e)) => { return Err(IndexError::Document(i, e)); },
                Err(RecordError::Add(e)) => { return Err(IndexError::Add(i, e)); },
            }
            progress.files.inc_success(1);
            i += 1;
        }
        assert(records.take(n as int) =~= records);
        match commit(writer) {
            Ok(()) => {
                assert(batch_committed(*old(writer)) + (batch_pending(*old(writer)) + prepared(
                    records,
                )) =~= batch_committed(*old(writer)) + batch_pending(*old(writer)) + prepared(
                    records,
                ));
                Ok(())
            },
            Err(e) => Err(IndexError::Commit(e)),
        }
    }

    /// Ingests a catalog as one batch, through a writer of its own: each
    /// record becomes one document, without its API version where that is
    /// an explicit null, and the batch is committed once all are added.
    /// Each document added counts as one file succeeded.
    ///
    /// On success every record was counted, and a writer has committed
    /// the records of the catalog, each without its null API version, and
    /// nothing else. An error names the step that failed, and for a record
    /// its position: the records before it were counted and entered the
    /// batch, and the writer has committed nothing.
    pub fn index(&self, data: ExtensionListData, progress: &mut Progress) -> (r: Result<
        (),
        IndexError,
    >)
        ensures
            final(progress)@ == (ProgressView {
                files: final(progress)@.files,
                ..old(progress)@
            }),
            match r {
                Ok(()) => final(progress)@.files == succeeded_more(
                    old(progress)@.files,
                    data.data@.len(),
                ),
                Err(IndexError::Create(_)) => false,
                Err(IndexError::Writer(_)) => final(progress)@.files == old(progress)@.files,
                Err(IndexError::Schema) => final(progress)@.files == old(progress)@.files
                    && index_fields(self.target()).len() > MAX_DOCUMENT_FIELDS,
                Err(IndexError::Document(k, _)) => k < data.data@.len() && final(progress)@.files
                    == succeeded_more(old(progress)@.files, k as nat),
                Err(IndexError::Add(k, _)) => k < data.data@.len() && final(progress)@.files
                    == succeeded_more(old(progress)@.files, k as nat),
                Err(IndexError::Commit(_)) => final(progress)@.files == succeeded_more(
                    old(progress)@.files,
                    data.data@.len(),
                ),
            },
            indexed(data.data@, r),
    {
        let mut writer = self.writer()?;
        let ghost records = data.data@;
        let r = self.index_with(&mut writer, data, progress);
        proof {
            if r is Ok {
                assert(batch_committed(writer) =~= prepared(records));
            }
            if let Err(IndexError::Document(k, _)) = &r {
                assert(batch_pending(writer) =~= prepared(records.take(*k as int)));
            }
            if let Err(IndexError::Add(k, _)) = &r {
                assert(batch_pending(writer) =~= prepared(records.take(*k as int)));
            }
        }
        r
    }
}

} // verus!
