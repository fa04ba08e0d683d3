//! Package metadata and its decoding from the stored fields of an index document.

use vstd::prelude::*;
use crate::text::{decimal, decimal_text, join2, opt_text, texts};

verus! {

/// Field numbers of the index schema, in declaration order.
pub const FIELD_ID: u32 = 0;
pub const FIELD_NAME: u32 = 1;
pub const FIELD_VERSION: u32 = 2;
pub const FIELD_DESCRIPTION: u32 = 3;
pub const FIELD_AUTHORS: u32 = 4;
pub const FIELD_REPOSITORY: u32 = 5;
pub const FIELD_SCHEMA_VERSION: u32 = 6;
pub const FIELD_WASM_API_VERSION: u32 = 7;
pub const FIELD_PROVIDES: u32 = 8;
pub const FIELD_PUBLISHED_AT: u32 = 9;
pub const FIELD_DOWNLOAD_COUNT: u32 = 10;

/// Number of fields in the index schema.
pub const FIELD_COUNT: u32 = 11;

/// A value stored in an index document, reduced to the shapes that package
/// metadata is made of. Every other shape is `Other`.
#[derive(Debug, PartialEq, Eq)]
pub enum StoredValue {
    Str(String),
    I64(i64),
    U64(u64),
    Other,
}

/// Mathematical content of a [`StoredValue`].
pub enum StoredValueView {
    Str(Seq<char>),
    I64(i64),
    U64(u64),
    Other,
}

impl View for StoredValue {
    type V = StoredValueView;

    open spec fn view(&self) -> StoredValueView {
        match self {
            StoredValue::Str(s) => StoredValueView::Str(s@),
            StoredValue::I64(v) => StoredValueView::I64(*v),
            StoredValue::U64(v) => StoredValueView::U64(*v),
            StoredValue::Other => StoredValueView::Other,
        }
    }
}

impl Clone for StoredValue {
    fn clone(&self) -> (r: Self)
        ensures
            r@ == self@,
    {
        match self {
            StoredValue::Str(s) => StoredValue::Str(s.clone()),
            StoredValue::I64(v) => StoredValue::I64(*v),
            StoredValue::U64(v) => StoredValue::U64(*v),
            StoredValue::Other => StoredValue::Other,
        }
    }
}

/// Why a stored document is not package metadata.
#[derive(Debug, Clone, Copy, PartialEq, Eq, Structural)]
pub enum DecodeError {
    /// The value of the schema field with this number has the wrong shape.
    WrongType(u32),
    /// The schema has no field with this number.
    UnexpectedField(u32),
}

impl DecodeError {
    /// The error in words.
    pub open spec fn message_spec(self) -> Seq<char> {
        match self {
            DecodeError::WrongType(id) => if id == FIELD_ID {
                "id is not str"@
            } else if id == FIELD_NAME {
                "name is not str"@
            } else if id == FIELD_VERSION {
                "version is not str"@
            } else if id == FIELD_DESCRIPTION {
                "description is not str"@
            } else if id == FIELD_AUTHORS {
                "authors is not str"@
            } else if id == FIELD_REPOSITORY {
                "repository is not str"@
            } else if id == FIELD_SCHEMA_VERSION {
                "schema_version is not i64"@
            } else if id == FIELD_WASM_API_VERSION {
                "wasm_api_version is not str"@
            } else if id == FIELD_PROVIDES {
                "provides is not str"@
            } else if id == FIELD_PUBLISHED_AT {
                "published_at is not str"@
            } else if id == FIELD_DOWNLOAD_COUNT {
                "download_count is not u64"@
            } else {
                "unexpected field_id "@ + decimal(id as nat)
            },
            DecodeError::UnexpectedField(id) => "unexpected field_id "@ + decimal(id as nat),
        }
    }

    /// The error in words.
    pub fn message(&self) -> (r: String)
        ensures
            r@ == self.message_spec(),
    {
        match *self {
            DecodeError::WrongType(id) => {
                if id == FIELD_ID {
                    String::from_str("id is not str")
                } else if id == FIELD_NAME {
                    String::from_str("name is not str")
                } else if id == FIELD_VERSION {
                    String::from_str("version is not str")
                } else if id == FIELD_DESCRIPTION {
                    String::from_str("description is not str")
                } else if id == FIELD_AUTHORS {
                    String::from_str("authors is not str")
                } else if id == FIELD_REPOSITORY {
                    String::from_str("repository is not str")
                } else if id == FIELD_SCHEMA_VERSION {
                    String::from_str("schema_version is not i64")
                } else if id == FIELD_WASM_API_VERSION {
                    String::from_str("wasm_api_version is not str")
                } else if id == FIELD_PROVIDES {
                    String::from_str("provides is not str")
                } else if id == FIELD_PUBLISHED_AT {
                    String::from_str("published_at is not str")
                } else if id == FIELD_DOWNLOAD_COUNT {
                    String::from_str("download_count is not u64")
                } else {
                    let number = decimal_text(id as u64);
                    join2("unexpected field_id ", number.as_str())
                }
            },
            DecodeError::UnexpectedField(id) => {
                let number = decimal_text(id as u64);
                join2("unexpected field_id ", number.as_str())
            },
        }
    }
}

/// Metadata of one version of one package.
#[derive(Debug, Clone, PartialEq)]
pub struct ExtensionMetadata {
    pub id: String,
    pub published_at: String,
    pub download_count: u64,
    pub name: String,
    pub version: String,
    pub description: Option<String>,
    pub authors: Vec<String>,
    pub repository: String,
    pub schema_version: Option<i32>,
    pub wasm_api_version: Option<String>,
    pub provides: Vec<String>,
}

/// Mathematical content of an [`ExtensionMetadata`].
pub struct MetadataView {
    pub id: Seq<char>,
    pub published_at: Seq<char>,
    pub download_count: u64,
    pub name: Seq<char>,
    pub version: Seq<char>,
    pub description: Option<Seq<char>>,
    pub authors: Seq<Seq<char>>,
    pub repository: Seq<char>,
    pub schema_version: Option<i32>,
    pub wasm_api_version: Option<Seq<char>>,
    pub provides: Seq<Seq<char>>,
}

impl View for ExtensionMetadata {
    type V = MetadataView;

    open spec fn view(&self) -> MetadataView {
        MetadataView {
            id: self.id@,
            published_at: self.published_at@,
            download_count: self.download_count,
            name: self.name@,
            version: self.version@,
            description: opt_text(self.description),
            authors: texts(self.authors@),
            repository: self.repository@,
            schema_version: self.schema_version,
            wasm_api_version: opt_text(self.wasm_api_version),
            provides: texts(self.provides@),
        }
    }
}

/// Metadata with every text empty, every list empty, every option absent and
/// a download count of zero.
pub open spec fn empty_metadata() -> MetadataView {
    MetadataView {
        id: Seq::empty(),
        published_at: Seq::empty(),
        download_count: 0,
        name: Seq::empty(),
        version: Seq::empty(),
        description: None,
        authors: Seq::empty(),
        repository: Seq::empty(),
        schema_version: None,
        wasm_api_version: None,
        provides: Seq::empty(),
    }
}

/// Whether a stored value has the shape that the schema field `field_id` holds:
/// an unsigned number for the download count, a signed number for the schema
/// version, text for the other nine.
pub open spec fn well_typed(field_id: u32, value: StoredValueView) -> bool {
    if field_id == FIELD_SCHEMA_VERSION {
        value is I64
    } else if field_id == FIELD_DOWNLOAD_COUNT {
        value is U64
    } else {
        field_id < FIELD_COUNT && value is Str
    }
}

/// The error that one stored field gives, if any.
pub open spec fn field_error(field_id: u32, value: StoredValueView) -> Option<DecodeError> {
    if field_id >= FIELD_COUNT {
        Some(DecodeError::UnexpectedField(field_id))
    } else if !well_typed(field_id, value) {
        Some(DecodeError::WrongType(field_id))
    } else {
        None
    }
}

/// The metadata after one well-typed stored field has been taken in: a
/// single-valued field is replaced, authors and capabilities grow by one
/// at the end, and the schema version keeps its low 32 bits.
pub open spec fn with_field(doc: MetadataView, field_id: u32, value: StoredValueView) -> MetadataView
    recommends
        well_typed(field_id, value),
{
    if field_id == FIELD_ID {
        MetadataView { id: value->Str_0, ..doc }
    } else if field_id == FIELD_NAME {
        MetadataView { name: value->Str_0, ..doc }
    } else if field_id == FIELD_VERSION {
        MetadataView { version: value->Str_0, ..doc }
    } else if field_id == FIELD_DESCRIPTION {
        MetadataView { description: Some(value->Str_0), ..doc }
    } else if field_id == FIELD_AUTHORS {
        MetadataView { authors: doc.authors.push(value->Str_0), ..doc }
    } else if field_id == FIELD_REPOSITORY {
        MetadataView { repository: value->Str_0, ..doc }
    } else if field_id == FIELD_SCHEMA_VERSION {
        MetadataView { schema_version: Some(value->I64_0 as i32), ..doc }
    } else if field_id == FIELD_WASM_API_VERSION {
        MetadataView { wasm_api_version: Some(value->Str_0), ..doc }
    } else if field_id == FIELD_PROVIDES {
        MetadataView { provides: doc.provides.push(value->Str_0), ..doc }
    } else if field_id == FIELD_PUBLISHED_AT {
        MetadataView { published_at: value->Str_0, ..doc }
    } else {
        MetadataView { download_count: value->U64_0, ..doc }
    }
}

/// The views of a list of stored fields.
pub open spec fn field_views(fields: Seq<(u32, StoredValue)>) -> Seq<(u32, StoredValueView)> {
    fields.map_values(|f: (u32, StoredValue)| (f.0, f.1@))
}

/// Decoding of a document's stored fields, taken in order: the error of the
/// first field that has one, else the metadata that the fields build up from
/// the empty one.
pub open spec fn decode(fields: Seq<(u32, StoredValueView)>) -> Result<MetadataView, DecodeError>
    decreases fields.len(),
{
    if fields.len() == 0 {
        Ok(empty_metadata())
    } else {
        let last = fields.last();
        match decode(fields.drop_last()) {
            Err(e) => Err(e),
            Ok(doc) => match field_error(last.0, last.1) {
                Some(e) => Err(e),
                None => Ok(with_field(doc, last.0, last.1)),
            },
        }
    }
}

impl Default for ExtensionMetadata {
    fn default() -> (r: Self)
        ensures
            r@ == empty_metadata(),
    {
        let r = ExtensionMetadata {
            id: String::new(),
            published_at: String::new(),
            download_count: 0,
            name: String::new(),
            version: String::new(),
            description: None,
            authors: Vec::new(),
            repository: String::new(),
            schema_version: None,
            wasm_api_version: None,
            provides: Vec::new(),
        };
        assert(r@.authors =~= Seq::<Seq<char>>::empty());
        assert(r@.provides =~= Seq::<Seq<char>>::empty());
        r
    }
}

impl ExtensionMetadata {
    /// Takes one stored field into the metadata. A field with an error leaves
    /// the metadata as it was.
    pub fn apply_field(&mut self, field_id: u32, value: StoredValue) -> (r: Result<(), DecodeError>)
        ensures
            match field_error(field_id, value@) {
                Some(e) => r == Err::<(), DecodeError>(e) && final(self)@ == old(self)@,
                None => r is Ok && final(self)@ == with_field(old(self)@, field_id, value@),
            },
    {
        if field_id >= FIELD_COUNT {
            return Err(DecodeError::UnexpectedField(field_id));
        }
        match value {
            StoredValue::Str(s) => {
                if field_id == FIELD_ID {
                    self.id = s;
                } else if field_id == FIELD_NAME {
                    self.name = s;
                } else if field_id == FIELD_VERSION {
                    self.version = s;
                } else if field_id == FIELD_DESCRIPTION {
                    self.description = Some(s);
                } else if field_id == FIELD_AUTHORS {
                    self.authors.push(s);
                    assert(texts(self.authors@) =~= texts(old(self).authors@).push(s@));
                } else if field_id == FIELD_REPOSITORY {
                    self.repository = s;
                } else if field_id == FIELD_WASM_API_VERSION {
                    self.wasm_api_version = Some(s);
                } else if field_id == FIELD_PROVIDES {
                    self.provides.push(s);
                    assert(texts(self.provides@) =~= texts(old(self).provides@).push(s@));
                } else if field_id == FIELD_PUBLISHED_AT {
                    self.published_at = s;
                } else {
                    return Err(DecodeError::WrongType(field_id));
                }
                Ok(())
            },
            StoredValue::I64(v) => {
                if field_id == FIELD_SCHEMA_VERSION {
                    self.schema_version = Some(#[verifier::truncate] (v as i32));
                    Ok(())
                } else {
                    Err(DecodeError::WrongType(field_id))
                }
            },
            StoredValue::U64(v) => {
                if field_id == FIELD_DOWNLOAD_COUNT {
                    self.download_count = v;
                    Ok(())
                } else {
                    Err(DecodeError::WrongType(field_id))
                }
            },
            StoredValue::Other => Err(DecodeError::WrongType(field_id)),
        }
    }

    /// Decodes the stored fields of one index document, in the order in which
    /// the document holds them.
    pub fn from_fields(fields: Vec<(u32, StoredValue)>) -> (r: Result<ExtensionMetadata, DecodeError>)
        ensures
            match decode(field_views(fields@)) {
                Ok(doc) => r is Ok && r->Ok_0@ == doc,
                Err(e) => r == Err::<ExtensionMetadata, DecodeError>(e),
            },
    {
        let mut doc = ExtensionMetadata::default();
        let ghost all = field_views(fields@);
        let n = fields.len();
        let mut i: usize = 0;
        assert(all.take(0) =~= Seq::empty());
        while i < n
            invariant
                i <= n,
                n == fields.len(),
                all == field_views(fields@),
                decode(all.take(i as int)) == Ok::<MetadataView, DecodeError>(doc@),
            decreases n - i,
        {
            let id = fields[i].0;
            let value = fields[i].1.clone();
            proof {
                assert(all.take(i as int + 1).drop_last() =~= all.take(i as int));
                assert(all.take(i as int + 1).last() == all[i as int]);
            }
            match doc.apply_field(id, value) {
                Ok(()) => {},
                Err(e) => {
                    proof {
                        lemma_decode_error_stays(all, i as int + 1);
                    }
                    return Err(e);
                },
            }
            i += 1;
        }
        assert(all.take(n as int) =~= all);
        Ok(doc)
    }
}

/// Once a prefix of the fields fails to decode, the whole list fails with the
/// same error.
pub proof fn lemma_decode_error_stays(fields: Seq<(u32, StoredValueView)>, k: int)
    requires
        0 <= k <= fields.len(),
        decode(fields.take(k)) is Err,
    ensures
        decode(fields) == decode(fields.take(k)),
    decreases fields.len() - k,
{
    if k == fields.len() {
        assert(fields.take(k) =~= fields);
    } else {
        assert(fields.take(k + 1).drop_last() =~= fields.take(k));
        lemma_decode_error_stays(fields, k + 1);
    }
}

impl DecodeError {
    /// Whether decoding can give the error: a wrong shape is reported of a
    /// field of the schema, an unexpected number of no field of it.
    pub open spec fn arises(self) -> bool {
        match self {
            DecodeError::WrongType(id) => id < FIELD_COUNT,
            DecodeError::UnexpectedField(id) => id >= FIELD_COUNT,
        }
    }
}

/// An error of decoding is the error of one of the fields.
pub proof fn lemma_decode_error_arises(fields: Seq<(u32, StoredValueView)>)
    ensures
        decode(fields) matches Err(e) ==> e.arises() && exists|k: int|
            0 <= k < fields.len() && field_error(fields[k].0, fields[k].1) == Some(e),
{
    lemma_decode_fails_at_first_error(fields);
    if decode(fields) is Err {
        let k = first_error(fields);
        assert(field_error(fields[k].0, fields[k].1) == Some(decode(fields)->Err_0));
    }
}

/// The views of the stored fields of a list of documents.
pub open spec fn document_views(documents: Seq<Vec<(u32, StoredValue)>>) -> Seq<
    Seq<(u32, StoredValueView)>,
> {
    documents.map_values(|d: Vec<(u32, StoredValue)>| field_views(d@))
}

/// The views of a list of metadata.
pub open spec fn metadata_views(list: Seq<ExtensionMetadata>) -> Seq<MetadataView> {
    list.map_values(|m: ExtensionMetadata| m@)
}

/// Decoding of a list of documents, taken in order: the error of the first
/// document that has one, else the metadata of them all.
pub open spec fn decode_each(documents: Seq<Seq<(u32, StoredValueView)>>) -> Result<
    Seq<MetadataView>,
    DecodeError,
>
    decreases documents.len(),
{
    if documents.len() == 0 {
        Ok(Seq::empty())
    } else {
        match decode_each(documents.drop_last()) {
            Err(e) => Err(e),
            Ok(list) => match decode(documents.last()) {
                Err(e) => Err(e),
                Ok(doc) => Ok(list.push(doc)),
            },
        }
    }
}

/// Once a prefix of the documents fails to decode, the whole list fails
/// with the same error.
pub proof fn lemma_decode_each_error_stays(documents: Seq<Seq<(u32, StoredValueView)>>, k: int)
    requires
        0 <= k <= documents.len(),
        decode_each(documents.take(k)) is Err,
    ensures
        decode_each(documents) == decode_each(documents.take(k)),
    decreases documents.len() - k,
{
    if k == documents.len() {
        assert(documents.take(k) =~= documents);
    } else {
        assert(documents.take(k + 1).drop_last() =~= documents.take(k));
        lemma_decode_each_error_stays(documents, k + 1);
    }
}

/// Decoding a list gives as many metadata as there are documents, and an
/// error of it is one that decoding a document can give.
pub proof fn lemma_decode_each_outcome(documents: Seq<Seq<(u32, StoredValueView)>>)
    ensures
        decode_each(documents) matches Ok(list) ==> list.len() == documents.len(),
        decode_each(documents) matches Err(e) ==> e.arises(),
    decreases documents.len(),
{
    if documents.len() > 0 {
        lemma_decode_each_outcome(documents.drop_last());
        lemma_decode_error_arises(documents.last());
    }
}

/// Decodes the stored fields of a list of documents, in order: the
/// metadata of them all, or the error of the first that is not metadata.
pub fn decode_documents(documents: Vec<Vec<(u32, StoredValue)>>) -> (r: Result<
    Vec<ExtensionMetadata>,
    DecodeError,
>)
    ensures
        match decode_each(document_views(documents@)) {
            Ok(list) => r is Ok && metadata_views(r->Ok_0@) == list,
            Err(e) => r == Err::<Vec<ExtensionMetadata>, DecodeError>(e),
        },
{
    let mut data: Vec<ExtensionMetadata> = Vec::new();
    let ghost all = document_views(documents@);
    let n = documents.len();
    let mut i: usize = 0;
    assert(all.take(0) =~= Seq::empty());
    assert(metadata_views(data@) =~= Seq::<MetadataView>::empty());
    for fields in it: documents.into_iter()
        invariant
            it.seq().len() == n,
            i == it.index(),
            all == document_views(it.seq()),
            decode_each(all.take(i as int)) == Ok::<Seq<MetadataView>, DecodeError>(
                metadata_views(data@),
            ),
    {
        proof {
            assert(all.take(i as int + 1).drop_last() =~= all.take(i as int));
            assert(all.take(i as int + 1).last() == all[i as int]);
            assert(all[i as int] == field_views(fields@));
        }
        match ExtensionMetadata::from_fields(fields) {
            Ok(doc) => {
                assert(metadata_views(data@.push(doc)) =~= metadata_views(data@).push(doc@));
                data.push(doc);
            },
            Err(e) => {
                proof {
                    lemma_decode_each_error_stays(all, i as int + 1);
                }
                return Err(e);
            },
        }
        i += 1;
    }
    assert(all.take(n as int) =~= all);
    Ok(data)
}

/// Position of the first field that has an error, or the number of fields.
pub open spec fn first_error(fields: Seq<(u32, StoredValueView)>) -> int
    decreases fields.len(),
{
    if fields.len() == 0 {
        0
    } else {
        let before = first_error(fields.drop_last());
        if before < fields.len() - 1 || field_error(fields.last().0, fields.last().1) is Some {
            before
        } else {
            before + 1
        }
    }
}

/// Decoding succeeds exactly when no field has an error, and fails with
/// the error of the first field that has one.
pub proof fn lemma_decode_fails_at_first_error(fields: Seq<(u32, StoredValueView)>)
    ensures
        ({
            let k = first_error(fields);
            &&& 0 <= k <= fields.len()
            &&& forall|j: int| 0 <= j < k ==> field_error(fields[j].0, fields[j].1) is None
            &&& k == fields.len() ==> decode(fields) is Ok
            &&& k < fields.len() ==> decode(fields) == Err::<MetadataView, DecodeError>(
                field_error(fields[k].0, fields[k].1)->0,
            ) && field_error(fields[k].0, fields[k].1) is Some
        }),
    decreases fields.len(),
{
    if fields.len() > 0 {
        let front = fields.drop_last();
        lemma_decode_fails_at_first_error(front);
        let before = first_error(front);
        assert forall|j: int| 0 <= j < before implies field_error(fields[j].0, fields[j].1)
            is None by {
            assert(front[j] == fields[j]);
        }
        if before < front.len() {
            assert(front[before] == fields[before]);
        }
    }
}

/// The texts of the fields with number `id`, in order.
pub open spec fn texts_of(fields: Seq<(u32, StoredValueView)>, id: u32) -> Seq<Seq<char>>
    decreases fields.len(),
{
    if fields.len() == 0 {
        Seq::empty()
    } else if fields.last().0 == id {
        texts_of(fields.drop_last(), id).push(fields.last().1->Str_0)
    } else {
        texts_of(fields.drop_last(), id)
    }
}

/// The value of the last field with number `id`, if there is such a field.
pub open spec fn last_of(fields: Seq<(u32, StoredValueView)>, id: u32) -> Option<StoredValueView>
    decreases fields.len(),
{
    if fields.len() == 0 {
        None
    } else if fields.last().0 == id {
        Some(fields.last().1)
    } else {
        last_of(fields.drop_last(), id)
    }
}

/// The text of the last field with number `id`, if there is such a field.
pub open spec fn last_text(fields: Seq<(u32, StoredValueView)>, id: u32) -> Option<Seq<char>> {
    match last_of(fields, id) {
        Some(v) => Some(v->Str_0),
        None => None,
    }
}

/// The text of the last field with number `id`, or the empty text.
pub open spec fn last_text_or_empty(fields: Seq<(u32, StoredValueView)>, id: u32) -> Seq<char> {
    match last_of(fields, id) {
        Some(v) => v->Str_0,
        None => Seq::empty(),
    }
}

/// What decoding gives where it succeeds: of a single-valued field the
/// last value, or nothing where the document has none; of authors and
/// capabilities all values in order.
pub proof fn lemma_decode_gathers(fields: Seq<(u32, StoredValueView)>)
    requires
        decode(fields) is Ok,
    ensures
        decode(fields)->Ok_0 == (MetadataView {
            id: last_text_or_empty(fields, FIELD_ID),
            published_at: last_text_or_empty(fields, FIELD_PUBLISHED_AT),
            download_count: match last_of(fields, FIELD_DOWNLOAD_COUNT) {
                Some(v) => v->U64_0,
                None => 0,
            },
            name: last_text_or_empty(fields, FIELD_NAME),
            version: last_text_or_empty(fields, FIELD_VERSION),
            description: last_text(fields, FIELD_DESCRIPTION),
            authors: texts_of(fields, FIELD_AUTHORS),
            repository: last_text_or_empty(fields, FIELD_REPOSITORY),
            schema_version: match last_of(fields, FIELD_SCHEMA_VERSION) {
                Some(v) => Some(v->I64_0 as i32),
                None => None,
            },
            wasm_api_version: last_text(fields, FIELD_WASM_API_VERSION),
            provides: texts_of(fields, FIELD_PROVIDES),
        }),
    decreases fields.len(),
{
    if fields.len() > 0 {
        lemma_decode_gathers(fields.drop_last());
    }
}

} // verus!
