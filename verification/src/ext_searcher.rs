//! Queries against the index of packages: how a request becomes a query,
//! and how the query is run.

use vstd::prelude::*;
use tantivy::query::{BooleanQuery, Query, TermQuery, RangeQuery};
use tantivy::schema::{Field, IndexRecordOption, OwnedValue, Schema};
use tantivy::{DocAddress, Index, IndexReader, Searcher, TantivyDocument, TantivyError, Term};
use crate::index::{
    field_table, has_field, has_number_field, index_fields, index_schema, schema_field_id,
    schema_field_is_signed, schema_fields, FieldDecl, FieldKind,
};
use crate::package_meta::{
    decode_documents, decode_each, document_views, field_views, lemma_decode_each_outcome,
    metadata_views, DecodeError, ExtensionMetadata, MetadataView, StoredValue, StoredValueView,
};
use crate::serve::extensions::{
    GetExtensionUpdatesParams, GetExtensionVersionsParams, GetExtensionsParams,
};
use crate::text::{opt_text, split, split_on, texts, trim, trimmed};

verus! {

#[verifier::external_type_specification]
#[verifier::external_body]
pub struct ExBooleanQuery(BooleanQuery);

#[verifier::external_type_specification]
#[verifier::external_body]
pub struct ExOwnedValue(OwnedValue);

#[verifier::external_type_specification]
#[verifier::external_body]
pub struct ExIndexReader(IndexReader);

#[verifier::external_type_specification]
#[verifier::external_body]
pub struct ExSearcher(Searcher);

/// Most matches that a query returns; what matches beyond them is left
/// out.
pub const MAX_RESULTS: usize = 1000;

/// Name of the field that holds the package id.
pub const ID_FIELD: &'static str = "id";

/// Name of the field that holds the package name.
pub const NAME_FIELD: &'static str = "name";

/// Name of the field that holds the capabilities of a package.
pub const PROVIDES_FIELD: &'static str = "provides";

/// Name of the field that holds the schema version of a package.
pub const SCHEMA_VERSION_FIELD: &'static str = "schema_version";

/// How a part of a query counts towards a match.
#[derive(Debug, Clone, Copy, PartialEq, Eq, Structural)]
pub enum Occur {
    /// A document must match the part.
    Must,
    /// A document should match the part; where all parts are of this kind
    /// it must match one of them.
    Should,
}

/// A test for an exact term in a field.
#[derive(Debug, PartialEq, Eq)]
pub struct TermTest {
    pub field: String,
    pub text: String,
}

/// Mathematical content of a [`TermTest`].
pub struct TermTestView {
    pub field: Seq<char>,
    pub text: Seq<char>,
}

impl View for TermTest {
    type V = TermTestView;

    open spec fn view(&self) -> TermTestView {
        TermTestView { field: self.field@, text: self.text@ }
    }
}

/// One condition of a query. A document matches a query when it meets all
/// its conditions.
#[derive(Debug, PartialEq, Eq)]
pub enum Clause {
    /// The document passes one of the tests.
    AnyTerm(Vec<TermTest>),
    /// The number in `field` is at least `lower`, where there is one, and
    /// at most `upper`.
    Range { field: String, lower: Option<i64>, upper: i64 },
}

/// Mathematical content of a [`Clause`].
pub enum ClauseView {
    AnyTerm(Seq<TermTestView>),
    Range { field: Seq<char>, lower: Option<i64>, upper: i64 },
}

/// The views of a list of tests.
pub open spec fn test_views(tests: Seq<TermTest>) -> Seq<TermTestView> {
    tests.map_values(|t: TermTest| t@)
}

impl View for Clause {
    type V = ClauseView;

    open spec fn view(&self) -> ClauseView {
        match self {
            Clause::AnyTerm(tests) => ClauseView::AnyTerm(test_views(tests@)),
            Clause::Range { field, lower, upper } => ClauseView::Range {
                field: field@,
                lower: *lower,
                upper: *upper,
            },
        }
    }
}

/// The views of a list of conditions.
pub open spec fn clause_views(clauses: Seq<Clause>) -> Seq<ClauseView> {
    clauses.map_values(|c: Clause| c@)
}

/// The text in lower case, as `str::to_lowercase` gives it.
pub uninterp spec fn lowercase(s: Seq<char>) -> Seq<char>;

/// Calls `str::to_lowercase`. Trusted: the result is `lowercase` of the
/// text.
#[verifier::external_body]
fn to_lowercase(s: &str) -> (r: String)
    ensures
        r@ == lowercase(s@),
{
    s.to_lowercase()
}

/// The schema version lies between `min`, where there is one, and `max`,
/// both included.
pub open spec fn schema_version_range(min: Option<i32>, max: i32) -> ClauseView {
    ClauseView::Range {
        field: SCHEMA_VERSION_FIELD@,
        lower: match min {
            Some(v) => Some(v as i64),
            None => None,
        },
        upper: max as i64,
    }
}

/// One test of `field` for each item of a comma-separated list, the item
/// taken without the white space around it.
pub open spec fn tests_of_list(field: Seq<char>, list: Seq<char>) -> Seq<TermTestView> {
    split_on(list, ',').map_values(|item: Seq<char>| TermTestView { field, text: trimmed(item) })
}

/// The package has one of the capabilities of a comma-separated list.
pub open spec fn provides_any(list: Seq<char>) -> ClauseView {
    ClauseView::AnyTerm(tests_of_list(PROVIDES_FIELD@, list))
}

/// The id of the package is one of a comma-separated list.
pub open spec fn id_among(list: Seq<char>) -> ClauseView {
    ClauseView::AnyTerm(tests_of_list(ID_FIELD@, list))
}

/// The filter is a word of the package's name as it is indexed, or in
/// lower case the package's id.
pub open spec fn name_or_id(filter: Seq<char>) -> ClauseView {
    ClauseView::AnyTerm(
        seq![
            TermTestView { field: NAME_FIELD@, text: filter },
            TermTestView { field: ID_FIELD@, text: lowercase(filter) },
        ],
    )
}

/// The query that lists packages: the filter and the capabilities, each
/// where the request has it, and the newest schema version.
pub open spec fn list_query(
    filter: Option<Seq<char>>,
    provides: Option<Seq<char>>,
    max_schema_version: i32,
) -> Seq<ClauseView> {
    (match filter {
        Some(f) => seq![name_or_id(f)],
        None => seq![],
    }) + (match provides {
        Some(p) => seq![provides_any(p)],
        None => seq![],
    }) + seq![schema_version_range(None, max_schema_version)]
}

/// The query that looks for updates: the ids, and the schema versions
/// between oldest and newest.
pub open spec fn updates_query(ids: Seq<char>, min_schema_version: i32, max_schema_version: i32) -> Seq<
    ClauseView,
> {
    seq![id_among(ids), schema_version_range(Some(min_schema_version), max_schema_version)]
}

/// The id of the package is exactly this text.
pub open spec fn id_is(extension_id: Seq<char>) -> ClauseView {
    ClauseView::AnyTerm(seq![TermTestView { field: ID_FIELD@, text: extension_id }])
}

/// The query that lists the versions of a package: its id, taken as it is
/// given.
pub open spec fn versions_query(extension_id: Seq<char>) -> Seq<ClauseView> {
    seq![id_is(extension_id)]
}

fn tests_from_list(field: &str, list: &str) -> (r: Vec<TermTest>)
    ensures
        test_views(r@) == tests_of_list(field@, list@),
{
    let items = split(list, ',');
    let mut tests: Vec<TermTest> = Vec::new();
    let n = items.len();
    let mut i: usize = 0;
    while i < n
        invariant
            i <= n,
            n == items@.len(),
            texts(items@) == split_on(list@, ','),
            test_views(tests@) =~= tests_of_list(field@, list@).take(i as int),
        decreases n - i,
    {
        let test = TermTest { field: String::from_str(field), text: trim(items[i].as_str()) };
        proof {
            assert(texts(items@)[i as int] == items@[i as int]@);
            assert(test_views(tests@.push(test)) =~= test_views(tests@).push(test@));
        }
        tests.push(test);
        i += 1;
    }
    assert(tests_of_list(field@, list@).take(n as int) =~= tests_of_list(field@, list@));
    tests
}

/// Adds the condition on the schema version.
pub fn add_query_from_schema_version_range(
    sub_queries: &mut Vec<Clause>,
    min_schema_version: Option<i32>,
    max_schema_version: i32,
)
    ensures
        clause_views(final(sub_queries)@) == clause_views(old(sub_queries)@).push(
            schema_version_range(min_schema_version, max_schema_version),
        ),
{
    let lower = match min_schema_version {
        Some(v) => Some(v as i64),
        None => None,
    };
    let clause = Clause::Range {
        field: String::from_str(SCHEMA_VERSION_FIELD),
        lower,
        upper: max_schema_version as i64,
    };
    assert(clause_views(sub_queries@.push(clause)) =~= clause_views(sub_queries@).push(clause@));
    sub_queries.push(clause);
}

/// Adds the condition on the capabilities.
pub fn add_query_from_provides(sub_queries: &mut Vec<Clause>, provides_filter: &str)
    ensures
        clause_views(final(sub_queries)@) == clause_views(old(sub_queries)@).push(
            provides_any(provides_filter@),
        ),
{
    let clause = Clause::AnyTerm(tests_from_list(PROVIDES_FIELD, provides_filter));
    assert(clause_views(sub_queries@.push(clause)) =~= clause_views(sub_queries@).push(clause@));
    sub_queries.push(clause);
}

/// Adds the condition on the ids.
pub fn add_query_from_ids(sub_queries: &mut Vec<Clause>, ids: &str)
    ensures
        clause_views(final(sub_queries)@) == clause_views(old(sub_queries)@).push(id_among(ids@)),
{
    let clause = Clause::AnyTerm(tests_from_list(ID_FIELD, ids));
    assert(clause_views(sub_queries@.push(clause)) =~= clause_views(sub_queries@).push(clause@));
    sub_queries.push(clause);
}

/// Adds the condition on one id.
pub fn add_query_from_id(sub_queries: &mut Vec<Clause>, extension_id: &str)
    ensures
        clause_views(final(sub_queries)@) == clause_views(old(sub_queries)@).push(
            id_is(extension_id@),
        ),
{
    let mut tests: Vec<TermTest> = Vec::new();
    tests.push(
        TermTest { field: String::from_str(ID_FIELD), text: String::from_str(extension_id) },
    );
    let clause = Clause::AnyTerm(tests);
    assert(clause@ == id_is(extension_id@)) by {
        assert(test_views(tests@) =~= seq![
            TermTestView { field: ID_FIELD@, text: extension_id@ },
        ]);
    }
    assert(clause_views(sub_queries@.push(clause)) =~= clause_views(sub_queries@).push(clause@));
    sub_queries.push(clause);
}

/// Adds the condition on name or id.
pub fn add_query_from_filter(sub_queries: &mut Vec<Clause>, filter: &str)
    ensures
        clause_views(final(sub_queries)@) == clause_views(old(sub_queries)@).push(
            name_or_id(filter@),
        ),
{
    let mut tests: Vec<TermTest> = Vec::new();
    tests.push(TermTest { field: String::from_str(NAME_FIELD), text: String::from_str(filter) });
    tests.push(TermTest { field: String::from_str(ID_FIELD), text: to_lowercase(filter) });
    let clause = Clause::AnyTerm(tests);
    assert(clause@ == name_or_id(filter@)) by {
        assert(test_views(tests@) =~= seq![
            TermTestView { field: NAME_FIELD@, text: filter@ },
            TermTestView { field: ID_FIELD@, text: lowercase(filter@) },
        ]);
    }
    assert(clause_views(sub_queries@.push(clause)) =~= clause_views(sub_queries@).push(clause@));
    sub_queries.push(clause);
}

/// The query that lists packages.
pub fn extensions_query(params: &GetExtensionsParams) -> (r: Vec<Clause>)
    ensures
        clause_views(r@) == list_query(
            opt_text(params.filter),
            opt_text(params.provides),
            params.max_schema_version,
        ),
{
    let mut sub_queries: Vec<Clause> = Vec::new();
    assert(clause_views(sub_queries@) =~= Seq::<ClauseView>::empty());
    if let Some(filter) = &params.filter {
        add_query_from_filter(&mut sub_queries, filter.as_str());
    }
    if let Some(provides_filter) = &params.provides {
        add_query_from_provides(&mut sub_queries, provides_filter.as_str());
    }
    add_query_from_schema_version_range(&mut sub_queries, None, params.max_schema_version);
    assert(clause_views(sub_queries@) =~= list_query(
        opt_text(params.filter),
        opt_text(params.provides),
        params.max_schema_version,
    ));
    sub_queries
}

/// The query that looks for updates.
pub fn extension_updates_query(params: &GetExtensionUpdatesParams) -> (r: Vec<Clause>)
    ensures
        clause_views(r@) == updates_query(
            params.ids@,
            params.min_schema_version,
            params.max_schema_version,
        ),
{
    let mut sub_queries: Vec<Clause> = Vec::new();
    assert(clause_views(sub_queries@) =~= Seq::<ClauseView>::empty());
    add_query_from_ids(&mut sub_queries, params.ids.as_str());
    add_query_from_schema_version_range(
        &mut sub_queries,
        Some(params.min_schema_version),
        params.max_schema_version,
    );
    assert(clause_views(sub_queries@) =~= updates_query(
        params.ids@,
        params.min_schema_version,
        params.max_schema_version,
    ));
    sub_queries
}

/// The query that lists the versions of a package.
pub fn extension_versions_query(params: &GetExtensionVersionsParams) -> (r: Vec<Clause>)
    ensures
        clause_views(r@) == versions_query(params.extension_id@),
{
    let mut sub_queries: Vec<Clause> = Vec::new();
    assert(clause_views(sub_queries@) =~= Seq::<ClauseView>::empty());
    add_query_from_id(&mut sub_queries, params.extension_id.as_str());
    assert(clause_views(sub_queries@) =~= versions_query(params.extension_id@));
    sub_queries
}

/// One end of a range of numbers.
#[derive(Debug, Clone, Copy, PartialEq, Eq, Structural)]
pub enum Limit {
    /// The range has no end on this side.
    Unbounded,
    /// The range ends with this number.
    Included(i64),
    /// The range ends before this number.
    Excluded(i64),
}

/// What of a term's occurrences a test reads.
#[derive(Debug, Clone, Copy, PartialEq, Eq, Structural)]
pub enum Postings {
    /// Which documents hold the term.
    Basic,
    /// Also how often each holds it.
    WithFreqs,
    /// Also where in the document.
    WithFreqsAndPositions,
}

/// What a query of the index is made of.
pub enum Shape {
    /// A test for an exact term in the field with this number.
    Term { field: u32, text: Seq<char>, postings: Postings },
    /// A test for a number in the field with this number, between two
    /// limits.
    Range { field: u32, lower: Limit, upper: Limit },
    /// A combination of queries.
    Bool(Seq<(Occur, Shape)>),
}

/// The parts that a combined query of the outside crate was made of, in
/// order, each with the way it counts.
pub uninterp spec fn bool_shape(query: BooleanQuery) -> Seq<(Occur, Shape)>;

/// Term tests on numbered fields, each counting and reading in the same
/// way.
pub open spec fn term_parts(occur: Occur, postings: Postings, terms: Seq<(u32, String)>) -> Seq<
    (Occur, Shape),
> {
    terms.map_values(
        |t: (u32, String)| (occur, Shape::Term { field: t.0, text: t.1@, postings }),
    )
}

/// Combined queries as parts, each counting in the same way.
pub open spec fn bool_parts(occur: Occur, parts: Seq<BooleanQuery>) -> Seq<(Occur, Shape)> {
    parts.map_values(|q: BooleanQuery| (occur, Shape::Bool(bool_shape(q))))
}

/// Calls `BooleanQuery::new` on one `TermQuery` for each pair, made by
/// `TermQuery::new` from `Term::from_field_text`. Trusted: the query is
/// made of these term tests, in order, each counting as `occur` says and
/// reading what `postings` says.
#[verifier::external_body]
fn bool_of_terms(occur: Occur, postings: Postings, terms: &Vec<(u32, String)>) -> (r: BooleanQuery)
    ensures
        bool_shape(r) == term_parts(occur, postings, terms@),
{
    let occur = match occur {
        Occur::Must => tantivy::query::Occur::Must,
        Occur::Should => tantivy::query::Occur::Should,
    };
    let option = match postings {
        Postings::Basic => IndexRecordOption::Basic,
        Postings::WithFreqs => IndexRecordOption::WithFreqs,
        Postings::WithFreqsAndPositions => IndexRecordOption::WithFreqsAndPositions,
    };
    let part = |(field, text): &(u32, String)| {
        let term = Term::from_field_text(Field::from_field_id(*field), text);
        (occur, Box::new(TermQuery::new(term, option)) as Box<dyn Query>)
    };
    BooleanQuery::new(terms.iter().map(part).collect())
}

/// Calls `BooleanQuery::new` on one `RangeQuery`, made by `RangeQuery::new`
/// from bounds of `Term::from_field_i64`. Trusted: the query is made of
/// this one range test, counting as `occur` says. A range without a limit
/// is left out: the outside query would hold no field.
#[verifier::external_body]
fn bool_of_range(occur: Occur, field: u32, lower: Limit, upper: Limit) -> (r: BooleanQuery)
    requires
        !(lower is Unbounded && upper is Unbounded),
    ensures
        bool_shape(r) == seq![(occur, Shape::Range { field, lower, upper })],
{
    let occur = match occur {
        Occur::Must => tantivy::query::Occur::Must,
        Occur::Should => tantivy::query::Occur::Should,
    };
    let field = Field::from_field_id(field);
    let bound = |limit: Limit| match limit {
        Limit::Unbounded => std::ops::Bound::Unbounded,
        Limit::Included(v) => std::ops::Bound::Included(Term::from_field_i64(field, v)),
        Limit::Excluded(v) => std::ops::Bound::Excluded(Term::from_field_i64(field, v)),
    };
    let query: Box<dyn Query> = Box::new(RangeQuery::new(bound(lower), bound(upper)));
    BooleanQuery::new(vec![(occur, query)])
}

/// Calls `BooleanQuery::new` on combined queries. Trusted: the query is
/// made of these queries, in order, each counting as `occur` says.
#[verifier::external_body]
fn bool_of_bools(occur: Occur, parts: Vec<BooleanQuery>) -> (r: BooleanQuery)
    ensures
        bool_shape(r) == bool_parts(occur, parts@),
{
    let occur = match occur {
        Occur::Must => tantivy::query::Occur::Must,
        Occur::Should => tantivy::query::Occur::Should,
    };
    let part = |query: BooleanQuery| {
        let query: Box<dyn Query> = Box::new(query);
        (occur, query)
    };
    BooleanQuery::new(parts.into_iter().map(part).collect())
}

/// The fields of the schema of the index that a reader reads, in the
/// order of their numbers.
pub uninterp spec fn reader_fields(reader: IndexReader) -> Seq<FieldDecl>;

/// The fields of the schema that a searcher searches by, in the order of
/// their numbers.
pub uninterp spec fn searcher_fields(searcher: Searcher) -> Seq<FieldDecl>;

/// The documents of a searcher: for each, by the number of its segment
/// among the searcher's segments and its number in the segment, its stored
/// fields in order, each with the number of its field. A searcher reads
/// one state of its index for as long as it lives, so what it holds is
/// fixed.
pub uninterp spec fn searcher_stored(searcher: Searcher) -> Map<
    (u32, u32),
    Seq<(u32, StoredValueView)>,
>;

/// Where the best `limit` matches of a query made of these parts are among
/// the documents of a searcher, best first.
pub uninterp spec fn searcher_hits(
    searcher: Searcher,
    parts: Seq<(Occur, Shape)>,
    limit: nat,
) -> Seq<(u32, u32)>;

/// What a stored value of the outside crate holds: its text or whole
/// number, or that it is of another kind.
pub uninterp spec fn stored_shape(value: OwnedValue) -> StoredValueView;

/// What the stored fields of a document hold, as the outside crate hands
/// them out.
pub open spec fn owned_views(fields: Seq<(u32, OwnedValue)>) -> Seq<(u32, StoredValueView)> {
    fields.map_values(|f: (u32, OwnedValue)| (f.0, stored_shape(f.1)))
}

/// The stored fields of the documents at these places of a searcher.
pub open spec fn stored_at(searcher: Searcher, places: Seq<(u32, u32)>) -> Seq<
    Seq<(u32, StoredValueView)>,
> {
    places.map_values(|place: (u32, u32)| searcher_stored(searcher)[place])
}

/// The stored fields of the best matches of a query, no more than
/// `MAX_RESULTS` of them, best first.
pub open spec fn hit_documents(searcher: Searcher, parts: Seq<(Occur, Shape)>) -> Seq<
    Seq<(u32, StoredValueView)>,
> {
    stored_at(searcher, searcher_hits(searcher, parts, MAX_RESULTS as nat))
}

/// Whether a query can be run by a schema with these fields: every test
/// is on a field that the schema has, and every test for a number is on a
/// field that holds signed numbers and has a limit on one side at least.
pub open spec fn shape_fits(shape: Shape, fields: Seq<FieldDecl>) -> bool
    decreases shape,
{
    match shape {
        Shape::Term { field, .. } => field < fields.len(),
        Shape::Range { field, lower, upper } => {
            &&& field < fields.len()
            &&& fields[field as int].kind == FieldKind::SignedNumber
            &&& !(lower is Unbounded && upper is Unbounded)
        },
        Shape::Bool(parts) => forall|i: int|
            0 <= i < parts.len() ==> shape_fits((#[trigger] parts[i]).1, fields),
    }
}

/// Calls `Index::reader`. Trusted: a reader that was made reads by the
/// schema of the index.
#[verifier::external_body]
fn index_reader(index: &Index) -> (r: Result<IndexReader, TantivyError>)
    ensures
        r matches Ok(reader) ==> reader_fields(reader) == index_fields(*index),
{
    index.reader()
}

/// Calls `IndexReader::searcher`. Trusted: the searcher searches by the
/// schema of the reader's index.
#[verifier::external_body]
fn reader_searcher(reader: &IndexReader) -> (r: Searcher)
    ensures
        searcher_fields(r) == reader_fields(*reader),
{
    reader.searcher()
}

/// Calls `Searcher::search` with a collector of the best `limit` matches
/// and hands back where the matches are, best first, without their scores.
/// Trusted: they are the best matches of the query among the documents of
/// the searcher, no more than `limit`. A limit of zero is left out, as the
/// collector panics on it; so is a query that the searcher's schema
/// cannot run, as the search panics on a field number that the schema
/// does not have, on a test for a number without a limit, and on one
/// whose field holds other values.
#[verifier::external_body]
fn search_top(searcher: &Searcher, query: &BooleanQuery, limit: usize) -> (r: Result<
    Vec<(u32, u32)>,
    TantivyError,
>)
    requires
        limit > 0,
        shape_fits(Shape::Bool(bool_shape(*query)), searcher_fields(*searcher)),
    ensures
        r matches Ok(hits) ==> hits@ == searcher_hits(*searcher, bool_shape(*query), limit as nat),
        r matches Ok(hits) ==> hits@.len() <= limit,
        r matches Ok(hits) ==> forall|i: int|
            0 <= i < hits@.len() ==> searcher_stored(*searcher).contains_key(#[trigger] hits@[i]),
{
    let collector = tantivy::collector::TopDocs::with_limit(limit);
    let top = searcher.search(query, &collector)?;
    Ok(top.into_iter().map(|(_, a)| (a.segment_ord, a.doc_id)).collect())
}

/// Calls `Searcher::doc` and hands back the stored fields of the
/// document, in the order in which it holds them, each with the number of
/// its field. Trusted: they are the stored fields of the document at this
/// place of the searcher. A place that is not of a document of the
/// searcher is left out, as the call panics on a segment that the
/// searcher does not have.
#[verifier::external_body]
fn stored_fields(searcher: &Searcher, segment: u32, doc: u32) -> (r: Result<
    Vec<(u32, OwnedValue)>,
    TantivyError,
>)
    requires
        searcher_stored(*searcher).contains_key((segment, doc)),
    ensures
        r matches Ok(fields) ==> owned_views(fields@) == searcher_stored(*searcher)[(segment, doc)],
{
    let doc = searcher.doc::<TantivyDocument>(DocAddress::new(segment, doc))?;
    Ok(doc.field_values().map(|(f, v)| (f.field_id(), OwnedValue::from(v))).collect())
}

/// Tells the variants of the outside crate's `OwnedValue` apart: text and
/// the two kinds of whole number keep what they hold, every other variant
/// is `Other`. Trusted: the result is what the value holds.
#[verifier::external_body]
fn stored_value(value: OwnedValue) -> (r: StoredValue)
    ensures
        r@ == stored_shape(value),
{
    match value {
        OwnedValue::Str(s) => StoredValue::Str(s),
        OwnedValue::U64(v) => StoredValue::U64(v),
        OwnedValue::I64(v) => StoredValue::I64(v),
        OwnedValue::Null => StoredValue::Other,
        OwnedValue::PreTokStr(_) => StoredValue::Other,
        OwnedValue::F64(_) => StoredValue::Other,
        OwnedValue::Bool(_) => StoredValue::Other,
        OwnedValue::Date(_) => StoredValue::Other,
        OwnedValue::Facet(_) => StoredValue::Other,
        OwnedValue::Bytes(_) => StoredValue::Other,
        OwnedValue::Array(_) => StoredValue::Other,
        OwnedValue::Object(_) => StoredValue::Other,
        OwnedValue::IpAddr(_) => StoredValue::Other,
    }
}

/// Why a query gave no result.
#[derive(Debug)]
pub enum SearchError {
    /// The index has no field of this name, or, for a test for a number,
    /// none that holds signed numbers.
    FieldNotFound(String),
    /// The index could not be opened.
    Open(TantivyError),
    /// No reader could be had for the index.
    Reader(TantivyError),
    /// The search itself failed.
    Search(TantivyError),
    /// A matching document could not be read.
    Fetch(TantivyError),
    /// A matching document is not package metadata.
    Decode(DecodeError),
}

/// The field with number `id` has this name.
pub open spec fn resolves(fields: Seq<FieldDecl>, name: Seq<char>, id: u32) -> bool {
    id < fields.len() && fields[id as int].name == name
}

/// The part is this test, counting as one of several of which a document
/// must pass one, with the field given by its number.
pub open spec fn term_matches(test: TermTestView, part: (Occur, Shape), fields: Seq<FieldDecl>) -> bool {
    &&& part.0 == Occur::Should
    &&& part.1 matches Shape::Term { field, text, postings }
    &&& resolves(fields, test.field, field)
    &&& text == test.text
    &&& postings == Postings::Basic
}

/// The lower limit of a condition on a number: the number itself, where
/// there is one.
pub open spec fn lower_limit(lower: Option<i64>) -> Limit {
    match lower {
        Some(v) => Limit::Included(v),
        None => Limit::Unbounded,
    }
}

/// What is inside the part is this condition, with fields given by their
/// numbers: the range test on a field of signed numbers, with both limits
/// included, or the term tests combined, each reading which documents
/// hold its term.
pub open spec fn inner_matches(clause: ClauseView, inner: Shape, fields: Seq<FieldDecl>) -> bool {
    match clause {
        ClauseView::Range { field: name, lower: l, upper: u } => {
            &&& inner matches Shape::Range { field, lower, upper }
            &&& resolves(fields, name, field)
            &&& fields[field as int].kind == FieldKind::SignedNumber
            &&& lower == lower_limit(l)
            &&& upper == Limit::Included(u)
        },
        ClauseView::AnyTerm(tests) => {
            &&& inner matches Shape::Bool(parts)
            &&& parts.len() == tests.len()
            &&& forall|i: int|
                0 <= i < tests.len() ==> term_matches(tests[i], #[trigger] parts[i], fields)
        },
    }
}

/// The part is this condition: a must of a combination that holds a
/// single must, of what the condition is.
pub open spec fn clause_matches(clause: ClauseView, part: (Occur, Shape), fields: Seq<FieldDecl>) -> bool {
    &&& part.0 == Occur::Must
    &&& part.1 matches Shape::Bool(outer)
    &&& outer.len() == 1
    &&& outer[0].0 == Occur::Must
    &&& inner_matches(clause, outer[0].1, fields)
}

/// The parts are the conditions of the query, one for one and in order.
pub open spec fn query_matches(
    plan: Seq<ClauseView>,
    parts: Seq<(Occur, Shape)>,
    fields: Seq<FieldDecl>,
) -> bool {
    &&& parts.len() == plan.len()
    &&& forall|i: int| 0 <= i < plan.len() ==> clause_matches(plan[i], #[trigger] parts[i], fields)
}

/// The field of the first test, in order, whose field is not among
/// `fields`; `None` where every test names one of them.
pub open spec fn missing_in_tests(tests: Seq<TermTestView>, fields: Seq<FieldDecl>) -> Option<
    Seq<char>,
>
    decreases tests.len(),
{
    if tests.len() == 0 {
        None
    } else if !has_field(fields, tests[0].field) {
        Some(tests[0].field)
    } else {
        missing_in_tests(tests.skip(1), fields)
    }
}

/// The first field that a condition names and that `fields` cannot serve
/// it with: for a test of a term a field of that name, for a test of a
/// number a field of that name that holds signed numbers.
pub open spec fn missing_in_clause(clause: ClauseView, fields: Seq<FieldDecl>) -> Option<
    Seq<char>,
> {
    match clause {
        ClauseView::Range { field, .. } => if has_number_field(fields, field) {
            None
        } else {
            Some(field)
        },
        ClauseView::AnyTerm(tests) => missing_in_tests(tests, fields),
    }
}

/// The first field that a query names, going through its conditions and
/// their tests in order, and that `fields` cannot serve it with; `None`
/// where they serve every test.
pub open spec fn first_missing(plan: Seq<ClauseView>, fields: Seq<FieldDecl>) -> Option<Seq<char>>
    decreases plan.len(),
{
    if plan.len() == 0 {
        None
    } else {
        match missing_in_clause(plan[0], fields) {
            Some(name) => Some(name),
            None => first_missing(plan.skip(1), fields),
        }
    }
}

/// `missing_in_tests` gives the field of the test before which every test
/// names a field that is there, and which names one that is not; and none
/// where every test names a field that is there.
pub proof fn lemma_missing_in_tests(tests: Seq<TermTestView>, fields: Seq<FieldDecl>, k: int)
    requires
        0 <= k <= tests.len(),
        forall|j: int| 0 <= j < k ==> has_field(fields, (#[trigger] tests[j]).field),
    ensures
        k == tests.len() ==> missing_in_tests(tests, fields) is None,
        k < tests.len() && !has_field(fields, tests[k].field) ==> missing_in_tests(tests, fields)
            == Some(tests[k].field),
    decreases tests.len(),
{
    if tests.len() > 0 && k > 0 {
        assert(has_field(fields, tests[0].field));
        let rest = tests.skip(1);
        assert forall|j: int| 0 <= j < k - 1 implies has_field(
            fields,
            (#[trigger] rest[j]).field,
        ) by {
            assert(rest[j] == tests[j + 1]);
        }
        lemma_missing_in_tests(rest, fields, k - 1);
        if k < tests.len() {
            assert(rest[k - 1] == tests[k]);
        }
    }
}

/// `first_missing` gives what the first condition lacks that lacks
/// anything, and none where no condition lacks anything.
pub proof fn lemma_first_missing(plan: Seq<ClauseView>, fields: Seq<FieldDecl>, k: int)
    requires
        0 <= k <= plan.len(),
        forall|j: int| 0 <= j < k ==> missing_in_clause(#[trigger] plan[j], fields) is None,
    ensures
        k == plan.len() ==> first_missing(plan, fields) is None,
        k < plan.len() && missing_in_clause(plan[k], fields) is Some ==> first_missing(plan, fields)
            == missing_in_clause(plan[k], fields),
    decreases plan.len(),
{
    if plan.len() > 0 && k > 0 {
        assert(missing_in_clause(plan[0], fields) is None);
        let rest = plan.skip(1);
        assert forall|j: int| 0 <= j < k - 1 implies missing_in_clause(
            #[trigger] rest[j],
            fields,
        ) is None by {
            assert(rest[j] == plan[j + 1]);
        }
        lemma_first_missing(rest, fields, k - 1);
        if k < plan.len() {
            assert(rest[k - 1] == plan[k]);
        }
    }
}

fn resolve(schema: &Schema, name: &str) -> (r: Result<u32, SearchError>)
    ensures
        match r {
            Ok(id) => resolves(schema_fields(*schema), name@, id) && has_field(
                schema_fields(*schema),
                name@,
            ),
            Err(SearchError::FieldNotFound(missing)) => missing@ == name@ && !has_field(
                schema_fields(*schema),
                name@,
            ),
            Err(_) => false,
        },
{
    match schema_field_id(schema, name) {
        Some(id) => Ok(id),
        None => Err(SearchError::FieldNotFound(String::from_str(name))),
    }
}

fn resolve_number(schema: &Schema, name: &str) -> (r: Result<u32, SearchError>)
    ensures
        match r {
            Ok(id) => resolves(schema_fields(*schema), name@, id) && schema_fields(
                *schema,
            )[id as int].kind == FieldKind::SignedNumber && has_number_field(
                schema_fields(*schema),
                name@,
            ),
            Err(SearchError::FieldNotFound(missing)) => missing@ == name@ && !has_number_field(
                schema_fields(*schema),
                name@,
            ),
            Err(_) => false,
        },
{
    match schema_field_id(schema, name) {
        Some(id) => {
            if schema_field_is_signed(schema, id) {
                Ok(id)
            } else {
                Err(SearchError::FieldNotFound(String::from_str(name)))
            }
        },
        None => Err(SearchError::FieldNotFound(String::from_str(name))),
    }
}

fn compile_clause(schema: &Schema, clause: &Clause) -> (r: Result<BooleanQuery, SearchError>)
    ensures
        match r {
            Ok(q) => bool_shape(q).len() == 1 && bool_shape(q)[0].0 == Occur::Must && inner_matches(
                clause@,
                bool_shape(q)[0].1,
                schema_fields(*schema),
            ) && missing_in_clause(clause@, schema_fields(*schema)) is None,
            Err(SearchError::FieldNotFound(missing)) => missing_in_clause(
                clause@,
                schema_fields(*schema),
            ) == Some(missing@),
            Err(_) => false,
        },
{
    match clause {
        Clause::Range { field, lower, upper } => {
            let id = resolve_number(schema, field.as_str())?;
            let lower = match lower {
                Some(v) => Limit::Included(*v),
                None => Limit::Unbounded,
            };
            Ok(bool_of_range(Occur::Must, id, lower, Limit::Included(*upper)))
        },
        Clause::AnyTerm(tests) => {
            let mut terms: Vec<(u32, String)> = Vec::new();
            let n = tests.len();
            let mut i: usize = 0;
            while i < n
                invariant
                    i <= n,
                    n == tests@.len(),
                    terms@.len() == i,
                    clause@ == ClauseView::AnyTerm(test_views(tests@)),
                    forall|j: int|
                        0 <= j < i ==> has_field(
                            schema_fields(*schema),
                            (#[trigger] test_views(tests@)[j]).field,
                        ),
                    forall|j: int|
                        0 <= j < i ==> resolves(
                            schema_fields(*schema),
                            tests@[j].field@,
                            (#[trigger] terms@[j]).0,
                        ) && terms@[j].1@ == tests@[j].text@,
                decreases n - i,
            {
                let id = match resolve(schema, tests[i].field.as_str()) {
                    Ok(id) => id,
                    Err(e) => {
                        proof {
                            let views = test_views(tests@);
                            assert(views.len() == tests@.len());
                            assert(views[i as int].field == tests@[i as int].field@);
                            lemma_missing_in_tests(views, schema_fields(*schema), i as int);
                        }
                        return Err(e);
                    },
                };
                assert(test_views(tests@)[i as int].field == tests@[i as int].field@);
                terms.push((id, tests[i].text.clone()));
                i += 1;
            }
            proof {
                lemma_missing_in_tests(test_views(tests@), schema_fields(*schema), n as int);
            }
            let inner = bool_of_terms(Occur::Should, Postings::Basic, &terms);
            let mut parts: Vec<BooleanQuery> = Vec::new();
            parts.push(inner);
            let q = bool_of_bools(Occur::Must, parts);
            proof {
                let shape = bool_shape(q)[0].1;
                assert(shape == Shape::Bool(bool_shape(inner)));
                assert forall|j: int| 0 <= j < tests@.len() implies term_matches(
                    test_views(tests@)[j],
                    #[trigger] bool_shape(inner)[j],
                    schema_fields(*schema),
                ) by {
                    assert(bool_shape(inner)[j] == (
                        Occur::Should,
                        Shape::Term {
                            field: terms@[j].0,
                            text: terms@[j].1@,
                            postings: Postings::Basic,
                        },
                    ));
                }
            }
            Ok(q)
        },
    }
}

/// Makes the outside crate's query of a list of conditions, with the
/// fields looked up by name in the schema.
///
/// The query is a combination with one part for each condition, in order.
/// It is made exactly when the schema has every field that the conditions
/// name; otherwise the error names the first field that is lacking.
pub fn compile(schema: &Schema, plan: &Vec<Clause>) -> (r: Result<BooleanQuery, SearchError>)
    ensures
        match r {
            Ok(q) => first_missing(clause_views(plan@), schema_fields(*schema)) is None
                && query_matches(clause_views(plan@), bool_shape(q), schema_fields(*schema))
                && shape_fits(Shape::Bool(bool_shape(q)), schema_fields(*schema)),
            Err(SearchError::FieldNotFound(missing)) => first_missing(
                clause_views(plan@),
                schema_fields(*schema),
            ) == Some(missing@),
            Err(_) => false,
        },
{
    let mut parts: Vec<BooleanQuery> = Vec::new();
    let n = plan.len();
    let mut i: usize = 0;
    while i < n
        invariant
            i <= n,
            n == plan@.len(),
            parts@.len() == i,
            forall|j: int|
                0 <= j < i ==> clause_matches(
                    plan@[j]@,
                    (Occur::Must, Shape::Bool(bool_shape(#[trigger] parts@[j]))),
                    schema_fields(*schema),
                ),
            forall|j: int|
                0 <= j < i ==> missing_in_clause(
                    #[trigger] clause_views(plan@)[j],
                    schema_fields(*schema),
                ) is None,
        decreases n - i,
    {
        assert(clause_views(plan@)[i as int] == plan@[i as int]@);
        let part = match compile_clause(schema, &plan[i]) {
            Ok(part) => part,
            Err(e) => {
                proof {
                    lemma_first_missing(clause_views(plan@), schema_fields(*schema), i as int);
                }
                return Err(e);
            },
        };
        parts.push(part);
        i += 1;
    }
    proof {
        lemma_first_missing(clause_views(plan@), schema_fields(*schema), n as int);
    }
    let ghost built = parts@;
    let q = bool_of_bools(Occur::Must, parts);
    proof {
        assert forall|j: int| 0 <= j < plan@.len() implies clause_matches(
            clause_views(plan@)[j],
            #[trigger] bool_shape(q)[j],
            schema_fields(*schema),
        ) by {
            assert(bool_shape(q)[j] == (Occur::Must, Shape::Bool(bool_shape(built[j]))));
        }
        lemma_matching_query_fits(
            clause_views(plan@),
            bool_shape(q),
            schema_fields(*schema),
        );
    }
    Ok(q)
}

/// A query that is made of the conditions of a plan, with fields given by
/// their numbers in `fields`, can be run by a schema with these fields.
pub proof fn lemma_matching_query_fits(
    plan: Seq<ClauseView>,
    parts: Seq<(Occur, Shape)>,
    fields: Seq<FieldDecl>,
)
    requires
        query_matches(plan, parts, fields),
    ensures
        shape_fits(Shape::Bool(parts), fields),
{
    reveal_with_fuel(shape_fits, 5);
    assert forall|i: int| 0 <= i < parts.len() implies shape_fits(
        (#[trigger] parts[i]).1,
        fields,
    ) by {
        assert(clause_matches(plan[i], parts[i], fields));
        let outer = parts[i].1->Bool_0;
        assert(outer.len() == 1);
        let inner = outer[0].1;
        assert(inner_matches(plan[i], inner, fields));
        assert(shape_fits(inner, fields)) by {
            if let ClauseView::AnyTerm(tests) = plan[i] {
                let terms = inner->Bool_0;
                assert forall|k: int| 0 <= k < terms.len() implies shape_fits(
                    (#[trigger] terms[k]).1,
                    fields,
                ) by {
                    assert(term_matches(tests[k], terms[k], fields));
                }
            }
        }
        assert forall|j: int| 0 <= j < outer.len() implies shape_fits(
            (#[trigger] outer[j]).1,
            fields,
        ) by {
            assert(outer[j] == outer[0]);
        }
    }
}

/// The tests of a comma-separated list name the field they were made for.
pub proof fn lemma_list_tests_name_their_field(field: Seq<char>, list: Seq<char>, i: int)
    requires
        0 <= i < tests_of_list(field, list).len(),
    ensures
        tests_of_list(field, list)[i].field == field,
{
}

/// In an index of packages each of the three queries finds every field
/// that it names, and finds signed numbers where it tests for a number.
pub proof fn lemma_queries_find_their_fields(
    filter: Option<Seq<char>>,
    provides: Option<Seq<char>>,
    ids: Seq<char>,
    min_schema_version: i32,
    max_schema_version: i32,
)
    ensures
        first_missing(list_query(filter, provides, max_schema_version), field_table()) is None,
        first_missing(updates_query(ids, min_schema_version, max_schema_version), field_table())
            is None,
        first_missing(versions_query(ids), field_table()) is None,
{
    let t = field_table();
    assert(t[0].name == ID_FIELD@);
    assert(t[1].name == NAME_FIELD@);
    assert(t[8].name == PROVIDES_FIELD@);
    assert(t[6].name == SCHEMA_VERSION_FIELD@ && t[6].kind == FieldKind::SignedNumber);
    assert(has_field(t, ID_FIELD@));
    assert(has_field(t, NAME_FIELD@));
    assert(has_field(t, PROVIDES_FIELD@));
    assert(has_number_field(t, SCHEMA_VERSION_FIELD@));
    assert forall|list: Seq<char>| missing_in_clause(#[trigger] id_among(list), t) is None by {
        lemma_list_tests_are_served(ID_FIELD@, list, t);
    }
    assert forall|list: Seq<char>| missing_in_clause(#[trigger] provides_any(list), t)
        is None by {
        lemma_list_tests_are_served(PROVIDES_FIELD@, list, t);
    }
    assert forall|text: Seq<char>| missing_in_clause(#[trigger] name_or_id(text), t) is None by {
        let tests = name_or_id(text)->AnyTerm_0;
        assert(tests[0].field == NAME_FIELD@ && tests[1].field == ID_FIELD@);
        lemma_missing_in_tests(tests, t, 2);
    }
    assert forall|text: Seq<char>| missing_in_clause(#[trigger] id_is(text), t) is None by {
        let tests = id_is(text)->AnyTerm_0;
        assert(tests[0].field == ID_FIELD@);
        lemma_missing_in_tests(tests, t, 1);
    }
    let list = list_query(filter, provides, max_schema_version);
    lemma_first_missing(list, t, list.len() as int);
    let updates = updates_query(ids, min_schema_version, max_schema_version);
    lemma_first_missing(updates, t, updates.len() as int);
    let versions = versions_query(ids);
    lemma_first_missing(versions, t, versions.len() as int);
}

/// The tests of a comma-separated list are all served by fields that have
/// the field they were made for.
pub proof fn lemma_list_tests_are_served(field: Seq<char>, list: Seq<char>, fields: Seq<FieldDecl>)
    requires
        has_field(fields, field),
    ensures
        missing_in_tests(tests_of_list(field, list), fields) is None,
{
    let tests = tests_of_list(field, list);
    assert forall|j: int| 0 <= j < tests.len() implies has_field(
        fields,
        (#[trigger] tests[j]).field,
    ) by {
        lemma_list_tests_name_their_field(field, list, j);
    }
    lemma_missing_in_tests(tests, fields, tests.len() as int);
}

/// What running a query made of these parts by a searcher comes to, where
/// searching and reading succeed: the decoding of the stored fields of
/// the best matches, in their order.
pub open spec fn found_by(
    searcher: Searcher,
    parts: Seq<(Occur, Shape)>,
    r: Result<Vec<ExtensionMetadata>, SearchError>,
) -> bool {
    match r {
        Ok(found) => decode_each(hit_documents(searcher, parts)) == Ok::<
            Seq<MetadataView>,
            DecodeError,
        >(metadata_views(found@)),
        Err(SearchError::Decode(e)) => decode_each(hit_documents(searcher, parts)) == Err::<
            Seq<MetadataView>,
            DecodeError,
        >(e),
        Err(_) => true,
    }
}

/// What running a query against an index with these fields comes to.
///
/// Where the index cannot serve a field that the query names, the query
/// fails and reports the first such field, and it reports a field in no
/// other case. Where the index serves them all, the query that `compile`
/// makes is run by a searcher that reads by these fields: what comes back
/// is the decoding of the stored fields of its best matches, no more than
/// `MAX_RESULTS` documents, or the error of decoding them, or an error of
/// searching or of reading a document as the outside crate gives it. The
/// index is open by then, so no error of opening it comes back.
pub open spec fn answers(
    plan: Seq<ClauseView>,
    fields: Seq<FieldDecl>,
    r: Result<Vec<ExtensionMetadata>, SearchError>,
) -> bool {
    &&& match r {
        Ok(found) => first_missing(plan, fields) is None && found@.len() <= MAX_RESULTS,
        Err(SearchError::FieldNotFound(missing)) => first_missing(plan, fields) == Some(missing@),
        Err(SearchError::Open(_)) => false,
        Err(SearchError::Reader(_)) => false,
        Err(SearchError::Search(_)) => first_missing(plan, fields) is None,
        Err(SearchError::Fetch(_)) => first_missing(plan, fields) is None,
        Err(SearchError::Decode(e)) => first_missing(plan, fields) is None && e.arises(),
    }
    &&& first_missing(plan, fields) is None ==> exists|
        searcher: Searcher,
        parts: Seq<(Occur, Shape)>,
    |
        {
            &&& searcher_fields(searcher) == fields
            &&& query_matches(plan, parts, fields)
            &&& #[trigger] found_by(searcher, parts, r)
        }
}

/// Runs a query by a searcher: the best matches are looked up, their
/// stored fields read, all of them, and then decoded.
fn run(searcher: &Searcher, query: &BooleanQuery) -> (r: Result<
    Vec<ExtensionMetadata>,
    SearchError,
>)
    requires
        shape_fits(Shape::Bool(bool_shape(*query)), searcher_fields(*searcher)),
    ensures
        found_by(*searcher, bool_shape(*query), r),
        match r {
            Ok(found) => found@.len() <= MAX_RESULTS,
            Err(SearchError::Search(_)) => true,
            Err(SearchError::Fetch(_)) => true,
            Err(SearchError::Decode(e)) => e.arises(),
            Err(_) => false,
        },
{
    let hits = match search_top(searcher, query, MAX_RESULTS) {
        Ok(hits) => hits,
        Err(e) => { return Err(SearchError::Search(e)); },
    };
    let mut documents: Vec<Vec<(u32, StoredValue)>> = Vec::new();
    let n = hits.len();
    let mut i: usize = 0;
    assert(document_views(documents@) =~= stored_at(*searcher, hits@.take(0)));
    while i < n
        invariant
            i <= n,
            n == hits@.len(),
            n <= MAX_RESULTS,
            documents@.len() == i,
            hits@ == searcher_hits(*searcher, bool_shape(*query), MAX_RESULTS as nat),
            forall|j: int|
                0 <= j < hits@.len() ==> searcher_stored(*searcher).contains_key(
                    #[trigger] hits@[j],
                ),
            document_views(documents@) == stored_at(*searcher, hits@.take(i as int)),
        decreases n - i,
    {
        let hit = hits[i];
        let stored = match stored_fields(searcher, hit.0, hit.1) {
            Ok(stored) => stored,
            Err(e) => { return Err(SearchError::Fetch(e)); },
        };
        let ghost handed = stored@;
        let mut fields: Vec<(u32, StoredValue)> = Vec::new();
        assert(field_views(fields@) =~= owned_views(handed.take(0)));
        for field in it: stored.into_iter()
            invariant
                it.seq() == handed,
                field_views(fields@) == owned_views(handed.take(it.index() as int)),
        {
            let ghost k = it.index() as int;
            let value = stored_value(field.1);
            proof {
                assert(handed.take(k + 1) =~= handed.take(k).push(handed[k]));
                assert(owned_views(handed.take(k + 1)) =~= owned_views(handed.take(k)).push(
                    (field.0, stored_shape(field.1)),
                ));
                assert(field_views(fields@.push((field.0, value))) =~= field_views(fields@).push(
                    (field.0, value@),
                ));
            }
            fields.push((field.0, value));
        }
        proof {
            assert(handed.take(handed.len() as int) =~= handed);
            let before = hits@.take(i as int);
            let upto = hits@.take(i as int + 1);
            assert(upto =~= before.push(hits@[i as int]));
            assert(stored_at(*searcher, upto) =~= stored_at(*searcher, before).push(
                searcher_stored(*searcher)[hits@[i as int]],
            ));
            assert(document_views(documents@.push(fields)) =~= document_views(documents@).push(
                field_views(fields@),
            ));
        }
        documents.push(fields);
        i += 1;
    }
    proof {
        assert(hits@.take(n as int) =~= hits@);
        lemma_decode_each_outcome(document_views(documents@));
    }
    match decode_documents(documents) {
        Ok(data) => {
            assert(metadata_views(data@).len() == data@.len());
            Ok(data)
        },
        Err(e) => Err(SearchError::Decode(e)),
    }
}

/// Answers queries from an index of packages that is not written to.
pub struct ExtSearcher {
    index: Index,
    reader: IndexReader,
}

impl ExtSearcher {
    /// The reader reads by the schema of the index.
    #[verifier::type_invariant]
    spec fn well_formed(self) -> bool {
        reader_fields(self.reader) == index_fields(self.index)
    }

    /// The index that is searched, and whose schema the reader of the
    /// searcher reads by.
    pub closed spec fn source(&self) -> Index {
        self.index
    }

    /// A searcher of the index. Whether the index can be read is for the
    /// outside crate to say.
    pub fn init(index: Index) -> (r: Result<ExtSearcher, SearchError>)
        ensures
            r matches Ok(searcher) ==> searcher.source() == index,
            r matches Err(e) ==> e is Reader,
    {
        match index_reader(&index) {
            Ok(reader) => Ok(ExtSearcher { index, reader }),
            Err(e) => Err(SearchError::Reader(e)),
        }
    }

    /// Runs a query and decodes what matches, best match first.
    ///
    /// Where the index lacks a field that the conditions name, the query
    /// fails and names the first such field; this is the only way in which
    /// a field is reported as lacking. Otherwise the query is the one that
    /// `compile` makes of the conditions, run by a searcher of the index,
    /// and the outside crate says whether searching and reading succeed.
    /// The stored fields of the best matches are read first, no more than
    /// `MAX_RESULTS` of them, and then decoded as `decode_documents` says:
    /// what comes back is their metadata, best match first, or the error
    /// of the first document that is not package metadata.
    pub fn search(&self, plan: &Vec<Clause>) -> (r: Result<Vec<ExtensionMetadata>, SearchError>)
        ensures
            answers(clause_views(plan@), index_fields(self.source()), r),
    {
        proof {
            use_type_invariant(self);
        }
        let searcher = reader_searcher(&self.reader);
        let schema = index_schema(&self.index);
        let query = compile(&schema, plan)?;
        let r = run(&searcher, &query);
        proof {
            assert(found_by(searcher, bool_shape(query), r));
        }
        r
    }

    /// The versions of the listed packages whose schema version lies
    /// between the oldest and the newest that the client can use.
    ///
    /// The query is that of `updates_query`. It fails for a lacking field
    /// exactly when the index lacks a field that this query names, which
    /// an index of packages never does.
    pub fn get_extension_updates(&self, params: &GetExtensionUpdatesParams) -> (r: Result<
        Vec<ExtensionMetadata>,
        SearchError,
    >)
        ensures
            answers(
                updates_query(params.ids@, params.min_schema_version, params.max_schema_version),
                index_fields(self.source()),
                r,
            ),
            index_fields(self.source()) == field_table() ==> !(r matches Err(
                SearchError::FieldNotFound(_),
            )),
    {
        let plan = extension_updates_query(params);
        let r = self.search(&plan);
        proof {
            lemma_queries_find_their_fields(
                None,
                None,
                params.ids@,
                params.min_schema_version,
                params.max_schema_version,
            );
        }
        r
    }

    /// Every version of the package with the given id.
    ///
    /// The query is that of `versions_query`. It fails for a lacking field
    /// exactly when the index lacks a field that this query names, which
    /// an index of packages never does.
    pub fn get_extension_versions(&self, params: &GetExtensionVersionsParams) -> (r: Result<
        Vec<ExtensionMetadata>,
        SearchError,
    >)
        ensures
            answers(versions_query(params.extension_id@), index_fields(self.source()), r),
            index_fields(self.source()) == field_table() ==> !(r matches Err(
                SearchError::FieldNotFound(_),
            )),
    {
        let plan = extension_versions_query(params);
        let r = self.search(&plan);
        proof {
            lemma_queries_find_their_fields(None, None, params.extension_id@, 0, 0);
        }
        r
    }

    /// The packages that pass the filter, have one of the capabilities and
    /// are not newer than the newest schema version that the client can
    /// use.
    ///
    /// The query is that of `list_query`. It fails for a lacking field
    /// exactly when the index lacks a field that this query names, which
    /// an index of packages never does.
    pub fn get_extensions(&self, params: &GetExtensionsParams) -> (r: Result<
        Vec<ExtensionMetadata>,
        SearchError,
    >)
        ensures
            answers(
                list_query(
                    opt_text(params.filter),
                    opt_text(params.provides),
                    params.max_schema_version,
                ),
                index_fields(self.source()),
                r,
            ),
            index_fields(self.source()) == field_table() ==> !(r matches Err(
                SearchError::FieldNotFound(_),
            )),
    {
        let plan = extensions_query(params);
        let r = self.search(&plan);
        proof {
            lemma_queries_find_their_fields(
                opt_text(params.filter),
                opt_text(params.provides),
                Seq::empty(),
                0,
                params.max_schema_version,
            );
        }
        r
    }
}

} // verus!
