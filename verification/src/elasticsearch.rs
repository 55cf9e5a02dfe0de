use crate::business_result::BusinessResult;
use crate::json::{
    all_items, all_members, as_signed, as_unsigned, field, integer_string, json_text,
    last_position, lemma_items_view, lemma_last_position, lemma_member_named_concat, member_named,
    push_item, push_member, Json, JsonView,
};
use crate::problem::{json_problem, Problem};
use crate::serde_field_value::{deserialize, single_entry};
use crate::service_requester::{
    encode_url_component, url_encoded, ClientRequest, ClientRequestView, IntoClientRequest,
};
use crate::text::{same_text, strings_view};
use vstd::prelude::*;
use vstd::std_specs::convert::FromSpecImpl;
use vstd::utf8::encode_utf8;

verus! {

/// A value that a field of a document is compared with.
#[derive(Debug, PartialEq, Eq)]
pub enum Value {
    Bool(bool),
    Int(i64),
    String(String),
}

/// What a `Value` holds, as mathematical values.
pub enum ValueView {
    Bool(bool),
    Int(i64),
    String(Seq<char>),
}

impl View for Value {
    type V = ValueView;

    open spec fn view(&self) -> ValueView {
        match self {
            Value::Bool(b) => ValueView::Bool(*b),
            Value::Int(i) => ValueView::Int(*i),
            Value::String(s) => ValueView::String(s@),
        }
    }
}

/// What `Value::to_string` renders: `true` or `false`, the decimal numeral, or
/// the string as it is.
pub open spec fn value_text(value: ValueView) -> Seq<char> {
    match value {
        ValueView::Bool(b) => if b {
            "true"@
        } else {
            "false"@
        },
        ValueView::Int(i) => crate::json::integer_digits(i as int),
        ValueView::String(s) => s,
    }
}

/// The JSON form of a value: a boolean, a number or a string, with nothing around it.
pub open spec fn value_json(value: ValueView) -> JsonView {
    match value {
        ValueView::Bool(b) => JsonView::Bool(b),
        ValueView::Int(i) => JsonView::Int(i),
        ValueView::String(s) => JsonView::Str(s),
    }
}

impl Value {
    /// The value that is the string `s`.
    pub fn text(s: &str) -> (value: Value)
        ensures
            value@ == ValueView::String(s@),
    {
        Value::String(String::from_str(s))
    }

    /// The value as a reader would write it.
    pub fn to_string(&self) -> (text: String)
        ensures
            text@ == value_text(self@),
    {
        match self {
            Value::Bool(b) => if *b {
                String::from_str("true")
            } else {
                String::from_str("false")
            },
            Value::Int(i) => integer_string(*i),
            Value::String(s) => s.clone(),
        }
    }

    /// The JSON form of the value.
    pub fn to_json(&self) -> (j: Json)
        ensures
            j@ == value_json(self@),
    {
        match self {
            Value::Bool(b) => Json::Bool(*b),
            Value::Int(i) => Json::Int(*i),
            Value::String(s) => Json::Str(s.clone()),
        }
    }
}

impl Clone for Value {
    fn clone(&self) -> (copy: Value)
        ensures
            copy@ == self@,
    {
        match self {
            Value::Bool(b) => Value::Bool(*b),
            Value::Int(i) => Value::Int(*i),
            Value::String(s) => Value::String(s.clone()),
        }
    }
}

impl From<bool> for Value {
    fn from(b: bool) -> (value: Value) {
        Value::Bool(b)
    }
}

impl FromSpecImpl<bool> for Value {
    open spec fn obeys_from_spec() -> bool {
        true
    }

    open spec fn from_spec(b: bool) -> Value {
        Value::Bool(b)
    }
}

impl From<i64> for Value {
    fn from(i: i64) -> (value: Value) {
        Value::Int(i)
    }
}

impl FromSpecImpl<i64> for Value {
    open spec fn obeys_from_spec() -> bool {
        true
    }

    open spec fn from_spec(i: i64) -> Value {
        Value::Int(i)
    }
}

impl From<String> for Value {
    fn from(s: String) -> (value: Value) {
        Value::String(s)
    }
}

impl FromSpecImpl<String> for Value {
    open spec fn obeys_from_spec() -> bool {
        true
    }

    open spec fn from_spec(s: String) -> Value {
        Value::String(s)
    }
}

/// The direction in which hits are ordered by a field.
#[derive(Clone, Copy, Debug, PartialEq, Eq, Structural)]
pub enum SortOrder {
    Asc,
    Desc,
}

/// The word for a direction in a request.
pub open spec fn order_word(order: SortOrder) -> Seq<char> {
    match order {
        SortOrder::Asc => "asc"@,
        SortOrder::Desc => "desc"@,
    }
}

/// One field by which hits are ordered.
#[derive(Debug, PartialEq, Eq)]
pub struct Sort {
    field: String,
    order: SortOrder,
}

/// What a `Sort` holds, as mathematical values.
pub struct SortView {
    pub field: Seq<char>,
    pub order: SortOrder,
}

impl View for Sort {
    type V = SortView;

    closed spec fn view(&self) -> SortView {
        SortView { field: self.field@, order: self.order }
    }
}

/// The JSON form of a sort: an object with the field as the name of its one
/// member and the word for the direction as its value.
pub open spec fn sort_json(sort: SortView) -> JsonView {
    JsonView::Object(seq![(sort.field, JsonView::Str(order_word(sort.order)))])
}

impl Sort {
    pub fn new(field: &str, order: SortOrder) -> (sort: Sort)
        ensures
            sort@ == (SortView { field: field@, order }),
    {
        Sort { field: String::from_str(field), order }
    }

    /// The JSON form of the sort.
    pub fn to_json(&self) -> (j: Json)
        ensures
            j@ == sort_json(self@),
    {
        let word = match self.order {
            SortOrder::Asc => "asc",
            SortOrder::Desc => "desc",
        };
        let mut members: Vec<(String, Json)> = Vec::new();
        assert(all_members(&members) =~= Seq::empty());
        push_member(&mut members, self.field.as_str(), Json::Str(String::from_str(word)));
        assert(all_members(&members) =~= sort_json(self@)->Object_0);
        Json::Object(members)
    }
}

impl Clone for Sort {
    fn clone(&self) -> (copy: Sort)
        ensures
            copy@ == self@,
    {
        Sort { field: self.field.clone(), order: self.order }
    }
}

/// A condition on the documents that are searched.
#[derive(Debug, PartialEq, Eq)]
pub enum Query {
    /// A combination of other conditions.
    Bool(BoolQuery),
    /// The field holds exactly the value.
    Term(String, Value),
    /// The field begins with the value.
    Prefix(String, Value),
}

/// A combination of conditions.
#[derive(Debug, PartialEq, Eq)]
pub struct BoolQuery {
    pub must: Vec<Query>,
    pub filter: Vec<Query>,
    pub must_not: Vec<Query>,
    pub should: Vec<Query>,
    pub minimum_should_match: Option<i32>,
}

/// What a `Query` holds, as mathematical values.
pub enum QueryView {
    Bool(BoolQueryView),
    Term(Seq<char>, ValueView),
    Prefix(Seq<char>, ValueView),
}

/// What a `BoolQuery` holds, as mathematical values.
pub struct BoolQueryView {
    pub must: Seq<QueryView>,
    pub filter: Seq<QueryView>,
    pub must_not: Seq<QueryView>,
    pub should: Seq<QueryView>,
    pub minimum_should_match: Option<i32>,
}

impl View for Query {
    type V = QueryView;

    open spec fn view(&self) -> QueryView
        decreases self,
    {
        match self {
            Query::Bool(b) => QueryView::Bool(
                BoolQueryView {
                    must: queries_view(b.must@, b.must@.len()),
                    filter: queries_view(b.filter@, b.filter@.len()),
                    must_not: queries_view(b.must_not@, b.must_not@.len()),
                    should: queries_view(b.should@, b.should@.len()),
                    minimum_should_match: b.minimum_should_match,
                },
            ),
            Query::Term(field, value) => QueryView::Term(field@, value@),
            Query::Prefix(field, value) => QueryView::Prefix(field@, value@),
        }
    }
}

/// The views of the first `n` of `queries`.
pub open spec fn queries_view(queries: Seq<Query>, n: nat) -> Seq<QueryView>
    decreases queries, n,
{
    if n == 0 || n > queries.len() {
        Seq::empty()
    } else {
        queries_view(queries, (n - 1) as nat).push(queries[n - 1]@)
    }
}

/// The views of all of `queries`.
pub open spec fn all_queries(queries: &Vec<Query>) -> Seq<QueryView> {
    queries_view(queries@, queries@.len())
}

impl View for BoolQuery {
    type V = BoolQueryView;

    open spec fn view(&self) -> BoolQueryView {
        BoolQueryView {
            must: all_queries(&self.must),
            filter: all_queries(&self.filter),
            must_not: all_queries(&self.must_not),
            should: all_queries(&self.should),
            minimum_should_match: self.minimum_should_match,
        }
    }
}

/// `queries_view` keeps the length and views each query in its place.
pub proof fn lemma_queries_view(queries: Seq<Query>, n: nat)
    requires
        n <= queries.len(),
    ensures
        queries_view(queries, n).len() == n,
        forall|i: int| 0 <= i < n ==> #[trigger] queries_view(queries, n)[i] == queries[i]@,
    decreases n,
{
    if n > 0 {
        lemma_queries_view(queries, (n - 1) as nat);
        assert(queries_view(queries, n) == queries_view(queries, (n - 1) as nat).push(
            queries[n - 1]@,
        ));
    } else {
        assert(queries_view(queries, n) == Seq::<QueryView>::empty());
    }
}

/// The JSON form of `minimum_should_match`: the number, or `null` where there is none.
pub open spec fn minimum_json(minimum: Option<i32>) -> JsonView {
    match minimum {
        Some(n) => JsonView::Int(n as i64),
        None => JsonView::Null,
    }
}

/// The JSON form of a condition: an object with one member, named after the
/// kind of condition. A term and a prefix hold an object with the field as the
/// name of its one member; a combination holds its four lists and its minimum.
pub open spec fn query_json(query: QueryView) -> JsonView
    decreases query,
{
    match query {
        QueryView::Bool(b) => JsonView::Object(
            seq![
                (
                    "bool"@,
                    JsonView::Object(
                        seq![
                            ("must"@, JsonView::Array(queries_json(b.must, b.must.len()))),
                            ("filter"@, JsonView::Array(queries_json(b.filter, b.filter.len()))),
                            (
                                "must_not"@,
                                JsonView::Array(queries_json(b.must_not, b.must_not.len())),
                            ),
                            ("should"@, JsonView::Array(queries_json(b.should, b.should.len()))),
                            ("minimum_should_match"@, minimum_json(b.minimum_should_match)),
                        ],
                    ),
                ),
            ],
        ),
        QueryView::Term(field, value) => JsonView::Object(
            seq![("term"@, JsonView::Object(seq![(field, value_json(value))]))],
        ),
        QueryView::Prefix(field, value) => JsonView::Object(
            seq![("prefix"@, JsonView::Object(seq![(field, value_json(value))]))],
        ),
    }
}

/// The JSON forms of the first `n` of `queries`.
pub open spec fn queries_json(queries: Seq<QueryView>, n: nat) -> Seq<JsonView>
    decreases queries, n,
{
    if n == 0 || n > queries.len() {
        Seq::empty()
    } else {
        queries_json(queries, (n - 1) as nat).push(query_json(queries[n - 1]))
    }
}

/// The JSON form of an object with one member.
fn single_member(name: &str, value: Json) -> (j: Json)
    ensures
        j@ == JsonView::Object(seq![(name@, value@)]),
{
    let mut members: Vec<(String, Json)> = Vec::new();
    assert(all_members(&members) =~= Seq::empty());
    push_member(&mut members, name, value);
    assert(all_members(&members) =~= seq![(name@, value@)]);
    Json::Object(members)
}

/// The JSON forms of a list of conditions.
fn queries_to_json(queries: &Vec<Query>) -> (items: Vec<Json>)
    ensures
        all_items(&items) == queries_json(all_queries(queries), queries@.len()),
    decreases queries,
{
    let mut items: Vec<Json> = Vec::new();
    let ghost views = all_queries(queries);
    proof {
        lemma_queries_view(queries@, queries@.len());
        assert(all_items(&items) =~= Seq::empty());
    }
    let mut i: usize = 0;
    while i < queries.len()
        invariant
            i <= queries.len(),
            views == all_queries(queries),
            views.len() == queries@.len(),
            forall|k: int| 0 <= k < queries@.len() ==> #[trigger] views[k] == queries@[k]@,
            all_items(&items) == queries_json(views, i as nat),
        decreases queries.len() - i,
    {
        assert(decreases_to!(*queries => queries[i as int]));
        let item = queries[i].to_json();
        push_item(&mut items, item);
        i += 1;
    }
    items
}

impl Query {
    /// The condition that `field` holds exactly `value`.
    pub fn term(field: &str, value: Value) -> (query: Query)
        ensures
            query@ == QueryView::Term(field@, value@),
    {
        Query::Term(String::from_str(field), value)
    }

    /// The condition that `field` begins with `value`.
    pub fn prefix(field: &str, value: Value) -> (query: Query)
        ensures
            query@ == QueryView::Prefix(field@, value@),
    {
        Query::Prefix(String::from_str(field), value)
    }

    /// The combination of the given conditions.
    pub fn bool_query(
        must: Vec<Query>,
        filter: Vec<Query>,
        must_not: Vec<Query>,
        should: Vec<Query>,
        minimum_should_match: Option<i32>,
    ) -> (query: Query)
        ensures
            query@ == QueryView::Bool(
                BoolQueryView {
                    must: all_queries(&must),
                    filter: all_queries(&filter),
                    must_not: all_queries(&must_not),
                    should: all_queries(&should),
                    minimum_should_match,
                },
            ),
    {
        Query::Bool(BoolQuery { must, filter, must_not, should, minimum_should_match })
    }

    /// The JSON form of the condition.
    pub fn to_json(&self) -> (j: Json)
        ensures
            j@ == query_json(self@),
        decreases self,
    {
        match self {
            Query::Term(field, value) => single_member(
                "term",
                single_member(field.as_str(), value.to_json()),
            ),
            Query::Prefix(field, value) => single_member(
                "prefix",
                single_member(field.as_str(), value.to_json()),
            ),
            Query::Bool(b) => {
                let minimum = match b.minimum_should_match {
                    Some(n) => Json::Int(n as i64),
                    None => Json::Null,
                };
                let mut members: Vec<(String, Json)> = Vec::new();
                assert(all_members(&members) =~= Seq::empty());
                push_member(&mut members, "must", Json::Array(queries_to_json(&b.must)));
                push_member(&mut members, "filter", Json::Array(queries_to_json(&b.filter)));
                push_member(&mut members, "must_not", Json::Array(queries_to_json(&b.must_not)));
                push_member(&mut members, "should", Json::Array(queries_to_json(&b.should)));
                push_member(&mut members, "minimum_should_match", minimum);
                proof {
                    lemma_queries_view(b.must@, b.must@.len());
                    lemma_queries_view(b.filter@, b.filter@.len());
                    lemma_queries_view(b.must_not@, b.must_not@.len());
                    lemma_queries_view(b.should@, b.should@.len());
                    assert(all_members(&members) =~= query_json(
                        self@,
                    )->Object_0[0].1->Object_0);
                }
                single_member("bool", Json::Object(members))
            },
        }
    }
}

/// A search request.
#[derive(Debug, PartialEq, Eq)]
pub struct QueryRequest {
    pub sort: Vec<Sort>,
    pub query: Option<Query>,
    pub from: Option<u64>,
    pub size: Option<u64>,
}

/// What a `QueryRequest` holds, as mathematical values.
pub struct QueryRequestView {
    pub sort: Seq<SortView>,
    pub query: Option<QueryView>,
    pub from: Option<u64>,
    pub size: Option<u64>,
}

/// The views of the sorts a vector holds.
pub open spec fn all_sorts(sorts: &Vec<Sort>) -> Seq<SortView> {
    Seq::new(sorts@.len(), |i: int| sorts@[i]@)
}

impl View for QueryRequest {
    type V = QueryRequestView;

    open spec fn view(&self) -> QueryRequestView {
        QueryRequestView {
            sort: all_sorts(&self.sort),
            query: match self.query {
                Some(query) => Some(query@),
                None => None,
            },
            from: self.from,
            size: self.size,
        }
    }
}

/// The member `name` with a number, or no member where there is no number.
pub open spec fn number_member(name: Seq<char>, number: Option<u64>) -> Seq<(Seq<char>, JsonView)> {
    match number {
        Some(n) => seq![(name, JsonView::UInt(n))],
        None => Seq::empty(),
    }
}

/// The JSON form of a request: an object with `sort`, `query`, `from` and
/// `size`, in this order, each only where the request has it.
pub open spec fn request_json(request: QueryRequestView) -> JsonView {
    JsonView::Object(
        (if request.sort.len() > 0 {
            seq![
                (
                    "sort"@,
                    JsonView::Array(
                        Seq::new(request.sort.len(), |i: int| sort_json(request.sort[i])),
                    ),
                ),
            ]
        } else {
            Seq::empty()
        }) + (match request.query {
            Some(query) => seq![("query"@, query_json(query))],
            None => Seq::empty(),
        }) + number_member("from"@, request.from) + number_member("size"@, request.size),
    )
}

impl QueryRequest {
    /// The request that asks for everything.
    pub fn new() -> (request: QueryRequest)
        ensures
            request@ == (QueryRequestView {
                sort: Seq::empty(),
                query: None,
                from: None,
                size: None,
            }),
    {
        let request = QueryRequest { sort: Vec::new(), query: None, from: None, size: None };
        assert(all_sorts(&request.sort) =~= Seq::empty());
        request
    }

    /// The request with `query` as its condition.
    pub fn with_query(self, query: Query) -> (request: QueryRequest)
        ensures
            request@ == (QueryRequestView { query: Some(query@), ..self@ }),
    {
        let mut request = self;
        request.query = Some(query);
        request
    }

    /// The request with one more field to order the hits by, after those it has.
    pub fn with_sort(self, field: &str, order: SortOrder) -> (request: QueryRequest)
        ensures
            request@ == (QueryRequestView {
                sort: self@.sort.push(SortView { field: field@, order }),
                ..self@
            }),
    {
        let mut request = self;
        request.sort.push(Sort::new(field, order));
        assert(all_sorts(&request.sort) =~= self@.sort.push(SortView { field: field@, order }));
        request
    }

    /// The request that skips the first `from` hits.
    pub fn with_from(self, from: u64) -> (request: QueryRequest)
        ensures
            request@ == (QueryRequestView { from: Some(from), ..self@ }),
    {
        let mut request = self;
        request.from = Some(from);
        request
    }

    /// The request that asks for no more than `size` hits.
    pub fn with_size(self, size: u64) -> (request: QueryRequest)
        ensures
            request@ == (QueryRequestView { size: Some(size), ..self@ }),
    {
        let mut request = self;
        request.size = Some(size);
        request
    }

    /// The JSON form of the request.
    pub fn to_json(&self) -> (j: Json)
        ensures
            j@ == request_json(self@),
    {
        let mut members: Vec<(String, Json)> = Vec::new();
        assert(all_members(&members) =~= Seq::empty());
        if self.sort.len() > 0 {
            let mut sorts: Vec<Json> = Vec::new();
            assert(all_items(&sorts) =~= Seq::empty());
            let mut i: usize = 0;
            while i < self.sort.len()
                invariant
                    i <= self.sort.len(),
                    all_items(&sorts) == Seq::new(i as nat, |k: int| sort_json(self@.sort[k])),
                decreases self.sort.len() - i,
            {
                push_item(&mut sorts, self.sort[i].to_json());
                assert(all_items(&sorts) =~= Seq::new(
                    (i + 1) as nat,
                    |k: int| sort_json(self@.sort[k]),
                ));
                i += 1;
            }
            push_member(&mut members, "sort", Json::Array(sorts));
        }
        match &self.query {
            Some(query) => {
                push_member(&mut members, "query", query.to_json());
            },
            None => {},
        }
        match self.from {
            Some(from) => {
                push_member(&mut members, "from", Json::UInt(from));
            },
            None => {},
        }
        match self.size {
            Some(size) => {
                push_member(&mut members, "size", Json::UInt(size));
            },
            None => {},
        }
        assert(all_members(&members) =~= request_json(self@)->Object_0);
        Json::Object(members)
    }
}

impl Default for QueryRequest {
    fn default() -> (request: QueryRequest)
        ensures
            request@ == (QueryRequestView {
                sort: Seq::empty(),
                query: None,
                from: None,
                size: None,
            }),
    {
        QueryRequest::new()
    }
}

/// The answer to a search.
#[derive(Debug)]
pub struct QueryResult<I, T> {
    pub hits: QueryHits<I, T>,
    pub scroll_id: Option<String>,
}

/// The hits of a search.
#[derive(Debug)]
pub struct QueryHits<I, T> {
    pub total: QueryHitsTotal,
    pub hits: Vec<Doc<I, T>>,
}

/// How many documents a search has found, and whether that number is exact.
#[derive(Debug, PartialEq, Eq)]
pub struct QueryHitsTotal {
    pub total: u64,
    pub relation: String,
}

/// A document with its identifier.
#[derive(Debug)]
pub struct Doc<I, T> {
    pub id: I,
    pub source: T,
}

/// The answer to a request for several documents by their identifiers.
#[derive(Debug)]
pub struct MGetResult<T> {
    pub docs: Vec<MGetDoc<T>>,
}

/// One document of such an answer, where it was found.
#[derive(Debug)]
pub struct MGetDoc<T> {
    pub id: String,
    pub found: bool,
    pub source: Option<T>,
}

/// The aggregations of an answer, by name.
#[derive(Debug)]
pub struct AggregationsResponse<T> {
    pub aggregations: Vec<(String, T)>,
}

/// An aggregation into buckets.
#[derive(Debug)]
pub struct BucketAggregation {
    pub buckets: Vec<Bucket>,
}

/// One bucket, with the aggregations below it by name.
#[derive(Debug)]
pub struct Bucket {
    pub key: Value,
    pub key_as_string: Option<String>,
    pub doc_count: u64,
    pub children: Vec<(String, BucketAggregation)>,
}

/// What came of one action of a bulk request.
#[derive(Debug, PartialEq, Eq)]
pub struct BulkActionResponse {
    pub id: String,
    pub status: u16,
    pub result: Option<String>,
}

/// The answer to one action of a bulk request, under the kind of the action.
#[derive(Debug, PartialEq, Eq)]
pub struct BulkResponseItem {
    pub index: Option<BulkActionResponse>,
    pub update: Option<BulkActionResponse>,
    pub delete: Option<BulkActionResponse>,
}

/// The answer to a bulk request.
#[derive(Debug, PartialEq, Eq)]
pub struct BulkResponse {
    pub errors: bool,
    pub items: Vec<BulkResponseItem>,
}

/// The identifiers of the documents of a bulk request, by success and failure.
#[derive(Debug, PartialEq, Eq)]
pub struct BulkResult {
    pub successes: Vec<String>,
    pub failures: Vec<String>,
}

/// The first answer an item holds, looked for under `index`, `update` and
/// `delete`, in this order.
pub open spec fn first_answer(item: BulkResponseItem) -> Option<BulkActionResponse> {
    if item.index is Some {
        item.index
    } else if item.update is Some {
        item.update
    } else {
        item.delete
    }
}

/// An action has succeeded where its status is below 300.
pub open spec fn succeeded(item: BulkResponseItem) -> bool {
    first_answer(item) matches Some(answer) && answer.status < 300
}

/// The identifiers of those of the first `n` items that hold an answer and
/// whose success is `wanted`, in the order of the items.
pub open spec fn identifiers(items: Seq<BulkResponseItem>, wanted: bool, n: nat) -> Seq<Seq<char>>
    decreases n,
{
    if n == 0 || n > items.len() {
        Seq::empty()
    } else {
        let before = identifiers(items, wanted, (n - 1) as nat);
        match first_answer(items[n - 1]) {
            Some(answer) => if (answer.status < 300) == wanted {
                before.push(answer.id@)
            } else {
                before
            },
            None => before,
        }
    }
}

impl BulkResponseItem {
    /// The answer the item holds: the first of `index`, `update` and `delete` that is there.
    pub fn action_response(&self) -> (answer: Option<&BulkActionResponse>)
        ensures
            match answer {
                Some(found) => first_answer(*self) == Some(*found),
                None => first_answer(*self).is_none(),
            },
    {
        match &self.index {
            Some(answer) => Some(answer),
            None => match &self.update {
                Some(answer) => Some(answer),
                None => match &self.delete {
                    Some(answer) => Some(answer),
                    None => None,
                },
            },
        }
    }

    /// Whether the item holds an answer with a status below 300.
    pub fn is_success(&self) -> (yes: bool)
        ensures
            yes == succeeded(*self),
    {
        match self.action_response() {
            Some(answer) => answer.status < 300,
            None => false,
        }
    }
}

impl BulkResult {
    /// Sorts the identifiers of a bulk answer into successes and failures, each
    /// in the order of the answer. An item without an answer counts as neither.
    pub fn from_response(response: BulkResponse) -> (result: BulkResult)
        ensures
            strings_view(&result.successes) == identifiers(
                response.items@,
                true,
                response.items@.len(),
            ),
            strings_view(&result.failures) == identifiers(
                response.items@,
                false,
                response.items@.len(),
            ),
    {
        let mut successes: Vec<String> = Vec::new();
        let mut failures: Vec<String> = Vec::new();
        assert(strings_view(&successes) =~= Seq::empty());
        assert(strings_view(&failures) =~= Seq::empty());
        let mut i: usize = 0;
        while i < response.items.len()
            invariant
                i <= response.items.len(),
                strings_view(&successes) == identifiers(response.items@, true, i as nat),
                strings_view(&failures) == identifiers(response.items@, false, i as nat),
            decreases response.items.len() - i,
        {
            let ghost held_successes = strings_view(&successes);
            let ghost held_failures = strings_view(&failures);
            match response.items[i].action_response() {
                Some(answer) => {
                    if answer.status < 300 {
                        successes.push(answer.id.clone());
                        assert(strings_view(&successes) =~= held_successes.push(answer.id@));
                    } else {
                        failures.push(answer.id.clone());
                        assert(strings_view(&failures) =~= held_failures.push(answer.id@));
                    }
                },
                None => {},
            }
            i += 1;
        }
        BulkResult { successes, failures }
    }
}

impl Default for BulkResult {
    fn default() -> (result: BulkResult)
        ensures
            result.successes@.len() == 0,
            result.failures@.len() == 0,
    {
        BulkResult { successes: Vec::new(), failures: Vec::new() }
    }
}

/// One action of a bulk request, on the document with the given identifier.
#[derive(Debug, PartialEq, Eq)]
pub enum BulkAction<T> {
    Index(String, T),
    Upsert(String, T),
    Delete(String),
}

/// The line that announces an action of the kind `kind` on the document `id`.
pub open spec fn action_line(kind: Seq<char>, id: Seq<char>) -> JsonView {
    JsonView::Object(
        seq![
            (
                kind,
                JsonView::Object(
                    seq![("_id"@, JsonView::Str(id)), ("_type"@, JsonView::Str("_doc"@))],
                ),
            ),
        ],
    )
}

/// The text of an action in a bulk request. Each line ends with a line feed. To
/// index: the line that announces it, then the document. To upsert: the line
/// that announces an update, then the document wrapped as `doc`, with
/// `doc_as_upsert` set. To delete: the line that announces it.
pub open spec fn bulk_text(action: BulkAction<Json>) -> Seq<char> {
    match action {
        BulkAction::Index(id, doc) => json_text(action_line("index"@, id@)) + "\n"@ + json_text(
            doc@,
        ) + "\n"@,
        BulkAction::Upsert(id, doc) => json_text(action_line("update"@, id@)) + "\n{\"doc\":"@
            + json_text(doc@) + ",\"doc_as_upsert\":true}\n"@,
        BulkAction::Delete(id) => json_text(action_line("delete"@, id@)) + "\n"@,
    }
}

/// The line that announces an action.
fn action_line_text(kind: &str, id: &str) -> (text: String)
    ensures
        text@ == json_text(action_line(kind@, id@)),
{
    let mut inner: Vec<(String, Json)> = Vec::new();
    assert(all_members(&inner) =~= Seq::empty());
    push_member(&mut inner, "_id", Json::Str(String::from_str(id)));
    push_member(&mut inner, "_type", Json::Str(String::from_str("_doc")));
    assert(all_members(&inner) =~= seq![
        ("_id"@, JsonView::Str(id@)),
        ("_type"@, JsonView::Str("_doc"@)),
    ]);
    single_member(kind, Json::Object(inner)).to_text()
}

impl<T> BulkAction<T> {
    /// The action that stores `doc` under `id`.
    pub fn index(id: String, doc: T) -> (action: BulkAction<T>)
        ensures
            action == BulkAction::Index(id, doc),
    {
        BulkAction::Index(id, doc)
    }

    /// The action that updates the document `id` with `doc`, or stores `doc`
    /// where there is no such document.
    pub fn upsert(id: String, doc: T) -> (action: BulkAction<T>)
        ensures
            action == BulkAction::Upsert(id, doc),
    {
        BulkAction::Upsert(id, doc)
    }
}

impl BulkAction<Json> {
    /// The bytes of the action in a bulk request.
    pub fn to_bytes(&self) -> (bytes: BusinessResult<Vec<u8>>)
        ensures
            bytes is Ok,
            bytes.unwrap()@ == encode_utf8(bulk_text(*self)),
    {
        let text = match self {
            BulkAction::Index(id, doc) => {
                let doc_text = doc.to_text();
                action_line_text("index", id.as_str()).concat("\n").concat(
                    doc_text.as_str(),
                ).concat("\n")
            },
            BulkAction::Upsert(id, doc) => {
                let doc_text = doc.to_text();
                action_line_text("update", id.as_str()).concat("\n{\"doc\":").concat(
                    doc_text.as_str(),
                ).concat(",\"doc_as_upsert\":true}\n")
            },
            BulkAction::Delete(id) => action_line_text("delete", id.as_str()).concat("\n"),
        };
        Ok(text.as_str().as_bytes_vec())
    }
}

/// The actions of one bulk request.
pub struct BulkActions(pub Vec<BulkAction<Json>>);

/// The bytes of the first `n` actions, one after the other.
pub open spec fn bulk_bytes(actions: Seq<BulkAction<Json>>, n: nat) -> Seq<u8>
    decreases n,
{
    if n == 0 || n > actions.len() {
        Seq::empty()
    } else {
        bulk_bytes(actions, (n - 1) as nat) + encode_utf8(bulk_text(actions[n - 1]))
    }
}

/// The request with bulk actions as its payload: their lines as the body, and a
/// `Content-Type` that says so.
pub open spec fn with_bulk(request: ClientRequestView, actions: Seq<BulkAction<Json>>) -> ClientRequestView {
    request.with_header("Content-Type"@, "application/x-ndjson"@).with_body(
        bulk_bytes(actions, actions.len()),
    )
}

impl IntoClientRequest for BulkActions {
    fn apply_body(self, request: ClientRequest) -> (with_body: ClientRequest)
        ensures
            with_body@ == with_bulk(request@, self.0@),
    {
        let mut body: Vec<u8> = Vec::new();
        let mut i: usize = 0;
        while i < self.0.len()
            invariant
                i <= self.0.len(),
                body@ == bulk_bytes(self.0@, i as nat),
            decreases self.0.len() - i,
        {
            match self.0[i].to_bytes() {
                Ok(mut bytes) => {
                    let ghost before = body@;
                    let ghost added = bytes@;
                    body.append(&mut bytes);
                    assert(body@ =~= before + added);
                },
                Err(_) => {
                    assert(false);
                },
            }
            i += 1;
        }
        request.header("Content-Type", "application/x-ndjson").body(body)
    }
}

/// Builds the URLs of one index of a search engine.
pub struct ElasticsearchUrlBuilder {
    elasticsearch_base_url: String,
    index_name: String,
}

/// The URL of an index.
pub open spec fn index_url(base: Seq<char>, index_name: Seq<char>) -> Seq<char> {
    base + "/"@ + index_name
}

/// The URL of the document `id` of an index, with `id` encoded as a component.
pub open spec fn doc_url(base: Seq<char>, index_name: Seq<char>, id: Seq<char>) -> Seq<char> {
    index_url(base, index_name) + "/_doc/"@ + url_encoded(encode_utf8(id))
}

impl ElasticsearchUrlBuilder {
    pub closed spec fn base(&self) -> Seq<char> {
        self.elasticsearch_base_url@
    }

    pub closed spec fn index_name(&self) -> Seq<char> {
        self.index_name@
    }

    pub fn new(elasticsearch_base_url: String, index_name: String) -> (builder:
        ElasticsearchUrlBuilder)
        ensures
            builder.base() == elasticsearch_base_url@,
            builder.index_name() == index_name@,
    {
        ElasticsearchUrlBuilder { elasticsearch_base_url, index_name }
    }

    pub fn index(&self) -> (url: String)
        ensures
            url@ == index_url(self.base(), self.index_name()),
    {
        self.elasticsearch_base_url.clone().concat("/").concat(self.index_name.as_str())
    }

    pub fn mapping(&self) -> (url: String)
        ensures
            url@ == index_url(self.base(), self.index_name()) + "/_mapping/_doc"@,
    {
        self.index().concat("/_mapping/_doc")
    }

    pub fn search(&self) -> (url: String)
        ensures
            url@ == index_url(self.base(), self.index_name()) + "/_search"@,
    {
        self.index().concat("/_search")
    }

    pub fn mget(&self) -> (url: String)
        ensures
            url@ == index_url(self.base(), self.index_name()) + "/_doc/_mget"@,
    {
        self.index().concat("/_doc/_mget")
    }

    fn doc(&self, id: &str) -> (url: String)
        ensures
            url@ == doc_url(self.base(), self.index_name(), id@),
    {
        let component = encode_url_component(id);
        self.index().concat("/_doc/").concat(component.as_str())
    }

    pub fn create(&self, id: String) -> (url: String)
        ensures
            url@ == doc_url(self.base(), self.index_name(), id@) + "/_create?refresh=true"@,
    {
        self.doc(id.as_str()).concat("/_create?refresh=true")
    }

    pub fn update(&self, id: String) -> (url: String)
        ensures
            url@ == doc_url(self.base(), self.index_name(), id@) + "/_update"@,
    {
        self.doc(id.as_str()).concat("/_update")
    }

    pub fn delete(&self, id: String) -> (url: String)
        ensures
            url@ == doc_url(self.base(), self.index_name(), id@) + "?refresh=wait_for"@,
    {
        self.doc(id.as_str()).concat("?refresh=wait_for")
    }

    pub fn delete_by_query(&self) -> (url: String)
        ensures
            url@ == index_url(self.base(), self.index_name()) + "/_delete_by_query"@,
    {
        self.index().concat("/_delete_by_query")
    }
}

/// The value a JSON document stands for: a boolean, an integer of 64 bits or a
/// string; `None` for any other document.
pub open spec fn decoded_value(j: JsonView) -> Option<ValueView> {
    match j {
        JsonView::Bool(b) => Some(ValueView::Bool(b)),
        JsonView::Str(s) => Some(ValueView::String(s)),
        _ => match as_signed(j) {
            Some(n) => Some(ValueView::Int(n)),
            None => None,
        },
    }
}

/// The direction a JSON document stands for: the string `asc` or `desc`.
pub open spec fn decoded_order(j: JsonView) -> Option<SortOrder> {
    if j == JsonView::Str("asc"@) {
        Some(SortOrder::Asc)
    } else if j == JsonView::Str("desc"@) {
        Some(SortOrder::Desc)
    } else {
        None
    }
}

/// The sort a JSON document stands for: an object with one member, whose name
/// is the field and whose value is the direction.
pub open spec fn decoded_sort(j: JsonView) -> Option<SortView> {
    match single_entry(j) {
        Some(entry) => match decoded_order(entry.1) {
            Some(order) => Some(SortView { field: entry.0, order }),
            None => None,
        },
        None => None,
    }
}

/// The field and the value a JSON document stands for: an object with one
/// member, whose name is the field.
pub open spec fn decoded_field_value(j: JsonView) -> Option<(Seq<char>, ValueView)> {
    match single_entry(j) {
        Some(entry) => match decoded_value(entry.1) {
            Some(value) => Some((entry.0, value)),
            None => None,
        },
        None => None,
    }
}

/// The minimum a JSON document stands for: none for `null`, and an integer of
/// 32 bits. The outer `None` says that the document is neither.
pub open spec fn decoded_minimum(j: JsonView) -> Option<Option<i32>> {
    match j {
        JsonView::Null => Some(None),
        _ => match as_signed(j) {
            Some(n) => if i32::MIN <= n <= i32::MAX {
                Some(Some(n as i32))
            } else {
                None
            },
            None => None,
        },
    }
}

/// The condition a JSON document stands for: an object with one member called
/// `bool`, `term` or `prefix`; `None` for any other document.
pub open spec fn decoded_query(j: JsonView) -> Option<QueryView>
    decreases j,
{
    match j {
        JsonView::Object(members) => if members.len() == 1 {
            if members[0].0 == "term"@ {
                match decoded_field_value(members[0].1) {
                    Some(pair) => Some(QueryView::Term(pair.0, pair.1)),
                    None => None,
                }
            } else if members[0].0 == "prefix"@ {
                match decoded_field_value(members[0].1) {
                    Some(pair) => Some(QueryView::Prefix(pair.0, pair.1)),
                    None => None,
                }
            } else if members[0].0 == "bool"@ {
                match members[0].1 {
                    JsonView::Object(parts) => match (
                        decoded_list(parts, "must"@),
                        decoded_list(parts, "filter"@),
                        decoded_list(parts, "must_not"@),
                        decoded_list(parts, "should"@),
                        if last_position(parts, "minimum_should_match"@) < 0 {
                            Some(None)
                        } else {
                            decoded_minimum(
                                parts[last_position(parts, "minimum_should_match"@)].1,
                            )
                        },
                    ) {
                        (
                            Some(must),
                            Some(filter),
                            Some(must_not),
                            Some(should),
                            Some(minimum_should_match),
                        ) => Some(
                            QueryView::Bool(
                                BoolQueryView {
                                    must,
                                    filter,
                                    must_not,
                                    should,
                                    minimum_should_match,
                                },
                            ),
                        ),
                        _ => None,
                    },
                    _ => None,
                }
            } else {
                None
            }
        } else {
            None
        },
        _ => None,
    }
}

/// The list of conditions under the name `name` of a combination: empty where
/// there is no such member, and `None` where the member is no array of conditions.
pub open spec fn decoded_list(parts: Seq<(Seq<char>, JsonView)>, name: Seq<char>) -> Option<
    Seq<QueryView>,
>
    decreases parts,
{
    let at = last_position(parts, name);
    if 0 <= at < parts.len() {
        match parts[at].1 {
            JsonView::Array(items) => decoded_queries(items, items.len()),
            _ => None,
        }
    } else {
        Some(Seq::empty())
    }
}

/// The conditions the first `n` of `items` stand for; `None` where one of them
/// stands for none.
pub open spec fn decoded_queries(items: Seq<JsonView>, n: nat) -> Option<Seq<QueryView>>
    decreases items, n,
{
    if n == 0 || n > items.len() {
        Some(Seq::empty())
    } else {
        match (decoded_queries(items, (n - 1) as nat), decoded_query(items[n - 1])) {
            (Some(before), Some(query)) => Some(before.push(query)),
            _ => None,
        }
    }
}

/// The sorts the first `n` of `items` stand for; `None` where one of them
/// stands for none.
pub open spec fn decoded_sorts(items: Seq<JsonView>, n: nat) -> Option<Seq<SortView>>
    decreases n,
{
    if n == 0 || n > items.len() {
        Some(Seq::empty())
    } else {
        match (decoded_sorts(items, (n - 1) as nat), decoded_sort(items[n - 1])) {
            (Some(before), Some(sort)) => Some(before.push(sort)),
            _ => None,
        }
    }
}

/// A number that may be missing: none where the member is missing or `null`.
/// The outer `None` says that the member is something else.
pub open spec fn decoded_count(j: JsonView, name: Seq<char>) -> Option<Option<u64>> {
    match field(j, name) {
        None => Some(None),
        Some(JsonView::Null) => Some(None),
        Some(found) => match as_unsigned(found) {
            Some(n) => Some(Some(n)),
            None => None,
        },
    }
}

/// The request a JSON document stands for: an object in which `sort`, where it
/// is there, is an array of sorts, `query`, where it is there and not `null`, is
/// a condition, and `from` and `size`, where they are, are numbers.
pub open spec fn decoded_request(j: JsonView) -> Option<QueryRequestView> {
    if !(j is Object) {
        None
    } else {
        match (
            match field(j, "sort"@) {
                None => Some(Seq::empty()),
                Some(JsonView::Array(items)) => decoded_sorts(items, items.len()),
                Some(_) => None,
            },
            match field(j, "query"@) {
                None => Some(None),
                Some(JsonView::Null) => Some(None),
                Some(found) => match decoded_query(found) {
                    Some(query) => Some(Some(query)),
                    None => None,
                },
            },
            decoded_count(j, "from"@),
            decoded_count(j, "size"@),
        ) {
            (Some(sort), Some(query), Some(from), Some(size)) => Some(
                QueryRequestView { sort, query, from, size },
            ),
            _ => None,
        }
    }
}

impl Value {
    /// Reads a value from its JSON form.
    pub fn from_json(j: &Json) -> (r: BusinessResult<Value>)
        ensures
            match decoded_value(j@) {
                Some(value) => r matches Ok(read) && read@ == value,
                None => r matches Err(problem) && problem@ == json_problem("not a value"@),
            },
    {
        match j {
            Json::Bool(b) => Ok(Value::Bool(*b)),
            Json::Str(s) => Ok(Value::String(s.clone())),
            _ => match j.as_i64() {
                Some(n) => Ok(Value::Int(n)),
                None => Err(Problem::invalid_json("not a value")),
            },
        }
    }
}

impl Sort {
    /// Reads a sort from its JSON form.
    pub fn from_json(j: &Json) -> (r: BusinessResult<Sort>)
        ensures
            match decoded_sort(j@) {
                Some(sort) => r matches Ok(read) && read@ == sort,
                None => r matches Err(problem) && problem@ == json_problem("not a sort"@),
            },
    {
        match deserialize(j) {
            Ok((field, order)) => {
                match order.as_str() {
                    Some(word) => {
                        if same_text(word, "asc") {
                            return Ok(Sort::new(field, SortOrder::Asc));
                        } else if same_text(word, "desc") {
                            return Ok(Sort::new(field, SortOrder::Desc));
                        }
                    },
                    None => {},
                }
            },
            Err(_) => {},
        }
        Err(Problem::invalid_json("not a sort"))
    }
}

/// Reads a field and a value from an object with one member.
fn field_value_from_json(j: &Json) -> (r: Option<(String, Value)>)
    ensures
        match decoded_field_value(j@) {
            Some(pair) => r matches Some(read) && read.0@ == pair.0 && read.1@ == pair.1,
            None => r.is_none(),
        },
{
    match deserialize(j) {
        Ok((field, value)) => match Value::from_json(value) {
            Ok(value) => Some((String::from_str(field), value)),
            Err(_) => None,
        },
        Err(_) => None,
    }
}

/// Reads the list of conditions under the name `name` of a combination.
fn list_from_json(combination: &Json, name: &str) -> (r: Option<Vec<Query>>)
    requires
        combination@ is Object,
    ensures
        match decoded_list(combination@->Object_0, name@) {
            Some(queries) => r matches Some(read) && all_queries(&read) == queries,
            None => r.is_none(),
        },
    decreases combination, 0nat,
{
    proof {
        lemma_last_position(combination@->Object_0, name@);
    }
    match combination.get(name) {
        None => {
            let queries: Vec<Query> = Vec::new();
            assert(all_queries(&queries) =~= Seq::empty());
            Some(queries)
        },
        Some(found) => match found.as_array() {
            None => None,
            Some(items) => {
                let ghost views = all_items(items);
                proof {
                    lemma_items_view(items@, items@.len());
                }
                let mut queries: Vec<Query> = Vec::new();
                assert(all_queries(&queries) =~= Seq::empty());
                let mut i: usize = 0;
                assert(decoded_list(combination@->Object_0, name@) == decoded_queries(
                    views,
                    views.len(),
                ));
                while i < items.len()
                    invariant
                        i <= items.len(),
                        decreases_to!(combination => items),
                        decoded_list(combination@->Object_0, name@) == decoded_queries(
                            views,
                            views.len(),
                        ),
                        views == all_items(items),
                        views.len() == items@.len(),
                        forall|k: int| 0 <= k < items@.len() ==> #[trigger] views[k] == items@[k]@,
                        decoded_queries(views, i as nat) == Some(all_queries(&queries)),
                    decreases items.len() - i,
                {
                    assert(decreases_to!(*items => items[i as int]));
                    match Query::from_json(&items[i]) {
                        Ok(query) => {
                            let ghost held = all_queries(&queries);
                            let ghost before = queries@;
                            let ghost added = query@;
                            queries.push(query);
                            proof {
                                lemma_queries_view(before, before.len());
                                lemma_queries_view(queries@, queries@.len());
                                assert forall|k: int| 0 <= k < before.len() implies queries@[k]
                                    == before[k] by {}
                                assert(all_queries(&queries) =~= held.push(added));
                            }
                        },
                        Err(_) => {
                            proof {
                                lemma_list_stays_undecoded(views, (i + 1) as nat, views.len());
                            }
                            return None;
                        },
                    }
                    i += 1;
                }
                Some(queries)
            },
        },
    }
}

/// Once one of the items stands for no condition, the list stands for none.
pub proof fn lemma_list_stays_undecoded(items: Seq<JsonView>, n: nat, m: nat)
    requires
        n <= m <= items.len(),
        decoded_queries(items, n).is_none(),
    ensures
        decoded_queries(items, m).is_none(),
    decreases m - n,
{
    if n < m {
        lemma_list_stays_undecoded(items, n, (m - 1) as nat);
    }
}

/// Once one of the items stands for no sort, the list stands for none.
pub proof fn lemma_sorts_stay_undecoded(items: Seq<JsonView>, n: nat, m: nat)
    requires
        n <= m <= items.len(),
        decoded_sorts(items, n).is_none(),
    ensures
        decoded_sorts(items, m).is_none(),
    decreases m - n,
{
    if n < m {
        lemma_sorts_stay_undecoded(items, n, (m - 1) as nat);
    }
}

impl Query {
    /// Reads a condition from its JSON form.
    pub fn from_json(j: &Json) -> (r: BusinessResult<Query>)
        ensures
            match decoded_query(j@) {
                Some(query) => r matches Ok(read) && read@ == query,
                None => r matches Err(problem) && problem@ == json_problem("not a query"@),
            },
        decreases j, 1nat,
    {
        match deserialize(j) {
            Ok((kind, inner)) => {
                if same_text(kind, "term") {
                    match field_value_from_json(inner) {
                        Some((field, value)) => {
                            return Ok(Query::Term(field, value));
                        },
                        None => {},
                    }
                } else if same_text(kind, "prefix") {
                    match field_value_from_json(inner) {
                        Some((field, value)) => {
                            return Ok(Query::Prefix(field, value));
                        },
                        None => {},
                    }
                } else if same_text(kind, "bool") {
                    match inner {
                        Json::Object(_) => {
                            proof {
                                lemma_last_position(inner@->Object_0, "minimum_should_match"@);
                            }
                            let minimum = match inner.get("minimum_should_match") {
                                None => Some(None),
                                Some(Json::Null) => Some(None),
                                Some(found) => match found.as_i64() {
                                    Some(n) => if -2147483648 <= n && n <= 2147483647 {
                                        Some(Some(n as i32))
                                    } else {
                                        None
                                    },
                                    None => None,
                                },
                            };
                            match (
                                list_from_json(inner, "must"),
                                list_from_json(inner, "filter"),
                                list_from_json(inner, "must_not"),
                                list_from_json(inner, "should"),
                                minimum,
                            ) {
                                (
                                    Some(must),
                                    Some(filter),
                                    Some(must_not),
                                    Some(should),
                                    Some(minimum_should_match),
                                ) => {
                                    return Ok(
                                        Query::Bool(
                                            BoolQuery {
                                                must,
                                                filter,
                                                must_not,
                                                should,
                                                minimum_should_match,
                                            },
                                        ),
                                    );
                                },
                                _ => {},
                            }
                        },
                        _ => {},
                    }
                }
            },
            Err(_) => {},
        }
        Err(Problem::invalid_json("not a query"))
    }
}

impl QueryRequest {
    /// Reads a request from its JSON form.
    pub fn from_json(j: &Json) -> (r: BusinessResult<QueryRequest>)
        ensures
            match decoded_request(j@) {
                Some(request) => r matches Ok(read) && read@ == request,
                None => r matches Err(problem) && problem@ == json_problem(
                    "not a search request"@,
                ),
            },
    {
        match j {
            Json::Object(_) => {},
            _ => {
                return Err(Problem::invalid_json("not a search request"));
            },
        }
        let sort = match j.get("sort") {
            None => {
                let sorts: Vec<Sort> = Vec::new();
                assert(all_sorts(&sorts) =~= Seq::empty());
                Some(sorts)
            },
            Some(found) => match found.as_array() {
                None => None,
                Some(items) => sorts_from_json(items),
            },
        };
        let query = match j.get("query") {
            None => Some(None),
            Some(Json::Null) => Some(None),
            Some(found) => match Query::from_json(found) {
                Ok(query) => Some(Some(query)),
                Err(_) => None,
            },
        };
        let from = count_from_json(j, "from");
        let size = count_from_json(j, "size");
        match (sort, query, from, size) {
            (Some(sort), Some(query), Some(from), Some(size)) => Ok(
                QueryRequest { sort, query, from, size },
            ),
            _ => Err(Problem::invalid_json("not a search request")),
        }
    }
}

/// Reads a list of sorts.
fn sorts_from_json(items: &Vec<Json>) -> (r: Option<Vec<Sort>>)
    ensures
        match decoded_sorts(all_items(items), all_items(items).len()) {
            Some(sorts) => r matches Some(read) && all_sorts(&read) == sorts,
            None => r.is_none(),
        },
{
    let ghost views = all_items(items);
    proof {
        lemma_items_view(items@, items@.len());
    }
    let mut sorts: Vec<Sort> = Vec::new();
    assert(all_sorts(&sorts) =~= Seq::empty());
    let mut i: usize = 0;
    while i < items.len()
        invariant
            i <= items.len(),
            views == all_items(items),
            views.len() == items@.len(),
            forall|k: int| 0 <= k < items@.len() ==> #[trigger] views[k] == items@[k]@,
            decoded_sorts(views, i as nat) == Some(all_sorts(&sorts)),
        decreases items.len() - i,
    {
        match Sort::from_json(&items[i]) {
            Ok(sort) => {
                let ghost held = all_sorts(&sorts);
                let ghost added = sort@;
                sorts.push(sort);
                assert(all_sorts(&sorts) =~= held.push(added));
            },
            Err(_) => {
                proof {
                    lemma_sorts_stay_undecoded(views, (i + 1) as nat, views.len());
                }
                return None;
            },
        }
        i += 1;
    }
    Some(sorts)
}

/// Reads a number that may be missing.
fn count_from_json(j: &Json, name: &str) -> (r: Option<Option<u64>>)
    ensures
        r == decoded_count(j@, name@),
{
    match j.get(name) {
        None => Some(None),
        Some(Json::Null) => Some(None),
        Some(found) => match found.as_u64() {
            Some(n) => Some(Some(n)),
            None => None,
        },
    }
}

/// The JSON forms of the first `n` conditions are `n` documents, each the form of
/// the condition in its place.
pub proof fn lemma_queries_json(queries: Seq<QueryView>, n: nat)
    requires
        n <= queries.len(),
    ensures
        queries_json(queries, n).len() == n,
        forall|i: int| 0 <= i < n ==> #[trigger] queries_json(queries, n)[i] == query_json(queries[i]),
    decreases n,
{
    if n > 0 {
        lemma_queries_json(queries, (n - 1) as nat);
        assert(queries_json(queries, n) == queries_json(queries, (n - 1) as nat).push(
            query_json(queries[n - 1]),
        ));
    } else {
        assert(queries_json(queries, n) == Seq::<JsonView>::empty());
    }
}

/// A value that is written as JSON and read back is the value again.
pub proof fn lemma_value_round_trip(value: ValueView)
    ensures
        decoded_value(value_json(value)) == Some(value),
{
}

/// A condition that is written as JSON and read back is the condition again.
pub proof fn lemma_query_round_trip(query: QueryView)
    ensures
        decoded_query(query_json(query)) == Some(query),
    decreases query,
{
    reveal_strlit("term");
    reveal_strlit("prefix");
    reveal_strlit("bool");
    assert("term"@.len() == 4 && "prefix"@.len() == 6 && "bool"@.len() == 4);
    assert("term"@[0] != "bool"@[0]);
    match query {
        QueryView::Term(field, value) => {
            lemma_value_round_trip(value);
        },
        QueryView::Prefix(field, value) => {
            lemma_value_round_trip(value);
        },
        QueryView::Bool(b) => {
            let parts = query_json(query)->Object_0[0].1->Object_0;
            reveal_strlit("must");
            reveal_strlit("filter");
            reveal_strlit("must_not");
            reveal_strlit("should");
            reveal_strlit("minimum_should_match");
            assert("must"@.len() == 4 && "filter"@.len() == 6 && "must_not"@.len() == 8);
            assert("should"@.len() == 6 && "minimum_should_match"@.len() == 20);
            assert("filter"@[0] != "should"@[0]);
            let upto4 = parts.drop_last();
            let upto3 = upto4.drop_last();
            let upto2 = upto3.drop_last();
            let upto1 = upto2.drop_last();
            assert(parts.last() == parts[4]);
            assert(upto4.last() == parts[3]);
            assert(upto3.last() == parts[2]);
            assert(upto2.last() == parts[1]);
            assert(upto1.last() == parts[0]);
            reveal_with_fuel(last_position, 6);
            assert(last_position(parts, "must"@) == 0);
            assert(last_position(parts, "filter"@) == 1);
            assert(last_position(parts, "must_not"@) == 2);
            assert(last_position(parts, "should"@) == 3);
            assert(last_position(parts, "minimum_should_match"@) == 4);
            lemma_queries_round_trip(b.must, b.must.len());
            lemma_queries_round_trip(b.filter, b.filter.len());
            lemma_queries_round_trip(b.must_not, b.must_not.len());
            lemma_queries_round_trip(b.should, b.should.len());
            lemma_queries_json(b.must, b.must.len());
            lemma_queries_json(b.filter, b.filter.len());
            lemma_queries_json(b.must_not, b.must_not.len());
            lemma_queries_json(b.should, b.should.len());
            assert(b.must.take(b.must.len() as int) =~= b.must);
            assert(b.filter.take(b.filter.len() as int) =~= b.filter);
            assert(b.must_not.take(b.must_not.len() as int) =~= b.must_not);
            assert(b.should.take(b.should.len() as int) =~= b.should);
        },
    }
}

/// Conditions that are written as JSON and read back are the conditions again.
pub proof fn lemma_queries_round_trip(queries: Seq<QueryView>, n: nat)
    requires
        n <= queries.len(),
    ensures
        decoded_queries(queries_json(queries, queries.len()), n) == Some(queries.take(n as int)),
    decreases queries, n,
{
    lemma_queries_json(queries, queries.len());
    if n > 0 {
        lemma_queries_round_trip(queries, (n - 1) as nat);
        lemma_query_round_trip(queries[n - 1]);
        assert(queries.take(n as int) =~= queries.take(n - 1).push(queries[n - 1]));
    } else {
        assert(queries.take(0) =~= Seq::<QueryView>::empty());
    }
}

/// A sort that is written as JSON and read back is the sort again.
pub proof fn lemma_sort_round_trip(sort: SortView)
    ensures
        decoded_sort(sort_json(sort)) == Some(sort),
{
    reveal_strlit("asc");
    reveal_strlit("desc");
    assert("asc"@.len() == 3 && "desc"@.len() == 4);
}

/// Sorts that are written as JSON and read back are the sorts again.
pub proof fn lemma_sorts_round_trip(sorts: Seq<SortView>, n: nat)
    requires
        n <= sorts.len(),
    ensures
        decoded_sorts(Seq::new(sorts.len(), |i: int| sort_json(sorts[i])), n) == Some(
            sorts.take(n as int),
        ),
    decreases n,
{
    if n > 0 {
        lemma_sorts_round_trip(sorts, (n - 1) as nat);
        lemma_sort_round_trip(sorts[n - 1]);
        assert(sorts.take(n as int) =~= sorts.take(n - 1).push(sorts[n - 1]));
    } else {
        assert(sorts.take(0) =~= Seq::<SortView>::empty());
    }
}

/// A request that is written as JSON and read back is the request again.
pub proof fn lemma_request_round_trip(request: QueryRequestView)
    ensures
        decoded_request(request_json(request)) == Some(request),
{
    reveal_strlit("sort");
    reveal_strlit("query");
    reveal_strlit("from");
    reveal_strlit("size");
    assert("sort"@.len() == 4 && "query"@.len() == 5 && "from"@.len() == 4 && "size"@.len() == 4);
    assert("sort"@[1] != "from"@[1]);
    assert("sort"@[1] != "size"@[1]);
    assert("from"@[0] != "size"@[0]);
    let sorts = Seq::new(request.sort.len(), |i: int| sort_json(request.sort[i]));
    let a: Seq<(Seq<char>, JsonView)> = if request.sort.len() > 0 {
        seq![("sort"@, JsonView::Array(sorts))]
    } else {
        Seq::empty()
    };
    let b: Seq<(Seq<char>, JsonView)> = match request.query {
        Some(query) => seq![("query"@, query_json(query))],
        None => Seq::empty(),
    };
    let c = number_member("from"@, request.from);
    let d = number_member("size"@, request.size);
    let members = a + b + c + d;
    assert(request_json(request) == JsonView::Object(members));
    reveal_with_fuel(member_named, 3);
    assert forall|name: Seq<char>|
        #![trigger member_named(members, name)]
        member_named(members, name) == match member_named(d, name) {
            Some(value) => Some(value),
            None => match member_named(c, name) {
                Some(value) => Some(value),
                None => match member_named(b, name) {
                    Some(value) => Some(value),
                    None => member_named(a, name),
                },
            },
        } by {
        lemma_member_named_concat(a + b + c, d, name);
        lemma_member_named_concat(a + b, c, name);
        lemma_member_named_concat(a, b, name);
    }
    assert(a.len() > 0 ==> a.last() == a[0] && a.drop_last().len() == 0);
    assert(b.len() > 0 ==> b.last() == b[0] && b.drop_last().len() == 0);
    assert(c.len() > 0 ==> c.last() == c[0] && c.drop_last().len() == 0);
    assert(d.len() > 0 ==> d.last() == d[0] && d.drop_last().len() == 0);
    lemma_sorts_round_trip(request.sort, request.sort.len());
    assert(request.sort.take(request.sort.len() as int) =~= request.sort);
    if request.sort.len() == 0 {
        assert(request.sort =~= Seq::<SortView>::empty());
    }
    match request.query {
        Some(query) => {
            lemma_query_round_trip(query);
            assert(!(query_json(query) is Null));
        },
        None => {},
    }
}

} // verus!
