//! REST API extraction: the request to make for each page, where the
//! records sit in a response, and when pagination stops.

use vstd::prelude::*;
use crate::config::source::{PaginationConfig, PaginationType, RestApiOptions, SourceConfig};
use crate::data::json::entry_lookup;
use crate::data::record::{Record, Value, ValueModel};
use crate::data::table::{Table, table_map};
use crate::data::text::{append, decimal, owned, usize_text};
use crate::error::types::{ConfigError, ExtractError, is_validation, validation};
use crate::http::{status_display, status_text};

verus! {

/// The Unicode upper case of a text, as `str::to_uppercase` gives it.
pub uninterp spec fn uppercase(s: Seq<char>) -> Seq<char>;

/// Upper-cases a text with `str::to_uppercase`.
#[verifier::external_body]
fn to_upper(s: &str) -> (r: String)
    ensures
        r@ == uppercase(s@),
{
    s.to_uppercase()
}

/// The error is an API request error with message `msg`.
pub open spec fn is_api_error(e: ExtractError, msg: Seq<char>) -> bool {
    e matches ExtractError::ApiRequest(m) && m@ == msg
}

/// The parts of a path separated by dots, as `str::split('.')` gives them.
pub open spec fn split_dots(s: Seq<char>) -> Seq<Seq<char>>
    decreases s.len(),
{
    if s.len() == 0 {
        seq![Seq::<char>::empty()]
    } else if s.last() == '.' {
        split_dots(s.drop_last()).push(Seq::empty())
    } else {
        let p = split_dots(s.drop_last());
        p.update(p.len() - 1, p.last().push(s.last()))
    }
}

/// Follows path parts through nested objects; the message of the error
/// when a part is missing or the value is not an object.
pub open spec fn navigate(v: ValueModel, parts: Seq<Seq<char>>) -> Result<ValueModel, Seq<char>>
    decreases parts.len(),
{
    if parts.len() == 0 {
        Ok(v)
    } else {
        match v {
            ValueModel::Object(entries) => match entry_lookup(entries, parts[0]) {
                Some(x) => navigate(x, parts.drop_first()),
                None => Err("Path component '"@ + parts[0] + "' not found in response"@),
            },
            _ => Err("Cannot navigate path '"@ + parts[0] + "' - not an object"@),
        }
    }
}

/// The records array that a response holds at a dotted path (the response
/// itself for an empty path), or the message of the error.
pub open spec fn records_at(v: ValueModel, path: Seq<char>) -> Result<Seq<ValueModel>, Seq<char>> {
    if path.len() == 0 {
        match v {
            ValueModel::Array(items) => Ok(items),
            _ => Err("Response is not an array and no response_path specified"@),
        }
    } else {
        match navigate(v, split_dots(path)) {
            Ok(ValueModel::Array(items)) => Ok(items),
            Ok(_) => Err("Final path value is not an array"@),
            Err(m) => Err(m),
        }
    }
}

/// The cursor of the next page that a response holds at a dotted path: a
/// non-empty text or a number there; none when the path leads nowhere or
/// to anything else, which ends cursor pagination.
pub open spec fn next_cursor(v: ValueModel, path: Seq<char>) -> Option<Seq<char>> {
    match navigate(v, split_dots(path)) {
        Ok(ValueModel::Text(t)) => if t.len() > 0 {
            Some(t)
        } else {
            None
        },
        Ok(ValueModel::Number(n)) => Some(n),
        _ => None,
    }
}

/// The fields of an object's entries; a later entry wins.
pub open spec fn object_fields(entries: Seq<(Seq<char>, ValueModel)>) -> Map<Seq<char>, ValueModel>
    decreases entries.len(),
{
    if entries.len() == 0 {
        Map::empty()
    } else {
        object_fields(entries.drop_last()).insert(entries.last().0, entries.last().1)
    }
}

/// How the records of a page are marked: by their offset in the whole
/// result, or by their page number.
pub enum PageMark {
    Offset,
    Page,
}

impl PageMark {
    /// Marked by offset.
    pub fn is_offset(&self) -> (b: bool)
        ensures
            b == (*self is Offset),
    {
        match self {
            PageMark::Offset => true,
            PageMark::Page => false,
        }
    }
}

/// The metadata of a record of a page at `position` (the page's first
/// offset, or its number), at index `idx` in the page.
pub open spec fn page_meta(mark: Option<PageMark>, position: int, idx: int) -> Map<Seq<char>, Seq<char>> {
    match mark {
        Some(PageMark::Offset) => Map::empty().insert("source_offset"@, decimal((position + idx) as nat)),
        Some(PageMark::Page) => Map::empty().insert("source_page"@, decimal(position as nat)),
        None => Map::empty(),
    }
}

/// The records that the objects among a page's items become, in order:
/// their fields, and the page's metadata; items that are not objects are
/// left out.
pub open spec fn page_records(items: Seq<ValueModel>, mark: Option<PageMark>, position: int) -> Seq<
    (Map<Seq<char>, ValueModel>, Map<Seq<char>, Seq<char>>),
>
    decreases items.len(),
{
    if items.len() == 0 {
        Seq::empty()
    } else {
        let prev = page_records(items.drop_last(), mark, position);
        match items.last() {
            ValueModel::Object(entries) => prev.push(
                (object_fields(entries), page_meta(mark, position, items.len() - 1)),
            ),
            _ => prev,
        }
    }
}

/// The records match their description, one for one.
pub open spec fn records_match(
    records: Seq<Record>,
    spec: Seq<(Map<Seq<char>, ValueModel>, Map<Seq<char>, Seq<char>>)>,
) -> bool {
    records.len() == spec.len() && forall|i: int|
        0 <= i < records.len() ==> #[trigger] records[i]@ == spec[i].0 && records[i].meta() == spec[i].1
}

/// The records array of a response to a request without pagination: the
/// response itself, or the first of its `data`, `results` and `items`
/// fields that is an array.
pub open spec fn single_items(v: ValueModel) -> Result<Seq<ValueModel>, Seq<char>> {
    match v {
        ValueModel::Array(items) => Ok(items),
        ValueModel::Object(entries) => match (
            entry_lookup(entries, "data"@),
            entry_lookup(entries, "results"@),
            entry_lookup(entries, "items"@),
        ) {
            (Some(ValueModel::Array(a)), _, _) => Ok(a),
            (_, Some(ValueModel::Array(a)), _) => Ok(a),
            (_, _, Some(ValueModel::Array(a))) => Ok(a),
            _ => Err("Response is not an array and no pagination configured"@),
        },
        _ => Err("Response is not an object or array"@),
    }
}

/// The HTTP method of a request.
#[derive(Debug, Clone, Copy, PartialEq, Eq, Structural)]
pub enum HttpMethod {
    Get,
    Post,
}

/// A copy of values with the same content.
fn copy_values(items: &Vec<Value>) -> (r: Vec<Value>)
    ensures
        r@.len() == items@.len(),
        forall|i: int| 0 <= i < items@.len() ==> #[trigger] r@[i]@ == items@[i]@,
{
    let mut out: Vec<Value> = Vec::new();
    let mut i: usize = 0;
    while i < items.len()
        invariant
            i <= items@.len(),
            out@.len() == i,
            forall|j: int| 0 <= j < i ==> #[trigger] out@[j]@ == items@[j]@,
        decreases items@.len() - i,
    {
        out.push(items[i].clone());
        i = i + 1;
    }
    out
}

/// The parts of a path separated by dots.
fn split_path(path: &str) -> (r: Vec<String>)
    ensures
        r@.map_values(|s: String| s@) == split_dots(path@),
{
    let ghost text = path@;
    let mut parts: Vec<String> = Vec::new();
    let mut cur = String::new();
    for c in it: path.chars()
        invariant
            it.seq() == text,
            parts@.map_values(|s: String| s@).push(cur@) == split_dots(text.take(it.index() as int)),
    {
        let ghost k = it.index() as int;
        assert(text.take(k + 1).drop_last() =~= text.take(k));
        let ghost before = parts@.map_values(|s: String| s@).push(cur@);
        if c == '.' {
            let done = cur;
            parts.push(done);
            cur = String::new();
            assert(parts@.map_values(|s: String| s@).push(cur@) =~= before.push(Seq::empty()));
        } else {
            crate::data::text::push_char(&mut cur, c);
            assert(parts@.map_values(|s: String| s@).push(cur@) =~= before.update(
                before.len() - 1,
                before.last().push(c),
            ));
        }
    }
    assert(text.take(text.len() as int) =~= text);
    parts.push(cur);
    parts
}

/// The value at a dotted path through nested objects, if there is one.
fn find_path<'a>(json: &'a Value, path: &str) -> (r: Option<&'a Value>)
    ensures
        match navigate(json@, split_dots(path@)) {
            Ok(v) => r matches Some(x) && x@ == v,
            Err(_) => r is None,
        },
{
    let parts = split_path(path);
    let ghost part_views = parts@.map_values(|s: String| s@);
    let mut current: &Value = json;
    assert(part_views.skip(0) =~= part_views);
    let mut i: usize = 0;
    while i < parts.len()
        invariant
            i <= parts@.len(),
            part_views == parts@.map_values(|s: String| s@),
            part_views == split_dots(path@),
            navigate(json@, part_views) == navigate(current@, part_views.skip(i as int)),
        decreases parts@.len() - i,
    {
        let part = &parts[i];
        assert(part_views.skip(i as int).drop_first() =~= part_views.skip(i + 1));
        assert(part_views.skip(i as int)[0] == part@);
        match current {
            Value::Object(_) => {
                match current.get_field(part.as_str()) {
                    Some(next) => {
                        current = next;
                    },
                    None => {
                        return None;
                    },
                }
            },
            _ => {
                return None;
            },
        }
        i = i + 1;
    }
    assert(part_views.skip(parts@.len() as int).len() == 0);
    Some(current)
}

/// The cursor of the next page in a response.
fn cursor_in(json: &Value, path: &str) -> (r: Option<String>)
    ensures
        match r {
            Some(c) => next_cursor(json@, path@) == Some(c@),
            None => next_cursor(json@, path@) is None,
        },
{
    match find_path(json, path) {
        Some(Value::String(t)) => {
            if t.as_str().is_empty() {
                None
            } else {
                Some(t.clone())
            }
        },
        Some(Value::Number(n)) => Some(n.clone()),
        _ => None,
    }
}

/// Builds a record from an object's entries, with the given metadata.
fn object_record(entries: &Vec<(String, Value)>) -> (r: Record)
    ensures
        r@ == object_fields(Seq::new(entries@.len(), |i: int| (entries@[i].0@, entries@[i].1@))),
        r.meta() == Map::<Seq<char>, Seq<char>>::empty(),
{
    let ghost es = Seq::new(entries@.len(), |i: int| (entries@[i].0@, entries@[i].1@));
    let mut record = Record::new();
    let mut i: usize = 0;
    while i < entries.len()
        invariant
            i <= entries@.len(),
            es == Seq::new(entries@.len(), |i: int| (entries@[i].0@, entries@[i].1@)),
            record@ == object_fields(es.take(i as int)),
            record.meta() == Map::<Seq<char>, Seq<char>>::empty(),
        decreases entries@.len() - i,
    {
        assert(es.take(i + 1).drop_last() =~= es.take(i as int));
        record.insert_owned(entries[i].0.clone(), entries[i].1.clone());
        i = i + 1;
    }
    assert(es.take(entries@.len() as int) =~= es);
    record
}

/// The records of a page's items, marked with the page's metadata.
fn records_of_items(items: &Vec<Value>, mark: Option<PageMark>, position: usize) -> (r: Vec<Record>)
    requires
        mark matches Some(PageMark::Offset) ==> position + items@.len() <= usize::MAX,
    ensures
        records_match(r@, page_records(Seq::new(items@.len(), |i: int| items@[i]@), mark, position as int)),
{
    let ghost m = Seq::new(items@.len(), |i: int| items@[i]@);
    let mut out: Vec<Record> = Vec::new();
    let mut i: usize = 0;
    while i < items.len()
        invariant
            i <= items@.len(),
            m == Seq::new(items@.len(), |i: int| items@[i]@),
            mark matches Some(PageMark::Offset) ==> position + items@.len() <= usize::MAX,
            records_match(out@, page_records(m.take(i as int), mark, position as int)),
        decreases items@.len() - i,
    {
        assert(m.take(i + 1).drop_last() =~= m.take(i as int));
        let ghost before = out@;
        match &items[i] {
            Value::Object(entries) => {
                assert(m[i as int] == items@[i as int]@);
                assert(items@[i as int]@->Object_0 =~= Seq::new(
                    entries@.len(),
                    |j: int| (entries@[j].0@, entries@[j].1@),
                ));
                let mut record = object_record(entries);
                match mark {
                    Some(PageMark::Offset) => {
                        record.add_metadata("source_offset", usize_text(position + i));
                    },
                    Some(PageMark::Page) => {
                        record.add_metadata("source_page", usize_text(position));
                    },
                    None => {},
                }
                out.push(record);
                assert(forall|j: int| 0 <= j < before.len() ==> out@[j] == before[j]);
            },
            _ => {
                assert(m[i as int] == items@[i as int]@);
            },
        }
        i = i + 1;
    }
    assert(m.take(items@.len() as int) =~= m);
    out
}

/// REST API extractor: one request, or pages by offset, page number or
/// cursor.
/// Sending the requests is left to the caller.
pub struct RestApiExtractor {}

impl Default for RestApiExtractor {
    fn default() -> (r: Self)
        ensures
            r == (RestApiExtractor {}),
    {
        RestApiExtractor {}
    }
}

impl RestApiExtractor {
    /// Creates a new REST API extractor.
    pub fn new() -> (e: Self) {
        RestApiExtractor {}
    }

    /// Unique identifier for this extractor.
    pub fn name(&self) -> (r: &'static str)
        ensures
            r@ == "rest_api"@,
    {
        "rest_api"
    }

    /// The source types this extractor handles.
    pub fn supported_types(&self) -> (r: Vec<&'static str>)
        ensures
            r@.len() == 3,
            r@[0]@ == "rest_api"@,
            r@[1]@ == "api"@,
            r@[2]@ == "http"@,
    {
        let mut v: Vec<&'static str> = Vec::new();
        v.push("rest_api");
        v.push("api");
        v.push("http");
        v
    }

    /// Validates the source configuration: a REST API source with a URL,
    /// and with a response path when it is paginated.
    pub fn validate_config(&self, config: &SourceConfig) -> (r: Result<(), ConfigError>)
        ensures
            ({
                let o = config->rest_api;
                &&& config is RestApi && o.url@.len() == 0 ==> r is Err && is_validation(
                    r->Err_0,
                    "API URL cannot be empty"@,
                )
                &&& config is RestApi && o.url@.len() != 0 && (o.pagination matches Some(p)
                    && p.response_path@.len() == 0) ==> r is Err && is_validation(
                    r->Err_0,
                    "Pagination response_path cannot be empty"@,
                )
                &&& !(config is RestApi) ==> r is Err && is_validation(
                    r->Err_0,
                    "Invalid config type for REST API extractor"@,
                )
                &&& r is Ok <==> (config is RestApi && o.url@.len() != 0 && !(o.pagination matches Some(p)
                    && p.response_path@.len() == 0))
            }),
    {
        match config {
            SourceConfig::RestApi { rest_api } => {
                if rest_api.url.as_str().is_empty() {
                    return Err(validation("API URL cannot be empty"));
                }
                match &rest_api.pagination {
                    Some(pagination) => {
                        if pagination.response_path.as_str().is_empty() {
                            return Err(validation("Pagination response_path cannot be empty"));
                        }
                    },
                    None => {},
                }
                Ok(())
            },
            _ => Err(validation("Invalid config type for REST API extractor")),
        }
    }

    /// The REST API options of a source; an unsupported-type error for any
    /// other source.
    pub fn api_options<'a>(&self, config: &'a SourceConfig) -> (r: Result<&'a RestApiOptions, ExtractError>)
        ensures
            config is RestApi ==> (r matches Ok(o) && *o == *config->rest_api),
            !(config is RestApi) ==> (r matches Err(e) && e matches ExtractError::UnsupportedType(m) && m@
                == "REST API extractor requires REST API source config"@),
    {
        match config {
            SourceConfig::RestApi { rest_api } => Ok(&**rest_api),
            _ => Err(ExtractError::UnsupportedType(owned("REST API extractor requires REST API source config"))),
        }
    }

    /// The request's method: GET or POST, named in any case; any other is
    /// an error naming it in upper case.
    pub fn request_method(&self, options: &RestApiOptions) -> (r: Result<HttpMethod, ExtractError>)
        ensures
            uppercase(options.method@) == "GET"@ ==> r == Ok::<HttpMethod, ExtractError>(HttpMethod::Get),
            uppercase(options.method@) == "POST"@ ==> r == Ok::<HttpMethod, ExtractError>(HttpMethod::Post),
            uppercase(options.method@) != "GET"@ && uppercase(options.method@) != "POST"@ ==> (r matches Err(e)
                && is_api_error(e, "Unsupported HTTP method: "@ + uppercase(options.method@))),
    {
        let upper = to_upper(options.method.as_str());
        Self::method_named(upper.as_str())
    }

    /// The method that an upper-case method name names: GET or POST; any
    /// other is an error naming it.
    pub fn method_named(upper: &str) -> (r: Result<HttpMethod, ExtractError>)
        ensures
            upper@ == "GET"@ ==> r == Ok::<HttpMethod, ExtractError>(HttpMethod::Get),
            upper@ == "POST"@ ==> r == Ok::<HttpMethod, ExtractError>(HttpMethod::Post),
            upper@ != "GET"@ && upper@ != "POST"@ ==> (r matches Err(e) && is_api_error(
                e,
                "Unsupported HTTP method: "@ + upper@,
            )),
    {
        proof {
            reveal_strlit("GET");
            reveal_strlit("POST");
            assert("GET"@[0] != "POST"@[0]);
        }
        let upper = owned(upper);
        let get = owned("GET");
        let post = owned("POST");
        if upper == get {
            Ok(HttpMethod::Get)
        } else if upper == post {
            Ok(HttpMethod::Post)
        } else {
            let mut msg = owned("Unsupported HTTP method: ");
            append(&mut msg, upper.as_str());
            Err(ExtractError::ApiRequest(msg))
        }
    }

    /// The query of a request: the configured parameters, with the page's
    /// parameters added and taking precedence.
    pub fn query(&self, options: &RestApiOptions, page_params: &Vec<(String, String)>) -> (r: Table<String>)
        ensures
            r@ == options.query_params@.union_prefer_right(table_map(page_params@)),
    {
        let mut all = options.query_params.copy();
        let ghost base = options.query_params@;
        let mut i: usize = 0;
        while i < page_params.len()
            invariant
                i <= page_params@.len(),
                base == options.query_params@,
                all@ == base.union_prefer_right(table_map(page_params@.take(i as int))),
            decreases page_params@.len() - i,
        {
            assert(page_params@.take(i + 1).drop_last() =~= page_params@.take(i as int));
            let (k, v) = (&page_params[i].0, &page_params[i].1);
            all.insert(k.clone(), v.clone());
            assert(all@ =~= base.union_prefer_right(table_map(page_params@.take(i + 1))));
            i = i + 1;
        }
        assert(page_params@.take(page_params@.len() as int) =~= page_params@);
        all
    }

    /// Checks a response's status: outside 200-299 it is an error that
    /// quotes the status.
    pub fn check_status(&self, status: u16) -> (r: Result<(), ExtractError>)
        requires
            100 <= status <= 999,
        ensures
            r is Ok <==> 200 <= status <= 299,
            r matches Err(e) ==> is_api_error(e, "HTTP error: "@ + status_display(status)),
    {
        if 200 <= status && status <= 299 {
            Ok(())
        } else {
            let mut msg = owned("HTTP error: ");
            let shown = status_text(status);
            append(&mut msg, shown.as_str());
            Err(ExtractError::ApiRequest(msg))
        }
    }

    /// Extracts the records array from a response by a simple dotted path
    /// (such as `data` or `result.items`); with an empty path the response
    /// itself must be the array.
    pub fn extract_records_from_response(json: &Value, path: &str) -> (r: Result<Vec<Value>, ExtractError>)
        ensures
            match records_at(json@, path@) {
                Ok(items) => r matches Ok(v) && v@.len() == items.len() && forall|i: int|
                    0 <= i < items.len() ==> #[trigger] v@[i]@ == items[i],
                Err(m) => r matches Err(e) && is_api_error(e, m),
            },
    {
        if path.is_empty() {
            return match json {
                Value::Array(items) => {
                    assert(json@->Array_0 =~= Seq::new(items@.len(), |i: int| items@[i]@));
                    Ok(copy_values(items))
                },
                _ => Err(ExtractError::ApiRequest(owned("Response is not an array and no response_path specified"))),
            };
        }
        let parts = split_path(path);
        let ghost part_views = parts@.map_values(|s: String| s@);
        let mut current: &Value = json;
        assert(part_views.skip(0) =~= part_views);
        let mut i: usize = 0;
        while i < parts.len()
            invariant
                i <= parts@.len(),
                part_views == parts@.map_values(|s: String| s@),
                part_views == split_dots(path@),
                path@.len() != 0,
                navigate(json@, part_views) == navigate(current@, part_views.skip(i as int)),
            decreases parts@.len() - i,
        {
            let part = &parts[i];
            assert(part_views.skip(i as int).drop_first() =~= part_views.skip(i + 1));
            assert(part_views.skip(i as int)[0] == part@);
            match current {
                Value::Object(_) => {
                    match current.get_field(part.as_str()) {
                        Some(next) => {
                            current = next;
                        },
                        None => {
                            let mut msg = owned("Path component '");
                            append(&mut msg, part.as_str());
                            append(&mut msg, "' not found in response");
                            return Err(ExtractError::ApiRequest(msg));
                        },
                    }
                },
                _ => {
                    let mut msg = owned("Cannot navigate path '");
                    append(&mut msg, part.as_str());
                    append(&mut msg, "' - not an object");
                    return Err(ExtractError::ApiRequest(msg));
                },
            }
            i = i + 1;
        }
        assert(part_views.skip(parts@.len() as int).len() == 0);
        match current {
            Value::Array(items) => {
                assert(current@->Array_0 =~= Seq::new(items@.len(), |i: int| items@[i]@));
                Ok(copy_values(items))
            },
            _ => Err(ExtractError::ApiRequest(owned("Final path value is not an array"))),
        }
    }

    /// The records of the response to a request without pagination: the
    /// objects among its records array, in order.
    pub fn single_response_records(&self, response: &Value) -> (r: Result<Vec<Record>, ExtractError>)
        ensures
            match single_items(response@) {
                Ok(items) => r matches Ok(v) && records_match(v@, page_records(items, None, 0)),
                Err(m) => r matches Err(e) && is_api_error(e, m),
            },
    {
        match response {
            Value::Array(items) => {
                assert(response@->Array_0 =~= Seq::new(items@.len(), |i: int| items@[i]@));
                Ok(records_of_items(items, None, 0))
            },
            Value::Object(_) => {
                let found = match response.get_field("data") {
                    Some(Value::Array(a)) => Some(a),
                    _ => match response.get_field("results") {
                        Some(Value::Array(a)) => Some(a),
                        _ => match response.get_field("items") {
                            Some(Value::Array(a)) => Some(a),
                            _ => None,
                        },
                    },
                };
                match found {
                    Some(items) => {
                        assert(Value::Array(*items)@->Array_0 =~= Seq::new(items@.len(), |i: int| items@[i]@));
                        Ok(records_of_items(items, None, 0))
                    },
                    None => Err(ExtractError::ApiRequest(owned("Response is not an array and no pagination configured"))),
                }
            },
            _ => Err(ExtractError::ApiRequest(owned("Response is not an object or array"))),
        }
    }
}

/// Where paginated extraction stands: how pages are addressed (by offset,
/// page number or cursor), the current offset or page number, the cursor
/// of the next page, and whether it has finished.
pub struct Pager {
    mark: PageMark,
    by_cursor: bool,
    limit_param: String,
    position_param: String,
    cursor_path: String,
    limit: usize,
    position: usize,
    cursor: Option<String>,
    response_path: String,
    finished: bool,
}

impl Pager {
    /// Addressed by offset.
    pub closed spec fn by_offset(&self) -> bool {
        !self.by_cursor && self.mark is Offset
    }

    /// Addressed by the cursor that each page gives for the next.
    pub closed spec fn by_cursor(&self) -> bool {
        self.by_cursor
    }

    /// The current offset or page number.
    pub closed spec fn position_view(&self) -> int {
        self.position as int
    }

    /// The cursor of the next page, none before the first.
    pub closed spec fn cursor_view(&self) -> Option<Seq<char>> {
        match self.cursor {
            Some(c) => Some(c@),
            None => None,
        }
    }

    /// The page size.
    pub closed spec fn limit_view(&self) -> int {
        self.limit as int
    }

    /// The path of the records array in a response.
    pub closed spec fn path_view(&self) -> Seq<char> {
        self.response_path@
    }

    /// The path of the next page's cursor in a response.
    pub closed spec fn cursor_path_view(&self) -> Seq<char> {
        self.cursor_path@
    }

    /// The names of the page-size and position (or cursor) parameters.
    pub closed spec fn param_names(&self) -> (Seq<char>, Seq<char>) {
        (self.limit_param@, self.position_param@)
    }

    /// No more pages are to be fetched.
    pub closed spec fn finished_view(&self) -> bool {
        self.finished
    }

    /// Starts paginated extraction: offsets from 0, pages from 1, or
    /// cursors from none; the parameter that carries the position or the
    /// cursor must be configured, and for cursors the path of the next
    /// cursor in a response too.
    pub fn start(pagination: &PaginationConfig) -> (r: Result<Pager, ExtractError>)
        ensures
            pagination.page_type == PaginationType::Offset ==> match pagination.offset_param {
                Some(p) => r matches Ok(g) && g.by_offset() && !g.by_cursor() && g.position_view() == 0
                    && g.param_names() == (pagination.limit_param@, p@),
                None => r matches Err(e) && is_api_error(e, "offset_param required for offset pagination"@),
            },
            pagination.page_type == PaginationType::Page ==> match pagination.page_param {
                Some(p) => r matches Ok(g) && !g.by_offset() && !g.by_cursor() && g.position_view() == 1
                    && g.param_names() == (pagination.limit_param@, p@),
                None => r matches Err(e) && is_api_error(e, "page_param required for page pagination"@),
            },
            pagination.page_type == PaginationType::Cursor ==> match (
                pagination.cursor_param,
                pagination.next_cursor_path,
            ) {
                (Some(p), Some(np)) => r matches Ok(g) && g.by_cursor() && !g.by_offset() && g.cursor_view() is None
                    && g.position_view() == 0 && g.param_names() == (pagination.limit_param@, p@)
                    && g.cursor_path_view() == np@,
                (None, _) => r matches Err(e) && is_api_error(e, "cursor_param required for cursor pagination"@),
                (Some(_), None) => r matches Err(e) && is_api_error(
                    e,
                    "next_cursor_path required for cursor pagination"@,
                ),
            },
            r matches Ok(g) ==> !g.finished_view() && g.limit_view() == pagination.limit && g.path_view()
                == pagination.response_path@,
    {
        match pagination.page_type {
            PaginationType::Offset => match &pagination.offset_param {
                Some(p) => Ok(Pager {
                    mark: PageMark::Offset,
                    by_cursor: false,
                    limit_param: pagination.limit_param.clone(),
                    position_param: p.clone(),
                    cursor_path: String::new(),
                    limit: pagination.limit,
                    position: 0,
                    cursor: None,
                    response_path: pagination.response_path.clone(),
                    finished: false,
                }),
                None => Err(ExtractError::ApiRequest(owned("offset_param required for offset pagination"))),
            },
            PaginationType::Page => match &pagination.page_param {
                Some(p) => Ok(Pager {
                    mark: PageMark::Page,
                    by_cursor: false,
                    limit_param: pagination.limit_param.clone(),
                    position_param: p.clone(),
                    cursor_path: String::new(),
                    limit: pagination.limit,
                    position: 1,
                    cursor: None,
                    response_path: pagination.response_path.clone(),
                    finished: false,
                }),
                None => Err(ExtractError::ApiRequest(owned("page_param required for page pagination"))),
            },
            PaginationType::Cursor => match (&pagination.cursor_param, &pagination.next_cursor_path) {
                (Some(p), Some(np)) => Ok(Pager {
                    mark: PageMark::Page,
                    by_cursor: true,
                    limit_param: pagination.limit_param.clone(),
                    position_param: p.clone(),
                    cursor_path: np.clone(),
                    limit: pagination.limit,
                    position: 0,
                    cursor: None,
                    response_path: pagination.response_path.clone(),
                    finished: false,
                }),
                (None, _) => Err(ExtractError::ApiRequest(owned("cursor_param required for cursor pagination"))),
                (Some(_), None) => Err(
                    ExtractError::ApiRequest(owned("next_cursor_path required for cursor pagination")),
                ),
            },
        }
    }

    /// Whether extraction has finished.
    pub fn is_finished(&self) -> (b: bool)
        ensures
            b == self.finished_view(),
    {
        self.finished
    }

    /// The query parameters of the next page: the page size, then the
    /// offset or page number, or the cursor once a page has given one.
    pub fn page_params(&self) -> (r: Vec<(String, String)>)
        ensures
            r@[0].0@ == self.param_names().0,
            r@[0].1@ == decimal(self.limit_view() as nat),
            !self.by_cursor() ==> r@.len() == 2 && r@[1].0@ == self.param_names().1 && r@[1].1@ == decimal(
                self.position_view() as nat,
            ),
            self.by_cursor() ==> match self.cursor_view() {
                None => r@.len() == 1,
                Some(c) => r@.len() == 2 && r@[1].0@ == self.param_names().1 && r@[1].1@ == c,
            },
    {
        let mut v: Vec<(String, String)> = Vec::new();
        v.push((self.limit_param.clone(), usize_text(self.limit)));
        if self.by_cursor {
            match &self.cursor {
                Some(c) => {
                    v.push((self.position_param.clone(), c.clone()));
                },
                None => {},
            }
        } else {
            v.push((self.position_param.clone(), usize_text(self.position)));
        }
        v
    }

    /// Whether taking in this response keeps the position within `usize`.
    pub fn page_fits(&self, response: &Value) -> (b: bool)
        ensures
            b == (records_at(response@, self.path_view()) matches Ok(items) ==> (if self.by_offset() {
                self.position_view() + items.len() <= usize::MAX
            } else {
                self.position_view() < usize::MAX
            })),
    {
        match RestApiExtractor::extract_records_from_response(response, self.response_path.as_str()) {
            Ok(items) => {
                if !self.by_cursor && self.mark.is_offset() {
                    items.len() <= usize::MAX - self.position
                } else {
                    self.position < usize::MAX
                }
            },
            Err(_) => true,
        }
    }

    /// Takes in a page's response: its records, marked with their offset or
    /// page number (cursor pages are not marked). An empty page finishes
    /// extraction. Otherwise, by offset or page number, the position moves
    /// past the page and a page shorter than the page size finishes
    /// extraction; by cursor, the page's next cursor is kept for the next
    /// request, and a page without one finishes extraction.
    pub fn accept_page(&mut self, response: &Value) -> (r: Result<Vec<Record>, ExtractError>)
        requires
            !old(self).finished_view(),
            records_at(response@, old(self).path_view()) matches Ok(items) ==> (if old(self).by_offset() {
                old(self).position_view() + items.len() <= usize::MAX
            } else {
                old(self).position_view() < usize::MAX
            }),
        ensures
            final(self).by_offset() == old(self).by_offset(),
            final(self).by_cursor() == old(self).by_cursor(),
            final(self).limit_view() == old(self).limit_view(),
            final(self).path_view() == old(self).path_view(),
            final(self).cursor_path_view() == old(self).cursor_path_view(),
            final(self).param_names() == old(self).param_names(),
            !old(self).by_cursor() ==> final(self).cursor_view() == old(self).cursor_view(),
            old(self).by_cursor() ==> final(self).position_view() == old(self).position_view(),
            match records_at(response@, old(self).path_view()) {
                Err(m) => r matches Err(e) && is_api_error(e, m) && final(self).position_view() == old(
                    self,
                ).position_view() && final(self).cursor_view() == old(self).cursor_view() 
                    && !final(self).finished_view(),
                Ok(items) => r matches Ok(v) && records_match(
                    v@,
                    page_records(
                        items,
                        if old(self).by_cursor() {
                            None
                        } else if old(self).by_offset() {
                            Some(PageMark::Offset)
                        } else {
                            Some(PageMark::Page)
                        },
                        old(self).position_view(),
                    ),
                ) && (items.len() == 0 ==> final(self).finished_view() && final(self).position_view() == old(
                    self,
                ).position_view() && final(self).cursor_view() == old(self).cursor_view()) && (items.len() > 0
                    && !old(self).by_cursor() ==> final(self).position_view() == (if old(self).by_offset() {
                    old(self).position_view() + items.len()
                } else {
                    old(self).position_view() + 1
                }) && final(self).finished_view() == (items.len() < old(self).limit_view())) && (items.len() > 0
                    && old(self).by_cursor() ==> final(self).cursor_view() == next_cursor(
                    response@,
                    old(self).cursor_path_view(),
                ) && final(self).finished_view() == (next_cursor(response@, old(self).cursor_path_view()) is None)),
            },
    {
        let items = match RestApiExtractor::extract_records_from_response(response, self.response_path.as_str()) {
            Ok(v) => v,
            Err(e) => {
                return Err(e);
            },
        };
        let ghost model = records_at(response@, self.response_path@)->Ok_0;
        assert(Seq::new(items@.len(), |i: int| items@[i]@) =~= model);
        if items.len() == 0 {
            self.finished = true;
            return Ok(Vec::new());
        }
        if self.by_cursor {
            let records = records_of_items(&items, None, self.position);
            let next = cursor_in(response, self.cursor_path.as_str());
            self.finished = next.is_none();
            self.cursor = next;
            return Ok(records);
        }
        let batch = items.len();
        let mark = match self.mark {
            PageMark::Offset => Some(PageMark::Offset),
            PageMark::Page => Some(PageMark::Page),
        };
        let records = records_of_items(&items, mark, self.position);
        match self.mark {
            PageMark::Offset => {
                self.position = self.position + batch;
            },
            PageMark::Page => {
                self.position = self.position + 1;
            },
        }
        if batch < self.limit {
            self.finished = true;
        }
        Ok(records)
    }
}

/// The record made from an API object has exactly the object's keys as
/// fields, null values included, each holding the value of the object's
/// last entry with that key.
pub proof fn lemma_object_fields_are_entries(entries: Seq<(Seq<char>, ValueModel)>)
    ensures
        forall|k: Seq<char>|
            #[trigger] object_fields(entries).contains_key(k) <==> exists|i: int| 0 <= i < entries.len() && entries[i].0 == k,
        forall|i: int|
            0 <= i < entries.len() && (forall|l: int| i < l < entries.len() ==> #[trigger] entries[l].0 != entries[i].0)
                ==> object_fields(entries)[#[trigger] entries[i].0] == entries[i].1,
    decreases entries.len(),
{
    if entries.len() > 0 {
        let p = entries.drop_last();
        let n = entries.len() - 1;
        lemma_object_fields_are_entries(p);
        assert forall|k: Seq<char>|
            #[trigger] object_fields(entries).contains_key(k) <==> exists|i: int| 0 <= i < entries.len() && entries[i].0 == k by {
            if object_fields(entries).contains_key(k) {
                if k == entries[n].0 {
                    assert(entries[n].0 == k);
                } else {
                    assert(object_fields(p).contains_key(k));
                    let i = choose|i: int| 0 <= i < p.len() && p[i].0 == k;
                    assert(entries[i] == p[i]);
                    assert(entries[i].0 == k);
                }
            }
            if exists|i: int| 0 <= i < entries.len() && entries[i].0 == k {
                let i = choose|i: int| 0 <= i < entries.len() && entries[i].0 == k;
                if i < n {
                    assert(p[i] == entries[i]);
                    assert(p[i].0 == k);
                    assert(object_fields(p).contains_key(k));
                }
            }
        }
        assert forall|i: int|
            0 <= i < entries.len() && (forall|l: int| i < l < entries.len() ==> #[trigger] entries[l].0 != entries[i].0)
            implies object_fields(entries)[#[trigger] entries[i].0] == entries[i].1 by {
            if i < n {
                assert(entries[n].0 != entries[i].0);
                assert(p[i] == entries[i]);
                assert forall|l: int| i < l < p.len() implies #[trigger] p[l].0 != p[i].0 by {
                    assert(p[l] == entries[l]);
                    assert(entries[l].0 != entries[i].0);
                }
            }
        }
    }
}

} // verus!
