//! The search service's request format: an Elasticsearch-style JSON body,
//! read into the same kind of plan as the mail server's query string.

use vstd::prelude::*;

use crate::dates::{parse_rfc3339, parse_utc, spec_parse_rfc3339, spec_parse_utc};
use crate::json::{
    deref_opt, extract_string, index_key, index_key_of, index_pos, index_pos_of, json_get,
    json_text, json_u64, text_of, u64_of, JsonValue,
};
use crate::search::{
    clause_views, doc_text, labels_of, stored_flag, stored_labels, flag_of, Clause, ClauseView,
};
use crate::text::{concat, owned, same_text, views};

verus! {

/// How hits are ordered.
#[derive(Clone, Copy, PartialEq, Eq, Debug)]
pub enum SortOrder {
    /// By relevance to the query.
    Score,
    /// Oldest first.
    DateAscending,
    /// Newest first.
    DateDescending,
}

/// A search as the service runs it.
pub struct ServicePlan {
    pub clauses: Vec<Clause>,
    pub from: u64,
    pub size: u64,
    pub sort: SortOrder,
}

/// `body["query"]["bool"]`.
pub open spec fn bool_part(body: JsonValue) -> Option<JsonValue> {
    index_key(index_key(Some(body), "query"@), "bool"@)
}

/// The text of `query.bool.must[0].multi_match.query`, or empty.
pub open spec fn service_query_text(body: JsonValue) -> Seq<char> {
    let q = index_key(
        index_key(index_pos(index_key(bool_part(body), "must"@), 0), "multi_match"@),
        "query"@,
    );
    match json_text(q) {
        Some(t) => t,
        None => Seq::empty(),
    }
}

/// The filters of `query.bool.filter`, when that is an array.
pub open spec fn service_filters(body: JsonValue) -> Seq<JsonValue> {
    match index_key(bool_part(body), "filter"@) {
        Some(JsonValue::Array(items)) => items@,
        _ => Seq::empty(),
    }
}

/// The label of the first filter of the form `{"term": {"labels": "..."}}`.
pub open spec fn first_label_filter(fs: Seq<JsonValue>) -> Option<Seq<char>>
    decreases fs.len(),
{
    if fs.len() == 0 {
        None
    } else {
        match json_text(index_key(index_key(Some(fs[0]), "term"@), "labels"@)) {
            Some(t) => Some(t),
            None => first_label_filter(fs.drop_first()),
        }
    }
}

/// The range of the first filter of the form `{"range": {"date": {...}}}`.
pub open spec fn first_date_filter(fs: Seq<JsonValue>) -> Option<JsonValue>
    decreases fs.len(),
{
    if fs.len() == 0 {
        None
    } else {
        match index_key(index_key(Some(fs[0]), "range"@), "date"@) {
            Some(JsonValue::Object(m)) => Some(JsonValue::Object(m)),
            _ => first_date_filter(fs.drop_first()),
        }
    }
}

/// A date bound of the service: RFC 3339, or a UTC date and time in one of
/// two layouts.
pub open spec fn service_instant(s: Seq<char>) -> Option<i64> {
    match spec_parse_rfc3339(s) {
        Some(p) => Some(p.0),
        None => match spec_parse_utc(s, "%Y-%m-%d"@) {
            Some(p) => Some(p.0),
            None => match spec_parse_utc(s, "%Y-%m-%d %H:%M:%S"@) {
                Some(p) => Some(p.0),
                None => None,
            },
        },
    }
}

/// The bound stored under `key` in a date range.
pub open spec fn range_bound(range: JsonValue, key: Seq<char>) -> Option<i64> {
    match json_text(json_get(range, key)) {
        Some(t) => service_instant(t),
        None => None,
    }
}

/// The clauses of a service search: the query (every document when it is
/// empty or the parser rejects it), the label, and the date range when a
/// bound of it is readable.
pub open spec fn service_clauses(body: JsonValue, query_accepted: bool) -> Seq<ClauseView> {
    let q = service_query_text(body);
    let c1 = if q.len() == 0 || !query_accepted {
        seq![ClauseView::All]
    } else {
        seq![ClauseView::Text(q)]
    };
    let c2 = match first_label_filter(service_filters(body)) {
        Some(l) => seq![ClauseView::Facet(seq!['/'] + l)],
        None => Seq::empty(),
    };
    let c3 = match first_date_filter(service_filters(body)) {
        Some(range) => {
            let gte = range_bound(range, "gte"@);
            let lte = range_bound(range, "lte"@);
            if gte is Some || lte is Some {
                let a = match gte {
                    Some(t) => t,
                    None => 0,
                };
                let b = match lte {
                    Some(t) => t,
                    None => 2147483647,
                };
                seq![ClauseView::DateRange(a, b)]
            } else {
                Seq::empty()
            }
        },
        None => Seq::empty(),
    };
    c1 + c2 + c3
}

/// The order asked for by `sort[0]`: by date when its first key is `date`
/// (oldest first when that key's `order` is `asc`), by relevance otherwise.
pub open spec fn service_sort(body: JsonValue) -> SortOrder {
    match index_pos(index_key(Some(body), "sort"@), 0) {
        Some(JsonValue::Object(entries)) => if entries@.len() > 0 && entries@[0].0@ == "date"@ {
            if json_text(json_get(entries@[0].1, "order"@)) == Some("asc"@) {
                SortOrder::DateAscending
            } else {
                SortOrder::DateDescending
            }
        } else {
            SortOrder::Score
        },
        _ => SortOrder::Score,
    }
}

/// The plan is the one that the body asks for.
pub open spec fn service_plan_matches(r: ServicePlan, body: JsonValue, query_accepted: bool) -> bool {
    &&& clause_views(r.clauses@) == service_clauses(body, query_accepted)
    &&& r.from == match json_u64(index_key(Some(body), "from"@)) {
        Some(n) => n,
        None => 0,
    }
    &&& r.size == match json_u64(index_key(Some(body), "size"@)) {
        Some(n) => n,
        None => 20,
    }
    &&& r.sort == service_sort(body)
}

/// `body["query"]["bool"]`.
fn bool_part_of(body: &JsonValue) -> (r: Option<&JsonValue>)
    ensures
        deref_opt(r) == bool_part(*body),
{
    index_key_of(index_key_of(Some(body), "query"), "bool")
}

/// The query text of a service request.
pub fn query_text(body: &JsonValue) -> (r: String)
    ensures
        r@ == service_query_text(*body),
{
    let q = index_key_of(
        index_key_of(index_pos_of(index_key_of(bool_part_of(body), "must"), 0), "multi_match"),
        "query",
    );
    match text_of(q) {
        Some(t) => t.clone(),
        None => String::new(),
    }
}

fn filters_of(body: &JsonValue) -> (r: &[JsonValue])
    ensures
        r@ == service_filters(*body),
{
    match index_key_of(bool_part_of(body), "filter") {
        Some(JsonValue::Array(items)) => items.as_slice(),
        _ => &[],
    }
}

fn label_filter_of(fs: &[JsonValue]) -> (r: Option<String>)
    ensures
        crate::search::opt_text(r) == first_label_filter(fs@),
{
    let mut i: usize = 0;
    assert(fs@.skip(0) == fs@);
    while i < fs.len()
        invariant
            i <= fs.len(),
            first_label_filter(fs@) == first_label_filter(fs@.skip(i as int)),
        decreases fs.len() - i,
    {
        assert(fs@.skip(i as int)[0] == fs@[i as int]);
        match text_of(index_key_of(index_key_of(Some(&fs[i]), "term"), "labels")) {
            Some(t) => {
                return Some(t.clone());
            },
            None => {},
        }
        assert(fs@.skip(i as int).drop_first() == fs@.skip(i + 1));
        i = i + 1;
    }
    None
}

fn date_filter_of(fs: &[JsonValue]) -> (r: Option<&JsonValue>)
    ensures
        deref_opt(r) == first_date_filter(fs@),
{
    let mut i: usize = 0;
    assert(fs@.skip(0) == fs@);
    while i < fs.len()
        invariant
            i <= fs.len(),
            first_date_filter(fs@) == first_date_filter(fs@.skip(i as int)),
        decreases fs.len() - i,
    {
        assert(fs@.skip(i as int)[0] == fs@[i as int]);
        let d = index_key_of(index_key_of(Some(&fs[i]), "range"), "date");
        match d {
            Some(JsonValue::Object(_)) => {
                return d;
            },
            _ => {},
        }
        assert(fs@.skip(i as int).drop_first() == fs@.skip(i + 1));
        i = i + 1;
    }
    None
}

/// A date bound of the service.
pub fn service_instant_of(s: &str) -> (r: Option<i64>)
    ensures
        r == service_instant(s@),
{
    match parse_rfc3339(s) {
        Some(d) => Some(d.secs),
        None => match parse_utc(s, "%Y-%m-%d") {
            Some(d) => Some(d.secs),
            None => match parse_utc(s, "%Y-%m-%d %H:%M:%S") {
                Some(d) => Some(d.secs),
                None => None,
            },
        },
    }
}

fn range_bound_of(range: &JsonValue, key: &str) -> (r: Option<i64>)
    ensures
        r == range_bound(*range, key@),
{
    match text_of(range.get(key)) {
        Some(t) => service_instant_of(t.as_str()),
        None => None,
    }
}

fn sort_of(body: &JsonValue) -> (r: SortOrder)
    ensures
        r == service_sort(*body),
{
    match index_pos_of(index_key_of(Some(body), "sort"), 0) {
        Some(JsonValue::Object(entries)) => {
            if entries.len() > 0 && same_text(entries[0].0.as_str(), "date") {
                let asc = match text_of(entries[0].1.get("order")) {
                    Some(o) => same_text(o.as_str(), "asc"),
                    None => false,
                };
                if asc {
                    SortOrder::DateAscending
                } else {
                    SortOrder::DateDescending
                }
            } else {
                SortOrder::Score
            }
        },
        _ => SortOrder::Score,
    }
}

/// Reads a service request body into a plan. `query_accepted` says whether
/// the index's query parser accepts the body's query text.
pub fn plan_service_search(body: &JsonValue, query_accepted: bool) -> (r: ServicePlan)
    ensures
        service_plan_matches(r, *body, query_accepted),
{
    let q = query_text(body);
    let mut clauses: Vec<Clause> = Vec::new();
    if q.as_str().is_empty() || !query_accepted {
        clauses.push(Clause::All);
    } else {
        clauses.push(Clause::Text(q));
    }
    let ghost c1 = clause_views(clauses@);
    assert(c1 == (if q@.len() == 0 || !query_accepted {
        seq![ClauseView::All]
    } else {
        seq![ClauseView::Text(q@)]
    }));
    let fs = filters_of(body);
    match label_filter_of(fs) {
        Some(l) => {
            let f = concat("/", l.as_str());
            proof {
                reveal_strlit("/");
                assert("/"@ == seq!['/']);
            }
            let ghost fv = f@;
            clauses.push(Clause::Facet(f));
            assert(clause_views(clauses@) == c1 + seq![ClauseView::Facet(fv)]);
        },
        None => {
            assert(clause_views(clauses@) == c1 + Seq::<ClauseView>::empty());
        },
    }
    let ghost c12 = clause_views(clauses@);
    match date_filter_of(fs) {
        Some(range) => {
            let gte = range_bound_of(range, "gte");
            let lte = range_bound_of(range, "lte");
            if gte.is_some() || lte.is_some() {
                let a = match gte {
                    Some(t) => t,
                    None => 0,
                };
                let b = match lte {
                    Some(t) => t,
                    None => 2147483647,
                };
                clauses.push(Clause::DateRange(a, b));
                assert(clause_views(clauses@) == c12 + seq![ClauseView::DateRange(a, b)]);
            } else {
                assert(clause_views(clauses@) == c12 + Seq::<ClauseView>::empty());
            }
        },
        None => {
            assert(clause_views(clauses@) == c12 + Seq::<ClauseView>::empty());
        },
    }
    let from = match u64_of(index_key_of(Some(body), "from")) {
        Some(n) => n,
        None => 0,
    };
    let size = match u64_of(index_key_of(Some(body), "size")) {
        Some(n) => n,
        None => 20,
    };
    assert(clause_views(clauses@) == service_clauses(*body, query_accepted));
    ServicePlan { clauses, from, size, sort: sort_of(body) }
}

/// One hit as the service reports it.
pub struct ServiceHit {
    pub id: String,
    pub subject: String,
    pub from: String,
    pub date: String,
    pub labels: Vec<String>,
    pub has_attachment: bool,
}

/// `h` reports the stored document `doc`.
pub open spec fn service_hit_of(h: ServiceHit, doc: JsonValue) -> bool {
    &&& h.id@ == doc_text(doc, "id"@)
    &&& h.subject@ == doc_text(doc, "subject"@)
    &&& h.from@ == doc_text(doc, "from"@)
    &&& h.date@ == doc_text(doc, "date"@)
    &&& views(h.labels@) == stored_labels(json_get(doc, "labels"@))
    &&& h.has_attachment == stored_flag(json_get(doc, "has_attachment"@))
}

/// The service's report of a stored document.
pub fn service_hit(doc: &JsonValue) -> (r: ServiceHit)
    ensures
        service_hit_of(r, *doc),
{
    ServiceHit {
        id: extract_string(doc.get("id")),
        subject: extract_string(doc.get("subject")),
        from: extract_string(doc.get("from")),
        date: extract_string(doc.get("date")),
        labels: labels_of(doc.get("labels")),
        has_attachment: flag_of(doc.get("has_attachment")),
    }
}

} // verus!
