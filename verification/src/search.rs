//! Planning a search over the mail index from the parameters of a request,
//! and shaping what the index hands back into the answers the browser
//! reads. The index itself is searched by the application.

use vstd::prelude::*;

use crate::dates::{
    parse_naive_date, parse_rfc3339, spec_parse_naive_date, spec_parse_rfc3339, LAST_DAY_START,
};
use crate::json::{
    bool_of, deref_opt, extract_string, field_text, index_pos_of, is_array, json_bool, json_get,
    json_is_array, index_pos, JsonValue,
};
use crate::text::{
    chars_of, concat, lowercase, owned, same_text, spec_lowercase, string_of, strip_leading,
    strip_leading_char, take_chars, take_prefix, views,
};

verus! {

/// The query string of a search request.
pub struct SearchParams {
    pub q: Option<String>,
    pub label: Option<String>,
    pub start_date: Option<String>,
    pub end_date: Option<String>,
    pub page: Option<usize>,
    pub size: Option<usize>,
}

/// One condition that every hit must meet.
pub enum Clause {
    /// Every document.
    All,
    /// A query in the index's query language, over subject, sender, body
    /// and recipients.
    Text(String),
    /// Documents filed under a label, named by its facet path.
    Facet(String),
    /// Documents dated at or after the first second and before the second.
    DateRange(i64, i64),
}

/// A clause as a mathematical value.
pub enum ClauseView {
    All,
    Text(Seq<char>),
    Facet(Seq<char>),
    DateRange(i64, i64),
}

impl View for Clause {
    type V = ClauseView;

    open spec fn view(&self) -> ClauseView {
        match self {
            Clause::All => ClauseView::All,
            Clause::Text(q) => ClauseView::Text(q@),
            Clause::Facet(f) => ClauseView::Facet(f@),
            Clause::DateRange(a, b) => ClauseView::DateRange(*a, *b),
        }
    }
}

/// The views of a sequence of clauses.
pub open spec fn clause_views(s: Seq<Clause>) -> Seq<ClauseView> {
    Seq::new(s.len(), |i: int| s[i]@)
}

/// A search to run: all clauses must hold; hits come newest first, `size`
/// of them after skipping `offset`.
pub struct SearchPlan {
    pub clauses: Vec<Clause>,
    pub page: usize,
    pub size: usize,
    pub offset: usize,
}

/// An optional string as an optional text.
pub open spec fn opt_text(o: Option<String>) -> Option<Seq<char>> {
    match o {
        Some(s) => Some(s@),
        None => None,
    }
}

/// The facet that a label parameter selects: none for `all` (in any case),
/// the standard `Inbox` and `Sent` for those names in any case, the label
/// as given otherwise.
pub open spec fn label_facet(raw: Seq<char>) -> Option<Seq<char>> {
    let low = spec_lowercase(raw);
    if low == "all"@ {
        None
    } else if low == "inbox"@ {
        Some("/Inbox"@)
    } else if low == "sent"@ {
        Some("/Sent"@)
    } else {
        Some(seq!['/'] + raw)
    }
}

/// The first second of a range that starts at `s`: an RFC 3339 instant, or
/// the start of a `YYYY-MM-DD` day, or the epoch.
pub open spec fn start_bound(s: Seq<char>) -> i64 {
    match spec_parse_rfc3339(s) {
        Some(p) => p.0,
        None => match spec_parse_naive_date(s, "%Y-%m-%d"@) {
            Some(t) => t,
            None => 0,
        },
    }
}

/// The end of a range that ends at `s`: an RFC 3339 instant, or the start
/// of the day after a `YYYY-MM-DD` day, or the largest 32-bit second.
pub open spec fn end_bound(s: Seq<char>) -> i64 {
    match spec_parse_rfc3339(s) {
        Some(p) => p.0,
        None => match spec_parse_naive_date(s, "%Y-%m-%d"@) {
            Some(t) => (t + 86400) as i64,
            None => 2147483647,
        },
    }
}

/// `s` names the last day that `chrono` knows, which has no next day.
pub open spec fn end_bound_undefined(s: Seq<char>) -> bool {
    spec_parse_rfc3339(s) is None && spec_parse_naive_date(s, "%Y-%m-%d"@) == Some(LAST_DAY_START)
}

/// The clause of the text query: present when the query is non-empty and
/// the index's query parser accepts it; with no query, label or dates,
/// every document matches.
pub open spec fn query_clauses(p: SearchParams, query_accepted: bool) -> Seq<ClauseView> {
    match p.q {
        Some(q) => if q@.len() > 0 && query_accepted {
            seq![ClauseView::Text(q@)]
        } else {
            Seq::empty()
        },
        None => if p.label is None && p.start_date is None && p.end_date is None {
            seq![ClauseView::All]
        } else {
            Seq::empty()
        },
    }
}

/// The clause of the label parameter.
pub open spec fn label_clauses(p: SearchParams) -> Seq<ClauseView> {
    match p.label {
        Some(raw) => match label_facet(raw@) {
            Some(f) => seq![ClauseView::Facet(f)],
            None => Seq::empty(),
        },
        None => Seq::empty(),
    }
}

/// The clause of the date parameters: present when either bound is given.
pub open spec fn date_clauses(p: SearchParams) -> Seq<ClauseView> {
    if p.start_date is Some || p.end_date is Some {
        let a = match p.start_date {
            Some(s) => start_bound(s@),
            None => 0,
        };
        let b = match p.end_date {
            Some(s) => end_bound(s@),
            None => 2147483647,
        };
        seq![ClauseView::DateRange(a, b)]
    } else {
        Seq::empty()
    }
}

/// The clauses of a search; with `fallback_all`, a search left without
/// clauses matches every document.
pub open spec fn plan_clauses(p: SearchParams, query_accepted: bool, fallback_all: bool) -> Seq<
    ClauseView,
> {
    let all = query_clauses(p, query_accepted) + label_clauses(p) + date_clauses(p);
    if fallback_all && all.len() == 0 {
        seq![ClauseView::All]
    } else {
        all
    }
}

/// Page number asked for (the first by default).
pub open spec fn page_of(p: SearchParams) -> nat {
    match p.page {
        Some(n) => n as nat,
        None => 1,
    }
}

/// Page size asked for (twenty by default).
pub open spec fn size_of(p: SearchParams) -> nat {
    match p.size {
        Some(n) => n as nat,
        None => 20,
    }
}

/// The parameters that the server cannot serve without failing: page zero,
/// an offset beyond `usize`, or an end date on the last day `chrono` knows.
pub open spec fn plan_undefined(p: SearchParams) -> bool {
    ||| page_of(p) == 0
    ||| (page_of(p) - 1) * size_of(p) > usize::MAX
    ||| (p.end_date matches Some(e) && end_bound_undefined(e@))
}

/// The plan is the one that the parameters ask for.
pub open spec fn plan_matches(r: SearchPlan, p: SearchParams, query_accepted: bool, fallback_all: bool) -> bool {
    &&& clause_views(r.clauses@) == plan_clauses(p, query_accepted, fallback_all)
    &&& r.page == page_of(p)
    &&& r.size == size_of(p)
    &&& r.offset == (page_of(p) - 1) * size_of(p)
}

/// The facet path for a label parameter.
pub fn facet_for_label(raw: &String) -> (r: Option<String>)
    ensures
        opt_text(r) == label_facet(raw@),
{
    let low = lowercase(raw.as_str());
    if same_text(low.as_str(), "all") {
        None
    } else if same_text(low.as_str(), "inbox") {
        Some(owned("/Inbox"))
    } else if same_text(low.as_str(), "sent") {
        Some(owned("/Sent"))
    } else {
        let f = concat("/", raw.as_str());
        proof {
            reveal_strlit("/");
            assert("/"@ == seq!['/']);
        }
        Some(f)
    }
}

/// First second of a date range.
pub fn start_bound_of(s: &String) -> (r: i64)
    ensures
        r == start_bound(s@),
{
    match parse_rfc3339(s.as_str()) {
        Some(d) => d.secs,
        None => match parse_naive_date(s.as_str(), "%Y-%m-%d") {
            Some(t) => t,
            None => 0,
        },
    }
}

/// End of a date range.
pub fn end_bound_of(s: &String) -> (r: i64)
    requires
        !end_bound_undefined(s@),
    ensures
        r == end_bound(s@),
{
    match parse_rfc3339(s.as_str()) {
        Some(d) => d.secs,
        None => match parse_naive_date(s.as_str(), "%Y-%m-%d") {
            Some(t) => t + 86400,
            None => 2147483647,
        },
    }
}

/// Whether the end of a date range is defined.
pub fn end_bound_defined(s: &String) -> (r: bool)
    ensures
        r == !end_bound_undefined(s@),
{
    match parse_rfc3339(s.as_str()) {
        Some(_) => true,
        None => match parse_naive_date(s.as_str(), "%Y-%m-%d") {
            Some(t) => t != LAST_DAY_START,
            None => true,
        },
    }
}

fn push_query_clause(clauses: &mut Vec<Clause>, params: &SearchParams, query_accepted: bool)
    ensures
        clause_views(final(clauses)@) == clause_views(old(clauses)@) + query_clauses(
            *params,
            query_accepted,
        ),
{
    let ghost before = clause_views(clauses@);
    match &params.q {
        Some(q) => {
            if !q.as_str().is_empty() && query_accepted {
                clauses.push(Clause::Text(q.clone()));
                assert(clause_views(clauses@) == before + seq![ClauseView::Text(q@)]);
            } else {
                assert(clause_views(clauses@) == before + Seq::<ClauseView>::empty());
            }
        },
        None => {
            if params.label.is_none() && params.start_date.is_none() && params.end_date.is_none() {
                clauses.push(Clause::All);
                assert(clause_views(clauses@) == before + seq![ClauseView::All]);
            } else {
                assert(clause_views(clauses@) == before + Seq::<ClauseView>::empty());
            }
        },
    }
}

fn push_label_clause(clauses: &mut Vec<Clause>, params: &SearchParams)
    ensures
        clause_views(final(clauses)@) == clause_views(old(clauses)@) + label_clauses(*params),
{
    let ghost before = clause_views(clauses@);
    match &params.label {
        Some(raw) => match facet_for_label(raw) {
            Some(f) => {
                let ghost fv = f@;
                clauses.push(Clause::Facet(f));
                assert(clause_views(clauses@) == before + seq![ClauseView::Facet(fv)]);
            },
            None => {
                assert(clause_views(clauses@) == before + Seq::<ClauseView>::empty());
            },
        },
        None => {
            assert(clause_views(clauses@) == before + Seq::<ClauseView>::empty());
        },
    }
}

fn push_date_clause(clauses: &mut Vec<Clause>, params: &SearchParams)
    requires
        params.end_date matches Some(e) ==> !end_bound_undefined(e@),
    ensures
        clause_views(final(clauses)@) == clause_views(old(clauses)@) + date_clauses(*params),
{
    let ghost before = clause_views(clauses@);
    if params.start_date.is_some() || params.end_date.is_some() {
        let a: i64 = match &params.start_date {
            Some(s) => start_bound_of(s),
            None => 0,
        };
        let b: i64 = match &params.end_date {
            Some(s) => end_bound_of(s),
            None => 2147483647,
        };
        clauses.push(Clause::DateRange(a, b));
        assert(clause_views(clauses@) == before + seq![ClauseView::DateRange(a, b)]);
    } else {
        assert(clause_views(clauses@) == before + Seq::<ClauseView>::empty());
    }
}

/// Builds the plan of a search from its parameters.
pub fn plan_search(params: &SearchParams, query_accepted: bool, fallback_all: bool) -> (r:
    SearchPlan)
    requires
        !plan_undefined(*params),
    ensures
        plan_matches(r, *params, query_accepted, fallback_all),
{
    let page: usize = match params.page {
        Some(n) => n,
        None => 1,
    };
    let size: usize = match params.size {
        Some(n) => n,
        None => 20,
    };
    let offset = (page - 1) * size;
    let mut clauses: Vec<Clause> = Vec::new();
    assert(clause_views(clauses@) == Seq::<ClauseView>::empty());
    push_query_clause(&mut clauses, params, query_accepted);
    push_label_clause(&mut clauses, params);
    push_date_clause(&mut clauses, params);
    if fallback_all && clauses.len() == 0 {
        clauses.push(Clause::All);
        assert(clause_views(clauses@) == seq![ClauseView::All]);
    }
    SearchPlan { clauses, page, size, offset }
}

/// Builds the plan of a search, or nothing for the parameters that the
/// server cannot serve (see `plan_undefined`).
pub fn try_plan_search(params: &SearchParams, query_accepted: bool, fallback_all: bool) -> (r:
    Option<SearchPlan>)
    ensures
        r is None <==> plan_undefined(*params),
        r matches Some(p) ==> plan_matches(p, *params, query_accepted, fallback_all),
{
    let page: usize = match params.page {
        Some(n) => n,
        None => 1,
    };
    let size: usize = match params.size {
        Some(n) => n,
        None => 20,
    };
    if page == 0 {
        return None;
    }
    if size > 0 && page - 1 > usize::MAX / size {
        proof {
            assert((page - 1) * size > usize::MAX) by (nonlinear_arith)
                requires
                    size > 0,
                    page - 1 > usize::MAX / size,
            ;
        }
        return None;
    }
    proof {
        assert((page - 1) * size <= usize::MAX) by (nonlinear_arith)
            requires
                size == 0 || page - 1 <= usize::MAX / size,
        ;
    }
    match &params.end_date {
        Some(e) => {
            if !end_bound_defined(e) {
                return None;
            }
        },
        None => {},
    }
    Some(plan_search(params, query_accepted, fallback_all))
}


/// One hit of a search, as the mail list shows it.
pub struct Email {
    pub id: String,
    pub subject: String,
    pub sender: String,
    pub date: String,
    pub snippet: String,
    pub labels: Vec<String>,
    pub has_attachment: bool,
}

/// A page of hits.
pub struct SearchResponse {
    pub total: usize,
    pub page: usize,
    pub size: usize,
    pub items: Vec<Email>,
}

/// The label names stored in an array of facet paths, leading slashes
/// removed; elements that are not strings are skipped.
pub open spec fn label_texts(items: Seq<JsonValue>) -> Seq<Seq<char>>
    decreases items.len(),
{
    if items.len() == 0 {
        Seq::empty()
    } else {
        let rest = label_texts(items.drop_last());
        match items.last() {
            JsonValue::Str(t) => rest.push(strip_leading(t@, '/')),
            _ => rest,
        }
    }
}

/// The labels of a stored document's `labels` field.
pub open spec fn stored_labels(v: Option<JsonValue>) -> Seq<Seq<char>> {
    match v {
        Some(JsonValue::Array(items)) => label_texts(items@),
        _ => Seq::empty(),
    }
}

/// A stored flag: a boolean, or an array whose first element is one;
/// false otherwise.
pub open spec fn stored_flag(v: Option<JsonValue>) -> bool {
    if json_is_array(v) {
        json_bool(index_pos(v, 0)) == Some(true)
    } else {
        json_bool(v) == Some(true)
    }
}

/// The text of a stored document's field.
pub open spec fn doc_text(doc: JsonValue, field: Seq<char>) -> Seq<char> {
    field_text(json_get(doc, field))
}

/// `e` is the list entry for the stored document `doc`: its fields, the
/// first two hundred characters of its body as snippet, and its labels.
pub open spec fn summarizes(e: Email, doc: JsonValue) -> bool {
    &&& e.id@ == doc_text(doc, "id"@)
    &&& e.subject@ == doc_text(doc, "subject"@)
    &&& e.sender@ == doc_text(doc, "from"@)
    &&& e.date@ == doc_text(doc, "date"@)
    &&& e.snippet@ == take_chars(doc_text(doc, "body_text"@), 200)
    &&& views(e.labels@) == stored_labels(json_get(doc, "labels"@))
    &&& e.has_attachment == stored_flag(json_get(doc, "has_attachment"@))
}

/// The label names of a stored `labels` field.
pub fn labels_of(v: Option<&JsonValue>) -> (r: Vec<String>)
    ensures
        views(r@) == stored_labels(deref_opt(v)),
{
    let mut r: Vec<String> = Vec::new();
    match v {
        Some(JsonValue::Array(items)) => {
            let mut i: usize = 0;
            while i < items.len()
                invariant
                    i <= items.len(),
                    views(r@) == label_texts(items@.take(i as int)),
                decreases items.len() - i,
            {
                assert(items@.take(i + 1).drop_last() == items@.take(i as int));
                match &items[i] {
                    JsonValue::Str(t) => {
                        let cs = chars_of(t.as_str());
                        let st = strip_leading_char(cs.as_slice(), '/');
                        let ghost before = views(r@);
                        r.push(string_of(st.as_slice()));
                        assert(views(r@) == before.push(st@));
                    },
                    _ => {},
                }
                i = i + 1;
            }
            assert(items@.take(items.len() as int) == items@);
        },
        _ => {},
    }
    r
}

/// A stored flag.
pub fn flag_of(v: Option<&JsonValue>) -> (r: bool)
    ensures
        r == stored_flag(deref_opt(v)),
{
    let b = if is_array(v) {
        bool_of(index_pos_of(v, 0))
    } else {
        bool_of(v)
    };
    match b {
        Some(x) => x,
        None => false,
    }
}

/// The list entry for a stored document.
pub fn summarize_hit(doc: &JsonValue) -> (r: Email)
    ensures
        summarizes(r, *doc),
{
    let body = extract_string(doc.get("body_text"));
    let cs = chars_of(body.as_str());
    let snippet = string_of(take_prefix(cs.as_slice(), 200).as_slice());
    Email {
        id: extract_string(doc.get("id")),
        subject: extract_string(doc.get("subject")),
        sender: extract_string(doc.get("from")),
        date: extract_string(doc.get("date")),
        snippet,
        labels: labels_of(doc.get("labels")),
        has_attachment: flag_of(doc.get("has_attachment")),
    }
}

/// The page of hits for a search that matched `total` documents, of which
/// the index handed back `docs`.
pub fn search_response(total: usize, plan: &SearchPlan, docs: &[JsonValue]) -> (r: SearchResponse)
    ensures
        r.total == total,
        r.page == plan.page,
        r.size == plan.size,
        r.items@.len() == docs@.len(),
        forall|i: int| 0 <= i < docs@.len() ==> summarizes(#[trigger] r.items@[i], docs@[i]),
{
    let mut items: Vec<Email> = Vec::new();
    let mut i: usize = 0;
    while i < docs.len()
        invariant
            i <= docs.len(),
            items@.len() == i,
            forall|k: int| 0 <= k < i ==> summarizes(#[trigger] items@[k], docs@[k]),
        decreases docs.len() - i,
    {
        items.push(summarize_hit(&docs[i]));
        i = i + 1;
    }
    SearchResponse { total, page: plan.page, size: plan.size, items }
}

/// The label name of a facet path, leading slashes removed.
pub fn label_from_facet(facet: &str) -> (r: String)
    ensures
        r@ == strip_leading(facet@, '/'),
{
    let cs = chars_of(facet);
    string_of(strip_leading_char(cs.as_slice(), '/').as_slice())
}

/// A stored mail as the reading pane receives it.
pub struct StoredEmail {
    pub id: String,
    pub subject: String,
    pub sender: String,
    pub to: String,
    pub date: String,
    pub labels: Vec<String>,
    pub body_html: String,
    /// The attachment list as stored (`None` stands for `null`).
    pub attachments: Option<JsonValue>,
}

/// The attachments of a stored document: the stored value, or the first
/// element when the index hands it back wrapped in an array.
pub open spec fn stored_attachments(doc: JsonValue) -> Option<JsonValue> {
    let a = json_get(doc, "attachments"@);
    if json_is_array(a) {
        index_pos(a, 0)
    } else {
        a
    }
}

/// The HTML to show for a mail: its HTML body, or its text body inside
/// `<pre>` when it has no HTML body.
pub open spec fn shown_html(doc: JsonValue) -> Seq<char> {
    if doc_text(doc, "body_html"@).len() > 0 {
        doc_text(doc, "body_html"@)
    } else {
        "<pre>"@ + doc_text(doc, "body_text"@) + "</pre>"@
    }
}

/// `e` carries the fields of the stored document `doc`, under the name
/// `id`, with `html` as its body.
pub open spec fn stored_email_of(e: StoredEmail, id: Seq<char>, doc: JsonValue, html: Seq<char>) -> bool {
    &&& e.id@ == id
    &&& e.subject@ == doc_text(doc, "subject"@)
    &&& e.sender@ == doc_text(doc, "from"@)
    &&& e.to@ == doc_text(doc, "to"@)
    &&& e.date@ == doc_text(doc, "date"@)
    &&& views(e.labels@) == stored_labels(json_get(doc, "labels"@))
    &&& e.body_html@ == html
    &&& e.attachments == stored_attachments(doc)
}

/// Position of the member named `key`.
fn member_position(entries: &Vec<(String, JsonValue)>, key: &str) -> (r: Option<usize>)
    ensures
        r matches Some(k) ==> crate::json::member_index(entries@, key@) == Some(k as nat) && k
            < entries@.len(),
        r is None ==> crate::json::member_index(entries@, key@) is None,
{
    let mut i: usize = 0;
    assert(entries@.skip(0) == entries@);
    while i < entries.len()
        invariant
            i <= entries.len(),
            crate::json::member_index(entries@, key@) == match crate::json::member_index(
                entries@.skip(i as int),
                key@,
            ) {
                Some(k) => Some((k + i) as nat),
                None => None::<nat>,
            },
        decreases entries.len() - i,
    {
        assert(entries@.skip(i as int)[0] == entries@[i as int]);
        if same_text(entries[i].0.as_str(), key) {
            assert(crate::json::member_index(entries@.skip(i as int), key@) == Some(0nat));
            return Some(i);
        }
        assert(entries@.skip(i as int).drop_first() == entries@.skip(i + 1));
        i = i + 1;
    }
    None
}

/// Moves the attachments out of a stored document.
fn take_attachments(doc: JsonValue) -> (r: Option<JsonValue>)
    ensures
        r == stored_attachments(doc),
{
    match doc {
        JsonValue::Object(mut entries) => {
            let ghost es = entries@;
            match member_position(&entries, "attachments") {
                Some(k) => {
                    let (_, v) = entries.remove(k);
                    assert(v == es[k as int].1);
                    match v {
                        JsonValue::Array(mut items) => {
                            if items.len() > 0 {
                                Some(items.remove(0))
                            } else {
                                None
                            }
                        },
                        other => Some(other),
                    }
                },
                None => None,
            }
        },
        _ => None,
    }
}

/// The mail as the reading pane receives it: the stored fields, the HTML
/// body or else the text body inside `<pre>`, and the stored attachments.
pub fn email_detail(doc_id: &str, doc: JsonValue) -> (r: StoredEmail)
    ensures
        stored_email_of(r, doc_id@, doc, shown_html(doc)),
{
    let subject = extract_string(doc.get("subject"));
    let sender = extract_string(doc.get("from"));
    let to = extract_string(doc.get("to"));
    let date = extract_string(doc.get("date"));
    let labels = labels_of(doc.get("labels"));
    let body_text = extract_string(doc.get("body_text"));
    let body_html = extract_string(doc.get("body_html"));
    let html = if !body_html.as_str().is_empty() {
        body_html
    } else {
        let a = concat("<pre>", body_text.as_str());
        concat(a.as_str(), "</pre>")
    };
    let ghost d = doc;
    let attachments = take_attachments(doc);
    StoredEmail {
        id: owned(doc_id),
        subject,
        sender,
        to,
        date,
        labels,
        body_html: html,
        attachments,
    }
}

/// The stored mail with its HTML body as stored.
pub fn stored_document(doc_id: &str, doc: JsonValue) -> (r: StoredEmail)
    ensures
        stored_email_of(r, doc_id@, doc, doc_text(doc, "body_html"@)),
{
    let subject = extract_string(doc.get("subject"));
    let sender = extract_string(doc.get("from"));
    let to = extract_string(doc.get("to"));
    let date = extract_string(doc.get("date"));
    let labels = labels_of(doc.get("labels"));
    let body_html = extract_string(doc.get("body_html"));
    let attachments = take_attachments(doc);
    StoredEmail {
        id: owned(doc_id),
        subject,
        sender,
        to,
        date,
        labels,
        body_html,
        attachments,
    }
}

/// The reading pane shows a mail's stored HTML body, as stored, whenever
/// it has one, just as the raw document does; only a mail without an HTML
/// body shows its text body, inside `<pre>`.
pub proof fn law_detail_prefers_html(detail: StoredEmail, raw: StoredEmail, id: Seq<char>, doc: JsonValue)
    requires
        stored_email_of(detail, id, doc, shown_html(doc)),
        stored_email_of(raw, id, doc, doc_text(doc, "body_html"@)),
    ensures
        doc_text(doc, "body_html"@).len() > 0 ==> detail.body_html@ == doc_text(doc, "body_html"@)
            && detail.body_html@ == raw.body_html@,
        doc_text(doc, "body_html"@).len() == 0 ==> detail.body_html@ == "<pre>"@ + doc_text(
            doc,
            "body_text"@,
        ) + "</pre>"@,
{
}

} // verus!
