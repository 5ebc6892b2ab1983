use mbox_viewer::json::{extract_from_json, extract_string, JsonValue};
use mbox_viewer::search::{
    email_detail, facet_for_label, label_from_facet, search_response, stored_document,
    summarize_hit, try_plan_search, Clause, SearchParams,
};
use mbox_viewer::service::{plan_service_search, query_text, service_hit, service_instant_of, SortOrder};
use mbox_viewer::store::{doc_date_secs, index_record, DateReading};
use mbox_viewer::email::EmailDoc;

fn s(x: &str) -> JsonValue {
    JsonValue::Str(x.to_string())
}

fn n(x: &str) -> JsonValue {
    JsonValue::Number(x.to_string())
}

fn obj(members: Vec<(&str, JsonValue)>) -> JsonValue {
    JsonValue::Object(members.into_iter().map(|(k, v)| (k.to_string(), v)).collect())
}

fn arr(items: Vec<JsonValue>) -> JsonValue {
    JsonValue::Array(items)
}

fn params() -> SearchParams {
    SearchParams { q: None, label: None, start_date: None, end_date: None, page: None, size: None }
}

fn describe(c: &Clause) -> String {
    match c {
        Clause::All => "all".to_string(),
        Clause::Text(q) => format!("text:{}", q),
        Clause::Facet(f) => format!("facet:{}", f),
        Clause::DateRange(a, b) => format!("range:{}..{}", a, b),
    }
}

fn describe_all(cs: &[Clause]) -> Vec<String> {
    cs.iter().map(describe).collect()
}

#[test]
fn plan_with_every_parameter() {
    let p = SearchParams {
        q: Some("hello".to_string()),
        label: Some("inbox".to_string()),
        start_date: Some("2024-01-01".to_string()),
        end_date: Some("2024-01-31".to_string()),
        page: Some(2),
        size: Some(10),
    };
    let plan = try_plan_search(&p, true, false).unwrap();
    assert_eq!(
        describe_all(&plan.clauses),
        vec!["text:hello", "facet:/Inbox", "range:1704067200..1706745600"]
    );
    assert_eq!((plan.page, plan.size, plan.offset), (2, 10, 10));
}

#[test]
fn plan_without_parameters_matches_everything() {
    let plan = try_plan_search(&params(), true, false).unwrap();
    assert_eq!(describe_all(&plan.clauses), vec!["all"]);
    assert_eq!((plan.page, plan.size, plan.offset), (1, 20, 0));
}

#[test]
fn plan_drops_a_rejected_or_empty_query() {
    let mut p = params();
    p.q = Some("bad((".to_string());
    p.label = Some("Work".to_string());
    let plan = try_plan_search(&p, false, false).unwrap();
    assert_eq!(describe_all(&plan.clauses), vec!["facet:/Work"]);

    let mut p = params();
    p.q = Some(String::new());
    let plan = try_plan_search(&p, true, false).unwrap();
    assert!(plan.clauses.is_empty());
    let plan = try_plan_search(&p, true, true).unwrap();
    assert_eq!(describe_all(&plan.clauses), vec!["all"]);
}

#[test]
fn plan_label_all_selects_no_facet() {
    let mut p = params();
    p.label = Some("ALL".to_string());
    let plan = try_plan_search(&p, true, false).unwrap();
    assert!(plan.clauses.is_empty());
    let plan = try_plan_search(&p, true, true).unwrap();
    assert_eq!(describe_all(&plan.clauses), vec!["all"]);
}

#[test]
fn plan_dates_default_to_the_open_ends() {
    let mut p = params();
    p.start_date = Some("2024-01-01T10:00:00Z".to_string());
    let plan = try_plan_search(&p, true, false).unwrap();
    assert_eq!(describe_all(&plan.clauses), vec!["range:1704103200..2147483647"]);

    let mut p = params();
    p.end_date = Some("garbage".to_string());
    let plan = try_plan_search(&p, true, false).unwrap();
    assert_eq!(describe_all(&plan.clauses), vec!["range:0..2147483647"]);
}

#[test]
fn plan_refuses_what_cannot_be_served() {
    let mut p = params();
    p.page = Some(0);
    assert!(try_plan_search(&p, true, false).is_none());

    let mut p = params();
    p.page = Some(usize::MAX);
    p.size = Some(2);
    assert!(try_plan_search(&p, true, false).is_none());

    let mut p = params();
    p.page = Some(usize::MAX);
    p.size = Some(0);
    assert!(try_plan_search(&p, true, false).is_some());

    let mut p = params();
    p.end_date = Some("+262142-12-31".to_string());
    assert!(try_plan_search(&p, true, false).is_none());
}

#[test]
fn facets_of_labels() {
    assert_eq!(facet_for_label(&"All".to_string()), None);
    assert_eq!(facet_for_label(&"SENT".to_string()), Some("/Sent".to_string()));
    assert_eq!(facet_for_label(&"Inbox".to_string()), Some("/Inbox".to_string()));
    assert_eq!(facet_for_label(&"Work".to_string()), Some("/Work".to_string()));
    assert_eq!(label_from_facet("//Work"), "Work");
}

fn stored_doc() -> JsonValue {
    obj(vec![
        ("id", arr(vec![s("abc123")])),
        ("subject", arr(vec![s("Hello")])),
        ("from", s("alice@example.com")),
        ("to", arr(vec![s("bob@example.com")])),
        ("date", arr(vec![s("2025-01-01T12:00:00+00:00")])),
        ("labels", arr(vec![s("/Inbox"), n("3"), s("/Work")])),
        ("body_text", arr(vec![s(&"x".repeat(250))])),
        ("body_html", arr(vec![s("")])),
        ("has_attachment", arr(vec![JsonValue::Bool(true)])),
        ("attachments", arr(vec![arr(vec![obj(vec![("filename", s("a.pdf"))])])])),
    ])
}

#[test]
fn hits_are_summarized() {
    let e = summarize_hit(&stored_doc());
    assert_eq!(e.id, "abc123");
    assert_eq!(e.subject, "Hello");
    assert_eq!(e.sender, "alice@example.com");
    assert_eq!(e.date, "2025-01-01T12:00:00+00:00");
    assert_eq!(e.snippet.chars().count(), 200);
    assert_eq!(e.labels, vec!["Inbox", "Work"]);
    assert!(e.has_attachment);

    let empty = summarize_hit(&obj(vec![]));
    assert_eq!(empty.id, "");
    assert!(empty.labels.is_empty());
    assert!(!empty.has_attachment);
}

#[test]
fn a_page_of_hits() {
    let plan = try_plan_search(&params(), true, false).unwrap();
    let docs = vec![stored_doc(), obj(vec![("id", s("z"))])];
    let r = search_response(42, &plan, &docs);
    assert_eq!((r.total, r.page, r.size), (42, 1, 20));
    assert_eq!(r.items.len(), 2);
    assert_eq!(r.items[1].id, "z");
}

#[test]
fn detail_of_a_mail_without_html_wraps_the_text() {
    let d = email_detail("abc123", stored_doc());
    assert_eq!(d.id, "abc123");
    assert_eq!(d.to, "bob@example.com");
    assert_eq!(d.body_html, format!("<pre>{}</pre>", "x".repeat(250)));
    assert_eq!(d.labels, vec!["Inbox", "Work"]);
    match d.attachments {
        Some(JsonValue::Array(items)) => assert_eq!(items.len(), 1),
        _ => panic!("attachments are not unwrapped"),
    }
}

#[test]
fn stored_document_keeps_the_html_as_stored() {
    let d = stored_document("abc123", stored_doc());
    assert_eq!(d.body_html, "");
    let d = stored_document("q", obj(vec![("body_html", s("<b>x</b>")), ("attachments", JsonValue::Null)]));
    assert_eq!(d.body_html, "<b>x</b>");
    assert!(matches!(d.attachments, Some(JsonValue::Null)));
    let d = stored_document("q", obj(vec![]));
    assert!(d.attachments.is_none());
}

#[test]
fn stored_text_reading() {
    assert_eq!(extract_string(Some(&arr(vec![s("a"), s("b")]))), "a");
    assert_eq!(extract_string(Some(&s("c"))), "c");
    assert_eq!(extract_string(Some(&n("1"))), "");
    assert_eq!(extract_string(None), "");
    let doc = obj(vec![("id", arr(vec![s("x")])), ("n", n("5"))]);
    assert_eq!(extract_from_json(&doc, "id"), "x");
    assert_eq!(extract_from_json(&doc, "n"), "");
    assert_eq!(extract_from_json(&doc, "missing"), "");
}

fn service_body(gte: &str, lte: &str) -> JsonValue {
    obj(vec![
        (
            "query",
            obj(vec![(
                "bool",
                obj(vec![
                    ("must", arr(vec![obj(vec![("multi_match", obj(vec![("query", s("hello"))]))])])),
                    (
                        "filter",
                        arr(vec![
                            obj(vec![("term", obj(vec![("labels", s("Inbox"))]))]),
                            obj(vec![("range", obj(vec![("date", obj(vec![("gte", s(gte)), ("lte", s(lte))]))]))]),
                        ]),
                    ),
                ]),
            )]),
        ),
        ("from", n("5")),
        ("size", n("10")),
        ("sort", arr(vec![obj(vec![("date", obj(vec![("order", s("asc"))]))])])),
    ])
}

#[test]
fn service_plan_reads_the_body() {
    let body = service_body("2024-01-01T00:00:00Z", "2024-01-31 10:00:00");
    assert_eq!(query_text(&body), "hello");
    let plan = plan_service_search(&body, true);
    assert_eq!(
        describe_all(&plan.clauses),
        vec!["text:hello", "facet:/Inbox", "range:1704067200..1706695200"]
    );
    assert_eq!((plan.from, plan.size), (5, 10));
    assert_eq!(plan.sort, SortOrder::DateAscending);

    let plan = plan_service_search(&body, false);
    assert_eq!(describe(&plan.clauses[0]), "all");
}

#[test]
fn service_plan_defaults() {
    let plan = plan_service_search(&obj(vec![]), true);
    assert_eq!(describe_all(&plan.clauses), vec!["all"]);
    assert_eq!((plan.from, plan.size), (0, 20));
    assert_eq!(plan.sort, SortOrder::Score);

    let body = obj(vec![("sort", arr(vec![obj(vec![("date", obj(vec![]))])]))]);
    assert_eq!(plan_service_search(&body, true).sort, SortOrder::DateDescending);
}

#[test]
fn service_date_only_bounds_are_unreadable() {
    // A bare date has no time of day, which `Utc.datetime_from_str` needs.
    assert_eq!(service_instant_of("2024-01-01"), None);
    assert_eq!(service_instant_of("2024-01-01 00:00:00"), Some(1704067200));
    let body = service_body("2024-01-01", "2024-01-02");
    let plan = plan_service_search(&body, true);
    assert_eq!(describe_all(&plan.clauses), vec!["text:hello", "facet:/Inbox"]);
}

#[test]
fn service_hits_report_the_document() {
    let h = service_hit(&stored_doc());
    assert_eq!(h.id, "abc123");
    assert_eq!(h.from, "alice@example.com");
    assert_eq!(h.labels, vec!["Inbox", "Work"]);
    assert!(h.has_attachment);
}

fn doc_with_date(date: &str) -> EmailDoc {
    EmailDoc {
        id: "1".to_string(),
        subject: "S".to_string(),
        from: "f".to_string(),
        to: "t".to_string(),
        date: date.to_string(),
        labels: vec!["Inbox".to_string(), "Work".to_string()],
        body_text: "b".to_string(),
        body_html: String::new(),
        has_attachment: false,
        attachments: JsonValue::Array(vec![]),
    }
}

#[test]
fn index_records_carry_facets_and_seconds() {
    let r = index_record(doc_with_date("2025-01-01T12:00:00Z"), DateReading::Naive, 7);
    assert_eq!(r.date_secs, 1735732800);
    assert_eq!(r.facets, vec!["/Inbox", "/Work"]);
    assert_eq!(r.id, "1");
    let r = index_record(doc_with_date("2025-01-01 12:00:00"), DateReading::Utc, 7);
    assert_eq!(r.date_secs, 1735732800);
    let r = index_record(doc_with_date("soon"), DateReading::Naive, 7);
    assert_eq!(r.date_secs, 7);
    assert_eq!(doc_date_secs("2025-01-01 12:00:00", DateReading::Naive, 0), 1735732800);
}
