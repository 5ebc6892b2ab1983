use mbox_viewer::dates::{parse_date, try_parse_date, Instant, FIRST_DAY_START, LAST_DAY_START};
use mbox_viewer::email::process_email_content;
use mbox_viewer::html::clean_html;
use mbox_viewer::json::JsonValue;
use mbox_viewer::mail::{extract_parts, MailPart};
use mbox_viewer::text::{parse_label_list, sanitize_header};

fn fmt(i: Instant, f: &str) -> String {
    chrono::DateTime::from_timestamp(i.secs, i.nanos)
        .unwrap()
        .format(f)
        .to_string()
}

fn short_id_of(id: &str) -> String {
    hex::encode(<sha2::Sha256 as sha2::Digest>::digest(id.as_bytes()))[..12].to_string()
}

fn text(s: &str) -> String {
    s.to_string()
}

#[test]
fn test_sanitize_header() {
    assert_eq!(sanitize_header("test@example.com\r"), "test@example.com");
    assert_eq!(sanitize_header("test@example.com\n"), "test@example.com");
    assert_eq!(
        sanitize_header("From:\r\ntest@example.com"),
        "From: test@example.com"
    );
    assert_eq!(sanitize_header("   spaces   "), "spaces");
}

#[test]
fn test_parse_date() {
    // RFC 2822
    let dt = parse_date("Tue, 30 Dec 2025 12:00:00 -0000");
    assert_eq!(fmt(dt, "%Y-%m-%d"), "2025-12-30");

    // Short date DD-MM-YY
    let dt = parse_date("28-09-12");
    assert_eq!(fmt(dt, "%Y-%m-%d"), "2012-09-28");

    // Cut after the hour
    let dt = parse_date("Wed, 14 May 2008 15");
    assert_eq!(fmt(dt, "%Y-%m-%d %H"), "2008-05-14 15");

    // The notation of a From line
    let dt = parse_date("Thu Jul 10 14:57:19 +0000 2014");
    assert_eq!(fmt(dt, "%Y-%m-%d"), "2014-07-10");

    // A sanitised Received value
    let sanitized = sanitize_header("Fri, 21 Nov 2007 09:55:06 -0600");
    let dt = parse_date(&sanitized);
    assert_eq!(fmt(dt, "%Y-%m-%d"), "2007-11-21");

    // ISO 8601
    let dt = parse_date("2026-01-02T12:00:00Z");
    assert_eq!(fmt(dt, "%Y-%m-%d"), "2026-01-02");

    // Two-digit year
    let dt = parse_date("15-03-95");
    assert_eq!(fmt(dt, "%d-%m"), "15-03");

    // Whitespace only: the present moment
    let dt = parse_date("   ");
    assert!(dt.secs > 0);
}

#[test]
fn test_mime_decoding() {
    let raw = b"Subject: =?UTF-8?B?VGVzdCBTdWJqZWN0?=\r\n\
From: =?iso-8859-2?Q?Rozpocz=EAcie_zam=F3wienia?=\r\n\
\r\n";

    let processed = process_email_content(raw, "", false, 0).unwrap();

    assert_eq!(processed.doc.subject, "Test Subject");
    assert_eq!(processed.doc.from, "Rozpoczęcie zamówienia");
}

fn header(k: &str, v: &str) -> (String, String) {
    (text(k), text(v))
}

fn multipart_message() -> MailPart {
    let body = MailPart {
        headers: vec![header("Content-Type", "text/plain")],
        mimetype: text("text/plain"),
        ctype_params: vec![header("charset", "us-ascii")],
        body: Some(text("Body text\r\n")),
        body_raw: Some(b"Body text\r\n".to_vec()),
        subparts: vec![],
    };
    let pdf = MailPart {
        headers: vec![
            header("Content-Type", "application/pdf; name=\"test_file.pdf\""),
            header("Content-Disposition", "attachment; filename=\"test_file.pdf\""),
        ],
        mimetype: text("application/pdf"),
        ctype_params: vec![header("name", "test_file.pdf")],
        body: Some(text("FAKE PDF CONTENT\r\n")),
        body_raw: Some(b"FAKE PDF CONTENT\r\n".to_vec()),
        subparts: vec![],
    };
    MailPart {
        headers: vec![header("Content-Type", "multipart/mixed; boundary=\"boundary\"")],
        mimetype: text("multipart/mixed"),
        ctype_params: vec![header("boundary", "boundary")],
        body: Some(text("")),
        body_raw: Some(vec![]),
        subparts: vec![body, pdf],
    }
}

const MULTIPART_RAW: &[u8] = b"Content-Type: multipart/mixed; boundary=\"boundary\"\r\n\
\r\n\
--boundary\r\n\
Content-Type: text/plain\r\n\
\r\n\
Body text\r\n\
--boundary\r\n\
Content-Type: application/pdf; name=\"test_file.pdf\"\r\n\
Content-Disposition: attachment; filename=\"test_file.pdf\"\r\n\
\r\n\
FAKE PDF CONTENT\r\n\
--boundary--";

#[test]
fn test_extract_attachments_multipart() {
    let parsed = multipart_message();
    let ex = extract_parts(&parsed, "shortid", true);

    assert_eq!(ex.text.trim(), "Body text");
    assert_eq!(ex.saved.len(), 1);
    assert_eq!(ex.saved[0].filename, "test_file.pdf");
    assert_eq!(ex.saved[0].content_type, "application/pdf");

    // The file goes to shortid/test_file.pdf with the decoded content.
    assert_eq!(ex.saved[0].dir, "shortid");
    assert_eq!(ex.saved[0].path, "shortid/test_file.pdf");
    assert_eq!(ex.saved[0].content, b"FAKE PDF CONTENT\r\n".to_vec());
    assert_eq!(ex.saved[0].size, 18);
}

#[test]
fn attachments_are_skipped_when_not_saved() {
    let ex = extract_parts(&multipart_message(), "shortid", false);
    assert_eq!(ex.text.trim(), "Body text");
    assert!(ex.saved.is_empty());
}

#[test]
fn attachment_names_lose_their_slashes() {
    let mut m = multipart_message();
    m.subparts[1].headers[1] = header("Content-Disposition", "attachment; filename=\"a/b.pdf\"");
    let ex = extract_parts(&m, "x/y", true);
    assert_eq!(ex.saved[0].filename, "a_b.pdf");
    assert_eq!(ex.saved[0].dir, "x_y");
    assert_eq!(ex.saved[0].path, "x_y/a_b.pdf");

    m.subparts[1].headers[1] = header("Content-Disposition", "attachment");
    m.subparts[1].ctype_params = vec![header("name", "c\\d.pdf")];
    let ex = extract_parts(&m, "id", true);
    assert_eq!(ex.saved[0].filename, "c_d.pdf");
}

#[test]
fn attachment_without_filename_uses_type_name_then_default() {
    let mut m = multipart_message();
    m.subparts[1].headers[1] = header("Content-Disposition", "attachment");
    let ex = extract_parts(&m, "id", true);
    assert_eq!(ex.saved[0].filename, "test_file.pdf");
    m.subparts[1].ctype_params = vec![];
    let ex = extract_parts(&m, "id", true);
    assert_eq!(ex.saved[0].filename, "attachment");
}

#[test]
fn single_part_html_goes_to_html() {
    let p = MailPart {
        headers: vec![],
        mimetype: text("text/html"),
        ctype_params: vec![],
        body: Some(text("<p>Hi</p>")),
        body_raw: Some(b"<p>Hi</p>".to_vec()),
        subparts: vec![],
    };
    let ex = extract_parts(&p, "id", true);
    assert_eq!(ex.text, "");
    assert_eq!(ex.html, "<p>Hi</p>");
}

#[test]
fn processing_a_multipart_message() {
    let p = process_email_content(MULTIPART_RAW, "", true, 7).unwrap();
    let id = short_id_of("generated-7");
    assert_eq!(p.doc.id, id);
    assert_eq!(p.doc.body_text.trim(), "Body text");
    assert!(p.doc.has_attachment);
    assert_eq!(p.saved.len(), 1);
    assert_eq!(p.saved[0].filename, "test_file.pdf");
    assert_eq!(p.saved[0].content_type, "application/pdf");
    assert_eq!(p.saved[0].content, b"FAKE PDF CONTENT\r\n".to_vec());
    assert_eq!(p.saved[0].dir, id);
    match &p.doc.attachments {
        JsonValue::Array(items) => {
            assert_eq!(items.len(), 1);
            match &items[0] {
                JsonValue::Object(members) => {
                    let names: Vec<&str> = members.iter().map(|(k, _)| k.as_str()).collect();
                    assert_eq!(names, vec!["content_type", "filename", "path", "size"]);
                    assert!(matches!(&members[1].1, JsonValue::Str(f) if f == "test_file.pdf"));
                    assert!(matches!(&members[2].1, JsonValue::Str(f) if *f == format!("{}/test_file.pdf", id)));
                    assert!(matches!(&members[3].1, JsonValue::Number(n) if n == "18"));
                }
                _ => panic!("attachment metadata is not an object"),
            }
        }
        _ => panic!("attachments are not an array"),
    }
    // No date anywhere: dated by the clock, in RFC 3339.
    assert!(chrono::DateTime::parse_from_rfc3339(&p.doc.date).is_ok());
}

#[test]
fn processing_without_saving_lists_no_attachment() {
    let p = process_email_content(MULTIPART_RAW, "", false, 0).unwrap();
    assert!(!p.doc.has_attachment);
    assert!(p.saved.is_empty());
    assert!(matches!(&p.doc.attachments, JsonValue::Array(items) if items.is_empty()));
}

#[test]
fn processing_reads_headers_labels_and_date() {
    let raw = b"Message-ID: <abc@example.com>\r\n\
Subject: Hello\r\n\
\x20world\r\n\
From: Alice <alice@example.com>\r\n\
To: bob@example.com\r\n\
Date: Tue, 30 Dec 2025 12:00:00 -0000\r\n\
X-Gmail-Labels: Inbox, Important,,Sent \r\n\
Content-Type: text/plain\r\n\
\r\n\
Hi Bob\r\n";
    let p = process_email_content(raw, "From alice Thu Jul 10 14:57:19 +0000 2014", true, 3).unwrap();
    assert_eq!(p.doc.id, short_id_of("<abc@example.com>"));
    assert_eq!(p.doc.subject, "Hello world");
    assert_eq!(p.doc.from, "Alice <alice@example.com>");
    assert_eq!(p.doc.to, "bob@example.com");
    assert_eq!(p.doc.date, "2025-12-30T12:00:00+00:00");
    assert_eq!(p.doc.labels, vec!["Inbox", "Important", "Sent"]);
    assert_eq!(p.doc.body_text.trim(), "Hi Bob");
    assert_eq!(p.doc.body_html, "");
    assert!(!p.doc.has_attachment);
}

#[test]
fn processing_falls_back_to_received_then_from_line() {
    let raw = b"Received: by mx; Fri, 21 Nov 2007 09:55:06 -0600\r\n\r\nbody\r\n";
    let p = process_email_content(raw, "", false, 0).unwrap();
    assert_eq!(p.doc.date, "2007-11-21T15:55:06+00:00");

    let raw = b"X-Received: by mx; 2026-01-02T12:00:00Z\r\nReceived: by mx; Fri, 21 Nov 2007 09:55:06 -0600\r\n\r\nbody\r\n";
    let p = process_email_content(raw, "", false, 0).unwrap();
    assert_eq!(p.doc.date, "2026-01-02T12:00:00+00:00");

    let raw = b"Subject: chat\r\n\r\nbody\r\n";
    let p = process_email_content(raw, "From 12345@xxx Thu Jul 10 14:57:19 +0000 2014", false, 0).unwrap();
    assert_eq!(p.doc.date, "2014-07-10T14:57:19+00:00");
}

#[test]
fn processing_html_only_mail_cleans_the_html() {
    let raw = b"Content-Type: text/html\r\n\r\n<html><body><p> Hello </p><script>x()</script><p>World</p></body></html>\r\n";
    let p = process_email_content(raw, "", false, 0).unwrap();
    assert_eq!(p.doc.body_text, "Hello World");
    assert!(p.doc.body_html.contains("<p> Hello </p>"));
}

#[test]
fn clean_html_skips_scripts_and_styles() {
    let html = "<html><head><style>p { color: red }</style><script>alert(1)</script></head>\
<body><p> Hello </p>\n<p>World</p></body></html>";
    assert_eq!(clean_html(html), "Hello World");
    assert_eq!(clean_html(""), "");
}

#[test]
fn clean_html_is_trimmed() {
    let t = clean_html("<div>  a  <b> b </b>\n\n</div>");
    assert_eq!(t, "a b");
    assert_eq!(t.trim(), t);
}

#[test]
fn sanitize_header_is_idempotent_and_single_spaced() {
    let once = sanitize_header("  a\t\tb \r\n c  ");
    assert_eq!(once, "a b c");
    assert_eq!(sanitize_header(&once), once);
    assert!(!once.contains("  "));
}

#[test]
fn try_parse_date_rejects_empty_and_garbage() {
    assert!(try_parse_date("").is_none());
    assert!(try_parse_date("not a date").is_none());
    assert_eq!(
        try_parse_date("2026-01-02T12:00:00Z"),
        Some(Instant { secs: 1767355200, nanos: 0 })
    );
}

#[test]
fn day_bounds_are_chronos() {
    let last = chrono::NaiveDate::MAX
        .and_hms_opt(0, 0, 0)
        .unwrap()
        .and_utc()
        .timestamp();
    let first = chrono::NaiveDate::MIN
        .and_hms_opt(0, 0, 0)
        .unwrap()
        .and_utc()
        .timestamp();
    assert_eq!(last, LAST_DAY_START);
    assert_eq!(first, FIRST_DAY_START);
}

#[test]
fn label_lists_are_trimmed_and_skip_empty_entries() {
    assert_eq!(parse_label_list(" Inbox ,Work,, ,Sent"), vec!["Inbox", "Work", "Sent"]);
    assert!(parse_label_list("").is_empty());
}

#[test]
fn unreadable_dates_take_the_fallback() {
    let fallback = Instant { secs: 5, nanos: 7 };
    assert_eq!(mbox_viewer::dates::parse_date_or("   ", fallback), fallback);
    assert_eq!(
        mbox_viewer::dates::parse_date_or("28-09-12", fallback),
        Instant { secs: 1348790400, nanos: 0 }
    );
}
