//! Turning one raw message into the document that the index stores, and a
//! stored document into the record that the index writer takes.

use vstd::prelude::*;

use crate::dates::{
    now, parse_naive_datetime, parse_rfc3339, parse_utc, printable, rfc3339_text, mail_date,
    spec_parse_naive_datetime, spec_parse_rfc3339, spec_parse_utc, spec_rfc3339_text,
    try_parse_date, Instant,
};
use crate::html::{clean_html, html_text};
use crate::json::JsonValue;
use crate::mail::{
    body_text, extract_parts, extract_part, header_text, law_alternative_bodies, not_attachment,
    parse_mail, spec_parse_mail, starts_with, MailPart, SavedAttachment, SavedView, saved_views,
    ExtractedView,
};
use crate::text::{
    after_last, after_last_char, chars_of, concat, decimal, decimal_of, hex_encode, hex_lower,
    label_list, owned, parse_label_list, sanitize_header, sanitized, string_of, take_chars,
    take_prefix, third_field, third_space_field, views,
};

verus! {

/// A mail as the index stores it.
pub struct EmailDoc {
    pub id: String,
    pub subject: String,
    pub from: String,
    pub to: String,
    /// RFC 3339.
    pub date: String,
    pub labels: Vec<String>,
    pub body_text: String,
    pub body_html: String,
    pub has_attachment: bool,
    pub attachments: JsonValue,
}

/// The SHA-256 digest of `data`.
pub uninterp spec fn spec_sha256(data: Seq<u8>) -> Seq<u8>;

/// `sha2::Sha256::digest`: the digest of the bytes, thirty-two bytes long.
#[verifier::external_body]
pub(crate) fn sha256(data: &[u8]) -> (r: Vec<u8>)
    ensures
        r@ == spec_sha256(data@),
        r@.len() == 32,
{
    <sha2::Sha256 as sha2::Digest>::digest(data).to_vec()
}

/// The id under which a message is filed: its `Message-ID` header
/// sanitised, or `generated-` and its position when it has none.
pub open spec fn message_id(p: MailPart, index: nat) -> Seq<char> {
    let raw = header_text(p, "Message-ID"@);
    if raw.len() == 0 {
        "generated-"@ + decimal(index)
    } else {
        sanitized(raw)
    }
}

/// The short id of a message: the first twelve hexadecimal digits of the
/// SHA-256 digest of its id's UTF-8 bytes.
pub open spec fn short_id(msg_id: Seq<char>) -> Seq<char> {
    take_chars(hex_lower(spec_sha256(vstd::utf8::encode_utf8(msg_id))), 12)
}

/// The date in a header that carries one after its last `;`.
pub open spec fn date_after_semicolon(v: Seq<char>) -> Option<(i64, u32)> {
    if v.len() > 0 {
        mail_date(sanitized(after_last(v, ';')))
    } else {
        None
    }
}

/// The date of the `From ` line: its third space-separated field onward.
pub open spec fn from_line_date(from_line: Seq<char>) -> Option<(i64, u32)> {
    if from_line.len() > 0 {
        match third_field(from_line) {
            Some(v) => mail_date(sanitized(v)),
            None => None,
        }
    } else {
        None
    }
}

/// The date of a message: the first of its `Date` header, its
/// `X-Received` and `Received` headers (after their last `;`) and its
/// `From ` line that denotes one.
pub open spec fn message_date(p: MailPart, from_line: Seq<char>) -> Option<(i64, u32)> {
    let d = header_text(p, "Date"@);
    let from_date = if d.len() > 0 {
        mail_date(sanitized(d))
    } else {
        None
    };
    if from_date is Some {
        from_date
    } else if date_after_semicolon(header_text(p, "X-Received"@)) is Some {
        date_after_semicolon(header_text(p, "X-Received"@))
    } else if date_after_semicolon(header_text(p, "Received"@)) is Some {
        date_after_semicolon(header_text(p, "Received"@))
    } else {
        from_line_date(from_line)
    }
}

/// The plain-text body: the text body, or the readable text of the HTML
/// body when the text body is empty.
pub open spec fn plain_body(ex: ExtractedView) -> Seq<char> {
    if ex.text.len() == 0 && ex.html.len() > 0 {
        html_text(ex.html)
    } else {
        ex.text
    }
}

/// `v` is a JSON string holding `t`.
pub open spec fn json_str_is(v: JsonValue, t: Seq<char>) -> bool {
    v matches JsonValue::Str(s) && s@ == t
}

/// `v` is the stored metadata of attachment `a`: an object with its MIME
/// type, file name, path and size, members in that order.
pub open spec fn meta_json(v: JsonValue, a: SavedView) -> bool {
    v matches JsonValue::Object(es) && es@.len() == 4
        && es@[0].0@ == "content_type"@ && json_str_is(es@[0].1, a.content_type)
        && es@[1].0@ == "filename"@ && json_str_is(es@[1].1, a.filename)
        && es@[2].0@ == "path"@ && json_str_is(es@[2].1, a.path)
        && es@[3].0@ == "size"@ && (es@[3].1 matches JsonValue::Number(n) && n@ == decimal(a.size))
}

/// `v` is the stored list of the attachments `s`.
pub open spec fn metas_json(v: JsonValue, s: Seq<SavedView>) -> bool {
    v matches JsonValue::Array(items) && items@.len() == s.len()
        && forall|i: int| 0 <= i < s.len() ==> meta_json(#[trigger] items@[i], s[i])
}

/// `d` is the document of the parsed message `p`, read from a `From ` line
/// `from_line`, at position `index`, dated `date` (the message's own date,
/// or the fallback when it has none); `saved` are its attachments, kept
/// when `save` holds.
pub open spec fn document_of(
    d: EmailDoc,
    saved: Seq<SavedView>,
    p: MailPart,
    from_line: Seq<char>,
    index: nat,
    save: bool,
    fallback: (i64, u32),
) -> bool {
    let id = short_id(message_id(p, index));
    let ex = extract_part(p, id, save);
    let when = match message_date(p, from_line) {
        Some(w) => w,
        None => fallback,
    };
    &&& d.id@ == id
    &&& d.subject@ == sanitized(header_text(p, "Subject"@))
    &&& d.from@ == sanitized(header_text(p, "From"@))
    &&& d.to@ == sanitized(header_text(p, "To"@))
    &&& spec_rfc3339_text(when.0, when.1) == Some(d.date@)
    &&& views(d.labels@) == label_list(header_text(p, "X-Gmail-Labels"@))
    &&& d.body_text@ == plain_body(ex)
    &&& d.body_html@ == ex.html
    &&& saved == ex.saved
    &&& d.has_attachment == (ex.saved.len() > 0)
    &&& metas_json(d.attachments, ex.saved)
}

/// A document keeps the HTML body of its message whether or not the
/// message also has a text body; its text is the message's text body when
/// there is one, the readable text of the HTML body when only that
/// exists, and empty when the message has neither.
pub proof fn law_document_bodies(
    d: EmailDoc,
    saved: Seq<SavedView>,
    p: MailPart,
    from_line: Seq<char>,
    index: nat,
    save: bool,
    fallback: (i64, u32),
)
    requires
        document_of(d, saved, p, from_line, index, save, fallback),
    ensures
        d.body_html@ == extract_part(p, d.id@, save).html,
        extract_part(p, d.id@, save).text.len() > 0 ==> d.body_text@ == extract_part(
            p,
            d.id@,
            save,
        ).text,
        extract_part(p, d.id@, save).text.len() == 0 && extract_part(p, d.id@, save).html.len() > 0
            ==> d.body_text@ == html_text(extract_part(p, d.id@, save).html),
        extract_part(p, d.id@, save).text.len() == 0 && extract_part(p, d.id@, save).html.len() == 0
            ==> d.body_text@.len() == 0,
{
}

/// A `multipart/alternative` message with a text body `t` and an HTML body
/// `h` is stored with both: `t`'s body as its text (when not empty) and
/// `h`'s as its HTML.
pub proof fn law_alternative_document(
    d: EmailDoc,
    saved: Seq<SavedView>,
    p: MailPart,
    t: MailPart,
    h: MailPart,
    from_line: Seq<char>,
    index: nat,
    save: bool,
    fallback: (i64, u32),
)
    requires
        document_of(d, saved, p, from_line, index, save, fallback),
        p.subparts@ == seq![t, h],
        t.subparts@.len() == 0,
        h.subparts@.len() == 0,
        starts_with(t.mimetype@, "text/plain"@),
        starts_with(h.mimetype@, "text/html"@),
        not_attachment(t),
        not_attachment(h),
    ensures
        d.body_html@ == body_text(h),
        body_text(t).len() > 0 ==> d.body_text@ == body_text(t),
        !d.has_attachment,
{
    law_alternative_bodies(p, t, h, d.id@, save);
}

/// A processed message: its document and the attachment files to write.
pub struct ProcessedEmail {
    pub doc: EmailDoc,
    pub saved: Vec<SavedAttachment>,
}

fn header_date(p: &MailPart, from_line: &str) -> (r: Option<Instant>)
    ensures
        crate::dates::pair_of(r) == message_date(*p, from_line@),
        crate::dates::parsed_ok(crate::dates::pair_of(r)),
{
    let d = p.header("Date");
    if !d.as_str().is_empty() {
        let san = sanitize_header(d.as_str());
        let r = try_parse_date(san.as_str());
        if r.is_some() {
            return r;
        }
    }
    let x = after_semicolon_date(p.header("X-Received").as_str());
    if x.is_some() {
        return x;
    }
    let y = after_semicolon_date(p.header("Received").as_str());
    if y.is_some() {
        return y;
    }
    if from_line.is_empty() {
        return None;
    }
    let fl = chars_of(from_line);
    match third_space_field(fl.as_slice()) {
        Some(v) => {
            let vs = string_of(v.as_slice());
            let san = sanitize_header(vs.as_str());
            try_parse_date(san.as_str())
        },
        None => None,
    }
}

fn after_semicolon_date(v: &str) -> (r: Option<Instant>)
    ensures
        crate::dates::pair_of(r) == date_after_semicolon(v@),
        crate::dates::parsed_ok(crate::dates::pair_of(r)),
{
    if v.is_empty() {
        return None;
    }
    let cs = chars_of(v);
    let tail = string_of(after_last_char(cs.as_slice(), ';').as_slice());
    let san = sanitize_header(tail.as_str());
    try_parse_date(san.as_str())
}

fn message_id_of(p: &MailPart, index: usize) -> (r: String)
    ensures
        r@ == message_id(*p, index as nat),
{
    let raw = p.header("Message-ID");
    if raw.as_str().is_empty() {
        let digits = decimal_of(index);
        let ds = string_of(digits.as_slice());
        concat("generated-", ds.as_str())
    } else {
        sanitize_header(raw.as_str())
    }
}

fn short_id_of(msg_id: &str) -> (r: String)
    ensures
        r@ == short_id(msg_id@),
{
    let digest = sha256(msg_id.as_bytes());
    let h = hex_encode(digest.as_slice());
    let hc = chars_of(h.as_str());
    string_of(take_prefix(hc.as_slice(), 12).as_slice())
}

/// The stored metadata of one attachment.
fn meta_of(a: &SavedAttachment) -> (r: JsonValue)
    ensures
        meta_json(r, a@),
{
    let size = string_of(decimal_of(a.size).as_slice());
    let mut es: Vec<(String, JsonValue)> = Vec::new();
    es.push((owned("content_type"), JsonValue::Str(a.content_type.clone())));
    es.push((owned("filename"), JsonValue::Str(a.filename.clone())));
    es.push((owned("path"), JsonValue::Str(a.path.clone())));
    es.push((owned("size"), JsonValue::Number(size)));
    JsonValue::Object(es)
}

/// The stored list of attachments.
fn metas_of(s: &Vec<SavedAttachment>) -> (r: JsonValue)
    ensures
        metas_json(r, saved_views(s@)),
{
    let mut items: Vec<JsonValue> = Vec::new();
    let mut i: usize = 0;
    while i < s.len()
        invariant
            i <= s.len(),
            items@.len() == i,
            forall|k: int| 0 <= k < i ==> meta_json(#[trigger] items@[k], s@[k]@),
        decreases s.len() - i,
    {
        items.push(meta_of(&s[i]));
        i = i + 1;
    }
    JsonValue::Array(items)
}

/// Builds the document of a parsed message (see `document_of`); `fallback`
/// dates a message that carries no readable date.
pub fn build_email(p: &MailPart, from_line: &str, index: usize, save: bool, fallback: Instant) -> (r:
    ProcessedEmail)
    requires
        printable((fallback.secs, fallback.nanos)),
    ensures
        document_of(r.doc, saved_views(r.saved@), *p, from_line@, index as nat, save, (fallback.secs, fallback.nanos)),
{
    let subject = sanitize_header(p.header("Subject").as_str());
    let from = sanitize_header(p.header("From").as_str());
    let to = sanitize_header(p.header("To").as_str());
    let msg_id = message_id_of(p, index);
    let id = short_id_of(msg_id.as_str());
    let when = match header_date(p, from_line) {
        Some(d) => d,
        None => fallback,
    };
    let date = match rfc3339_text(when.secs, when.nanos) {
        Some(t) => t,
        None => String::new(),
    };
    let labels = parse_label_list(p.header("X-Gmail-Labels").as_str());
    let ex = extract_parts(p, id.as_str(), save);
    let body_text = if ex.text.as_str().is_empty() && !ex.html.as_str().is_empty() {
        clean_html(ex.html.as_str())
    } else {
        ex.text
    };
    let attachments = metas_of(&ex.saved);
    let has_attachment = ex.saved.len() > 0;
    ProcessedEmail {
        doc: EmailDoc {
            id,
            subject,
            from,
            to,
            date,
            labels,
            body_text,
            body_html: ex.html,
            has_attachment,
            attachments,
        },
        saved: ex.saved,
    }
}

/// Processes one raw message: nothing when `mailparse` rejects it, its
/// document otherwise, dated by the message or, failing that, by the clock.
pub fn process_email_content(raw: &[u8], from_line: &str, save: bool, index: usize) -> (r: Option<
    ProcessedEmail,
>)
    ensures
        r is None <==> spec_parse_mail(raw@) is None,
        r matches Some(e) ==> exists|fallback: (i64, u32)|
            printable(fallback) && #[trigger] document_of(
                e.doc,
                saved_views(e.saved@),
                spec_parse_mail(raw@)->0,
                from_line@,
                index as nat,
                save,
                fallback,
            ),
{
    let clock = now();
    match parse_mail(raw) {
        Some(p) => Some(build_email(&p, from_line, index, save, clock)),
        None => None,
    }
}

} // verus!
