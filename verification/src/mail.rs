//! A parsed mail as the indexer reads it: `mailparse` parses the message,
//! this module picks the bodies and attachments out of its parts.

use vstd::prelude::*;

use crate::text::{
    append_chars, chars_of, concat, eq_ignore_ascii_case, equal_ignoring_ascii_case, replace_any,
    replace_chars, same_text, string_of,
};

verus! {

/// One part of a parsed mail (the whole mail is the outermost part).
pub struct MailPart {
    /// Header names and values, in order, the values decoded.
    pub headers: Vec<(String, String)>,
    /// The lower-cased MIME type of the part, `text/plain` when it states
    /// none.
    pub mimetype: String,
    /// The parameters of its `Content-Type` header, by name.
    pub ctype_params: Vec<(String, String)>,
    /// The body with its transfer encoding and charset undone, when that
    /// succeeds.
    pub body: Option<String>,
    /// The body with its transfer encoding undone, when that succeeds.
    pub body_raw: Option<Vec<u8>>,
    /// The parts of a multipart body.
    pub subparts: Vec<MailPart>,
}

#[verifier::external_type_specification]
#[verifier::external_body]
pub struct ExParsedMail<'a>(mailparse::ParsedMail<'a>);

/// `mailparse::parse_mail(raw)`, each part read into a `MailPart`.
pub uninterp spec fn spec_parse_mail(raw: Seq<u8>) -> Option<MailPart>;

/// Reads one part of `mailparse`'s parse tree, and its subparts, into
/// `MailPart`s: the decoded headers (`get_key`, `get_value`), the MIME type
/// and parameters, `get_body` and `get_body_raw`.
#[verifier::external_body]
fn mail_part_of(m: &mailparse::ParsedMail) -> MailPart {
    MailPart {
        headers: m.headers.iter().map(|h| (h.get_key(), h.get_value())).collect(),
        mimetype: m.ctype.mimetype.clone(),
        ctype_params: m.ctype.params.iter().map(|(k, v)| (k.clone(), v.clone())).collect(),
        body: m.get_body().ok(),
        body_raw: m.get_body_raw().ok(),
        subparts: m.subparts.iter().map(mail_part_of).collect(),
    }
}

/// `mailparse::parse_mail`: the parse of a raw message, nothing when
/// `mailparse` rejects it. The result is a function of the bytes alone.
/// `mailparse` descends once per nested multipart level, and so does the
/// reading into `MailPart`s; nothing here bounds that depth, so a message
/// nested deeply enough to exhaust the stack lies outside this contract.
#[verifier::external_body]
pub(crate) fn parse_mail(raw: &[u8]) -> (r: Option<MailPart>)
    ensures
        r == spec_parse_mail(raw@),
{
    mailparse::parse_mail(raw).ok().map(|m| mail_part_of(&m))
}

/// The value of the first header whose name matches `key` up to ASCII
/// case, as `MailHeaderMap::get_first_value` finds it.
pub open spec fn first_header(hs: Seq<(String, String)>, key: Seq<char>) -> Option<Seq<char>>
    decreases hs.len(),
{
    if hs.len() == 0 {
        None
    } else if eq_ignore_ascii_case(hs[0].0@, key) {
        Some(hs[0].1@)
    } else {
        first_header(hs.drop_first(), key)
    }
}

/// The value of a header, empty when the part has none.
pub open spec fn header_text(p: MailPart, key: Seq<char>) -> Seq<char> {
    match first_header(p.headers@, key) {
        Some(v) => v,
        None => Seq::empty(),
    }
}

impl MailPart {
    /// The value of the first header named `key` (up to ASCII case).
    pub fn first_header_value(&self, key: &str) -> (r: Option<String>)
        ensures
            crate::search::opt_text(r) == first_header(self.headers@, key@),
    {
        let k = chars_of(key);
        let mut i: usize = 0;
        assert(self.headers@.skip(0) == self.headers@);
        while i < self.headers.len()
            invariant
                i <= self.headers.len(),
                k@ == key@,
                first_header(self.headers@, key@) == first_header(
                    self.headers@.skip(i as int),
                    key@,
                ),
            decreases self.headers.len() - i,
        {
            assert(self.headers@.skip(i as int)[0] == self.headers@[i as int]);
            let name = chars_of(self.headers[i].0.as_str());
            if equal_ignoring_ascii_case(name.as_slice(), k.as_slice()) {
                return Some(self.headers[i].1.clone());
            }
            assert(self.headers@.skip(i as int).drop_first() == self.headers@.skip(i + 1));
            i = i + 1;
        }
        None
    }

    /// The value of the header named `key`, empty when there is none.
    pub fn header(&self, key: &str) -> (r: String)
        ensures
            r@ == header_text(*self, key@),
    {
        match self.first_header_value(key) {
            Some(v) => v,
            None => String::new(),
        }
    }
}

/// The disposition of a part, as `Content-Disposition` states it.
#[derive(Debug)]
pub enum DispositionKind {
    Inline,
    Attachment,
    FormData,
    Extension(String),
}

/// A parsed `Content-Disposition` header.
pub struct Disposition {
    pub kind: DispositionKind,
    /// The parameters, by lower-cased name.
    pub params: Vec<(String, String)>,
}

/// `mailparse::parse_content_disposition(s)`.
pub uninterp spec fn spec_parse_disposition(s: Seq<char>) -> Disposition;

/// `mailparse::parse_content_disposition`: the result is a function of the
/// header value alone.
#[verifier::external_body]
pub(crate) fn parse_disposition(s: &str) -> (r: Disposition)
    ensures
        r == spec_parse_disposition(s@),
{
    let d = mailparse::parse_content_disposition(s);
    let kind = match d.disposition {
        mailparse::DispositionType::Inline => DispositionKind::Inline,
        mailparse::DispositionType::Attachment => DispositionKind::Attachment,
        mailparse::DispositionType::FormData => DispositionKind::FormData,
        mailparse::DispositionType::Extension(e) => DispositionKind::Extension(e),
    };
    Disposition { kind, params: d.params.into_iter().collect() }
}

/// The value of the first parameter named exactly `key`.
pub open spec fn param(ps: Seq<(String, String)>, key: Seq<char>) -> Option<Seq<char>>
    decreases ps.len(),
{
    if ps.len() == 0 {
        None
    } else if ps[0].0@ == key {
        Some(ps[0].1@)
    } else {
        param(ps.drop_first(), key)
    }
}

/// The value of the parameter named `key`.
pub fn param_value(ps: &Vec<(String, String)>, key: &str) -> (r: Option<String>)
    ensures
        crate::search::opt_text(r) == param(ps@, key@),
{
    let mut i: usize = 0;
    assert(ps@.skip(0) == ps@);
    while i < ps.len()
        invariant
            i <= ps.len(),
            param(ps@, key@) == param(ps@.skip(i as int), key@),
        decreases ps.len() - i,
    {
        assert(ps@.skip(i as int)[0] == ps@[i as int]);
        if same_text(ps[i].0.as_str(), key) {
            return Some(ps[i].1.clone());
        }
        assert(ps@.skip(i as int).drop_first() == ps@.skip(i + 1));
        i = i + 1;
    }
    None
}

/// `s` begins with `pre`.
pub open spec fn starts_with(s: Seq<char>, pre: Seq<char>) -> bool {
    s.len() >= pre.len() && s.take(pre.len() as int) == pre
}

/// Executable `starts_with`.
pub fn has_prefix(s: &str, pre: &str) -> (r: bool)
    ensures
        r == starts_with(s@, pre@),
{
    let a = chars_of(s);
    let b = chars_of(pre);
    if a.len() < b.len() {
        return false;
    }
    let mut i: usize = 0;
    while i < b.len()
        invariant
            i <= b.len() <= a.len(),
            a@ == s@,
            b@ == pre@,
            forall|j: int| 0 <= j < i ==> a@[j] == b@[j],
        decreases b.len() - i,
    {
        if a[i] != b[i] {
            assert(a@.take(b@.len() as int)[i as int] != b@[i as int]);
            assert(a@.take(b@.len() as int) != b@);
            return false;
        }
        i = i + 1;
    }
    assert(a@.take(b@.len() as int) =~= b@);
    true
}

/// An attachment kept from a mail: its metadata, and the file to write
/// into directory `dir` under the attachments directory.
pub struct SavedAttachment {
    pub filename: String,
    pub size: usize,
    pub content_type: String,
    pub path: String,
    pub dir: String,
    pub content: Vec<u8>,
}

/// The bodies and attachments of a mail.
pub struct Extracted {
    pub text: String,
    pub html: String,
    pub saved: Vec<SavedAttachment>,
}

/// An attachment as a mathematical value: file name, size, MIME type,
/// stored path, directory, content.
pub struct SavedView {
    pub filename: Seq<char>,
    pub size: nat,
    pub content_type: Seq<char>,
    pub path: Seq<char>,
    pub dir: Seq<char>,
    pub content: Seq<u8>,
}

/// The bodies and attachments of a mail as mathematical values.
pub struct ExtractedView {
    pub text: Seq<char>,
    pub html: Seq<char>,
    pub saved: Seq<SavedView>,
}

/// The decoded body of a part, empty when decoding fails.
pub open spec fn body_text(p: MailPart) -> Seq<char> {
    match p.body {
        Some(b) => b@,
        None => Seq::empty(),
    }
}

/// The transfer-decoded body of a part, empty when decoding fails.
pub open spec fn body_bytes(p: MailPart) -> Seq<u8> {
    match p.body_raw {
        Some(b) => b@,
        None => Seq::empty(),
    }
}

/// The file name of an attachment: its `filename` disposition parameter,
/// else its `name` type parameter, else `attachment`; slashes and
/// backslashes become underscores.
pub open spec fn attachment_name(p: MailPart, d: Disposition) -> Seq<char> {
    let raw = match param(d.params@, "filename"@) {
        Some(f) => f,
        None => match param(p.ctype_params@, "name"@) {
            Some(n) => n,
            None => "attachment"@,
        },
    };
    replace_any(raw, seq!['/', '\\'], '_')
}

/// The directory of a message's attachments: its id with slashes made
/// underscores.
pub open spec fn attachment_dir(msg_id: Seq<char>) -> Seq<char> {
    replace_any(msg_id, seq!['/'], '_')
}

/// What is kept of an attachment part.
pub open spec fn saved_of(p: MailPart, d: Disposition, msg_id: Seq<char>) -> SavedView {
    let name = attachment_name(p, d);
    let dir = attachment_dir(msg_id);
    SavedView {
        filename: name,
        size: body_bytes(p).len(),
        content_type: p.mimetype@,
        path: dir + seq!['/'] + name,
        dir,
        content: body_bytes(p),
    }
}

/// Nothing extracted.
pub open spec fn nothing() -> ExtractedView {
    ExtractedView { text: Seq::empty(), html: Seq::empty(), saved: Seq::empty() }
}

/// `a` followed by `b`.
pub open spec fn join(a: ExtractedView, b: ExtractedView) -> ExtractedView {
    ExtractedView { text: a.text + b.text, html: a.html + b.html, saved: a.saved + b.saved }
}

/// The bodies and attachments of a part. A part without subparts gives
/// its body as text or HTML by its type. A multipart part gives, from each
/// subpart in turn: an attachment (kept only when attachments are saved),
/// or what a nested multipart part gives, or a text or HTML body.
pub open spec fn extract_part(p: MailPart, msg_id: Seq<char>, save: bool) -> ExtractedView
    decreases p, 0int,
{
    if p.subparts@.len() == 0 {
        if starts_with(p.mimetype@, "text/plain"@) {
            ExtractedView { text: body_text(p), html: Seq::empty(), saved: Seq::empty() }
        } else if starts_with(p.mimetype@, "text/html"@) {
            ExtractedView { text: Seq::empty(), html: body_text(p), saved: Seq::empty() }
        } else {
            nothing()
        }
    } else {
        extract_children(p.subparts@, msg_id, save)
    }
}

/// What the subparts of a multipart part give, in order.
pub open spec fn extract_children(ps: Seq<MailPart>, msg_id: Seq<char>, save: bool) -> ExtractedView
    decreases ps, 0int,
{
    if ps.len() == 0 {
        nothing()
    } else {
        let acc = extract_children(ps.drop_last(), msg_id, save);
        join(acc, extract_child(ps.last(), msg_id, save))
    }
}

/// What one subpart of a multipart part gives.
pub open spec fn extract_child(part: MailPart, msg_id: Seq<char>, save: bool) -> ExtractedView
    decreases part, 1int,
{
    let d = spec_parse_disposition(header_text(part, "Content-Disposition"@));
    if d.kind == DispositionKind::Attachment {
        if save {
            ExtractedView {
                text: Seq::empty(),
                html: Seq::empty(),
                saved: seq![saved_of(part, d, msg_id)],
            }
        } else {
            nothing()
        }
    } else if starts_with(part.mimetype@, "multipart/"@) {
        extract_part(part, msg_id, save)
    } else if starts_with(part.mimetype@, "text/plain"@) {
        ExtractedView { text: body_text(part), html: Seq::empty(), saved: Seq::empty() }
    } else if starts_with(part.mimetype@, "text/html"@) {
        ExtractedView { text: Seq::empty(), html: body_text(part), saved: Seq::empty() }
    } else {
        nothing()
    }
}


/// The part is not marked as an attachment.
pub open spec fn not_attachment(part: MailPart) -> bool {
    spec_parse_disposition(header_text(part, "Content-Disposition"@)).kind != DispositionKind::Attachment
}

proof fn lemma_prefix_char(s: Seq<char>, pre: Seq<char>, i: int)
    requires
        starts_with(s, pre),
        0 <= i < pre.len(),
    ensures
        s[i] == pre[i],
{
    assert(s.take(pre.len() as int)[i] == s[i]);
}

proof fn lemma_type_prefixes(s: Seq<char>)
    ensures
        starts_with(s, "text/plain"@) ==> !starts_with(s, "multipart/"@),
        starts_with(s, "text/html"@) ==> !starts_with(s, "multipart/"@) && !starts_with(
            s,
            "text/plain"@,
        ),
{
    reveal_strlit("text/plain");
    reveal_strlit("text/html");
    reveal_strlit("multipart/");
    if starts_with(s, "text/plain"@) && starts_with(s, "multipart/"@) {
        lemma_prefix_char(s, "text/plain"@, 0);
        lemma_prefix_char(s, "multipart/"@, 0);
    }
    if starts_with(s, "text/html"@) && starts_with(s, "multipart/"@) {
        lemma_prefix_char(s, "text/html"@, 0);
        lemma_prefix_char(s, "multipart/"@, 0);
    }
    if starts_with(s, "text/html"@) && starts_with(s, "text/plain"@) {
        lemma_prefix_char(s, "text/html"@, 5);
        lemma_prefix_char(s, "text/plain"@, 5);
    }
}

/// A multipart part whose subparts are a text body `t` and an HTML body
/// `h`, in that order and neither an attachment, gives `t`'s body as its
/// text and `h`'s as its HTML, and no attachment.
pub proof fn law_alternative_bodies(alt: MailPart, t: MailPart, h: MailPart, msg_id: Seq<char>, save: bool)
    requires
        alt.subparts@ == seq![t, h],
        t.subparts@.len() == 0,
        h.subparts@.len() == 0,
        starts_with(t.mimetype@, "text/plain"@),
        starts_with(h.mimetype@, "text/html"@),
        not_attachment(t),
        not_attachment(h),
    ensures
        extract_part(alt, msg_id, save).text == body_text(t),
        extract_part(alt, msg_id, save).html == body_text(h),
        extract_part(alt, msg_id, save).saved.len() == 0,
{
    lemma_type_prefixes(t.mimetype@);
    lemma_type_prefixes(h.mimetype@);
    let ps = alt.subparts@;
    assert(ps.drop_last() == seq![t]);
    assert(seq![t].drop_last() == Seq::<MailPart>::empty());
    assert(seq![t].last() == t);
    assert(ps.last() == h);
    assert(extract_children(Seq::<MailPart>::empty(), msg_id, save) == nothing());
    assert(extract_children(seq![t], msg_id, save) == join(nothing(), extract_child(t, msg_id, save)));
    assert(extract_children(ps, msg_id, save) == join(
        extract_children(seq![t], msg_id, save),
        extract_child(h, msg_id, save),
    ));
    assert(Seq::<char>::empty() + body_text(t) + Seq::<char>::empty() == body_text(t));
    assert(Seq::<char>::empty() + Seq::<char>::empty() + body_text(h) == body_text(h));
}

/// A mail of the usual shape `multipart/mixed` [`multipart/alternative`
/// [text `t`, HTML `h`], attachment `a`] gives `t`'s body as its text and
/// `h`'s as its HTML: the nested alternative's bodies are kept; and it
/// keeps the attachment exactly when attachments are saved.
pub proof fn law_nested_alternative_with_attachment(
    p: MailPart,
    alt: MailPart,
    t: MailPart,
    h: MailPart,
    a: MailPart,
    msg_id: Seq<char>,
    save: bool,
)
    requires
        p.subparts@ == seq![alt, a],
        alt.subparts@ == seq![t, h],
        starts_with(alt.mimetype@, "multipart/"@),
        not_attachment(alt),
        t.subparts@.len() == 0,
        h.subparts@.len() == 0,
        starts_with(t.mimetype@, "text/plain"@),
        starts_with(h.mimetype@, "text/html"@),
        not_attachment(t),
        not_attachment(h),
        !not_attachment(a),
    ensures
        extract_part(p, msg_id, save).text == body_text(t),
        extract_part(p, msg_id, save).html == body_text(h),
        extract_part(p, msg_id, save).saved.len() == (if save { 1int } else { 0int }),
{
    law_alternative_bodies(alt, t, h, msg_id, save);
    let ps = p.subparts@;
    assert(ps.drop_last() == seq![alt]);
    assert(seq![alt].drop_last() == Seq::<MailPart>::empty());
    assert(seq![alt].last() == alt);
    assert(ps.last() == a);
    assert(extract_children(Seq::<MailPart>::empty(), msg_id, save) == nothing());
    let e_alt = extract_child(alt, msg_id, save);
    assert(e_alt == extract_part(alt, msg_id, save));
    assert(extract_children(seq![alt], msg_id, save) == join(nothing(), e_alt));
    let e_a = extract_child(a, msg_id, save);
    assert(e_a.text.len() == 0 && e_a.html.len() == 0);
    assert(e_a.saved.len() == (if save { 1int } else { 0int }));
    assert(extract_part(p, msg_id, save) == join(join(nothing(), e_alt), e_a));
    assert(Seq::<char>::empty() + body_text(t) + e_a.text == body_text(t));
    assert(Seq::<char>::empty() + body_text(h) + e_a.html == body_text(h));
}

/// A mail whose only subpart is a nested `multipart/alternative` [text
/// `t`, HTML `h`] gives `t`'s body as its text and `h`'s as its HTML.
pub proof fn law_nested_alternative(
    p: MailPart,
    alt: MailPart,
    t: MailPart,
    h: MailPart,
    msg_id: Seq<char>,
    save: bool,
)
    requires
        p.subparts@ == seq![alt],
        alt.subparts@ == seq![t, h],
        starts_with(alt.mimetype@, "multipart/"@),
        not_attachment(alt),
        t.subparts@.len() == 0,
        h.subparts@.len() == 0,
        starts_with(t.mimetype@, "text/plain"@),
        starts_with(h.mimetype@, "text/html"@),
        not_attachment(t),
        not_attachment(h),
    ensures
        extract_part(p, msg_id, save).text == body_text(t),
        extract_part(p, msg_id, save).html == body_text(h),
        extract_part(p, msg_id, save).saved.len() == 0,
{
    law_alternative_bodies(alt, t, h, msg_id, save);
    let ps = p.subparts@;
    assert(ps.drop_last() == Seq::<MailPart>::empty());
    assert(ps.last() == alt);
    assert(extract_children(Seq::<MailPart>::empty(), msg_id, save) == nothing());
    let e_alt = extract_child(alt, msg_id, save);
    assert(e_alt == extract_part(alt, msg_id, save));
    assert(extract_part(p, msg_id, save) == join(nothing(), e_alt));
    assert(Seq::<char>::empty() + body_text(t) == body_text(t));
    assert(Seq::<char>::empty() + body_text(h) == body_text(h));
}

/// A non-attachment multipart subpart adds everything it gives itself:
/// after it, the text, HTML and attachments of the parts so far are
/// followed by its own text, HTML and attachments.
pub proof fn law_nested_multipart_contributes(ps: Seq<MailPart>, c: MailPart, msg_id: Seq<char>, save: bool)
    requires
        starts_with(c.mimetype@, "multipart/"@),
        not_attachment(c),
    ensures
        extract_children(ps.push(c), msg_id, save).text == extract_children(ps, msg_id, save).text
            + extract_part(c, msg_id, save).text,
        extract_children(ps.push(c), msg_id, save).html == extract_children(ps, msg_id, save).html
            + extract_part(c, msg_id, save).html,
        extract_children(ps.push(c), msg_id, save).saved == extract_children(ps, msg_id, save).saved
            + extract_part(c, msg_id, save).saved,
{
    assert(ps.push(c).drop_last() == ps);
    assert(ps.push(c).last() == c);
    assert(extract_child(c, msg_id, save) == extract_part(c, msg_id, save));
    assert(extract_children(ps.push(c), msg_id, save) == join(
        extract_children(ps, msg_id, save),
        extract_child(c, msg_id, save),
    ));
}

impl View for SavedAttachment {
    type V = SavedView;

    open spec fn view(&self) -> SavedView {
        SavedView {
            filename: self.filename@,
            size: self.size as nat,
            content_type: self.content_type@,
            path: self.path@,
            dir: self.dir@,
            content: self.content@,
        }
    }
}

/// The views of a sequence of saved attachments.
pub open spec fn saved_views(s: Seq<SavedAttachment>) -> Seq<SavedView> {
    Seq::new(s.len(), |i: int| s[i]@)
}

impl View for Extracted {
    type V = ExtractedView;

    open spec fn view(&self) -> ExtractedView {
        ExtractedView { text: self.text@, html: self.html@, saved: saved_views(self.saved@) }
    }
}

/// A copy of a byte slice.
pub fn copy_bytes(b: &[u8]) -> (r: Vec<u8>)
    ensures
        r@ == b@,
{
    let mut r: Vec<u8> = Vec::new();
    let mut i: usize = 0;
    while i < b.len()
        invariant
            i <= b.len(),
            r@ == b@.take(i as int),
        decreases b.len() - i,
    {
        r.push(b[i]);
        assert(b@.take(i + 1) == b@.take(i as int).push(b@[i as int]));
        i = i + 1;
    }
    assert(b@.take(b.len() as int) == b@);
    r
}

fn body_text_of(p: &MailPart) -> (r: String)
    ensures
        r@ == body_text(*p),
{
    match &p.body {
        Some(b) => b.clone(),
        None => String::new(),
    }
}

fn text_only(t: String) -> (r: Extracted)
    ensures
        r@ == (ExtractedView { text: t@, html: Seq::empty(), saved: Seq::empty() }),
{
    let r = Extracted { text: t, html: String::new(), saved: Vec::new() };
    assert(saved_views(r.saved@) =~= Seq::<SavedView>::empty());
    r
}

fn html_only(h: String) -> (r: Extracted)
    ensures
        r@ == (ExtractedView { text: Seq::empty(), html: h@, saved: Seq::empty() }),
{
    let r = Extracted { text: String::new(), html: h, saved: Vec::new() };
    assert(saved_views(r.saved@) =~= Seq::<SavedView>::empty());
    r
}

fn empty_extracted() -> (r: Extracted)
    ensures
        r@ == nothing(),
{
    let r = Extracted { text: String::new(), html: String::new(), saved: Vec::new() };
    assert(saved_views(r.saved@) =~= Seq::<SavedView>::empty());
    r
}

/// Keeps an attachment part.
fn save_part(part: &MailPart, d: &Disposition, msg_id: &str) -> (r: SavedAttachment)
    ensures
        r@ == saved_of(*part, *d, msg_id@),
{
    let raw = match param_value(&d.params, "filename") {
        Some(f) => f,
        None => match param_value(&part.ctype_params, "name") {
            Some(n) => n,
            None => crate::text::owned("attachment"),
        },
    };
    let mut seps: Vec<char> = Vec::new();
    seps.push('/');
    seps.push('\\');
    assert(seps@ =~= seq!['/', '\\']);
    let rc = chars_of(raw.as_str());
    let name = replace_chars(rc.as_slice(), seps.as_slice(), '_');
    let mut slash: Vec<char> = Vec::new();
    slash.push('/');
    assert(slash@ =~= seq!['/']);
    let mc = chars_of(msg_id);
    let dir = replace_chars(mc.as_slice(), slash.as_slice(), '_');
    let content = match &part.body_raw {
        Some(b) => copy_bytes(b.as_slice()),
        None => Vec::new(),
    };
    let mut path = dir.clone();
    path.push('/');
    append_chars(&mut path, name.as_slice());
    assert(path@ == dir@ + seq!['/'] + name@);
    SavedAttachment {
        filename: string_of(name.as_slice()),
        size: content.len(),
        content_type: part.mimetype.clone(),
        path: string_of(path.as_slice()),
        dir: string_of(dir.as_slice()),
        content,
    }
}

/// Appends what one part gives to what the earlier parts gave.
fn join_into(acc: &mut Extracted, more: Extracted)
    ensures
        final(acc)@ == join(old(acc)@, more@),
{
    acc.text = concat(acc.text.as_str(), more.text.as_str());
    acc.html = concat(acc.html.as_str(), more.html.as_str());
    let ghost before = saved_views(acc.saved@);
    let mut more_saved = more.saved;
    let ghost m = saved_views(more_saved@);
    acc.saved.append(&mut more_saved);
    assert(saved_views(acc.saved@) =~= before + m);
}

/// The bodies and attachments of a part (see `extract_part`).
pub fn extract_parts(p: &MailPart, msg_id: &str, save: bool) -> (r: Extracted)
    ensures
        r@ == extract_part(*p, msg_id@, save),
    decreases *p, 0int,
{
    if p.subparts.len() == 0 {
        if has_prefix(p.mimetype.as_str(), "text/plain") {
            text_only(body_text_of(p))
        } else if has_prefix(p.mimetype.as_str(), "text/html") {
            html_only(body_text_of(p))
        } else {
            empty_extracted()
        }
    } else {
        extract_subparts(&p.subparts, msg_id, save)
    }
}

fn extract_subparts(ps: &Vec<MailPart>, msg_id: &str, save: bool) -> (r: Extracted)
    ensures
        r@ == extract_children(ps@, msg_id@, save),
    decreases ps@, 0int,
{
    let mut acc = empty_extracted();
    let mut i: usize = 0;
    while i < ps.len()
        invariant
            i <= ps.len(),
            acc@ == extract_children(ps@.take(i as int), msg_id@, save),
        decreases ps.len() - i,
    {
        assert(ps@.take(i + 1).drop_last() == ps@.take(i as int));
        assert(ps@.take(i + 1).last() == ps@[i as int]);
        let more = extract_subpart(&ps[i], msg_id, save);
        join_into(&mut acc, more);
        i = i + 1;
    }
    assert(ps@.take(ps.len() as int) == ps@);
    acc
}

fn extract_subpart(part: &MailPart, msg_id: &str, save: bool) -> (r: Extracted)
    ensures
        r@ == extract_child(*part, msg_id@, save),
    decreases *part, 1int,
{
    let dv = part.header("Content-Disposition");
    let d = parse_disposition(dv.as_str());
    match d.kind {
        DispositionKind::Attachment => {
            if save {
                let a = save_part(part, &d, msg_id);
                let mut saved: Vec<SavedAttachment> = Vec::new();
                saved.push(a);
                let r = Extracted { text: String::new(), html: String::new(), saved };
                assert(saved_views(r.saved@) =~= seq![saved_of(*part, d, msg_id@)]);
                assert(r@ == extract_child(*part, msg_id@, save));
                r
            } else {
                empty_extracted()
            }
        },
        _ => {
            if has_prefix(part.mimetype.as_str(), "multipart/") {
                extract_parts(part, msg_id, save)
            } else if has_prefix(part.mimetype.as_str(), "text/plain") {
                text_only(body_text_of(part))
            } else if has_prefix(part.mimetype.as_str(), "text/html") {
                html_only(body_text_of(part))
            } else {
                empty_extracted()
            }
        },
    }
}

} // verus!
