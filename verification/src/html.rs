//! The visible text of an HTML body, for mails that carry no plain-text
//! body. `scraper` parses the document; this module walks it.

use vstd::prelude::*;

use crate::text::{append_chars, chars_of, is_ws, same_text, string_of, trim, trim_chars};

verus! {

/// One step of a depth-first walk over a parsed HTML document: entering a
/// node (text, element by name, or anything else), or leaving the node
/// entered last.
pub enum HtmlEvent {
    OpenText(String),
    OpenElement(String),
    OpenOther,
    Close,
}

/// The walk of the document that `scraper::Html::parse_document(html)`
/// builds, as `ego_tree`'s `traverse` yields it from the root.
pub uninterp spec fn spec_html_events(html: Seq<char>) -> Seq<HtmlEvent>;

/// Parses an HTML document with `scraper` and lists its depth-first walk.
/// The result is a function of the text alone.
#[verifier::external_body]
pub(crate) fn parse_html_events(html: &str) -> (r: Vec<HtmlEvent>)
    ensures
        r@ == spec_html_events(html@),
{
    let doc = scraper::Html::parse_document(html);
    doc.tree.root().traverse().map(|e| match e {
        ego_tree::iter::Edge::Open(n) => match n.value() {
            scraper::Node::Text(t) => HtmlEvent::OpenText(t.to_string()),
            scraper::Node::Element(el) => HtmlEvent::OpenElement(el.name().to_string()),
            _ => HtmlEvent::OpenOther,
        },
        ego_tree::iter::Edge::Close(_) => HtmlEvent::Close,
    }).collect()
}

/// Elements whose content is not text to read.
pub open spec fn hidden_element(name: Seq<char>) -> bool {
    name == "script"@ || name == "style"@
}

/// Appends a piece of text, separated by a space from what came before.
pub open spec fn append_piece(out: Seq<char>, piece: Seq<char>) -> Seq<char> {
    if piece.len() == 0 {
        out
    } else if out.len() == 0 {
        piece
    } else {
        out + seq![' '] + piece
    }
}

/// The text gathered after a walk's events, and how deep the walk is inside
/// a hidden element (zero when outside any).
pub open spec fn text_walk(ev: Seq<HtmlEvent>) -> (Seq<char>, nat)
    decreases ev.len(),
{
    if ev.len() == 0 {
        (Seq::empty(), 0)
    } else {
        let (out, hidden) = text_walk(ev.drop_last());
        match ev.last() {
            HtmlEvent::OpenText(t) => if hidden > 0 {
                (out, hidden + 1)
            } else {
                (append_piece(out, trim(t@)), 0)
            },
            HtmlEvent::OpenElement(name) => if hidden > 0 {
                (out, hidden + 1)
            } else if hidden_element(name@) {
                (out, 1)
            } else {
                (out, 0)
            },
            HtmlEvent::OpenOther => if hidden > 0 {
                (out, hidden + 1)
            } else {
                (out, 0)
            },
            HtmlEvent::Close => if hidden > 0 {
                (out, (hidden - 1) as nat)
            } else {
                (out, 0)
            },
        }
    }
}

/// The readable text of an HTML document: its text nodes outside `script`
/// and `style` elements, each trimmed, the non-empty ones joined by single
/// spaces, in document order.
pub open spec fn html_text(html: Seq<char>) -> Seq<char> {
    text_walk(spec_html_events(html)).0
}

/// Gathers the readable text of a walk.
pub fn walk_text(ev: &[HtmlEvent]) -> (r: Vec<char>)
    ensures
        r@ == text_walk(ev@).0,
{
    let mut out: Vec<char> = Vec::new();
    let mut hidden: usize = 0;
    let mut i: usize = 0;
    while i < ev.len()
        invariant
            i <= ev.len(),
            hidden <= i,
            (out@, hidden as nat) == text_walk(ev@.take(i as int)),
        decreases ev.len() - i,
    {
        assert(ev@.take(i + 1).drop_last() == ev@.take(i as int));
        match &ev[i] {
            HtmlEvent::OpenText(t) => {
                if hidden > 0 {
                    hidden = hidden + 1;
                } else {
                    let cs = chars_of(t.as_str());
                    let piece = trim_chars(cs.as_slice());
                    if piece.len() > 0 {
                        if out.len() > 0 {
                            out.push(' ');
                        }
                        append_chars(&mut out, piece.as_slice());
                    }
                }
            },
            HtmlEvent::OpenElement(name) => {
                if hidden > 0 {
                    hidden = hidden + 1;
                } else if same_text(name.as_str(), "script") || same_text(name.as_str(), "style") {
                    hidden = 1;
                }
            },
            HtmlEvent::OpenOther => {
                if hidden > 0 {
                    hidden = hidden + 1;
                }
            },
            HtmlEvent::Close => {
                if hidden > 0 {
                    hidden = hidden - 1;
                }
            },
        }
        i = i + 1;
    }
    assert(ev@.take(ev.len() as int) == ev@);
    out
}

/// The readable text of an HTML body (see `html_text`).
pub fn clean_html(html: &str) -> (r: String)
    ensures
        r@ == html_text(html@),
{
    let ev = parse_html_events(html);
    let t = walk_text(ev.as_slice());
    string_of(t.as_slice())
}

proof fn lemma_walk_ends_clean(ev: Seq<HtmlEvent>)
    ensures
        text_walk(ev).0.len() > 0 ==> !is_ws(text_walk(ev).0[0]) && !is_ws(text_walk(ev).0.last()),
    decreases ev.len(),
{
    if ev.len() > 0 {
        lemma_walk_ends_clean(ev.drop_last());
        match ev.last() {
            HtmlEvent::OpenText(t) => {
                lemma_trim_clean(t@);
            },
            _ => {},
        }
    }
}

proof fn lemma_trim_start_clean(s: Seq<char>)
    ensures
        crate::text::trim_start(s).len() > 0 ==> !is_ws(crate::text::trim_start(s)[0]),
        crate::text::trim_start(s).len() <= s.len(),
        crate::text::trim_start(s) == s.skip(s.len() - crate::text::trim_start(s).len()),
    decreases s.len(),
{
    if s.len() > 0 && is_ws(s[0]) {
        lemma_trim_start_clean(s.drop_first());
        assert(s.drop_first().skip(s.drop_first().len() - crate::text::trim_start(s).len()) == s.skip(
            s.len() - crate::text::trim_start(s).len(),
        ));
    } else {
        assert(s.skip(0) == s);
    }
}

proof fn lemma_trim_end_clean(s: Seq<char>)
    ensures
        crate::text::trim_end(s).len() > 0 ==> !is_ws(crate::text::trim_end(s).last()),
        crate::text::trim_end(s).len() <= s.len(),
        crate::text::trim_end(s) == s.take(crate::text::trim_end(s).len() as int),
    decreases s.len(),
{
    if s.len() > 0 && is_ws(s.last()) {
        lemma_trim_end_clean(s.drop_last());
        assert(s.drop_last().take(crate::text::trim_end(s).len() as int) == s.take(
            crate::text::trim_end(s).len() as int,
        ));
    } else {
        assert(s.take(s.len() as int) == s);
    }
}

/// A trimmed text starts and ends with no whitespace.
pub proof fn lemma_trim_clean(s: Seq<char>)
    ensures
        trim(s).len() > 0 ==> !is_ws(trim(s)[0]) && !is_ws(trim(s).last()),
{
    let a = crate::text::trim_start(s);
    lemma_trim_start_clean(s);
    lemma_trim_end_clean(a);
    if trim(s).len() > 0 {
        let k = trim(s).len() as int;
        assert(trim(s) == a.take(k));
        assert(a.take(k)[0] == a[0]);
    }
}

/// The readable text of an HTML body neither starts nor ends with
/// whitespace.
pub proof fn law_html_text_trimmed(html: Seq<char>)
    ensures
        html_text(html).len() > 0 ==> !is_ws(html_text(html)[0]) && !is_ws(
            html_text(html).last(),
        ),
{
    lemma_walk_ends_clean(spec_html_events(html));
}

} // verus!
