//! What the index writer stores of a document.

use vstd::prelude::*;

use crate::dates::{
    parse_naive_datetime, parse_rfc3339, parse_utc, spec_parse_naive_datetime, spec_parse_rfc3339,
    spec_parse_utc,
};
use crate::email::EmailDoc;
use crate::json::JsonValue;
use crate::text::{concat, views};

verus! {

/// How a document's date is read when it is not RFC 3339: the mail
/// server's `NaiveDateTime` reading, or the search service's `Utc` reading,
/// both of the layout `%Y-%m-%d %H:%M:%S`.
#[derive(Clone, Copy, PartialEq, Eq, Debug)]
pub enum DateReading {
    Naive,
    Utc,
}

/// The second at which a stored document is dated: its RFC 3339 date, or
/// the `%Y-%m-%d %H:%M:%S` reading of it, or `now`.
pub open spec fn doc_seconds(date: Seq<char>, reading: DateReading, now: i64) -> i64 {
    match spec_parse_rfc3339(date) {
        Some(p) => p.0,
        None => {
            let alt = match reading {
                DateReading::Naive => spec_parse_naive_datetime(date, "%Y-%m-%d %H:%M:%S"@),
                DateReading::Utc => spec_parse_utc(date, "%Y-%m-%d %H:%M:%S"@),
            };
            match alt {
                Some(p) => p.0,
                None => now,
            }
        },
    }
}

/// The date of a stored document, in seconds.
pub fn doc_date_secs(date: &str, reading: DateReading, now: i64) -> (r: i64)
    ensures
        r == doc_seconds(date@, reading, now),
{
    match parse_rfc3339(date) {
        Some(d) => d.secs,
        None => {
            let alt = match reading {
                DateReading::Naive => parse_naive_datetime(date, "%Y-%m-%d %H:%M:%S"),
                DateReading::Utc => parse_utc(date, "%Y-%m-%d %H:%M:%S"),
            };
            match alt {
                Some(d) => d.secs,
                None => now,
            }
        },
    }
}

/// What the index writer stores of a document.
pub struct IndexRecord {
    pub id: String,
    pub subject: String,
    pub from: String,
    pub to: String,
    pub date_secs: i64,
    pub body_text: String,
    pub body_html: String,
    pub has_attachment: bool,
    pub attachments: JsonValue,
    /// One facet path per label.
    pub facets: Vec<String>,
}

/// The facet path of each label, in order.
pub open spec fn facet_paths(labels: Seq<Seq<char>>) -> Seq<Seq<char>> {
    Seq::new(labels.len(), |i: int| seq!['/'] + labels[i])
}

/// The record of `doc`, dated `now` when its date cannot be read.
pub fn index_record(doc: EmailDoc, reading: DateReading, now: i64) -> (r: IndexRecord)
    ensures
        r.id == doc.id,
        r.subject == doc.subject,
        r.from == doc.from,
        r.to == doc.to,
        r.date_secs == doc_seconds(doc.date@, reading, now),
        r.body_text == doc.body_text,
        r.body_html == doc.body_html,
        r.has_attachment == doc.has_attachment,
        r.attachments == doc.attachments,
        views(r.facets@) == facet_paths(views(doc.labels@)),
{
    let date_secs = doc_date_secs(doc.date.as_str(), reading, now);
    let mut facets: Vec<String> = Vec::new();
    let mut i: usize = 0;
    proof {
        reveal_strlit("/");
    }
    while i < doc.labels.len()
        invariant
            i <= doc.labels.len(),
            views(facets@) == facet_paths(views(doc.labels@)).take(i as int),
        decreases doc.labels.len() - i,
    {
        let f = concat("/", doc.labels[i].as_str());
        proof {
            reveal_strlit("/");
            assert("/"@ == seq!['/']);
        }
        let ghost before = views(facets@);
        facets.push(f);
        assert(views(facets@) == before.push(seq!['/'] + doc.labels@[i as int]@));
        assert(facet_paths(views(doc.labels@)).take(i + 1) == facet_paths(views(doc.labels@)).take(
            i as int,
        ).push(seq!['/'] + doc.labels@[i as int]@));
        i = i + 1;
    }
    assert(facet_paths(views(doc.labels@)).take(doc.labels.len() as int) == facet_paths(
        views(doc.labels@),
    ));
    IndexRecord {
        id: doc.id,
        subject: doc.subject,
        from: doc.from,
        to: doc.to,
        date_secs,
        body_text: doc.body_text,
        body_html: doc.body_html,
        has_attachment: doc.has_attachment,
        attachments: doc.attachments,
        facets,
    }
}

} // verus!
