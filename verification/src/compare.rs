//! Comparing two mail indexes document by document: which ids only one of
//! them holds, and where the documents they share differ.

use vstd::prelude::*;

use crate::json::{extract_from_json, member_text, JsonValue};
use crate::text::{chars_of, same_text, string_of, take_chars, take_prefix, views};
use crate::ui::{holds, keep_strings, kept, lemma_kept_members};

verus! {

/// What the comparison looks at in a document.
pub struct DocData {
    pub subject: String,
    pub from: String,
    pub date: String,
    /// Length of the body in UTF-8 bytes.
    pub body_text_len: usize,
    /// The first fifty characters of the body.
    pub body_text_sample: String,
}

/// `d` holds what the comparison reads of the stored document `doc`.
pub open spec fn doc_data_of_json(d: DocData, doc: JsonValue) -> bool {
    let body = member_text(doc, "body_text"@);
    &&& d.subject@ == member_text(doc, "subject"@)
    &&& d.from@ == member_text(doc, "from"@)
    &&& d.date@ == member_text(doc, "date"@)
    &&& d.body_text_len == vstd::utf8::encode_utf8(body).len() as usize
    &&& d.body_text_sample@ == take_chars(body, 50)
}

/// Reads a stored document for comparison: its id and data, nothing when
/// its id is empty.
pub fn doc_data(doc: &JsonValue) -> (r: Option<(String, DocData)>)
    ensures
        r is None <==> member_text(*doc, "id"@).len() == 0,
        r matches Some(p) ==> p.0@ == member_text(*doc, "id"@) && doc_data_of_json(p.1, *doc),
{
    let id = extract_from_json(doc, "id");
    let subject = extract_from_json(doc, "subject");
    let from = extract_from_json(doc, "from");
    let date = extract_from_json(doc, "date");
    let body = extract_from_json(doc, "body_text");
    let body_text_len = body.as_str().len();
    let cs = chars_of(body.as_str());
    let body_text_sample = string_of(take_prefix(cs.as_slice(), 50).as_slice());
    if id.as_str().is_empty() {
        None
    } else {
        Some((id, DocData { subject, from, date, body_text_len, body_text_sample }))
    }
}

/// The ids of an index, in order.
pub open spec fn ids(es: Seq<(String, DocData)>) -> Seq<Seq<char>> {
    Seq::new(es.len(), |i: int| es[i].0@)
}

/// No id occurs twice.
pub open spec fn unique_ids(es: Seq<(String, DocData)>) -> bool {
    forall|i: int, j: int| 0 <= i < j < es.len() ==> es[i].0@ != es[j].0@
}

/// The data filed under `id`.
pub open spec fn lookup(es: Seq<(String, DocData)>, id: Seq<char>) -> Option<DocData>
    decreases es.len(),
{
    if es.len() == 0 {
        None
    } else if es.last().0@ == id {
        Some(es.last().1)
    } else {
        lookup(es.drop_last(), id)
    }
}

/// Files a document under its id, replacing what was filed there before,
/// as a map's `insert` does.
pub fn file_doc(index: &mut Vec<(String, DocData)>, id: String, d: DocData)
    requires
        unique_ids(old(index)@),
    ensures
        unique_ids(final(index)@),
        forall|k: Seq<char>| ids(final(index)@).contains(k) <==> (ids(old(index)@).contains(k) || k == id@),
        lookup(final(index)@, id@) == Some(d),
        forall|k: Seq<char>| k != id@ ==> lookup(final(index)@, k) == lookup(old(index)@, k),
{
    let mut i: usize = 0;
    while i < index.len()
        invariant
            i <= index.len(),
            index@ == old(index)@,
            unique_ids(old(index)@),
            forall|k: int| 0 <= k < i ==> index@[k].0@ != id@,
        decreases index.len() - i,
    {
        if same_text(index[i].0.as_str(), id.as_str()) {
            let ghost before = index@;
            let ghost iv = id@;
            index.set(i, (id, d));
            proof {
                lemma_lookup_set(before, i as int, index@[i as int]);
                assert(ids(index@) == ids(before));
                assert(ids(before)[i as int] == iv);
            }
            return;
        }
        i = i + 1;
    }
    let ghost before = index@;
    let ghost iv = id@;
    index.push((id, d));
    proof {
        assert(index@.drop_last() == before);
        assert(ids(index@) == ids(before).push(iv));
        assert forall|k: Seq<char>| k != iv implies lookup(index@, k) == lookup(before, k) by {}
        let n = before.len() as int;
        assert(ids(index@)[n] == iv);
        assert forall|k: Seq<char>| ids(index@).contains(k) <==> (ids(before).contains(k) || k == iv) by {
            if ids(index@).contains(k) {
                let j = choose|j: int| 0 <= j < ids(index@).len() && ids(index@)[j] == k;
                if j < n {
                    assert(ids(before)[j] == k);
                }
            }
            if ids(before).contains(k) {
                let j = choose|j: int| 0 <= j < ids(before).len() && ids(before)[j] == k;
                assert(ids(index@)[j] == k);
            }
        }
    }
}

proof fn lemma_lookup_set(es: Seq<(String, DocData)>, i: int, e: (String, DocData))
    requires
        unique_ids(es),
        0 <= i < es.len(),
        es[i].0@ == e.0@,
    ensures
        lookup(es.update(i, e), e.0@) == Some(e.1),
        forall|k: Seq<char>| k != e.0@ ==> lookup(es.update(i, e), k) == lookup(es, k),
        unique_ids(es.update(i, e)),
    decreases es.len(),
{
    let u = es.update(i, e);
    assert(u.last() == (if i == es.len() - 1 { e } else { es.last() }));
    if i == es.len() - 1 {
        assert(u.drop_last() == es.drop_last());
        assert forall|k: Seq<char>| k != e.0@ implies lookup(u, k) == lookup(es, k) by {
            assert(lookup(u, k) == lookup(u.drop_last(), k));
            assert(lookup(es, k) == lookup(es.drop_last(), k));
        }
    } else {
        let d = es.drop_last();
        assert(unique_ids(d));
        lemma_lookup_set(d, i, e);
        assert(u.drop_last() == d.update(i, e));
        assert(es.last().0@ != e.0@) by {
            assert(es[i].0@ != es[es.len() - 1].0@);
        }
        assert forall|k: Seq<char>| k != e.0@ implies lookup(u, k) == lookup(es, k) by {
            if es.last().0@ != k {
                assert(lookup(u, k) == lookup(d.update(i, e), k));
                assert(lookup(es, k) == lookup(d, k));
            }
        }
    }
    assert forall|a: int, b: int| 0 <= a < b < u.len() implies u[a].0@ != u[b].0@ by {
        if a == i {
            assert(es[b].0@ != es[i].0@);
        } else if b == i {
            assert(es[a].0@ != es[i].0@);
        }
    }
}

/// A field in which two documents under the same id differ.
#[derive(Clone, Copy, PartialEq, Eq, Debug, Structural)]
pub enum Field {
    Subject,
    From,
    Date,
    BodyLen,
}

/// The fields in which `a` and `b` differ, in the order subject, sender,
/// date, body length.
pub open spec fn differing_fields(a: DocData, b: DocData) -> Seq<Field> {
    (if a.subject@ != b.subject@ { seq![Field::Subject] } else { Seq::empty() })
    + (if a.from@ != b.from@ { seq![Field::From] } else { Seq::empty() })
    + (if a.date@ != b.date@ { seq![Field::Date] } else { Seq::empty() })
    + (if a.body_text_len != b.body_text_len { seq![Field::BodyLen] } else { Seq::empty() })
}

/// The discrepancies of the documents that both indexes hold, id by id in
/// the first index's order.
pub open spec fn discrepancies(e1: Seq<(String, DocData)>, e2: Seq<(String, DocData)>) -> Seq<(Seq<char>, Field)>
    decreases e1.len(),
{
    if e1.len() == 0 {
        Seq::empty()
    } else {
        let rest = discrepancies(e1.drop_last(), e2);
        match lookup(e2, e1.last().0@) {
            Some(d2) => rest + differing_fields(e1.last().1, d2).map_values(
                |f: Field| (e1.last().0@, f),
            ),
            None => rest,
        }
    }
}

/// The two documents differ in field `f`.
pub open spec fn field_differs(a: DocData, b: DocData, f: Field) -> bool {
    match f {
        Field::Subject => a.subject@ != b.subject@,
        Field::From => a.from@ != b.from@,
        Field::Date => a.date@ != b.date@,
        Field::BodyLen => a.body_text_len != b.body_text_len,
    }
}

proof fn lemma_contains_add<A>(x: Seq<A>, y: Seq<A>, v: A)
    ensures
        (x + y).contains(v) <==> x.contains(v) || y.contains(v),
{
    if (x + y).contains(v) {
        let i = choose|i: int| 0 <= i < (x + y).len() && (x + y)[i] == v;
        if i < x.len() {
            assert(x[i] == v);
        } else {
            assert(y[i - x.len()] == v);
        }
    }
    if x.contains(v) {
        let i = choose|i: int| 0 <= i < x.len() && x[i] == v;
        assert((x + y)[i] == v);
    }
    if y.contains(v) {
        let i = choose|i: int| 0 <= i < y.len() && y[i] == v;
        assert((x + y)[i + x.len()] == v);
    }
}

proof fn lemma_contains_piece(c: bool, g: Field, f: Field)
    ensures
        (if c { seq![g] } else { Seq::<Field>::empty() }).contains(f) <==> c && g == f,
{
    if c {
        assert(seq![g][0] == g);
    }
}

/// A field is listed as differing exactly when the two documents differ
/// in it.
pub proof fn law_differing_fields(a: DocData, b: DocData, f: Field)
    ensures
        differing_fields(a, b).contains(f) <==> field_differs(a, b, f),
{
    let p1 = if a.subject@ != b.subject@ { seq![Field::Subject] } else { Seq::<Field>::empty() };
    let p2 = if a.from@ != b.from@ { seq![Field::From] } else { Seq::<Field>::empty() };
    let p3 = if a.date@ != b.date@ { seq![Field::Date] } else { Seq::<Field>::empty() };
    let p4 = if a.body_text_len != b.body_text_len { seq![Field::BodyLen] } else { Seq::<Field>::empty() };
    assert(differing_fields(a, b) == p1 + p2 + p3 + p4);
    lemma_contains_add(p1 + p2 + p3, p4, f);
    lemma_contains_add(p1 + p2, p3, f);
    lemma_contains_add(p1, p2, f);
    lemma_contains_piece(a.subject@ != b.subject@, Field::Subject, f);
    lemma_contains_piece(a.from@ != b.from@, Field::From, f);
    lemma_contains_piece(a.date@ != b.date@, Field::Date, f);
    lemma_contains_piece(a.body_text_len != b.body_text_len, Field::BodyLen, f);
}

proof fn lemma_tagged_contains(fs: Seq<Field>, id: Seq<char>, x: Seq<char>, f: Field)
    ensures
        fs.map_values(|g: Field| (id, g)).contains((x, f)) <==> id == x && fs.contains(f),
{
    let m = fs.map_values(|g: Field| (id, g));
    if m.contains((x, f)) {
        let i = choose|i: int| 0 <= i < m.len() && m[i] == (x, f);
        assert(fs[i] == f);
    }
    if id == x && fs.contains(f) {
        let i = choose|i: int| 0 <= i < fs.len() && fs[i] == f;
        assert(m[i] == (x, f));
    }
}

/// The comparison reports `(id, f)` exactly when both indexes hold `id`
/// and their documents under it differ in field `f`.
pub proof fn law_mismatches_are_field_differences(
    e1: Seq<(String, DocData)>,
    e2: Seq<(String, DocData)>,
    x: Seq<char>,
    f: Field,
)
    requires
        unique_ids(e1),
    ensures
        discrepancies(e1, e2).contains((x, f)) <==> match (lookup(e1, x), lookup(e2, x)) {
            (Some(d1), Some(d2)) => field_differs(d1, d2, f),
            _ => false,
        },
    decreases e1.len(),
{
    if e1.len() > 0 {
        let p = e1.drop_last();
        let l = e1.last();
        assert(unique_ids(p));
        law_mismatches_are_field_differences(p, e2, x, f);
        let rest = discrepancies(p, e2);
        let m = match lookup(e2, l.0@) {
            Some(d2) => differing_fields(l.1, d2).map_values(|g: Field| (l.0@, g)),
            None => Seq::empty(),
        };
        assert(discrepancies(e1, e2) == rest + m);
        lemma_contains_add(rest, m, (x, f));
        match lookup(e2, l.0@) {
            Some(d2) => {
                lemma_tagged_contains(differing_fields(l.1, d2), l.0@, x, f);
                law_differing_fields(l.1, d2, f);
            },
            None => {},
        }
        if l.0@ == x {
            assert forall|k: int| 0 <= k < p.len() implies p[k].0@ != x by {
                assert(e1[k].0@ != e1[e1.len() - 1].0@);
            }
            lemma_lookup_absent(p, x);
        }
    }
}

/// A discrepancy: an id and a field in which its documents differ.
pub struct Mismatch {
    pub id: String,
    pub field: Field,
}

/// The outcome of comparing two indexes.
pub struct Comparison {
    pub only_in_1: Vec<String>,
    pub only_in_2: Vec<String>,
    pub common: Vec<String>,
    pub mismatches: Vec<Mismatch>,
}

/// The views of a sequence of discrepancies.
pub open spec fn mismatch_views(m: Seq<Mismatch>) -> Seq<(Seq<char>, Field)> {
    Seq::new(m.len(), |i: int| (m[i].id@, m[i].field))
}

fn lookup_of(es: &Vec<(String, DocData)>, id: &String) -> (r: Option<usize>)
    requires
        unique_ids(es@),
    ensures
        r matches Some(k) ==> k < es@.len() && es@[k as int].0@ == id@ && lookup(es@, id@) == Some(
            es@[k as int].1,
        ),
        r is None ==> lookup(es@, id@) is None,
{
    let mut i: usize = 0;
    while i < es.len()
        invariant
            i <= es.len(),
            unique_ids(es@),
            forall|k: int| 0 <= k < i ==> es@[k].0@ != id@,
        decreases es.len() - i,
    {
        if same_text(es[i].0.as_str(), id.as_str()) {
            proof { lemma_lookup_unique(es@, i as int); }
            return Some(i);
        }
        i = i + 1;
    }
    proof { lemma_lookup_absent(es@, id@); }
    None
}

proof fn lemma_lookup_unique(es: Seq<(String, DocData)>, i: int)
    requires
        unique_ids(es),
        0 <= i < es.len(),
    ensures
        lookup(es, es[i].0@) == Some(es[i].1),
    decreases es.len(),
{
    if i < es.len() - 1 {
        lemma_lookup_unique(es.drop_last(), i);
        assert(es.drop_last()[i] == es[i]);
    }
}

proof fn lemma_lookup_absent(es: Seq<(String, DocData)>, id: Seq<char>)
    requires
        forall|k: int| 0 <= k < es.len() ==> es[k].0@ != id,
    ensures
        lookup(es, id) is None,
    decreases es.len(),
{
    if es.len() > 0 {
        lemma_lookup_absent(es.drop_last(), id);
    }
}

fn differing(a: &DocData, b: &DocData) -> (r: Vec<Field>)
    ensures
        r@ == differing_fields(*a, *b),
{
    let mut r: Vec<Field> = Vec::new();
    if !same_text(a.subject.as_str(), b.subject.as_str()) {
        r.push(Field::Subject);
    }
    if !same_text(a.from.as_str(), b.from.as_str()) {
        r.push(Field::From);
    }
    if !same_text(a.date.as_str(), b.date.as_str()) {
        r.push(Field::Date);
    }
    if a.body_text_len != b.body_text_len {
        r.push(Field::BodyLen);
    }
    assert(r@ =~= differing_fields(*a, *b));
    r
}

fn id_list(es: &Vec<(String, DocData)>) -> (r: Vec<String>)
    ensures
        views(r@) == ids(es@),
{
    let mut r: Vec<String> = Vec::new();
    let mut i: usize = 0;
    while i < es.len()
        invariant
            i <= es.len(),
            views(r@) == ids(es@).take(i as int),
        decreases es.len() - i,
    {
        let ghost before = views(r@);
        r.push(es[i].0.clone());
        assert(views(r@) == before.push(es@[i as int].0@));
        assert(ids(es@).take(i + 1) == ids(es@).take(i as int).push(es@[i as int].0@));
        i = i + 1;
    }
    assert(ids(es@).take(es.len() as int) == ids(es@));
    r
}

/// Compares two indexes: the ids only the first holds, only the second
/// holds, and both hold (each in its index's order), and the fields in
/// which the shared documents differ.
pub fn compare_indexes(e1: &Vec<(String, DocData)>, e2: &Vec<(String, DocData)>) -> (r: Comparison)
    requires
        unique_ids(e1@),
        unique_ids(e2@),
    ensures
        views(r.only_in_1@) == kept(ids(e1@), ids(e2@), false),
        views(r.only_in_2@) == kept(ids(e2@), ids(e1@), false),
        views(r.common@) == kept(ids(e1@), ids(e2@), true),
        mismatch_views(r.mismatches@) == discrepancies(e1@, e2@),
{
    let k1 = id_list(e1);
    let k2 = id_list(e2);
    let only_in_1 = keep_strings(&k1, &k2, false);
    let only_in_2 = keep_strings(&k2, &k1, false);
    let common = keep_strings(&k1, &k2, true);
    let mut mismatches: Vec<Mismatch> = Vec::new();
    let mut i: usize = 0;
    while i < e1.len()
        invariant
            i <= e1.len(),
            unique_ids(e2@),
            mismatch_views(mismatches@) == discrepancies(e1@.take(i as int), e2@),
        decreases e1.len() - i,
    {
        assert(e1@.take(i + 1).drop_last() == e1@.take(i as int));
        assert(e1@.take(i + 1).last() == e1@[i as int]);
        match lookup_of(e2, &e1[i].0) {
            Some(k) => {
                let fs = differing(&e1[i].1, &e2[k].1);
                let ghost before = mismatch_views(mismatches@);
                let ghost idv = e1@[i as int].0@;
                let mut j: usize = 0;
                while j < fs.len()
                    invariant
                        j <= fs.len(),
                        i < e1@.len(),
                        idv == e1@[i as int].0@,
                        mismatch_views(mismatches@) == before + fs@.take(j as int).map_values(
                            |f: Field| (idv, f),
                        ),
                    decreases fs.len() - j,
                {
                    let ghost b2 = mismatch_views(mismatches@);
                    mismatches.push(Mismatch { id: e1[i].0.clone(), field: fs[j] });
                    assert(mismatch_views(mismatches@) == b2.push((idv, fs@[j as int])));
                    assert(fs@.take(j + 1).map_values(|f: Field| (idv, f)) == fs@.take(j as int).map_values(
                        |f: Field| (idv, f),
                    ).push((idv, fs@[j as int])));
                    j = j + 1;
                }
                assert(fs@.take(fs.len() as int) == fs@);
            },
            None => {},
        }
        i = i + 1;
    }
    assert(e1@.take(e1.len() as int) == e1@);
    Comparison { only_in_1, only_in_2, common, mismatches }
}

/// Every id of either index falls in exactly one of the three lists:
/// only in the first, only in the second, or in both.
pub proof fn law_ids_partition(e1: Seq<(String, DocData)>, e2: Seq<(String, DocData)>, x: Seq<char>)
    ensures
        kept(ids(e1), ids(e2), false).contains(x) <==> ids(e1).contains(x) && !ids(e2).contains(x),
        kept(ids(e2), ids(e1), false).contains(x) <==> ids(e2).contains(x) && !ids(e1).contains(x),
        kept(ids(e1), ids(e2), true).contains(x) <==> ids(e1).contains(x) && ids(e2).contains(x),
{
    lemma_kept_members(ids(e1), ids(e2), false, x);
    lemma_kept_members(ids(e2), ids(e1), false, x);
    lemma_kept_members(ids(e1), ids(e2), true, x);
}

} // verus!
