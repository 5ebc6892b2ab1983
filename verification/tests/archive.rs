use mbox_viewer::compare::{compare_indexes, doc_data, file_doc, DocData, Field};
use mbox_viewer::json::JsonValue;
use mbox_viewer::mbox::{split_mbox, Batcher, MboxSplitter, BATCH_SIZE};

fn lines(xs: &[&str]) -> Vec<Vec<u8>> {
    xs.iter().map(|x| x.as_bytes().to_vec()).collect()
}

#[test]
fn messages_split_at_from_lines() {
    let ls = lines(&[
        "From a@b Thu Jul 10 14:57:19 +0000 2014",
        "Subject: x",
        "",
        "body",
        "From c@d Fri  ",
        "Subject: y",
    ]);
    let ms = split_mbox(&ls);
    assert_eq!(ms.len(), 2);
    assert_eq!(ms[0].bytes, b"From a@b Thu Jul 10 14:57:19 +0000 2014\nSubject: x\n\nbody\n".to_vec());
    assert_eq!(ms[0].from_line, "From a@b Thu Jul 10 14:57:19 +0000 2014");
    assert_eq!(ms[1].bytes, b"From c@d Fri  \nSubject: y\n".to_vec());
    assert_eq!(ms[1].from_line, "From c@d Fri");
}

#[test]
fn leading_lines_form_a_message_without_from_line() {
    let ms = split_mbox(&lines(&["junk", "From x"]));
    assert_eq!(ms.len(), 2);
    assert_eq!(ms[0].bytes, b"junk\n".to_vec());
    assert_eq!(ms[0].from_line, "");
    assert_eq!(ms[1].bytes, b"From x\n".to_vec());
    assert!(split_mbox(&[]).is_empty());
}

#[test]
fn from_lines_are_decoded_leniently() {
    let ms = split_mbox(&[b"From \xff x".to_vec()]);
    assert_eq!(ms[0].from_line, "From \u{fffd} x");
}

#[test]
fn splitting_keeps_every_byte() {
    let ls = lines(&["x", "From a", "b", "", "From c", "d"]);
    let all: Vec<u8> = ls.iter().flat_map(|l| l.iter().copied().chain(std::iter::once(b'\n'))).collect();
    let joined: Vec<u8> = split_mbox(&ls).into_iter().flat_map(|m| m.bytes).collect();
    assert_eq!(joined, all);
    assert!(split_mbox(&ls).iter().all(|m| !m.bytes.is_empty()));
}

#[test]
fn splitter_hands_out_messages_as_they_close() {
    let mut sp = MboxSplitter::new();
    assert!(sp.push_line(b"From a").is_none());
    assert!(sp.push_line(b"one").is_none());
    let m = sp.push_line(b"From b").unwrap();
    assert_eq!(m.bytes, b"From a\none\n".to_vec());
    assert_eq!(m.from_line, "From a");
    let last = sp.finish().unwrap();
    assert_eq!(last.bytes, b"From b\n".to_vec());
    assert!(MboxSplitter::new().finish().is_none());
}

#[test]
fn batches_of_fifty() {
    let mut b: Batcher<u32> = Batcher::new();
    for i in 0..BATCH_SIZE as u32 - 1 {
        b.record(Some(i));
        assert!(b.take_full().is_none());
    }
    b.record(None);
    assert_eq!(b.next_index(), 49);
    b.record(Some(49));
    assert_eq!(b.next_index(), 50);
    let full = b.take_full().unwrap();
    assert_eq!(full, (0..50).collect::<Vec<u32>>());
    assert!(b.take_rest().is_none());
    b.record(Some(7));
    assert_eq!(b.take_rest(), Some(vec![7]));
    assert_eq!(b.next_index(), 51);
}

fn s(x: &str) -> JsonValue {
    JsonValue::Str(x.to_string())
}

fn stored(id: &str, subject: &str, body: &str) -> JsonValue {
    JsonValue::Object(vec![
        ("id".to_string(), JsonValue::Array(vec![s(id)])),
        ("subject".to_string(), s(subject)),
        ("from".to_string(), s("f")),
        ("date".to_string(), s("d")),
        ("body_text".to_string(), JsonValue::Array(vec![s(body)])),
    ])
}

fn data(subject: &str, body: &str) -> DocData {
    doc_data(&stored("x", subject, body)).unwrap().1
}

#[test]
fn documents_are_read_for_comparison() {
    let (id, d) = doc_data(&stored("m1", "Hi", "héllo wörld")).unwrap();
    assert_eq!(id, "m1");
    assert_eq!(d.subject, "Hi");
    assert_eq!(d.body_text_len, 13);
    assert_eq!(d.body_text_sample, "héllo wörld");
    let (_, long) = doc_data(&stored("m2", "", &"ab".repeat(40))).unwrap();
    assert_eq!(long.body_text_sample, "ab".repeat(25));
    assert!(doc_data(&stored("", "Hi", "x")).is_none());
}

#[test]
fn filing_replaces_an_existing_id() {
    let mut index = Vec::new();
    file_doc(&mut index, "a".to_string(), data("one", "x"));
    file_doc(&mut index, "b".to_string(), data("two", "x"));
    file_doc(&mut index, "a".to_string(), data("three", "x"));
    assert_eq!(index.len(), 2);
    assert_eq!(index[0].0, "a");
    assert_eq!(index[0].1.subject, "three");
    assert_eq!(index[1].1.subject, "two");
}

#[test]
fn comparing_two_indexes() {
    let e1 = vec![
        ("a".to_string(), data("s", "x")),
        ("b".to_string(), data("s", "x")),
        ("c".to_string(), data("s", "x")),
    ];
    let e2 = vec![
        ("d".to_string(), data("s", "x")),
        ("c".to_string(), data("other", "xy")),
        ("b".to_string(), data("s", "x")),
    ];
    let r = compare_indexes(&e1, &e2);
    assert_eq!(r.only_in_1, vec!["a"]);
    assert_eq!(r.only_in_2, vec!["d"]);
    assert_eq!(r.common, vec!["b", "c"]);
    let ms: Vec<(String, Field)> = r.mismatches.into_iter().map(|m| (m.id, m.field)).collect();
    assert_eq!(ms, vec![("c".to_string(), Field::Subject), ("c".to_string(), Field::BodyLen)]);
}

#[test]
fn later_messages_open_with_from_lines() {
    let ls = lines(&["junk", "From a", "x", "From b", "From c", "y"]);
    let ms = split_mbox(&ls);
    assert_eq!(ms.len(), 4);
    assert_eq!(ms[0].bytes, b"junk\n".to_vec());
    for m in &ms[1..] {
        assert!(m.bytes.starts_with(b"From "));
    }
}
