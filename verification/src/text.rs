//! Character-level helpers: Unicode whitespace, header sanitising,
//! decimal rendering and the like, all over `Seq<char>` models.

use vstd::prelude::*;

verus! {

/// Unicode `White_Space`, exactly the characters for which
/// `char::is_whitespace` returns `true`.
pub open spec fn is_ws(c: char) -> bool {
    let u = c as u32;
    ||| 0x09 <= u <= 0x0D
    ||| u == 0x20
    ||| u == 0x85
    ||| u == 0xA0
    ||| u == 0x1680
    ||| 0x2000 <= u <= 0x200A
    ||| u == 0x2028
    ||| u == 0x2029
    ||| u == 0x202F
    ||| u == 0x205F
    ||| u == 0x3000
}

/// Executable `is_ws`.
pub fn is_whitespace(c: char) -> (r: bool)
    ensures
        r == is_ws(c),
{
    let u = c as u32;
    (0x09 <= u && u <= 0x0D) || u == 0x20 || u == 0x85 || u == 0xA0 || u == 0x1680 || (0x2000
        <= u && u <= 0x200A) || u == 0x2028 || u == 0x2029 || u == 0x202F || u == 0x205F || u
        == 0x3000
}

/// The characters of a string slice, in order.
pub fn chars_of(s: &str) -> (v: Vec<char>)
    ensures
        v@ == s@,
{
    let mut v: Vec<char> = Vec::new();
    for c in it: s.chars()
        invariant
            v@ == it.seq().take(it.index() as int),
            it.seq() == s@,
    {
        v.push(c);
    }
    v
}


/// A `String` holding exactly the given characters.
#[verifier::external_body]
pub(crate) fn string_of(v: &[char]) -> (s: String)
    ensures
        s@ == v@,
{
    v.iter().collect()
}

/// Left-to-right whitespace collapsing: the text accumulated so far and
/// whether a whitespace run has been seen since its last character.
pub open spec fn collapse(s: Seq<char>) -> (Seq<char>, bool)
    decreases s.len(),
{
    if s.len() == 0 {
        (Seq::empty(), false)
    } else {
        let prev = collapse(s.drop_last());
        let c = s.last();
        if is_ws(c) {
            (prev.0, prev.0.len() > 0)
        } else if prev.1 {
            (prev.0.push(' ').push(c), false)
        } else {
            (prev.0.push(c), false)
        }
    }
}

/// The words of `s` (maximal runs of non-whitespace characters) joined by
/// single spaces.
pub open spec fn sanitized(s: Seq<char>) -> Seq<char> {
    collapse(s).0
}

/// The non-whitespace characters of `s`, in order.
pub open spec fn visible(s: Seq<char>) -> Seq<char>
    decreases s.len(),
{
    if s.len() == 0 {
        Seq::empty()
    } else if is_ws(s.last()) {
        visible(s.drop_last())
    } else {
        visible(s.drop_last()).push(s.last())
    }
}

/// `r` is a single line of words separated by single spaces.
pub open spec fn is_single_spaced(r: Seq<char>) -> bool {
    &&& forall|i: int| 0 <= i < r.len() && is_ws(#[trigger] r[i]) ==> r[i] == ' '
    &&& forall|i: int|
        0 <= i < r.len() && #[trigger] r[i] == ' ' ==> 0 < i < r.len() - 1 && r[i - 1] != ' '
            && r[i + 1] != ' '
}

/// Replaces carriage returns and line feeds by spaces, then collapses every
/// whitespace run into one space and drops leading and trailing whitespace.
pub fn sanitize_header(val: &str) -> (r: String)
    ensures
        r@ == sanitized(val@),
{
    let cs = chars_of(val);
    let mut out: Vec<char> = Vec::new();
    let mut pending = false;
    let mut i: usize = 0;
    while i < cs.len()
        invariant
            i <= cs.len(),
            cs@ == val@,
            (out@, pending) == collapse(cs@.take(i as int)),
        decreases cs.len() - i,
    {
        let c = cs[i];
        assert(cs@.take(i + 1).drop_last() == cs@.take(i as int));
        if is_whitespace(c) {
            pending = out.len() > 0;
        } else {
            if pending {
                out.push(' ');
            }
            out.push(c);
            pending = false;
        }
        i = i + 1;
    }
    assert(cs@.take(cs.len() as int) == cs@);
    string_of(out.as_slice())
}

proof fn lemma_collapse_shape(s: Seq<char>)
    ensures
        is_single_spaced(collapse(s).0),
        collapse(s).1 ==> collapse(s).0.len() > 0,
        collapse(s).0.len() > 0 ==> collapse(s).0.last() != ' ',
        visible(collapse(s).0) == visible(s),
    decreases s.len(),
{
    if s.len() > 0 {
        let p = s.drop_last();
        lemma_collapse_shape(p);
        let a = collapse(p).0;
        let c = s.last();
        if !is_ws(c) {
            if collapse(p).1 {
                let b = a.push(' ');
                assert(b.drop_last() == a);
                assert(b.push(c).drop_last() == b);
                assert(visible(b) == visible(a));
                assert forall|i: int|
                    0 <= i < b.push(c).len() && #[trigger] b.push(c)[i] == ' ' implies 0 < i
                    < b.push(c).len() - 1 && b.push(c)[i - 1] != ' ' && b.push(c)[i + 1]
                    != ' ' by {
                    if i < a.len() {
                        assert(a[i] == ' ');
                    }
                }
            } else {
                assert(a.push(c).drop_last() == a);
                assert forall|i: int|
                    0 <= i < a.push(c).len() && #[trigger] a.push(c)[i] == ' ' implies 0 < i
                    < a.push(c).len() - 1 && a.push(c)[i - 1] != ' ' && a.push(c)[i + 1]
                    != ' ' by {
                    if i < a.len() {
                        assert(a[i] == ' ');
                    }
                }
            }
        }
    }
}

/// A single-spaced line is its own sanitised form, prefix by prefix.
proof fn lemma_collapse_fixed(r: Seq<char>, k: int)
    requires
        is_single_spaced(r),
        0 <= k <= r.len(),
    ensures
        k > 0 && r[k - 1] == ' ' ==> collapse(r.take(k)) == (r.take(k - 1), true),
        !(k > 0 && r[k - 1] == ' ') ==> collapse(r.take(k)) == (r.take(k), false),
    decreases k,
{
    if k > 0 {
        lemma_collapse_fixed(r, k - 1);
        assert(r.take(k).drop_last() == r.take(k - 1));
        let c = r[k - 1];
        if c == ' ' {
            assert(k - 1 > 0 && r[k - 2] != ' ');
            assert(r.take(k - 1).len() > 0);
        } else if k > 1 && r[k - 2] == ' ' {
            assert(r.take(k - 2).push(' ') == r.take(k - 1));
            assert(r.take(k - 1).push(c) == r.take(k));
        } else {
            assert(r.take(k - 1).push(c) == r.take(k));
        }
    }
}

/// Sanitising yields one line of words separated by single spaces, with no
/// whitespace at either end.
pub proof fn law_sanitized_is_single_spaced(s: Seq<char>)
    ensures
        is_single_spaced(sanitized(s)),
        sanitized(s).len() > 0 ==> sanitized(s).last() != ' ' && sanitized(s)[0] != ' ',
{
    lemma_collapse_shape(s);
}

/// Sanitising keeps every non-whitespace character, in order, and adds none.
pub proof fn law_sanitized_keeps_visible(s: Seq<char>)
    ensures
        visible(sanitized(s)) == visible(s),
{
    lemma_collapse_shape(s);
}

/// Sanitising a sanitised header changes nothing.
pub proof fn law_sanitize_idempotent(s: Seq<char>)
    ensures
        sanitized(sanitized(s)) == sanitized(s),
{
    let r = sanitized(s);
    lemma_collapse_shape(s);
    lemma_collapse_fixed(r, r.len() as int);
    assert(r.take(r.len() as int) == r);
}


/// `s` without its leading whitespace.
pub open spec fn trim_start(s: Seq<char>) -> Seq<char>
    decreases s.len(),
{
    if s.len() > 0 && is_ws(s[0]) {
        trim_start(s.drop_first())
    } else {
        s
    }
}

/// `s` without its trailing whitespace.
pub open spec fn trim_end(s: Seq<char>) -> Seq<char>
    decreases s.len(),
{
    if s.len() > 0 && is_ws(s.last()) {
        trim_end(s.drop_last())
    } else {
        s
    }
}

/// `s` without leading and trailing whitespace, as `str::trim` gives it.
pub open spec fn trim(s: Seq<char>) -> Seq<char> {
    trim_end(trim_start(s))
}

/// `str::trim` over characters.
pub fn trim_chars(s: &[char]) -> (r: Vec<char>)
    ensures
        r@ == trim(s@),
{
    let mut a: usize = 0;
    assert(s@.skip(0) == s@);
    while a < s.len() && is_whitespace(s[a])
        invariant
            a <= s.len(),
            trim_start(s@) == trim_start(s@.skip(a as int)),
        decreases s.len() - a,
    {
        assert(s@.skip(a as int).drop_first() == s@.skip(a + 1));
        a = a + 1;
    }
    let ghost t = s@.skip(a as int);
    assert(trim_start(s@) == t);
    let mut b: usize = s.len();
    while b > a && is_whitespace(s[b - 1])
        invariant
            a <= b <= s.len(),
            t == s@.skip(a as int),
            trim_end(t) == trim_end(s@.subrange(a as int, b as int)),
        decreases b,
    {
        assert(s@.subrange(a as int, b as int).drop_last() == s@.subrange(a as int, b - 1));
        b = b - 1;
    }
    assert(s@.skip(a as int) == s@.subrange(a as int, s.len() as int));
    let mut r: Vec<char> = Vec::new();
    let mut k: usize = a;
    while k < b
        invariant
            a <= k <= b <= s.len(),
            r@ == s@.subrange(a as int, k as int),
        decreases b - k,
    {
        r.push(s[k]);
        assert(s@.subrange(a as int, k + 1) == s@.subrange(a as int, k as int).push(s[k as int]));
        k = k + 1;
    }
    r
}

/// The characters of `s` before position `n` (all of them when `s` is
/// shorter), as `s.chars().take(n)` gives them.
pub open spec fn take_chars(s: Seq<char>, n: nat) -> Seq<char> {
    if s.len() <= n {
        s
    } else {
        s.take(n as int)
    }
}

/// Executable `take_chars`.
pub fn take_prefix(s: &[char], n: usize) -> (r: Vec<char>)
    ensures
        r@ == take_chars(s@, n as nat),
{
    let mut r: Vec<char> = Vec::new();
    let mut i: usize = 0;
    while i < n && i < s.len()
        invariant
            i <= s.len(),
            i <= n,
            r@ == s@.take(i as int),
        decreases s.len() - i,
    {
        r.push(s[i]);
        assert(s@.take(i + 1) == s@.take(i as int).push(s[i as int]));
        i = i + 1;
    }
    assert(s.len() <= n ==> s@.take(s.len() as int) == s@);
    r
}

/// `s` with every occurrence of a character of `from` replaced by `to`.
pub open spec fn replace_any(s: Seq<char>, from: Seq<char>, to: char) -> Seq<char> {
    Seq::new(s.len(), |i: int| if from.contains(s[i]) { to } else { s[i] })
}

/// Executable `replace_any`, as `str::replace` with a character set gives it.
pub fn replace_chars(s: &[char], from: &[char], to: char) -> (r: Vec<char>)
    ensures
        r@ == replace_any(s@, from@, to),
{
    let mut r: Vec<char> = Vec::new();
    let mut i: usize = 0;
    while i < s.len()
        invariant
            i <= s.len(),
            r@ == replace_any(s@, from@, to).take(i as int),
        decreases s.len() - i,
    {
        let c = s[i];
        let mut hit = false;
        let mut j: usize = 0;
        while j < from.len()
            invariant
                j <= from.len(),
                hit == from@.take(j as int).contains(c),
            decreases from.len() - j,
        {
            proof {
                let tj = from@.take(j as int);
                let tj1 = from@.take(j + 1);
                if tj.contains(c) {
                    let k = choose|k: int| 0 <= k < tj.len() && tj[k] == c;
                    assert(tj1[k] == c);
                }
                if from@[j as int] == c {
                    assert(tj1[j as int] == c);
                }
                if tj1.contains(c) {
                    let k = choose|k: int| 0 <= k < tj1.len() && tj1[k] == c;
                    if k < j {
                        assert(tj[k] == c);
                    }
                }
            }
            if from[j] == c {
                hit = true;
            }
            j = j + 1;
        }
        assert(from@.take(from.len() as int) == from@);
        if hit {
            r.push(to);
        } else {
            r.push(c);
        }
        assert(replace_any(s@, from@, to).take(i + 1) == replace_any(s@, from@, to).take(
            i as int,
        ).push(replace_any(s@, from@, to)[i as int]));
        i = i + 1;
    }
    r
}

/// Position of the first `c` in `s`.
pub open spec fn find_first(s: Seq<char>, c: char) -> Option<nat>
    decreases s.len(),
{
    if s.len() == 0 {
        None
    } else if s[0] == c {
        Some(0)
    } else {
        match find_first(s.drop_first(), c) {
            Some(k) => Some(k + 1),
            None => None,
        }
    }
}

/// Position of the last `c` in `s`.
pub open spec fn find_last(s: Seq<char>, c: char) -> Option<nat>
    decreases s.len(),
{
    if s.len() == 0 {
        None
    } else if s.last() == c {
        Some((s.len() - 1) as nat)
    } else {
        find_last(s.drop_last(), c)
    }
}

/// Executable `find_first`.
pub fn position_of(s: &[char], c: char) -> (r: Option<usize>)
    ensures
        r matches Some(k) ==> find_first(s@, c) == Some(k as nat),
        r is None ==> find_first(s@, c) is None,
{
    let mut i: usize = 0;
    assert(s@.skip(0) == s@);
    while i < s.len()
        invariant
            i <= s.len(),
            find_first(s@, c) == match find_first(s@.skip(i as int), c) {
                Some(k) => Some((k + i) as nat),
                None => None::<nat>,
            },
        decreases s.len() - i,
    {
        assert(s@.skip(i as int)[0] == s[i as int]);
        if s[i] == c {
            return Some(i);
        }
        assert(s@.skip(i as int).drop_first() == s@.skip(i + 1));
        i = i + 1;
    }
    None
}

/// Executable `find_last`.
pub fn last_position_of(s: &[char], c: char) -> (r: Option<usize>)
    ensures
        r matches Some(k) ==> find_last(s@, c) == Some(k as nat),
        r is None ==> find_last(s@, c) is None,
{
    let mut i: usize = s.len();
    assert(s@.take(s.len() as int) == s@);
    while i > 0
        invariant
            i <= s.len(),
            find_last(s@, c) == find_last(s@.take(i as int), c),
        decreases i,
    {
        if s[i - 1] == c {
            return Some(i - 1);
        }
        assert(s@.take(i as int).drop_last() == s@.take(i - 1));
        i = i - 1;
    }
    None
}

/// The part of `s` after its last `c`, or all of `s` when there is none.
pub open spec fn after_last(s: Seq<char>, c: char) -> Seq<char> {
    match find_last(s, c) {
        Some(k) => s.skip(k + 1 as int),
        None => s,
    }
}

/// Executable `after_last`.
pub fn after_last_char(s: &[char], c: char) -> (r: Vec<char>)
    ensures
        r@ == after_last(s@, c),
{
    let start: usize = match last_position_of(s, c) {
        Some(k) => {
            proof { lemma_find_last_bound(s@, c); }
            assert(k < s.len());
            k + 1
        },
        None => 0,
    };
    let mut r: Vec<char> = Vec::new();
    let mut i: usize = start;
    while i < s.len()
        invariant
            start <= i <= s.len(),
            r@ == s@.subrange(start as int, i as int),
        decreases s.len() - i,
    {
        r.push(s[i]);
        assert(s@.subrange(start as int, i + 1) == s@.subrange(start as int, i as int).push(
            s[i as int],
        ));
        i = i + 1;
    }
    assert(s@.skip(start as int) == s@.subrange(start as int, s.len() as int));
    r
}

proof fn lemma_find_last_bound(s: Seq<char>, c: char)
    ensures
        find_last(s, c) matches Some(k) ==> k < s.len() && s[k as int] == c,
    decreases s.len(),
{
    if s.len() > 0 && s.last() != c {
        lemma_find_last_bound(s.drop_last(), c);
    }
}

/// A position that `find_first` finds lies in the text and holds the
/// character sought.
pub proof fn lemma_find_first_bound(s: Seq<char>, c: char)
    ensures
        find_first(s, c) matches Some(k) ==> k < s.len() && s[k as int] == c,
    decreases s.len(),
{
    if s.len() > 0 && s[0] != c {
        lemma_find_first_bound(s.drop_first(), c);
    }
}

/// What `s.splitn(3, ' ')` gives as its third part, when there is one.
pub open spec fn third_field(s: Seq<char>) -> Option<Seq<char>> {
    match find_first(s, ' ') {
        Some(i) => {
            let t = s.skip(i + 1 as int);
            match find_first(t, ' ') {
                Some(j) => Some(t.skip(j + 1 as int)),
                None => None,
            }
        },
        None => None,
    }
}

/// Executable `third_field`.
pub fn third_space_field(s: &[char]) -> (r: Option<Vec<char>>)
    ensures
        r matches Some(v) ==> third_field(s@) == Some(v@),
        r is None ==> third_field(s@) is None,
{
    match position_of(s, ' ') {
        None => None,
        Some(i) => {
            proof { lemma_find_first_bound(s@, ' '); }
            assert(i < s.len());
            let t = suffix_from(s, i + 1);
            match position_of(t.as_slice(), ' ') {
                None => None,
                Some(j) => {
                    proof { lemma_find_first_bound(t@, ' '); }
                    Some(suffix_from(t.as_slice(), j + 1))
                },
            }
        },
    }
}

/// The characters of `s` from position `k` on.
pub fn suffix_from(s: &[char], k: usize) -> (r: Vec<char>)
    requires
        k <= s.len(),
    ensures
        r@ == s@.skip(k as int),
{
    let mut r: Vec<char> = Vec::new();
    let mut i: usize = k;
    while i < s.len()
        invariant
            k <= i <= s.len(),
            r@ == s@.subrange(k as int, i as int),
        decreases s.len() - i,
    {
        r.push(s[i]);
        assert(s@.subrange(k as int, i + 1) == s@.subrange(k as int, i as int).push(s[i as int]));
        i = i + 1;
    }
    assert(s@.skip(k as int) == s@.subrange(k as int, s.len() as int));
    r
}

/// `s` with every leading `c` removed, as `str::trim_start_matches` gives it.
pub open spec fn strip_leading(s: Seq<char>, c: char) -> Seq<char>
    decreases s.len(),
{
    if s.len() > 0 && s[0] == c {
        strip_leading(s.drop_first(), c)
    } else {
        s
    }
}

/// Executable `strip_leading`.
pub fn strip_leading_char(s: &[char], c: char) -> (r: Vec<char>)
    ensures
        r@ == strip_leading(s@, c),
{
    let mut a: usize = 0;
    assert(s@.skip(0) == s@);
    while a < s.len() && s[a] == c
        invariant
            a <= s.len(),
            strip_leading(s@, c) == strip_leading(s@.skip(a as int), c),
        decreases s.len() - a,
    {
        assert(s@.skip(a as int).drop_first() == s@.skip(a + 1));
        a = a + 1;
    }
    suffix_from(s, a)
}

/// Two texts equal up to ASCII case, as `str::eq_ignore_ascii_case` decides.
pub open spec fn ascii_lower(c: char) -> char {
    if 'A' <= c <= 'Z' {
        ((c as u32) + 32) as char
    } else {
        c
    }
}

/// Two texts equal up to ASCII case, as `str::eq_ignore_ascii_case` decides.
pub open spec fn eq_ignore_ascii_case(a: Seq<char>, b: Seq<char>) -> bool {
    a.len() == b.len() && forall|i: int| 0 <= i < a.len() ==> ascii_lower(a[i]) == ascii_lower(b[i])
}

/// Executable `ascii_lower`.
pub fn to_ascii_lower(c: char) -> (r: char)
    ensures
        r == ascii_lower(c),
{
    if 'A' <= c && c <= 'Z' {
        let u = c as u32 + 32;
        assert(0x61 <= u <= 0x7A);
        char_from_ascii(u)
    } else {
        c
    }
}

/// The character with the given ASCII code.
fn char_from_ascii(u: u32) -> (c: char)
    requires
        u < 128,
    ensures
        c as u32 == u,
{
    let b = u as u8;
    b as char
}

/// Executable `eq_ignore_ascii_case`.
pub fn equal_ignoring_ascii_case(a: &[char], b: &[char]) -> (r: bool)
    ensures
        r == eq_ignore_ascii_case(a@, b@),
{
    if a.len() != b.len() {
        return false;
    }
    let mut i: usize = 0;
    while i < a.len()
        invariant
            i <= a.len() == b.len(),
            forall|j: int| 0 <= j < i ==> ascii_lower(a@[j]) == ascii_lower(b@[j]),
        decreases a.len() - i,
    {
        if to_ascii_lower(a[i]) != to_ascii_lower(b[i]) {
            return false;
        }
        i = i + 1;
    }
    true
}


/// The pieces of `s` between occurrences of `sep`, as `str::split` gives
/// them (an empty text gives one empty piece).
pub open spec fn split_on(s: Seq<char>, sep: char) -> Seq<Seq<char>>
    decreases s.len(),
{
    if s.len() == 0 {
        seq![Seq::empty()]
    } else {
        let p = split_on(s.drop_last(), sep);
        if s.last() == sep {
            p.push(Seq::empty())
        } else {
            p.update(p.len() - 1, p.last().push(s.last()))
        }
    }
}

proof fn lemma_split_on_nonempty(s: Seq<char>, sep: char)
    ensures
        split_on(s, sep).len() >= 1,
    decreases s.len(),
{
    if s.len() > 0 {
        lemma_split_on_nonempty(s.drop_last(), sep);
    }
}

/// The trimmed pieces that are not empty, in order.
pub open spec fn trimmed_nonempty(pieces: Seq<Seq<char>>) -> Seq<Seq<char>>
    decreases pieces.len(),
{
    if pieces.len() == 0 {
        Seq::empty()
    } else {
        let rest = trimmed_nonempty(pieces.drop_last());
        let t = trim(pieces.last());
        if t.len() > 0 {
            rest.push(t)
        } else {
            rest
        }
    }
}

/// The labels named by a comma-separated header: each piece trimmed, empty
/// pieces dropped.
pub open spec fn label_list(s: Seq<char>) -> Seq<Seq<char>> {
    trimmed_nonempty(split_on(s, ','))
}

/// The views of a sequence of strings.
pub open spec fn views(v: Seq<String>) -> Seq<Seq<char>> {
    Seq::new(v.len(), |i: int| v[i]@)
}

/// Splits a comma-separated header into trimmed, non-empty labels.
pub fn parse_label_list(s: &str) -> (r: Vec<String>)
    ensures
        views(r@) == label_list(s@),
{
    let cs = chars_of(s);
    let mut out: Vec<String> = Vec::new();
    let mut cur: Vec<char> = Vec::new();
    let ghost mut done: Seq<Seq<char>> = Seq::empty();
    let mut i: usize = 0;
    while i < cs.len()
        invariant
            i <= cs.len(),
            cs@ == s@,
            split_on(cs@.take(i as int), ',') == done.push(cur@),
            views(out@) == trimmed_nonempty(done),
        decreases cs.len() - i,
    {
        let c = cs[i];
        assert(cs@.take(i + 1).drop_last() == cs@.take(i as int));
        if c == ',' {
            let t = trim_chars(cur.as_slice());
            proof {
                assert(done.push(cur@).drop_last() == done);
            }
            if t.len() > 0 {
                let ts = string_of(t.as_slice());
                out.push(ts);
                assert(views(out@) == trimmed_nonempty(done).push(t@));
            }
            proof {
                done = done.push(cur@);
            }
            cur = Vec::new();
        } else {
            proof {
                let p = done.push(cur@);
                assert(p.update(p.len() - 1, p.last().push(c)) == done.push(cur@.push(c)));
            }
            cur.push(c);
        }
        i = i + 1;
    }
    assert(cs@.take(cs.len() as int) == cs@);
    let t = trim_chars(cur.as_slice());
    assert(done.push(cur@).drop_last() == done);
    if t.len() > 0 {
        let ts = string_of(t.as_slice());
        out.push(ts);
        assert(views(out@) == trimmed_nonempty(done).push(t@));
    }
    out
}

/// The decimal digit `d`.
pub open spec fn digit_char(d: nat) -> char {
    ((d + 48) as u32) as char
}

/// Decimal notation of `n`, without sign or leading zeros.
pub open spec fn decimal(n: nat) -> Seq<char>
    decreases n,
{
    if n < 10 {
        seq![digit_char(n)]
    } else {
        decimal(n / 10).push(digit_char(n % 10))
    }
}

/// Decimal notation of a `usize`, as `Display` writes it.
pub fn decimal_of(n: usize) -> (r: Vec<char>)
    ensures
        r@ == decimal(n as nat),
    decreases n,
{
    let d = (n % 10) as u32;
    let c = char_from_ascii(d + 48);
    if n < 10 {
        let mut v: Vec<char> = Vec::new();
        v.push(c);
        v
    } else {
        let mut v = decimal_of(n / 10);
        v.push(c);
        v
    }
}

/// Lower-case form of a text, as `str::to_lowercase` gives it (full
/// Unicode case mapping).
pub uninterp spec fn spec_lowercase(s: Seq<char>) -> Seq<char>;

/// `str::to_lowercase`: the result is a function of the text alone.
#[verifier::external_body]
pub(crate) fn lowercase(s: &str) -> (r: String)
    ensures
        r@ == spec_lowercase(s@),
{
    s.to_lowercase()
}

/// `pat` occurs in `s` as a contiguous run.
pub open spec fn contains_run(s: Seq<char>, pat: Seq<char>) -> bool {
    exists|i: int| 0 <= i <= s.len() - pat.len() && #[trigger] s.subrange(i, i + pat.len()) == pat
}

/// Executable `contains_run`, as `str::contains` with a text pattern decides.
pub fn contains_text(s: &[char], pat: &[char]) -> (r: bool)
    ensures
        r == contains_run(s@, pat@),
{
    if pat.len() > s.len() {
        return false;
    }
    let n = s.len() - pat.len();
    let mut i: usize = 0;
    loop
        invariant
            pat.len() <= s.len(),
            n == s.len() - pat.len(),
            i <= n,
            forall|k: int| 0 <= k < i ==> #[trigger] s@.subrange(k, k + pat.len()) != pat@,
        decreases n - i,
    {
        let mut j: usize = 0;
        let mut same = true;
        assert(s@.subrange(i as int, i as int) == pat@.take(0));
        while j < pat.len()
            invariant
                j <= pat.len(),
                i + pat.len() <= s.len(),
                same == (s@.subrange(i as int, i + j) == pat@.take(j as int)),
            decreases pat.len() - j,
        {
            proof {
                let a = s@.subrange(i as int, i + j);
                let b = pat@.take(j as int);
                assert(s@.subrange(i as int, i + j + 1) == a.push(s@[i + j]));
                assert(pat@.take(j + 1) == b.push(pat@[j as int]));
                if a == b && s@[i + j] != pat@[j as int] {
                    assert(s@.subrange(i as int, i + j + 1)[j as int] != pat@.take(j + 1)[j as int]);
                }
                if a != b {
                    if s@.subrange(i as int, i + j + 1) == pat@.take(j + 1) {
                        assert(s@.subrange(i as int, i + j + 1).drop_last() == a);
                        assert(pat@.take(j + 1).drop_last() == b);
                    }
                }
            }
            if s[i + j] != pat[j] {
                same = false;
            }
            j = j + 1;
        }
        assert(pat@.take(pat.len() as int) == pat@);
        if same {
            return true;
        }
        if i == n {
            return false;
        }
        i = i + 1;
    }
}

/// Lower-case hexadecimal digit for a value below sixteen.
pub open spec fn hex_digit(d: u8) -> char {
    if d < 10 {
        ((d + 48) as u32) as char
    } else {
        ((d + 87) as u32) as char
    }
}

/// Two lower-case hexadecimal digits per byte, high nibble first.
pub open spec fn hex_lower(data: Seq<u8>) -> Seq<char> {
    Seq::new(
        2 * data.len(),
        |i: int|
            if i % 2 == 0 {
                hex_digit(data[i / 2] / 16)
            } else {
                hex_digit(data[i / 2] % 16)
            },
    )
}

/// `hex::encode`: lower-case hexadecimal, two digits per byte.
#[verifier::external_body]
pub(crate) fn hex_encode(data: &[u8]) -> (r: String)
    ensures
        r@ == hex_lower(data@),
{
    hex::encode(data)
}


/// Whether two strings hold the same characters.
pub fn same_text(a: &str, b: &str) -> (r: bool)
    ensures
        r == (a@ == b@),
{
    let x = chars_of(a);
    let y = chars_of(b);
    same_chars(x.as_slice(), y.as_slice())
}

/// Whether two character slices are equal.
pub fn same_chars(x: &[char], y: &[char]) -> (r: bool)
    ensures
        r == (x@ == y@),
{
    if x.len() != y.len() {
        return false;
    }
    let mut i: usize = 0;
    while i < x.len()
        invariant
            i <= x.len() == y.len(),
            forall|j: int| 0 <= j < i ==> x@[j] == y@[j],
        decreases x.len() - i,
    {
        if x[i] != y[i] {
            return false;
        }
        i = i + 1;
    }
    assert(x@ =~= y@);
    true
}

/// Value of a run of decimal digits.
pub open spec fn digits_value(s: Seq<char>) -> nat
    decreases s.len(),
{
    if s.len() == 0 {
        0
    } else {
        digits_value(s.drop_last()) * 10 + ((s.last() as u32) - 48) as nat
    }
}

/// `c` is one of `0`..`9`.
pub open spec fn is_digit(c: char) -> bool {
    '0' <= c <= '9'
}

/// `s` is a non-empty run of decimal digits.
pub open spec fn all_digits(s: Seq<char>) -> bool {
    s.len() > 0 && forall|i: int| 0 <= i < s.len() ==> is_digit(#[trigger] s[i])
}

/// Reads a non-empty run of decimal digits whose value fits in a `u64`.
pub fn parse_u64_digits(s: &[char]) -> (r: Option<u64>)
    ensures
        r matches Some(v) ==> all_digits(s@) && v == digits_value(s@),
        r is None ==> !all_digits(s@) || digits_value(s@) > u64::MAX,
{
    if s.len() == 0 {
        return None;
    }
    let mut v: u64 = 0;
    let mut i: usize = 0;
    while i < s.len()
        invariant
            i <= s.len(),
            v == digits_value(s@.take(i as int)),
            forall|j: int| 0 <= j < i ==> is_digit(s@[j]),
        decreases s.len() - i,
    {
        let c = s[i];
        assert(s@.take(i + 1).drop_last() == s@.take(i as int));
        if !('0' <= c && c <= '9') {
            return None;
        }
        let d = (c as u32 - 48) as u64;
        if v > (u64::MAX - d) / 10 {
            proof {
                lemma_digits_value_prefix_grows(s@, i as int);
            }
            return None;
        }
        v = v * 10 + d;
        i = i + 1;
    }
    assert(s@.take(s.len() as int) == s@);
    Some(v)
}

/// A longer run of digits is worth at least as much as its prefix.
proof fn lemma_digits_value_prefix_grows(s: Seq<char>, i: int)
    requires
        0 <= i < s.len(),
    ensures
        digits_value(s) >= digits_value(s.take(i + 1)),
    decreases s.len(),
{
    if s.len() > i + 1 {
        lemma_digits_value_prefix_grows(s.drop_last(), i);
        assert(s.drop_last().take(i + 1) == s.take(i + 1));
    } else {
        assert(s.take(i + 1) == s);
    }
}


/// An owned copy of a string slice.
pub fn owned(s: &str) -> (r: String)
    ensures
        r@ == s@,
{
    s.to_owned()
}

/// `a` followed by `b`.
pub fn concat(a: &str, b: &str) -> (r: String)
    ensures
        r@ == a@ + b@,
{
    let mut v = chars_of(a);
    let w = chars_of(b);
    append_chars(&mut v, w.as_slice());
    string_of(v.as_slice())
}

/// Appends `w` to `v`.
pub fn append_chars(v: &mut Vec<char>, w: &[char])
    ensures
        final(v)@ == old(v)@ + w@,
{
    let mut j: usize = 0;
    while j < w.len()
        invariant
            j <= w.len(),
            v@ == old(v)@ + w@.take(j as int),
        decreases w.len() - j,
    {
        v.push(w[j]);
        assert(w@.take(j + 1) == w@.take(j as int).push(w@[j as int]));
        j = j + 1;
    }
    assert(w@.take(w.len() as int) == w@);
}


/// `String::from_utf8_lossy`: every maximal invalid run of bytes becomes
/// U+FFFD.
pub uninterp spec fn spec_utf8_lossy(b: Seq<u8>) -> Seq<char>;

/// `String::from_utf8_lossy`. Valid UTF-8 decodes to exactly its
/// characters, as std documents.
#[verifier::external_body]
pub(crate) fn utf8_lossy(b: &[u8]) -> (r: String)
    ensures
        r@ == spec_utf8_lossy(b@),
        vstd::utf8::valid_utf8(b@) ==> r@ == vstd::utf8::decode_utf8(b@),
{
    String::from_utf8_lossy(b).into_owned()
}

} // verus!
