//! State and decisions of the browser interface: which label and mail are
//! shown, the mail list and its paging, the label picker and the sidebar.
//! Rendering and fetching are the application's.

use vstd::prelude::*;

use crate::search::{opt_text, Email};
use crate::shortcuts::ShortcutAction;
use crate::text::{
    append_chars, chars_of, concat, contains_run, contains_text, decimal, decimal_of, lowercase,
    owned, same_text, spec_lowercase, string_of, take_chars, take_prefix, views,
};

verus! {

/// The interface's global state.
pub struct UiState {
    pub selected_label: String,
    pub search_query: String,
    pub selected_email_id: Option<String>,
    pub start_date: String,
    pub end_date: String,
    pub help_open: bool,
    pub label_selector_open: bool,
    /// The last shortcut handed on to the mail list.
    pub last_shortcut: Option<ShortcutAction>,
}

/// The label that a navigation shortcut selects.
pub open spec fn shortcut_label(a: ShortcutAction) -> Option<Seq<char>> {
    match a {
        ShortcutAction::GoToInbox => Some("Inbox"@),
        ShortcutAction::GoToSent => Some("Sent"@),
        ShortcutAction::GoToDrafts => Some("Drafts"@),
        ShortcutAction::GoToAll => Some("ALL"@),
        ShortcutAction::GoToStarred => Some("Starred"@),
        ShortcutAction::GoToTrash => Some("Trash"@),
        ShortcutAction::GoToImportant => Some("Important"@),
        _ => None,
    }
}

/// The shortcuts that the mail list handles.
pub open spec fn list_shortcut(a: ShortcutAction) -> bool {
    match a {
        ShortcutAction::NextThread | ShortcutAction::PrevThread | ShortcutAction::OpenThread
        | ShortcutAction::GoToNextPage | ShortcutAction::GoToPrevPage => true,
        _ => false,
    }
}

impl UiState {
    /// The state on start: the inbox, no query, no mail open, nothing open.
    pub fn new() -> (r: Self)
        ensures
            r.selected_label@ == "Inbox"@,
            r.search_query@ == Seq::<char>::empty(),
            r.selected_email_id is None,
            r.start_date@ == Seq::<char>::empty(),
            r.end_date@ == Seq::<char>::empty(),
            !r.help_open,
            !r.label_selector_open,
            r.last_shortcut is None,
    {
        UiState {
            selected_label: owned("Inbox"),
            search_query: String::new(),
            selected_email_id: None,
            start_date: String::new(),
            end_date: String::new(),
            help_open: false,
            label_selector_open: false,
            last_shortcut: None,
        }
    }

    /// Shows a label: clears the query and closes the open mail.
    pub fn select_label(&mut self, label: String)
        ensures
            final(self).selected_label == label,
            final(self).search_query@ == Seq::<char>::empty(),
            final(self).selected_email_id is None,
            final(self).start_date == old(self).start_date,
            final(self).end_date == old(self).end_date,
            final(self).help_open == old(self).help_open,
            final(self).label_selector_open == old(self).label_selector_open,
            final(self).last_shortcut == old(self).last_shortcut,
    {
        self.selected_label = label;
        self.search_query = String::new();
        self.selected_email_id = None;
    }

    /// Opens a mail.
    pub fn select_email(&mut self, id: String)
        ensures
            final(self).selected_email_id == Some(id),
            final(self).selected_label == old(self).selected_label,
            final(self).search_query == old(self).search_query,
            final(self).start_date == old(self).start_date,
            final(self).end_date == old(self).end_date,
            final(self).help_open == old(self).help_open,
            final(self).label_selector_open == old(self).label_selector_open,
            final(self).last_shortcut == old(self).last_shortcut,
    {
        self.selected_email_id = Some(id);
    }

    /// Closes the open mail.
    pub fn close_detail(&mut self)
        ensures
            final(self).selected_email_id is None,
            final(self).selected_label == old(self).selected_label,
            final(self).search_query == old(self).search_query,
            final(self).start_date == old(self).start_date,
            final(self).end_date == old(self).end_date,
            final(self).help_open == old(self).help_open,
            final(self).label_selector_open == old(self).label_selector_open,
            final(self).last_shortcut == old(self).last_shortcut,
    {
        self.selected_email_id = None;
    }

    /// Submits the search box: the query becomes the input, and a non-empty
    /// query leaves every label.
    pub fn submit_search(&mut self, input: String)
        ensures
            final(self).search_query == input,
            input@.len() > 0 ==> final(self).selected_label@ == Seq::<char>::empty(),
            input@.len() == 0 ==> final(self).selected_label == old(self).selected_label,
            final(self).selected_email_id == old(self).selected_email_id,
            final(self).start_date == old(self).start_date,
            final(self).end_date == old(self).end_date,
            final(self).help_open == old(self).help_open,
            final(self).label_selector_open == old(self).label_selector_open,
            final(self).last_shortcut == old(self).last_shortcut,
    {
        let nonempty = !input.as_str().is_empty();
        self.search_query = input;
        if nonempty {
            self.selected_label = String::new();
        }
    }

    /// Clears both dates.
    pub fn clear_dates(&mut self)
        ensures
            final(self).start_date@ == Seq::<char>::empty(),
            final(self).end_date@ == Seq::<char>::empty(),
            final(self).selected_label == old(self).selected_label,
            final(self).search_query == old(self).search_query,
            final(self).selected_email_id == old(self).selected_email_id,
            final(self).help_open == old(self).help_open,
            final(self).label_selector_open == old(self).label_selector_open,
            final(self).last_shortcut == old(self).last_shortcut,
    {
        self.start_date = String::new();
        self.end_date = String::new();
    }

    /// Carries out a shortcut. Returns whether the search box should take
    /// the focus.
    pub fn apply_shortcut(&mut self, action: ShortcutAction) -> (focus_search: bool)
        ensures
            focus_search == (action == ShortcutAction::Search),
            final(self).start_date == old(self).start_date,
            final(self).end_date == old(self).end_date,
            action == ShortcutAction::Help ==> final(self).help_open == !old(self).help_open,
            action == ShortcutAction::CloseHelp ==> !final(self).help_open,
            action != ShortcutAction::Help && action != ShortcutAction::CloseHelp
                ==> final(self).help_open == old(self).help_open,
            action == ShortcutAction::BackToList ==> final(self).selected_email_id is None,
            shortcut_label(action) matches Some(l) ==> final(self).selected_label@ == l
                && final(self).search_query@ == Seq::<char>::empty()
                && final(self).selected_email_id is None,
            shortcut_label(action) is None && action != ShortcutAction::BackToList
                ==> final(self).selected_label == old(self).selected_label
                && final(self).search_query == old(self).search_query
                && final(self).selected_email_id == old(self).selected_email_id,
            action == ShortcutAction::GoToLabel ==> final(self).label_selector_open,
            action != ShortcutAction::GoToLabel ==> final(self).label_selector_open == old(self).label_selector_open,
            list_shortcut(action) ==> final(self).last_shortcut == Some(action),
            !list_shortcut(action) ==> final(self).last_shortcut == old(self).last_shortcut,
    {
        match action {
            ShortcutAction::Help => {
                self.help_open = !self.help_open;
                false
            },
            ShortcutAction::CloseHelp => {
                self.help_open = false;
                false
            },
            ShortcutAction::Search => true,
            ShortcutAction::BackToList => {
                self.selected_email_id = None;
                false
            },
            ShortcutAction::GoToInbox => {
                self.select_label(owned("Inbox"));
                false
            },
            ShortcutAction::GoToSent => {
                self.select_label(owned("Sent"));
                false
            },
            ShortcutAction::GoToDrafts => {
                self.select_label(owned("Drafts"));
                false
            },
            ShortcutAction::GoToAll => {
                self.select_label(owned("ALL"));
                false
            },
            ShortcutAction::GoToStarred => {
                self.select_label(owned("Starred"));
                false
            },
            ShortcutAction::GoToTrash => {
                self.select_label(owned("Trash"));
                false
            },
            ShortcutAction::GoToImportant => {
                self.select_label(owned("Important"));
                false
            },
            ShortcutAction::GoToLabel => {
                self.label_selector_open = true;
                false
            },
            _ => {
                self.last_shortcut = Some(action);
                false
            },
        }
    }
}

/// The mail list's page size.
pub const LIST_PAGE_SIZE: usize = 50;

/// The mail list: the pages loaded so far and the loading state.
pub struct ListState {
    pub page: i32,
    pub emails: Vec<Email>,
    pub loading: bool,
    pub has_more: bool,
    pub sentinel_visible: bool,
}

/// Position of the first mail with the given id.
pub open spec fn position_of_id(list: Seq<Email>, id: Seq<char>) -> Option<nat>
    decreases list.len(),
{
    if list.len() == 0 {
        None
    } else if list[0].id@ == id {
        Some(0)
    } else {
        match position_of_id(list.drop_first(), id) {
            Some(k) => Some(k + 1),
            None => None,
        }
    }
}

/// The position of the open mail, when it is in the list.
pub open spec fn current_position(list: Seq<Email>, current: Option<Seq<char>>) -> Option<nat> {
    match current {
        Some(id) => position_of_id(list, id),
        None => None,
    }
}

/// The position that a navigation shortcut moves to: the next or previous
/// mail, or twenty further or back (held to the list's ends), from the
/// open mail or the first. Nothing for an empty list, for other shortcuts,
/// and for `next` past the end.
pub open spec fn navigation_target(list: Seq<Email>, current: Option<Seq<char>>, action: ShortcutAction) -> Option<nat> {
    if list.len() == 0 {
        None
    } else {
        let pos = current_position(list, current);
        match action {
            ShortcutAction::NextThread => {
                let next = match pos {
                    Some(i) => i + 1,
                    None => 0,
                };
                if next < list.len() {
                    Some(next as nat)
                } else {
                    None
                }
            },
            ShortcutAction::PrevThread => match pos {
                Some(i) => if i > 0 {
                    Some((i - 1) as nat)
                } else {
                    Some(0)
                },
                None => Some(0),
            },
            ShortcutAction::GoToNextPage => {
                let cur = match pos {
                    Some(i) => i,
                    None => 0,
                };
                if cur + 20 < list.len() {
                    Some((cur + 20) as nat)
                } else {
                    Some((list.len() - 1) as nat)
                }
            },
            ShortcutAction::GoToPrevPage => {
                let cur = match pos {
                    Some(i) => i,
                    None => 0,
                };
                if cur > 20 {
                    Some((cur - 20) as nat)
                } else {
                    Some(0)
                }
            },
            _ => None,
        }
    }
}

proof fn lemma_position_bound(list: Seq<Email>, id: Seq<char>)
    ensures
        position_of_id(list, id) matches Some(k) ==> k < list.len(),
    decreases list.len(),
{
    if list.len() > 0 && list[0].id@ != id {
        lemma_position_bound(list.drop_first(), id);
    }
}

/// Position of the first mail with the given id.
pub fn find_email(list: &Vec<Email>, id: &String) -> (r: Option<usize>)
    ensures
        r matches Some(k) ==> position_of_id(list@, id@) == Some(k as nat) && k < list@.len(),
        r is None ==> position_of_id(list@, id@) is None,
{
    let mut i: usize = 0;
    assert(list@.skip(0) == list@);
    while i < list.len()
        invariant
            i <= list.len(),
            position_of_id(list@, id@) == match position_of_id(list@.skip(i as int), id@) {
                Some(k) => Some((k + i) as nat),
                None => None::<nat>,
            },
        decreases list.len() - i,
    {
        assert(list@.skip(i as int)[0] == list@[i as int]);
        if same_text(list[i].id.as_str(), id.as_str()) {
            assert(position_of_id(list@.skip(i as int), id@) == Some(0nat));
            return Some(i);
        }
        assert(list@.skip(i as int).drop_first() == list@.skip(i + 1));
        i = i + 1;
    }
    None
}

impl ListState {
    /// The list before anything is loaded: page one, more to come.
    pub fn new() -> (r: Self)
        ensures
            r.page == 1,
            r.emails@.len() == 0,
            !r.loading,
            r.has_more,
            !r.sentinel_visible,
    {
        ListState { page: 1, emails: Vec::new(), loading: false, has_more: true, sentinel_visible: false }
    }

    /// The filters changed: back to page one, nothing loaded, more to come.
    pub fn reset(&mut self)
        ensures
            final(self).page == 1,
            final(self).emails@.len() == 0,
            final(self).has_more,
            final(self).loading == old(self).loading,
            final(self).sentinel_visible == old(self).sentinel_visible,
    {
        self.page = 1;
        self.emails = Vec::new();
        self.has_more = true;
    }

    /// Whether the next page should be asked for: the end of the list is in
    /// view, nothing is loading and the last page was full.
    pub fn wants_more(&self) -> (r: bool)
        ensures
            r == (self.sentinel_visible && !self.loading && self.has_more),
    {
        self.sentinel_visible && !self.loading && self.has_more
    }

    /// Asks for the next page when `wants_more` holds.
    pub fn maybe_next_page(&mut self) -> (r: bool)
        requires
            old(self).page < i32::MAX,
        ensures
            r == (old(self).sentinel_visible && !old(self).loading && old(self).has_more),
            r ==> final(self).page == old(self).page + 1,
            !r ==> final(self).page == old(self).page,
            final(self).emails == old(self).emails,
            final(self).loading == old(self).loading,
            final(self).has_more == old(self).has_more,
            final(self).sentinel_visible == old(self).sentinel_visible,
    {
        if self.wants_more() {
            self.page = self.page + 1;
            true
        } else {
            false
        }
    }

    /// A page arrived: page one replaces the list, a later page extends it;
    /// a short page means there is no more.
    pub fn apply_page(&mut self, page: i32, items: Vec<Email>)
        ensures
            final(self).has_more == (items@.len() == LIST_PAGE_SIZE),
            page == 1 ==> final(self).emails@ == items@,
            page != 1 ==> final(self).emails@ == old(self).emails@ + items@,
            final(self).page == old(self).page,
            final(self).loading == old(self).loading,
            final(self).sentinel_visible == old(self).sentinel_visible,
    {
        self.has_more = items.len() == LIST_PAGE_SIZE;
        if page == 1 {
            self.emails = items;
        } else {
            let mut more = items;
            self.emails.append(&mut more);
        }
    }

    /// The id of the mail that a navigation shortcut opens (see
    /// `navigation_target`).
    pub fn navigate(&self, current: &Option<String>, action: ShortcutAction) -> (r: Option<String>)
        ensures
            match navigation_target(self.emails@, opt_text(*current), action) {
                Some(k) => r matches Some(id) && id@ == self.emails@[k as int].id@,
                None => r is None,
            },
    {
        let n = self.emails.len();
        if n == 0 {
            return None;
        }
        let pos: Option<usize> = match current {
            Some(id) => find_email(&self.emails, id),
            None => None,
        };
        let target: Option<usize> = match action {
            ShortcutAction::NextThread => {
                let next: usize = match pos {
                    Some(i) => i + 1,
                    None => 0,
                };
                if next < n {
                    Some(next)
                } else {
                    None
                }
            },
            ShortcutAction::PrevThread => match pos {
                Some(i) => if i > 0 {
                    Some(i - 1)
                } else {
                    Some(0)
                },
                None => Some(0),
            },
            ShortcutAction::GoToNextPage => {
                let cur: usize = match pos {
                    Some(i) => i,
                    None => 0,
                };
                if n - cur > 20 {
                    Some(cur + 20)
                } else {
                    Some(n - 1)
                }
            },
            ShortcutAction::GoToPrevPage => {
                let cur: usize = match pos {
                    Some(i) => i,
                    None => 0,
                };
                if cur > 20 {
                    Some(cur - 20)
                } else {
                    Some(0)
                }
            },
            _ => None,
        };
        match target {
            Some(k) => Some(self.emails[k].id.clone()),
            None => None,
        }
    }
}

/// The date as the list shows it: its first ten characters.
pub fn date_display(date: &str) -> (r: String)
    ensures
        r@ == take_chars(date@, 10),
{
    let cs = chars_of(date);
    string_of(take_prefix(cs.as_slice(), 10).as_slice())
}


/// Bytes that `encodeURIComponent` leaves as they are: ASCII letters and
/// digits and `-_.!~*'()`.
pub open spec fn uri_unreserved(b: u8) -> bool {
    ||| 65 <= b <= 90
    ||| 97 <= b <= 122
    ||| 48 <= b <= 57
    ||| b == 45 || b == 95 || b == 46 || b == 33 || b == 126 || b == 42 || b == 39 || b == 40
        || b == 41
}

/// Upper-case hexadecimal digit for a value below sixteen.
pub open spec fn hex_upper(d: u8) -> char {
    if d < 10 {
        ((d + 48) as u32) as char
    } else {
        ((d + 55) as u32) as char
    }
}

/// The escape of one byte: itself when unreserved, `%` and two upper-case
/// hexadecimal digits otherwise.
pub open spec fn uri_escape_byte(b: u8) -> Seq<char> {
    if uri_unreserved(b) {
        seq![(b as u32) as char]
    } else {
        seq!['%', hex_upper(b / 16), hex_upper(b % 16)]
    }
}

/// The escapes of a run of bytes.
pub open spec fn uri_escape_bytes(bs: Seq<u8>) -> Seq<char>
    decreases bs.len(),
{
    if bs.len() == 0 {
        Seq::empty()
    } else {
        uri_escape_bytes(bs.drop_last()) + uri_escape_byte(bs.last())
    }
}

/// `encodeURIComponent`: each UTF-8 byte of the text escaped (see
/// `uri_escape_byte`).
pub open spec fn uri_component(s: Seq<char>) -> Seq<char> {
    uri_escape_bytes(vstd::utf8::encode_utf8(s))
}

fn ascii_char(u: u8) -> (c: char)
    requires
        u < 128,
    ensures
        c == (u as u32) as char,
{
    u as char
}

fn hex_upper_char(d: u8) -> (c: char)
    requires
        d < 16,
    ensures
        c == hex_upper(d),
{
    if d < 10 {
        ascii_char(d + 48)
    } else {
        ascii_char(d + 55)
    }
}

/// `encodeURIComponent` (see `uri_component`).
pub fn encode_uri_component(s: &str) -> (r: String)
    ensures
        r@ == uri_component(s@),
{
    let bs = s.as_bytes();
    let mut out: Vec<char> = Vec::new();
    let mut i: usize = 0;
    while i < bs.len()
        invariant
            i <= bs.len(),
            bs@ == vstd::utf8::encode_utf8(s@),
            out@ == uri_escape_bytes(bs@.take(i as int)),
        decreases bs.len() - i,
    {
        let b = bs[i];
        assert(bs@.take(i + 1).drop_last() == bs@.take(i as int));
        let keep = (65 <= b && b <= 90) || (97 <= b && b <= 122) || (48 <= b && b <= 57) || b == 45
            || b == 95 || b == 46 || b == 33 || b == 126 || b == 42 || b == 39 || b == 40 || b == 41;
        if keep {
            out.push(ascii_char(b));
        } else {
            out.push('%');
            out.push(hex_upper_char(b / 16));
            out.push(hex_upper_char(b % 16));
        }
        i = i + 1;
    }
    assert(bs@.take(bs.len() as int) == bs@);
    string_of(out.as_slice())
}

/// A character that can stand in a URL query value as it is: an
/// unreserved ASCII character, `%`, or an upper-case hexadecimal digit.
pub open spec fn query_safe(c: char) -> bool {
    ||| ('A' <= c <= 'Z')
    ||| ('a' <= c <= 'z')
    ||| ('0' <= c <= '9')
    ||| c == '-' || c == '_' || c == '.' || c == '!' || c == '~' || c == '*' || c == '\''
        || c == '(' || c == ')' || c == '%'
}

proof fn lemma_escape_safe(bs: Seq<u8>)
    ensures
        forall|i: int| 0 <= i < uri_escape_bytes(bs).len() ==> query_safe(#[trigger] uri_escape_bytes(bs)[i]),
    decreases bs.len(),
{
    if bs.len() > 0 {
        lemma_escape_safe(bs.drop_last());
        let b = bs.last();
        let a = uri_escape_bytes(bs.drop_last());
        let e = uri_escape_byte(b);
        assert(b / 16 < 16 && b % 16 < 16);
        assert forall|i: int| 0 <= i < e.len() implies query_safe(#[trigger] e[i]) by {
            if !uri_unreserved(b) {
                assert(e[0] == '%');
            }
        }
        assert forall|i: int| 0 <= i < (a + e).len() implies query_safe(#[trigger] (a + e)[i]) by {
            if i >= a.len() {
                assert((a + e)[i] == e[i - a.len()]);
            } else {
                assert((a + e)[i] == a[i]);
            }
        }
    }
}

/// An encoded query value holds no character that could end or split it
/// (no `&`, `=`, `#`, `?`, `+`, space or anything beyond ASCII).
pub proof fn law_uri_component_query_safe(s: Seq<char>)
    ensures
        forall|i: int| 0 <= i < uri_component(s).len() ==> query_safe(#[trigger] uri_component(s)[i]),
{
    lemma_escape_safe(vstd::utf8::encode_utf8(s));
}

/// Decimal notation of an integer, with a minus sign when negative.
pub open spec fn signed_decimal(n: int) -> Seq<char> {
    if n < 0 {
        seq!['-'] + decimal((-n) as nat)
    } else {
        decimal(n as nat)
    }
}

fn i32_decimal(n: i32) -> (r: Vec<char>)
    ensures
        r@ == signed_decimal(n as int),
{
    let wide = n as i64;
    if wide < 0 {
        let mut v: Vec<char> = Vec::new();
        v.push('-');
        let m = (0 - wide) as usize;
        let d = decimal_of(m);
        append_chars(&mut v, d.as_slice());
        v
    } else {
        decimal_of(wide as usize)
    }
}

/// `&name=` followed by the encoded value, when the value is not empty.
pub open spec fn query_part(name: Seq<char>, v: Seq<char>) -> Seq<char> {
    if v.len() == 0 {
        Seq::empty()
    } else {
        seq!['&'] + name + seq!['='] + uri_component(v)
    }
}

/// The address of a page of the mail list.
pub open spec fn search_url(page: int, label: Seq<char>, q: Seq<char>, start: Seq<char>, end: Seq<char>) -> Seq<char> {
    "http://localhost:8001/search?page="@ + signed_decimal(page) + "&size=50"@ + query_part(
        "label"@,
        label,
    ) + query_part("q"@, q) + query_part("start_date"@, start) + query_part("end_date"@, end)
}

fn push_query_part(url: &mut Vec<char>, name: &str, v: &String)
    ensures
        final(url)@ == old(url)@ + query_part(name@, v@),
{
    if v.as_str().is_empty() {
        assert(old(url)@ + Seq::<char>::empty() == old(url)@);
        return;
    }
    url.push('&');
    let n = chars_of(name);
    append_chars(url, n.as_slice());
    url.push('=');
    let e = encode_uri_component(v.as_str());
    let ec = chars_of(e.as_str());
    append_chars(url, ec.as_slice());
    assert(final(url)@ =~= old(url)@ + query_part(name@, v@));
}

/// The address of a page of the mail list for the given filters.
pub fn build_search_url(page: i32, label: &String, q: &String, start: &String, end: &String) -> (r:
    String)
    ensures
        r@ == search_url(page as int, label@, q@, start@, end@),
{
    let mut url = chars_of("http://localhost:8001/search?page=");
    let d = i32_decimal(page);
    append_chars(&mut url, d.as_slice());
    let sz = chars_of("&size=50");
    append_chars(&mut url, sz.as_slice());
    push_query_part(&mut url, "label", label);
    push_query_part(&mut url, "q", q);
    push_query_part(&mut url, "start_date", start);
    push_query_part(&mut url, "end_date", end);
    string_of(url.as_slice())
}

/// Whether a label matches the picker's filter: the filter, lower-cased,
/// occurs in the label, lower-cased.
pub open spec fn label_matches(label: Seq<char>, filter_lower: Seq<char>) -> bool {
    contains_run(spec_lowercase(label), filter_lower)
}

/// The labels that match a lower-cased filter, in order.
pub open spec fn matching_labels(labels: Seq<Seq<char>>, filter_lower: Seq<char>) -> Seq<Seq<char>>
    decreases labels.len(),
{
    if labels.len() == 0 {
        Seq::empty()
    } else {
        let rest = matching_labels(labels.drop_last(), filter_lower);
        if label_matches(labels.last(), filter_lower) {
            rest.push(labels.last())
        } else {
            rest
        }
    }
}

/// The labels that the picker lists for a filter: all of them for an empty
/// filter, those that match it otherwise.
pub open spec fn picker_labels(labels: Seq<Seq<char>>, filter: Seq<char>) -> Seq<Seq<char>> {
    let f = spec_lowercase(filter);
    if f.len() == 0 {
        labels
    } else {
        matching_labels(labels, f)
    }
}

/// A copy of a list of strings.
pub fn copy_strings(v: &Vec<String>) -> (r: Vec<String>)
    ensures
        views(r@) == views(v@),
{
    let mut r: Vec<String> = Vec::new();
    let mut i: usize = 0;
    while i < v.len()
        invariant
            i <= v.len(),
            views(r@) == views(v@).take(i as int),
        decreases v.len() - i,
    {
        let ghost before = views(r@);
        r.push(v[i].clone());
        assert(views(r@) == before.push(v@[i as int]@));
        assert(views(v@).take(i + 1) == views(v@).take(i as int).push(v@[i as int]@));
        i = i + 1;
    }
    assert(views(v@).take(v.len() as int) == views(v@));
    r
}

/// The labels that the picker lists (see `picker_labels`).
pub fn filtered_labels(labels: &Vec<String>, filter: &str) -> (r: Vec<String>)
    ensures
        views(r@) == picker_labels(views(labels@), filter@),
{
    let f = lowercase(filter);
    if f.as_str().is_empty() {
        return copy_strings(labels);
    }
    let fc = chars_of(f.as_str());
    let mut r: Vec<String> = Vec::new();
    let mut i: usize = 0;
    while i < labels.len()
        invariant
            i <= labels.len(),
            fc@ == spec_lowercase(filter@),
            views(r@) == matching_labels(views(labels@).take(i as int), fc@),
        decreases labels.len() - i,
    {
        assert(views(labels@).take(i + 1).drop_last() == views(labels@).take(i as int));
        assert(views(labels@).take(i + 1).last() == labels@[i as int]@);
        let low = lowercase(labels[i].as_str());
        let lc = chars_of(low.as_str());
        if contains_text(lc.as_slice(), fc.as_slice()) {
            let ghost before = views(r@);
            r.push(labels[i].clone());
            assert(views(r@) == before.push(labels@[i as int]@));
        }
        i = i + 1;
    }
    assert(views(labels@).take(labels.len() as int) == views(labels@));
    r
}

/// What the label picker does with a key or a click.
pub struct PickerOutcome {
    pub prevent_default: bool,
    /// The label chosen, if any.
    pub chosen: Option<String>,
    pub close: bool,
}

/// The label picker's state: its filter and the highlighted position.
pub struct LabelPicker {
    pub filter: String,
    pub selected_index: usize,
}

impl LabelPicker {
    /// The picker as it opens: no filter, the first label highlighted.
    pub fn new() -> (r: Self)
        ensures
            r.filter@ == Seq::<char>::empty(),
            r.selected_index == 0,
    {
        LabelPicker { filter: String::new(), selected_index: 0 }
    }

    /// The picker opened: the filter is cleared and the first label is
    /// highlighted.
    pub fn open(&mut self)
        ensures
            final(self).filter@ == Seq::<char>::empty(),
            final(self).selected_index == 0,
    {
        self.filter = String::new();
        self.selected_index = 0;
    }

    /// The filter was typed into: the first match is highlighted.
    pub fn set_filter(&mut self, f: String)
        ensures
            final(self).filter == f,
            final(self).selected_index == 0,
    {
        self.filter = f;
        self.selected_index = 0;
    }

    /// The pointer entered a listed label: it is highlighted.
    pub fn hover(&mut self, label: &String, listed: &Vec<String>)
        ensures
            final(self).filter == old(self).filter,
            (exists|k: int| 0 <= k < listed@.len() && listed@[k]@ == label@) ==> final(self).selected_index < listed@.len() && listed@[final(self).selected_index as int]@
                == label@ && forall|k: int|
                0 <= k < final(self).selected_index ==> listed@[k]@ != label@,
            !(exists|k: int| 0 <= k < listed@.len() && listed@[k]@ == label@) ==> final(self).selected_index == old(self).selected_index,
    {
        let mut i: usize = 0;
        while i < listed.len()
            invariant
                i <= listed.len(),
                self.filter == old(self).filter,
                self.selected_index == old(self).selected_index,
                forall|k: int| 0 <= k < i ==> listed@[k]@ != label@,
            decreases listed.len() - i,
        {
            if same_text(listed[i].as_str(), label.as_str()) {
                self.selected_index = i;
                return;
            }
            i = i + 1;
        }
    }

    /// A key pressed in the filter box, over the labels listed now:
    /// arrows move the highlight within the list, Enter chooses the
    /// highlighted label and closes, Escape closes.
    pub fn key(&mut self, key: &str, listed: &Vec<String>) -> (r: PickerOutcome)
        requires
            old(self).selected_index < usize::MAX,
        ensures
            final(self).filter == old(self).filter,
            key@ == "ArrowDown"@ ==> r.prevent_default && r.chosen is None && !r.close && (if listed@.len()
                > 0 {
                final(self).selected_index == (if old(self).selected_index + 1 <= listed@.len() - 1 {
                    old(self).selected_index + 1
                } else {
                    listed@.len() - 1
                })
            } else {
                final(self).selected_index == old(self).selected_index
            }),
            key@ == "ArrowUp"@ ==> r.prevent_default && r.chosen is None && !r.close
                && final(self).selected_index == (if old(self).selected_index > 0 {
                old(self).selected_index - 1
            } else {
                0
            }),
            key@ == "Enter"@ ==> r.prevent_default && final(self).selected_index == old(self).selected_index && (if old(self).selected_index < listed@.len() {
                r.close && (r.chosen matches Some(c) && c@ == listed@[old(self).selected_index as int]@)
            } else {
                !r.close && r.chosen is None
            }),
            key@ == "Escape"@ ==> !r.prevent_default && r.chosen is None && r.close
                && final(self).selected_index == old(self).selected_index,
            key@ != "ArrowDown"@ && key@ != "ArrowUp"@ && key@ != "Enter"@ && key@ != "Escape"@
                ==> !r.prevent_default && r.chosen is None && !r.close && final(self).selected_index == old(self).selected_index,
    {
        proof {
            reveal_strlit("ArrowDown");
            reveal_strlit("ArrowUp");
            reveal_strlit("Enter");
            reveal_strlit("Escape");
            assert("ArrowDown"@.len() == 9 && "ArrowUp"@.len() == 7 && "Enter"@.len() == 5);
            assert("Escape"@.len() == 6);
            assert("ArrowDown"@[5] != "ArrowUp"@[5]);
        }
        if same_text(key, "ArrowDown") {
            if listed.len() > 0 {
                let next = self.selected_index + 1;
                self.selected_index = if next <= listed.len() - 1 {
                    next
                } else {
                    listed.len() - 1
                };
            }
            PickerOutcome { prevent_default: true, chosen: None, close: false }
        } else if same_text(key, "ArrowUp") {
            self.selected_index = if self.selected_index > 0 {
                self.selected_index - 1
            } else {
                0
            };
            PickerOutcome { prevent_default: true, chosen: None, close: false }
        } else if same_text(key, "Enter") {
            if self.selected_index < listed.len() {
                PickerOutcome {
                    prevent_default: true,
                    chosen: Some(listed[self.selected_index].clone()),
                    close: true,
                }
            } else {
                PickerOutcome { prevent_default: true, chosen: None, close: false }
            }
        } else if same_text(key, "Escape") {
            PickerOutcome { prevent_default: false, chosen: None, close: true }
        } else {
            PickerOutcome { prevent_default: false, chosen: None, close: false }
        }
    }
}

/// The standard labels, in the order the sidebar lists them.
pub open spec fn standard_labels() -> Seq<Seq<char>> {
    seq!["Inbox"@, "Sent"@, "Trash"@, "Spam"@, "Drafts"@, "Important"@, "Starred"@]
}

/// The labels of `from` that `among` holds (or does not hold), in order.
pub open spec fn kept(from: Seq<Seq<char>>, among: Seq<Seq<char>>, inside: bool) -> Seq<Seq<char>>
    decreases from.len(),
{
    if from.len() == 0 {
        Seq::empty()
    } else {
        let rest = kept(from.drop_last(), among, inside);
        if among.contains(from.last()) == inside {
            rest.push(from.last())
        } else {
            rest
        }
    }
}

/// The sidebar's two lists: the standard labels present, in the standard
/// order, and the other labels, in the order given.
pub struct SidebarLists {
    pub standard: Vec<String>,
    pub others: Vec<String>,
}

fn standard_label_list() -> (r: Vec<String>)
    ensures
        views(r@) == standard_labels(),
{
    let mut r: Vec<String> = Vec::new();
    r.push(owned("Inbox"));
    r.push(owned("Sent"));
    r.push(owned("Trash"));
    r.push(owned("Spam"));
    r.push(owned("Drafts"));
    r.push(owned("Important"));
    r.push(owned("Starred"));
    assert(views(r@) =~= standard_labels());
    r
}

/// Whether the list holds the string.
pub fn holds(list: &Vec<String>, s: &String) -> (r: bool)
    ensures
        r == views(list@).contains(s@),
{
    let mut i: usize = 0;
    while i < list.len()
        invariant
            i <= list.len(),
            forall|k: int| 0 <= k < i ==> list@[k]@ != s@,
        decreases list.len() - i,
    {
        if same_text(list[i].as_str(), s.as_str()) {
            assert(views(list@)[i as int] == s@);
            return true;
        }
        i = i + 1;
    }
    assert forall|k: int| 0 <= k < views(list@).len() implies views(list@)[k] != s@ by {
        assert(views(list@)[k] == list@[k]@);
    }
    false
}

/// The strings of `from` that `among` holds (or does not hold), in order
/// (see `kept`).
pub fn keep_strings(from: &Vec<String>, among: &Vec<String>, inside: bool) -> (r: Vec<String>)
    ensures
        views(r@) == kept(views(from@), views(among@), inside),
{
    let mut r: Vec<String> = Vec::new();
    let mut i: usize = 0;
    while i < from.len()
        invariant
            i <= from.len(),
            views(r@) == kept(views(from@).take(i as int), views(among@), inside),
        decreases from.len() - i,
    {
        assert(views(from@).take(i + 1).drop_last() == views(from@).take(i as int));
        assert(views(from@).take(i + 1).last() == from@[i as int]@);
        if holds(among, &from[i]) == inside {
            let ghost before = views(r@);
            r.push(from[i].clone());
            assert(views(r@) == before.push(from@[i as int]@));
        }
        i = i + 1;
    }
    assert(views(from@).take(from.len() as int) == views(from@));
    r
}

/// Splits the labels of the archive into the sidebar's two lists.
pub fn sidebar_lists(labels: &Vec<String>) -> (r: SidebarLists)
    ensures
        views(r.standard@) == kept(standard_labels(), views(labels@), true),
        views(r.others@) == kept(views(labels@), standard_labels(), false),
{
    let std_labels = standard_label_list();
    SidebarLists {
        standard: keep_strings(&std_labels, labels, true),
        others: keep_strings(labels, &std_labels, false),
    }
}

/// What `kept` holds: the strings of `from` that `among` holds (or does
/// not hold), and nothing else.
pub proof fn lemma_kept_members(from: Seq<Seq<char>>, among: Seq<Seq<char>>, inside: bool, x: Seq<char>)
    ensures
        kept(from, among, inside).contains(x) <==> from.contains(x) && among.contains(x) == inside,
    decreases from.len(),
{
    if from.len() > 0 {
        let p = from.drop_last();
        lemma_kept_members(p, among, inside, x);
        let rest = kept(p, among, inside);
        if from.contains(x) && from.last() != x {
            let k = choose|k: int| 0 <= k < from.len() && from[k] == x;
            assert(p[k] == x);
        }
        if p.contains(x) {
            let k = choose|k: int| 0 <= k < p.len() && p[k] == x;
            assert(from[k] == x);
        }
        assert(from[from.len() - 1] == from.last());
        if among.contains(from.last()) == inside {
            assert(rest.push(from.last())[rest.len() as int] == from.last());
            if rest.contains(x) {
                let k = choose|k: int| 0 <= k < rest.len() && rest[k] == x;
                assert(rest.push(from.last())[k] == x);
            }
            if rest.push(from.last()).contains(x) {
                let k = choose|k: int| 0 <= k < rest.len() + 1 && rest.push(from.last())[k] == x;
                if k < rest.len() {
                    assert(rest[k] == x);
                }
            }
        }
    }
}

/// Every label of the archive appears in exactly one of the sidebar's two
/// lists, and nothing else appears in them.
pub proof fn law_sidebar_partition(labels: Seq<Seq<char>>, x: Seq<char>)
    ensures
        labels.contains(x) ==> (kept(standard_labels(), labels, true).contains(x) != kept(
            labels,
            standard_labels(),
            false,
        ).contains(x)),
        kept(standard_labels(), labels, true).contains(x) ==> labels.contains(x),
        kept(labels, standard_labels(), false).contains(x) ==> labels.contains(x),
{
    lemma_kept_members(standard_labels(), labels, true, x);
    lemma_kept_members(labels, standard_labels(), false, x);
}


/// An attachment as the reading pane lists it.
pub struct Attachment {
    pub filename: String,
    pub size: usize,
    pub path: String,
}

/// A mail as the reading pane shows it.
pub struct EmailDetailData {
    pub id: String,
    pub subject: String,
    pub sender: String,
    pub to: String,
    pub date: String,
    pub labels: Vec<String>,
    pub body_html: String,
    pub attachments: Vec<Attachment>,
}

/// `char::to_uppercase`, collected into a string (full Unicode case
/// mapping, which may give more than one character).
pub uninterp spec fn spec_char_uppercase(c: char) -> Seq<char>;

/// `char::to_uppercase`: the result is a function of the character alone.
#[verifier::external_body]
pub(crate) fn uppercase_of(c: char) -> (r: String)
    ensures
        r@ == spec_char_uppercase(c),
{
    c.to_uppercase().to_string()
}

/// The badge of a sender: the upper-case form of the first character of
/// the sender's name, or of `?` when the name is empty.
pub open spec fn sender_badge(sender: Seq<char>) -> Seq<char> {
    spec_char_uppercase(if sender.len() > 0 {
        sender[0]
    } else {
        '?'
    })
}

/// The badge of a sender (see `sender_badge`).
pub fn sender_initial(sender: &str) -> (r: String)
    ensures
        r@ == sender_badge(sender@),
{
    let cs = chars_of(sender);
    let c = if cs.len() > 0 {
        cs[0]
    } else {
        '?'
    };
    uppercase_of(c)
}

/// The address from which an attachment is downloaded.
pub fn attachment_url(path: &str) -> (r: String)
    ensures
        r@ == "http://localhost:8001/attachment/"@ + path@,
{
    concat("http://localhost:8001/attachment/", path)
}

} // verus!
