//! Keyboard shortcuts of the browser interface: the key sequence state
//! machine and the actions it yields.

use vstd::prelude::*;

use crate::text::same_text;

verus! {

/// What a shortcut asks for.
#[derive(Clone, Copy, PartialEq, Eq, Debug, Structural)]
pub enum ShortcutAction {
    Help,
    CloseHelp,
    Search,
    GoToInbox,
    GoToSent,
    GoToDrafts,
    GoToAll,
    GoToStarred,
    GoToTrash,
    GoToImportant,
    GoToLabel,
    NextThread,
    PrevThread,
    OpenThread,
    BackToList,
    GoToNextPage,
    GoToPrevPage,
}

/// Where a key press happened.
#[derive(Clone, Copy, PartialEq, Eq, Debug, Structural)]
pub enum KeyTarget {
    /// Nowhere in particular (no target).
    Nothing,
    /// A text input field.
    Input,
    /// A text area.
    TextArea,
    /// Any other element.
    Other,
}

/// What the interface does with a key press.
#[derive(Clone, Copy, PartialEq, Eq, Debug, Structural)]
pub struct KeyOutcome {
    pub action: Option<ShortcutAction>,
    pub prevent_default: bool,
    pub blur_target: bool,
}

/// The action that `g` followed by `key` asks for.
pub open spec fn g_action(key: Seq<char>) -> Option<ShortcutAction> {
    if key == "i"@ {
        Some(ShortcutAction::GoToInbox)
    } else if key == "t"@ {
        Some(ShortcutAction::GoToSent)
    } else if key == "d"@ {
        Some(ShortcutAction::GoToDrafts)
    } else if key == "a"@ {
        Some(ShortcutAction::GoToAll)
    } else if key == "s"@ {
        Some(ShortcutAction::GoToStarred)
    } else if key == "#"@ {
        Some(ShortcutAction::GoToTrash)
    } else if key == "m"@ {
        Some(ShortcutAction::GoToImportant)
    } else if key == "l"@ {
        Some(ShortcutAction::GoToLabel)
    } else if key == "n"@ {
        Some(ShortcutAction::GoToNextPage)
    } else if key == "p"@ {
        Some(ShortcutAction::GoToPrevPage)
    } else {
        None
    }
}

/// The action of a key pressed on its own.
pub open spec fn single_action(key: Seq<char>) -> Option<ShortcutAction> {
    if key == "u"@ {
        Some(ShortcutAction::BackToList)
    } else if key == "j"@ {
        Some(ShortcutAction::NextThread)
    } else if key == "k"@ {
        Some(ShortcutAction::PrevThread)
    } else if key == "o"@ || key == "Enter"@ {
        Some(ShortcutAction::OpenThread)
    } else {
        None
    }
}

/// No visible effect.
pub open spec fn quiet() -> KeyOutcome {
    KeyOutcome { action: None, prevent_default: false, blur_target: false }
}

/// Just the action.
pub open spec fn acts(a: Option<ShortcutAction>) -> KeyOutcome {
    KeyOutcome { action: a, prevent_default: false, blur_target: false }
}

/// A key press, given whether `g` was pressed just before: whether `g` is
/// pending afterwards, and what the interface does. Typing into a field is
/// left alone but for Escape; Escape closes the help and clears the
/// sequence; `?` and `/` act at once; `g` starts a two-key sequence, which
/// the next key completes (or abandons).
pub open spec fn key_step(pending_g: bool, key: Seq<char>, target: KeyTarget) -> (bool, KeyOutcome) {
    let escape = key == "Escape"@ || key == "Esc"@;
    let typing = target == KeyTarget::Input || target == KeyTarget::TextArea;
    if typing && !escape {
        (pending_g, quiet())
    } else if escape {
        (
            false,
            KeyOutcome {
                action: Some(ShortcutAction::CloseHelp),
                prevent_default: false,
                blur_target: target == KeyTarget::Input,
            },
        )
    } else if key == "?"@ {
        (pending_g, acts(Some(ShortcutAction::Help)))
    } else if key == "/"@ {
        (
            pending_g,
            KeyOutcome {
                action: Some(ShortcutAction::Search),
                prevent_default: true,
                blur_target: false,
            },
        )
    } else if !pending_g {
        if key == "g"@ {
            (true, quiet())
        } else {
            (false, acts(single_action(key)))
        }
    } else {
        (false, acts(g_action(key)))
    }
}

/// The shortcut handler: remembers whether `g` is pending.
pub struct ShortcutState {
    pending_g: bool,
}

impl ShortcutState {
    /// Whether `g` was the last key and awaits its second key.
    pub closed spec fn pending(&self) -> bool {
        self.pending_g
    }

    /// A handler with nothing pending.
    pub fn new() -> (r: Self)
        ensures
            !r.pending(),
    {
        ShortcutState { pending_g: false }
    }

    /// Handles one key press (see `key_step`).
    pub fn handle_key(&mut self, key: &str, target: KeyTarget) -> (r: KeyOutcome)
        ensures
            (final(self).pending(), r) == key_step(old(self).pending(), key@, target),
    {
        let escape = same_text(key, "Escape") || same_text(key, "Esc");
        let typing = target == KeyTarget::Input || target == KeyTarget::TextArea;
        if typing && !escape {
            return KeyOutcome { action: None, prevent_default: false, blur_target: false };
        }
        if escape {
            self.pending_g = false;
            return KeyOutcome {
                action: Some(ShortcutAction::CloseHelp),
                prevent_default: false,
                blur_target: target == KeyTarget::Input,
            };
        }
        if same_text(key, "?") {
            return KeyOutcome {
                action: Some(ShortcutAction::Help),
                prevent_default: false,
                blur_target: false,
            };
        }
        if same_text(key, "/") {
            return KeyOutcome {
                action: Some(ShortcutAction::Search),
                prevent_default: true,
                blur_target: false,
            };
        }
        if !self.pending_g {
            if same_text(key, "g") {
                self.pending_g = true;
                return KeyOutcome { action: None, prevent_default: false, blur_target: false };
            }
            let action = single_key_action(key);
            KeyOutcome { action, prevent_default: false, blur_target: false }
        } else {
            self.pending_g = false;
            let action = g_key_action(key);
            KeyOutcome { action, prevent_default: false, blur_target: false }
        }
    }
}

fn single_key_action(key: &str) -> (r: Option<ShortcutAction>)
    ensures
        r == single_action(key@),
{
    if same_text(key, "u") {
        Some(ShortcutAction::BackToList)
    } else if same_text(key, "j") {
        Some(ShortcutAction::NextThread)
    } else if same_text(key, "k") {
        Some(ShortcutAction::PrevThread)
    } else if same_text(key, "o") || same_text(key, "Enter") {
        Some(ShortcutAction::OpenThread)
    } else {
        None
    }
}

fn g_key_action(key: &str) -> (r: Option<ShortcutAction>)
    ensures
        r == g_action(key@),
{
    if same_text(key, "i") {
        Some(ShortcutAction::GoToInbox)
    } else if same_text(key, "t") {
        Some(ShortcutAction::GoToSent)
    } else if same_text(key, "d") {
        Some(ShortcutAction::GoToDrafts)
    } else if same_text(key, "a") {
        Some(ShortcutAction::GoToAll)
    } else if same_text(key, "s") {
        Some(ShortcutAction::GoToStarred)
    } else if same_text(key, "#") {
        Some(ShortcutAction::GoToTrash)
    } else if same_text(key, "m") {
        Some(ShortcutAction::GoToImportant)
    } else if same_text(key, "l") {
        Some(ShortcutAction::GoToLabel)
    } else if same_text(key, "n") {
        Some(ShortcutAction::GoToNextPage)
    } else if same_text(key, "p") {
        Some(ShortcutAction::GoToPrevPage)
    } else {
        None
    }
}

/// A second key always ends a sequence: after any key that is not typed
/// into a field, `g` is pending only when that key was a `g` pressed with
/// nothing pending.
pub proof fn law_sequence_ends(pending_g: bool, key: Seq<char>, target: KeyTarget)
    requires
        target != KeyTarget::Input && target != KeyTarget::TextArea,
    ensures
        key_step(pending_g, key, target).0 ==> (!pending_g && key == "g"@) || (pending_g && (key
            == "?"@ || key == "/"@)),
        pending_g && key_step(pending_g, key, target).0 ==> key_step(pending_g, key, target).1.action
            is Some,
{
    if key == "Escape"@ || key == "Esc"@ {
    } else if key == "?"@ {
    } else if key == "/"@ {
    }
}

/// Escape always closes the help and leaves no sequence pending, wherever
/// it is pressed.
pub proof fn law_escape_resets(pending_g: bool, target: KeyTarget)
    ensures
        key_step(pending_g, "Escape"@, target).0 == false,
        key_step(pending_g, "Escape"@, target).1.action == Some(ShortcutAction::CloseHelp),
{
}

/// `g` followed by a second key, neither typed into a field, does what the
/// shortcut help lists for the pair: `g i` Inbox, `g t` Sent, `g d` Drafts,
/// `g a` all mail, `g s` Starred, `g #` Trash, `g m` Important, `g l` the
/// label picker, `g n` and `g p` a page down and up; and the pair ends the
/// sequence.
pub proof fn law_g_sequences(t1: KeyTarget, t2: KeyTarget, k: Seq<char>)
    requires
        t1 != KeyTarget::Input && t1 != KeyTarget::TextArea,
        t2 != KeyTarget::Input && t2 != KeyTarget::TextArea,
        k != "Escape"@ && k != "Esc"@ && k != "?"@ && k != "/"@,
    ensures
        key_step(false, "g"@, t1).0,
        key_step(false, "g"@, t1).1.action is None,
        !key_step(key_step(false, "g"@, t1).0, k, t2).0,
        key_step(true, "i"@, t2).1.action == Some(ShortcutAction::GoToInbox),
        key_step(true, "t"@, t2).1.action == Some(ShortcutAction::GoToSent),
        key_step(true, "d"@, t2).1.action == Some(ShortcutAction::GoToDrafts),
        key_step(true, "a"@, t2).1.action == Some(ShortcutAction::GoToAll),
        key_step(true, "s"@, t2).1.action == Some(ShortcutAction::GoToStarred),
        key_step(true, "#"@, t2).1.action == Some(ShortcutAction::GoToTrash),
        key_step(true, "m"@, t2).1.action == Some(ShortcutAction::GoToImportant),
        key_step(true, "l"@, t2).1.action == Some(ShortcutAction::GoToLabel),
        key_step(true, "n"@, t2).1.action == Some(ShortcutAction::GoToNextPage),
        key_step(true, "p"@, t2).1.action == Some(ShortcutAction::GoToPrevPage),
{
    reveal_strlit("g");
    reveal_strlit("i");
    reveal_strlit("t");
    reveal_strlit("d");
    reveal_strlit("a");
    reveal_strlit("s");
    reveal_strlit("#");
    reveal_strlit("m");
    reveal_strlit("l");
    reveal_strlit("n");
    reveal_strlit("p");
    reveal_strlit("Escape");
    reveal_strlit("Esc");
    reveal_strlit("?");
    reveal_strlit("/");
    assert("g"@.len() == 1 && "Escape"@.len() == 6 && "Esc"@.len() == 3);
    assert("g"@ != "Escape"@ && "g"@ != "Esc"@);
    assert("g"@[0] != "?"@[0] && "g"@[0] != "/"@[0]);
    assert("g"@ != "?"@ && "g"@ != "/"@);
    assert("i"@.len() == 1);
    assert("t"@.len() == 1);
    assert("d"@.len() == 1);
    assert("a"@.len() == 1);
    assert("s"@.len() == 1);
    assert("#"@.len() == 1);
    assert("m"@.len() == 1);
    assert("l"@.len() == 1);
    assert("n"@.len() == 1);
    assert("p"@.len() == 1);
    assert("Escape"@.len() == 6 && "Esc"@.len() == 3 && "?"@.len() == 1 && "/"@.len() == 1);
    assert("i"@ != "Escape"@ && "i"@ != "Esc"@);
    assert("i"@[0] != "?"@[0]);
    assert("i"@[0] != "/"@[0]);
    assert("i"@ != "?"@ && "i"@ != "/"@);
    assert("t"@ != "Escape"@ && "t"@ != "Esc"@);
    assert("t"@[0] != "?"@[0]);
    assert("t"@[0] != "/"@[0]);
    assert("t"@[0] != "i"@[0]);
    assert("t"@ != "?"@ && "t"@ != "/"@ && "t"@ != "i"@);
    assert("d"@ != "Escape"@ && "d"@ != "Esc"@);
    assert("d"@[0] != "?"@[0]);
    assert("d"@[0] != "/"@[0]);
    assert("d"@[0] != "i"@[0]);
    assert("d"@[0] != "t"@[0]);
    assert("d"@ != "?"@ && "d"@ != "/"@ && "d"@ != "i"@ && "d"@ != "t"@);
    assert("a"@ != "Escape"@ && "a"@ != "Esc"@);
    assert("a"@[0] != "?"@[0]);
    assert("a"@[0] != "/"@[0]);
    assert("a"@[0] != "i"@[0]);
    assert("a"@[0] != "t"@[0]);
    assert("a"@[0] != "d"@[0]);
    assert("a"@ != "?"@ && "a"@ != "/"@ && "a"@ != "i"@ && "a"@ != "t"@ && "a"@ != "d"@);
    assert("s"@ != "Escape"@ && "s"@ != "Esc"@);
    assert("s"@[0] != "?"@[0]);
    assert("s"@[0] != "/"@[0]);
    assert("s"@[0] != "i"@[0]);
    assert("s"@[0] != "t"@[0]);
    assert("s"@[0] != "d"@[0]);
    assert("s"@[0] != "a"@[0]);
    assert("s"@ != "?"@ && "s"@ != "/"@ && "s"@ != "i"@ && "s"@ != "t"@ && "s"@ != "d"@ && "s"@ != "a"@);
    assert("#"@ != "Escape"@ && "#"@ != "Esc"@);
    assert("#"@[0] != "?"@[0]);
    assert("#"@[0] != "/"@[0]);
    assert("#"@[0] != "i"@[0]);
    assert("#"@[0] != "t"@[0]);
    assert("#"@[0] != "d"@[0]);
    assert("#"@[0] != "a"@[0]);
    assert("#"@[0] != "s"@[0]);
    assert("#"@ != "?"@ && "#"@ != "/"@ && "#"@ != "i"@ && "#"@ != "t"@ && "#"@ != "d"@ && "#"@ != "a"@ && "#"@ != "s"@);
    assert("m"@ != "Escape"@ && "m"@ != "Esc"@);
    assert("m"@[0] != "?"@[0]);
    assert("m"@[0] != "/"@[0]);
    assert("m"@[0] != "i"@[0]);
    assert("m"@[0] != "t"@[0]);
    assert("m"@[0] != "d"@[0]);
    assert("m"@[0] != "a"@[0]);
    assert("m"@[0] != "s"@[0]);
    assert("m"@[0] != "#"@[0]);
    assert("m"@ != "?"@ && "m"@ != "/"@ && "m"@ != "i"@ && "m"@ != "t"@ && "m"@ != "d"@ && "m"@ != "a"@ && "m"@ != "s"@ && "m"@ != "#"@);
    assert("l"@ != "Escape"@ && "l"@ != "Esc"@);
    assert("l"@[0] != "?"@[0]);
    assert("l"@[0] != "/"@[0]);
    assert("l"@[0] != "i"@[0]);
    assert("l"@[0] != "t"@[0]);
    assert("l"@[0] != "d"@[0]);
    assert("l"@[0] != "a"@[0]);
    assert("l"@[0] != "s"@[0]);
    assert("l"@[0] != "#"@[0]);
    assert("l"@[0] != "m"@[0]);
    assert("l"@ != "?"@ && "l"@ != "/"@ && "l"@ != "i"@ && "l"@ != "t"@ && "l"@ != "d"@ && "l"@ != "a"@ && "l"@ != "s"@ && "l"@ != "#"@ && "l"@ != "m"@);
    assert("n"@ != "Escape"@ && "n"@ != "Esc"@);
    assert("n"@[0] != "?"@[0]);
    assert("n"@[0] != "/"@[0]);
    assert("n"@[0] != "i"@[0]);
    assert("n"@[0] != "t"@[0]);
    assert("n"@[0] != "d"@[0]);
    assert("n"@[0] != "a"@[0]);
    assert("n"@[0] != "s"@[0]);
    assert("n"@[0] != "#"@[0]);
    assert("n"@[0] != "m"@[0]);
    assert("n"@[0] != "l"@[0]);
    assert("n"@ != "?"@ && "n"@ != "/"@ && "n"@ != "i"@ && "n"@ != "t"@ && "n"@ != "d"@ && "n"@ != "a"@ && "n"@ != "s"@ && "n"@ != "#"@ && "n"@ != "m"@ && "n"@ != "l"@);
    assert("p"@ != "Escape"@ && "p"@ != "Esc"@);
    assert("p"@[0] != "?"@[0]);
    assert("p"@[0] != "/"@[0]);
    assert("p"@[0] != "i"@[0]);
    assert("p"@[0] != "t"@[0]);
    assert("p"@[0] != "d"@[0]);
    assert("p"@[0] != "a"@[0]);
    assert("p"@[0] != "s"@[0]);
    assert("p"@[0] != "#"@[0]);
    assert("p"@[0] != "m"@[0]);
    assert("p"@[0] != "l"@[0]);
    assert("p"@[0] != "n"@[0]);
    assert("p"@ != "?"@ && "p"@ != "/"@ && "p"@ != "i"@ && "p"@ != "t"@ && "p"@ != "d"@ && "p"@ != "a"@ && "p"@ != "s"@ && "p"@ != "#"@ && "p"@ != "m"@ && "p"@ != "l"@ && "p"@ != "n"@);
}

} // verus!
