//! Keys: which of them the editor inside the chat pane never sees, and how the
//! others are written for it.

use vstd::prelude::*;

use crate::commands::completion::opt_string_view;
use crate::text::{decimal, push_decimal};

verus! {

/// The modifier keys that were held.
#[derive(Clone, Copy, Debug, PartialEq, Eq, Structural)]
pub struct KeyModifiers {
    pub shift: bool,
    pub control: bool,
    pub alt: bool,
    /// Any of the others.
    pub other: bool,
}

impl KeyModifiers {
    /// No modifier.
    pub fn none() -> (r: KeyModifiers)
        ensures
            r == no_modifiers(),
    {
        KeyModifiers { shift: false, control: false, alt: false, other: false }
    }

    /// Control alone.
    pub fn control() -> (r: KeyModifiers)
        ensures
            r == only_control(),
    {
        KeyModifiers { shift: false, control: true, alt: false, other: false }
    }

    /// Shift alone.
    pub fn shift() -> (r: KeyModifiers)
        ensures
            r == only_shift(),
    {
        KeyModifiers { shift: true, control: false, alt: false, other: false }
    }

    /// Alt alone.
    pub fn alt() -> (r: KeyModifiers)
        ensures
            r == only_alt(),
    {
        KeyModifiers { shift: false, control: false, alt: true, other: false }
    }
}

pub open spec fn no_modifiers() -> KeyModifiers {
    KeyModifiers { shift: false, control: false, alt: false, other: false }
}

pub open spec fn only_control() -> KeyModifiers {
    KeyModifiers { control: true, ..no_modifiers() }
}

pub open spec fn only_shift() -> KeyModifiers {
    KeyModifiers { shift: true, ..no_modifiers() }
}

pub open spec fn only_alt() -> KeyModifiers {
    KeyModifiers { alt: true, ..no_modifiers() }
}

/// A key.
#[derive(Clone, Copy, Debug, PartialEq, Eq, Structural)]
pub enum KeyCode {
    Char(char),
    Enter,
    Esc,
    Backspace,
    Delete,
    Tab,
    BackTab,
    Up,
    Down,
    Left,
    Right,
    Home,
    End,
    PageUp,
    PageDown,
    F(u8),
    /// Any other key.
    Other,
}

/// A key press.
#[derive(Clone, Copy, Debug, PartialEq, Eq, Structural)]
pub struct KeyEvent {
    pub code: KeyCode,
    pub modifiers: KeyModifiers,
}

/// What `char::to_uppercase` yields.
pub uninterp spec fn char_uppercase(c: char) -> Seq<char>;

/// `char::to_uppercase`: the upper-case form of a character by Unicode's tables,
/// which may be several characters; a function of the character alone.
#[verifier::external_body]
fn uppercase_char(c: char) -> (r: String)
    ensures
        r@ == char_uppercase(c),
{
    c.to_uppercase().to_string()
}

/// What `char::is_alphabetic` returns.
pub uninterp spec fn is_letter(c: char) -> bool;

/// `char::is_alphabetic`: whether a character has Unicode's `Alphabetic`
/// property; a function of the character alone.
#[verifier::external_body]
fn is_alphabetic(c: char) -> (r: bool)
    ensures
        r == is_letter(c),
{
    c.is_alphabetic()
}

/// The keys that stay with the front end: the pane prefix, the pager, submit,
/// help, mode and search.
pub open spec fn is_reserved(e: KeyEvent) -> bool {
    ||| e.modifiers == only_control() && e.code == KeyCode::Char('w')
    ||| e.modifiers == only_control() && e.code == KeyCode::Char('t')
    ||| e.modifiers == only_control() && e.code == KeyCode::Enter
    ||| e.modifiers == no_modifiers() && e.code == KeyCode::F(1)
    ||| e.modifiers == no_modifiers() && e.code == KeyCode::F(4)
    ||| e.modifiers == no_modifiers() && e.code == KeyCode::Char('/')
}

/// Whether a key must not be forwarded to the editor.
pub fn is_reserved_key(event: &KeyEvent) -> (r: bool)
    ensures
        r == is_reserved(*event),
{
    let m = event.modifiers;
    let bare = !m.shift && !m.alt && !m.other;
    match event.code {
        KeyCode::Char(c) => (m.control && bare && (c == 'w' || c == 't')) || (!m.control && bare && c
            == '/'),
        KeyCode::Enter => m.control && bare,
        KeyCode::F(n) => !m.control && bare && (n == 1 || n == 4),
        _ => false,
    }
}

/// A key in the notation of the editor; `upper` is the upper-case form of the
/// character and `letter` says whether it is one.
pub open spec fn notation(e: KeyEvent, upper: Seq<char>, letter: bool) -> Option<Seq<char>> {
    match e.code {
        KeyCode::Char(c) => Some(
            if e.modifiers.control {
                "<C-"@ + seq![c] + ">"@
            } else if e.modifiers.alt {
                "<A-"@ + seq![c] + ">"@
            } else if e.modifiers.shift && letter {
                upper
            } else {
                seq![c]
            },
        ),
        KeyCode::Enter => Some(
            if e.modifiers.control {
                "<C-CR>"@
            } else if e.modifiers.shift {
                "<S-CR>"@
            } else {
                "<CR>"@
            },
        ),
        KeyCode::Esc => Some("<Esc>"@),
        KeyCode::Backspace => Some("<BS>"@),
        KeyCode::Delete => Some("<Del>"@),
        KeyCode::Tab => Some(
            if e.modifiers.shift {
                "<S-Tab>"@
            } else {
                "<Tab>"@
            },
        ),
        KeyCode::Up => Some("<Up>"@),
        KeyCode::Down => Some("<Down>"@),
        KeyCode::Left => Some("<Left>"@),
        KeyCode::Right => Some("<Right>"@),
        KeyCode::Home => Some("<Home>"@),
        KeyCode::End => Some("<End>"@),
        KeyCode::PageUp => Some("<PageUp>"@),
        KeyCode::PageDown => Some("<PageDown>"@),
        KeyCode::F(n) => Some("<F"@ + decimal(n as nat) + ">"@),
        _ => None,
    }
}

/// The character of a key; any, where it has none.
pub open spec fn key_char(e: KeyEvent) -> char {
    match e.code {
        KeyCode::Char(c) => c,
        _ => ' ',
    }
}

fn with_brackets(head: &str, c: char) -> (r: String)
    ensures
        r@ == head@ + seq![c] + ">"@,
{
    let mut out = head.to_owned();
    out.push(c);
    out.append(">");
    assert(out@ =~= head@ + seq![c] + ">"@);
    out
}

/// Writes a key in the notation of the editor, given the upper-case form of its
/// character and whether that is a letter. Keys without a notation give `None`.
pub fn notation_of(event: &KeyEvent, upper: String, letter: bool) -> (r: Option<String>)
    ensures
        opt_string_view(r) == notation(*event, upper@, letter),
{
    let m = event.modifiers;
    let text = match event.code {
        KeyCode::Char(c) => {
            if m.control {
                return Some(with_brackets("<C-", c));
            } else if m.alt {
                return Some(with_brackets("<A-", c));
            } else if m.shift && letter {
                return Some(upper);
            } else {
                let mut out = String::new();
                out.push(c);
                assert(out@ =~= seq![c]);
                return Some(out);
            }
        },
        KeyCode::Enter => {
            if m.control {
                "<C-CR>"
            } else if m.shift {
                "<S-CR>"
            } else {
                "<CR>"
            }
        },
        KeyCode::Esc => "<Esc>",
        KeyCode::Backspace => "<BS>",
        KeyCode::Delete => "<Del>",
        KeyCode::Tab => {
            if m.shift {
                "<S-Tab>"
            } else {
                "<Tab>"
            }
        },
        KeyCode::Up => "<Up>",
        KeyCode::Down => "<Down>",
        KeyCode::Left => "<Left>",
        KeyCode::Right => "<Right>",
        KeyCode::Home => "<Home>",
        KeyCode::End => "<End>",
        KeyCode::PageUp => "<PageUp>",
        KeyCode::PageDown => "<PageDown>",
        KeyCode::F(n) => {
            let mut out = "<F".to_owned();
            push_decimal(&mut out, n as u64);
            out.append(">");
            return Some(out);
        },
        _ => {
            return None;
        },
    };
    Some(text.to_owned())
}

/// A key as the editor writes it.
pub open spec fn nvim_notation(e: KeyEvent) -> Option<Seq<char>> {
    notation(e, char_uppercase(key_char(e)), is_letter(key_char(e)))
}

/// Writes a key in the notation of the editor, such as `<C-u>`.
pub fn to_nvim_notation(event: &KeyEvent) -> (r: Option<String>)
    ensures
        opt_string_view(r) == nvim_notation(*event),
{
    let c = match event.code {
        KeyCode::Char(c) => c,
        _ => ' ',
    };
    notation_of(event, uppercase_char(c), is_alphabetic(c))
}

} // verus!
