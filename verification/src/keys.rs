//! Keys as the terminal reports them, and the names that a player has for them.
use crate::text::{cat, decimal, decimal_of};
use vstd::prelude::*;

verus! {

/// A key.
#[derive(Clone, Copy, Debug, PartialEq, Eq, Structural)]
pub enum Key {
    Char(char),
    Enter,
    Esc,
    Backspace,
    Delete,
    Tab,
    BackTab,
    Up,
    Down,
    Left,
    Right,
    PageUp,
    PageDown,
    Home,
    End,
    F(u8),
    Other,
}

/// What the screen has to do after a key.
#[derive(Clone, Copy, Debug, PartialEq, Eq, Structural)]
pub enum KeyAction {
    Quit,
    Render,
    RenderDetails,
    Reconnect,
    Nothing,
}

/// Up, or the letter that stands for it.
pub open spec fn is_up(k: Key) -> bool {
    k == Key::Up || k == Key::Char('k')
}

/// Down, or the letter that stands for it.
pub open spec fn is_down(k: Key) -> bool {
    k == Key::Down || k == Key::Char('j')
}

/// Left, or the letter that stands for it.
pub open spec fn is_left(k: Key) -> bool {
    k == Key::Left || k == Key::Char('h')
}

/// Right, or the letter that stands for it.
pub open spec fn is_right(k: Key) -> bool {
    k == Key::Right || k == Key::Char('l')
}

pub fn up(k: Key) -> (r: bool)
    ensures
        r == is_up(k),
{
    k == Key::Up || k == Key::Char('k')
}

pub fn down(k: Key) -> (r: bool)
    ensures
        r == is_down(k),
{
    k == Key::Down || k == Key::Char('j')
}

pub fn left(k: Key) -> (r: bool)
    ensures
        r == is_left(k),
{
    k == Key::Left || k == Key::Char('h')
}

pub fn right(k: Key) -> (r: bool)
    ensures
        r == is_right(k),
{
    k == Key::Right || k == Key::Char('l')
}

/// The player's name for a key: a word for the keys without a character, the
/// character itself for the others. Nothing where the player has no name for it.
pub open spec fn mpv_key(k: Key) -> Seq<char> {
    match k {
        Key::Char(c) => if c == ' ' {
            "SPACE"@
        } else {
            seq![c]
        },
        Key::Enter => "ENTER"@,
        Key::Esc => "ESC"@,
        Key::Backspace => "BS"@,
        Key::Delete => "DEL"@,
        Key::Tab => "TAB"@,
        Key::Up => "UP"@,
        Key::Down => "DOWN"@,
        Key::Left => "LEFT"@,
        Key::Right => "RIGHT"@,
        Key::PageUp => "PGUP"@,
        Key::PageDown => "PGDWN"@,
        Key::Home => "HOME"@,
        Key::End => "END"@,
        Key::F(n) => "F"@ + decimal(n as int),
        Key::BackTab => Seq::empty(),
        Key::Other => Seq::empty(),
    }
}

/// The player's name for a key.
pub fn mpv_key_name(k: Key) -> (r: String)
    ensures
        r@ == mpv_key(k),
{
    match k {
        Key::Char(c) => if c == ' ' {
            "SPACE".to_owned()
        } else {
            let mut s: String = String::new();
            s.push(c);
            assert(s@ =~= seq![c]);
            s
        },
        Key::Enter => "ENTER".to_owned(),
        Key::Esc => "ESC".to_owned(),
        Key::Backspace => "BS".to_owned(),
        Key::Delete => "DEL".to_owned(),
        Key::Tab => "TAB".to_owned(),
        Key::Up => "UP".to_owned(),
        Key::Down => "DOWN".to_owned(),
        Key::Left => "LEFT".to_owned(),
        Key::Right => "RIGHT".to_owned(),
        Key::PageUp => "PGUP".to_owned(),
        Key::PageDown => "PGDWN".to_owned(),
        Key::Home => "HOME".to_owned(),
        Key::End => "END".to_owned(),
        Key::F(n) => cat("F", decimal_of(n as usize).as_str()),
        Key::BackTab => String::new(),
        Key::Other => String::new(),
    }
}

} // verus!
