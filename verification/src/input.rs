//! What a key press sends to the shell.

use vstd::prelude::*;
use vstd::slice::slice_to_vec;
use vstd::utf8::encode_utf8;

verus! {

/// The keys without text of their own that send an escape sequence.
#[derive(Clone, Copy, Debug)]
pub enum NamedKey {
    Enter,
    Backspace,
    Tab,
    Escape,
    ArrowUp,
    ArrowDown,
    ArrowRight,
    ArrowLeft,
    Home,
    End,
    PageUp,
    PageDown,
    Insert,
    Delete,
    F1,
    F2,
    F3,
    F4,
    F5,
    F6,
    F7,
    F8,
    F9,
    F10,
    F11,
    F12,
}

/// The logical key of a key press.
#[derive(Debug)]
pub enum LogicalKey {
    /// A key that stands for this text.
    Character(String),
    /// One of the named keys above.
    Named(NamedKey),
    /// Any other key.
    Other,
}

/// The bytes that a named key sends.
pub open spec fn named_key_sequence(key: NamedKey) -> Seq<u8> {
    match key {
        NamedKey::Enter => seq![0x0Du8],
        NamedKey::Backspace => seq![0x7Fu8],
        NamedKey::Tab => seq![0x09u8],
        NamedKey::Escape => seq![0x1Bu8],
        NamedKey::ArrowUp => seq![0x1Bu8, 0x5B, 0x41],
        NamedKey::ArrowDown => seq![0x1Bu8, 0x5B, 0x42],
        NamedKey::ArrowRight => seq![0x1Bu8, 0x5B, 0x43],
        NamedKey::ArrowLeft => seq![0x1Bu8, 0x5B, 0x44],
        NamedKey::Home => seq![0x1Bu8, 0x5B, 0x48],
        NamedKey::End => seq![0x1Bu8, 0x5B, 0x46],
        NamedKey::PageUp => seq![0x1Bu8, 0x5B, 0x35, 0x7E],
        NamedKey::PageDown => seq![0x1Bu8, 0x5B, 0x36, 0x7E],
        NamedKey::Insert => seq![0x1Bu8, 0x5B, 0x32, 0x7E],
        NamedKey::Delete => seq![0x1Bu8, 0x5B, 0x33, 0x7E],
        NamedKey::F1 => seq![0x1Bu8, 0x4F, 0x50],
        NamedKey::F2 => seq![0x1Bu8, 0x4F, 0x51],
        NamedKey::F3 => seq![0x1Bu8, 0x4F, 0x52],
        NamedKey::F4 => seq![0x1Bu8, 0x4F, 0x53],
        NamedKey::F5 => seq![0x1Bu8, 0x5B, 0x31, 0x35, 0x7E],
        NamedKey::F6 => seq![0x1Bu8, 0x5B, 0x31, 0x37, 0x7E],
        NamedKey::F7 => seq![0x1Bu8, 0x5B, 0x31, 0x38, 0x7E],
        NamedKey::F8 => seq![0x1Bu8, 0x5B, 0x31, 0x39, 0x7E],
        NamedKey::F9 => seq![0x1Bu8, 0x5B, 0x32, 0x30, 0x7E],
        NamedKey::F10 => seq![0x1Bu8, 0x5B, 0x32, 0x31, 0x7E],
        NamedKey::F11 => seq![0x1Bu8, 0x5B, 0x32, 0x33, 0x7E],
        NamedKey::F12 => seq![0x1Bu8, 0x5B, 0x32, 0x34, 0x7E],
    }
}

/// What a key event sends: nothing on release; else its text when it has
/// some, else the text of its key, else the sequence of a named key.
pub open spec fn key_input(pressed: bool, text: Option<Seq<char>>, key: LogicalKey) -> Option<
    Seq<u8>,
> {
    if !pressed {
        None
    } else if text is Some && text->0.len() > 0 {
        Some(encode_utf8(text->0))
    } else {
        match key {
            LogicalKey::Character(s) => if s@.len() > 0 {
                Some(encode_utf8(s@))
            } else {
                None
            },
            LogicalKey::Named(k) => Some(named_key_sequence(k)),
            LogicalKey::Other => None,
        }
    }
}

/// The bytes that the named key `key` sends.
pub fn named_key_bytes(key: NamedKey) -> (bytes: Vec<u8>)
    ensures
        bytes@ == named_key_sequence(key),
{
    let bytes = match key {
        NamedKey::Enter => vec![0x0D],
        NamedKey::Backspace => vec![0x7F],
        NamedKey::Tab => vec![0x09],
        NamedKey::Escape => vec![0x1B],
        NamedKey::ArrowUp => vec![0x1B, 0x5B, 0x41],
        NamedKey::ArrowDown => vec![0x1B, 0x5B, 0x42],
        NamedKey::ArrowRight => vec![0x1B, 0x5B, 0x43],
        NamedKey::ArrowLeft => vec![0x1B, 0x5B, 0x44],
        NamedKey::Home => vec![0x1B, 0x5B, 0x48],
        NamedKey::End => vec![0x1B, 0x5B, 0x46],
        NamedKey::PageUp => vec![0x1B, 0x5B, 0x35, 0x7E],
        NamedKey::PageDown => vec![0x1B, 0x5B, 0x36, 0x7E],
        NamedKey::Insert => vec![0x1B, 0x5B, 0x32, 0x7E],
        NamedKey::Delete => vec![0x1B, 0x5B, 0x33, 0x7E],
        NamedKey::F1 => vec![0x1B, 0x4F, 0x50],
        NamedKey::F2 => vec![0x1B, 0x4F, 0x51],
        NamedKey::F3 => vec![0x1B, 0x4F, 0x52],
        NamedKey::F4 => vec![0x1B, 0x4F, 0x53],
        NamedKey::F5 => vec![0x1B, 0x5B, 0x31, 0x35, 0x7E],
        NamedKey::F6 => vec![0x1B, 0x5B, 0x31, 0x37, 0x7E],
        NamedKey::F7 => vec![0x1B, 0x5B, 0x31, 0x38, 0x7E],
        NamedKey::F8 => vec![0x1B, 0x5B, 0x31, 0x39, 0x7E],
        NamedKey::F9 => vec![0x1B, 0x5B, 0x32, 0x30, 0x7E],
        NamedKey::F10 => vec![0x1B, 0x5B, 0x32, 0x31, 0x7E],
        NamedKey::F11 => vec![0x1B, 0x5B, 0x32, 0x33, 0x7E],
        NamedKey::F12 => vec![0x1B, 0x5B, 0x32, 0x34, 0x7E],
    };
    assert(bytes@ =~= named_key_sequence(key));
    bytes
}

/// The bytes that a key event sends to the shell, if any.
pub fn key_input_bytes(pressed: bool, text: Option<&str>, key: &LogicalKey) -> (bytes: Option<
    Vec<u8>,
>)
    ensures
        ({
            let text_view = match text {
                Some(t) => Some(t@),
                None => None,
            };
            &&& bytes matches Some(b) ==> key_input(pressed, text_view, *key) == Some(b@)
            &&& bytes is None ==> key_input(pressed, text_view, *key) is None
        }),
{
    if !pressed {
        return None;
    }
    if let Some(text) = text {
        if !text.is_empty() {
            return Some(slice_to_vec(text.as_bytes()));
        }
    }
    if let LogicalKey::Character(ch) = key {
        if !ch.as_str().is_empty() {
            return Some(slice_to_vec(ch.as_str().as_bytes()));
        }
    }
    match key {
        LogicalKey::Named(k) => Some(named_key_bytes(*k)),
        _ => None,
    }
}

} // verus!
