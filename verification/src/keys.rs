//! Key events as the router sees them, and their byte encodings for the
//! focused PTY.

use vstd::prelude::*;
use vstd::utf8::{char_is_scalar, encode_scalar};

verus! {

/// A key, reduced to what the encoding table distinguishes.
#[derive(Clone, Copy, PartialEq, Eq, Structural, Debug)]
pub enum KeyCode {
    Char(char),
    Enter,
    Backspace,
    Tab,
    Esc,
    Up,
    Down,
    Right,
    Left,
    Home,
    End,
    PageUp,
    PageDown,
    Insert,
    Delete,
    F(u8),
    /// Any key the table drops.
    Other,
}

/// A key event: the key, the two modifiers the router reads, and whether
/// this is a press (anything else is ignored).
#[derive(Clone, Copy, PartialEq, Eq, Structural, Debug)]
pub struct KeyEvent {
    pub code: KeyCode,
    pub ctrl: bool,
    pub alt: bool,
    pub press: bool,
}

/// The byte sequence a key encodes to, or `None` when it is dropped:
/// control-letters map to bytes 1..26, plain characters to their UTF-8
/// encoding, and the editing, arrow and function keys to their fixed escape
/// sequences.
pub open spec fn spec_key_bytes(code: KeyCode, ctrl: bool) -> Option<Seq<u8>> {
    match code {
        KeyCode::Char(c) => if ctrl {
            if 97 <= c as u32 <= 122 {
                Some(seq![((c as u32) - 96) as u8])
            } else {
                Option::<Seq<u8>>::None
            }
        } else {
            Some(encode_scalar(c as u32))
        },
        KeyCode::Enter => Some(seq![0x0du8]),
        KeyCode::Backspace => Some(seq![0x7fu8]),
        KeyCode::Tab => Some(seq![0x09u8]),
        KeyCode::Esc => Some(seq![0x1bu8]),
        KeyCode::Up => Some(seq![0x1bu8, 0x5bu8, 0x41u8]),
        KeyCode::Down => Some(seq![0x1bu8, 0x5bu8, 0x42u8]),
        KeyCode::Right => Some(seq![0x1bu8, 0x5bu8, 0x43u8]),
        KeyCode::Left => Some(seq![0x1bu8, 0x5bu8, 0x44u8]),
        KeyCode::Home => Some(seq![0x1bu8, 0x5bu8, 0x48u8]),
        KeyCode::End => Some(seq![0x1bu8, 0x5bu8, 0x46u8]),
        KeyCode::PageUp => Some(seq![0x1bu8, 0x5bu8, 0x35u8, 0x7eu8]),
        KeyCode::PageDown => Some(seq![0x1bu8, 0x5bu8, 0x36u8, 0x7eu8]),
        KeyCode::Insert => Some(seq![0x1bu8, 0x5bu8, 0x32u8, 0x7eu8]),
        KeyCode::Delete => Some(seq![0x1bu8, 0x5bu8, 0x33u8, 0x7eu8]),
        KeyCode::F(n) => spec_fkey_bytes(n),
        KeyCode::Other => Option::<Seq<u8>>::None,
    }
}

/// Escape sequences of the function keys F1..F12; other numbers are
/// dropped.
pub open spec fn spec_fkey_bytes(n: u8) -> Option<Seq<u8>> {
    if n == 1 {
        Some(seq![0x1bu8, 0x4fu8, 0x50u8])
    } else if n == 2 {
        Some(seq![0x1bu8, 0x4fu8, 0x51u8])
    } else if n == 3 {
        Some(seq![0x1bu8, 0x4fu8, 0x52u8])
    } else if n == 4 {
        Some(seq![0x1bu8, 0x4fu8, 0x53u8])
    } else if n == 5 {
        Some(seq![0x1bu8, 0x5bu8, 0x31u8, 0x35u8, 0x7eu8])
    } else if n == 6 {
        Some(seq![0x1bu8, 0x5bu8, 0x31u8, 0x37u8, 0x7eu8])
    } else if n == 7 {
        Some(seq![0x1bu8, 0x5bu8, 0x31u8, 0x38u8, 0x7eu8])
    } else if n == 8 {
        Some(seq![0x1bu8, 0x5bu8, 0x31u8, 0x39u8, 0x7eu8])
    } else if n == 9 {
        Some(seq![0x1bu8, 0x5bu8, 0x32u8, 0x30u8, 0x7eu8])
    } else if n == 10 {
        Some(seq![0x1bu8, 0x5bu8, 0x32u8, 0x31u8, 0x7eu8])
    } else if n == 11 {
        Some(seq![0x1bu8, 0x5bu8, 0x32u8, 0x33u8, 0x7eu8])
    } else if n == 12 {
        Some(seq![0x1bu8, 0x5bu8, 0x32u8, 0x34u8, 0x7eu8])
    } else {
        Option::<Seq<u8>>::None
    }
}

/// The UTF-8 encoding of one character.
pub fn encode_char_utf8(c: char) -> (r: Vec<u8>)
    ensures
        r@ == encode_scalar(c as u32),
{
    proof {
        char_is_scalar(c);
    }
    let v = c as u32;
    let mut r: Vec<u8> = Vec::new();
    if v <= 0x7F {
        r.push((v & 0x7F) as u8);
    } else if v <= 0x7FF {
        r.push(0xC0u8 | ((v >> 6) & 0x1F) as u8);
        r.push(0x80u8 | (v & 0x3F) as u8);
    } else if v <= 0xFFFF {
        r.push(0xE0u8 | ((v >> 12) & 0x0F) as u8);
        r.push(0x80u8 | ((v >> 6) & 0x3F) as u8);
        r.push(0x80u8 | (v & 0x3F) as u8);
    } else {
        r.push(0xF0u8 | ((v >> 18) & 0x7) as u8);
        r.push(0x80u8 | ((v >> 12) & 0x3F) as u8);
        r.push(0x80u8 | ((v >> 6) & 0x3F) as u8);
        r.push(0x80u8 | (v & 0x3F) as u8);
    }
    assert(r@ =~= encode_scalar(c as u32));
    r
}

/// Encode a key to the bytes forwarded to the PTY, as
/// [`spec_key_bytes`] states; `None` when the key is dropped.
pub fn key_event_to_bytes(key: &KeyEvent) -> (r: Option<Vec<u8>>)
    ensures
        r is Some <==> spec_key_bytes(key.code, key.ctrl) is Some,
        r matches Some(v) ==> Some(v@) == spec_key_bytes(key.code, key.ctrl),
{
    match key.code {
        KeyCode::Char(c) => {
            if key.ctrl {
                let v = c as u32;
                if 97 <= v && v <= 122 {
                    let b: u8 = (v - 96) as u8;
                    let r = vec![b];
                    assert(r@ =~= spec_key_bytes(key.code, key.ctrl).unwrap());
                    Some(r)
                } else {
                    None
                }
            } else {
                Some(encode_char_utf8(c))
            }
        },
        KeyCode::Enter => Some(byte_vec1(0x0d)),
        KeyCode::Backspace => Some(byte_vec1(0x7f)),
        KeyCode::Tab => Some(byte_vec1(0x09)),
        KeyCode::Esc => Some(byte_vec1(0x1b)),
        KeyCode::Up => Some(byte_vec3(0x1b, 0x5b, 0x41)),
        KeyCode::Down => Some(byte_vec3(0x1b, 0x5b, 0x42)),
        KeyCode::Right => Some(byte_vec3(0x1b, 0x5b, 0x43)),
        KeyCode::Left => Some(byte_vec3(0x1b, 0x5b, 0x44)),
        KeyCode::Home => Some(byte_vec3(0x1b, 0x5b, 0x48)),
        KeyCode::End => Some(byte_vec3(0x1b, 0x5b, 0x46)),
        KeyCode::PageUp => Some(byte_vec4(0x1b, 0x5b, 0x35, 0x7e)),
        KeyCode::PageDown => Some(byte_vec4(0x1b, 0x5b, 0x36, 0x7e)),
        KeyCode::Insert => Some(byte_vec4(0x1b, 0x5b, 0x32, 0x7e)),
        KeyCode::Delete => Some(byte_vec4(0x1b, 0x5b, 0x33, 0x7e)),
        KeyCode::F(n) => fkey_to_bytes(n),
        KeyCode::Other => None,
    }
}

fn fkey_to_bytes(n: u8) -> (r: Option<Vec<u8>>)
    ensures
        r is Some <==> spec_fkey_bytes(n) is Some,
        r matches Some(v) ==> Some(v@) == spec_fkey_bytes(n),
{
    if n == 1 {
        Some(byte_vec3(0x1b, 0x4f, 0x50))
    } else if n == 2 {
        Some(byte_vec3(0x1b, 0x4f, 0x51))
    } else if n == 3 {
        Some(byte_vec3(0x1b, 0x4f, 0x52))
    } else if n == 4 {
        Some(byte_vec3(0x1b, 0x4f, 0x53))
    } else if n == 5 {
        Some(byte_vec5(0x1b, 0x5b, 0x31, 0x35, 0x7e))
    } else if n == 6 {
        Some(byte_vec5(0x1b, 0x5b, 0x31, 0x37, 0x7e))
    } else if n == 7 {
        Some(byte_vec5(0x1b, 0x5b, 0x31, 0x38, 0x7e))
    } else if n == 8 {
        Some(byte_vec5(0x1b, 0x5b, 0x31, 0x39, 0x7e))
    } else if n == 9 {
        Some(byte_vec5(0x1b, 0x5b, 0x32, 0x30, 0x7e))
    } else if n == 10 {
        Some(byte_vec5(0x1b, 0x5b, 0x32, 0x31, 0x7e))
    } else if n == 11 {
        Some(byte_vec5(0x1b, 0x5b, 0x32, 0x33, 0x7e))
    } else if n == 12 {
        Some(byte_vec5(0x1b, 0x5b, 0x32, 0x34, 0x7e))
    } else {
        None
    }
}

fn byte_vec1(a: u8) -> (r: Vec<u8>)
    ensures
        r@ =~= seq![a],
{
    vec![a]
}

fn byte_vec3(a: u8, b: u8, c: u8) -> (r: Vec<u8>)
    ensures
        r@ =~= seq![a, b, c],
{
    vec![a, b, c]
}

fn byte_vec4(a: u8, b: u8, c: u8, d: u8) -> (r: Vec<u8>)
    ensures
        r@ =~= seq![a, b, c, d],
{
    vec![a, b, c, d]
}

fn byte_vec5(a: u8, b: u8, c: u8, d: u8, e: u8) -> (r: Vec<u8>)
    ensures
        r@ =~= seq![a, b, c, d, e],
{
    vec![a, b, c, d, e]
}

} // verus!
