use std::collections::VecDeque;
use vstd::prelude::*;

verus! {

/// A key of the keyboard's set-1 scancode table (AZERTY layout).
#[derive(Debug, Clone, Copy, PartialEq, Eq, Structural)]
pub enum KeyCode {
    A,
    B,
    C,
    D,
    E,
    F,
    G,
    H,
    I,
    J,
    K,
    L,
    M,
    N,
    O,
    P,
    Q,
    R,
    S,
    T,
    U,
    V,
    W,
    X,
    Y,
    Z,
    /// A key outside the table, with its code (release bit cleared).
    Unknown(u8),
}

/// A key event: the key went down or came up.
#[derive(Debug, Clone, Copy, PartialEq, Eq, Structural)]
pub enum ScanCode {
    Pressed(KeyCode),
    Released(KeyCode),
}

/// The key that a scancode with its release bit cleared stands for.
pub open spec fn key_of(key: u8) -> KeyCode {
    match key {
        0x10u8 => KeyCode::A,
        0x11u8 => KeyCode::Z,
        0x12u8 => KeyCode::E,
        0x13u8 => KeyCode::R,
        0x14u8 => KeyCode::T,
        0x15u8 => KeyCode::Y,
        0x16u8 => KeyCode::U,
        0x17u8 => KeyCode::I,
        0x18u8 => KeyCode::O,
        0x19u8 => KeyCode::P,
        0x1Eu8 => KeyCode::Q,
        0x1Fu8 => KeyCode::S,
        0x20u8 => KeyCode::D,
        0x21u8 => KeyCode::F,
        0x22u8 => KeyCode::G,
        0x23u8 => KeyCode::H,
        0x24u8 => KeyCode::J,
        0x25u8 => KeyCode::K,
        0x26u8 => KeyCode::L,
        0x27u8 => KeyCode::M,
        0x2Cu8 => KeyCode::W,
        0x2Du8 => KeyCode::X,
        0x2Eu8 => KeyCode::C,
        0x2Fu8 => KeyCode::V,
        0x30u8 => KeyCode::B,
        0x31u8 => KeyCode::N,
        _ => KeyCode::Unknown(key),
    }
}

/// The lower-case letter of a key; `'?'` for a key outside the table.
pub open spec fn char_of(code: KeyCode) -> char {
    match code {
        KeyCode::A => 'a',
        KeyCode::B => 'b',
        KeyCode::C => 'c',
        KeyCode::D => 'd',
        KeyCode::E => 'e',
        KeyCode::F => 'f',
        KeyCode::G => 'g',
        KeyCode::H => 'h',
        KeyCode::I => 'i',
        KeyCode::J => 'j',
        KeyCode::K => 'k',
        KeyCode::L => 'l',
        KeyCode::M => 'm',
        KeyCode::N => 'n',
        KeyCode::O => 'o',
        KeyCode::P => 'p',
        KeyCode::Q => 'q',
        KeyCode::R => 'r',
        KeyCode::S => 's',
        KeyCode::T => 't',
        KeyCode::U => 'u',
        KeyCode::V => 'v',
        KeyCode::W => 'w',
        KeyCode::X => 'x',
        KeyCode::Y => 'y',
        KeyCode::Z => 'z',
        KeyCode::Unknown(_) => '?',
    }
}

/// The event that a raw scancode byte stands for: bit 7 set means released.
pub open spec fn scancode_of(code: u8) -> ScanCode {
    if code >= 0x80 {
        ScanCode::Released(key_of(code & 0x7f))
    } else {
        ScanCode::Pressed(key_of(code & 0x7f))
    }
}

fn lookup_key(key: u8) -> (r: KeyCode)
    ensures
        r == key_of(key),
{
    match key {
        0x10u8 => KeyCode::A,
        0x11u8 => KeyCode::Z,
        0x12u8 => KeyCode::E,
        0x13u8 => KeyCode::R,
        0x14u8 => KeyCode::T,
        0x15u8 => KeyCode::Y,
        0x16u8 => KeyCode::U,
        0x17u8 => KeyCode::I,
        0x18u8 => KeyCode::O,
        0x19u8 => KeyCode::P,
        0x1Eu8 => KeyCode::Q,
        0x1Fu8 => KeyCode::S,
        0x20u8 => KeyCode::D,
        0x21u8 => KeyCode::F,
        0x22u8 => KeyCode::G,
        0x23u8 => KeyCode::H,
        0x24u8 => KeyCode::J,
        0x25u8 => KeyCode::K,
        0x26u8 => KeyCode::L,
        0x27u8 => KeyCode::M,
        0x2Cu8 => KeyCode::W,
        0x2Du8 => KeyCode::X,
        0x2Eu8 => KeyCode::C,
        0x2Fu8 => KeyCode::V,
        0x30u8 => KeyCode::B,
        0x31u8 => KeyCode::N,
        _ => KeyCode::Unknown(key),
    }
}

/// Decodes a raw scancode byte.
pub fn parse_scancode(code: u8) -> (r: ScanCode)
    ensures
        r == scancode_of(code),
{
    let key = code & 0x7f;
    let keycode = lookup_key(key);
    if code >= 0x80 {
        ScanCode::Released(keycode)
    } else {
        ScanCode::Pressed(keycode)
    }
}

/// The character a key types.
pub fn keycode_to_char(code: KeyCode) -> (r: char)
    ensures
        r == char_of(code),
{
    match code {
        KeyCode::A => 'a',
        KeyCode::B => 'b',
        KeyCode::C => 'c',
        KeyCode::D => 'd',
        KeyCode::E => 'e',
        KeyCode::F => 'f',
        KeyCode::G => 'g',
        KeyCode::H => 'h',
        KeyCode::I => 'i',
        KeyCode::J => 'j',
        KeyCode::K => 'k',
        KeyCode::L => 'l',
        KeyCode::M => 'm',
        KeyCode::N => 'n',
        KeyCode::O => 'o',
        KeyCode::P => 'p',
        KeyCode::Q => 'q',
        KeyCode::R => 'r',
        KeyCode::S => 's',
        KeyCode::T => 't',
        KeyCode::U => 'u',
        KeyCode::V => 'v',
        KeyCode::W => 'w',
        KeyCode::X => 'x',
        KeyCode::Y => 'y',
        KeyCode::Z => 'z',
        KeyCode::Unknown(_) => '?',
    }
}

/// The character a key press types; a release types nothing.
pub fn scancode_to_char(code: ScanCode) -> (r: Option<char>)
    ensures
        r == match code {
            ScanCode::Pressed(k) => Some(char_of(k)),
            ScanCode::Released(_) => None,
        },
{
    match code {
        ScanCode::Pressed(keycode) => Some(keycode_to_char(keycode)),
        ScanCode::Released(_) => None,
    }
}

/// Bytes that the keyboard interrupt has delivered and no one has read yet,
/// oldest first.
pub struct InputBuffer {
    bytes: VecDeque<u8>,
}

impl InputBuffer {
    /// The pending bytes, oldest first.
    pub closed spec fn pending(&self) -> Seq<u8> {
        self.bytes@
    }
}

/// An empty input buffer.
pub fn init() -> (r: InputBuffer)
    ensures
        r.pending() == Seq::<u8>::empty(),
{
    InputBuffer { bytes: VecDeque::new() }
}

/// Takes the oldest pending byte, if any.
pub fn pop_input(buffer: &mut InputBuffer) -> (r: Option<u8>)
    ensures
        old(buffer).pending().len() == 0 ==> r == None::<u8>
            && final(buffer).pending() == old(buffer).pending(),
        old(buffer).pending().len() > 0 ==> r == Some(old(buffer).pending()[0])
            && final(buffer).pending() == old(buffer).pending().drop_first(),
{
    buffer.bytes.pop_front()
}

/// Appends a byte after all pending ones.
pub fn push_input(buffer: &mut InputBuffer, input: u8)
    ensures
        final(buffer).pending() == old(buffer).pending().push(input),
{
    buffer.bytes.push_back(input);
}

} // verus!
