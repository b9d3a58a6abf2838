//! The keyboard: scancodes become key events, key events become the
//! characters the shell reads. Decoding is left to the `pc_keyboard`
//! crate; what is done with a decoded key is decided here.

use vstd::prelude::*;
use pc_keyboard::layouts::Us104Key;
use pc_keyboard::{
    DecodedKey, HandleControl, KeyCode, KeyEvent, KeyState, Keyboard, ScancodeSet1,
};

verus! {

/// Character the shell reads for the arrow up key.
pub const KEY_UP: char = '\u{E000}';

/// Character the shell reads for the arrow down key.
pub const KEY_DOWN: char = '\u{E001}';

/// Character the shell reads for the arrow left key.
pub const KEY_LEFT: char = '\u{E002}';

/// Character the shell reads for the arrow right key.
pub const KEY_RIGHT: char = '\u{E003}';

/// Character the shell reads for Ctrl+Shift+C.
pub const KEY_COPY: char = '\u{E004}';

/// Character the shell reads for Ctrl+Shift+V.
pub const KEY_PASTE: char = '\u{E005}';

/// Character the shell reads for the delete key.
pub const KEY_DELETE: char = '\u{E006}';

#[verifier::external_type_specification]
#[verifier::external_body]
pub struct ExKeyEvent(KeyEvent);

#[verifier::external_type_specification]
#[verifier::external_body]
pub struct ExKeyCode(KeyCode);

/// The scancode decoder of the `pc_keyboard` crate, for scancode set 1
/// and the US layout with 104 keys. What it holds is not looked into.
#[verifier::external_body]
pub struct Decoder {
    inner: Keyboard<Us104Key, ScancodeSet1>,
}

/// The keys the kernel tells apart.
#[derive(Debug, Clone, Copy, PartialEq, Eq, Structural)]
pub enum Key {
    LControl,
    RControl,
    LShift,
    RShift,
    C,
    V,
    ArrowUp,
    ArrowDown,
    ArrowLeft,
    ArrowRight,
    Delete,
    Other,
}

/// What a key event decodes to.
#[derive(Debug, Clone, Copy, PartialEq, Eq, Structural)]
pub enum Decoded {
    /// A character.
    Unicode(char),
    /// A key without a character.
    RawKey(Key),
}

/// The keyboard's decoder and the modifier keys held down.
pub struct KeyboardState {
    pub decoder: Decoder,
    pub ctrl_pressed: bool,
    pub shift_pressed: bool,
}

/// `Keyboard::new` for scancode set 1 and the US layout with 104 keys,
/// control combinations mapped to Unicode.
#[verifier::external_body]
fn new_decoder() -> (decoder: Decoder) {
    Decoder {
        inner: Keyboard::new(ScancodeSet1::new(), Us104Key, HandleControl::MapLettersToUnicode),
    }
}

#[verifier::external_type_specification]
#[verifier::external_body]
pub struct ExDecodedKey(DecodedKey);

/// `Keyboard::add_byte`: feeds a scancode byte to the decoder; gives the
/// key event the byte completes, if it completes one. Errors of the
/// decoder count as no event. Nothing is claimed of the event: it depends
/// on the bytes fed before.
#[verifier::external_body]
fn add_byte(decoder: &mut Decoder, byte: u8) -> (event: Option<KeyEvent>) {
    match decoder.inner.add_byte(byte) {
        Ok(event) => event,
        Err(_) => None,
    }
}

/// The `code` field of a key event.
#[verifier::external_body]
fn event_code(event: &KeyEvent) -> (code: KeyCode) {
    event.code
}

/// Whether the `state` field of a key event is `KeyState::Down`.
#[verifier::external_body]
fn event_is_down(event: &KeyEvent) -> (down: bool) {
    event.state == KeyState::Down
}

/// `Keyboard::process_keyevent`: what the event decodes to under the
/// modifiers the decoder has seen. Nothing is claimed of the result: it
/// depends on the events processed before.
#[verifier::external_body]
fn process_keyevent(decoder: &mut Decoder, event: KeyEvent) -> (decoded: Option<DecodedKey>) {
    decoder.inner.process_keyevent(event)
}

/// The character of a decoded key of the variant `Unicode`.
#[verifier::external_body]
fn decoded_unicode(decoded: &DecodedKey) -> (c: Option<char>) {
    match decoded {
        DecodedKey::Unicode(c) => Some(*c),
        DecodedKey::RawKey(_) => None,
    }
}

/// The key code of a decoded key of the variant `RawKey`.
#[verifier::external_body]
fn decoded_raw(decoded: &DecodedKey) -> (code: Option<KeyCode>) {
    match decoded {
        DecodedKey::RawKey(code) => Some(*code),
        DecodedKey::Unicode(_) => None,
    }
}

/// One of the kernel's keys for a key code of the decoder: the variant
/// of the same name, or `Other`.
#[verifier::external_body]
fn key_of(code: KeyCode) -> (key: Key) {
    match code {
        KeyCode::LControl => Key::LControl,
        KeyCode::RControl => Key::RControl,
        KeyCode::LShift => Key::LShift,
        KeyCode::RShift => Key::RShift,
        KeyCode::C => Key::C,
        KeyCode::V => Key::V,
        KeyCode::ArrowUp => Key::ArrowUp,
        KeyCode::ArrowDown => Key::ArrowDown,
        KeyCode::ArrowLeft => Key::ArrowLeft,
        KeyCode::ArrowRight => Key::ArrowRight,
        KeyCode::Delete => Key::Delete,
        _ => Key::Other,
    }
}

/// The character the shell reads for a decoded key: the character
/// itself, or the code of an arrow key or the delete key; nothing for
/// any other key without a character.
pub open spec fn char_of(decoded: Decoded) -> Option<char> {
    match decoded {
        Decoded::Unicode(c) => Some(c),
        Decoded::RawKey(Key::ArrowUp) => Some(KEY_UP),
        Decoded::RawKey(Key::ArrowDown) => Some(KEY_DOWN),
        Decoded::RawKey(Key::ArrowLeft) => Some(KEY_LEFT),
        Decoded::RawKey(Key::ArrowRight) => Some(KEY_RIGHT),
        Decoded::RawKey(Key::Delete) => Some(KEY_DELETE),
        Decoded::RawKey(_) => None,
    }
}

/// The character the shell reads for a key pressed while control and
/// shift are held, where that is a shortcut: C copies and V pastes.
pub open spec fn shortcut_of(key: Key) -> Option<char> {
    match key {
        Key::C => Some(KEY_COPY),
        Key::V => Some(KEY_PASTE),
        _ => None,
    }
}

/// Whether control is held after `key` went down or up.
pub open spec fn ctrl_after(held: bool, key: Key, down: bool) -> bool {
    if key == Key::LControl || key == Key::RControl {
        down
    } else {
        held
    }
}

/// Whether shift is held after `key` went down or up.
pub open spec fn shift_after(held: bool, key: Key, down: bool) -> bool {
    if key == Key::LShift || key == Key::RShift {
        down
    } else {
        held
    }
}

/// The event is a shortcut: control and shift are held after it, the key
/// went down, and it is C or V.
pub open spec fn is_shortcut(ctrl: bool, shift: bool, key: Key, down: bool) -> bool {
    ctrl_after(ctrl, key, down) && shift_after(shift, key, down) && down && shortcut_of(key) is Some
}

/// The character an event gives, given what the decoder made of it: a
/// shortcut gives its own character; every other event gives what its
/// decoded key stands for, and nothing where nothing was decoded.
pub open spec fn typed(ctrl: bool, shift: bool, key: Key, down: bool, decoded: Option<Decoded>) -> Option<
    char,
> {
    if is_shortcut(ctrl, shift, key, down) {
        shortcut_of(key)
    } else {
        match decoded {
            Some(d) => char_of(d),
            None => None,
        }
    }
}

/// Modifiers held and character to queue after a byte from the
/// keyboard, given the event the byte completed, if it completed one,
/// and what the decoder made of that event. Without an event nothing
/// changes and nothing is queued.
pub open spec fn after_byte(
    ctrl: bool,
    shift: bool,
    event: Option<(Key, bool)>,
    decoded: Option<Decoded>,
) -> (bool, bool, Option<char>) {
    match event {
        Some((key, down)) => (
            ctrl_after(ctrl, key, down),
            shift_after(shift, key, down),
            typed(ctrl, shift, key, down, decoded),
        ),
        None => (ctrl, shift, None),
    }
}

/// The character for a decoded key.
pub fn key_char(decoded: Decoded) -> (c: Option<char>)
    ensures
        c == char_of(decoded),
{
    match decoded {
        Decoded::Unicode(c) => Some(c),
        Decoded::RawKey(k) => match k {
            Key::ArrowUp => Some(KEY_UP),
            Key::ArrowDown => Some(KEY_DOWN),
            Key::ArrowLeft => Some(KEY_LEFT),
            Key::ArrowRight => Some(KEY_RIGHT),
            Key::Delete => Some(KEY_DELETE),
            _ => None,
        },
    }
}

/// The character for a shortcut key.
pub fn shortcut(key: Key) -> (c: Option<char>)
    ensures
        c == shortcut_of(key),
{
    match key {
        Key::C => Some(KEY_COPY),
        Key::V => Some(KEY_PASTE),
        _ => None,
    }
}

impl KeyboardState {
    /// A keyboard with no modifier held.
    pub fn new() -> (r: KeyboardState)
        ensures
            !r.ctrl_pressed,
            !r.shift_pressed,
    {
        KeyboardState { decoder: new_decoder(), ctrl_pressed: false, shift_pressed: false }
    }

    /// Notes whether control or shift is held after `key` went down or
    /// up.
    pub fn track(&mut self, key: Key, down: bool)
        ensures
            final(self).ctrl_pressed == ctrl_after(old(self).ctrl_pressed, key, down),
            final(self).shift_pressed == shift_after(old(self).shift_pressed, key, down),
    {
        match key {
            Key::LControl | Key::RControl => {
                self.ctrl_pressed = down;
            },
            Key::LShift | Key::RShift => {
                self.shift_pressed = down;
            },
            _ => {},
        }
    }

    /// First look at a key event, given its key and whether the key went
    /// down: notes the modifiers, and gives the shortcut's character
    /// where the event is a shortcut. For every other event the decoder
    /// has to be asked.
    pub fn interpret(&mut self, key: Key, down: bool) -> (c: Option<char>)
        ensures
            final(self).ctrl_pressed == ctrl_after(old(self).ctrl_pressed, key, down),
            final(self).shift_pressed == shift_after(old(self).shift_pressed, key, down),
            c == if is_shortcut(old(self).ctrl_pressed, old(self).shift_pressed, key, down) {
                shortcut_of(key)
            } else {
                None
            },
    {
        self.track(key, down);
        if self.ctrl_pressed && self.shift_pressed && down {
            shortcut(key)
        } else {
            None
        }
    }

    /// Tells whether an event for `key` is a shortcut under the modifiers
    /// held now. The decoder is not asked about a shortcut.
    pub fn is_shortcut_event(&self, key: Key, down: bool) -> (r: bool)
        ensures
            r == is_shortcut(self.ctrl_pressed, self.shift_pressed, key, down),
    {
        let ctrl = match key {
            Key::LControl | Key::RControl => down,
            _ => self.ctrl_pressed,
        };
        let shift = match key {
            Key::LShift | Key::RShift => down,
            _ => self.shift_pressed,
        };
        let known = match key {
            Key::C | Key::V => true,
            _ => false,
        };
        ctrl && shift && down && known
    }

    /// Takes a key event, given its key, whether the key went down, and
    /// what the decoder made of the event: notes the modifiers, and gives
    /// the character to queue for the shell, if the event has one. A
    /// shortcut gives its own character, whatever was decoded; every
    /// other event gives what its decoded key stands for.
    pub fn take_event(&mut self, key: Key, down: bool, decoded: Option<Decoded>) -> (c: Option<char>)
        ensures
            (final(self).ctrl_pressed, final(self).shift_pressed, c) == after_byte(
                old(self).ctrl_pressed,
                old(self).shift_pressed,
                Some((key, down)),
                decoded,
            ),
    {
        match self.interpret(key, down) {
            Some(c) => Some(c),
            None => match decoded {
                Some(d) => key_char(d),
                None => None,
            },
        }
    }

    /// Takes a scancode byte from the keyboard and gives the character
    /// to queue for the shell, if the byte completes a key that has one.
    /// Which event a byte completes and what the event decodes to is up
    /// to the decoder, which is asked about every event but a shortcut.
    /// Whatever it answers, modifiers and character are what
    /// [`KeyboardState::take_event`] makes of the answer; without an
    /// event nothing changes but the decoder, and nothing is queued. So
    /// at most one of the two modifiers changes.
    pub fn keyboard_interrupt_handler(&mut self, scancode: u8) -> (c: Option<char>)
        ensures
            exists|event: Option<(Key, bool)>, decoded: Option<Decoded>|
                #[trigger] after_byte(
                    old(self).ctrl_pressed,
                    old(self).shift_pressed,
                    event,
                    decoded,
                ) == (final(self).ctrl_pressed, final(self).shift_pressed, c),
            final(self).ctrl_pressed == old(self).ctrl_pressed || final(self).shift_pressed == old(
                self,
            ).shift_pressed,
    {
        match add_byte(&mut self.decoder, scancode) {
            Some(event) => {
                let key = key_of(event_code(&event));
                let down = event_is_down(&event);
                let decoded = if self.is_shortcut_event(key, down) {
                    None
                } else {
                    self.decode(event)
                };
                let c = self.take_event(key, down, decoded);
                proof {
                    assert(after_byte(
                        old(self).ctrl_pressed,
                        old(self).shift_pressed,
                        Some((key, down)),
                        decoded,
                    ) == (self.ctrl_pressed, self.shift_pressed, c));
                }
                c
            },
            None => {
                proof {
                    assert(after_byte(
                        old(self).ctrl_pressed,
                        old(self).shift_pressed,
                        None,
                        None,
                    ) == (self.ctrl_pressed, self.shift_pressed, None::<char>));
                }
                None
            },
        }
    }

    /// What the decoder makes of an event, in the kernel's own terms.
    fn decode(&mut self, event: KeyEvent) -> (decoded: Option<Decoded>)
        ensures
            final(self).ctrl_pressed == old(self).ctrl_pressed,
            final(self).shift_pressed == old(self).shift_pressed,
    {
        match process_keyevent(&mut self.decoder, event) {
            Some(outcome) => match decoded_unicode(&outcome) {
                Some(c) => Some(Decoded::Unicode(c)),
                None => match decoded_raw(&outcome) {
                    Some(code) => Some(Decoded::RawKey(key_of(code))),
                    None => Some(Decoded::RawKey(Key::Other)),
                },
            },
            None => None,
        }
    }
}

} // verus!
