//! NSEvent input forwarding: macOS key translation, the pending-event queue,
//! and the byte layout of keyboard and pointer messages.
//!
//! Key message (16 bytes): `[key_code: u32 LE][action: u8][modifiers: u8][pad: 2][ts_ms: u64 LE]`,
//! action 0 = up, 1 = down, 2 = repeat.
//! Pointer message (17 bytes): `[x: f32 LE][y: f32 LE][buttons: u8][scroll_x: f32 LE][scroll_y: f32 LE]`,
//! buttons bit0 = left, bit1 = right, bit2 = middle.

use vstd::prelude::*;
use crate::clock::unix_time_millis;
use crate::le_bytes::{le_u32, u32_le_bytes, u64_le_bytes, lemma_u32_le_roundtrip};

verus! {

/// Linux evdev scancode of a macOS virtual key code (Carbon HIToolbox
/// Events.h to input-event-codes.h), or 0 (KEY_RESERVED) for unknown keys.
pub open spec fn evdev_code(macos_vk: u16) -> u32 {
    match macos_vk {
        0x00 => 30,  // A
        0x0B => 48,  // B
        0x08 => 46,  // C
        0x02 => 32,  // D
        0x0E => 18,  // E
        0x03 => 33,  // F
        0x05 => 34,  // G
        0x04 => 35,  // H
        0x22 => 23,  // I
        0x26 => 36,  // J
        0x28 => 37,  // K
        0x25 => 38,  // L
        0x2E => 50,  // M
        0x2D => 49,  // N
        0x1F => 24,  // O
        0x23 => 25,  // P
        0x0C => 16,  // Q
        0x0F => 19,  // R
        0x01 => 31,  // S
        0x11 => 20,  // T
        0x20 => 22,  // U
        0x09 => 47,  // V
        0x0D => 17,  // W
        0x07 => 45,  // X
        0x10 => 21,  // Y (QWERTY layout)
        0x06 => 44,  // Z
        0x12 => 2,  // 1
        0x13 => 3,  // 2
        0x14 => 4,  // 3
        0x15 => 5,  // 4
        0x17 => 6,  // 5
        0x16 => 7,  // 6
        0x1A => 8,  // 7
        0x1C => 9,  // 8
        0x19 => 10,  // 9
        0x1D => 11,  // 0
        0x1B => 12,  // - (minus)
        0x18 => 13,  // = (equal)
        0x21 => 26,  // [ (left bracket)
        0x1E => 27,  // ] (right bracket)
        0x2A => 43,  // \ (backslash)
        0x29 => 39,  // ; (semicolon)
        0x27 => 40,  // ' (apostrophe)
        0x32 => 41,  // ` (grave)
        0x2B => 51,  // , (comma)
        0x2F => 52,  // . (period)
        0x2C => 53,  // / (slash)
        0x24 => 28,  // Return → KEY_ENTER
        0x30 => 15,  // Tab → KEY_TAB
        0x31 => 57,  // Space → KEY_SPACE
        0x33 => 14,  // Delete/Backspace → KEY_BACKSPACE
        0x35 => 1,  // Escape → KEY_ESC
        0x75 => 111,  // Forward Delete → KEY_DELETE
        0x73 => 102,  // Home → KEY_HOME
        0x77 => 107,  // End → KEY_END
        0x74 => 104,  // Page Up → KEY_PAGEUP
        0x79 => 109,  // Page Down → KEY_PAGEDOWN
        0x7E => 103,  // Up → KEY_UP
        0x7D => 108,  // Down → KEY_DOWN
        0x7B => 105,  // Left → KEY_LEFT
        0x7C => 106,  // Right → KEY_RIGHT
        0x38 => 42,  // Left Shift → KEY_LEFTSHIFT
        0x3C => 54,  // Right Shift → KEY_RIGHTSHIFT
        0x3B => 29,  // Left Control → KEY_LEFTCTRL
        0x3E => 97,  // Right Control → KEY_RIGHTCTRL
        0x3A => 56,  // Left Option/Alt → KEY_LEFTALT
        0x3D => 100,  // Right Option/Alt → KEY_RIGHTALT
        0x37 => 125,  // Left Command/Meta → KEY_LEFTMETA
        0x36 => 126,  // Right Command/Meta → KEY_RIGHTMETA
        0x39 => 58,  // Caps Lock → KEY_CAPSLOCK
        0x7A => 59,  // F1
        0x78 => 60,  // F2
        0x63 => 61,  // F3
        0x76 => 62,  // F4
        0x60 => 63,  // F5
        0x61 => 64,  // F6
        0x62 => 65,  // F7
        0x64 => 66,  // F8
        0x65 => 67,  // F9
        0x6D => 68,  // F10
        0x67 => 87,  // F11
        0x6F => 88,  // F12
        0x52 => 82,  // Numpad 0
        0x53 => 79,  // Numpad 1
        0x54 => 80,  // Numpad 2
        0x55 => 81,  // Numpad 3
        0x56 => 75,  // Numpad 4
        0x57 => 76,  // Numpad 5
        0x58 => 77,  // Numpad 6
        0x59 => 71,  // Numpad 7
        0x5B => 72,  // Numpad 8
        0x5C => 73,  // Numpad 9
        0x43 => 55,  // Numpad *
        0x45 => 78,  // Numpad +
        0x4E => 74,  // Numpad -
        0x41 => 83,  // Numpad .
        0x4B => 98,  // Numpad /
        0x4C => 96,  // Numpad Enter
        _ => 0,
    }
}

/// The macOS virtual key code that `evdev_code` maps to `code` (0 for codes
/// that no key maps to).
pub open spec fn macos_vk_of(code: u32) -> u16 {
    match code {
        30 => 0x00,
        48 => 0x0B,
        46 => 0x08,
        32 => 0x02,
        18 => 0x0E,
        33 => 0x03,
        34 => 0x05,
        35 => 0x04,
        23 => 0x22,
        36 => 0x26,
        37 => 0x28,
        38 => 0x25,
        50 => 0x2E,
        49 => 0x2D,
        24 => 0x1F,
        25 => 0x23,
        16 => 0x0C,
        19 => 0x0F,
        31 => 0x01,
        20 => 0x11,
        22 => 0x20,
        47 => 0x09,
        17 => 0x0D,
        45 => 0x07,
        21 => 0x10,
        44 => 0x06,
        2 => 0x12,
        3 => 0x13,
        4 => 0x14,
        5 => 0x15,
        6 => 0x17,
        7 => 0x16,
        8 => 0x1A,
        9 => 0x1C,
        10 => 0x19,
        11 => 0x1D,
        12 => 0x1B,
        13 => 0x18,
        26 => 0x21,
        27 => 0x1E,
        43 => 0x2A,
        39 => 0x29,
        40 => 0x27,
        41 => 0x32,
        51 => 0x2B,
        52 => 0x2F,
        53 => 0x2C,
        28 => 0x24,
        15 => 0x30,
        57 => 0x31,
        14 => 0x33,
        1 => 0x35,
        111 => 0x75,
        102 => 0x73,
        107 => 0x77,
        104 => 0x74,
        109 => 0x79,
        103 => 0x7E,
        108 => 0x7D,
        105 => 0x7B,
        106 => 0x7C,
        42 => 0x38,
        54 => 0x3C,
        29 => 0x3B,
        97 => 0x3E,
        56 => 0x3A,
        100 => 0x3D,
        125 => 0x37,
        126 => 0x36,
        58 => 0x39,
        59 => 0x7A,
        60 => 0x78,
        61 => 0x63,
        62 => 0x76,
        63 => 0x60,
        64 => 0x61,
        65 => 0x62,
        66 => 0x64,
        67 => 0x65,
        68 => 0x6D,
        87 => 0x67,
        88 => 0x6F,
        82 => 0x52,
        79 => 0x53,
        80 => 0x54,
        81 => 0x55,
        75 => 0x56,
        76 => 0x57,
        77 => 0x58,
        71 => 0x59,
        72 => 0x5B,
        73 => 0x5C,
        55 => 0x43,
        78 => 0x45,
        74 => 0x4E,
        83 => 0x41,
        98 => 0x4B,
        96 => 0x4C,
        _ => 0,
    }
}

/// Translates a macOS virtual key code to a Linux evdev scancode; unknown
/// keys give 0 (KEY_RESERVED), which the receiving side ignores.
pub fn macos_keycode_to_evdev(macos_vk: u16) -> (code: u32)
    ensures
        code == evdev_code(macos_vk),
{
    match macos_vk {
        0x00 => 30,  // A
        0x0B => 48,  // B
        0x08 => 46,  // C
        0x02 => 32,  // D
        0x0E => 18,  // E
        0x03 => 33,  // F
        0x05 => 34,  // G
        0x04 => 35,  // H
        0x22 => 23,  // I
        0x26 => 36,  // J
        0x28 => 37,  // K
        0x25 => 38,  // L
        0x2E => 50,  // M
        0x2D => 49,  // N
        0x1F => 24,  // O
        0x23 => 25,  // P
        0x0C => 16,  // Q
        0x0F => 19,  // R
        0x01 => 31,  // S
        0x11 => 20,  // T
        0x20 => 22,  // U
        0x09 => 47,  // V
        0x0D => 17,  // W
        0x07 => 45,  // X
        0x10 => 21,  // Y (QWERTY layout)
        0x06 => 44,  // Z
        0x12 => 2,  // 1
        0x13 => 3,  // 2
        0x14 => 4,  // 3
        0x15 => 5,  // 4
        0x17 => 6,  // 5
        0x16 => 7,  // 6
        0x1A => 8,  // 7
        0x1C => 9,  // 8
        0x19 => 10,  // 9
        0x1D => 11,  // 0
        0x1B => 12,  // - (minus)
        0x18 => 13,  // = (equal)
        0x21 => 26,  // [ (left bracket)
        0x1E => 27,  // ] (right bracket)
        0x2A => 43,  // \ (backslash)
        0x29 => 39,  // ; (semicolon)
        0x27 => 40,  // ' (apostrophe)
        0x32 => 41,  // ` (grave)
        0x2B => 51,  // , (comma)
        0x2F => 52,  // . (period)
        0x2C => 53,  // / (slash)
        0x24 => 28,  // Return → KEY_ENTER
        0x30 => 15,  // Tab → KEY_TAB
        0x31 => 57,  // Space → KEY_SPACE
        0x33 => 14,  // Delete/Backspace → KEY_BACKSPACE
        0x35 => 1,  // Escape → KEY_ESC
        0x75 => 111,  // Forward Delete → KEY_DELETE
        0x73 => 102,  // Home → KEY_HOME
        0x77 => 107,  // End → KEY_END
        0x74 => 104,  // Page Up → KEY_PAGEUP
        0x79 => 109,  // Page Down → KEY_PAGEDOWN
        0x7E => 103,  // Up → KEY_UP
        0x7D => 108,  // Down → KEY_DOWN
        0x7B => 105,  // Left → KEY_LEFT
        0x7C => 106,  // Right → KEY_RIGHT
        0x38 => 42,  // Left Shift → KEY_LEFTSHIFT
        0x3C => 54,  // Right Shift → KEY_RIGHTSHIFT
        0x3B => 29,  // Left Control → KEY_LEFTCTRL
        0x3E => 97,  // Right Control → KEY_RIGHTCTRL
        0x3A => 56,  // Left Option/Alt → KEY_LEFTALT
        0x3D => 100,  // Right Option/Alt → KEY_RIGHTALT
        0x37 => 125,  // Left Command/Meta → KEY_LEFTMETA
        0x36 => 126,  // Right Command/Meta → KEY_RIGHTMETA
        0x39 => 58,  // Caps Lock → KEY_CAPSLOCK
        0x7A => 59,  // F1
        0x78 => 60,  // F2
        0x63 => 61,  // F3
        0x76 => 62,  // F4
        0x60 => 63,  // F5
        0x61 => 64,  // F6
        0x62 => 65,  // F7
        0x64 => 66,  // F8
        0x65 => 67,  // F9
        0x6D => 68,  // F10
        0x67 => 87,  // F11
        0x6F => 88,  // F12
        0x52 => 82,  // Numpad 0
        0x53 => 79,  // Numpad 1
        0x54 => 80,  // Numpad 2
        0x55 => 81,  // Numpad 3
        0x56 => 75,  // Numpad 4
        0x57 => 76,  // Numpad 5
        0x58 => 77,  // Numpad 6
        0x59 => 71,  // Numpad 7
        0x5B => 72,  // Numpad 8
        0x5C => 73,  // Numpad 9
        0x43 => 55,  // Numpad *
        0x45 => 78,  // Numpad +
        0x4E => 74,  // Numpad -
        0x41 => 83,  // Numpad .
        0x4B => 98,  // Numpad /
        0x4C => 96,  // Numpad Enter
        _ => 0,
    }
}

/// Distinct known macOS keys translate to distinct evdev codes: every nonzero
/// code determines the key it came from.
pub proof fn lemma_evdev_code_injective(a: u16, b: u16)
    requires
        evdev_code(a) != 0,
        evdev_code(a) == evdev_code(b),
    ensures
        a == b,
{
    assert(macos_vk_of(evdev_code(a)) == a);
    assert(macos_vk_of(evdev_code(b)) == b);
}

/// A queued input event. Pointer coordinates and scroll deltas are `f32`
/// values carried as their IEEE-754 bit patterns.
#[derive(Debug, Clone, Copy, PartialEq, Eq, Structural)]
pub enum InputEvent {
    Key { key_code: u32, action: u8, modifiers: u8, ts: u64 },
    Pointer { x_bits: u32, y_bits: u32, buttons: u8, scroll_x_bits: u32, scroll_y_bits: u32 },
}

/// The message bytes of an event (16 for a key, 17 for a pointer event).
pub open spec fn spec_encode_event(ev: InputEvent) -> Seq<u8> {
    match ev {
        InputEvent::Key { key_code, action, modifiers, ts } =>
            u32_le_bytes(key_code) + seq![action, modifiers, 0u8, 0u8] + u64_le_bytes(ts),
        InputEvent::Pointer { x_bits, y_bits, buttons, scroll_x_bits, scroll_y_bits } =>
            u32_le_bytes(x_bits) + u32_le_bytes(y_bits) + seq![buttons]
                + u32_le_bytes(scroll_x_bits) + u32_le_bytes(scroll_y_bits),
    }
}

/// Which topic an event is published on.
#[derive(Debug, Clone, Copy, PartialEq, Eq, Structural)]
pub enum InputTopic {
    Keyboard,
    Pointer,
}

fn push_u32_le(out: &mut Vec<u8>, v: u32)
    ensures
        final(out)@ == old(out)@ + u32_le_bytes(v),
{
    out.push((v % 256) as u8);
    out.push(((v / 256) % 256) as u8);
    out.push(((v / 65536) % 256) as u8);
    out.push(((v / 16777216) % 256) as u8);
    assert(final(out)@ =~= old(out)@ + u32_le_bytes(v));
}

/// Encodes an event into its message bytes and the topic it goes to.
pub fn encode_event(ev: &InputEvent) -> (r: (InputTopic, Vec<u8>))
    ensures
        r.1@ == spec_encode_event(*ev),
        r.0 == (if ev is Key { InputTopic::Keyboard } else { InputTopic::Pointer }),
{
    let mut buf: Vec<u8> = Vec::new();
    match *ev {
        InputEvent::Key { key_code, action, modifiers, ts } => {
            push_u32_le(&mut buf, key_code);
            buf.push(action);
            buf.push(modifiers);
            buf.push(0);
            buf.push(0);
            push_u32_le(&mut buf, (ts % 0x1_0000_0000) as u32);
            push_u32_le(&mut buf, (ts / 0x1_0000_0000) as u32);
            assert(buf@ =~= spec_encode_event(*ev));
            (InputTopic::Keyboard, buf)
        },
        InputEvent::Pointer { x_bits, y_bits, buttons, scroll_x_bits, scroll_y_bits } => {
            push_u32_le(&mut buf, x_bits);
            push_u32_le(&mut buf, y_bits);
            buf.push(buttons);
            push_u32_le(&mut buf, scroll_x_bits);
            push_u32_le(&mut buf, scroll_y_bits);
            assert(buf@ =~= spec_encode_event(*ev));
            (InputTopic::Pointer, buf)
        },
    }
}

/// Events waiting to be published, oldest first.
pub struct EventQueue {
    events: Vec<InputEvent>,
}

impl View for EventQueue {
    type V = Seq<InputEvent>;

    closed spec fn view(&self) -> Seq<InputEvent> {
        self.events@
    }
}

impl EventQueue {
    /// An empty queue.
    pub fn new() -> (q: Self)
        ensures
            q@ == Seq::<InputEvent>::empty(),
    {
        Self { events: Vec::new() }
    }

    /// Appends an event.
    pub fn push(&mut self, ev: InputEvent)
        ensures
            final(self)@ == old(self)@.push(ev),
    {
        self.events.push(ev);
    }

    /// Number of queued events.
    pub fn len(&self) -> (n: usize)
        ensures
            n == self@.len(),
    {
        self.events.len()
    }

    /// Takes all queued events: `None` when the queue is empty, otherwise all
    /// of them in order, leaving the queue empty.
    pub fn drain(&mut self) -> (r: Option<Vec<InputEvent>>)
        ensures
            old(self)@.len() == 0 ==> r is None && final(self)@ == old(self)@,
            old(self)@.len() > 0 ==> (r matches Some(v) && v@ == old(self)@
                && final(self)@ == Seq::<InputEvent>::empty()),
    {
        if self.events.len() == 0 {
            return None;
        }
        let mut out: Vec<InputEvent> = Vec::new();
        std::mem::swap(&mut out, &mut self.events);
        Some(out)
    }
}

/// Queues a keyboard event stamped with `now_ms`, milliseconds since the
/// Unix epoch.
/// `key_code`: evdev scancode; `action`: 0 = up, 1 = down, 2 = repeat;
/// `modifiers`: bit0 = shift, bit1 = ctrl, bit2 = alt/option, bit3 = meta/cmd.
pub fn push_key_event_at(queue: &mut EventQueue, key_code: u32, action: u8, modifiers: u8, now_ms: u64)
    ensures
        final(queue)@ == old(queue)@.push(InputEvent::Key { key_code, action, modifiers, ts: now_ms }),
{
    queue.push(InputEvent::Key { key_code, action, modifiers, ts: now_ms });
}

/// Queues a keyboard event stamped with the current time in milliseconds
/// since the Unix epoch (0 when the clock reads a time before the epoch);
/// see `push_key_event_at`. The time is a clock reading, so no clause states it.
pub fn push_key_event(queue: &mut EventQueue, key_code: u32, action: u8, modifiers: u8)
    ensures
        final(queue)@.len() == old(queue)@.len() + 1,
        final(queue)@.drop_last() == old(queue)@,
        final(queue)@.last() matches InputEvent::Key { key_code: k, action: a, modifiers: m, .. }
            && k == key_code && a == action && m == modifiers,
{
    let now_ms = unix_time_millis();
    push_key_event_at(queue, key_code, action, modifiers, now_ms);
    assert(queue@.drop_last() =~= old(queue)@);
}

/// Queues a pointer motion or click at absolute surface coordinates (given
/// as `f32` bit patterns) with no scroll.
pub fn push_pointer_event(queue: &mut EventQueue, x_bits: u32, y_bits: u32, buttons: u8)
    ensures
        final(queue)@ == old(queue)@.push(InputEvent::Pointer {
            x_bits, y_bits, buttons, scroll_x_bits: 0, scroll_y_bits: 0,
        }),
{
    queue.push(InputEvent::Pointer { x_bits, y_bits, buttons, scroll_x_bits: 0, scroll_y_bits: 0 });
}

/// Queues a scroll event at the last pointer position, with no button held.
pub fn push_scroll_event(queue: &mut EventQueue, x_bits: u32, y_bits: u32, scroll_x_bits: u32, scroll_y_bits: u32)
    ensures
        final(queue)@ == old(queue)@.push(InputEvent::Pointer {
            x_bits, y_bits, buttons: 0, scroll_x_bits, scroll_y_bits,
        }),
{
    queue.push(InputEvent::Pointer { x_bits, y_bits, buttons: 0, scroll_x_bits, scroll_y_bits });
}

/// The kind of pointer NSEvent (motion or drag, a button press, a release).
#[derive(Debug, Clone, Copy, PartialEq, Eq, Structural)]
pub enum PointerEventKind {
    Moved,
    LeftDown,
    RightDown,
    /// Another button pressed; AppKit numbers the middle button 2.
    OtherDown { button_number: isize },
    ButtonUp,
}

/// How a pointer event is queued: not at all, at the event's own position,
/// or at the last recorded position; with the button bits held.
#[derive(Debug, Clone, Copy, PartialEq, Eq, Structural)]
pub enum PointerAction {
    Ignore,
    AtEvent { buttons: u8 },
    AtLastPosition { buttons: u8 },
}

/// Motion and presses are queued at the event's position with no button,
/// bit0 (left), bit1 (right) or bit2 (middle); other buttons are ignored; a
/// release is queued at the last position with no button.
pub open spec fn spec_pointer_action(kind: PointerEventKind) -> PointerAction {
    match kind {
        PointerEventKind::Moved => PointerAction::AtEvent { buttons: 0 },
        PointerEventKind::LeftDown => PointerAction::AtEvent { buttons: 0x01 },
        PointerEventKind::RightDown => PointerAction::AtEvent { buttons: 0x02 },
        PointerEventKind::OtherDown { button_number } =>
            if button_number == 2 { PointerAction::AtEvent { buttons: 0x04 } } else { PointerAction::Ignore },
        PointerEventKind::ButtonUp => PointerAction::AtLastPosition { buttons: 0 },
    }
}

/// Decides how a pointer event is queued (see `spec_pointer_action`).
pub fn pointer_action(kind: PointerEventKind) -> (a: PointerAction)
    ensures
        a == spec_pointer_action(kind),
{
    match kind {
        PointerEventKind::Moved => PointerAction::AtEvent { buttons: 0 },
        PointerEventKind::LeftDown => PointerAction::AtEvent { buttons: 0x01 },
        PointerEventKind::RightDown => PointerAction::AtEvent { buttons: 0x02 },
        PointerEventKind::OtherDown { button_number } => {
            if button_number == 2 {
                PointerAction::AtEvent { buttons: 0x04 }
            } else {
                PointerAction::Ignore
            }
        },
        PointerEventKind::ButtonUp => PointerAction::AtLastPosition { buttons: 0 },
    }
}

/// The modifier keys held during a key event.
#[derive(Debug, Clone, Copy, PartialEq, Eq, Structural)]
pub struct ModifierState {
    pub shift: bool,
    pub control: bool,
    pub option: bool,
    pub command: bool,
    pub caps_lock: bool,
}

/// The modifier byte: bit0 shift, bit1 control, bit2 option, bit3 command.
pub open spec fn spec_modifier_bits(m: ModifierState) -> u8 {
    ((if m.shift { 1int } else { 0 }) + (if m.control { 2int } else { 0 })
        + (if m.option { 4int } else { 0 }) + (if m.command { 8int } else { 0 })) as u8
}

/// Computes the modifier byte of a key event.
pub fn modifier_bits(m: ModifierState) -> (b: u8)
    ensures
        b == spec_modifier_bits(m),
{
    let mut b: u8 = 0;
    if m.shift {
        b = b + 1;
    }
    if m.control {
        b = b + 2;
    }
    if m.option {
        b = b + 4;
    }
    if m.command {
        b = b + 8;
    }
    b
}

/// Each modifier owns one bit of the modifier byte: bit0 (1) shift, bit1 (2)
/// control, bit2 (4) option, bit3 (8) command; the upper four bits are clear.
pub proof fn lemma_modifier_bit_layout(m: ModifierState)
    ensures
        (spec_modifier_bits(m) & 1 != 0) == m.shift,
        (spec_modifier_bits(m) & 2 != 0) == m.control,
        (spec_modifier_bits(m) & 4 != 0) == m.option,
        (spec_modifier_bits(m) & 8 != 0) == m.command,
        spec_modifier_bits(m) & 0xF0 == 0,
{
    let v = spec_modifier_bits(m);
    let a: u8 = if m.shift { 1 } else { 0 };
    let b: u8 = if m.control { 2 } else { 0 };
    let c: u8 = if m.option { 4 } else { 0 };
    let d: u8 = if m.command { 8 } else { 0 };
    assert(v == a + b + c + d);
    let (s1, s2, s3, s4) = (m.shift, m.control, m.option, m.command);
    assert({
        &&& (v & 1 != 0) == s1
        &&& (v & 2 != 0) == s2
        &&& (v & 4 != 0) == s3
        &&& (v & 8 != 0) == s4
        &&& v & 0xF0 == 0
    }) by (bit_vector)
        requires
            v == a + b + c + d,
            a == (if s1 { 1u8 } else { 0u8 }),
            b == (if s2 { 2u8 } else { 0u8 }),
            c == (if s3 { 4u8 } else { 0u8 }),
            d == (if s4 { 8u8 } else { 0u8 }),
    ;
}

/// Whether a modifier key is down after a flags-changed event: the flag
/// belonging to that key (shift, control, option, command, caps lock) is set.
pub open spec fn spec_modifier_key_pressed(macos_vk: u16, m: ModifierState) -> bool {
    if macos_vk == 0x38 || macos_vk == 0x3C {
        m.shift
    } else if macos_vk == 0x3B || macos_vk == 0x3E {
        m.control
    } else if macos_vk == 0x3A || macos_vk == 0x3D {
        m.option
    } else if macos_vk == 0x37 || macos_vk == 0x36 {
        m.command
    } else if macos_vk == 0x39 {
        m.caps_lock
    } else {
        false
    }
}

/// The kind of keyboard NSEvent.
#[derive(Debug, Clone, Copy, PartialEq, Eq, Structural)]
pub enum KeyEventKind {
    KeyDown,
    KeyUp,
    FlagsChanged,
}

/// A keyboard message to queue.
#[derive(Debug, Clone, Copy, PartialEq, Eq, Structural)]
pub struct KeyPress {
    pub key_code: u32,
    pub action: u8,
    pub modifiers: u8,
}

/// The keyboard message for a key event, or `None` for keys with no evdev
/// code. Key down/up carry action 1/0 and the modifier byte; a flags-changed
/// event carries action 1 if its modifier is now held, else 0, and no modifiers.
pub open spec fn spec_translate_key_event(kind: KeyEventKind, macos_vk: u16, m: ModifierState) -> Option<KeyPress> {
    if evdev_code(macos_vk) == 0 {
        None
    } else {
        match kind {
            KeyEventKind::KeyDown => Some(KeyPress {
                key_code: evdev_code(macos_vk), action: 1, modifiers: spec_modifier_bits(m),
            }),
            KeyEventKind::KeyUp => Some(KeyPress {
                key_code: evdev_code(macos_vk), action: 0, modifiers: spec_modifier_bits(m),
            }),
            KeyEventKind::FlagsChanged => Some(KeyPress {
                key_code: evdev_code(macos_vk),
                action: if spec_modifier_key_pressed(macos_vk, m) { 1 } else { 0 },
                modifiers: 0,
            }),
        }
    }
}

/// Decides the keyboard message for a key event (see `spec_translate_key_event`).
pub fn translate_key_event(kind: KeyEventKind, macos_vk: u16, m: ModifierState) -> (r: Option<KeyPress>)
    ensures
        r == spec_translate_key_event(kind, macos_vk, m),
{
    let code = macos_keycode_to_evdev(macos_vk);
    if code == 0 {
        return None;
    }
    match kind {
        KeyEventKind::KeyDown => Some(KeyPress { key_code: code, action: 1, modifiers: modifier_bits(m) }),
        KeyEventKind::KeyUp => Some(KeyPress { key_code: code, action: 0, modifiers: modifier_bits(m) }),
        KeyEventKind::FlagsChanged => {
            let pressed = if macos_vk == 0x38 || macos_vk == 0x3C {
                m.shift
            } else if macos_vk == 0x3B || macos_vk == 0x3E {
                m.control
            } else if macos_vk == 0x3A || macos_vk == 0x3D {
                m.option
            } else if macos_vk == 0x37 || macos_vk == 0x36 {
                m.command
            } else if macos_vk == 0x39 {
                m.caps_lock
            } else {
                false
            };
            Some(KeyPress { key_code: code, action: if pressed { 1 } else { 0 }, modifiers: 0 })
        },
    }
}

/// The messages read back: the fields of an encoded key or pointer event are
/// recovered by reading the little-endian fields at their offsets.
pub proof fn lemma_encoded_event_fields(ev: InputEvent)
    ensures
        ({
            let b = spec_encode_event(ev);
            match ev {
                InputEvent::Key { key_code, action, modifiers, ts } => {
                    &&& b.len() == 16
                    &&& le_u32(b, 0) == key_code
                    &&& b[4] == action
                    &&& b[5] == modifiers
                    &&& b[6] == 0 && b[7] == 0
                    &&& le_u32(b, 8) + 0x1_0000_0000 * le_u32(b, 12) == ts
                },
                InputEvent::Pointer { x_bits, y_bits, buttons, scroll_x_bits, scroll_y_bits } => {
                    &&& b.len() == 17
                    &&& le_u32(b, 0) == x_bits
                    &&& le_u32(b, 4) == y_bits
                    &&& b[8] == buttons
                    &&& le_u32(b, 9) == scroll_x_bits
                    &&& le_u32(b, 13) == scroll_y_bits
                },
            }
        }),
{
    match ev {
        InputEvent::Key { key_code, action, modifiers, ts } => {
            let lo = (ts % 0x1_0000_0000) as u32;
            let hi = (ts / 0x1_0000_0000) as u32;
            lemma_u32_le_roundtrip(key_code);
            lemma_u32_le_roundtrip(lo);
            lemma_u32_le_roundtrip(hi);
            let b = spec_encode_event(ev);
            assert(b.subrange(0, 4) == u32_le_bytes(key_code));
            assert(le_u32(b, 0) == le_u32(u32_le_bytes(key_code), 0));
            assert(le_u32(b, 8) == le_u32(u32_le_bytes(lo), 0));
            assert(le_u32(b, 12) == le_u32(u32_le_bytes(hi), 0));
            assert(lo + 0x1_0000_0000 * hi == ts) by (nonlinear_arith)
                requires lo == ts % 0x1_0000_0000, hi == ts / 0x1_0000_0000, ts >= 0;
        },
        InputEvent::Pointer { x_bits, y_bits, buttons, scroll_x_bits, scroll_y_bits } => {
            lemma_u32_le_roundtrip(x_bits);
            lemma_u32_le_roundtrip(y_bits);
            lemma_u32_le_roundtrip(scroll_x_bits);
            lemma_u32_le_roundtrip(scroll_y_bits);
            let b = spec_encode_event(ev);
            assert(le_u32(b, 0) == le_u32(u32_le_bytes(x_bits), 0));
            assert(le_u32(b, 4) == le_u32(u32_le_bytes(y_bits), 0));
            assert(le_u32(b, 9) == le_u32(u32_le_bytes(scroll_x_bits), 0));
            assert(le_u32(b, 13) == le_u32(u32_le_bytes(scroll_y_bits), 0));
        },
    }
}

} // verus!
