//! Keyboard and pointer events turned into the bytes and records that a terminal receives.

use vstd::prelude::*;
use vstd::utf8::*;
use std::collections::HashMap;
use crate::layout::SessionId;
use crate::text;

verus! {

/// Report press, repeat and release (a bit of the Kitty keyboard flags).
pub const KITTY_REPORT_EVENT_TYPES: u8 = 2;

/// Resolve ambiguous escape codes (a bit of the Kitty keyboard flags).
pub const KITTY_DISAMBIGUATE_ESCAPE_CODES: u8 = 1;

/// Report every key as an escape code (a bit of the Kitty keyboard flags).
pub const KITTY_REPORT_ALL_KEYS: u8 = 8;

/// Report the text that a key produces (a bit of the Kitty keyboard flags).
pub const KITTY_REPORT_ASSOCIATED_TEXT: u8 = 16;

/// The event type of a key release.
pub const KITTY_RELEASE: u8 = 3;

/// The modifier keys that are held.
#[derive(Clone, Copy, Debug, PartialEq, Eq, Structural)]
pub struct Modifiers {
    pub control: bool,
    pub alt: bool,
    pub shift: bool,
    pub platform: bool,
    pub function: bool,
}

impl Default for Modifiers {
    fn default() -> (r: Modifiers)
        ensures
            r == (Modifiers {
                control: false,
                alt: false,
                shift: false,
                platform: false,
                function: false,
            }),
    {
        Modifiers { control: false, alt: false, shift: false, platform: false, function: false }
    }
}

/// A key with its modifiers and the text that it would type.
#[derive(Clone, Debug)]
pub struct Keystroke {
    pub modifiers: Modifiers,
    pub key: String,
    pub key_char: Option<String>,
}

/// A key going down; `is_held` marks a repeat.
#[derive(Clone, Debug)]
pub struct KeyDownEvent {
    pub keystroke: Keystroke,
    pub is_held: bool,
    pub prefer_character_input: bool,
}

/// The characters of an optional text.
pub open spec fn opt_text(t: Option<String>) -> Option<Seq<char>> {
    match t {
        Some(s) => Some(s@),
        None => None,
    }
}

/// Whether `c` is a control code (general category Cc).
pub open spec fn is_control(c: char) -> bool {
    c as int <= 0x1f || 0x7f <= c as int <= 0x9f
}

/// Whether `c` stands for a key rather than for text: a control code, one of the private
/// function-key codes, or a Unicode noncharacter.
pub open spec fn reserved_character(c: char) -> bool {
    ||| is_control(c)
    ||| 0xf700 <= c as int <= 0xf8ff
    ||| 0xfdd0 <= c as int <= 0xfdef
    ||| c as int % 0x10000 == 0xfffe
    ||| c as int % 0x10000 == 0xffff
}

/// Whether `s` may be sent as typed text.
pub open spec fn is_typed_text(s: Seq<char>) -> bool {
    s.len() > 0 && forall|i: int| 0 <= i < s.len() ==> !reserved_character(#[trigger] s[i])
}

/// The text that the keystroke types, if it types any.
pub open spec fn typed_text(key_char: Option<Seq<char>>) -> Option<Seq<char>> {
    match key_char {
        Some(s) => if is_typed_text(s) {
            Some(s)
        } else {
            None
        },
        None => None,
    }
}

/// The modifier number of the Kitty protocol.
pub open spec fn modifier_number(m: Modifiers) -> nat {
    (1 + (if m.shift { 1int } else { 0 }) + (if m.alt { 2int } else { 0 }) + (if m.control { 4int } else { 0 }) + (if m.platform {
        8int
    } else {
        0
    })) as nat
}

/// The modifier field: the modifier number, with the event type where the flags ask for it.
pub open spec fn modifier_field(m: Modifiers, flags: u8, event_type: u8) -> Seq<char> {
    if flags & KITTY_REPORT_EVENT_TYPES != 0 {
        text::decimal(modifier_number(m)) + ":"@ + text::decimal(event_type as nat)
    } else {
        text::decimal(modifier_number(m))
    }
}

/// The final letter of a key that is reported as `CSI 1 ; modifiers letter`.
pub open spec fn letter_key(key: Seq<char>) -> Option<char> {
    if key == "up"@ {
        Some('A')
    } else if key == "down"@ {
        Some('B')
    } else if key == "right"@ {
        Some('C')
    } else if key == "left"@ {
        Some('D')
    } else if key == "home"@ {
        Some('H')
    } else if key == "end"@ {
        Some('F')
    } else {
        None
    }
}

/// The number of a key that is reported as `CSI number ; modifiers ~`.
pub open spec fn tilde_key(key: Seq<char>) -> Option<nat> {
    if key == "insert"@ {
        Some(2)
    } else if key == "delete"@ {
        Some(3)
    } else if key == "pageup"@ {
        Some(5)
    } else if key == "pagedown"@ {
        Some(6)
    } else if key == "f5"@ {
        Some(15)
    } else if key == "f6"@ {
        Some(17)
    } else if key == "f7"@ {
        Some(18)
    } else if key == "f8"@ {
        Some(19)
    } else if key == "f9"@ {
        Some(20)
    } else if key == "f10"@ {
        Some(21)
    } else if key == "f11"@ {
        Some(23)
    } else if key == "f12"@ {
        Some(24)
    } else {
        None
    }
}

/// The final letter of the first four function keys.
pub open spec fn function_key(key: Seq<char>) -> Option<char> {
    if key == "f1"@ {
        Some('P')
    } else if key == "f2"@ {
        Some('Q')
    } else if key == "f3"@ {
        Some('R')
    } else if key == "f4"@ {
        Some('S')
    } else {
        None
    }
}

/// The code of the four keys that have a control code of their own.
pub open spec fn control_key(key: Seq<char>) -> Option<nat> {
    if key == "enter"@ {
        Some(13)
    } else if key == "tab"@ {
        Some(9)
    } else if key == "backspace"@ {
        Some(127)
    } else if key == "escape"@ {
        Some(27)
    } else {
        None
    }
}

/// The code point that stands for a key in a `CSI u` report: its control code, its only
/// character, or the first character that it types.
pub open spec fn primary_code(key: Seq<char>, key_char: Option<Seq<char>>) -> Option<nat> {
    if control_key(key) is Some {
        control_key(key)
    } else if key.len() == 1 {
        Some(key[0] as nat)
    } else if key_char is Some && key_char->0.len() > 0 {
        Some(key_char->0[0] as nat)
    } else {
        None
    }
}

/// The code points of a text, in decimal, joined by colons.
pub open spec fn code_points(s: Seq<char>) -> Seq<char>
    decreases s.len(),
{
    if s.len() == 0 {
        seq![]
    } else if s.len() == 1 {
        text::decimal(s[0] as nat)
    } else {
        code_points(s.drop_last()) + ":"@ + text::decimal(s.last() as nat)
    }
}

/// Whether a key with a primary code is reported as an escape sequence rather than as text.
pub open spec fn must_escape(k: Keystroke, flags: u8) -> bool {
    flags & KITTY_REPORT_ALL_KEYS != 0 || modifier_number(k.modifiers) != 1 || control_key(
        k.key@,
    ) is Some
}

/// The associated-text field of a `CSI u` report. A release has none, nor has a control chord.
pub open spec fn associated_text(k: Keystroke, flags: u8, event_type: u8) -> Option<Seq<char>> {
    if flags & KITTY_REPORT_ASSOCIATED_TEXT != 0 && event_type != KITTY_RELEASE
        && !k.modifiers.control {
        typed_text(opt_text(k.key_char))
    } else {
        None
    }
}

/// The `CSI u` report of a key.
pub open spec fn csi_u(k: Keystroke, flags: u8, event_type: u8, primary: nat) -> Seq<char> {
    "\x1b["@ + text::decimal(primary) + ";"@ + modifier_field(k.modifiers, flags, event_type) + (
    match associated_text(k, flags, event_type) {
        Some(t) => ";"@ + code_points(t),
        None => seq![],
    }) + "u"@
}

/// What a key sends under the Kitty keyboard protocol, if it sends anything.
pub open spec fn kitty_report(k: Keystroke, flags: u8, event_type: u8) -> Option<Seq<char>> {
    let field = modifier_field(k.modifiers, flags, event_type);
    if letter_key(k.key@) is Some {
        Some("\x1b[1;"@ + field + seq![letter_key(k.key@)->0])
    } else if tilde_key(k.key@) is Some {
        Some("\x1b["@ + text::decimal(tilde_key(k.key@)->0) + ";"@ + field + "~"@)
    } else if function_key(k.key@) is Some {
        Some("\x1b[1;"@ + field + seq![function_key(k.key@)->0])
    } else if k.modifiers.function || primary_code(k.key@, opt_text(k.key_char)) is None {
        None
    } else if must_escape(k, flags) {
        Some(csi_u(k, flags, event_type, primary_code(k.key@, opt_text(k.key_char))->0))
    } else if event_type == KITTY_RELEASE {
        None
    } else {
        typed_text(opt_text(k.key_char))
    }
}

/// The bytes are the UTF-8 form of the text, or both are absent.
pub open spec fn encodes(bytes: Option<Vec<u8>>, text: Option<Seq<char>>) -> bool {
    match (bytes, text) {
        (Some(b), Some(t)) => b@ == encode_utf8(t),
        (None, None) => true,
        _ => false,
    }
}

/// Whether `c` stands for a key rather than for text.
pub fn is_reserved_key_character(c: char) -> (r: bool)
    ensures
        r == reserved_character(c),
{
    let n: u32 = c as u32;
    n <= 0x1f || (0x7f <= n && n <= 0x9f) || (0xf700 <= n && n <= 0xf8ff) || (0xfdd0 <= n && n
        <= 0xfdef) || n % 0x10000 == 0xfffe || n % 0x10000 == 0xffff
}

/// The UTF-8 bytes of a text.
pub fn terminal_text_bytes(text: &str) -> (r: Vec<u8>)
    ensures
        r@ == encode_utf8(text@),
{
    text.as_bytes_vec()
}

/// What a composed text types once it is committed; nothing where it is empty.
pub fn committed_text(text: &str) -> (r: Option<Vec<u8>>)
    ensures
        match r {
            Some(bytes) => text@.len() > 0 && bytes@ == encode_utf8(text@),
            None => text@.len() == 0,
        },
{
    if text.is_empty() {
        None
    } else {
        Some(terminal_text_bytes(text))
    }
}

fn may_type(text: &str) -> (r: bool)
    ensures
        r == is_typed_text(text@),
{
    let v: Vec<char> = text::chars_of(text);
    if v.len() == 0 {
        return false;
    }
    let mut i: usize = 0;
    while i < v.len()
        invariant
            i <= v@.len(),
            v@ == text@,
            forall|j: int| 0 <= j < i ==> !reserved_character(#[trigger] v@[j]),
        decreases v@.len() - i,
    {
        if is_reserved_key_character(v[i]) {
            return false;
        }
        i = i + 1;
    }
    true
}

/// The bytes of the text that a key types: `None` where the text is empty or holds a character
/// that stands for a key.
pub fn terminal_key_char_bytes(text: &str) -> (r: Option<Vec<u8>>)
    ensures
        encodes(r, typed_text(Some(text@))),
{
    if may_type(text) {
        Some(terminal_text_bytes(text))
    } else {
        None
    }
}

/// Two optional numbers are the same.
pub open spec fn same_number(a: Option<u64>, b: Option<nat>) -> bool {
    match (a, b) {
        (Some(x), Some(y)) => x == y,
        (None, None) => true,
        _ => false,
    }
}

fn letter_of(key: &str) -> (r: Option<char>)
    ensures
        r == letter_key(key@),
{
    if text::text_eq(key, "up") {
        Some('A')
    } else if text::text_eq(key, "down") {
        Some('B')
    } else if text::text_eq(key, "right") {
        Some('C')
    } else if text::text_eq(key, "left") {
        Some('D')
    } else if text::text_eq(key, "home") {
        Some('H')
    } else if text::text_eq(key, "end") {
        Some('F')
    } else {
        None
    }
}

fn tilde_of(key: &str) -> (r: Option<u64>)
    ensures
        same_number(r, tilde_key(key@)),
{
    if text::text_eq(key, "insert") {
        Some(2)
    } else if text::text_eq(key, "delete") {
        Some(3)
    } else if text::text_eq(key, "pageup") {
        Some(5)
    } else if text::text_eq(key, "pagedown") {
        Some(6)
    } else if text::text_eq(key, "f5") {
        Some(15)
    } else if text::text_eq(key, "f6") {
        Some(17)
    } else if text::text_eq(key, "f7") {
        Some(18)
    } else if text::text_eq(key, "f8") {
        Some(19)
    } else if text::text_eq(key, "f9") {
        Some(20)
    } else if text::text_eq(key, "f10") {
        Some(21)
    } else if text::text_eq(key, "f11") {
        Some(23)
    } else if text::text_eq(key, "f12") {
        Some(24)
    } else {
        None
    }
}

fn function_of(key: &str) -> (r: Option<char>)
    ensures
        r == function_key(key@),
{
    if text::text_eq(key, "f1") {
        Some('P')
    } else if text::text_eq(key, "f2") {
        Some('Q')
    } else if text::text_eq(key, "f3") {
        Some('R')
    } else if text::text_eq(key, "f4") {
        Some('S')
    } else {
        None
    }
}

fn control_of(key: &str) -> (r: Option<u64>)
    ensures
        same_number(r, control_key(key@)),
{
    if text::text_eq(key, "enter") {
        Some(13)
    } else if text::text_eq(key, "tab") {
        Some(9)
    } else if text::text_eq(key, "backspace") {
        Some(127)
    } else if text::text_eq(key, "escape") {
        Some(27)
    } else {
        None
    }
}

fn code_of(c: char) -> (r: u64)
    ensures
        r == c as nat,
{
    let n: u32 = c as u32;
    n as u64
}

fn first_char(s: &str) -> (r: Option<char>)
    ensures
        r == (if s@.len() > 0 {
            Some(s@[0])
        } else {
            None
        }),
{
    if s.unicode_len() > 0 {
        Some(s.get_char(0))
    } else {
        None
    }
}

fn primary_of(k: &Keystroke) -> (r: Option<u64>)
    ensures
        same_number(r, primary_code(k.key@, opt_text(k.key_char))),
{
    match control_of(k.key.as_str()) {
        Some(code) => Some(code),
        None => {
            if k.key.as_str().unicode_len() == 1 {
                Some(code_of(k.key.as_str().get_char(0)))
            } else {
                match &k.key_char {
                    Some(typed) => match first_char(typed.as_str()) {
                        Some(c) => Some(code_of(c)),
                        None => None,
                    },
                    None => None,
                }
            }
        },
    }
}

fn typed_of(k: &Keystroke) -> (r: Option<String>)
    ensures
        opt_text(r) == typed_text(opt_text(k.key_char)),
{
    match &k.key_char {
        Some(typed) => if may_type(typed.as_str()) {
            Some(typed.clone())
        } else {
            None
        },
        None => None,
    }
}

fn push_modifier_field(out: &mut String, m: Modifiers, flags: u8, event_type: u8)
    ensures
        final(out)@ == old(out)@ + modifier_field(m, flags, event_type),
{
    let number: u64 = 1 + (if m.shift { 1u64 } else { 0u64 }) + (if m.alt { 2u64 } else { 0u64 }) + (
    if m.control { 4u64 } else { 0u64 }) + (if m.platform { 8u64 } else { 0u64 });
    text::push_decimal(out, number);
    if flags & KITTY_REPORT_EVENT_TYPES != 0 {
        out.append(":");
        text::push_decimal(out, event_type as u64);
    }
    assert(out@ =~= old(out)@ + modifier_field(m, flags, event_type));
}

fn push_code_points(out: &mut String, s: &str)
    ensures
        final(out)@ == old(out)@ + code_points(s@),
{
    let v: Vec<char> = text::chars_of(s);
    let mut i: usize = 0;
    assert(out@ =~= old(out)@ + code_points(v@.take(0)));
    while i < v.len()
        invariant
            i <= v@.len(),
            v@ == s@,
            out@ == old(out)@ + code_points(v@.take(i as int)),
        decreases v@.len() - i,
    {
        if i > 0 {
            out.append(":");
        }
        text::push_decimal(out, code_of(v[i]));
        assert(v@.take(i + 1).drop_last() =~= v@.take(i as int));
        assert(out@ =~= old(out)@ + code_points(v@.take(i + 1)));
        i = i + 1;
    }
    assert(v@.take(i as int) =~= s@);
}

/// The bytes that a key sends under the Kitty keyboard protocol with the given flags.
pub fn kitty_key_bytes(keystroke: &Keystroke, flags: u8, event_type: u8) -> (r: Option<Vec<u8>>)
    ensures
        encodes(r, kitty_report(*keystroke, flags, event_type)),
{
    let key: &str = keystroke.key.as_str();
    let mut out: String = String::new();
    match letter_of(key) {
        Some(letter) => {
            out.append("\x1b[1;");
            push_modifier_field(&mut out, keystroke.modifiers, flags, event_type);
            out.push(letter);
            assert(out@ =~= kitty_report(*keystroke, flags, event_type)->0);
            return Some(terminal_text_bytes(out.as_str()));
        },
        None => {},
    }
    match tilde_of(key) {
        Some(code) => {
            out.append("\x1b[");
            text::push_decimal(&mut out, code);
            out.append(";");
            push_modifier_field(&mut out, keystroke.modifiers, flags, event_type);
            out.append("~");
            assert(out@ =~= kitty_report(*keystroke, flags, event_type)->0);
            return Some(terminal_text_bytes(out.as_str()));
        },
        None => {},
    }
    match function_of(key) {
        Some(letter) => {
            out.append("\x1b[1;");
            push_modifier_field(&mut out, keystroke.modifiers, flags, event_type);
            out.push(letter);
            assert(out@ =~= kitty_report(*keystroke, flags, event_type)->0);
            return Some(terminal_text_bytes(out.as_str()));
        },
        None => {},
    }
    // The Fn modifier only transforms known keys; an otherwise unknown Fn chord sends nothing.
    if keystroke.modifiers.function {
        return None;
    }
    let primary: u64 = match primary_of(keystroke) {
        Some(code) => code,
        None => return None,
    };
    let typed: Option<String> = typed_of(keystroke);
    let m: Modifiers = keystroke.modifiers;
    let escape: bool = flags & KITTY_REPORT_ALL_KEYS != 0 || m.shift || m.alt || m.control || m.platform
        || control_of(key).is_some();
    assert(escape == must_escape(*keystroke, flags));
    if !escape {
        if event_type == KITTY_RELEASE {
            return None;
        }
        return match typed {
            Some(t) => Some(terminal_text_bytes(t.as_str())),
            None => None,
        };
    }
    out.append("\x1b[");
    text::push_decimal(&mut out, primary);
    out.append(";");
    push_modifier_field(&mut out, m, flags, event_type);
    // A control chord types a control code, which the associated-text field may not hold.
    if flags & KITTY_REPORT_ASSOCIATED_TEXT != 0 && event_type != KITTY_RELEASE && !m.control {
        match typed {
            Some(t) => {
                out.append(";");
                push_code_points(&mut out, t.as_str());
            },
            None => {},
        }
    }
    out.append("u");
    assert(out@ =~= csi_u(*keystroke, flags, event_type, primary as nat));
    Some(terminal_text_bytes(out.as_str()))
}

/// The bytes of the keys that have a fixed sequence without the Kitty protocol.
pub open spec fn legacy_key(key: Seq<char>) -> Option<Seq<u8>> {
    if key == "enter"@ {
        Some(seq![0x0du8])
    } else if key == "backspace"@ {
        Some(seq![0x7fu8])
    } else if key == "tab"@ {
        Some(seq![0x09u8])
    } else if key == "escape"@ {
        Some(seq![0x1bu8])
    } else if key == "up"@ {
        Some(seq![0x1bu8, 0x5bu8, 0x41u8])
    } else if key == "down"@ {
        Some(seq![0x1bu8, 0x5bu8, 0x42u8])
    } else if key == "right"@ {
        Some(seq![0x1bu8, 0x5bu8, 0x43u8])
    } else if key == "left"@ {
        Some(seq![0x1bu8, 0x5bu8, 0x44u8])
    } else if key == "home"@ {
        Some(seq![0x1bu8, 0x5bu8, 0x48u8])
    } else if key == "end"@ {
        Some(seq![0x1bu8, 0x5bu8, 0x46u8])
    } else if key == "delete"@ {
        Some(seq![0x1bu8, 0x5bu8, 0x33u8, 0x7eu8])
    } else if key == "pageup"@ {
        Some(seq![0x1bu8, 0x5bu8, 0x35u8, 0x7eu8])
    } else if key == "pagedown"@ {
        Some(seq![0x1bu8, 0x5bu8, 0x36u8, 0x7eu8])
    } else {
        None
    }
}

/// The control code that Control with an ASCII key sends: the low five bits of its upper case.
pub open spec fn control_code(c: char) -> u8 {
    let upper = if 'a' <= c <= 'z' {
        c as int - 32
    } else {
        c as int
    };
    (upper % 32) as u8
}

/// What a key sends without the Kitty protocol, before Alt is taken into account.
pub open spec fn legacy_base(k: Keystroke) -> Option<Seq<u8>> {
    if legacy_key(k.key@) is Some {
        legacy_key(k.key@)
    } else if k.modifiers.control && k.key@.len() == 1 && (k.key@[0] as int) < 128 {
        Some(seq![control_code(k.key@[0])])
    } else if k.modifiers.function {
        None
    } else {
        match typed_text(opt_text(k.key_char)) {
            Some(t) => Some(encode_utf8(t)),
            None => None,
        }
    }
}

/// What a key sends without the Kitty protocol. A platform chord sends nothing, and Alt puts an
/// escape in front.
pub open spec fn legacy_report(k: Keystroke) -> Option<Seq<u8>> {
    if k.modifiers.platform {
        None
    } else {
        match legacy_base(k) {
            Some(b) => Some(if k.modifiers.alt {
                seq![0x1bu8] + b
            } else {
                b
            }),
            None => None,
        }
    }
}

/// The bytes that a key event sends with the given keyboard flags; without flags the Kitty
/// protocol is off.
pub open spec fn key_report(e: KeyDownEvent, flags: u8) -> Option<Seq<u8>> {
    if flags != 0 {
        match kitty_report(e.keystroke, flags, if e.is_held { 2 } else { 1 }) {
            Some(t) => Some(encode_utf8(t)),
            None => None,
        }
    } else {
        legacy_report(e.keystroke)
    }
}

/// The bytes of an optional buffer.
pub open spec fn opt_bytes(b: Option<Vec<u8>>) -> Option<Seq<u8>> {
    match b {
        Some(v) => Some(v@),
        None => None,
    }
}

fn legacy_of(key: &str) -> (r: Option<Vec<u8>>)
    ensures
        opt_bytes(r) == legacy_key(key@),
{
    if text::text_eq(key, "enter") {
        let b: Vec<u8> = vec![0x0du8];
        assert(b@ =~= legacy_key(key@)->0);
        Some(b)
    } else if text::text_eq(key, "backspace") {
        let b: Vec<u8> = vec![0x7fu8];
        assert(b@ =~= legacy_key(key@)->0);
        Some(b)
    } else if text::text_eq(key, "tab") {
        let b: Vec<u8> = vec![0x09u8];
        assert(b@ =~= legacy_key(key@)->0);
        Some(b)
    } else if text::text_eq(key, "escape") {
        let b: Vec<u8> = vec![0x1bu8];
        assert(b@ =~= legacy_key(key@)->0);
        Some(b)
    } else if text::text_eq(key, "up") {
        let b: Vec<u8> = vec![0x1bu8, 0x5bu8, 0x41u8];
        assert(b@ =~= legacy_key(key@)->0);
        Some(b)
    } else if text::text_eq(key, "down") {
        let b: Vec<u8> = vec![0x1bu8, 0x5bu8, 0x42u8];
        assert(b@ =~= legacy_key(key@)->0);
        Some(b)
    } else if text::text_eq(key, "right") {
        let b: Vec<u8> = vec![0x1bu8, 0x5bu8, 0x43u8];
        assert(b@ =~= legacy_key(key@)->0);
        Some(b)
    } else if text::text_eq(key, "left") {
        let b: Vec<u8> = vec![0x1bu8, 0x5bu8, 0x44u8];
        assert(b@ =~= legacy_key(key@)->0);
        Some(b)
    } else if text::text_eq(key, "home") {
        let b: Vec<u8> = vec![0x1bu8, 0x5bu8, 0x48u8];
        assert(b@ =~= legacy_key(key@)->0);
        Some(b)
    } else if text::text_eq(key, "end") {
        let b: Vec<u8> = vec![0x1bu8, 0x5bu8, 0x46u8];
        assert(b@ =~= legacy_key(key@)->0);
        Some(b)
    } else if text::text_eq(key, "delete") {
        let b: Vec<u8> = vec![0x1bu8, 0x5bu8, 0x33u8, 0x7eu8];
        assert(b@ =~= legacy_key(key@)->0);
        Some(b)
    } else if text::text_eq(key, "pageup") {
        let b: Vec<u8> = vec![0x1bu8, 0x5bu8, 0x35u8, 0x7eu8];
        assert(b@ =~= legacy_key(key@)->0);
        Some(b)
    } else if text::text_eq(key, "pagedown") {
        let b: Vec<u8> = vec![0x1bu8, 0x5bu8, 0x36u8, 0x7eu8];
        assert(b@ =~= legacy_key(key@)->0);
        Some(b)
    } else {
        None
    }
}

fn control_code_of(c: char) -> (r: u8)
    requires
        (c as int) < 128,
    ensures
        r == control_code(c),
{
    let n: u8 = c as u8;
    let upper: u8 = if 97 <= n && n <= 122 {
        n - 32
    } else {
        n
    };
    assert(upper & 0x1f == upper % 32) by (bit_vector);
    upper & 0x1f
}

fn legacy_bytes(k: &Keystroke) -> (r: Option<Vec<u8>>)
    ensures
        opt_bytes(r) == legacy_base(*k),
{
    let key: &str = k.key.as_str();
    match legacy_of(key) {
        Some(b) => return Some(b),
        None => {},
    }
    if k.modifiers.control && key.unicode_len() == 1 {
        let c: char = key.get_char(0);
        let n: u32 = c as u32;
        if n < 128 {
            let b: Vec<u8> = vec![control_code_of(c)];
            assert(b@ =~= seq![control_code(c)]);
            return Some(b);
        }
    }
    if k.modifiers.function {
        return None;
    }
    match &k.key_char {
        Some(typed) => terminal_key_char_bytes(typed.as_str()),
        None => None,
    }
}

/// The bytes that a key event sends with the given keyboard flags, or `None` where it sends
/// nothing.
pub fn terminal_bytes_with_mode(event: &KeyDownEvent, keyboard_flags: u8) -> (r: Option<Vec<u8>>)
    ensures
        opt_bytes(r) == key_report(*event, keyboard_flags),
{
    if keyboard_flags != 0 {
        return kitty_key_bytes(&event.keystroke, keyboard_flags, if event.is_held { 2u8 } else { 1u8 });
    }
    if event.keystroke.modifiers.platform {
        return None;
    }
    match legacy_bytes(&event.keystroke) {
        Some(mut bytes) => {
            let ghost before = bytes@;
            if event.keystroke.modifiers.alt {
                bytes.insert(0, 0x1b);
                assert(bytes@ =~= seq![0x1bu8] + before);
            }
            Some(bytes)
        },
        None => None,
    }
}

/// The bytes that a key event sends while the Kitty protocol is off.
pub fn terminal_bytes(event: &KeyDownEvent) -> (r: Option<Vec<u8>>)
    ensures
        opt_bytes(r) == legacy_report(event.keystroke),
{
    terminal_bytes_with_mode(event, 0)
}

/// Whether the event is the chord that opens the system's character palette.
pub fn is_character_palette_shortcut(event: &KeyDownEvent) -> (r: bool)
    ensures
        r == (event.keystroke.modifiers.platform && event.keystroke.modifiers.control
            && event.keystroke.key@ == "space"@),
{
    event.keystroke.modifiers.platform && event.keystroke.modifiers.control && text::text_eq(
        event.keystroke.key.as_str(),
        "space",
    )
}

/// What a key does in the window.
#[derive(Debug)]
pub enum KeyAction {
    /// Nothing in the terminal: another input has the keyboard, there is no terminal, or the key
    /// sends nothing.
    Nothing,
    ShowCharacterPalette,
    /// Send the bytes to the terminal, and clear its selection where that is said.
    Send { bytes: Vec<u8>, clear_selection: bool },
}

/// What a key going down does: nothing while a text field has the keyboard or no terminal is
/// active, else it opens the character palette or sends its bytes, which clears the selection.
pub fn key_down_action(
    event: &KeyDownEvent,
    field_has_keyboard: bool,
    terminal_active: bool,
    keyboard_flags: u8,
) -> (r: KeyAction)
    ensures
        ({
            let palette = event.keystroke.modifiers.platform && event.keystroke.modifiers.control
                && event.keystroke.key@ == "space"@;
            if field_has_keyboard || !terminal_active {
                r is Nothing
            } else if palette {
                r is ShowCharacterPalette
            } else {
                match key_report(*event, keyboard_flags) {
                    Some(b) => r matches KeyAction::Send { bytes, clear_selection } && bytes@ == b
                        && clear_selection,
                    None => r is Nothing,
                }
            }
        }),
{
    if field_has_keyboard || !terminal_active {
        return KeyAction::Nothing;
    }
    if is_character_palette_shortcut(event) {
        return KeyAction::ShowCharacterPalette;
    }
    match terminal_bytes_with_mode(event, keyboard_flags) {
        Some(bytes) => KeyAction::Send { bytes, clear_selection: true },
        None => KeyAction::Nothing,
    }
}

/// What a key going up does: it sends its bytes only where the program wants to know of releases. The
/// selection stays.
pub fn key_up_action(
    keystroke: &Keystroke,
    field_has_keyboard: bool,
    terminal_active: bool,
    keyboard_flags: u8,
) -> (r: KeyAction)
    ensures
        if field_has_keyboard || !terminal_active || keyboard_flags & KITTY_REPORT_EVENT_TYPES
            == 0 {
            r is Nothing
        } else {
            match kitty_report(*keystroke, keyboard_flags, KITTY_RELEASE) {
                Some(t) => r matches KeyAction::Send { bytes, clear_selection } && bytes@
                    == encode_utf8(t) && !clear_selection,
                None => r is Nothing,
            }
        },
{
    if field_has_keyboard || !terminal_active || keyboard_flags & KITTY_REPORT_EVENT_TYPES == 0 {
        return KeyAction::Nothing;
    }
    match kitty_key_bytes(keystroke, keyboard_flags, KITTY_RELEASE) {
        Some(bytes) => KeyAction::Send { bytes, clear_selection: false },
        None => KeyAction::Nothing,
    }
}

/// Text that an input method is composing, with the selected range in UTF-16 units.
#[derive(Clone, Debug, PartialEq, Eq)]
pub struct TerminalImeState {
    pub text: String,
    pub start: usize,
    pub end: usize,
}

/// The number of UTF-16 units of a text.
pub open spec fn utf16_length(s: Seq<char>) -> nat
    decreases s.len(),
{
    if s.len() == 0 {
        0
    } else {
        utf16_length(s.drop_last()) + (if (s.last() as nat) < 0x10000 {
            1nat
        } else {
            2nat
        })
    }
}

/// The smaller of the two.
pub open spec fn at_most(n: int, limit: int) -> int {
    if n < limit {
        n
    } else {
        limit
    }
}

/// The state of composing a text. The selected range, in UTF-16 units, is cut at the end of the text;
/// without one the selection is at the end.
pub open spec fn composes(
    text: Seq<char>,
    selected: Option<(usize, usize)>,
    state: TerminalImeState,
) -> bool {
    let length = utf16_length(text) as int;
    &&& state.text@ == text
    &&& state.start == (match selected {
        Some((start, _)) => at_most(start as int, length),
        None => length,
    })
    &&& state.end == (match selected {
        Some((_, end)) => at_most(end as int, length),
        None => length,
    })
}

/// The state of the text that an input method is composing: none where it is empty.
pub fn marked_text(text: &str, selected: Option<(usize, usize)>) -> (r: Option<TerminalImeState>)
    requires
        text@.len() * 2 <= usize::MAX,
    ensures
        match r {
            None => text@.len() == 0,
            Some(state) => text@.len() > 0 && composes(text@, selected, state),
        },
{
    if text.is_empty() {
        return None;
    }
    let v: Vec<char> = crate::text::chars_of(text);
    let mut length: usize = 0;
    let mut i: usize = 0;
    assert(v@.take(0) =~= seq![]);
    while i < v.len()
        invariant
            i <= v@.len(),
            v@ == text@,
            text@.len() * 2 <= usize::MAX,
            length == utf16_length(v@.take(i as int)),
            length <= 2 * i,
        decreases v@.len() - i,
    {
        assert(v@.take(i + 1).drop_last() =~= v@.take(i as int));
        let c: char = v[i];
        assert(v@.take(i + 1).last() == c);
        let n: u64 = code_of(c);
        let units: usize = if n < 0x10000 {
            1
        } else {
            2
        };
        assert(utf16_length(v@.take(i + 1)) == utf16_length(v@.take(i as int)) + units);
        length = length + units;
        i = i + 1;
    }
    assert(v@.take(i as int) =~= text@);
    let (start, end): (usize, usize) = match selected {
        Some(range) => range,
        None => (length, length),
    };
    Some(
        TerminalImeState {
            text: text.to_owned(),
            start: if start < length {
                start
            } else {
                length
            },
            end: if end < length {
                end
            } else {
                length
            },
        },
    )
}

/// Takes over the text that an input method is composing in a session. An empty one ends the
/// composition.
pub fn set_terminal_marked_text(
    compositions: &mut HashMap<SessionId, TerminalImeState>,
    session: SessionId,
    text: &str,
    selected: Option<(usize, usize)>,
)
    requires
        text@.len() * 2 <= usize::MAX,
    ensures
        final(compositions)@.remove(session) == old(compositions)@.remove(session),
        final(compositions)@.contains_key(session) <==> text@.len() > 0,
        text@.len() > 0 ==> composes(text@, selected, final(compositions)@[session]),
{
    match marked_text(text, selected) {
        Some(state) => {
            compositions.insert(session, state);
        },
        None => {
            let ended: Option<TerminalImeState> = compositions.remove(&session);
        },
    }
    assert(compositions@.remove(session) =~= old(compositions)@.remove(session));
}

/// Drops the text that is being composed in a session. Returns whether there was any, so that the
/// window has to be redrawn.
pub fn clear_terminal_marked_text(
    compositions: &mut HashMap<SessionId, TerminalImeState>,
    session: SessionId,
) -> (r: bool)
    ensures
        final(compositions)@ == old(compositions)@.remove(session),
        r == old(compositions)@.contains_key(session),
{
    let ended: Option<TerminalImeState> = compositions.remove(&session);
    ended.is_some()
}

/// Takes a composed text that was committed in a session: it is no longer being composed. Returns the
/// bytes that it types, where it is not empty. The session's selection is cleared in either case.
pub fn commit_terminal_text(
    compositions: &mut HashMap<SessionId, TerminalImeState>,
    session: SessionId,
    text: &str,
) -> (r: Option<Vec<u8>>)
    ensures
        final(compositions)@ == old(compositions)@.remove(session),
        match r {
            Some(bytes) => text@.len() > 0 && bytes@ == encode_utf8(text@),
            None => text@.len() == 0,
        },
{
    let composed: bool = clear_terminal_marked_text(compositions, session);
    committed_text(text)
}

/// With the Kitty protocol off, a platform chord sends nothing.
pub proof fn platform_chords_stay_with_the_system(e: KeyDownEvent)
    requires
        e.keystroke.modifiers.platform,
    ensures
        key_report(e, 0) is None,
{
}

/// With the Kitty protocol off, Alt only puts an escape in front of what the key sends anyway.
pub proof fn alt_prefixes_an_escape(plain: KeyDownEvent, alt: KeyDownEvent)
    requires
        alt.keystroke.key@ == plain.keystroke.key@,
        opt_text(alt.keystroke.key_char) == opt_text(plain.keystroke.key_char),
        alt.keystroke.modifiers == (Modifiers { alt: true, ..plain.keystroke.modifiers }),
        !plain.keystroke.modifiers.alt,
    ensures
        key_report(alt, 0) is Some <==> key_report(plain, 0) is Some,
        key_report(plain, 0) is Some ==> key_report(alt, 0)->0 == seq![0x1bu8] + key_report(
            plain,
            0,
        )->0,
{
}

/// No key sends, as text, a character that stands for a key: whatever is typed without an escape
/// sequence under the Kitty protocol is free of such characters.
pub proof fn typed_text_is_free_of_key_characters(k: Keystroke, flags: u8, event_type: u8)
    requires
        kitty_report(k, flags, event_type) is Some,
    ensures
        is_typed_text(kitty_report(k, flags, event_type)->0) || text::has_prefix(
            kitty_report(k, flags, event_type)->0,
            "\x1b["@,
        ),
{
    reveal_strlit("\x1b[");
    reveal_strlit("\x1b[1;");
    let report = kitty_report(k, flags, event_type)->0;
    if !is_typed_text(report) {
        assert(report.take(2) =~= "\x1b["@);
    }
}

/// Releasing a key that is not reported as an escape sequence sends nothing.
pub proof fn a_release_types_nothing(k: Keystroke, flags: u8)
    requires
        kitty_report(k, flags, KITTY_RELEASE) is Some,
    ensures
        text::has_prefix(kitty_report(k, flags, KITTY_RELEASE)->0, "\x1b["@),
{
    reveal_strlit("\x1b[");
    reveal_strlit("\x1b[1;");
    let report = kitty_report(k, flags, KITTY_RELEASE)->0;
    assert(report.take(2) =~= "\x1b["@);
}

/// The modifiers as the Kitty protocol counts them: one, and one more for Shift, two for Alt, four for
/// Control and eight for the platform key; with the event type behind a colon where the flags ask for
/// it (press, repeat, release).
pub open spec fn counted_modifiers(k: Keystroke, flags: u8, event_type: u8) -> Seq<char> {
    let m = k.modifiers;
    let number = text::decimal(
        (1 + (if m.shift {
            1int
        } else {
            0
        }) + (if m.alt {
            2int
        } else {
            0
        }) + (if m.control {
            4int
        } else {
            0
        }) + (if m.platform {
            8int
        } else {
            0
        })) as nat,
    );
    if flags & 2 != 0 {
        number.push(':') + text::decimal(event_type as nat)
    } else {
        number
    }
}

proof fn the_modifier_field_counts(k: Keystroke, flags: u8, event_type: u8)
    ensures
        modifier_field(k.modifiers, flags, event_type) == counted_modifiers(k, flags, event_type),
{
    reveal_strlit(":");
    assert(modifier_field(k.modifiers, flags, event_type) =~= counted_modifiers(
        k,
        flags,
        event_type,
    ));
}

/// No key with a name has a name of one character.
proof fn short_keys_have_no_name(key: Seq<char>)
    requires
        key.len() == 1,
    ensures
        letter_key(key) is None,
        tilde_key(key) is None,
        function_key(key) is None,
        control_key(key) is None,
        legacy_key(key) is None,
{
    reveal_strlit("up");
    reveal_strlit("down");
    reveal_strlit("right");
    reveal_strlit("left");
    reveal_strlit("home");
    reveal_strlit("end");
    reveal_strlit("insert");
    reveal_strlit("delete");
    reveal_strlit("pageup");
    reveal_strlit("pagedown");
    reveal_strlit("f1");
    reveal_strlit("f2");
    reveal_strlit("f3");
    reveal_strlit("f4");
    reveal_strlit("f5");
    reveal_strlit("f6");
    reveal_strlit("f7");
    reveal_strlit("f8");
    reveal_strlit("f9");
    reveal_strlit("f10");
    reveal_strlit("f11");
    reveal_strlit("f12");
    reveal_strlit("enter");
    reveal_strlit("tab");
    reveal_strlit("backspace");
    reveal_strlit("escape");
    reveal_strlit("space");
}

/// The names of the keys differ.
proof fn key_names_differ()
    ensures
        letter_key("up"@) == Some('A'),
        letter_key("down"@) == Some('B'),
        letter_key("right"@) == Some('C'),
        letter_key("left"@) == Some('D'),
        letter_key("home"@) == Some('H'),
        letter_key("end"@) == Some('F'),
        letter_key("insert"@) == None::<char>,
        letter_key("delete"@) == None::<char>,
        letter_key("pageup"@) == None::<char>,
        letter_key("pagedown"@) == None::<char>,
        letter_key("f1"@) == None::<char>,
        letter_key("f2"@) == None::<char>,
        letter_key("f3"@) == None::<char>,
        letter_key("f4"@) == None::<char>,
        letter_key("f5"@) == None::<char>,
        letter_key("f6"@) == None::<char>,
        letter_key("f7"@) == None::<char>,
        letter_key("f8"@) == None::<char>,
        letter_key("f9"@) == None::<char>,
        letter_key("f10"@) == None::<char>,
        letter_key("f11"@) == None::<char>,
        letter_key("f12"@) == None::<char>,
        letter_key("enter"@) == None::<char>,
        letter_key("tab"@) == None::<char>,
        letter_key("backspace"@) == None::<char>,
        letter_key("escape"@) == None::<char>,
        tilde_key("insert"@) == Some(2nat),
        tilde_key("delete"@) == Some(3nat),
        tilde_key("pageup"@) == Some(5nat),
        tilde_key("pagedown"@) == Some(6nat),
        tilde_key("f1"@) == None::<nat>,
        tilde_key("f2"@) == None::<nat>,
        tilde_key("f3"@) == None::<nat>,
        tilde_key("f4"@) == None::<nat>,
        tilde_key("f5"@) == Some(15nat),
        tilde_key("f6"@) == Some(17nat),
        tilde_key("f7"@) == Some(18nat),
        tilde_key("f8"@) == Some(19nat),
        tilde_key("f9"@) == Some(20nat),
        tilde_key("f10"@) == Some(21nat),
        tilde_key("f11"@) == Some(23nat),
        tilde_key("f12"@) == Some(24nat),
        tilde_key("enter"@) == None::<nat>,
        tilde_key("tab"@) == None::<nat>,
        tilde_key("backspace"@) == None::<nat>,
        tilde_key("escape"@) == None::<nat>,
        function_key("f1"@) == Some('P'),
        function_key("f2"@) == Some('Q'),
        function_key("f3"@) == Some('R'),
        function_key("f4"@) == Some('S'),
        function_key("enter"@) == None::<char>,
        function_key("tab"@) == None::<char>,
        function_key("backspace"@) == None::<char>,
        function_key("escape"@) == None::<char>,
        control_key("enter"@) == Some(13nat),
        control_key("tab"@) == Some(9nat),
        control_key("backspace"@) == Some(127nat),
        control_key("escape"@) == Some(27nat),
        letter_key("space"@) is None,
        tilde_key("space"@) is None,
        function_key("space"@) is None,
        control_key("space"@) is None,
        legacy_key("space"@) is None,
        legacy_key("up"@) == Some(seq![0x1bu8, 0x5bu8, 0x41u8]),
        legacy_key("down"@) == Some(seq![0x1bu8, 0x5bu8, 0x42u8]),
        legacy_key("right"@) == Some(seq![0x1bu8, 0x5bu8, 0x43u8]),
        legacy_key("left"@) == Some(seq![0x1bu8, 0x5bu8, 0x44u8]),
        legacy_key("home"@) == Some(seq![0x1bu8, 0x5bu8, 0x48u8]),
        legacy_key("end"@) == Some(seq![0x1bu8, 0x5bu8, 0x46u8]),
        legacy_key("delete"@) == Some(seq![0x1bu8, 0x5bu8, 0x33u8, 0x7eu8]),
        legacy_key("pageup"@) == Some(seq![0x1bu8, 0x5bu8, 0x35u8, 0x7eu8]),
        legacy_key("pagedown"@) == Some(seq![0x1bu8, 0x5bu8, 0x36u8, 0x7eu8]),
        legacy_key("enter"@) == Some(seq![0xdu8]),
        legacy_key("tab"@) == Some(seq![0x9u8]),
        legacy_key("backspace"@) == Some(seq![0x7fu8]),
        legacy_key("escape"@) == Some(seq![0x1bu8]),
        legacy_key("insert"@) is None,
        legacy_key("f1"@) is None,
        legacy_key("f2"@) is None,
        legacy_key("f3"@) is None,
        legacy_key("f4"@) is None,
        legacy_key("f5"@) is None,
        legacy_key("f6"@) is None,
        legacy_key("f7"@) is None,
        legacy_key("f8"@) is None,
        legacy_key("f9"@) is None,
        legacy_key("f10"@) is None,
        legacy_key("f11"@) is None,
        legacy_key("f12"@) is None,
{
    reveal_strlit("up");
    reveal_strlit("down");
    reveal_strlit("right");
    reveal_strlit("left");
    reveal_strlit("home");
    reveal_strlit("end");
    reveal_strlit("insert");
    reveal_strlit("delete");
    reveal_strlit("pageup");
    reveal_strlit("pagedown");
    reveal_strlit("f1");
    reveal_strlit("f2");
    reveal_strlit("f3");
    reveal_strlit("f4");
    reveal_strlit("f5");
    reveal_strlit("f6");
    reveal_strlit("f7");
    reveal_strlit("f8");
    reveal_strlit("f9");
    reveal_strlit("f10");
    reveal_strlit("f11");
    reveal_strlit("f12");
    reveal_strlit("enter");
    reveal_strlit("tab");
    reveal_strlit("backspace");
    reveal_strlit("escape");
    reveal_strlit("space");
    assert("up"@.len() == 2);
    assert("up"@[0] == 'u');
    assert("up"@[1] == 'p');
    assert("down"@.len() == 4);
    assert("down"@[0] == 'd');
    assert("down"@[1] == 'o');
    assert("down"@[2] == 'w');
    assert("down"@[3] == 'n');
    assert("right"@.len() == 5);
    assert("right"@[0] == 'r');
    assert("right"@[1] == 'i');
    assert("right"@[2] == 'g');
    assert("right"@[3] == 'h');
    assert("right"@[4] == 't');
    assert("left"@.len() == 4);
    assert("left"@[0] == 'l');
    assert("left"@[1] == 'e');
    assert("left"@[2] == 'f');
    assert("left"@[3] == 't');
    assert("home"@.len() == 4);
    assert("home"@[0] == 'h');
    assert("home"@[1] == 'o');
    assert("home"@[2] == 'm');
    assert("home"@[3] == 'e');
    assert("end"@.len() == 3);
    assert("end"@[0] == 'e');
    assert("end"@[1] == 'n');
    assert("end"@[2] == 'd');
    assert("insert"@.len() == 6);
    assert("insert"@[0] == 'i');
    assert("insert"@[1] == 'n');
    assert("insert"@[2] == 's');
    assert("insert"@[3] == 'e');
    assert("insert"@[4] == 'r');
    assert("insert"@[5] == 't');
    assert("delete"@.len() == 6);
    assert("delete"@[0] == 'd');
    assert("delete"@[1] == 'e');
    assert("delete"@[2] == 'l');
    assert("delete"@[3] == 'e');
    assert("delete"@[4] == 't');
    assert("delete"@[5] == 'e');
    assert("pageup"@.len() == 6);
    assert("pageup"@[0] == 'p');
    assert("pageup"@[1] == 'a');
    assert("pageup"@[2] == 'g');
    assert("pageup"@[3] == 'e');
    assert("pageup"@[4] == 'u');
    assert("pageup"@[5] == 'p');
    assert("pagedown"@.len() == 8);
    assert("pagedown"@[0] == 'p');
    assert("pagedown"@[1] == 'a');
    assert("pagedown"@[2] == 'g');
    assert("pagedown"@[3] == 'e');
    assert("pagedown"@[4] == 'd');
    assert("pagedown"@[5] == 'o');
    assert("pagedown"@[6] == 'w');
    assert("pagedown"@[7] == 'n');
    assert("f1"@.len() == 2);
    assert("f1"@[0] == 'f');
    assert("f1"@[1] == '1');
    assert("f2"@.len() == 2);
    assert("f2"@[0] == 'f');
    assert("f2"@[1] == '2');
    assert("f3"@.len() == 2);
    assert("f3"@[0] == 'f');
    assert("f3"@[1] == '3');
    assert("f4"@.len() == 2);
    assert("f4"@[0] == 'f');
    assert("f4"@[1] == '4');
    assert("f5"@.len() == 2);
    assert("f5"@[0] == 'f');
    assert("f5"@[1] == '5');
    assert("f6"@.len() == 2);
    assert("f6"@[0] == 'f');
    assert("f6"@[1] == '6');
    assert("f7"@.len() == 2);
    assert("f7"@[0] == 'f');
    assert("f7"@[1] == '7');
    assert("f8"@.len() == 2);
    assert("f8"@[0] == 'f');
    assert("f8"@[1] == '8');
    assert("f9"@.len() == 2);
    assert("f9"@[0] == 'f');
    assert("f9"@[1] == '9');
    assert("f10"@.len() == 3);
    assert("f10"@[0] == 'f');
    assert("f10"@[1] == '1');
    assert("f10"@[2] == '0');
    assert("f11"@.len() == 3);
    assert("f11"@[0] == 'f');
    assert("f11"@[1] == '1');
    assert("f11"@[2] == '1');
    assert("f12"@.len() == 3);
    assert("f12"@[0] == 'f');
    assert("f12"@[1] == '1');
    assert("f12"@[2] == '2');
    assert("enter"@.len() == 5);
    assert("enter"@[0] == 'e');
    assert("enter"@[1] == 'n');
    assert("enter"@[2] == 't');
    assert("enter"@[3] == 'e');
    assert("enter"@[4] == 'r');
    assert("tab"@.len() == 3);
    assert("tab"@[0] == 't');
    assert("tab"@[1] == 'a');
    assert("tab"@[2] == 'b');
    assert("backspace"@.len() == 9);
    assert("backspace"@[0] == 'b');
    assert("backspace"@[1] == 'a');
    assert("backspace"@[2] == 'c');
    assert("backspace"@[3] == 'k');
    assert("backspace"@[4] == 's');
    assert("backspace"@[5] == 'p');
    assert("backspace"@[6] == 'a');
    assert("backspace"@[7] == 'c');
    assert("backspace"@[8] == 'e');
    assert("escape"@.len() == 6);
    assert("escape"@[0] == 'e');
    assert("escape"@[1] == 's');
    assert("escape"@[2] == 'c');
    assert("escape"@[3] == 'a');
    assert("escape"@[4] == 'p');
    assert("escape"@[5] == 'e');
    assert("space"@.len() == 5);
    assert("space"@[0] == 's');
    assert("space"@[1] == 'p');
    assert("space"@[2] == 'a');
    assert("space"@[3] == 'c');
    assert("space"@[4] == 'e');
}

/// A character that may be typed: no control code, no private code of a function key, no
/// noncharacter of Unicode.
pub open spec fn may_be_typed(c: char) -> bool {
    let n = c as int;
    &&& 0x20 <= n
    &&& !(0x7f <= n <= 0x9f)
    &&& !(0xf700 <= n <= 0xf8ff)
    &&& !(0xfdd0 <= n <= 0xfdef)
    &&& n % 0x10000 < 0xfffe
}

/// A key without modifiers that has one character, or the space bar, types exactly its text, pressed
/// or held, whether the Kitty protocol is off or on, as long as not all keys are asked for as escape
/// codes. Where it has no text that may be typed it sends nothing.
pub proof fn a_plain_key_types_its_text(e: KeyDownEvent, flags: u8)
    requires
        flags & 8 == 0,
        e.keystroke.key@.len() == 1 || e.keystroke.key@ == "space"@,
        !e.keystroke.modifiers.shift,
        !e.keystroke.modifiers.alt,
        !e.keystroke.modifiers.control,
        !e.keystroke.modifiers.platform,
        !e.keystroke.modifiers.function,
    ensures
        e.keystroke.key_char matches Some(t) && t@.len() > 0 && (forall|i: int|
            0 <= i < t@.len() ==> may_be_typed(#[trigger] t@[i])) ==> key_report(e, flags) == Some(
            encode_utf8(e.keystroke.key_char->0@),
        ),
        !(e.keystroke.key_char matches Some(t) && t@.len() > 0 && (forall|i: int|
            0 <= i < t@.len() ==> may_be_typed(#[trigger] t@[i]))) ==> key_report(e, flags) is None,
{
    key_names_differ();
    if e.keystroke.key@.len() == 1 {
        short_keys_have_no_name(e.keystroke.key@);
    }
    match e.keystroke.key_char {
        Some(t) => {
            assert(forall|c: char| may_be_typed(c) == !#[trigger] reserved_character(c));
            if forall|i: int| 0 <= i < t@.len() ==> may_be_typed(#[trigger] t@[i]) {
                assert forall|i: int| 0 <= i < t@.len() implies !reserved_character(
                    #[trigger] t@[i],
                ) by {
                    assert(may_be_typed(t@[i]));
                }
            } else {
                let i = choose|i: int| 0 <= i < t@.len() && !may_be_typed(#[trigger] t@[i]);
                assert(reserved_character(t@[i]));
            }
        },
        None => {},
    }
}

/// Letting go of a plain key sends nothing unless all keys are asked for as escape codes.
pub proof fn letting_a_plain_key_go_sends_nothing(k: Keystroke, flags: u8)
    requires
        flags & 8 == 0,
        k.key@.len() == 1 || k.key@ == "space"@,
        !k.modifiers.shift,
        !k.modifiers.alt,
        !k.modifiers.control,
        !k.modifiers.platform,
    ensures
        kitty_report(k, flags, 3) is None,
{
    key_names_differ();
    if k.key@.len() == 1 {
        short_keys_have_no_name(k.key@);
    }
}

/// The numbers of the characters of a text, in decimal, with colons between them.
pub open spec fn listed_codes(s: Seq<char>) -> Seq<char>
    decreases s.len(),
{
    if s.len() == 0 {
        seq![]
    } else if s.len() == 1 {
        text::decimal(s[0] as nat)
    } else {
        listed_codes(s.drop_last()).push(':') + text::decimal(s.last() as nat)
    }
}

proof fn codes_are_listed(s: Seq<char>)
    ensures
        code_points(s) == listed_codes(s),
    decreases s.len(),
{
    reveal_strlit(":");
    if s.len() > 1 {
        codes_are_listed(s.drop_last());
        assert(code_points(s) =~= listed_codes(s));
    }
}

/// With a modifier, or where all keys are asked for as escape codes, a key of one character is
/// reported by the number of that character, whatever it would type. The text follows where it is
/// asked for, the key is not let go and Control is not held.
pub proof fn an_escaped_key_is_reported_by_its_number(k: Keystroke, flags: u8, event_type: u8)
    requires
        k.key@.len() == 1,
        !k.modifiers.function,
        flags & 8 != 0 || k.modifiers.shift || k.modifiers.alt || k.modifiers.control
            || k.modifiers.platform,
    ensures
        ({
            let head = seq!['\x1b', '['] + text::decimal(k.key@[0] as nat).push(';')
                + counted_modifiers(k, flags, event_type);
            let typed = flags & 16 != 0 && event_type != 3 && !k.modifiers.control && (
            k.key_char matches Some(t) && t@.len() > 0 && (forall|i: int|
                0 <= i < t@.len() ==> may_be_typed(#[trigger] t@[i])));
            kitty_report(k, flags, event_type) == Some(
                if typed {
                    (head.push(';') + listed_codes(k.key_char->0@)).push('u')
                } else {
                    head.push('u')
                },
            )
        }),
{
    short_keys_have_no_name(k.key@);
    the_modifier_field_counts(k, flags, event_type);
    reveal_strlit("\x1b[");
    reveal_strlit(";");
    reveal_strlit("u");
    let typed = k.key_char matches Some(t) && t@.len() > 0 && (forall|i: int|
        0 <= i < t@.len() ==> may_be_typed(#[trigger] t@[i]));
    assert(forall|c: char| may_be_typed(c) == !#[trigger] reserved_character(c));
    match k.key_char {
        Some(t) => {
            codes_are_listed(t@);
            if typed {
                assert forall|i: int| 0 <= i < t@.len() implies !reserved_character(
                    #[trigger] t@[i],
                ) by {
                    assert(may_be_typed(t@[i]));
                }
            } else if t@.len() > 0 {
                let i = choose|i: int| 0 <= i < t@.len() && !may_be_typed(#[trigger] t@[i]);
                assert(reserved_character(t@[i]));
            }
        },
        None => {},
    }
    let head = seq!['\x1b', '['] + text::decimal(k.key@[0] as nat).push(';')
        + counted_modifiers(k, flags, event_type);
    let report = kitty_report(k, flags, event_type)->0;
    if typed && flags & 16 != 0 && event_type != 3 && !k.modifiers.control {
        assert(report =~= (head.push(';') + listed_codes(k.key_char->0@)).push('u'));
    } else {
        assert(report =~= head.push('u'));
    }
}

proof fn a_letter_key_has_its_sequence(k: Keystroke, flags: u8, event_type: u8, c: char)
    requires
        letter_key(k.key@) == Some(c) || (letter_key(k.key@) is None && tilde_key(k.key@) is None
            && function_key(k.key@) == Some(c)),
    ensures
        kitty_report(k, flags, event_type) == Some(
            (seq!['\x1b', '[', '1', ';'] + counted_modifiers(k, flags, event_type)).push(c),
        ),
{
    the_modifier_field_counts(k, flags, event_type);
    reveal_strlit("\x1b[1;");
    assert(kitty_report(k, flags, event_type)->0 =~= (seq!['\x1b', '[', '1', ';']
        + counted_modifiers(k, flags, event_type)).push(c));
}

proof fn a_tilde_key_has_its_sequence(k: Keystroke, flags: u8, event_type: u8, n: nat)
    requires
        letter_key(k.key@) is None,
        tilde_key(k.key@) == Some(n),
    ensures
        kitty_report(k, flags, event_type) == Some(
            (seq!['\x1b', '['] + text::decimal(n).push(';') + counted_modifiers(
                k,
                flags,
                event_type,
            )).push('~'),
        ),
{
    the_modifier_field_counts(k, flags, event_type);
    reveal_strlit("\x1b[");
    reveal_strlit(";");
    reveal_strlit("~");
    assert(kitty_report(k, flags, event_type)->0 =~= (seq!['\x1b', '['] + text::decimal(n).push(
        ';',
    ) + counted_modifiers(k, flags, event_type)).push('~'));
}

/// Under the Kitty protocol each arrow, Home, End and the first four function keys end their sequence
/// with a letter of their own behind the modifiers, whether or not Fn is held.
pub proof fn arrow_keys_have_their_letters(k: Keystroke, flags: u8, event_type: u8)
    ensures
        k.key@ == "up"@ ==> kitty_report(k, flags, event_type) == Some(
            (seq!['\x1b', '[', '1', ';'] + counted_modifiers(k, flags, event_type)).push('A'),
        ),
        k.key@ == "down"@ ==> kitty_report(k, flags, event_type) == Some(
            (seq!['\x1b', '[', '1', ';'] + counted_modifiers(k, flags, event_type)).push('B'),
        ),
        k.key@ == "right"@ ==> kitty_report(k, flags, event_type) == Some(
            (seq!['\x1b', '[', '1', ';'] + counted_modifiers(k, flags, event_type)).push('C'),
        ),
        k.key@ == "left"@ ==> kitty_report(k, flags, event_type) == Some(
            (seq!['\x1b', '[', '1', ';'] + counted_modifiers(k, flags, event_type)).push('D'),
        ),
        k.key@ == "home"@ ==> kitty_report(k, flags, event_type) == Some(
            (seq!['\x1b', '[', '1', ';'] + counted_modifiers(k, flags, event_type)).push('H'),
        ),
        k.key@ == "end"@ ==> kitty_report(k, flags, event_type) == Some(
            (seq!['\x1b', '[', '1', ';'] + counted_modifiers(k, flags, event_type)).push('F'),
        ),
        k.key@ == "f1"@ ==> kitty_report(k, flags, event_type) == Some(
            (seq!['\x1b', '[', '1', ';'] + counted_modifiers(k, flags, event_type)).push('P'),
        ),
        k.key@ == "f2"@ ==> kitty_report(k, flags, event_type) == Some(
            (seq!['\x1b', '[', '1', ';'] + counted_modifiers(k, flags, event_type)).push('Q'),
        ),
        k.key@ == "f3"@ ==> kitty_report(k, flags, event_type) == Some(
            (seq!['\x1b', '[', '1', ';'] + counted_modifiers(k, flags, event_type)).push('R'),
        ),
        k.key@ == "f4"@ ==> kitty_report(k, flags, event_type) == Some(
            (seq!['\x1b', '[', '1', ';'] + counted_modifiers(k, flags, event_type)).push('S'),
        ),
{
    key_names_differ();
    if k.key@ == "up"@ {
        a_letter_key_has_its_sequence(k, flags, event_type, 'A');
    }
    if k.key@ == "down"@ {
        a_letter_key_has_its_sequence(k, flags, event_type, 'B');
    }
    if k.key@ == "right"@ {
        a_letter_key_has_its_sequence(k, flags, event_type, 'C');
    }
    if k.key@ == "left"@ {
        a_letter_key_has_its_sequence(k, flags, event_type, 'D');
    }
    if k.key@ == "home"@ {
        a_letter_key_has_its_sequence(k, flags, event_type, 'H');
    }
    if k.key@ == "end"@ {
        a_letter_key_has_its_sequence(k, flags, event_type, 'F');
    }
    if k.key@ == "f1"@ {
        a_letter_key_has_its_sequence(k, flags, event_type, 'P');
    }
    if k.key@ == "f2"@ {
        a_letter_key_has_its_sequence(k, flags, event_type, 'Q');
    }
    if k.key@ == "f3"@ {
        a_letter_key_has_its_sequence(k, flags, event_type, 'R');
    }
    if k.key@ == "f4"@ {
        a_letter_key_has_its_sequence(k, flags, event_type, 'S');
    }
}

/// Under the Kitty protocol each of the other navigation and function keys begins its sequence with a
/// number of its own, in front of the modifiers, whether or not Fn is held.
pub proof fn navigation_keys_have_their_numbers(k: Keystroke, flags: u8, event_type: u8)
    ensures
        k.key@ == "insert"@ ==> kitty_report(k, flags, event_type) == Some(
            (seq!['\x1b', '['] + text::decimal(2).push(';') + counted_modifiers(
                k,
                flags,
                event_type,
            )).push('~'),
        ),
        k.key@ == "delete"@ ==> kitty_report(k, flags, event_type) == Some(
            (seq!['\x1b', '['] + text::decimal(3).push(';') + counted_modifiers(
                k,
                flags,
                event_type,
            )).push('~'),
        ),
        k.key@ == "pageup"@ ==> kitty_report(k, flags, event_type) == Some(
            (seq!['\x1b', '['] + text::decimal(5).push(';') + counted_modifiers(
                k,
                flags,
                event_type,
            )).push('~'),
        ),
        k.key@ == "pagedown"@ ==> kitty_report(k, flags, event_type) == Some(
            (seq!['\x1b', '['] + text::decimal(6).push(';') + counted_modifiers(
                k,
                flags,
                event_type,
            )).push('~'),
        ),
        k.key@ == "f5"@ ==> kitty_report(k, flags, event_type) == Some(
            (seq!['\x1b', '['] + text::decimal(15).push(';') + counted_modifiers(
                k,
                flags,
                event_type,
            )).push('~'),
        ),
        k.key@ == "f6"@ ==> kitty_report(k, flags, event_type) == Some(
            (seq!['\x1b', '['] + text::decimal(17).push(';') + counted_modifiers(
                k,
                flags,
                event_type,
            )).push('~'),
        ),
        k.key@ == "f7"@ ==> kitty_report(k, flags, event_type) == Some(
            (seq!['\x1b', '['] + text::decimal(18).push(';') + counted_modifiers(
                k,
                flags,
                event_type,
            )).push('~'),
        ),
        k.key@ == "f8"@ ==> kitty_report(k, flags, event_type) == Some(
            (seq!['\x1b', '['] + text::decimal(19).push(';') + counted_modifiers(
                k,
                flags,
                event_type,
            )).push('~'),
        ),
        k.key@ == "f9"@ ==> kitty_report(k, flags, event_type) == Some(
            (seq!['\x1b', '['] + text::decimal(20).push(';') + counted_modifiers(
                k,
                flags,
                event_type,
            )).push('~'),
        ),
        k.key@ == "f10"@ ==> kitty_report(k, flags, event_type) == Some(
            (seq!['\x1b', '['] + text::decimal(21).push(';') + counted_modifiers(
                k,
                flags,
                event_type,
            )).push('~'),
        ),
        k.key@ == "f11"@ ==> kitty_report(k, flags, event_type) == Some(
            (seq!['\x1b', '['] + text::decimal(23).push(';') + counted_modifiers(
                k,
                flags,
                event_type,
            )).push('~'),
        ),
        k.key@ == "f12"@ ==> kitty_report(k, flags, event_type) == Some(
            (seq!['\x1b', '['] + text::decimal(24).push(';') + counted_modifiers(
                k,
                flags,
                event_type,
            )).push('~'),
        ),
{
    key_names_differ();
    if k.key@ == "insert"@ {
        a_tilde_key_has_its_sequence(k, flags, event_type, 2);
    }
    if k.key@ == "delete"@ {
        a_tilde_key_has_its_sequence(k, flags, event_type, 3);
    }
    if k.key@ == "pageup"@ {
        a_tilde_key_has_its_sequence(k, flags, event_type, 5);
    }
    if k.key@ == "pagedown"@ {
        a_tilde_key_has_its_sequence(k, flags, event_type, 6);
    }
    if k.key@ == "f5"@ {
        a_tilde_key_has_its_sequence(k, flags, event_type, 15);
    }
    if k.key@ == "f6"@ {
        a_tilde_key_has_its_sequence(k, flags, event_type, 17);
    }
    if k.key@ == "f7"@ {
        a_tilde_key_has_its_sequence(k, flags, event_type, 18);
    }
    if k.key@ == "f8"@ {
        a_tilde_key_has_its_sequence(k, flags, event_type, 19);
    }
    if k.key@ == "f9"@ {
        a_tilde_key_has_its_sequence(k, flags, event_type, 20);
    }
    if k.key@ == "f10"@ {
        a_tilde_key_has_its_sequence(k, flags, event_type, 21);
    }
    if k.key@ == "f11"@ {
        a_tilde_key_has_its_sequence(k, flags, event_type, 23);
    }
    if k.key@ == "f12"@ {
        a_tilde_key_has_its_sequence(k, flags, event_type, 24);
    }
}

/// Under the Kitty protocol Enter, Tab, Backspace and Escape are always reported by their control
/// codes, as escape sequences.
pub proof fn control_keys_are_reported_by_their_codes(k: Keystroke, flags: u8, event_type: u8)
    requires
        !k.modifiers.function,
        flags & 16 == 0,
    ensures
        k.key@ == "enter"@ ==> kitty_report(k, flags, event_type) == Some(
            (seq!['\x1b', '['] + text::decimal(13).push(';') + counted_modifiers(
                k,
                flags,
                event_type,
            )).push('u'),
        ),
        k.key@ == "tab"@ ==> kitty_report(k, flags, event_type) == Some(
            (seq!['\x1b', '['] + text::decimal(9).push(';') + counted_modifiers(
                k,
                flags,
                event_type,
            )).push('u'),
        ),
        k.key@ == "backspace"@ ==> kitty_report(k, flags, event_type) == Some(
            (seq!['\x1b', '['] + text::decimal(127).push(';') + counted_modifiers(
                k,
                flags,
                event_type,
            )).push('u'),
        ),
        k.key@ == "escape"@ ==> kitty_report(k, flags, event_type) == Some(
            (seq!['\x1b', '['] + text::decimal(27).push(';') + counted_modifiers(
                k,
                flags,
                event_type,
            )).push('u'),
        ),
{
    key_names_differ();
    the_modifier_field_counts(k, flags, event_type);
    reveal_strlit("\x1b[");
    reveal_strlit(";");
    reveal_strlit("u");
    if k.key@ == "enter"@ {
        assert(kitty_report(k, flags, event_type)->0 =~= (seq!['\x1b', '['] + text::decimal(13).push(
            ';',
        ) + counted_modifiers(k, flags, event_type)).push('u'));
    }
    if k.key@ == "tab"@ {
        assert(kitty_report(k, flags, event_type)->0 =~= (seq!['\x1b', '['] + text::decimal(9).push(
            ';',
        ) + counted_modifiers(k, flags, event_type)).push('u'));
    }
    if k.key@ == "backspace"@ {
        assert(kitty_report(k, flags, event_type)->0 =~= (seq!['\x1b', '['] + text::decimal(127).push(
            ';',
        ) + counted_modifiers(k, flags, event_type)).push('u'));
    }
    if k.key@ == "escape"@ {
        assert(kitty_report(k, flags, event_type)->0 =~= (seq!['\x1b', '['] + text::decimal(27).push(
            ';',
        ) + counted_modifiers(k, flags, event_type)).push('u'));
    }
}

/// Fn with a key that has no sequence of its own sends nothing, with the Kitty protocol or without,
/// unless Control makes a control code of it without.
pub proof fn unknown_fn_chords_send_nothing(e: KeyDownEvent, flags: u8)
    requires
        e.keystroke.modifiers.function,
        e.keystroke.key@.len() == 1 || e.keystroke.key@ == "space"@,
        flags != 0 || !e.keystroke.modifiers.control,
    ensures
        key_report(e, flags) is None,
{
    key_names_differ();
    if e.keystroke.key@.len() == 1 {
        short_keys_have_no_name(e.keystroke.key@);
    }
}

/// The Kitty protocol is told whether a key is pressed or held, where it asks: a press is the first
/// event type, a repeat the second.
pub proof fn a_held_key_is_a_repeat(e: KeyDownEvent, flags: u8)
    requires
        flags != 0,
    ensures
        kitty_report(e.keystroke, flags, 1) is Some && !e.is_held ==> key_report(e, flags) == Some(
            encode_utf8(kitty_report(e.keystroke, flags, 1)->0),
        ),
        kitty_report(e.keystroke, flags, 2) is Some && e.is_held ==> key_report(e, flags) == Some(
            encode_utf8(kitty_report(e.keystroke, flags, 2)->0),
        ),
{
}

/// Without the Kitty protocol and without Alt each arrow and navigation key has a sequence of its own,
/// and the four control keys send their codes, whatever else they would type.
pub proof fn named_keys_have_their_bytes(e: KeyDownEvent)
    requires
        !e.keystroke.modifiers.platform,
        !e.keystroke.modifiers.alt,
    ensures
        e.keystroke.key@ == "up"@ ==> key_report(e, 0) == Some(seq![0x1bu8, 0x5bu8, 0x41u8]),
        e.keystroke.key@ == "down"@ ==> key_report(e, 0) == Some(seq![0x1bu8, 0x5bu8, 0x42u8]),
        e.keystroke.key@ == "right"@ ==> key_report(e, 0) == Some(seq![0x1bu8, 0x5bu8, 0x43u8]),
        e.keystroke.key@ == "left"@ ==> key_report(e, 0) == Some(seq![0x1bu8, 0x5bu8, 0x44u8]),
        e.keystroke.key@ == "home"@ ==> key_report(e, 0) == Some(seq![0x1bu8, 0x5bu8, 0x48u8]),
        e.keystroke.key@ == "end"@ ==> key_report(e, 0) == Some(seq![0x1bu8, 0x5bu8, 0x46u8]),
        e.keystroke.key@ == "delete"@ ==> key_report(e, 0) == Some(
            seq![0x1bu8, 0x5bu8, 0x33u8, 0x7eu8],
        ),
        e.keystroke.key@ == "pageup"@ ==> key_report(e, 0) == Some(
            seq![0x1bu8, 0x5bu8, 0x35u8, 0x7eu8],
        ),
        e.keystroke.key@ == "pagedown"@ ==> key_report(e, 0) == Some(
            seq![0x1bu8, 0x5bu8, 0x36u8, 0x7eu8],
        ),
        e.keystroke.key@ == "enter"@ ==> key_report(e, 0) == Some(seq![0xdu8]),
        e.keystroke.key@ == "tab"@ ==> key_report(e, 0) == Some(seq![0x9u8]),
        e.keystroke.key@ == "backspace"@ ==> key_report(e, 0) == Some(seq![0x7fu8]),
        e.keystroke.key@ == "escape"@ ==> key_report(e, 0) == Some(seq![0x1bu8]),
{
    key_names_differ();
}

/// Without the Kitty protocol Control makes a control code of a key: the letters give one to
/// twenty-six, in either case, the characters from `@` to `_` their distance from `@`, and every other
/// character of ASCII the same as the one that lies a multiple of thirty-two from it.
pub proof fn control_makes_control_codes(e: KeyDownEvent)
    requires
        e.keystroke.modifiers.control,
        !e.keystroke.modifiers.platform,
        !e.keystroke.modifiers.alt,
        e.keystroke.key@.len() == 1,
        (e.keystroke.key@[0] as int) < 128,
    ensures
        ({
            let c = e.keystroke.key@[0];
            &&& key_report(e, 0) is Some
            &&& key_report(e, 0)->0.len() == 1
            &&& key_report(e, 0)->0[0] < 32
            &&& 'a' <= c <= 'z' ==> key_report(e, 0)->0[0] == c as int - 'a' as int + 1
            &&& '@' <= c <= '_' ==> key_report(e, 0)->0[0] == c as int - '@' as int
            &&& c < '@' ==> key_report(e, 0)->0[0] == c as int % 32
        }),
{
    short_keys_have_no_name(e.keystroke.key@);
}

/// The units of UTF-16 that a character takes: one in the first plane, else two; those of a text add
/// up.
pub proof fn characters_take_one_or_two_units(a: Seq<char>, b: Seq<char>, c: char)
    ensures
        utf16_length(seq![]) == 0,
        (c as int) < 0x10000 ==> utf16_length(seq![c]) == 1,
        c as int >= 0x10000 ==> utf16_length(seq![c]) == 2,
        utf16_length(a + b) == utf16_length(a) + utf16_length(b),
    decreases b.len(),
{
    assert(seq![c].drop_last() =~= seq![]);
    assert(utf16_length(seq![c].drop_last()) == 0);
    if b.len() == 0 {
        assert(a + b =~= a);
    } else {
        characters_take_one_or_two_units(a, b.drop_last(), c);
        assert((a + b).drop_last() =~= a + b.drop_last());
    }
}

/// What is selected of a composed text lies in it: where it is asked for inside the text, and else at
/// its end.
pub proof fn a_composition_selects_in_its_text(
    words: Seq<char>,
    selected: Option<(usize, usize)>,
    state: TerminalImeState,
)
    requires
        composes(words, selected, state),
    ensures
        state.text@ == words,
        state.start <= utf16_length(words),
        state.end <= utf16_length(words),
        selected is None ==> state.start == utf16_length(words) && state.end == utf16_length(words),
        selected matches Some((a, b)) ==> (a <= utf16_length(words) ==> state.start == a) && (b
            <= utf16_length(words) ==> state.end == b) && (a > utf16_length(words) ==> state.start
            == utf16_length(words)) && (b > utf16_length(words) ==> state.end == utf16_length(
            words,
        )),
{
}

/// The space bar is reported, where it is, by the number of the first character that it types, and not
/// at all where it types none.
pub proof fn the_space_bar_goes_by_what_it_types(k: Keystroke, flags: u8, event_type: u8)
    requires
        k.key@ == "space"@,
        !k.modifiers.function,
        flags & 16 == 0,
        flags & 8 != 0 || k.modifiers.shift || k.modifiers.alt || k.modifiers.control
            || k.modifiers.platform,
    ensures
        k.key_char matches Some(t) && t@.len() > 0 ==> kitty_report(k, flags, event_type) == Some(
            (seq!['\x1b', '['] + text::decimal(k.key_char->0@[0] as nat).push(';')
                + counted_modifiers(k, flags, event_type)).push('u'),
        ),
        !(k.key_char matches Some(t) && t@.len() > 0) ==> kitty_report(k, flags, event_type) is None,
{
    key_names_differ();
    the_modifier_field_counts(k, flags, event_type);
    reveal_strlit("space");
    reveal_strlit("\x1b[");
    reveal_strlit(";");
    reveal_strlit("u");
    assert(k.key@.len() == 5);
    match k.key_char {
        Some(t) => {
            if t@.len() > 0 {
                assert(kitty_report(k, flags, event_type)->0 =~= (seq!['\x1b', '[']
                    + text::decimal(t@[0] as nat).push(';') + counted_modifiers(
                    k,
                    flags,
                    event_type,
                )).push('u'));
            }
        },
        None => {},
    }
}

} // verus!
