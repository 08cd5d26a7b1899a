//! SysEx framing for the Console 1 ↔ bridge protocol.
//!
//! Frames are `0xF0 0x7D "stc1" <JSON text> 0xF7`; the JSON text travels as printable
//! ASCII (0x20..=0x7E), with every other character written as a JSON `\uXXXX` escape
//! (UTF-16 surrogate pairs above the Basic Multilingual Plane).

use crate::text::{chars_of, push_char};
use vstd::prelude::*;

verus! {

pub const SYSEX_START: u8 = 0xf0;
pub const SYSEX_STOP: u8 = 0xf7;
pub const SYSEX_MANUFACTURER: u8 = 0x7d;

/// The `stc1` magic that follows the manufacturer byte.
pub open spec fn sysex_magic() -> Seq<u8> {
    seq![0x73u8, 0x74u8, 0x63u8, 0x31u8]
}

/// The JSON bytes a SysEx message carries, if its framing is right: at least 9 bytes,
/// start and manufacturer bytes, the magic, and the stop byte.
pub open spec fn sysex_payload(m: Seq<u8>) -> Option<Seq<u8>> {
    if m.len() < 9 || m[0] != SYSEX_START || m[1] != SYSEX_MANUFACTURER || m[m.len() - 1] != SYSEX_STOP
        || m.subrange(2, 6) != sysex_magic() {
        None
    } else {
        Some(m.subrange(6, m.len() - 1))
    }
}

/// Each byte read as the character with the same code (Latin-1).
pub open spec fn bytes_as_chars(b: Seq<u8>) -> Seq<char> {
    b.map_values(|x: u8| x as char)
}

/// The JSON text of a raw Console 1 SysEx message: the payload bytes, one character each.
/// `None` if the message is too short or its start/manufacturer/magic/stop bytes are wrong.
pub fn sysex_json_text(message: &[u8]) -> (res: Option<String>)
    ensures
        match res {
            Some(t) => sysex_payload(message@) matches Some(p) && t@ == bytes_as_chars(p),
            None => sysex_payload(message@) is None,
        },
{
    let n = message.len();
    if n < 9 {
        return None;
    }
    if message[0] != SYSEX_START || message[1] != SYSEX_MANUFACTURER || message[n - 1] != SYSEX_STOP {
        return None;
    }
    if message[2] != 0x73 || message[3] != 0x74 || message[4] != 0x63 || message[5] != 0x31 {
        assert(message@.subrange(2, 6) != sysex_magic()) by {
            if message@.subrange(2, 6) == sysex_magic() {
                assert(message@.subrange(2, 6)[0] == message@[2]);
                assert(message@.subrange(2, 6)[1] == message@[3]);
                assert(message@.subrange(2, 6)[2] == message@[4]);
                assert(message@.subrange(2, 6)[3] == message@[5]);
            }
        }
        return None;
    }
    assert(message@.subrange(2, 6) =~= sysex_magic());
    let mut out = String::new();
    let mut i: usize = 6;
    while i < n - 1
        invariant
            n == message@.len(),
            n >= 9,
            6 <= i <= n - 1,
            out@ == bytes_as_chars(message@.subrange(6, i as int)),
        decreases n - 1 - i,
    {
        push_char(&mut out, message[i] as char);
        assert(bytes_as_chars(message@.subrange(6, i + 1)) =~= bytes_as_chars(message@.subrange(6, i as int)).push(message@[i as int] as char));
        i = i + 1;
    }
    Some(out)
}

/// The ASCII hex digit (lowercase) for `d < 16`.
pub open spec fn hex_digit(d: int) -> u8 {
    if d < 10 { (0x30 + d) as u8 } else { (0x61 + d - 10) as u8 }
}

/// `\uXXXX` for a code unit below 0x10000, with 4 lowercase hex digits.
pub open spec fn unicode_escape(cu: int) -> Seq<u8> {
    seq![
        0x5cu8,
        0x75u8,
        hex_digit((cu / 4096) % 16),
        hex_digit((cu / 256) % 16),
        hex_digit((cu / 16) % 16),
        hex_digit(cu % 16),
    ]
}

/// How one character travels: printable ASCII as itself, other BMP characters as one
/// escape, characters above the BMP as a surrogate-pair escape.
pub open spec fn escape_char(c: char) -> Seq<u8> {
    let cp = c as u32 as int;
    if 0x20 <= cp < 0x7f {
        seq![cp as u8]
    } else if cp <= 0xffff {
        unicode_escape(cp)
    } else {
        unicode_escape(0xd800 + (cp - 0x10000) / 1024) + unicode_escape(0xdc00 + (cp - 0x10000) % 1024)
    }
}

/// The wire form of a JSON text: every character escaped in turn.
pub open spec fn escape_text(s: Seq<char>) -> Seq<u8>
    decreases s.len(),
{
    if s.len() == 0 {
        Seq::empty()
    } else {
        escape_text(s.drop_last()) + escape_char(s.last())
    }
}

/// The SysEx frame for a JSON text.
pub open spec fn sysex_frame(text: Seq<char>) -> Seq<u8> {
    seq![SYSEX_START, SYSEX_MANUFACTURER] + sysex_magic() + escape_text(text) + seq![SYSEX_STOP]
}

fn hex_digit_exec(d: u32) -> (res: u8)
    requires
        d < 16,
    ensures
        res == hex_digit(d as int),
{
    if d < 10 { (0x30 + d) as u8 } else { (0x61 + d - 10) as u8 }
}

fn push_escape(data: &mut Vec<u8>, codepoint: u32)
    requires
        codepoint < 0x10000,
    ensures
        final(data)@ == old(data)@ + unicode_escape(codepoint as int),
{
    data.push(0x5c);
    data.push(0x75);
    data.push(hex_digit_exec((codepoint / 4096) % 16));
    data.push(hex_digit_exec((codepoint / 256) % 16));
    data.push(hex_digit_exec((codepoint / 16) % 16));
    data.push(hex_digit_exec(codepoint % 16));
    assert(final(data)@ =~= old(data)@ + unicode_escape(codepoint as int));
}

fn push_escaped_char(data: &mut Vec<u8>, ch: char)
    ensures
        final(data)@ == old(data)@ + escape_char(ch),
{
    proof {
        vstd::utf8::char_is_scalar(ch);
    }
    let cp = ch as u32;
    if 0x20 <= cp && cp < 0x7f {
        data.push(cp as u8);
        assert(final(data)@ =~= old(data)@ + escape_char(ch));
    } else if cp <= 0xffff {
        push_escape(data, cp);
    } else {
        let code = cp - 0x10000;
        push_escape(data, 0xd800 + code / 1024);
        push_escape(data, 0xdc00 + code % 1024);
        assert(final(data)@ =~= old(data)@ + escape_char(ch));
    }
}

/// Build a Console 1 SysEx message from a JSON text: `0xF0 0x7D "stc1" <escaped text> 0xF7`.
pub fn frame_json_text(json_text: &str) -> (res: Vec<u8>)
    ensures
        res@ == sysex_frame(json_text@),
{
    let chars = chars_of(json_text);
    let mut data: Vec<u8> = Vec::new();
    data.push(SYSEX_START);
    data.push(SYSEX_MANUFACTURER);
    data.push(0x73);
    data.push(0x74);
    data.push(0x63);
    data.push(0x31);
    let ghost head = data@;
    assert(head =~= seq![SYSEX_START, SYSEX_MANUFACTURER] + sysex_magic());
    let mut i: usize = 0;
    while i < chars.len()
        invariant
            i <= chars@.len(),
            chars@ == json_text@,
            data@ == head + escape_text(chars@.subrange(0, i as int)),
        decreases chars.len() - i,
    {
        let ch = chars[i];
        let ghost before = data@;
        push_escaped_char(&mut data, ch);
        proof {
            assert(chars@.subrange(0, i + 1).drop_last() =~= chars@.subrange(0, i as int));
            assert(chars@.subrange(0, i + 1).last() == ch);
            assert(data@ =~= before + escape_char(ch));
        }
        i = i + 1;
    }
    data.push(SYSEX_STOP);
    assert(chars@.subrange(0, chars@.len() as int) =~= chars@);
    data
}

proof fn lemma_hex_digit_printable(d: int)
    requires
        0 <= d < 16,
    ensures
        0x20 <= hex_digit(d) <= 0x7e,
{
}

proof fn lemma_unicode_escape_printable(cu: int)
    requires
        0 <= cu,
    ensures
        forall|k: int| 0 <= k < unicode_escape(cu).len() ==> 0x20 <= #[trigger] unicode_escape(cu)[k] <= 0x7e,
{
    lemma_hex_digit_printable((cu / 4096) % 16);
    lemma_hex_digit_printable((cu / 256) % 16);
    lemma_hex_digit_printable((cu / 16) % 16);
    lemma_hex_digit_printable(cu % 16);
}

proof fn lemma_escape_char_printable(c: char)
    ensures
        forall|k: int| 0 <= k < escape_char(c).len() ==> 0x20 <= #[trigger] escape_char(c)[k] <= 0x7e,
{
    let cp = c as u32 as int;
    if !(0x20 <= cp < 0x7f) && cp <= 0xffff {
        lemma_unicode_escape_printable(cp);
    }
    if !(0x20 <= cp < 0x7f) && cp > 0xffff {
        lemma_unicode_escape_printable(0xd800 + (cp - 0x10000) / 1024);
        lemma_unicode_escape_printable(0xdc00 + (cp - 0x10000) % 1024);
        let a = unicode_escape(0xd800 + (cp - 0x10000) / 1024);
        let b = unicode_escape(0xdc00 + (cp - 0x10000) % 1024);
        assert forall|k: int| 0 <= k < (a + b).len() implies 0x20 <= #[trigger] (a + b)[k] <= 0x7e by {
            if k < a.len() {
                assert((a + b)[k] == a[k]);
            } else {
                assert((a + b)[k] == b[k - a.len()]);
            }
        }
    }
}

/// Every byte of an escaped JSON text is printable ASCII (0x20..=0x7E): the wire payload
/// never carries a byte SysEx would misread.
pub proof fn lemma_escaped_text_is_printable_ascii(text: Seq<char>)
    ensures
        forall|k: int| 0 <= k < escape_text(text).len() ==> 0x20 <= #[trigger] escape_text(text)[k] <= 0x7e,
    decreases text.len(),
{
    if text.len() > 0 {
        lemma_escaped_text_is_printable_ascii(text.drop_last());
        lemma_escape_char_printable(text.last());
        let a = escape_text(text.drop_last());
        let b = escape_char(text.last());
        assert forall|k: int| 0 <= k < (a + b).len() implies 0x20 <= #[trigger] (a + b)[k] <= 0x7e by {
            if k < a.len() {
                assert((a + b)[k] == a[k]);
            } else {
                assert((a + b)[k] == b[k - a.len()]);
            }
        }
    }
}

proof fn lemma_escape_len(text: Seq<char>)
    ensures
        escape_text(text).len() >= text.len(),
    decreases text.len(),
{
    if text.len() > 0 {
        lemma_escape_len(text.drop_last());
    }
}

/// Reading a frame back yields exactly the escaped text it was built from, for any text of
/// at least 2 characters (the shortest JSON object, `{}`).
pub proof fn lemma_frame_payload_roundtrip(text: Seq<char>)
    requires
        text.len() >= 2,
    ensures
        sysex_payload(sysex_frame(text)) == Some(escape_text(text)),
{
    lemma_escape_len(text);
    let f = sysex_frame(text);
    let e = escape_text(text);
    assert(f.subrange(2, 6) =~= sysex_magic());
    assert(f.subrange(6, f.len() - 1) =~= e);
}

/// Printable-ASCII text travels as itself: escaping it changes nothing.
pub proof fn lemma_printable_text_escapes_to_itself(text: Seq<char>)
    requires
        forall|k: int| 0 <= k < text.len() ==> 0x20 <= (#[trigger] text[k]) as u32 <= 0x7e,
    ensures
        bytes_as_chars(escape_text(text)) == text,
    decreases text.len(),
{
    if text.len() > 0 {
        let init = text.drop_last();
        lemma_printable_text_escapes_to_itself(init);
        let c = text.last();
        assert(0x20 <= c as u32 <= 0x7e);
        vstd::utf8::char_u32_cast(c, c as u32);
        assert(escape_char(c) == seq![(c as u32) as u8]);
        assert(((c as u32) as u8) as char == c) by {
            vstd::utf8::char_u32_cast(c, c as u32);
        }
        assert(bytes_as_chars(escape_text(text)) =~= bytes_as_chars(escape_text(init)).push(((c as u32) as u8) as char));
        assert(text =~= init.push(c));
    } else {
        assert(bytes_as_chars(escape_text(text)) =~= text);
    }
}

} // verus!
