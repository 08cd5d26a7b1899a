//! Parsing of inbound `/console/data/get/ch.<n>.<param>/<format>` Mixing Station
//! messages into a channel index, a parameter path, a format and the carried value.

use crate::json::JsonValue;
use crate::text::{chars_of, find_char, first_index_of, occurs_at, occurs_at_exec, string_from_chars, sub_chars};
use vstd::prelude::*;

verus! {

/// The value format named by a message's last path segment.
#[derive(Debug, Clone, Copy, PartialEq, Eq, Structural)]
pub enum MsFormat {
    Val,
    Norm,
}

/// A parsed channel data message.
#[derive(Debug)]
pub struct ParsedChannelDataMessage {
    pub channel_index: i64,
    pub param_path: String,
    pub format: MsFormat,
    pub value: JsonValue,
}

/// Every character of `s` is an ASCII digit.
pub open spec fn all_ascii_digits(s: Seq<char>) -> bool {
    forall|i: int| 0 <= i < s.len() ==> '0' <= #[trigger] s[i] <= '9'
}

/// The number written by the ASCII digits `s`.
pub open spec fn digits_value(s: Seq<char>) -> nat
    decreases s.len(),
{
    if s.len() == 0 {
        0
    } else {
        digits_value(s.drop_last()) * 10 + (s.last() as nat - '0' as nat) as nat
    }
}

/// The segment of `rest` before its first `/` (all of it when there is none).
pub open spec fn path_segment(rest: Seq<char>) -> Seq<char> {
    match first_index_of(rest, '/') {
        Some(k) => rest.subrange(0, k),
        None => rest,
    }
}

/// The format named by what follows the first `/` of `rest`: `Norm` exactly for `norm`.
pub open spec fn format_segment(rest: Seq<char>) -> MsFormat {
    match first_index_of(rest, '/') {
        Some(k) => if rest.subrange(k + 1, rest.len() as int) == "norm"@ { MsFormat::Norm } else { MsFormat::Val },
        None => MsFormat::Val,
    }
}

/// The channel index and parameter of a `ch.<digits>.<param>` segment, with a non-empty
/// parameter and a channel that fits `i64`.
pub open spec fn channel_segment(seg: Seq<char>) -> Option<(int, Seq<char>)> {
    if !occurs_at(seg, "ch."@, 0) {
        None
    } else {
        let after = seg.subrange(3, seg.len() as int);
        match first_index_of(after, '.') {
            None => None,
            Some(d) => {
                let channel = after.subrange(0, d);
                let param = after.subrange(d + 1, after.len() as int);
                if param.len() == 0 || channel.len() == 0 || !all_ascii_digits(channel)
                    || digits_value(channel) > i64::MAX {
                    None
                } else {
                    Some((digits_value(channel) as int, param))
                }
            },
        }
    }
}

/// The parts of a channel data path: channel index, parameter path, format. The path
/// must start with `/console/data/get/`; what follows up to the first `/` is
/// `ch.<digits>.<param>` (see [`channel_segment`]); the format is `Norm` exactly when
/// the rest after that `/` is `norm`.
pub open spec fn channel_path_parts(path: Seq<char>) -> Option<(int, Seq<char>, MsFormat)> {
    let prefix = "/console/data/get/"@;
    if !occurs_at(path, prefix, 0) {
        None
    } else {
        let rest = path.subrange(prefix.len() as int, path.len() as int);
        match channel_segment(path_segment(rest)) {
            Some((ch, param)) => Some((ch, param, format_segment(rest))),
            None => None,
        }
    }
}

/// The value a channel data message carries: `body.value`, else the top-level `value`,
/// each only when present and not `null`; `null` when neither is.
pub open spec fn channel_message_value(msg: JsonValue) -> JsonValue {
    let body_value = match msg.spec_get("body"@) {
        Some(b) => b.spec_get("value"@),
        None => None,
    };
    match body_value {
        Some(v) if !(v is Null) => v,
        _ => match msg.spec_get("value"@) {
            Some(v) if !(v is Null) => v,
            _ => JsonValue::Null,
        },
    }
}

/// Reads the ASCII digits `v[start..end]` as an `i64`; `None` when one is not a digit,
/// there are none, or the number does not fit.
fn parse_channel_digits(v: &[char]) -> (res: Option<i64>)
    ensures
        match res {
            Some(n) => v@.len() > 0 && all_ascii_digits(v@) && digits_value(v@) <= i64::MAX
                && n as int == digits_value(v@),
            None => v@.len() == 0 || !all_ascii_digits(v@) || digits_value(v@) > i64::MAX,
        },
{
    if v.len() == 0 {
        return None;
    }
    let mut i: usize = 0;
    while i < v.len()
        invariant
            i <= v@.len(),
            forall|k: int| 0 <= k < i ==> '0' <= #[trigger] v@[k] <= '9',
        decreases v.len() - i,
    {
        if v[i] < '0' || v[i] > '9' {
            return None;
        }
        i = i + 1;
    }
    let mut n: i64 = 0;
    let mut overflow = false;
    let mut j: usize = 0;
    while j < v.len()
        invariant
            j <= v@.len(),
            all_ascii_digits(v@),
            !overflow ==> n as int == digits_value(v@.subrange(0, j as int)),
            overflow ==> digits_value(v@.subrange(0, j as int)) > i64::MAX,
            n >= 0,
        decreases v.len() - j,
    {
        let d = (v[j] as u32 - '0' as u32) as i64;
        let ghost pre = v@.subrange(0, j as int);
        let ghost post = v@.subrange(0, j + 1);
        assert(post.drop_last() =~= pre);
        assert(post.last() == v@[j as int]);
        if !overflow {
            if n > (i64::MAX - d) / 10 {
                overflow = true;
                assert(digits_value(post) > i64::MAX) by (nonlinear_arith)
                    requires
                        digits_value(post) == digits_value(pre) * 10 + d,
                        digits_value(pre) == n,
                        n > (i64::MAX - d) / 10,
                        0 <= d <= 9,
                {
                }
            } else {
                assert(n * 10 + d <= i64::MAX) by (nonlinear_arith)
                    requires
                        n <= (i64::MAX - d) / 10,
                        0 <= d <= 9,
                        n >= 0,
                {
                }
                n = n * 10 + d;
            }
        } else {
            assert(digits_value(post) > i64::MAX) by (nonlinear_arith)
                requires
                    digits_value(post) == digits_value(pre) * 10 + d,
                    digits_value(pre) > i64::MAX,
                    0 <= d <= 9,
            {
            }
        }
        j = j + 1;
    }
    assert(v@.subrange(0, v@.len() as int) =~= v@);
    if overflow {
        None
    } else {
        Some(n)
    }
}

fn split_format(rest: &[char]) -> (res: (Vec<char>, MsFormat))
    ensures
        res.0@ == path_segment(rest@),
        res.1 == format_segment(rest@),
{
    match find_char(rest, '/') {
        Some(k) => {
            assert(k < rest.len());
            let fmt_text = sub_chars(rest, k + 1, rest.len());
            let norm: Vec<char> = vec!['n', 'o', 'r', 'm'];
            proof {
                reveal_strlit("norm");
                assert(norm@ == "norm"@);
            }
            let fmt = if crate::text::chars_eq(fmt_text.as_slice(), norm.as_slice()) {
                MsFormat::Norm
            } else {
                MsFormat::Val
            };
            (sub_chars(rest, 0, k), fmt)
        },
        None => (sub_chars(rest, 0, rest.len()), MsFormat::Val),
    }
}

fn parse_channel_segment(seg: &[char]) -> (res: Option<(i64, String)>)
    ensures
        match channel_segment(seg@) {
            Some((ch, param)) => res matches Some(r) && r.0 as int == ch && r.1@ == param,
            None => res is None,
        },
{
    let ch_prefix: Vec<char> = vec!['c', 'h', '.'];
    proof {
        reveal_strlit("ch.");
        assert(ch_prefix@ == "ch."@);
    }
    if seg.len() < 3 || !occurs_at_exec(seg, ch_prefix.as_slice(), 0) {
        return None;
    }
    let after = sub_chars(seg, 3, seg.len());
    let d = match find_char(after.as_slice(), '.') {
        Some(d) => d,
        None => return None,
    };
    let channel = sub_chars(after.as_slice(), 0, d);
    let param = sub_chars(after.as_slice(), d + 1, after.len());
    if param.len() == 0 {
        return None;
    }
    match parse_channel_digits(channel.as_slice()) {
        Some(n) => Some((n, string_from_chars(param.as_slice()))),
        None => None,
    }
}

/// The channel index, parameter path and format of a channel data path, if it is one
/// (see [`channel_path_parts`]).
fn parse_channel_path(path: &str) -> (res: Option<(i64, String, MsFormat)>)
    ensures
        match channel_path_parts(path@) {
            Some((ch, param, fmt)) => res matches Some(r) && r.0 as int == ch && r.1@ == param && r.2 == fmt,
            None => res is None,
        },
{
    let p = chars_of(path);
    let prefix = chars_of("/console/data/get/");
    proof {
        reveal_strlit("/console/data/get/");
    }
    if prefix.len() > p.len() || !occurs_at_exec(p.as_slice(), prefix.as_slice(), 0) {
        return None;
    }
    let rest = sub_chars(p.as_slice(), prefix.len(), p.len());
    let (segment, format) = split_format(rest.as_slice());
    match parse_channel_segment(segment.as_slice()) {
        Some((n, param)) => Some((n, param, format)),
        None => None,
    }
}

/// Parses an inbound `/console/data/get/ch.<n>.<param>/<format>` message: `None` unless
/// its `path` is such a path (see [`channel_path_parts`]); otherwise the channel index,
/// the parameter path, the format, and the carried value (see
/// [`channel_message_value`]).
pub fn parse_channel_data_get_message(msg: JsonValue) -> (res: Option<ParsedChannelDataMessage>)
    ensures
        match msg.spec_get("path"@) {
            Some(JsonValue::Str(path)) => match channel_path_parts(path@) {
                Some((ch, param, fmt)) => res matches Some(r) && r.channel_index as int == ch
                    && r.param_path@ == param && r.format == fmt && r.value == channel_message_value(msg),
                None => res is None,
            },
            _ => res is None,
        },
{
    let parts = match msg.get("path") {
        Some(JsonValue::Str(path)) => parse_channel_path(path.as_str()),
        _ => return None,
    };
    let (channel_index, param_path, format) = match parts {
        Some(p) => p,
        None => return None,
    };
    let ghost whole = msg;
    let use_body = match msg.get("body") {
        Some(b) => match b.get("value") {
            Some(v) => !v.is_null(),
            None => false,
        },
        None => false,
    };
    let value = if use_body {
        let body = msg.into_member("body");
        match body {
            Some(b) => match b.into_member("value") {
                Some(v) => v,
                None => JsonValue::Null,
            },
            None => JsonValue::Null,
        }
    } else {
        let use_top = match msg.get("value") {
            Some(v) => !v.is_null(),
            None => false,
        };
        if use_top {
            match msg.into_member("value") {
                Some(v) => v,
                None => JsonValue::Null,
            }
        } else {
            JsonValue::Null
        }
    };
    Some(ParsedChannelDataMessage { channel_index, param_path, format, value })
}

} // verus!
