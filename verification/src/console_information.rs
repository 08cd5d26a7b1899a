//! Best-effort reading of Mixing Station's `/console/information` response into the
//! channel-architecture facts the bridge works with. Any field that is absent, malformed,
//! or fails the heuristic keeps its previous value.

use crate::config::{lowercase_of, to_lowercase_string};
use crate::json::JsonValue;
use crate::text::{chars_of, chars_eq, owned};
use vstd::prelude::*;

verus! {

/// The channel-layout facts the bridge derives from Mixing Station.
#[derive(Debug, Clone, PartialEq)]
pub struct ConsoleArchitecture {
    /// Total channel count reported by the console.
    pub total_channels: i64,
    /// Number of input channels (inputs are indexed from 0).
    pub input_channel_count: i64,
    /// Channel index at which the bus range begins.
    pub bus_channel_start: i64,
    /// Number of bus channels starting at `bus_channel_start`.
    pub bus_channel_count: i64,
    /// Channel indices making up the main output: a stereo pair, or one index if mono.
    pub main_stereo_channels: Vec<i64>,
}

/// One `channelTypes` entry as read off the response: its names (empty when absent or not
/// a string) and its offset and count (each `None` unless a finite number or numeric
/// string, truncated).
#[derive(Debug, Clone)]
pub struct ChannelTypeEntry {
    pub name: String,
    pub short_name: String,
    pub offset: Option<i64>,
    pub count: Option<i64>,
}

/// The parts of a `/console/information` response the bridge reads: whether it is an
/// object at all, its `totalChannels` (as for offsets), and its `channelTypes` entries
/// (empty when absent or not an array).
#[derive(Debug, Clone)]
pub struct ConsoleInformation {
    pub is_object: bool,
    pub total_channels: Option<i64>,
    pub channel_types: Vec<ChannelTypeEntry>,
}

/// Whether `c` is alphanumeric (std's `char::is_alphanumeric`: Unicode `Alphabetic` or
/// `Numeric`).
pub uninterp spec fn is_alphanumeric_char(c: char) -> bool;

/// std's `char::is_alphanumeric`.
#[verifier::external_body]
fn char_is_alphanumeric(c: char) -> (res: bool)
    ensures
        res == is_alphanumeric_char(c),
{
    c.is_alphanumeric()
}

/// A word separator: neither alphanumeric nor `_`.
pub open spec fn is_separator(c: char) -> bool {
    !is_alphanumeric_char(c) && c != '_'
}

/// `s` has `word` as one of its separator-delimited tokens.
pub open spec fn has_word(s: Seq<char>, word: Seq<char>) -> bool {
    exists|i: int, j: int| {
        &&& 0 <= i <= j <= s.len()
        &&& #[trigger] s.subrange(i, j) == word
        &&& (i == 0 || is_separator(s[i - 1]))
        &&& (j == s.len() || is_separator(s[j]))
        &&& forall|k: int| i <= k < j ==> !is_separator(s[k])
    }
}

fn contains_word(s: &[char], word: &[char]) -> (res: bool)
    ensures
        res == has_word(s@, word@),
{
    let n = s.len();
    let mut start: usize = 0;
    let mut pos: usize = 0;
    while pos <= n
        invariant
            n == s@.len(),
            start <= pos <= n + 1,
            pos <= n ==> (start == 0 || is_separator(s@[start - 1])),
            pos <= n ==> forall|k: int| start <= k < pos ==> !is_separator(s@[k]),
            forall|i: int, j: int| 0 <= i <= j <= s@.len() && j < pos && #[trigger] s@.subrange(i, j) == word@
                && (i == 0 || is_separator(s@[i - 1])) && (j == s@.len() || is_separator(s@[j]))
                ==> exists|k: int| i <= k < j && is_separator(s@[k]),
        decreases n + 1 - pos,
    {
        let at_end = pos == n;
        let sep = if at_end { true } else { !char_is_alphanumeric(s[pos]) && s[pos] != '_' };
        if sep {
            let mut tok: Vec<char> = Vec::new();
            let mut k: usize = start;
            while k < pos
                invariant
                    start <= k <= pos <= n,
                    n == s@.len(),
                    tok@ == s@.subrange(start as int, k as int),
                decreases pos - k,
            {
                tok.push(s[k]);
                k = k + 1;
            }
            if chars_eq(tok.as_slice(), word) {
                proof {
                    assert(s@.subrange(start as int, pos as int) == word@);
                }
                return true;
            }
            proof {
                assert forall|i: int, j: int| 0 <= i <= j <= s@.len() && j < pos + 1 && #[trigger] s@.subrange(i, j) == word@
                    && (i == 0 || is_separator(s@[i - 1])) && (j == s@.len() || is_separator(s@[j]))
                    implies exists|k: int| i <= k < j && is_separator(s@[k]) by {
                    if j == pos {
                        if i < start {
                            assert(is_separator(s@[start - 1]));
                        } else if i > start {
                            assert(is_separator(s@[i - 1]));
                            assert(!is_separator(s@[i - 1]));
                        } else {
                            assert(s@.subrange(start as int, pos as int) == word@);
                        }
                    }
                }
            }
            if at_end {
                return false;
            }
            start = pos + 1;
        } else {
            proof {
                assert forall|i: int, j: int| 0 <= i <= j <= s@.len() && j < pos + 1 && #[trigger] s@.subrange(i, j) == word@
                    && (i == 0 || is_separator(s@[i - 1])) && (j == s@.len() || is_separator(s@[j]))
                    implies exists|k: int| i <= k < j && is_separator(s@[k]) by {
                    if j == pos {
                        assert(!is_separator(s@[pos as int]));
                    }
                }
            }
        }
        pos = pos + 1;
    }
    false
}

/// `ct` names `word` (case-insensitively, as a whole word) in its name or short name.
pub open spec fn names_word(ct: ChannelTypeEntry, word: Seq<char>) -> bool {
    has_word(lowercase_of(ct.name@), word) || has_word(lowercase_of(ct.short_name@), word)
}

/// An entry with a usable offset and a positive count.
pub open spec fn usable_type(ct: ChannelTypeEntry) -> bool {
    ct.offset is Some && (ct.count matches Some(c) && c > 0)
}

pub open spec fn input_word() -> Seq<char> { seq!['i', 'n', 'p', 'u', 't'] }
pub open spec fn ch_word() -> Seq<char> { seq!['c', 'h'] }
pub open spec fn bus_word() -> Seq<char> { seq!['b', 'u', 's'] }
pub open spec fn main_word() -> Seq<char> { seq!['m', 'a', 'i', 'n'] }

/// A usable entry naming "input" or "ch" with offset 0.
pub open spec fn is_zero_offset_input(ct: ChannelTypeEntry) -> bool {
    usable_type(ct) && (names_word(ct, input_word()) || names_word(ct, ch_word())) && ct.offset == Some(0i64)
}

pub open spec fn is_bus_type(ct: ChannelTypeEntry) -> bool {
    usable_type(ct) && names_word(ct, bus_word())
}

pub open spec fn is_main_type(ct: ChannelTypeEntry) -> bool {
    usable_type(ct) && names_word(ct, main_word())
}

/// The first position of an entry satisfying `p`.
pub open spec fn first_where(s: Seq<ChannelTypeEntry>, p: spec_fn(ChannelTypeEntry) -> bool) -> Option<int>
    decreases s.len(),
{
    if s.len() == 0 {
        None
    } else if p(s[0]) {
        Some(0)
    } else {
        match first_where(s.drop_first(), p) {
            Some(i) => Some(i + 1),
            None => None,
        }
    }
}

/// The Main entry a response would apply, when it names a stereo pair, starts below the
/// largest offset, so that its second channel is a valid offset too.
pub open spec fn main_pair_fits(info: ConsoleInformation) -> bool {
    let types = info.channel_types@;
    match first_where(types, |c: ChannelTypeEntry| is_main_type(c)) {
        Some(i) => types[i].count->Some_0 >= 2 && types[i].offset->Some_0 >= 0 ==> types[i].offset->Some_0 < i64::MAX,
        None => true,
    }
}

/// The architecture a response leads to (see the module documentation):
/// - a positive `totalChannels` replaces the total;
/// - the first usable "input"/"ch" entry at offset 0 gives the input count;
/// - the first usable "bus" entry gives the bus start (if its offset is not negative) and
///   the bus count;
/// - the first usable "main" entry with a non-negative offset gives Main: the offset and
///   the next channel when its count is at least 2, else just the offset.
pub open spec fn architecture_after(info: ConsoleInformation, cur: ConsoleArchitecture) -> (i64, i64, i64, i64, Seq<i64>) {
    let types = info.channel_types@;
    let same = (cur.total_channels, cur.input_channel_count, cur.bus_channel_start, cur.bus_channel_count, cur.main_stereo_channels@);
    if !info.is_object {
        same
    } else {
        let total = match info.total_channels {
            Some(t) => if t > 0 { t } else { cur.total_channels },
            None => cur.total_channels,
        };
        let input = match first_where(types, |c: ChannelTypeEntry| is_zero_offset_input(c)) {
            Some(i) => types[i].count->Some_0,
            None => cur.input_channel_count,
        };
        let (bus_start, bus_count) = match first_where(types, |c: ChannelTypeEntry| is_bus_type(c)) {
            Some(i) => (
                if types[i].offset->Some_0 >= 0 { types[i].offset->Some_0 } else { cur.bus_channel_start },
                types[i].count->Some_0,
            ),
            None => (cur.bus_channel_start, cur.bus_channel_count),
        };
        let main = match first_where(types, |c: ChannelTypeEntry| is_main_type(c)) {
            Some(i) => {
                let o = types[i].offset->Some_0;
                if o >= 0 {
                    if types[i].count->Some_0 >= 2 { seq![o, (o + 1) as i64] } else { seq![o] }
                } else {
                    cur.main_stereo_channels@
                }
            },
            None => cur.main_stereo_channels@,
        };
        (total, input, bus_start, bus_count, main)
    }
}

fn word_in(name: &String, word: &[char]) -> (res: bool)
    ensures
        res == has_word(lowercase_of(name@), word@),
{
    let lower = to_lowercase_string(name.as_str());
    let chars = chars_of(lower.as_str());
    contains_word(chars.as_slice(), word)
}

fn names_word_exec(ct: &ChannelTypeEntry, word: &[char]) -> (res: bool)
    ensures
        res == names_word(*ct, word@),
{
    word_in(&ct.name, word) || word_in(&ct.short_name, word)
}

fn usable(ct: &ChannelTypeEntry) -> (res: bool)
    ensures
        res == usable_type(*ct),
{
    ct.offset.is_some() && match ct.count {
        Some(c) => c > 0,
        None => false,
    }
}

proof fn lemma_first_where_found(s: Seq<ChannelTypeEntry>, p: spec_fn(ChannelTypeEntry) -> bool, i: int)
    requires
        0 <= i < s.len(),
        forall|k: int| 0 <= k < i ==> !p(s[k]),
        p(s[i]),
    ensures
        first_where(s, p) == Some(i),
    decreases i,
{
    if i > 0 {
        assert forall|k: int| 0 <= k < i - 1 implies !p(s.drop_first()[k]) by {
            assert(s.drop_first()[k] == s[k + 1]);
        }
        assert(s.drop_first()[i - 1] == s[i]);
        lemma_first_where_found(s.drop_first(), p, i - 1);
    }
}

proof fn lemma_first_where_none(s: Seq<ChannelTypeEntry>, p: spec_fn(ChannelTypeEntry) -> bool)
    requires
        forall|k: int| 0 <= k < s.len() ==> !p(s[k]),
    ensures
        first_where(s, p) is None,
    decreases s.len(),
{
    if s.len() > 0 {
        assert forall|k: int| 0 <= k < s.len() - 1 implies !p(s.drop_first()[k]) by {
            assert(s.drop_first()[k] == s[k + 1]);
        }
        lemma_first_where_none(s.drop_first(), p);
    }
}

fn first_zero_offset_input(types: &Vec<ChannelTypeEntry>, input_w: &[char], ch_w: &[char]) -> (res: usize)
    requires
        input_w@ == input_word(),
        ch_w@ == ch_word(),
    ensures
        res <= types@.len(),
        forall|k: int| 0 <= k < res ==> !is_zero_offset_input(#[trigger] types@[k]),
        res < types@.len() ==> is_zero_offset_input(types@[res as int]),
{
    let mut i: usize = 0;
    while i < types.len()
        invariant
            i <= types@.len(),
            input_w@ == input_word(),
            ch_w@ == ch_word(),
            forall|k: int| 0 <= k < i ==> !is_zero_offset_input(#[trigger] types@[k]),
        decreases types.len() - i,
    {
        let ct = &types[i];
        let hit = usable(ct) && ct.offset == Some(0i64) && (names_word_exec(ct, input_w) || names_word_exec(ct, ch_w));
        if hit {
            return i;
        }
        i = i + 1;
    }
    i
}

fn first_named(types: &Vec<ChannelTypeEntry>, word: &[char]) -> (res: usize)
    ensures
        res <= types@.len(),
        forall|k: int| 0 <= k < res ==> !(usable_type(#[trigger] types@[k]) && names_word(types@[k], word@)),
        res < types@.len() ==> usable_type(types@[res as int]) && names_word(types@[res as int], word@),
{
    let mut i: usize = 0;
    while i < types.len()
        invariant
            i <= types@.len(),
            forall|k: int| 0 <= k < i ==> !(usable_type(#[trigger] types@[k]) && names_word(types@[k], word@)),
        decreases types.len() - i,
    {
        let ct = &types[i];
        if usable(ct) && names_word_exec(ct, word) {
            return i;
        }
        i = i + 1;
    }
    i
}

/// Derives an updated architecture from a `/console/information` response. Infallible:
/// any field that is absent, malformed, or fails the heuristic keeps its value from
/// `current`.
pub fn apply_console_information(info: &ConsoleInformation, current: ConsoleArchitecture) -> (res: ConsoleArchitecture)
    requires
        main_pair_fits(*info),
    ensures
        (res.total_channels, res.input_channel_count, res.bus_channel_start, res.bus_channel_count, res.main_stereo_channels@)
            == architecture_after(*info, current),
{
    let ghost cur = current;
    let mut result = current;
    if !info.is_object {
        return result;
    }
    if let Some(total) = info.total_channels {
        if total > 0 {
            result.total_channels = total;
        }
    }
    let types = &info.channel_types;
    let input_w: Vec<char> = vec!['i', 'n', 'p', 'u', 't'];
    let ch_w: Vec<char> = vec!['c', 'h'];
    let bus_w: Vec<char> = vec!['b', 'u', 's'];
    let main_w: Vec<char> = vec!['m', 'a', 'i', 'n'];
    assert(input_w@ == input_word());
    assert(ch_w@ == ch_word());
    assert(bus_w@ == bus_word());
    assert(main_w@ == main_word());

    // Inputs: the first usable "input"/"ch" entry at offset 0.
    let ghost p_in = |c: ChannelTypeEntry| is_zero_offset_input(c);
    let i = first_zero_offset_input(types, input_w.as_slice(), ch_w.as_slice());
    if i < types.len() {
        proof {
            lemma_first_where_found(types@, p_in, i as int);
        }
        if let Some(c) = types[i].count {
            result.input_channel_count = c;
        }
    } else {
        proof {
            lemma_first_where_none(types@, p_in);
        }
    }

    // Bus: the first usable "bus" entry.
    let ghost p_bus = |c: ChannelTypeEntry| is_bus_type(c);
    let i = first_named(types, bus_w.as_slice());
    if i < types.len() {
        proof {
            lemma_first_where_found(types@, p_bus, i as int);
        }
        if let Some(o) = types[i].offset {
            if o >= 0 {
                result.bus_channel_start = o;
            }
        }
        if let Some(c) = types[i].count {
            if c > 0 {
                result.bus_channel_count = c;
            }
        }
    } else {
        proof {
            lemma_first_where_none(types@, p_bus);
        }
    }

    // Main: the first usable "main" entry; applied when its offset is not negative.
    let ghost p_main = |c: ChannelTypeEntry| is_main_type(c);
    let i = first_named(types, main_w.as_slice());
    if i < types.len() {
        proof {
            lemma_first_where_found(types@, p_main, i as int);
        }
        match (types[i].offset, types[i].count) {
            (Some(o), Some(c)) => {
                if o >= 0 && c > 0 {
                    result.main_stereo_channels = if c >= 2 { vec![o, o + 1] } else { vec![o] };
                }
            },
            _ => {},
        }
    } else {
        proof {
            lemma_first_where_none(types@, p_main);
        }
    }
    result
}

/// Whether the response meets [`main_pair_fits`], the condition for applying it.
pub fn fits_main_pair(info: &ConsoleInformation) -> (res: bool)
    ensures
        res == main_pair_fits(*info),
{
    let types = &info.channel_types;
    let main_w: Vec<char> = vec!['m', 'a', 'i', 'n'];
    assert(main_w@ == main_word());
    let ghost p_main = |c: ChannelTypeEntry| is_main_type(c);
    let i = first_named(types, main_w.as_slice());
    if i < types.len() {
        proof {
            lemma_first_where_found(types@, p_main, i as int);
        }
        match (types[i].offset, types[i].count) {
            (Some(o), Some(c)) => !(c >= 2 && o >= 0) || o < i64::MAX,
            _ => true,
        }
    } else {
        proof {
            lemma_first_where_none(types@, p_main);
        }
        true
    }
}

/// The text of `v` when it is a string, else the empty text.
pub open spec fn text_or_empty(v: Option<JsonValue>) -> Seq<char> {
    match v {
        Some(x) => match x.spec_as_str() {
            Some(t) => t,
            None => Seq::empty(),
        },
        None => Seq::empty(),
    }
}

/// `r` is what `number_of` reads from `v` (nothing when `v` is absent).
pub open spec fn number_read<F: Fn(&JsonValue) -> Option<i64>>(number_of: F, v: Option<JsonValue>, r: Option<i64>) -> bool {
    match v {
        Some(x) => number_of.ensures((&x,), r),
        None => r is None,
    }
}

/// `e` is the `channelTypes` entry `t` as read: its `name` and `shortName` texts (empty
/// when not strings) and its `offset` and `count` as `number_of` reads them.
pub open spec fn channel_type_read<F: Fn(&JsonValue) -> Option<i64>>(number_of: F, t: JsonValue, e: ChannelTypeEntry) -> bool {
    &&& e.name@ == text_or_empty(t.spec_get("name"@))
    &&& e.short_name@ == text_or_empty(t.spec_get("shortName"@))
    &&& number_read(number_of, t.spec_get("offset"@), e.offset)
    &&& number_read(number_of, t.spec_get("count"@), e.count)
}

/// `info` is the `/console/information` body `body` as read: whether it is an object, its
/// `totalChannels`, and each entry of its `channelTypes` array (none when that is not an
/// array).
pub open spec fn console_information_read<F: Fn(&JsonValue) -> Option<i64>>(number_of: F, body: JsonValue, info: ConsoleInformation) -> bool {
    &&& info.is_object == (body is Object)
    &&& number_read(number_of, body.spec_get("totalChannels"@), info.total_channels)
    &&& match body.spec_get("channelTypes"@) {
        Some(JsonValue::Array(items)) => {
            &&& info.channel_types@.len() == items@.len()
            &&& forall|i: int| 0 <= i < items@.len() ==> channel_type_read(number_of, items@[i], #[trigger] info.channel_types@[i])
        },
        _ => info.channel_types@.len() == 0,
    }
}

fn text_member(t: &JsonValue, key: &str) -> (res: String)
    ensures
        res@ == text_or_empty(t.spec_get(key@)),
{
    match t.get(key) {
        Some(v) => match v.as_str() {
            Some(s) => owned(s),
            None => String::new(),
        },
        None => String::new(),
    }
}

fn number_member<F: Fn(&JsonValue) -> Option<i64>>(t: &JsonValue, key: &str, number_of: &F) -> (res: Option<i64>)
    requires
        forall|v: &JsonValue| number_of.requires((v,)),
    ensures
        number_read(*number_of, t.spec_get(key@), res),
{
    match t.get(key) {
        Some(v) => number_of(v),
        None => None,
    }
}

/// Reads a `/console/information` body ([`console_information_read`]); `number_of` reads a
/// number (or numeric string) as an integer.
pub fn read_console_information<F: Fn(&JsonValue) -> Option<i64>>(body: &JsonValue, number_of: F) -> (res: ConsoleInformation)
    requires
        forall|v: &JsonValue| number_of.requires((v,)),
    ensures
        console_information_read(number_of, *body, res),
{
    let total_channels = number_member(body, "totalChannels", &number_of);
    let mut channel_types: Vec<ChannelTypeEntry> = Vec::new();
    match body.get("channelTypes") {
        Some(v) => match v.as_array() {
            Some(items) => {
                let mut i: usize = 0;
                while i < items.len()
                    invariant
                        i <= items@.len(),
                        forall|v: &JsonValue| number_of.requires((v,)),
                        channel_types@.len() == i,
                        forall|k: int| 0 <= k < i ==> channel_type_read(number_of, items@[k], #[trigger] channel_types@[k]),
                    decreases items.len() - i,
                {
                    let t = &items[i];
                    let e = ChannelTypeEntry {
                        name: text_member(t, "name"),
                        short_name: text_member(t, "shortName"),
                        offset: number_member(t, "offset", &number_of),
                        count: number_member(t, "count", &number_of),
                    };
                    channel_types.push(e);
                    i = i + 1;
                }
            },
            None => {},
        },
        None => {},
    }
    ConsoleInformation { is_object: body.is_object(), total_channels, channel_types }
}

} // verus!