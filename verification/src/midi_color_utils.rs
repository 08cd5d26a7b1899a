//! Conversion of Mixing Station color values into Softube's 24-bit color integers.
//!
//! Mixing Station gives a palette index (0..15), a `styleClass` string, or an
//! already-encoded RGB integer. Softube's format is `0xBBGGRR`: red in the lowest byte,
//! blue in the highest. Palette indices 8..15 are the "-inv" variants of 0..7, shown as
//! the base color tinted 60% towards white.

use crate::json::{JsonNumber, JsonValue, NumberKind, two_pow_52};
use crate::text::str_eq;
use vstd::arithmetic::power2::pow2;
use vstd::prelude::*;

verus! {

/// The base colors of palette indices 0..7, in `0xBBGGRR`.
pub const MS_PALETTE_BASE_COLORS: [u32; 8] = [
    0x000000, 0x0000ff, 0x00ff00, 0x00ffff, 0xff0000, 0xff00ff, 0xffff00, 0xffffff,
];

/// The base color of palette index `i` (0..7).
pub open spec fn base_color(i: int) -> u32 {
    if i == 0 {
        0x000000
    } else if i == 1 {
        0x0000ff
    } else if i == 2 {
        0x00ff00
    } else if i == 3 {
        0x00ffff
    } else if i == 4 {
        0xff0000
    } else if i == 5 {
        0xff00ff
    } else if i == 6 {
        0xffff00
    } else {
        0xffffff
    }
}

/// One 8-bit channel moved 60% of the way towards 255, rounded to nearest.
pub open spec fn tint_channel_60(c: int) -> int {
    c + ((255 - c) * 6 + 5) / 10
}

/// A `0xBBGGRR` color with each channel tinted 60% towards white.
pub open spec fn tint_60(color: u32) -> int {
    let r = color as int % 256;
    let g = (color as int / 256) % 256;
    let b = (color as int / 65536) % 256;
    tint_channel_60(r) + tint_channel_60(g) * 256 + tint_channel_60(b) * 65536
}

/// The color of palette index `i` (0..15): a base color, or for 8..15 the tinted
/// "-inv" variant of base color `i - 8`.
pub open spec fn palette_color(i: int) -> int {
    if i < 8 { base_color(i) as int } else { tint_60(base_color(i - 8)) }
}

fn base_color_of(i: usize) -> (res: u32)
    requires
        i < 8,
    ensures
        res == base_color(i as int),
{
    MS_PALETTE_BASE_COLORS[i]
}

fn tint_channel(c: u32) -> (res: u32)
    requires
        c < 256,
    ensures
        res as int == tint_channel_60(c as int),
        res < 256,
{
    c + ((255 - c) * 6 + 5) / 10
}

/// Tints a `0xBBGGRR` color 60% towards white, channel by channel, rounding to nearest
/// (the tint of the palette's "-inv" entries).
pub fn tint_softube_color_60(color: u32) -> (res: u32)
    ensures
        res as int == tint_60(color),
        res <= 0xffffff,
{
    let r = tint_channel(color % 256);
    let g = tint_channel((color / 256) % 256);
    let b = tint_channel((color / 65536) % 256);
    r + g * 256 + b * 65536
}

/// The color of palette index `i` (0..15).
pub fn palette_color_of(i: usize) -> (res: u32)
    requires
        i < 16,
    ensures
        res as int == palette_color(i as int),
        res <= 0xffffff,
{
    if i < 8 {
        base_color_of(i)
    } else {
        tint_softube_color_60(base_color_of(i - 8))
    }
}

/// The `styleClass` names of palette indices 0..15, in index order.
pub open spec fn style_classes() -> Seq<Seq<char>> {
    seq![
        "mixer-black"@, "mixer-red"@, "mixer-green"@, "mixer-yellow"@,
        "mixer-blue"@, "mixer-magenta"@, "mixer-cyan"@, "mixer-white"@,
        "mixer-black-inv"@, "mixer-red-inv"@, "mixer-green-inv"@, "mixer-yellow-inv"@,
        "mixer-blue-inv"@, "mixer-magenta-inv"@, "mixer-cyan-inv"@, "mixer-white-inv"@,
    ]
}

/// The palette index of the `styleClass` `s`: the first table entry equal to it.
pub open spec fn styleclass_index(s: Seq<char>) -> Option<int> {
    if exists|i: int| 0 <= i < 16 && style_classes()[i] == s {
        Some(choose|i: int| 0 <= i < 16 && style_classes()[i] == s && forall|j: int| 0 <= j < i ==> style_classes()[j] != s)
    } else {
        None
    }
}

/// Looks a `styleClass` name (e.g. `"mixer-green"`) up in the palette table.
pub fn ms_styleclass_to_palette_index(style_class: &str) -> (res: Option<u8>)
    ensures
        match res {
            Some(i) => i < 16 && style_classes()[i as int] == style_class@
                && forall|j: int| 0 <= j < i ==> style_classes()[j] != style_class@,
            None => forall|j: int| 0 <= j < 16 ==> style_classes()[j] != style_class@,
        },
        res matches Some(i) ==> styleclass_index(style_class@) == Some(i as int),
        res is None ==> styleclass_index(style_class@) is None,
{
    let names: [&str; 16] = [
        "mixer-black", "mixer-red", "mixer-green", "mixer-yellow",
        "mixer-blue", "mixer-magenta", "mixer-cyan", "mixer-white",
        "mixer-black-inv", "mixer-red-inv", "mixer-green-inv", "mixer-yellow-inv",
        "mixer-blue-inv", "mixer-magenta-inv", "mixer-cyan-inv", "mixer-white-inv",
    ];
    assert(forall|j: int| 0 <= j < 16 ==> #[trigger] names@[j]@ == style_classes()[j]);
    let mut i: usize = 0;
    while i < 16
        invariant
            i <= 16,
            forall|j: int| 0 <= j < 16 ==> #[trigger] names@[j]@ == style_classes()[j],
            forall|j: int| 0 <= j < i ==> style_classes()[j] != style_class@,
        decreases 16 - i,
    {
        if str_eq(names[i], style_class) {
            proof {
                let k = choose|k: int| 0 <= k < 16 && style_classes()[k] == style_class@
                    && forall|j: int| 0 <= j < k ==> style_classes()[j] != style_class@;
                assert(k == i as int) by {
                    if k < i {
                    } else if k > i {
                        assert(style_classes()[i as int] == style_class@);
                    }
                }
            }
            return Some(i as u8);
        }
        i = i + 1;
    }
    None
}

/// The integer an `f64` bit pattern stands for, if it is finite and whole.
pub open spec fn f64_whole_value(bits: u64) -> Option<int> {
    let neg = bits >= 0x8000_0000_0000_0000;
    let mag = bits as int % 0x8000_0000_0000_0000;
    let e = mag / two_pow_52() as int;
    let full = mag % two_pow_52() as int + two_pow_52();
    let v: Option<int> = if e == 2047 {
        None
    } else if e == 0 {
        if mag == 0 { Some(0) } else { None }
    } else if e >= 1075 {
        Some(full * pow2((e - 1075) as nat))
    } else if e < 1023 {
        None
    } else if full % pow2((1075 - e) as nat) as int == 0 {
        Some(full / pow2((1075 - e) as nat) as int)
    } else {
        None
    };
    match v {
        Some(x) => Some(if neg { -x } else { x }),
        None => None,
    }
}

/// The integer a JSON number stands for where it is whole: integers as they are,
/// floats when finite and without a fractional part.
pub open spec fn whole_number_value(n: JsonNumber) -> Option<int> {
    match n.kind {
        NumberKind::PosInt(u) => Some(u as int),
        NumberKind::NegInt(i) => Some(i as int),
        NumberKind::Float => f64_whole_value(n.f64_bits),
    }
}

/// The Softube color for a Mixing Station color value: a whole number 0..15 is a
/// palette index, 16..=0xffffff an RGB value as it is, any other number nothing; a
/// string is a `styleClass` looked up in the palette table; anything else is nothing.
pub open spec fn softube_color(value: JsonValue) -> Option<int> {
    match value {
        JsonValue::Number(n) => match whole_number_value(n) {
            Some(x) => if 0 <= x <= 15 {
                Some(palette_color(x))
            } else if 0 <= x <= 0xffffff {
                Some(x)
            } else {
                None
            },
            None => None,
        },
        JsonValue::Str(s) => match styleclass_index(s@) {
            Some(i) => Some(palette_color(i)),
            None => None,
        },
        _ => None,
    }
}

/// The value of a float's bit pattern when it is a whole number within 0..=0xffffff;
/// `None` for fractional, non-finite, negative or larger values.
fn small_whole_value(bits: u64) -> (res: Option<u32>)
    ensures
        match f64_whole_value(bits) {
            Some(x) => if 0 <= x <= 0xffffff { res == Some(x as u32) } else { res is None },
            None => res is None,
        },
{
    let neg = bits >= 0x8000_0000_0000_0000;
    let mag = bits % 0x8000_0000_0000_0000;
    let e = mag / 0x10_0000_0000_0000;
    let full = mag % 0x10_0000_0000_0000 + 0x10_0000_0000_0000;
    if e == 2047 {
        return None;
    }
    if e == 0 {
        return if mag == 0 { Some(0) } else { None };
    }
    if e >= 1075 {
        proof {
            vstd::arithmetic::power2::lemma_pow2_pos((e - 1075) as nat);
            assert(full * pow2((e - 1075) as nat) >= full) by (nonlinear_arith)
                requires
                    pow2((e - 1075) as nat) >= 1,
                    full >= 0,
            {
            }
        }
        return None;
    }
    if e < 1023 {
        return None;
    }
    let sh = 1075 - e;
    let mut d: u64 = 1;
    let mut k: u64 = 0;
    proof {
        vstd::arithmetic::power2::lemma2_to64();
    }
    while k < sh
        invariant
            k <= sh <= 52,
            d as nat == pow2(k as nat),
        decreases sh - k,
    {
        proof {
            vstd::arithmetic::power2::lemma_pow2_unfold((k + 1) as nat);
            vstd::arithmetic::power2::lemma_pow2_strictly_increases((k + 1) as nat, 53);
            vstd::arithmetic::power2::lemma2_to64_rest();
        }
        d = d * 2;
        k = k + 1;
    }
    proof {
        vstd::arithmetic::power2::lemma_pow2_pos(sh as nat);
    }
    if full % d != 0 {
        return None;
    }
    let v = full / d;
    if neg {
        if v == 0 {
            return Some(0);
        }
        return None;
    }
    if v <= 0xffffff {
        Some(v as u32)
    } else {
        None
    }
}

/// Converts a Mixing Station color value into Softube's `0xBBGGRR` integer (see
/// [`softube_color`]): palette indices (`8.0` counts as `8`), raw RGB integers, or
/// `styleClass` names; anything else, a fraction or an out-of-range number is `None`.
pub fn ms_color_to_softube_color_int(value: &JsonValue) -> (res: Option<u32>)
    ensures
        match softube_color(*value) {
            Some(c) => res == Some(c as u32) && 0 <= c <= 0xffffff,
            None => res is None,
        },
{
    match value {
        JsonValue::Number(n) => {
            let whole: Option<u32> = match n.kind {
                NumberKind::PosInt(u) => if u <= 0xffffff { Some(u as u32) } else { None },
                NumberKind::NegInt(i) => if 0 <= i && i <= 0xffffff { Some(i as u32) } else { None },
                NumberKind::Float => small_whole_value(n.f64_bits),
            };
            match whole {
                Some(x) => {
                    if x <= 15 {
                        let c = palette_color_of(x as usize);
                        proof {
                            assert(palette_color(x as int) <= 0xffffff);
                        }
                        Some(c)
                    } else {
                        Some(x)
                    }
                },
                None => None,
            }
        },
        JsonValue::Str(s) => match ms_styleclass_to_palette_index(s.as_str()) {
            Some(i) => {
                let c = palette_color_of(i as usize);
                proof {
                    assert(palette_color(i as int) <= 0xffffff);
                }
                Some(c)
            },
            None => None,
        },
        _ => None,
    }
}

} // verus!
