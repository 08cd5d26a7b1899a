//! Console 1 DSP-field (Filter/EQ/Compressor) metadata: each field's on-screen name,
//! detent count and value kind, and the default of its normalized 0..1 value.
//!
//! Defaults are given as the bit pattern of their `f64`; the on-screen formatting of
//! values is floating-point work left to the caller.

use crate::text::str_eq;
use vstd::prelude::*;

verus! {

/// Mixing Station's EQ band type names, by type index.
pub const MS_EQ_TYPE_NAMES: [&'static str; 6] = ["PEQ", "VEQ", "Hi-Cut", "Lo-Cut", "Lo-Shelf", "Hi-Shelf"];

/// Every bare Filter/EQ/Compressor field name that has metadata.
pub const DSP_FIELD_NAMES: [&'static str; 32] = [
        "filterLcOn",
        "filterLcFreq",
        "filterPreGain",
        "filterPhaseInvert",
        "eq1On",
        "eq1Freq",
        "eq1Gain",
        "eq1Q",
        "eq1Type",
        "eq2On",
        "eq2Freq",
        "eq2Gain",
        "eq2Q",
        "eq2Type",
        "eq3On",
        "eq3Freq",
        "eq3Gain",
        "eq3Q",
        "eq3Type",
        "eq4On",
        "eq4Freq",
        "eq4Gain",
        "eq4Q",
        "eq4Type",
        "compOn",
        "compRatio",
        "compAttack",
        "compRelease",
        "compMakeup",
        "compComp",
        "compKnee",
        "compWetdry",
    ];

/// The bit pattern of `0.5_f64`.
pub const F64_HALF_BITS: u64 = 0x3fe0_0000_0000_0000;

/// The bit pattern of the normalized input gain of 0 dB on the -12..60 dB headamp range
/// (12.0 / 72.0).
pub const F64_INPUT_GAIN_UNITY_BITS: u64 = 0x3fc5_5555_5555_5555;

/// How a DSP field's value is shown.
#[derive(Debug, Clone, Copy, PartialEq, Eq, Structural)]
pub enum DspFieldKind {
    Bool,
    Percent,
    /// Defined for completeness; no field of the table uses it.
    Index,
    Hz,
    Db,
    Ms,
    Ratio,
    Raw,
    EqType,
    Knee,
}

/// A DSP field's on-screen metadata.
#[derive(Debug, Clone, Copy, PartialEq)]
pub struct DspFieldMeta {
    pub name: &'static str,
    pub quantisation: u32,
    pub kind: DspFieldKind,
    /// The bit pattern of the field's default normalized value.
    pub default_value_bits: u64,
}

/// The field names of the table, in order.
pub open spec fn dsp_field_keys() -> Seq<Seq<char>> {
    seq![
        "filterLcOn"@,
        "filterLcFreq"@,
        "filterPreGain"@,
        "filterPhaseInvert"@,
        "eq1On"@,
        "eq1Freq"@,
        "eq1Gain"@,
        "eq1Q"@,
        "eq1Type"@,
        "eq2On"@,
        "eq2Freq"@,
        "eq2Gain"@,
        "eq2Q"@,
        "eq2Type"@,
        "eq3On"@,
        "eq3Freq"@,
        "eq3Gain"@,
        "eq3Q"@,
        "eq3Type"@,
        "eq4On"@,
        "eq4Freq"@,
        "eq4Gain"@,
        "eq4Q"@,
        "eq4Type"@,
        "compOn"@,
        "compRatio"@,
        "compAttack"@,
        "compRelease"@,
        "compMakeup"@,
        "compComp"@,
        "compKnee"@,
        "compWetdry"@,
    ]
}

/// The on-screen names of the table's fields, in order.
pub open spec fn dsp_field_titles() -> Seq<Seq<char>> {
    seq![
        "Low Cut On"@,
        "Low Cut Freq"@,
        "Input Gain"@,
        "Phase Invert"@,
        "EQ 1 On"@,
        "EQ 1 Freq"@,
        "EQ 1 Gain"@,
        "EQ 1 Q"@,
        "EQ 1 Type"@,
        "EQ 2 On"@,
        "EQ 2 Freq"@,
        "EQ 2 Gain"@,
        "EQ 2 Q"@,
        "EQ 2 Type"@,
        "EQ 3 On"@,
        "EQ 3 Freq"@,
        "EQ 3 Gain"@,
        "EQ 3 Q"@,
        "EQ 3 Type"@,
        "EQ 4 On"@,
        "EQ 4 Freq"@,
        "EQ 4 Gain"@,
        "EQ 4 Q"@,
        "EQ 4 Type"@,
        "Comp On"@,
        "Ratio"@,
        "Attack"@,
        "Release"@,
        "Gain"@,
        "Threshold"@,
        "Knee"@,
        "Wet/Dry"@,
    ]
}

/// The detent counts of the table's fields, in order (the EQ types have one per type name).
pub open spec fn dsp_field_quantisations() -> Seq<u32> {
    seq![
        2,
        0,
        0,
        2,
        2,
        0,
        0,
        0,
        6,
        2,
        0,
        0,
        0,
        6,
        2,
        0,
        0,
        0,
        6,
        2,
        0,
        0,
        0,
        6,
        2,
        12,
        0,
        0,
        0,
        0,
        6,
        0,
    ]
}

/// The value kinds of the table's fields, in order.
pub open spec fn dsp_field_kinds() -> Seq<DspFieldKind> {
    seq![
        DspFieldKind::Bool,
        DspFieldKind::Hz,
        DspFieldKind::Db,
        DspFieldKind::Bool,
        DspFieldKind::Bool,
        DspFieldKind::Hz,
        DspFieldKind::Db,
        DspFieldKind::Raw,
        DspFieldKind::EqType,
        DspFieldKind::Bool,
        DspFieldKind::Hz,
        DspFieldKind::Db,
        DspFieldKind::Raw,
        DspFieldKind::EqType,
        DspFieldKind::Bool,
        DspFieldKind::Hz,
        DspFieldKind::Db,
        DspFieldKind::Raw,
        DspFieldKind::EqType,
        DspFieldKind::Bool,
        DspFieldKind::Hz,
        DspFieldKind::Db,
        DspFieldKind::Raw,
        DspFieldKind::EqType,
        DspFieldKind::Bool,
        DspFieldKind::Ratio,
        DspFieldKind::Ms,
        DspFieldKind::Ms,
        DspFieldKind::Db,
        DspFieldKind::Db,
        DspFieldKind::Knee,
        DspFieldKind::Percent,
    ]
}

/// The default value bit patterns of the table's fields, in order.
pub open spec fn dsp_field_defaults() -> Seq<u64> {
    seq![
        0,
        0,
        F64_INPUT_GAIN_UNITY_BITS,
        0,
        0,
        F64_HALF_BITS,
        F64_HALF_BITS,
        F64_HALF_BITS,
        0,
        0,
        F64_HALF_BITS,
        F64_HALF_BITS,
        F64_HALF_BITS,
        0,
        0,
        F64_HALF_BITS,
        F64_HALF_BITS,
        F64_HALF_BITS,
        0,
        0,
        F64_HALF_BITS,
        F64_HALF_BITS,
        F64_HALF_BITS,
        0,
        0,
        0,
        0,
        0,
        0,
        0,
        0,
        0,
    ]
}

/// The metadata of table entry `i`.
pub open spec fn dsp_field_entry(i: int) -> (Seq<char>, u32, DspFieldKind, u64) {
    (dsp_field_titles()[i], dsp_field_quantisations()[i], dsp_field_kinds()[i], dsp_field_defaults()[i])
}

/// The table position of the field `field`: the first entry with that name.
pub open spec fn dsp_field_index(field: Seq<char>) -> Option<int> {
    if exists|i: int| 0 <= i < 32 && dsp_field_keys()[i] == field {
        Some(choose|i: int| 0 <= i < 32 && dsp_field_keys()[i] == field && forall|j: int| 0 <= j < i ==> dsp_field_keys()[j] != field)
    } else {
        None
    }
}

/// Looks a DSP field's metadata up by its bare field name (e.g. `"filterLcOn"`,
/// `"eq2Freq"`); `None` for any name outside the fixed field set.
pub fn dsp_field_metadata(field: &str) -> (res: Option<DspFieldMeta>)
    ensures
        match dsp_field_index(field@) {
            Some(i) => res matches Some(m) && (m.name@, m.quantisation, m.kind, m.default_value_bits) == dsp_field_entry(i),
            None => res is None,
        },
{
    let titles: [&str; 32] = [
            "Low Cut On",
            "Low Cut Freq",
            "Input Gain",
            "Phase Invert",
            "EQ 1 On",
            "EQ 1 Freq",
            "EQ 1 Gain",
            "EQ 1 Q",
            "EQ 1 Type",
            "EQ 2 On",
            "EQ 2 Freq",
            "EQ 2 Gain",
            "EQ 2 Q",
            "EQ 2 Type",
            "EQ 3 On",
            "EQ 3 Freq",
            "EQ 3 Gain",
            "EQ 3 Q",
            "EQ 3 Type",
            "EQ 4 On",
            "EQ 4 Freq",
            "EQ 4 Gain",
            "EQ 4 Q",
            "EQ 4 Type",
            "Comp On",
            "Ratio",
            "Attack",
            "Release",
            "Gain",
            "Threshold",
            "Knee",
            "Wet/Dry",
        ];
    let quantisations: [u32; 32] = [
            2,
            0,
            0,
            2,
            2,
            0,
            0,
            0,
            6,
            2,
            0,
            0,
            0,
            6,
            2,
            0,
            0,
            0,
            6,
            2,
            0,
            0,
            0,
            6,
            2,
            12,
            0,
            0,
            0,
            0,
            6,
            0,
        ];
    let kinds: [DspFieldKind; 32] = [
            DspFieldKind::Bool,
            DspFieldKind::Hz,
            DspFieldKind::Db,
            DspFieldKind::Bool,
            DspFieldKind::Bool,
            DspFieldKind::Hz,
            DspFieldKind::Db,
            DspFieldKind::Raw,
            DspFieldKind::EqType,
            DspFieldKind::Bool,
            DspFieldKind::Hz,
            DspFieldKind::Db,
            DspFieldKind::Raw,
            DspFieldKind::EqType,
            DspFieldKind::Bool,
            DspFieldKind::Hz,
            DspFieldKind::Db,
            DspFieldKind::Raw,
            DspFieldKind::EqType,
            DspFieldKind::Bool,
            DspFieldKind::Hz,
            DspFieldKind::Db,
            DspFieldKind::Raw,
            DspFieldKind::EqType,
            DspFieldKind::Bool,
            DspFieldKind::Ratio,
            DspFieldKind::Ms,
            DspFieldKind::Ms,
            DspFieldKind::Db,
            DspFieldKind::Db,
            DspFieldKind::Knee,
            DspFieldKind::Percent,
        ];
    let defaults: [u64; 32] = [
            0,
            0,
            F64_INPUT_GAIN_UNITY_BITS,
            0,
            0,
            F64_HALF_BITS,
            F64_HALF_BITS,
            F64_HALF_BITS,
            0,
            0,
            F64_HALF_BITS,
            F64_HALF_BITS,
            F64_HALF_BITS,
            0,
            0,
            F64_HALF_BITS,
            F64_HALF_BITS,
            F64_HALF_BITS,
            0,
            0,
            F64_HALF_BITS,
            F64_HALF_BITS,
            F64_HALF_BITS,
            0,
            0,
            0,
            0,
            0,
            0,
            0,
            0,
            0,
        ];
    let keys = DSP_FIELD_NAMES;
    assert(forall|j: int| 0 <= j < 32 ==> #[trigger] keys@[j]@ == dsp_field_keys()[j]);
    assert(forall|j: int| 0 <= j < 32 ==> #[trigger] titles@[j]@ == dsp_field_titles()[j]);
    assert(quantisations@ == dsp_field_quantisations());
    assert(kinds@ == dsp_field_kinds());
    assert(defaults@ == dsp_field_defaults());
    let mut i: usize = 0;
    while i < 32
        invariant
            i <= 32,
            forall|j: int| 0 <= j < 32 ==> #[trigger] keys@[j]@ == dsp_field_keys()[j],
            forall|j: int| 0 <= j < 32 ==> #[trigger] titles@[j]@ == dsp_field_titles()[j],
            quantisations@ == dsp_field_quantisations(),
            kinds@ == dsp_field_kinds(),
            defaults@ == dsp_field_defaults(),
            forall|j: int| 0 <= j < i ==> dsp_field_keys()[j] != field@,
        decreases 32 - i,
    {
        if str_eq(keys[i], field) {
            proof {
                let k = choose|k: int| 0 <= k < 32 && dsp_field_keys()[k] == field@
                    && forall|j: int| 0 <= j < k ==> dsp_field_keys()[j] != field@;
                assert(k == i as int) by {
                    if k > i {
                        assert(dsp_field_keys()[i as int] == field@);
                    }
                }
            }
            return Some(DspFieldMeta {
                name: titles[i],
                quantisation: quantisations[i],
                kind: kinds[i],
                default_value_bits: defaults[i],
            });
        }
        i = i + 1;
    }
    None
}

} // verus!
