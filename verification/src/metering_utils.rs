//! Decoding of Mixing Station metering2 binary payloads: non-padded base64 text carrying
//! big-endian `i16` meter readings in hundredths of a dB, grouped evenly per subscribed
//! parameter. The per-parameter peak is kept as the raw reading; turning it into dB (a
//! division by 100) and into Console 1's meter range is floating-point work left to the
//! caller.

use crate::text::{owned, push_char};
use base64::Engine;
use vstd::prelude::*;
use vstd::string::*;

verus! {

/// What the standard base64 engine (RFC 4648 alphabet, padding required) decodes the
/// text `text` to, or `None` where it reports an error.
pub uninterp spec fn base64_decoded(text: Seq<char>) -> Option<Seq<u8>>;

/// Decodes `text` with base64's `STANDARD` engine (`Engine::decode`); an error becomes
/// `None`. The decoded bytes are named, not stated.
#[verifier::external_body]
fn standard_base64_decode(text: &str) -> (res: Option<Vec<u8>>)
    ensures
        match res {
            Some(b) => base64_decoded(text@) == Some(b@),
            None => base64_decoded(text@) is None,
        },
{
    base64::engine::general_purpose::STANDARD.decode(text).ok()
}

/// How many `=` bring a text of `byte_len` bytes to a multiple of 4.
pub open spec fn pad_count(byte_len: nat) -> nat {
    if byte_len % 4 == 0 { 0 } else { (4 - byte_len % 4) as nat }
}

/// `s` followed by the padding its byte length calls for.
pub open spec fn padded_text(s: Seq<char>, byte_len: nat) -> Seq<char> {
    s + Seq::new(pad_count(byte_len), |i: int| '=')
}

/// The bytes a non-padded base64 text stands for: the padded text decoded, or nothing
/// where it does not decode.
pub open spec fn non_padded_decoded(s: Seq<char>, byte_len: nat) -> Seq<u8> {
    match base64_decoded(padded_text(s, byte_len)) {
        Some(b) => b,
        None => Seq::empty(),
    }
}

/// Decodes a base64 text whose trailing `=` padding was stripped: it is padded back to a
/// multiple of 4 bytes and decoded; an undecodable text gives no bytes.
pub fn decode_non_padded_base64(s: &str) -> (res: Vec<u8>)
    ensures
        res@ == non_padded_decoded(s@, s.spec_bytes().len() as usize as nat),
{
    let rem = s.len() % 4;
    let pad: usize = if rem == 0 { 0 } else { 4 - rem };
    let mut padded = owned(s);
    let mut i: usize = 0;
    while i < pad
        invariant
            i <= pad,
            pad == pad_count(s.spec_bytes().len() as usize as nat),
            padded@ == s@ + Seq::new(i as nat, |k: int| '='),
        decreases pad - i,
    {
        push_char(&mut padded, '=');
        assert(s@ + Seq::new((i + 1) as nat, |k: int| '=') =~= (s@ + Seq::new(i as nat, |k: int| '=')).push('='));
        i = i + 1;
    }
    match standard_base64_decode(padded.as_str()) {
        Some(b) => b,
        None => Vec::new(),
    }
}

/// The `i`-th big-endian two's-complement `i16` of `buf`.
pub open spec fn sample_at(buf: Seq<u8>, i: int) -> int {
    let hi = buf[2 * i] as int;
    let lo = buf[2 * i + 1] as int;
    if hi < 128 { hi * 256 + lo } else { hi * 256 + lo - 65536 }
}

/// `m` is the largest of the `count` samples starting at sample `start`.
pub open spec fn is_group_peak(buf: Seq<u8>, start: int, count: int, m: int) -> bool {
    &&& exists|j: int| start <= j < start + count && #[trigger] sample_at(buf, j) == m
    &&& forall|j: int| start <= j < start + count ==> #[trigger] sample_at(buf, j) <= m
}

/// A decoded metering2 binary payload: how many samples each parameter carried, and
/// each parameter's peak sample in hundredths of a dB.
#[derive(Debug, Clone, PartialEq, Eq)]
pub struct MeteringDecodeResult {
    pub values_per_param: usize,
    pub max_centi_db_by_param: Vec<i16>,
}

/// The decode of the samples `buf` for `param_count` parameters: `None` unless the
/// count is positive, there is at least one sample, and the samples split evenly;
/// otherwise each parameter's peak over its own run of samples.
pub open spec fn is_samples_decode(buf: Seq<u8>, param_count: int, res: Option<MeteringDecodeResult>) -> bool {
    let total: int = buf.len() as int / 2;
    match res {
        None => param_count <= 0 || buf.len() < 2 || total % param_count != 0,
        Some(r) => {
            &&& param_count > 0 && buf.len() >= 2 && total % param_count == 0
            &&& r.values_per_param == total / param_count
            &&& r.max_centi_db_by_param@.len() == param_count
            &&& forall|p: int| 0 <= p < param_count ==> is_group_peak(
                buf,
                p * r.values_per_param,
                r.values_per_param as int,
                #[trigger] r.max_centi_db_by_param@[p] as int,
            )
        },
    }
}

fn read_sample(buf: &[u8], i: usize) -> (res: i16)
    requires
        2 * i + 1 < buf.len(),
    ensures
        res as int == sample_at(buf@, i as int),
{
    let hi = buf[2 * i];
    let lo = buf[2 * i + 1];
    if hi < 128 {
        (hi as i16) * 256 + (lo as i16)
    } else {
        ((hi as i16) - 256) * 256 + (lo as i16)
    }
}

/// Splits the samples of a decoded payload evenly over `param_count` parameters and
/// keeps each parameter's peak; see [`is_samples_decode`].
pub fn decode_metering2_samples(buf: &[u8], param_count: i64) -> (res: Option<MeteringDecodeResult>)
    ensures
        is_samples_decode(buf@, param_count as int, res),
{
    if param_count <= 0 || buf.len() < 2 {
        return None;
    }
    let total: usize = buf.len() / 2;
    let total_i: i64 = total as i64;
    if total_i % param_count != 0 {
        return None;
    }
    let vpp_i: i64 = total_i / param_count;
    assert(vpp_i >= 1 && param_count <= total_i) by (nonlinear_arith)
        requires
            total_i >= 1,
            param_count >= 1,
            total_i % param_count == 0,
            vpp_i == total_i / param_count,
    {
    }
    let vpp: usize = vpp_i as usize;
    let pc: usize = param_count as usize;
    assert(pc * vpp == total) by (nonlinear_arith)
        requires
            total_i % param_count == 0,
            vpp_i == total_i / param_count,
            param_count >= 1,
            pc == param_count,
            vpp == vpp_i,
            total == total_i,
    {
    }
    let mut maxes: Vec<i16> = Vec::new();
    let mut p: usize = 0;
    while p < pc
        invariant
            p <= pc,
            pc * vpp == total,
            vpp >= 1,
            total == buf@.len() / 2,
            maxes@.len() == p,
            forall|q: int| 0 <= q < p ==> is_group_peak(buf@, q * vpp, vpp as int, #[trigger] maxes@[q] as int),
        decreases pc - p,
    {
        assert((p + 1) * vpp <= total && p * vpp + vpp == (p + 1) * vpp) by (nonlinear_arith)
            requires
                p < pc,
                pc * vpp == total,
        {
        }
        let start = p * vpp;
        let mut m = read_sample(buf, start);
        let mut j: usize = 1;
        while j < vpp
            invariant
                1 <= j <= vpp,
                start + vpp <= total,
                total == buf@.len() / 2,
                exists|k: int| start <= k < start + j && #[trigger] sample_at(buf@, k) == m,
                forall|k: int| start <= k < start + j ==> #[trigger] sample_at(buf@, k) <= m,
            decreases vpp - j,
        {
            let x = read_sample(buf, start + j);
            if x > m {
                m = x;
            }
            j = j + 1;
        }
        maxes.push(m);
        p = p + 1;
    }
    Some(MeteringDecodeResult { values_per_param: vpp, max_centi_db_by_param: maxes })
}

/// Decodes a metering2 binary payload: the non-padded base64 text decoded, then its
/// samples split evenly over `param_count` parameters (see [`is_samples_decode`]).
pub fn decode_metering2_binary(b64: &str, param_count: i64) -> (res: Option<MeteringDecodeResult>)
    ensures
        param_count <= 0 ==> res is None,
        param_count > 0 ==> is_samples_decode(non_padded_decoded(b64@, b64.spec_bytes().len() as usize as nat), param_count as int, res),
{
    if param_count <= 0 {
        return None;
    }
    let buf = decode_non_padded_base64(b64);
    decode_metering2_samples(buf.as_slice(), param_count)
}

} // verus!
