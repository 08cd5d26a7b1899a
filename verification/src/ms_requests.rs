//! The Mixing Station console-data requests the bridge sends: which parameters it
//! subscribes to, which values it re-reads after a connect or a mode change, and the
//! WebSocket message of each request.

use crate::channel_data_message::MsFormat;
use crate::json::JsonValue;
use crate::midi_mixer_dispatch::{channel_path, channel_path_exec, send_suffix, send_suffix_exec};
use crate::runtime_rules::{format_name, ms_format_name};
use crate::text::{append_chars, chars_of, concat_strs, concat_views, owned, string_from_chars};
use vstd::prelude::*;

verus! {

/// What a console-data request asks for.
#[derive(Debug, Clone, Copy, PartialEq, Eq, Structural)]
pub enum MsRequestKind {
    Subscribe,
    Unsubscribe,
    Get,
}

/// One console-data request: its kind, the parameter path and the value format.
#[derive(Debug)]
pub struct MsRequest {
    pub kind: MsRequestKind,
    pub path: String,
    pub format: MsFormat,
}

/// A request by its kind, path text and format.
pub type MsRequestView = (MsRequestKind, Seq<char>, MsFormat);

pub open spec fn requests_view(s: Seq<MsRequest>) -> Seq<MsRequestView> {
    s.map_values(|r: MsRequest| (r.kind, r.path@, r.format))
}

/// The channel parameters the bridge follows on every channel, first the mixer ones...
pub const MIXER_PARAM_SUFFIXES: [&'static str; 7] = ["cfg.name", "cfg.color", "mix.lvl", "mix.pan", "solo", "mix.on", "selected"];

/// ...with their formats.
pub const MIXER_PARAM_FORMATS: [MsFormat; 7] = [
    MsFormat::Val, MsFormat::Val, MsFormat::Val, MsFormat::Norm, MsFormat::Val, MsFormat::Val, MsFormat::Val,
];

/// Then the Filter/EQ/Compressor ones, which are also re-read after every connect...
pub const DSP_PARAM_SUFFIXES: [&'static str; 48] = [
    "preamp.filter.0.on", "preamp.filter.0.freq", "preamp.filter.0.freq", "headamp.gain", "preamp.inv", "peq.on",
    "peq.bands.0.freq", "peq.bands.0.freq", "peq.bands.0.gain", "peq.bands.0.gain", "peq.bands.0.q", "peq.bands.0.q", "peq.bands.0.type",
    "peq.bands.1.freq", "peq.bands.1.freq", "peq.bands.1.gain", "peq.bands.1.gain", "peq.bands.1.q", "peq.bands.1.q", "peq.bands.1.type",
    "peq.bands.2.freq", "peq.bands.2.freq", "peq.bands.2.gain", "peq.bands.2.gain", "peq.bands.2.q", "peq.bands.2.q", "peq.bands.2.type",
    "peq.bands.3.freq", "peq.bands.3.freq", "peq.bands.3.gain", "peq.bands.3.gain", "peq.bands.3.q", "peq.bands.3.q", "peq.bands.3.type",
    "dyn.on", "dyn.ratio", "dyn.ratio", "dyn.attack", "dyn.attack", "dyn.release", "dyn.release",
    "dyn.gain", "dyn.gain", "dyn.thr", "dyn.thr", "dyn.knee", "dyn.knee", "dyn.mix",
];

/// ...with their formats: continuous parameters in both `norm` and `val`.
pub const DSP_PARAM_FORMATS: [MsFormat; 48] = [
    MsFormat::Val, MsFormat::Norm, MsFormat::Val, MsFormat::Val, MsFormat::Val, MsFormat::Val,
    MsFormat::Norm, MsFormat::Val, MsFormat::Norm, MsFormat::Val, MsFormat::Norm, MsFormat::Val, MsFormat::Val,
    MsFormat::Norm, MsFormat::Val, MsFormat::Norm, MsFormat::Val, MsFormat::Norm, MsFormat::Val, MsFormat::Val,
    MsFormat::Norm, MsFormat::Val, MsFormat::Norm, MsFormat::Val, MsFormat::Norm, MsFormat::Val, MsFormat::Val,
    MsFormat::Norm, MsFormat::Val, MsFormat::Norm, MsFormat::Val, MsFormat::Norm, MsFormat::Val, MsFormat::Val,
    MsFormat::Val, MsFormat::Norm, MsFormat::Val, MsFormat::Norm, MsFormat::Val, MsFormat::Norm, MsFormat::Val,
    MsFormat::Norm, MsFormat::Val, MsFormat::Norm, MsFormat::Val, MsFormat::Norm, MsFormat::Val, MsFormat::Norm,
];

/// `ch.*.<suffix>`: a parameter on every channel.
pub open spec fn wildcard_path(suffix: Seq<char>) -> Seq<char> {
    "ch.*."@ + suffix
}

/// The mixer parameters of [`MIXER_PARAM_SUFFIXES`].
pub open spec fn mixer_params() -> Seq<(Seq<char>, MsFormat)> {
    Seq::new(7, |k: int| (MIXER_PARAM_SUFFIXES@[k]@, MIXER_PARAM_FORMATS@[k]))
}

/// The DSP parameters of [`DSP_PARAM_SUFFIXES`].
pub open spec fn dsp_params() -> Seq<(Seq<char>, MsFormat)> {
    Seq::new(48, |k: int| (DSP_PARAM_SUFFIXES@[k]@, DSP_PARAM_FORMATS@[k]))
}

/// The level and switch of each mapped send, in Console 1 slot order.
pub open spec fn send_params(ms_index: Seq<usize>) -> Seq<(Seq<char>, MsFormat)> {
    Seq::new(2 * ms_index.len(), |k: int| if k % 2 == 0 {
        (send_suffix(ms_index[k / 2], "lvl"@), MsFormat::Val)
    } else {
        (send_suffix(ms_index[k / 2], "on"@), MsFormat::Val)
    })
}

/// Subscriptions to each of `params` on every channel.
pub open spec fn wildcard_subscriptions(params: Seq<(Seq<char>, MsFormat)>) -> Seq<MsRequestView> {
    params.map_values(|p: (Seq<char>, MsFormat)| (MsRequestKind::Subscribe, wildcard_path(p.0), p.1))
}

/// Everything the bridge subscribes to after a connect: the mixer parameters, the level
/// and switch of each mapped send, then the DSP parameters, all on every channel.
pub open spec fn required_subscriptions(ms_index: Seq<usize>) -> Seq<MsRequestView> {
    wildcard_subscriptions(mixer_params() + send_params(ms_index) + dsp_params())
}

fn push_request(out: &mut Vec<MsRequest>, kind: MsRequestKind, path: String, format: MsFormat)
    ensures
        requests_view(final(out)@) == requests_view(old(out)@).push((kind, path@, format)),
{
    let ghost p = path@;
    out.push(MsRequest { kind, path, format });
    assert(requests_view(final(out)@) =~= requests_view(old(out)@).push((kind, p, format)));
}

fn wildcard_path_exec(suffix: &str) -> (res: String)
    ensures
        res@ == wildcard_path(suffix@),
{
    let mut out = chars_of("ch.*.");
    let s = chars_of(suffix);
    append_chars(&mut out, s.as_slice());
    string_from_chars(out.as_slice())
}

fn push_subscriptions(out: &mut Vec<MsRequest>, suffixes: &[&'static str], formats: &[MsFormat])
    requires
        suffixes@.len() == formats@.len(),
    ensures
        requests_view(final(out)@) == requests_view(old(out)@) + wildcard_subscriptions(
            Seq::new(suffixes@.len(), |k: int| (suffixes@[k]@, formats@[k]))),
{
    let ghost start = requests_view(out@);
    let ghost params = Seq::new(suffixes@.len(), |k: int| (suffixes@[k]@, formats@[k]));
    let mut i: usize = 0;
    while i < suffixes.len()
        invariant
            i <= suffixes@.len(),
            suffixes@.len() == formats@.len(),
            params == Seq::new(suffixes@.len(), |k: int| (suffixes@[k]@, formats@[k])),
            requests_view(out@) == start + wildcard_subscriptions(params.subrange(0, i as int)),
        decreases suffixes.len() - i,
    {
        let path = wildcard_path_exec(suffixes[i]);
        push_request(out, MsRequestKind::Subscribe, path, formats[i]);
        assert(wildcard_subscriptions(params.subrange(0, i + 1)) =~= wildcard_subscriptions(params.subrange(0, i as int))
            .push((MsRequestKind::Subscribe, wildcard_path(suffixes@[i as int]@), formats@[i as int])));
        i = i + 1;
    }
    assert(params.subrange(0, suffixes@.len() as int) =~= params);
}

/// The subscriptions the bridge opens after every connect (see
/// [`required_subscriptions`]), for the Console 1 sends mapped to `c1_to_ms_send_index`.
pub fn required_channel_subscriptions(c1_to_ms_send_index: &[usize; 6]) -> (res: Vec<MsRequest>)
    ensures
        requests_view(res@) == required_subscriptions(c1_to_ms_send_index@),
{
    let mut out: Vec<MsRequest> = Vec::new();
    let mixer_suffixes = MIXER_PARAM_SUFFIXES;
    let mixer_formats = MIXER_PARAM_FORMATS;
    push_subscriptions(&mut out, mixer_suffixes.as_slice(), mixer_formats.as_slice());
    assert(Seq::new(7, |k: int| (mixer_suffixes@[k]@, mixer_formats@[k])) =~= mixer_params());
    let ghost after_mixer = requests_view(out@);
    let ghost idx = c1_to_ms_send_index@;
    let mut i: usize = 0;
    while i < 6
        invariant
            i <= 6,
            idx == c1_to_ms_send_index@,
            idx.len() == 6,
            after_mixer == wildcard_subscriptions(mixer_params()),
            requests_view(out@) == after_mixer + wildcard_subscriptions(send_params(idx).subrange(0, 2 * i)),
        decreases 6 - i,
    {
        let ms = c1_to_ms_send_index[i];
        let lvl = send_suffix_exec(ms, "lvl");
        let on = send_suffix_exec(ms, "on");
        push_request(&mut out, MsRequestKind::Subscribe, wildcard_path_exec(lvl.as_str()), MsFormat::Val);
        push_request(&mut out, MsRequestKind::Subscribe, wildcard_path_exec(on.as_str()), MsFormat::Val);
        proof {
            let sp = send_params(idx);
            assert(sp[2 * i as int] == (send_suffix(ms, "lvl"@), MsFormat::Val));
            assert(sp[2 * i + 1] == (send_suffix(ms, "on"@), MsFormat::Val));
            assert(wildcard_subscriptions(sp.subrange(0, 2 * (i + 1))) =~= wildcard_subscriptions(sp.subrange(0, 2 * i))
                .push((MsRequestKind::Subscribe, wildcard_path(send_suffix(ms, "lvl"@)), MsFormat::Val))
                .push((MsRequestKind::Subscribe, wildcard_path(send_suffix(ms, "on"@)), MsFormat::Val)));
        }
        i = i + 1;
    }
    assert(send_params(idx).subrange(0, 12) =~= send_params(idx));
    let ghost after_sends = requests_view(out@);
    let dsp_suffixes = DSP_PARAM_SUFFIXES;
    let dsp_formats = DSP_PARAM_FORMATS;
    push_subscriptions(&mut out, dsp_suffixes.as_slice(), dsp_formats.as_slice());
    assert(Seq::new(48, |k: int| (dsp_suffixes@[k]@, dsp_formats@[k])) =~= dsp_params());
    assert(requests_view(out@) =~= required_subscriptions(idx)) by {
        let a = mixer_params();
        let b = send_params(idx);
        let c = dsp_params();
        assert(wildcard_subscriptions(a + b + c) =~= wildcard_subscriptions(a) + wildcard_subscriptions(b)
            + wildcard_subscriptions(c));
    }
    out
}

/// Reads of each of `params` on channel `ch`.
pub open spec fn channel_gets(ch: usize, params: Seq<(Seq<char>, MsFormat)>) -> Seq<MsRequestView> {
    params.map_values(|p: (Seq<char>, MsFormat)| (MsRequestKind::Get, channel_path(ch, p.0), p.1))
}

/// Reads of every DSP parameter on each of `chs`, channel by channel.
pub open spec fn dsp_refresh(chs: Seq<usize>) -> Seq<MsRequestView>
    decreases chs.len(),
{
    if chs.len() == 0 {
        Seq::empty()
    } else {
        dsp_refresh(chs.drop_last()) + channel_gets(chs.last(), dsp_params())
    }
}

/// The one-shot reads of every DSP parameter on each of `channels` that follow a connect
/// (subscribing alone does not push the current values).
pub fn dsp_refresh_requests(channels: &[usize]) -> (res: Vec<MsRequest>)
    ensures
        requests_view(res@) == dsp_refresh(channels@),
{
    let mut out: Vec<MsRequest> = Vec::new();
    let suffixes = DSP_PARAM_SUFFIXES;
    let formats = DSP_PARAM_FORMATS;
    let mut c: usize = 0;
    while c < channels.len()
        invariant
            c <= channels@.len(),
            suffixes == DSP_PARAM_SUFFIXES,
            formats == DSP_PARAM_FORMATS,
            requests_view(out@) == dsp_refresh(channels@.subrange(0, c as int)),
        decreases channels.len() - c,
    {
        let ch = channels[c];
        let ghost before = requests_view(out@);
        let mut k: usize = 0;
        while k < 48
            invariant
                k <= 48,
                suffixes == DSP_PARAM_SUFFIXES,
                formats == DSP_PARAM_FORMATS,
                requests_view(out@) == before + channel_gets(ch, dsp_params().subrange(0, k as int)),
            decreases 48 - k,
        {
            let sfx = chars_of(suffixes[k]);
            let path = channel_path_exec(ch, sfx.as_slice());
            push_request(&mut out, MsRequestKind::Get, path, formats[k]);
            assert(channel_gets(ch, dsp_params().subrange(0, k + 1)) =~= channel_gets(ch, dsp_params().subrange(0, k as int))
                .push((MsRequestKind::Get, channel_path(ch, suffixes@[k as int]@), formats@[k as int])));
            k = k + 1;
        }
        proof {
            assert(dsp_params().subrange(0, 48) =~= dsp_params());
            let s = channels@.subrange(0, c + 1);
            assert(s.drop_last() =~= channels@.subrange(0, c as int));
            assert(s.last() == ch);
        }
        c = c + 1;
    }
    assert(channels@.subrange(0, channels@.len() as int) =~= channels@);
    out
}

/// The channels whose DSP values are re-read after a connect: the inputs `0..input_count`,
/// the buses `bus_start..bus_start + bus_count`, then the main channels.
pub open spec fn refresh_channels(input_count: usize, bus_start: usize, bus_count: usize, main: Seq<usize>) -> Seq<usize> {
    Seq::new(input_count as nat, |i: int| i as usize) + Seq::new(bus_count as nat, |i: int| (bus_start + i) as usize) + main
}

/// The channel list of [`refresh_channels`].
pub fn dsp_refresh_channels(input_count: usize, bus_start: usize, bus_count: usize, main: &[usize]) -> (res: Vec<usize>)
    requires
        bus_start + bus_count <= usize::MAX,
    ensures
        res@ == refresh_channels(input_count, bus_start, bus_count, main@),
{
    let mut out: Vec<usize> = Vec::new();
    let mut i: usize = 0;
    while i < input_count
        invariant
            i <= input_count,
            out@ == Seq::new(i as nat, |j: int| j as usize),
        decreases input_count - i,
    {
        out.push(i);
        assert(out@ =~= Seq::new((i + 1) as nat, |j: int| j as usize));
        i = i + 1;
    }
    let ghost inputs = out@;
    let mut b: usize = 0;
    while b < bus_count
        invariant
            b <= bus_count,
            bus_start + bus_count <= usize::MAX,
            inputs == Seq::new(input_count as nat, |j: int| j as usize),
            out@ == inputs + Seq::new(b as nat, |j: int| (bus_start + j) as usize),
        decreases bus_count - b,
    {
        out.push(bus_start + b);
        assert(out@ =~= inputs + Seq::new((b + 1) as nat, |j: int| (bus_start + j) as usize));
        b = b + 1;
    }
    let ghost before_main = out@;
    let mut m: usize = 0;
    while m < main.len()
        invariant
            m <= main@.len(),
            out@ == before_main + main@.subrange(0, m as int),
        decreases main.len() - m,
    {
        out.push(main[m]);
        assert(out@ =~= before_main + main@.subrange(0, m + 1));
        m = m + 1;
    }
    assert(main@.subrange(0, main@.len() as int) =~= main@);
    out
}

/// The requests of a sends-mode change: the subscriptions of the previously subscribed
/// send (`previous`) are closed; entering sends mode on send `next` subscribes to its
/// switch and pan and re-reads them on each input channel; leaving it re-reads each input
/// channel's own switch and pan.
pub open spec fn sends_mode_change(previous: Option<usize>, next: Option<usize>, input_count: usize) -> Seq<MsRequestView> {
    let close = match previous {
        Some(p) => seq![
            (MsRequestKind::Unsubscribe, wildcard_path(send_suffix(p, "on"@)), MsFormat::Val),
            (MsRequestKind::Unsubscribe, wildcard_path(send_suffix(p, "pan"@)), MsFormat::Norm),
        ],
        None => Seq::empty(),
    };
    close + match next {
        Some(s) => seq![
            (MsRequestKind::Subscribe, wildcard_path(send_suffix(s, "on"@)), MsFormat::Val),
            (MsRequestKind::Subscribe, wildcard_path(send_suffix(s, "pan"@)), MsFormat::Norm),
        ] + Seq::new(2 * input_count as nat, |k: int| if k % 2 == 0 {
            (MsRequestKind::Get, channel_path((k / 2) as usize, send_suffix(s, "on"@)), MsFormat::Val)
        } else {
            (MsRequestKind::Get, channel_path((k / 2) as usize, send_suffix(s, "pan"@)), MsFormat::Norm)
        }),
        None => Seq::new(2 * input_count as nat, |k: int| if k % 2 == 0 {
            (MsRequestKind::Get, channel_path((k / 2) as usize, "mix.on"@), MsFormat::Val)
        } else {
            (MsRequestKind::Get, channel_path((k / 2) as usize, "mix.pan"@), MsFormat::Norm)
        }),
    }
}

/// The requests of a sends-mode change (see [`sends_mode_change`]).
pub fn sends_mode_requests(previous: Option<usize>, next: Option<usize>, input_channel_count: usize) -> (res: Vec<MsRequest>)
    requires
        2 * input_channel_count <= usize::MAX,
    ensures
        requests_view(res@) == sends_mode_change(previous, next, input_channel_count),
{
    let mut out: Vec<MsRequest> = Vec::new();
    if let Some(p) = previous {
        let on = send_suffix_exec(p, "on");
        let pan = send_suffix_exec(p, "pan");
        push_request(&mut out, MsRequestKind::Unsubscribe, wildcard_path_exec(on.as_str()), MsFormat::Val);
        push_request(&mut out, MsRequestKind::Unsubscribe, wildcard_path_exec(pan.as_str()), MsFormat::Norm);
    }
    let ghost close = requests_view(out@);
    let (on_suffix, pan_suffix) = match next {
        Some(s) => {
            let on = send_suffix_exec(s, "on");
            let pan = send_suffix_exec(s, "pan");
            push_request(&mut out, MsRequestKind::Subscribe, wildcard_path_exec(on.as_str()), MsFormat::Val);
            push_request(&mut out, MsRequestKind::Subscribe, wildcard_path_exec(pan.as_str()), MsFormat::Norm);
            (on, pan)
        },
        None => (owned("mix.on"), owned("mix.pan")),
    };
    let ghost head = requests_view(out@);
    let on_chars = chars_of(on_suffix.as_str());
    let pan_chars = chars_of(pan_suffix.as_str());
    let ghost gets = Seq::new(2 * input_channel_count as nat, |k: int| if k % 2 == 0 {
        (MsRequestKind::Get, channel_path((k / 2) as usize, on_suffix@), MsFormat::Val)
    } else {
        (MsRequestKind::Get, channel_path((k / 2) as usize, pan_suffix@), MsFormat::Norm)
    });
    let mut ch: usize = 0;
    while ch < input_channel_count
        invariant
            ch <= input_channel_count,
            2 * input_channel_count <= usize::MAX,
            on_chars@ == on_suffix@,
            pan_chars@ == pan_suffix@,
            gets == Seq::new(2 * input_channel_count as nat, |k: int| if k % 2 == 0 {
                (MsRequestKind::Get, channel_path((k / 2) as usize, on_suffix@), MsFormat::Val)
            } else {
                (MsRequestKind::Get, channel_path((k / 2) as usize, pan_suffix@), MsFormat::Norm)
            }),
            requests_view(out@) == head + gets.subrange(0, 2 * ch),
        decreases input_channel_count - ch,
    {
        let on_path = channel_path_exec(ch, on_chars.as_slice());
        let pan_path = channel_path_exec(ch, pan_chars.as_slice());
        push_request(&mut out, MsRequestKind::Get, on_path, MsFormat::Val);
        push_request(&mut out, MsRequestKind::Get, pan_path, MsFormat::Norm);
        proof {
            assert((2 * ch as int) / 2 == ch as int);
            assert((2 * ch as int + 1) / 2 == ch as int);
            assert(gets.subrange(0, 2 * (ch + 1)) =~= gets.subrange(0, 2 * ch)
                .push(gets[2 * ch as int]).push(gets[2 * ch + 1]));
        }
        ch = ch + 1;
    }
    proof {
        assert(gets.subrange(0, 2 * input_channel_count) =~= gets);
        reveal_strlit("mix.on");
        reveal_strlit("mix.pan");
        match next {
            Some(s) => {
                assert(requests_view(out@) =~= sends_mode_change(previous, next, input_channel_count));
            },
            None => {
                assert(requests_view(out@) =~= sends_mode_change(previous, next, input_channel_count));
            },
        }
    }
    out
}

/// `j` is the WebSocket message of request `r`: a subscription change is a `POST` to
/// `/console/data/subscribe` (or `unsubscribe`) with body `{path, format}`; a read is a
/// `GET` of `/console/data/get/<path>/<format>`.
pub open spec fn is_request_message(j: JsonValue, r: MsRequestView) -> bool {
    let (kind, path, format) = r;
    match kind {
        MsRequestKind::Get => {
            &&& j matches JsonValue::Object(m) && m@.len() == 2
            &&& j.spec_get("path"@) matches Some(JsonValue::Str(p)) && p@ == "/console/data/get/"@ + path + "/"@ + format_name(format)
            &&& j.spec_get("method"@) matches Some(JsonValue::Str(x)) && x@ == "GET"@
        },
        _ => {
            let endpoint = if kind == MsRequestKind::Subscribe { "/console/data/subscribe"@ } else { "/console/data/unsubscribe"@ };
            &&& j matches JsonValue::Object(m) && m@.len() == 3
            &&& j.spec_get("path"@) matches Some(JsonValue::Str(p)) && p@ == endpoint
            &&& j.spec_get("method"@) matches Some(JsonValue::Str(x)) && x@ == "POST"@
            &&& j.spec_get("body"@) matches Some(body)
            &&& body matches JsonValue::Object(bm) && bm@.len() == 2
            &&& body.spec_get("path"@) matches Some(JsonValue::Str(bp)) && bp@ == path
            &&& body.spec_get("format"@) matches Some(JsonValue::Str(bf)) && bf@ == format_name(format)
        },
    }
}

/// The WebSocket message of a request (see [`is_request_message`]).
pub fn ms_request_message(r: &MsRequest) -> (res: JsonValue)
    ensures
        is_request_message(res, (r.kind, r.path@, r.format)),
{
    let fmt = ms_format_name(r.format);
    proof {
        reveal_strlit("path");
        reveal_strlit("method");
        reveal_strlit("body");
        reveal_strlit("format");
        reveal_with_fuel(crate::json::member_value, 4);
        assert("path"@ != "method"@) by { assert("path"@.len() != "method"@.len()); }
        assert("path"@ != "body"@) by { assert("path"@[0] != "body"@[0]); }
        assert("method"@ != "body"@) by { assert("method"@.len() != "body"@.len()); }
        assert("path"@ != "format"@) by { assert("path"@.len() != "format"@.len()); }
    }
    match r.kind {
        MsRequestKind::Get => {
            let parts: Vec<&str> = vec!["/console/data/get/", r.path.as_str(), "/", fmt];
            let full = concat_strs(parts.as_slice());
            proof {
                assert(concat_views(parts@) =~= "/console/data/get/"@ + r.path@ + "/"@ + fmt@) by {
                    reveal_with_fuel(concat_views, 5);
                    assert(parts@.drop_last().drop_last().drop_last().drop_last() =~= Seq::<&str>::empty());
                }
            }
            let members = vec![(owned("path"), JsonValue::Str(full)), (owned("method"), JsonValue::Str(owned("GET")))];
            proof {
                reveal_strlit("GET");
                assert(members@.drop_first()[0] == members@[1]);
            }
            JsonValue::Object(members)
        },
        _ => {
            let endpoint = if r.kind == MsRequestKind::Subscribe { owned("/console/data/subscribe") } else { owned("/console/data/unsubscribe") };
            let body = JsonValue::Object(vec![
                (owned("path"), JsonValue::Str(r.path.clone())),
                (owned("format"), JsonValue::Str(owned(fmt))),
            ]);
            let members = vec![
                (owned("path"), JsonValue::Str(endpoint)),
                (owned("method"), JsonValue::Str(owned("POST"))),
                (owned("body"), body),
            ];
            proof {
                reveal_strlit("POST");
                assert(members@.drop_first()[0] == members@[1]);
                assert(members@.drop_first().drop_first()[0] == members@[2]);
            }
            JsonValue::Object(members)
        },
    }
}

} // verus!
