//! Bridge runtime configuration: the live settings, partial updates with change
//! detection, and the `LOG_JSON`-style boolean convention.

use crate::text::{chars_of, str_eq, string_from_chars, trim_chars, trim_seq, trim_str};
use vstd::prelude::*;
use vstd::string::*;

verus! {

/// One entry in a configured input/bus track order: a single channel/bus number, or a
/// `[left, right]` pair grouped into one stereo-linked Console 1 track.
#[derive(Debug, Clone, Copy, PartialEq, Eq, Structural)]
pub enum TrackOrderEntry {
    Single(i64),
    Pair(i64, i64),
}

/// Live, fully-resolved runtime configuration.
#[derive(Debug, Clone)]
pub struct RuntimeConfig {
    /// Mixing Station WebSocket URL, e.g. `ws://localhost:8080`.
    pub mixing_station_ws_url: String,
    /// Whether every WS/MIDI JSON payload gets logged.
    pub log_json: bool,
    /// Configured input-channel order (0-based MS channel indices).
    pub input_track_order: Vec<TrackOrderEntry>,
    /// Configured bus order (1-based bus numbers).
    pub bus_track_order: Vec<TrackOrderEntry>,
    /// Console 1's 6 sends mapped onto 1-based Mixing Station bus numbers.
    pub c1_send_to_ms_bus_number: Vec<i64>,
    /// Metering2 push interval in ms (30..=1000).
    pub metering2_interval_ms: u32,
    /// Console 1 display color for the Main bus, as 0xRRGGBB.
    pub console1_main_color: u32,
    /// Console 1 display color for regular buses, as 0xRRGGBB.
    pub console1_bus_color: u32,
}

/// The mathematical content of a [`RuntimeConfig`].
pub struct RuntimeConfigView {
    pub mixing_station_ws_url: Seq<char>,
    pub log_json: bool,
    pub input_track_order: Seq<TrackOrderEntry>,
    pub bus_track_order: Seq<TrackOrderEntry>,
    pub c1_send_to_ms_bus_number: Seq<i64>,
    pub metering2_interval_ms: u32,
    pub console1_main_color: u32,
    pub console1_bus_color: u32,
}

impl View for RuntimeConfig {
    type V = RuntimeConfigView;

    open spec fn view(&self) -> RuntimeConfigView {
        RuntimeConfigView {
            mixing_station_ws_url: self.mixing_station_ws_url@,
            log_json: self.log_json,
            input_track_order: self.input_track_order@,
            bus_track_order: self.bus_track_order@,
            c1_send_to_ms_bus_number: self.c1_send_to_ms_bus_number@,
            metering2_interval_ms: self.metering2_interval_ms,
            console1_main_color: self.console1_main_color,
            console1_bus_color: self.console1_bus_color,
        }
    }
}

/// The default Mixing Station URL.
pub open spec fn default_ws_url() -> Seq<char> {
    seq!['w', 's', ':', '/', '/', 'l', 'o', 'c', 'a', 'l', 'h', 'o', 's', 't', ':', '8', '0', '8', '0']
}

/// The configuration the bridge starts from when nothing overrides it.
pub open spec fn default_config_view() -> RuntimeConfigView {
    RuntimeConfigView {
        mixing_station_ws_url: default_ws_url(),
        log_json: false,
        input_track_order: Seq::empty(),
        bus_track_order: Seq::empty(),
        c1_send_to_ms_bus_number: Seq::empty(),
        metering2_interval_ms: 100,
        console1_main_color: 0x00a5ff,
        console1_bus_color: 0x800080,
    }
}

fn default_ws_url_string() -> (res: String)
    ensures
        res@ == default_ws_url(),
{
    let v: Vec<char> = vec!['w', 's', ':', '/', '/', 'l', 'o', 'c', 'a', 'l', 'h', 'o', 's', 't', ':', '8', '0', '8', '0'];
    assert(v@ == default_ws_url());
    string_from_chars(v.as_slice())
}

impl Default for RuntimeConfig {
    fn default() -> (res: Self)
        ensures
            res@ == default_config_view(),
    {
        RuntimeConfig {
            mixing_station_ws_url: default_ws_url_string(),
            log_json: false,
            input_track_order: Vec::new(),
            bus_track_order: Vec::new(),
            c1_send_to_ms_bus_number: Vec::new(),
            metering2_interval_ms: 100,
            console1_main_color: 0x00a5ff,
            console1_bus_color: 0x800080,
        }
    }
}

fn same_entries(a: &Vec<TrackOrderEntry>, b: &Vec<TrackOrderEntry>) -> (res: bool)
    ensures
        res == (a@ == b@),
{
    if a.len() != b.len() {
        return false;
    }
    let mut i: usize = 0;
    while i < a.len()
        invariant
            a@.len() == b@.len(),
            i <= a@.len(),
            forall|k: int| 0 <= k < i ==> a@[k] == b@[k],
        decreases a.len() - i,
    {
        if a[i] != b[i] {
            return false;
        }
        i = i + 1;
    }
    assert(a@ =~= b@);
    true
}

fn same_i64s(a: &Vec<i64>, b: &Vec<i64>) -> (res: bool)
    ensures
        res == (a@ == b@),
{
    if a.len() != b.len() {
        return false;
    }
    let mut i: usize = 0;
    while i < a.len()
        invariant
            a@.len() == b@.len(),
            i <= a@.len(),
            forall|k: int| 0 <= k < i ==> a@[k] == b@[k],
        decreases a.len() - i,
    {
        if a[i] != b[i] {
            return false;
        }
        i = i + 1;
    }
    assert(a@ =~= b@);
    true
}

impl RuntimeConfig {
    /// Whether two configurations hold the same settings.
    pub fn same_as(&self, other: &RuntimeConfig) -> (res: bool)
        ensures
            res == (self@ == other@),
    {
        str_eq(self.mixing_station_ws_url.as_str(), other.mixing_station_ws_url.as_str())
            && self.log_json == other.log_json
            && same_entries(&self.input_track_order, &other.input_track_order)
            && same_entries(&self.bus_track_order, &other.bus_track_order)
            && same_i64s(&self.c1_send_to_ms_bus_number, &other.c1_send_to_ms_bus_number)
            && self.metering2_interval_ms == other.metering2_interval_ms
            && self.console1_main_color == other.console1_main_color
            && self.console1_bus_color == other.console1_bus_color
    }
}

/// A partial configuration update: `None` leaves a setting unchanged.
///
/// `metering2_interval_ms` holds the interval already clamped into 30..=1000 ms (and
/// truncated); a raw value that was absent or not finite is `None`.
#[derive(Debug, Clone)]
pub struct BridgeConfigPatch {
    pub mixing_station_ws_url: Option<String>,
    pub log_json: Option<bool>,
    pub input_track_order: Option<Vec<TrackOrderEntry>>,
    pub bus_track_order: Option<Vec<TrackOrderEntry>>,
    pub c1_send_to_ms_bus_number: Option<Vec<i64>>,
    pub metering2_interval_ms: Option<u32>,
    pub console1_main_color: Option<u32>,
    pub console1_bus_color: Option<u32>,
}

impl Default for BridgeConfigPatch {
    fn default() -> (res: Self)
        ensures
            res.mixing_station_ws_url is None,
            res.log_json is None,
            res.input_track_order is None,
            res.bus_track_order is None,
            res.c1_send_to_ms_bus_number is None,
            res.metering2_interval_ms is None,
            res.console1_main_color is None,
            res.console1_bus_color is None,
    {
        BridgeConfigPatch {
            mixing_station_ws_url: None,
            log_json: None,
            input_track_order: None,
            bus_track_order: None,
            c1_send_to_ms_bus_number: None,
            metering2_interval_ms: None,
            console1_main_color: None,
            console1_bus_color: None,
        }
    }
}

/// What changed as a result of applying a patch.
#[derive(Debug)]
pub struct ConfigApplyResult {
    /// Whether `mixing_station_ws_url` specifically changed.
    pub url_changed: bool,
    /// Whether any field changed at all.
    pub anything_changed: bool,
}

/// The configuration that results from applying `patch` to `c`: each present field
/// replaces the current one, except a URL that is blank once trimmed, which is ignored;
/// a kept URL is stored trimmed.
pub open spec fn patched_config(c: RuntimeConfigView, patch: BridgeConfigPatch) -> RuntimeConfigView {
    RuntimeConfigView {
        mixing_station_ws_url: match patch.mixing_station_ws_url {
            Some(u) => if trim_seq(u@).len() > 0 { trim_seq(u@) } else { c.mixing_station_ws_url },
            None => c.mixing_station_ws_url,
        },
        log_json: match patch.log_json {
            Some(v) => v,
            None => c.log_json,
        },
        input_track_order: match patch.input_track_order {
            Some(v) => v@,
            None => c.input_track_order,
        },
        bus_track_order: match patch.bus_track_order {
            Some(v) => v@,
            None => c.bus_track_order,
        },
        c1_send_to_ms_bus_number: match patch.c1_send_to_ms_bus_number {
            Some(v) => v@,
            None => c.c1_send_to_ms_bus_number,
        },
        metering2_interval_ms: match patch.metering2_interval_ms {
            Some(v) => v,
            None => c.metering2_interval_ms,
        },
        console1_main_color: match patch.console1_main_color {
            Some(v) => v,
            None => c.console1_main_color,
        },
        console1_bus_color: match patch.console1_bus_color {
            Some(v) => v,
            None => c.console1_bus_color,
        },
    }
}

/// Apply a patch's present fields onto a live config, returning what changed.
pub fn apply_patch(config: &mut RuntimeConfig, patch: &BridgeConfigPatch) -> (res: ConfigApplyResult)
    ensures
        final(config)@ == patched_config(old(config)@, *patch),
        res.url_changed == (final(config)@.mixing_station_ws_url != old(config)@.mixing_station_ws_url),
        res.anything_changed == (final(config)@ != old(config)@),
{
    let ghost old_view = config@;
    let mut url_changed = false;
    let mut anything_changed = false;
    if let Some(url) = &patch.mixing_station_ws_url {
        let trimmed = trim_str(url.as_str());
        if trimmed.unicode_len() > 0 {
            url_changed = !str_eq(config.mixing_station_ws_url.as_str(), trimmed.as_str());
            config.mixing_station_ws_url = trimmed;
        }
    }
    anything_changed = anything_changed || url_changed;
    if let Some(v) = patch.log_json {
        anything_changed = anything_changed || config.log_json != v;
        config.log_json = v;
    }
    if let Some(v) = &patch.input_track_order {
        anything_changed = anything_changed || !same_entries(&config.input_track_order, v);
        config.input_track_order = v.clone();
    }
    if let Some(v) = &patch.bus_track_order {
        anything_changed = anything_changed || !same_entries(&config.bus_track_order, v);
        config.bus_track_order = v.clone();
    }
    if let Some(v) = &patch.c1_send_to_ms_bus_number {
        anything_changed = anything_changed || !same_i64s(&config.c1_send_to_ms_bus_number, v);
        config.c1_send_to_ms_bus_number = v.clone();
    }
    if let Some(v) = patch.metering2_interval_ms {
        anything_changed = anything_changed || config.metering2_interval_ms != v;
        config.metering2_interval_ms = v;
    }
    if let Some(v) = patch.console1_main_color {
        anything_changed = anything_changed || config.console1_main_color != v;
        config.console1_main_color = v;
    }
    if let Some(v) = patch.console1_bus_color {
        anything_changed = anything_changed || config.console1_bus_color != v;
        config.console1_bus_color = v;
    }
    proof {
        let nv = config@;
        if !anything_changed {
            assert(nv.input_track_order =~= old_view.input_track_order);
            assert(nv.bus_track_order =~= old_view.bus_track_order);
            assert(nv.c1_send_to_ms_bus_number =~= old_view.c1_send_to_ms_bus_number);
            assert(nv.mixing_station_ws_url =~= old_view.mixing_station_ws_url);
            assert(nv == old_view);
        }
    }
    ConfigApplyResult { url_changed, anything_changed }
}

/// What std's `str::to_lowercase` returns for `s` (full Unicode lowercase mapping).
pub uninterp spec fn lowercase_of(s: Seq<char>) -> Seq<char>;

/// std's `str::to_lowercase`.
#[verifier::external_body]
pub(crate) fn to_lowercase_string(s: &str) -> (res: String)
    ensures
        res@ == lowercase_of(s@),
{
    s.to_lowercase()
}

/// The boolean a lowercased token stands for: `"1"`/`"true"` is true, `"0"`/`"false"`
/// is false, anything else is no boolean at all.
pub open spec fn bool_token_value(token: Seq<char>) -> Option<bool> {
    if token == seq!['1'] || token == seq!['t', 'r', 'u', 'e'] {
        Some(true)
    } else if token == seq!['0'] || token == seq!['f', 'a', 'l', 's', 'e'] {
        Some(false)
    } else {
        None
    }
}

/// Read an already trimmed and lowercased token under the `LOG_JSON` convention.
pub fn parse_bool_token(token: &str) -> (res: Option<bool>)
    ensures
        res == bool_token_value(token@),
{
    let t = chars_of(token);
    let one: Vec<char> = vec!['1'];
    let tr: Vec<char> = vec!['t', 'r', 'u', 'e'];
    let zero: Vec<char> = vec!['0'];
    let fa: Vec<char> = vec!['f', 'a', 'l', 's', 'e'];
    assert(one@ == seq!['1']);
    assert(tr@ == seq!['t', 'r', 'u', 'e']);
    assert(zero@ == seq!['0']);
    assert(fa@ == seq!['f', 'a', 'l', 's', 'e']);
    if crate::text::chars_eq(t.as_slice(), one.as_slice()) || crate::text::chars_eq(t.as_slice(), tr.as_slice()) {
        Some(true)
    } else if crate::text::chars_eq(t.as_slice(), zero.as_slice()) || crate::text::chars_eq(t.as_slice(), fa.as_slice()) {
        Some(false)
    } else {
        None
    }
}

/// Parse the `LOG_JSON` env var's string convention: trimmed and lowercased, `"1"`/`"true"`
/// gives `Some(true)`, `"0"`/`"false"` gives `Some(false)`, anything else `None`.
pub fn parse_bool_env(raw: &str) -> (res: Option<bool>)
    ensures
        res == bool_token_value(lowercase_of(trim_seq(raw@))),
{
    let trimmed = trim_str(raw);
    let lower = to_lowercase_string(trimmed.as_str());
    parse_bool_token(lower.as_str())
}

/// What std's `Path::join` gives for a directory and a relative file name, read back as
/// text.
pub uninterp spec fn joined_path(dir: Seq<char>, name: Seq<char>) -> Seq<char>;

/// std's `Path::join`, on paths given and returned as text.
#[verifier::external_body]
fn path_join(dir: &str, name: &str) -> (res: String)
    ensures
        res@ == joined_path(dir@, name@),
{
    std::path::Path::new(dir).join(name).to_string_lossy().into_owned()
}

/// The persisted config file's name.
pub open spec fn config_file_name() -> Seq<char> {
    seq!['b', 'r', 'i', 'd', 'g', 'e', '-', 'c', 'o', 'n', 'f', 'i', 'g', '.', 'j', 's', 'o', 'n']
}

/// The bridge's persisted config file path within an app config directory.
pub fn config_file_path(app_config_dir: &str) -> (res: String)
    ensures
        res@ == joined_path(app_config_dir@, config_file_name()),
{
    let name: Vec<char> = vec!['b', 'r', 'i', 'd', 'g', 'e', '-', 'c', 'o', 'n', 'f', 'i', 'g', '.', 'j', 's', 'o', 'n'];
    assert(name@ == config_file_name());
    let name_s = string_from_chars(name.as_slice());
    path_join(app_config_dir, name_s.as_str())
}

/// The startup configuration: the defaults, then the config file's patch, then the
/// `MIXING_STATION_WS_URL` override (trimmed; ignored when blank), then the `LOG_JSON`
/// override (ignored unless it reads as a boolean, see [`parse_bool_env`]).
pub open spec fn startup_config(
    file_patch: Option<BridgeConfigPatch>,
    ws_url_env: Option<Seq<char>>,
    log_json_env: Option<Seq<char>>,
) -> RuntimeConfigView {
    let c0 = default_config_view();
    let c1 = match file_patch {
        Some(p) => patched_config(c0, p),
        None => c0,
    };
    let c2 = match ws_url_env {
        Some(u) => if trim_seq(u).len() > 0 { RuntimeConfigView { mixing_station_ws_url: trim_seq(u), ..c1 } } else { c1 },
        None => c1,
    };
    match log_json_env {
        Some(raw) => match bool_token_value(lowercase_of(trim_seq(raw))) {
            Some(v) => RuntimeConfigView { log_json: v, ..c2 },
            None => c2,
        },
        None => c2,
    }
}

/// Builds the startup configuration from the config file's patch and the raw
/// `MIXING_STATION_WS_URL` / `LOG_JSON` values, if set ([`startup_config`]): environment
/// over file over defaults.
pub fn build_startup_config(
    file_patch: Option<BridgeConfigPatch>,
    ws_url_env: Option<String>,
    log_json_env: Option<String>,
) -> (res: RuntimeConfig)
    ensures
        res@ == startup_config(file_patch, match ws_url_env { Some(u) => Some(u@), None => None },
            match log_json_env { Some(r) => Some(r@), None => None }),
{
    let mut config = RuntimeConfig::default();
    if let Some(patch) = &file_patch {
        let _ = apply_patch(&mut config, patch);
    }
    if let Some(url) = &ws_url_env {
        let trimmed = trim_str(url.as_str());
        if trimmed.unicode_len() > 0 {
            config.mixing_station_ws_url = trimmed;
        }
    }
    if let Some(raw) = &log_json_env {
        if let Some(value) = parse_bool_env(raw.as_str()) {
            config.log_json = value;
        }
    }
    config
}

/// Applying a patch again right after applying it changes nothing (so the second
/// `apply_patch` reports nothing changed).
pub proof fn lemma_patch_idempotent(c: RuntimeConfigView, patch: BridgeConfigPatch)
    ensures
        patched_config(patched_config(c, patch), patch) == patched_config(c, patch),
{
}

/// A patch with no field set changes nothing.
pub proof fn lemma_empty_patch_changes_nothing(c: RuntimeConfigView, patch: BridgeConfigPatch)
    requires
        patch.mixing_station_ws_url is None,
        patch.log_json is None,
        patch.input_track_order is None,
        patch.bus_track_order is None,
        patch.c1_send_to_ms_bus_number is None,
        patch.metering2_interval_ms is None,
        patch.console1_main_color is None,
        patch.console1_bus_color is None,
    ensures
        patched_config(c, patch) == c,
{
}

} // verus!
