//! The volume and microphone widgets: the audio daemon's status as the bar
//! shows it, what each widget event asks, and how device names are
//! shortened for display.

use vstd::prelude::*;
use crate::json::Json;
use crate::number::{decimal, parse_usize, spec_decimal, spec_parse_nat};
use crate::text::{
    chars_of, concat, contains, replace_all, spec_contains, spec_replace, spec_starts_with,
    spec_strip_prefix, spec_trim, spec_trim_start_matches, starts_with, str_is, string_of,
    strip_prefix, trim, trim_start_matches,
};

verus! {

broadcast use vstd::seq_lib::group_seq_properties;

/// One sink or source as the widget knows it; `id` is its position in the
/// daemon's list.
#[derive(Debug, Clone)]
pub struct AudioDev {
    pub id: usize,
    pub name: String,
    pub desc: String,
    pub is_default: bool,
    pub volume: u8,
    pub muted: bool,
}

/// The state of the volume and microphone widgets.
#[derive(Debug)]
pub struct AudioModule {
    pub volume: u8,
    pub muted: bool,
    pub mic_volume: u8,
    pub mic_muted: bool,
    pub active_sink: String,
    pub active_source: String,
    pub sinks: Vec<AudioDev>,
    pub sources: Vec<AudioDev>,
    pub initialized: bool,
}

impl Default for AudioModule {
    fn default() -> (r: AudioModule)
        ensures
            r.volume == 0 && !r.muted && r.mic_volume == 0 && !r.mic_muted,
            r.active_sink@.len() == 0 && r.active_source@.len() == 0,
            r.sinks@.len() == 0 && r.sources@.len() == 0,
            !r.initialized,
    {
        AudioModule {
            volume: 0,
            muted: false,
            mic_volume: 0,
            mic_muted: false,
            active_sink: String::new(),
            active_source: String::new(),
            sinks: Vec::new(),
            sources: Vec::new(),
            initialized: false,
        }
    }
}

/// The unsigned number `v` holds, else `d`, cut to a byte.
pub open spec fn u8_or(v: Option<Json>, d: u64) -> u8 {
    match v {
        Some(j) => match j.spec_as_u64() {
            Some(n) => n as u8,
            None => d as u8,
        },
        None => d as u8,
    }
}

pub open spec fn bool_or(v: Option<Json>, d: bool) -> bool {
    match v {
        Some(j) => match j.spec_as_bool() {
            Some(b) => b,
            None => d,
        },
        None => d,
    }
}

pub open spec fn str_or(v: Option<Json>, d: Seq<char>) -> Seq<char> {
    match v {
        Some(j) => match j.spec_as_str() {
            Some(s) => s,
            None => d,
        },
        None => d,
    }
}

fn u8_or_exec(v: Option<&Json>, d: u64) -> (r: u8)
    ensures
        r == u8_or(match v { Some(j) => Some(*j), None => None }, d),
{
    let n = match v {
        Some(j) => match j.as_u64() {
            Some(n) => n,
            None => d,
        },
        None => d,
    };
    n as u8
}

fn bool_or_exec(v: Option<&Json>, d: bool) -> (r: bool)
    ensures
        r == bool_or(match v { Some(j) => Some(*j), None => None }, d),
{
    match v {
        Some(j) => match j.as_bool() {
            Some(b) => b,
            None => d,
        },
        None => d,
    }
}

fn str_or_exec(v: Option<&Json>, d: &str) -> (r: String)
    ensures
        r@ == str_or(match v { Some(j) => Some(*j), None => None }, d@),
{
    match v {
        Some(j) => match j.as_str() {
            Some(s) => s.clone(),
            None => d.to_string(),
        },
        None => d.to_string(),
    }
}

/// `d` holds what the `i`-th entry `s` of a daemon list says.
pub open spec fn dev_matches(d: AudioDev, i: int, s: Json, vol: u64) -> bool {
    &&& d.id == i
    &&& d.name@ == str_or(s.spec_get("name"@), ""@)
    &&& d.desc@ == str_or(s.spec_get("description"@), ""@)
    &&& d.is_default == bool_or(s.spec_get("is_default"@), false)
    &&& d.volume == u8_or(s.spec_get("volume"@), vol)
    &&& d.muted == bool_or(s.spec_get("muted"@), false)
}

fn devs_from(arr: &Vec<Json>, vol: u64) -> (r: Vec<AudioDev>)
    ensures
        r@.len() == arr@.len(),
        forall|i: int| 0 <= i < arr@.len() ==> dev_matches(#[trigger] r@[i], i, arr@[i], vol),
{
    let mut out: Vec<AudioDev> = Vec::new();
    let mut i: usize = 0;
    while i < arr.len()
        invariant
            i <= arr.len(),
            out@.len() == i,
            forall|j: int| 0 <= j < i ==> dev_matches(#[trigger] out@[j], j, arr@[j], vol),
        decreases arr.len() - i,
    {
        let s = &arr[i];
        let d = AudioDev {
            id: i,
            name: str_or_exec(s.get("name"), ""),
            desc: str_or_exec(s.get("description"), ""),
            is_default: bool_or_exec(s.get("is_default"), false),
            volume: u8_or_exec(s.get("volume"), vol),
            muted: bool_or_exec(s.get("muted"), false),
        };
        assert(dev_matches(d, i as int, arr@[i as int], vol));
        out.push(d);
        assert(out@[i as int] == d);
        i = i + 1;
    }
    out
}

/// The text of the first of two members that is present, if it is a string.
pub open spec fn desc_or_name(status: Json, desc: Seq<char>, name: Seq<char>, d: Seq<char>) -> Seq<char> {
    let v = if status.spec_get(desc) is Some { status.spec_get(desc) } else { status.spec_get(name) };
    str_or(v, d)
}

/// The device list a status member holds, if it is an array.
pub open spec fn dev_list_ok(list: Seq<AudioDev>, arr: Option<Json>, vol: u64) -> bool {
    match arr {
        Some(Json::Array(a)) => list.len() == a@.len() && forall|i: int|
            0 <= i < a@.len() ==> dev_matches(#[trigger] list[i], i, a@[i], vol),
        _ => false,
    }
}

impl AudioModule {
    /// Takes in the audio daemon's status. A status with neither an active
    /// sink name nor a sink list is ignored and `false` returned; otherwise
    /// every field is read, with defaults for what is missing, a device
    /// list is replaced only when the status holds one, and `true` returned.
    pub fn apply_status(&mut self, status: &Json) -> (r: bool)
        ensures
            r == (status.spec_get("active_sink_name"@) is Some || status.spec_get("sinks"@) is Some),
            !r ==> *final(self) == *old(self),
            r ==> {
                &&& final(self).initialized
                &&& final(self).volume == u8_or(status.spec_get("volume"@), 50)
                &&& final(self).muted == bool_or(status.spec_get("muted"@), false)
                &&& final(self).active_sink@ == desc_or_name(*status, "active_sink_desc"@, "active_sink_name"@, "Default Output"@)
                &&& final(self).mic_volume == u8_or(status.spec_get("mic_volume"@), 100)
                &&& final(self).mic_muted == bool_or(status.spec_get("mic_muted"@), false)
                &&& final(self).active_source@ == desc_or_name(*status, "active_source_desc"@, "active_source_name"@, "Default Input"@)
                &&& if status.spec_get("sinks"@) matches Some(Json::Array(_)) {
                    dev_list_ok(final(self).sinks@, status.spec_get("sinks"@), 50)
                } else {
                    final(self).sinks@ == old(self).sinks@
                }
                &&& if status.spec_get("sources"@) matches Some(Json::Array(_)) {
                    dev_list_ok(final(self).sources@, status.spec_get("sources"@), 100)
                } else {
                    final(self).sources@ == old(self).sources@
                }
            },
    {
        if status.get("active_sink_name").is_none() && status.get("sinks").is_none() {
            return false;
        }
        self.initialized = true;
        self.volume = u8_or_exec(status.get("volume"), 50);
        self.muted = bool_or_exec(status.get("muted"), false);
        let sink_v = match status.get("active_sink_desc") {
            Some(v) => Some(v),
            None => status.get("active_sink_name"),
        };
        self.active_sink = str_or_exec(sink_v, "Default Output");
        self.mic_volume = u8_or_exec(status.get("mic_volume"), 100);
        self.mic_muted = bool_or_exec(status.get("mic_muted"), false);
        let source_v = match status.get("active_source_desc") {
            Some(v) => Some(v),
            None => status.get("active_source_name"),
        };
        self.active_source = str_or_exec(source_v, "Default Input");
        if let Some(v) = status.get("sinks") {
            if let Some(arr) = v.as_array() {
                self.sinks = devs_from(arr, 50);
            }
        }
        if let Some(v) = status.get("sources") {
            if let Some(arr) = v.as_array() {
                self.sources = devs_from(arr, 100);
            }
        }
        true
    }
}

/// What an event on one of the audio widgets asks for.
#[derive(Debug, PartialEq, Eq)]
pub enum AudioWidgetEvent {
    /// The daemon reports a change: read its status again.
    Changed,
    ShowSinks,
    ShowSources,
    ToggleSpeakerMute,
    ToggleMicMute,
    /// A volume slider moved; the level is in the event text.
    SpeakerSlider,
    MicSlider,
    /// A preset button; the level follows its `vol_p` prefix.
    SpeakerPreset,
    MicPreset,
    /// A device button, with the index it names if that is a number.
    SelectSink(Option<usize>),
    SelectSource(Option<usize>),
    OpenMic,
    OpenSpeaker,
    Ignore,
}

pub open spec fn is_root_mic(w: Seq<char>) -> bool {
    w == "microphone"@ || w == "mic"@ || w == "popup:microphone"@
}

pub open spec fn is_root_audio(w: Seq<char>) -> bool {
    w == "audio"@ || w == "volume"@ || w == "speaker"@ || w == "vol"@ || w == "popup:audio"@
}

pub open spec fn is_speaker_slider(w: Seq<char>) -> bool {
    w == "audio_slider"@ || w == "volume_slider"@ || spec_starts_with(w, "qs_volume"@)
        || spec_contains(w, "volume_slider"@) || spec_contains(w, "audio_slider"@)
}

pub open spec fn is_mic_slider(w: Seq<char>) -> bool {
    w == "mic_slider"@ || w == "microphone_slider"@ || spec_starts_with(w, "qs_mic"@)
        || spec_contains(w, "mic_slider"@)
}

/// The index a device button names, after its prefix.
pub open spec fn dev_index(w: Seq<char>, prefix: Seq<char>) -> Option<usize> {
    match spec_parse_nat(spec_trim_start_matches(w, prefix)) {
        Some(n) => if n <= usize::MAX { Some(n as usize) } else { None },
        None => None,
    }
}

pub open spec fn spec_classify(w: Seq<char>, e: Seq<char>) -> AudioWidgetEvent {
    let click = e == "open"@ || e == "click"@;
    if w == "pipewire:changed"@ {
        AudioWidgetEvent::Changed
    } else if w == "audio-sinks"@ || w == "popup:audio-sinks"@ || w == "audio_sinks"@ {
        AudioWidgetEvent::ShowSinks
    } else if w == "audio-sources"@ || w == "popup:audio-sources"@ || w == "audio_sources"@ {
        AudioWidgetEvent::ShowSources
    } else if w == "audio_mute_toggle"@ || (is_root_audio(w) && e == "middle_click"@) {
        AudioWidgetEvent::ToggleSpeakerMute
    } else if w == "mic_mute_toggle"@ || (is_root_mic(w) && e == "middle_click"@) {
        AudioWidgetEvent::ToggleMicMute
    } else if is_speaker_slider(w) {
        AudioWidgetEvent::SpeakerSlider
    } else if is_mic_slider(w) {
        AudioWidgetEvent::MicSlider
    } else if spec_starts_with(w, "vol_p"@) {
        AudioWidgetEvent::SpeakerPreset
    } else if spec_starts_with(w, "mic_p"@) {
        AudioWidgetEvent::MicPreset
    } else if spec_starts_with(w, "sink_dev_"@) {
        AudioWidgetEvent::SelectSink(dev_index(w, "sink_dev_"@))
    } else if spec_starts_with(w, "source_dev_"@) {
        AudioWidgetEvent::SelectSource(dev_index(w, "source_dev_"@))
    } else if is_root_mic(w) && click {
        AudioWidgetEvent::OpenMic
    } else if is_root_audio(w) && click {
        AudioWidgetEvent::OpenSpeaker
    } else {
        AudioWidgetEvent::Ignore
    }
}

fn has_prefix(w: &Vec<char>, p: &str) -> (r: bool)
    ensures
        r == spec_starts_with(w@, p@),
{
    starts_with(w, &chars_of(p))
}

fn has_part(w: &Vec<char>, p: &str) -> (r: bool)
    ensures
        r == spec_contains(w@, p@),
{
    contains(w, &chars_of(p))
}

fn dev_index_exec(w: &str, prefix: &str) -> (r: Option<usize>)
    ensures
        r == dev_index(w@, prefix@),
{
    let rest = trim_start_matches(w, prefix);
    parse_usize(rest.as_str())
}

/// Decides what an event on an audio widget asks for.
pub fn classify_event(widget_id: &str, event: &str) -> (r: AudioWidgetEvent)
    ensures
        r == spec_classify(widget_id@, event@),
{
    let w = chars_of(widget_id);
    let root_mic = str_is(widget_id, "microphone") || str_is(widget_id, "mic") || str_is(
        widget_id,
        "popup:microphone",
    );
    let root_audio = str_is(widget_id, "audio") || str_is(widget_id, "volume") || str_is(
        widget_id,
        "speaker",
    ) || str_is(widget_id, "vol") || str_is(widget_id, "popup:audio");
    let click = str_is(event, "open") || str_is(event, "click");
    let middle = str_is(event, "middle_click");
    if str_is(widget_id, "pipewire:changed") {
        AudioWidgetEvent::Changed
    } else if str_is(widget_id, "audio-sinks") || str_is(widget_id, "popup:audio-sinks") || str_is(
        widget_id,
        "audio_sinks",
    ) {
        AudioWidgetEvent::ShowSinks
    } else if str_is(widget_id, "audio-sources") || str_is(widget_id, "popup:audio-sources")
        || str_is(widget_id, "audio_sources") {
        AudioWidgetEvent::ShowSources
    } else if str_is(widget_id, "audio_mute_toggle") || (root_audio && middle) {
        AudioWidgetEvent::ToggleSpeakerMute
    } else if str_is(widget_id, "mic_mute_toggle") || (root_mic && middle) {
        AudioWidgetEvent::ToggleMicMute
    } else if str_is(widget_id, "audio_slider") || str_is(widget_id, "volume_slider")
        || has_prefix(&w, "qs_volume") || has_part(&w, "volume_slider") || has_part(
        &w,
        "audio_slider",
    ) {
        AudioWidgetEvent::SpeakerSlider
    } else if str_is(widget_id, "mic_slider") || str_is(widget_id, "microphone_slider")
        || has_prefix(&w, "qs_mic") || has_part(&w, "mic_slider") {
        AudioWidgetEvent::MicSlider
    } else if has_prefix(&w, "vol_p") {
        AudioWidgetEvent::SpeakerPreset
    } else if has_prefix(&w, "mic_p") {
        AudioWidgetEvent::MicPreset
    } else if has_prefix(&w, "sink_dev_") {
        AudioWidgetEvent::SelectSink(dev_index_exec(widget_id, "sink_dev_"))
    } else if has_prefix(&w, "source_dev_") {
        AudioWidgetEvent::SelectSource(dev_index_exec(widget_id, "source_dev_"))
    } else if root_mic && click {
        AudioWidgetEvent::OpenMic
    } else if root_audio && click {
        AudioWidgetEvent::OpenSpeaker
    } else {
        AudioWidgetEvent::Ignore
    }
}

/// The texts a slider event may carry its level in, to be tried in order:
/// the event itself, then what follows a `change:`, `slider:` or `value:`
/// prefix.
pub fn slider_texts(event: &str) -> (r: Vec<String>)
    ensures
        crate::text::string_views(r@) == seq![event@] + prefix_rests(event@),
{
    let e = chars_of(event);
    let mut out: Vec<String> = Vec::new();
    out.push(event.to_string());
    let ghost v0 = crate::text::string_views(out@);
    assert(v0 =~= seq![event@]);
    if let Some(rest) = strip_prefix(&e, &chars_of("change:")) {
        out.push(string_of(&rest));
    }
    let ghost v1 = crate::text::string_views(out@);
    assert(v1 =~= seq![event@] + opt_seq(spec_strip_prefix(event@, "change:"@)));
    if let Some(rest) = strip_prefix(&e, &chars_of("slider:")) {
        out.push(string_of(&rest));
    }
    let ghost v2 = crate::text::string_views(out@);
    assert(v2 =~= seq![event@] + opt_seq(spec_strip_prefix(event@, "change:"@)) + opt_seq(spec_strip_prefix(event@, "slider:"@)));
    if let Some(rest) = strip_prefix(&e, &chars_of("value:")) {
        out.push(string_of(&rest));
    }
    assert(crate::text::string_views(out@) =~= seq![event@] + prefix_rests(event@));
    out
}

pub open spec fn opt_seq(o: Option<Seq<char>>) -> Seq<Seq<char>> {
    match o {
        Some(s) => seq![s],
        None => Seq::empty(),
    }
}

pub open spec fn prefix_rests(e: Seq<char>) -> Seq<Seq<char>> {
    opt_seq(spec_strip_prefix(e, "change:"@)) + opt_seq(spec_strip_prefix(e, "slider:"@))
        + opt_seq(spec_strip_prefix(e, "value:"@))
}

/// The devices with exactly the one of id `id` marked default.
pub open spec fn devs_marked(ds: Seq<AudioDev>, id: usize) -> Seq<AudioDev> {
    Seq::new(ds.len(), |i: int| AudioDev { is_default: ds[i].id == id, ..ds[i] })
}

/// The first device of id `id`.
pub open spec fn dev_with_id(ds: Seq<AudioDev>, id: usize) -> Option<AudioDev>
    decreases ds.len(),
{
    if ds.len() == 0 {
        None
    } else if ds[0].id == id {
        Some(ds[0])
    } else {
        dev_with_id(ds.drop_first(), id)
    }
}

/// The name a chosen device is shown by: its description, else its name.
pub open spec fn shown_name(d: AudioDev) -> Seq<char> {
    if d.desc@.len() > 0 { d.desc@ } else { d.name@ }
}

fn find_dev(ds: &Vec<AudioDev>, id: usize) -> (r: Option<usize>)
    ensures
        match r {
            Some(i) => i < ds@.len() && dev_with_id(ds@, id) == Some(ds@[i as int]),
            None => dev_with_id(ds@, id) is None,
        },
{
    let mut i: usize = 0;
    assert(ds@.subrange(0, ds@.len() as int) =~= ds@);
    while i < ds.len()
        invariant
            i <= ds.len(),
            dev_with_id(ds@, id) == dev_with_id(ds@.subrange(i as int, ds@.len() as int), id),
        decreases ds.len() - i,
    {
        let ghost rest = ds@.subrange(i as int, ds@.len() as int);
        assert(rest.drop_first() =~= ds@.subrange(i + 1, ds@.len() as int));
        assert(rest[0] == ds@[i as int]);
        if ds[i].id == id {
            return Some(i);
        }
        i = i + 1;
    }
    None
}

fn mark_devs(ds: &mut Vec<AudioDev>, id: usize)
    ensures
        final(ds)@ == devs_marked(old(ds)@, id),
{
    let ghost orig = ds@;
    let mut i: usize = 0;
    while i < ds.len()
        invariant
            ds@.len() == orig.len(),
            i <= ds.len(),
            forall|j: int| 0 <= j < i ==> ds@[j] == devs_marked(orig, id)[j],
            forall|j: int| i <= j < ds@.len() ==> ds@[j] == orig[j],
        decreases ds.len() - i,
    {
        let d = AudioDev {
            id: ds[i].id,
            name: ds[i].name.clone(),
            desc: ds[i].desc.clone(),
            is_default: ds[i].id == id,
            volume: ds[i].volume,
            muted: ds[i].muted,
        };
        ds.set(i, d);
        i = i + 1;
    }
    assert(ds@ =~= devs_marked(orig, id));
}

impl AudioModule {
    /// Flips the speaker's mute state.
    pub fn toggle_speaker_mute(&mut self)
        ensures
            *final(self) == (AudioModule { muted: !old(self).muted, ..*old(self) }),
    {
        self.muted = !self.muted;
    }

    /// Flips the microphone's mute state.
    pub fn toggle_mic_mute(&mut self)
        ensures
            *final(self) == (AudioModule { mic_muted: !old(self).mic_muted, ..*old(self) }),
    {
        self.mic_muted = !self.mic_muted;
    }

    /// Shows the speaker at level `v`. A muted speaker is unmuted when the
    /// level is above zero, or always when `from_preset`; the result says
    /// whether it was, so that the daemon is told.
    pub fn set_speaker_level(&mut self, v: u8, from_preset: bool) -> (unmuted: bool)
        ensures
            unmuted == (old(self).muted && (from_preset || v > 0)),
            *final(self) == (AudioModule { volume: v, muted: old(self).muted && !unmuted, ..*old(self) }),
    {
        self.volume = v;
        if (from_preset || v > 0) && self.muted {
            self.muted = false;
            true
        } else {
            false
        }
    }

    /// Shows the microphone at level `v`, as for the speaker.
    pub fn set_mic_level(&mut self, v: u8, from_preset: bool) -> (unmuted: bool)
        ensures
            unmuted == (old(self).mic_muted && (from_preset || v > 0)),
            *final(self) == (AudioModule { mic_volume: v, mic_muted: old(self).mic_muted && !unmuted, ..*old(self) }),
    {
        self.mic_volume = v;
        if (from_preset || v > 0) && self.mic_muted {
            self.mic_muted = false;
            true
        } else {
            false
        }
    }

    /// Makes the sink of id `id` the default one; returns its name for the
    /// daemon, or `None` when there is no such sink and nothing changes.
    pub fn select_sink(&mut self, id: usize) -> (r: Option<String>)
        ensures
            match dev_with_id(old(self).sinks@, id) {
                Some(d) => r == Some(d.name) && final(self).sinks@ == devs_marked(old(self).sinks@, id)
                    && final(self).active_sink@ == shown_name(d)
                    && *final(self) == (AudioModule {
                        sinks: final(self).sinks,
                        active_sink: final(self).active_sink,
                        ..*old(self)
                    }),
                None => r is None && *final(self) == *old(self),
            },
    {
        match find_dev(&self.sinks, id) {
            Some(i) => {
                let name = self.sinks[i].name.clone();
                let shown = if self.sinks[i].desc.unicode_len() > 0 {
                    self.sinks[i].desc.clone()
                } else {
                    name.clone()
                };
                mark_devs(&mut self.sinks, id);
                self.active_sink = shown;
                Some(name)
            },
            None => None,
        }
    }

    /// Makes the source of id `id` the default one, as for sinks.
    pub fn select_source(&mut self, id: usize) -> (r: Option<String>)
        ensures
            match dev_with_id(old(self).sources@, id) {
                Some(d) => r == Some(d.name) && final(self).sources@ == devs_marked(old(self).sources@, id)
                    && final(self).active_source@ == shown_name(d)
                    && *final(self) == (AudioModule {
                        sources: final(self).sources,
                        active_source: final(self).active_source,
                        ..*old(self)
                    }),
                None => r is None && *final(self) == *old(self),
            },
    {
        match find_dev(&self.sources, id) {
            Some(i) => {
                let name = self.sources[i].name.clone();
                let shown = if self.sources[i].desc.unicode_len() > 0 {
                    self.sources[i].desc.clone()
                } else {
                    name.clone()
                };
                mark_devs(&mut self.sources, id);
                self.active_source = shown;
                Some(name)
            },
            None => None,
        }
    }
}

/// The icon name of the speaker widget.
pub fn speaker_icon_name(muted: bool, volume: u8) -> (r: &'static str)
    ensures
        r@ == (if muted || volume == 0 {
            "audio-volume-muted"@
        } else if volume < 30 {
            "audio-volume-low"@
        } else if volume < 70 {
            "audio-volume-medium"@
        } else {
            "audio-volume-high"@
        }),
{
    if muted || volume == 0 {
        "audio-volume-muted"
    } else if volume < 30 {
        "audio-volume-low"
    } else if volume < 70 {
        "audio-volume-medium"
    } else {
        "audio-volume-high"
    }
}

pub open spec fn spec_speaker_glyph(muted: bool, volume: u8) -> Seq<char> {
    if muted || volume == 0 {
        "󰝟"@
    } else if volume < 30 {
        "󰕿"@
    } else if volume < 70 {
        "󰖀"@
    } else {
        "󰕾"@
    }
}

/// The glyph of the speaker widget.
pub fn speaker_glyph(muted: bool, volume: u8) -> (r: &'static str)
    ensures
        r@ == spec_speaker_glyph(muted, volume),
{
    if muted || volume == 0 {
        "󰝟"
    } else if volume < 30 {
        "󰕿"
    } else if volume < 70 {
        "󰖀"
    } else {
        "󰕾"
    }
}

/// The icon name of the microphone widget.
pub fn mic_icon_name(muted: bool) -> (r: &'static str)
    ensures
        r@ == (if muted { "microphone-sensitivity-muted"@ } else { "microphone-sensitivity-high"@ }),
{
    if muted { "microphone-sensitivity-muted" } else { "microphone-sensitivity-high" }
}

pub open spec fn spec_mic_glyph(muted: bool, volume: u8) -> Seq<char> {
    if muted || volume == 0 { "󰍭"@ } else { "󰍬"@ }
}

/// The glyph of the microphone widget.
pub fn mic_glyph(muted: bool, volume: u8) -> (r: &'static str)
    ensures
        r@ == spec_mic_glyph(muted, volume),
{
    if muted || volume == 0 { "󰍭" } else { "󰍬" }
}

/// The bar text for a level: the glyph, then `Muted` or the percentage.
pub open spec fn level_text(glyph: Seq<char>, muted: bool, volume: u8) -> Seq<char> {
    if muted {
        glyph + " Muted"@
    } else {
        glyph + " "@ + spec_decimal(volume as nat) + "%"@
    }
}

fn level_text_exec(glyph: &str, muted: bool, volume: u8) -> (r: String)
    ensures
        r@ == level_text(glyph@, muted, volume),
{
    let g = chars_of(glyph);
    if muted {
        string_of(&concat(&g, &chars_of(" Muted")))
    } else {
        let a = concat(&g, &chars_of(" "));
        let b = concat(&a, &chars_of(decimal(volume as u64).as_str()));
        string_of(&concat(&b, &chars_of("%")))
    }
}

impl AudioModule {
    /// The speaker widget's bar text.
    pub fn speaker_text(&self) -> (r: String)
        ensures
            r@ == level_text(spec_speaker_glyph(self.muted, self.volume), self.muted, self.volume),
    {
        level_text_exec(speaker_glyph(self.muted, self.volume), self.muted, self.volume)
    }

    /// The microphone widget's bar text.
    pub fn mic_text(&self) -> (r: String)
        ensures
            r@ == level_text(spec_mic_glyph(self.mic_muted, self.mic_volume), self.mic_muted, self.mic_volume),
    {
        level_text_exec(mic_glyph(self.mic_muted, self.mic_volume), self.mic_muted, self.mic_volume)
    }
}

/// A device name without the words that say nothing on a desktop, trimmed
/// (the name itself when nothing would be left).
pub open spec fn cleaned_name(name: Seq<char>) -> Seq<char> {
    let a = spec_replace(name, "Built-in Audio"@, ""@);
    let b = spec_replace(a, "Analog Stereo"@, ""@);
    let c = spec_replace(b, "Digital Stereo (HDMI)"@, "HDMI"@);
    let d = spec_replace(c, "Family 17h/19h HD Audio Controller"@, "HD Audio"@);
    let t = spec_trim(d);
    if t.len() == 0 { name } else { t }
}

/// The cleaned name, cut to `max_len` characters with `..` when longer.
pub open spec fn spec_clean_device_name(name: Seq<char>, max_len: nat) -> Seq<char> {
    let s = cleaned_name(name);
    if s.len() > max_len { s.take(max_len - 2) + ".."@ } else { s }
}

fn replace_lit(s: &Vec<char>, p: &str, r: &str) -> (out: Vec<char>)
    ensures
        out@ == spec_replace(s@, p@, r@),
{
    let pv = chars_of(p);
    if pv.len() == 0 {
        proof {
            assert(spec_replace(s@, p@, r@) == s@) by {
                if s@.len() > 0 {
                }
            }
        }
        return s.clone();
    }
    replace_all(s, &pv, &chars_of(r))
}

/// Shortens a device name for display.
pub fn clean_device_name(name: &str, max_len: usize) -> (r: String)
    requires
        max_len >= 2 || cleaned_name(name@).len() <= max_len,
    ensures
        r@ == spec_clean_device_name(name@, max_len as nat),
{
    let n = chars_of(name);
    let a = replace_lit(&n, "Built-in Audio", "");
    let b = replace_lit(&a, "Analog Stereo", "");
    let c = replace_lit(&b, "Digital Stereo (HDMI)", "HDMI");
    let d = replace_lit(&c, "Family 17h/19h HD Audio Controller", "HD Audio");
    let t = trim(&d);
    let s = if t.len() == 0 { n } else { t };
    if s.len() > max_len {
        let short = crate::text::slice(&s, 0, max_len - 2);
        string_of(&concat(&short, &chars_of("..")))
    } else {
        string_of(&s)
    }
}

/// A device button's text: a check mark on the default device, then its
/// description, or name when it has none, cut to `width` characters.
pub open spec fn spec_device_label(d: AudioDev, width: nat) -> Seq<char> {
    (if d.is_default { "✓"@ } else { " "@ }) + "  "@ + spec_clean_device_name(shown_name(d), width)
}

fn device_label_width(d: &AudioDev, width: usize) -> (r: String)
    requires
        width >= 2,
    ensures
        r@ == spec_device_label(*d, width as nat),
{
    let mark = if d.is_default { "✓" } else { " " };
    let shown = if d.desc.unicode_len() > 0 { d.desc.as_str() } else { d.name.as_str() };
    let a = concat(&chars_of(mark), &chars_of("  "));
    string_of(&concat(&a, &chars_of(clean_device_name(shown, width).as_str())))
}

/// The text of a device button in the device list popup.
pub fn device_label(d: &AudioDev) -> (r: String)
    ensures
        r@ == spec_device_label(*d, 28),
{
    device_label_width(d, 28)
}

/// A button of a level popup: its id, text, the event its click sends, and
/// whether it is drawn as the active one.
#[derive(Debug)]
pub struct PopupButton {
    pub id: String,
    pub text: String,
    pub on_click: String,
    pub active: bool,
}

/// The event a click on the audio widget's button `id` sends.
pub open spec fn audio_click(id: Seq<char>) -> Seq<char> {
    "event:audio:"@ + id + ":click"@
}

/// The level the preset button at position `k` sets: 25, 50, 75 or 100.
pub open spec fn preset_level(k: int) -> nat {
    (25 * (k + 1)) as nat
}

/// The preset button at position `k` of a popup whose preset ids start with
/// `prefix`, for a side at `volume` that is `muted` or not.
pub open spec fn preset_button(prefix: Seq<char>, k: int, volume: u8, muted: bool) -> (Seq<char>, Seq<char>, Seq<char>, bool) {
    let id = prefix + spec_decimal(preset_level(k));
    (id, spec_decimal(preset_level(k)) + "%"@, audio_click(id), !muted && volume == preset_level(k))
}

/// A device button of a popup whose device ids start with `prefix`.
pub open spec fn device_button(prefix: Seq<char>, d: AudioDev) -> (Seq<char>, Seq<char>, Seq<char>, bool) {
    let id = prefix + spec_decimal(d.id as nat);
    (id, spec_device_label(d, 26), audio_click(id), d.is_default)
}

pub open spec fn button_view(b: PopupButton) -> (Seq<char>, Seq<char>, Seq<char>, bool) {
    (b.id@, b.text@, b.on_click@, b.active)
}

/// What the speaker or microphone popup shows, apart from its layout.
#[derive(Debug)]
pub struct LevelPopup {
    /// The ring's text: `MUTED`, or the level in percent.
    pub ring_text: String,
    /// The level in percent.
    pub level_text: String,
    /// The active device's shortened name.
    pub device_name: String,
    /// The mute button's text: `UNMUTE` while muted, else `MUTE`.
    pub mute_text: &'static str,
    pub mute_active: bool,
    /// The four preset buttons: 25, 50, 75 and 100 percent.
    pub presets: Vec<PopupButton>,
    /// The first five devices.
    pub devices: Vec<PopupButton>,
    /// The text shown when there is no device.
    pub empty_text: Option<&'static str>,
}

fn click_event(id: &Vec<char>) -> (r: String)
    ensures
        r@ == audio_click(id@),
{
    string_of(&concat(&concat(&chars_of("event:audio:"), id), &chars_of(":click")))
}

fn percent_text(v: u64) -> (r: String)
    ensures
        r@ == spec_decimal(v as nat) + "%"@,
{
    string_of(&concat(&chars_of(decimal(v).as_str()), &chars_of("%")))
}

/// The decisions of a level popup for one side.
fn level_popup(
    volume: u8,
    muted: bool,
    active: &str,
    devs: &Vec<AudioDev>,
    preset_prefix: &str,
    dev_prefix: &str,
    empty: &'static str,
) -> (p: LevelPopup)
    ensures
        p.ring_text@ == (if muted { "MUTED"@ } else { spec_decimal(volume as nat) + "%"@ }),
        p.level_text@ == spec_decimal(volume as nat) + "%"@,
        p.device_name@ == spec_clean_device_name(active@, 24),
        p.mute_text@ == (if muted { "UNMUTE"@ } else { "MUTE"@ }),
        p.mute_active == muted,
        p.presets@.len() == 4,
        forall|k: int| 0 <= k < 4 ==> button_view(#[trigger] p.presets@[k])
            == preset_button(preset_prefix@, k, volume, muted),
        p.devices@.len() == (if devs@.len() < 5 { devs@.len() } else { 5 }),
        forall|k: int| 0 <= k < p.devices@.len() ==> button_view(#[trigger] p.devices@[k])
            == device_button(dev_prefix@, devs@[k]),
        p.empty_text == (if devs@.len() == 0 { Some(empty) } else { None::<&'static str> }),
{
    let mut presets: Vec<PopupButton> = Vec::new();
    let mut k: u64 = 0;
    while k < 4
        invariant
            k <= 4,
            presets@.len() == k,
            forall|j: int| 0 <= j < k ==> button_view(#[trigger] presets@[j])
                == preset_button(preset_prefix@, j, volume, muted),
        decreases 4 - k,
    {
        let level: u64 = 25 * (k + 1);
        let id = concat(&chars_of(preset_prefix), &chars_of(decimal(level).as_str()));
        let b = PopupButton {
            id: string_of(&id),
            text: percent_text(level),
            on_click: click_event(&id),
            active: !muted && volume as u64 == level,
        };
        presets.push(b);
        k = k + 1;
    }
    let n: usize = if devs.len() < 5 { devs.len() } else { 5 };
    let mut devices: Vec<PopupButton> = Vec::new();
    let mut i: usize = 0;
    while i < n
        invariant
            n == (if devs@.len() < 5 { devs@.len() } else { 5 }),
            i <= n,
            devices@.len() == i,
            forall|j: int| 0 <= j < i ==> button_view(#[trigger] devices@[j])
                == device_button(dev_prefix@, devs@[j]),
        decreases n - i,
    {
        let d = &devs[i];
        let id = concat(&chars_of(dev_prefix), &chars_of(decimal(d.id as u64).as_str()));
        devices.push(PopupButton {
            id: string_of(&id),
            text: device_label_width(d, 26),
            on_click: click_event(&id),
            active: d.is_default,
        });
        i = i + 1;
    }
    LevelPopup {
        ring_text: if muted { "MUTED".to_string() } else { percent_text(volume as u64) },
        level_text: percent_text(volume as u64),
        device_name: clean_device_name(active, 24),
        mute_text: if muted { "UNMUTE" } else { "MUTE" },
        mute_active: muted,
        presets,
        devices,
        empty_text: if devs.len() == 0 { Some(empty) } else { None },
    }
}

impl AudioModule {
    /// What the speaker popup shows: the level and mute state, the presets
    /// (`vol_p25` to `vol_p100`), and the first five output devices.
    pub fn speaker_popup(&self) -> (p: LevelPopup)
        ensures
            p.ring_text@ == (if self.muted { "MUTED"@ } else { spec_decimal(self.volume as nat) + "%"@ }),
            p.level_text@ == spec_decimal(self.volume as nat) + "%"@,
            p.device_name@ == spec_clean_device_name(self.active_sink@, 24),
            p.mute_text@ == (if self.muted { "UNMUTE"@ } else { "MUTE"@ }),
            p.mute_active == self.muted,
            p.presets@.len() == 4,
            forall|k: int| 0 <= k < 4 ==> button_view(#[trigger] p.presets@[k])
                == preset_button("vol_p"@, k, self.volume, self.muted),
            p.devices@.len() == (if self.sinks@.len() < 5 { self.sinks@.len() } else { 5 }),
            forall|k: int| 0 <= k < p.devices@.len() ==> button_view(#[trigger] p.devices@[k])
                == device_button("sink_dev_"@, self.sinks@[k]),
            p.empty_text matches Some(t) ==> t@ == "No output devices found"@,
            p.empty_text is Some <==> self.sinks@.len() == 0,
    {
        level_popup(self.volume, self.muted, self.active_sink.as_str(), &self.sinks, "vol_p", "sink_dev_",
            "No output devices found")
    }

    /// What the microphone popup shows: the gain and mute state, the presets
    /// (`mic_p25` to `mic_p100`), and the first five input devices.
    pub fn microphone_popup(&self) -> (p: LevelPopup)
        ensures
            p.ring_text@ == (if self.mic_muted { "MUTED"@ } else { spec_decimal(self.mic_volume as nat) + "%"@ }),
            p.level_text@ == spec_decimal(self.mic_volume as nat) + "%"@,
            p.device_name@ == spec_clean_device_name(self.active_source@, 24),
            p.mute_text@ == (if self.mic_muted { "UNMUTE"@ } else { "MUTE"@ }),
            p.mute_active == self.mic_muted,
            p.presets@.len() == 4,
            forall|k: int| 0 <= k < 4 ==> button_view(#[trigger] p.presets@[k])
                == preset_button("mic_p"@, k, self.mic_volume, self.mic_muted),
            p.devices@.len() == (if self.sources@.len() < 5 { self.sources@.len() } else { 5 }),
            forall|k: int| 0 <= k < p.devices@.len() ==> button_view(#[trigger] p.devices@[k])
                == device_button("source_dev_"@, self.sources@[k]),
            p.empty_text matches Some(t) ==> t@ == "No input devices found"@,
            p.empty_text is Some <==> self.sources@.len() == 0,
    {
        level_popup(self.mic_volume, self.mic_muted, self.active_source.as_str(), &self.sources, "mic_p",
            "source_dev_", "No input devices found")
    }
}

} // verus!
