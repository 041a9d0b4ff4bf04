//! Audio state kept by the audio daemon: the devices it knows of, which of
//! them are the defaults, and how each user command changes that state.

use vstd::prelude::*;
use crate::text::{chars_eq, chars_of, contains, spec_contains, str_is};

verus! {

broadcast use vstd::seq_lib::group_seq_properties;

/// One sink or source as the sound server reports it, volume in percent.
#[derive(Debug, Clone)]
pub struct AudioDeviceInfo {
    pub name: String,
    pub description: String,
    pub volume: u8,
    pub muted: bool,
    pub is_default: bool,
    pub channels: u8,
}

/// What the daemon knows of the sound server at one moment.
#[derive(Debug, Clone)]
pub struct AudioStatus {
    pub volume: u8,
    pub muted: bool,
    pub active_sink_name: String,
    pub active_sink_desc: String,
    pub mic_volume: u8,
    pub mic_muted: bool,
    pub active_source_name: String,
    pub active_source_desc: String,
    pub sinks: Vec<AudioDeviceInfo>,
    pub sources: Vec<AudioDeviceInfo>,
}

impl Default for AudioDeviceInfo {
    fn default() -> (r: AudioDeviceInfo)
        ensures
            r.name@.len() == 0 && r.description@.len() == 0,
            r.volume == 0 && !r.muted && !r.is_default && r.channels == 0,
    {
        AudioDeviceInfo {
            name: String::new(),
            description: String::new(),
            volume: 0,
            muted: false,
            is_default: false,
            channels: 0,
        }
    }
}

impl Default for AudioStatus {
    fn default() -> (r: AudioStatus)
        ensures
            r.volume == 0 && !r.muted && r.mic_volume == 0 && !r.mic_muted,
            r.active_sink_name@.len() == 0 && r.active_sink_desc@.len() == 0,
            r.active_source_name@.len() == 0 && r.active_source_desc@.len() == 0,
            r.sinks@.len() == 0 && r.sources@.len() == 0,
    {
        AudioStatus {
            volume: 0,
            muted: false,
            active_sink_name: String::new(),
            active_sink_desc: String::new(),
            mic_volume: 0,
            mic_muted: false,
            active_source_name: String::new(),
            active_source_desc: String::new(),
            sinks: Vec::new(),
            sources: Vec::new(),
        }
    }
}

/// The channel count assumed for a device that reports none.
pub fn default_channels() -> (r: u8)
    ensures
        r == 2,
{
    2
}

pub open spec fn spec_is_source_target(t: Seq<char>) -> bool {
    spec_contains(t, "source"@) || spec_contains(t, "mic"@) || t == "@DEFAULT_AUDIO_SOURCE@"@
}

/// Whether a socket request's target names a source (a microphone) rather
/// than a sink.
pub fn is_source_target(target: &str) -> (r: bool)
    ensures
        r == spec_is_source_target(target@),
{
    let t = chars_of(target);
    contains(&t, &chars_of("source")) || contains(&t, &chars_of("mic")) || str_is(
        target,
        "@DEFAULT_AUDIO_SOURCE@",
    )
}

/// A request target that stands for the default sink.
pub open spec fn is_sink_alias(n: Seq<char>) -> bool {
    n.len() == 0 || n == "@DEFAULT_AUDIO_SINK@"@ || n == "@DEFAULT_SINK@"@
}

/// A request target that stands for the default source.
pub open spec fn is_source_alias(n: Seq<char>) -> bool {
    n.len() == 0 || n == "@DEFAULT_AUDIO_SOURCE@"@ || n == "@DEFAULT_SOURCE@"@
}

/// `d` at volume `v`; a volume above zero also unmutes it.
pub open spec fn with_volume(d: AudioDeviceInfo, v: u8) -> AudioDeviceInfo {
    AudioDeviceInfo {
        name: d.name,
        description: d.description,
        volume: v,
        muted: if v > 0 { false } else { d.muted },
        is_default: d.is_default,
        channels: d.channels,
    }
}

pub open spec fn with_mute(d: AudioDeviceInfo, m: bool) -> AudioDeviceInfo {
    AudioDeviceInfo {
        name: d.name,
        description: d.description,
        volume: d.volume,
        muted: m,
        is_default: d.is_default,
        channels: d.channels,
    }
}

pub open spec fn with_default(d: AudioDeviceInfo, b: bool) -> AudioDeviceInfo {
    AudioDeviceInfo {
        name: d.name,
        description: d.description,
        volume: d.volume,
        muted: d.muted,
        is_default: b,
        channels: d.channels,
    }
}

/// Every device named `t` set to volume `v`.
pub open spec fn devices_with_volume(ds: Seq<AudioDeviceInfo>, t: Seq<char>, v: u8) -> Seq<
    AudioDeviceInfo,
> {
    Seq::new(ds.len(), |i: int| if ds[i].name@ == t { with_volume(ds[i], v) } else { ds[i] })
}

/// Every device named `t` muted or unmuted.
pub open spec fn devices_with_mute(ds: Seq<AudioDeviceInfo>, t: Seq<char>, m: bool) -> Seq<
    AudioDeviceInfo,
> {
    Seq::new(ds.len(), |i: int| if ds[i].name@ == t { with_mute(ds[i], m) } else { ds[i] })
}

/// The devices named `n` marked default, all others not.
pub open spec fn devices_with_default(ds: Seq<AudioDeviceInfo>, n: Seq<char>) -> Seq<
    AudioDeviceInfo,
> {
    Seq::new(ds.len(), |i: int| with_default(ds[i], ds[i].name@ == n))
}

/// The first device named `n`.
pub open spec fn first_named(ds: Seq<AudioDeviceInfo>, n: Seq<char>) -> Option<AudioDeviceInfo>
    decreases ds.len(),
{
    if ds.len() == 0 {
        None
    } else {
        match first_named(ds.drop_last(), n) {
            Some(d) => Some(d),
            None => if ds.last().name@ == n { Some(ds.last()) } else { None },
        }
    }
}

/// The last device named `n`.
pub open spec fn last_named(ds: Seq<AudioDeviceInfo>, n: Seq<char>) -> Option<AudioDeviceInfo>
    decreases ds.len(),
{
    if ds.len() == 0 {
        None
    } else if ds.last().name@ == n {
        Some(ds.last())
    } else {
        last_named(ds.drop_last(), n)
    }
}

/// The first device marked default.
pub open spec fn first_default(ds: Seq<AudioDeviceInfo>) -> Option<AudioDeviceInfo>
    decreases ds.len(),
{
    if ds.len() == 0 {
        None
    } else {
        match first_default(ds.drop_last()) {
            Some(d) => Some(d),
            None => if ds.last().is_default { Some(ds.last()) } else { None },
        }
    }
}

/// The channel count used when setting the volume of the device named `t`.
pub open spec fn channels_for(ds: Seq<AudioDeviceInfo>, t: Seq<char>) -> u8 {
    let c = match first_named(ds, t) {
        Some(d) => d.channels,
        None => 2,
    };
    if c < 1 { 1 } else { c }
}

/// The source half of the two states is the same.
pub open spec fn sources_kept(a: AudioStatus, b: AudioStatus) -> bool {
    &&& b.mic_volume == a.mic_volume
    &&& b.mic_muted == a.mic_muted
    &&& b.active_source_name == a.active_source_name
    &&& b.active_source_desc == a.active_source_desc
    &&& b.sources@ == a.sources@
}

/// The sink half of the two states is the same.
pub open spec fn sinks_kept(a: AudioStatus, b: AudioStatus) -> bool {
    &&& b.volume == a.volume
    &&& b.muted == a.muted
    &&& b.active_sink_name == a.active_sink_name
    &&& b.active_sink_desc == a.active_sink_desc
    &&& b.sinks@ == a.sinks@
}

pub open spec fn sink_volume_applied(a: AudioStatus, b: AudioStatus, t: Seq<char>, v: u8) -> bool {
    &&& b.volume == v
    &&& b.muted == (if v > 0 { false } else { a.muted })
    &&& b.sinks@ == devices_with_volume(a.sinks@, t, v)
    &&& b.active_sink_name == a.active_sink_name
    &&& b.active_sink_desc == a.active_sink_desc
    &&& sources_kept(a, b)
}

pub open spec fn source_volume_applied(a: AudioStatus, b: AudioStatus, t: Seq<char>, v: u8) -> bool {
    &&& b.mic_volume == v
    &&& b.mic_muted == (if v > 0 { false } else { a.mic_muted })
    &&& b.sources@ == devices_with_volume(a.sources@, t, v)
    &&& b.active_source_name == a.active_source_name
    &&& b.active_source_desc == a.active_source_desc
    &&& sinks_kept(a, b)
}

pub open spec fn sink_mute_applied(a: AudioStatus, b: AudioStatus, t: Seq<char>, m: bool) -> bool {
    &&& b.volume == a.volume
    &&& b.muted == m
    &&& b.sinks@ == devices_with_mute(a.sinks@, t, m)
    &&& b.active_sink_name == a.active_sink_name
    &&& b.active_sink_desc == a.active_sink_desc
    &&& sources_kept(a, b)
}

pub open spec fn source_mute_applied(a: AudioStatus, b: AudioStatus, t: Seq<char>, m: bool) -> bool {
    &&& b.mic_volume == a.mic_volume
    &&& b.mic_muted == m
    &&& b.sources@ == devices_with_mute(a.sources@, t, m)
    &&& b.active_source_name == a.active_source_name
    &&& b.active_source_desc == a.active_source_desc
    &&& sinks_kept(a, b)
}

/// The mute state that a toggle of the sink named `t` flips: that of the
/// first sink so named, else the status's own.
pub open spec fn sink_mute_read(a: AudioStatus, t: Seq<char>) -> bool {
    match first_named(a.sinks@, t) {
        Some(d) => d.muted,
        None => a.muted,
    }
}

pub open spec fn source_mute_read(a: AudioStatus, t: Seq<char>) -> bool {
    match first_named(a.sources@, t) {
        Some(d) => d.muted,
        None => a.mic_muted,
    }
}

pub open spec fn default_sink_applied(a: AudioStatus, b: AudioStatus, n: Seq<char>) -> bool {
    &&& b.volume == a.volume
    &&& b.muted == a.muted
    &&& b.active_sink_name@ == n
    &&& b.sinks@ == devices_with_default(a.sinks@, n)
    &&& b.active_sink_desc == match last_named(a.sinks@, n) {
        Some(d) => d.description,
        None => a.active_sink_desc,
    }
    &&& sources_kept(a, b)
}

pub open spec fn default_source_applied(a: AudioStatus, b: AudioStatus, n: Seq<char>) -> bool {
    &&& b.mic_volume == a.mic_volume
    &&& b.mic_muted == a.mic_muted
    &&& b.active_source_name@ == n
    &&& b.sources@ == devices_with_default(a.sources@, n)
    &&& b.active_source_desc == match last_named(a.sources@, n) {
        Some(d) => d.description,
        None => a.active_source_desc,
    }
    &&& sinks_kept(a, b)
}

impl AudioDeviceInfo {
    /// A field-by-field copy.
    pub fn duplicate(&self) -> (r: AudioDeviceInfo)
        ensures
            r == *self,
    {
        AudioDeviceInfo {
            name: self.name.clone(),
            description: self.description.clone(),
            volume: self.volume,
            muted: self.muted,
            is_default: self.is_default,
            channels: self.channels,
        }
    }
}

fn set_volume_where(ds: &mut Vec<AudioDeviceInfo>, t: &Vec<char>, v: u8)
    ensures
        final(ds)@ == devices_with_volume(old(ds)@, t@, v),
{
    let ghost orig = ds@;
    let mut i: usize = 0;
    while i < ds.len()
        invariant
            ds@.len() == orig.len(),
            i <= ds.len(),
            forall|j: int| 0 <= j < i ==> ds@[j] == devices_with_volume(orig, t@, v)[j],
            forall|j: int| i <= j < ds@.len() ==> ds@[j] == orig[j],
        decreases ds.len() - i,
    {
        if chars_eq(&chars_of(ds[i].name.as_str()), t) {
            let d = AudioDeviceInfo {
                name: ds[i].name.clone(),
                description: ds[i].description.clone(),
                volume: v,
                muted: if v > 0 { false } else { ds[i].muted },
                is_default: ds[i].is_default,
                channels: ds[i].channels,
            };
            ds.set(i, d);
        }
        i = i + 1;
    }
    assert(ds@ =~= devices_with_volume(orig, t@, v));
}

fn set_mute_where(ds: &mut Vec<AudioDeviceInfo>, t: &Vec<char>, m: bool)
    ensures
        final(ds)@ == devices_with_mute(old(ds)@, t@, m),
{
    let ghost orig = ds@;
    let mut i: usize = 0;
    while i < ds.len()
        invariant
            ds@.len() == orig.len(),
            i <= ds.len(),
            forall|j: int| 0 <= j < i ==> ds@[j] == devices_with_mute(orig, t@, m)[j],
            forall|j: int| i <= j < ds@.len() ==> ds@[j] == orig[j],
        decreases ds.len() - i,
    {
        if chars_eq(&chars_of(ds[i].name.as_str()), t) {
            let d = AudioDeviceInfo {
                name: ds[i].name.clone(),
                description: ds[i].description.clone(),
                volume: ds[i].volume,
                muted: m,
                is_default: ds[i].is_default,
                channels: ds[i].channels,
            };
            ds.set(i, d);
        }
        i = i + 1;
    }
    assert(ds@ =~= devices_with_mute(orig, t@, m));
}

/// Marks the devices named `n` default and the others not; returns the
/// description of the last device so named.
fn set_default_where(ds: &mut Vec<AudioDeviceInfo>, n: &Vec<char>) -> (r: Option<String>)
    ensures
        final(ds)@ == devices_with_default(old(ds)@, n@),
        r == match last_named(old(ds)@, n@) {
            Some(d) => Some(d.description),
            None => None::<String>,
        },
{
    let ghost orig = ds@;
    let mut desc: Option<String> = None;
    let mut i: usize = 0;
    while i < ds.len()
        invariant
            ds@.len() == orig.len(),
            i <= ds.len(),
            forall|j: int| 0 <= j < i ==> ds@[j] == devices_with_default(orig, n@)[j],
            forall|j: int| i <= j < ds@.len() ==> ds@[j] == orig[j],
            desc == match last_named(orig.take(i as int), n@) {
                Some(d) => Some(d.description),
                None => None::<String>,
            },
        decreases ds.len() - i,
    {
        assert(orig.take(i + 1).drop_last() =~= orig.take(i as int));
        let hit = chars_eq(&chars_of(ds[i].name.as_str()), n);
        if hit {
            desc = Some(ds[i].description.clone());
        }
        let d = AudioDeviceInfo {
            name: ds[i].name.clone(),
            description: ds[i].description.clone(),
            volume: ds[i].volume,
            muted: ds[i].muted,
            is_default: hit,
            channels: ds[i].channels,
        };
        ds.set(i, d);
        i = i + 1;
    }
    assert(ds@ =~= devices_with_default(orig, n@));
    assert(orig.take(orig.len() as int) =~= orig);
    desc
}

proof fn lemma_first_named_prefix(s: Seq<AudioDeviceInfo>, k: int, n: Seq<char>)
    requires
        0 <= k <= s.len(),
        first_named(s.take(k), n) is Some,
    ensures
        first_named(s, n) == first_named(s.take(k), n),
    decreases s.len(),
{
    if k == s.len() {
        assert(s.take(k) =~= s);
    } else {
        assert(s.drop_last().take(k) =~= s.take(k));
        lemma_first_named_prefix(s.drop_last(), k, n);
    }
}

/// The index of the first device named `t`.
fn find_named(ds: &Vec<AudioDeviceInfo>, t: &Vec<char>) -> (r: Option<usize>)
    ensures
        match r {
            Some(i) => i < ds@.len() && first_named(ds@, t@) == Some(ds@[i as int]),
            None => first_named(ds@, t@) is None,
        },
{
    let mut i: usize = 0;
    while i < ds.len()
        invariant
            i <= ds.len(),
            first_named(ds@.take(i as int), t@) is None,
        decreases ds.len() - i,
    {
        assert(ds@.take(i + 1).drop_last() =~= ds@.take(i as int));
        if chars_eq(&chars_of(ds[i].name.as_str()), t) {
            proof {
                lemma_first_named_prefix(ds@, i + 1, t@);
            }
            return Some(i);
        }
        i = i + 1;
    }
    assert(ds@.take(ds.len() as int) =~= ds@);
    None
}

impl AudioStatus {
    /// The sink a request names: the active sink for an empty name or a
    /// default-sink alias, else the name itself.
    pub open spec fn sink_target(self, n: Seq<char>) -> Seq<char> {
        if is_sink_alias(n) { self.active_sink_name@ } else { n }
    }

    /// The source a request names, resolved as for sinks.
    pub open spec fn source_target(self, n: Seq<char>) -> Seq<char> {
        if is_source_alias(n) { self.active_source_name@ } else { n }
    }

    pub fn resolve_sink(&self, name: &str) -> (r: String)
        ensures
            r@ == self.sink_target(name@),
    {
        if name.unicode_len() == 0 || str_is(name, "@DEFAULT_AUDIO_SINK@") || str_is(
            name,
            "@DEFAULT_SINK@",
        ) {
            self.active_sink_name.clone()
        } else {
            name.to_string()
        }
    }

    pub fn resolve_source(&self, name: &str) -> (r: String)
        ensures
            r@ == self.source_target(name@),
    {
        if name.unicode_len() == 0 || str_is(name, "@DEFAULT_AUDIO_SOURCE@") || str_is(
            name,
            "@DEFAULT_SOURCE@",
        ) {
            self.active_source_name.clone()
        } else {
            name.to_string()
        }
    }

    /// Sets the volume of the sink `sink` names (and of the status), which
    /// a volume above zero also unmutes; returns the resolved sink name.
    pub fn apply_sink_volume(&mut self, sink: &str, v: u8) -> (target: String)
        ensures
            target@ == old(self).sink_target(sink@),
            sink_volume_applied(*old(self), *final(self), target@, v),
    {
        let target = self.resolve_sink(sink);
        self.volume = v;
        if v > 0 && self.muted {
            self.muted = false;
        }
        set_volume_where(&mut self.sinks, &chars_of(target.as_str()), v);
        target
    }

    /// Sets the volume of the source `source` names, as for sinks.
    pub fn apply_source_volume(&mut self, source: &str, v: u8) -> (target: String)
        ensures
            target@ == old(self).source_target(source@),
            source_volume_applied(*old(self), *final(self), target@, v),
    {
        let target = self.resolve_source(source);
        self.mic_volume = v;
        if v > 0 && self.mic_muted {
            self.mic_muted = false;
        }
        set_volume_where(&mut self.sources, &chars_of(target.as_str()), v);
        target
    }

    /// Mutes or unmutes the sink `sink` names and the status.
    pub fn apply_sink_mute(&mut self, sink: &str, mute: bool) -> (target: String)
        ensures
            target@ == old(self).sink_target(sink@),
            sink_mute_applied(*old(self), *final(self), target@, mute),
    {
        let target = self.resolve_sink(sink);
        self.muted = mute;
        set_mute_where(&mut self.sinks, &chars_of(target.as_str()), mute);
        target
    }

    /// Mutes or unmutes the source `source` names and the status.
    pub fn apply_source_mute(&mut self, source: &str, mute: bool) -> (target: String)
        ensures
            target@ == old(self).source_target(source@),
            source_mute_applied(*old(self), *final(self), target@, mute),
    {
        let target = self.resolve_source(source);
        self.mic_muted = mute;
        set_mute_where(&mut self.sources, &chars_of(target.as_str()), mute);
        target
    }

    /// Flips the mute state of the sink `sink` names; returns the resolved
    /// name and the new state.
    pub fn apply_sink_toggle(&mut self, sink: &str) -> (r: (String, bool))
        ensures
            r.0@ == old(self).sink_target(sink@),
            r.1 == !sink_mute_read(*old(self), r.0@),
            sink_mute_applied(*old(self), *final(self), r.0@, r.1),
    {
        let target = self.resolve_sink(sink);
        let t = chars_of(target.as_str());
        let is_muted = match find_named(&self.sinks, &t) {
            Some(i) => self.sinks[i].muted,
            None => self.muted,
        };
        let new_mute = !is_muted;
        self.muted = new_mute;
        set_mute_where(&mut self.sinks, &t, new_mute);
        (target, new_mute)
    }

    /// Flips the mute state of the source `source` names.
    pub fn apply_source_toggle(&mut self, source: &str) -> (r: (String, bool))
        ensures
            r.0@ == old(self).source_target(source@),
            r.1 == !source_mute_read(*old(self), r.0@),
            source_mute_applied(*old(self), *final(self), r.0@, r.1),
    {
        let target = self.resolve_source(source);
        let t = chars_of(target.as_str());
        let is_muted = match find_named(&self.sources, &t) {
            Some(i) => self.sources[i].muted,
            None => self.mic_muted,
        };
        let new_mute = !is_muted;
        self.mic_muted = new_mute;
        set_mute_where(&mut self.sources, &t, new_mute);
        (target, new_mute)
    }

    /// Makes `sink` the active sink and marks exactly the sinks so named
    /// default.
    pub fn apply_default_sink(&mut self, sink: &str)
        ensures
            default_sink_applied(*old(self), *final(self), sink@),
    {
        self.active_sink_name = sink.to_string();
        let desc = set_default_where(&mut self.sinks, &chars_of(sink));
        if let Some(d) = desc {
            self.active_sink_desc = d;
        }
    }

    /// Makes `source` the active source and marks exactly the sources so
    /// named default.
    pub fn apply_default_source(&mut self, source: &str)
        ensures
            default_source_applied(*old(self), *final(self), source@),
    {
        self.active_source_name = source.to_string();
        let desc = set_default_where(&mut self.sources, &chars_of(source));
        if let Some(d) = desc {
            self.active_source_desc = d;
        }
    }
}

/// A change that a client asks of the audio state, volumes already in
/// whole percent.
#[derive(Debug)]
pub enum AudioCommand {
    SetSinkVolume { sink: String, volume: u8 },
    SetSinkMute { sink: String, mute: bool },
    ToggleSinkMute { sink: String },
    SetSourceVolume { source: String, volume: u8 },
    SetSourceMute { source: String, mute: bool },
    ToggleSourceMute { source: String },
    SetDefaultSink(String),
    SetDefaultSource(String),
}

/// What the sound server is to be told after a command.
#[derive(Debug)]
pub enum ServerRequest {
    SinkVolume { target: String, channels: u8 },
    SinkMute { target: String, mute: bool },
    SourceVolume { target: String, channels: u8 },
    SourceMute { target: String, mute: bool },
    DefaultSink(String),
    DefaultSource(String),
}

/// The user's choice that is kept for a short while, so that a query
/// answered before the server caught up does not undo it.
#[derive(Debug)]
pub enum OverrideUpdate {
    SinkVolume(u8),
    SinkMuted(bool),
    SourceVolume(u8),
    SourceMuted(bool),
    DefaultSink(String),
    DefaultSource(String),
}

/// Everything a command leads to besides the change of state.
#[derive(Debug)]
pub struct CommandEffect {
    pub request: ServerRequest,
    pub remember: OverrideUpdate,
    /// Whether subscribers are told of the change at once.
    pub announce: bool,
}

/// What applying `cmd` to `a` gives: the new state `b` and the effect `e`.
pub open spec fn command_applied(cmd: AudioCommand, a: AudioStatus, b: AudioStatus, e: CommandEffect) -> bool {
    match cmd {
        AudioCommand::SetSinkVolume { sink, volume } => {
            let t = a.sink_target(sink@);
            &&& sink_volume_applied(a, b, t, volume)
            &&& e.request matches ServerRequest::SinkVolume { target, channels }
            &&& target@ == t && channels == channels_for(a.sinks@, t)
            &&& e.remember == OverrideUpdate::SinkVolume(volume)
            &&& e.announce
        },
        AudioCommand::SetSinkMute { sink, mute } => {
            let t = a.sink_target(sink@);
            &&& sink_mute_applied(a, b, t, mute)
            &&& e.request matches ServerRequest::SinkMute { target, mute: m }
            &&& target@ == t && m == mute
            &&& e.remember == OverrideUpdate::SinkMuted(mute)
            &&& e.announce
        },
        AudioCommand::ToggleSinkMute { sink } => {
            let t = a.sink_target(sink@);
            let m = !sink_mute_read(a, t);
            &&& sink_mute_applied(a, b, t, m)
            &&& e.request matches ServerRequest::SinkMute { target, mute }
            &&& target@ == t && mute == m
            &&& e.remember == OverrideUpdate::SinkMuted(m)
            &&& e.announce
        },
        AudioCommand::SetSourceVolume { source, volume } => {
            let t = a.source_target(source@);
            &&& source_volume_applied(a, b, t, volume)
            &&& e.request matches ServerRequest::SourceVolume { target, channels }
            &&& target@ == t && channels == channels_for(a.sources@, t)
            &&& e.remember == OverrideUpdate::SourceVolume(volume)
            &&& !e.announce
        },
        AudioCommand::SetSourceMute { source, mute } => {
            let t = a.source_target(source@);
            &&& source_mute_applied(a, b, t, mute)
            &&& e.request matches ServerRequest::SourceMute { target, mute: m }
            &&& target@ == t && m == mute
            &&& e.remember == OverrideUpdate::SourceMuted(mute)
            &&& e.announce
        },
        AudioCommand::ToggleSourceMute { source } => {
            let t = a.source_target(source@);
            let m = !source_mute_read(a, t);
            &&& source_mute_applied(a, b, t, m)
            &&& e.request matches ServerRequest::SourceMute { target, mute }
            &&& target@ == t && mute == m
            &&& e.remember == OverrideUpdate::SourceMuted(m)
            &&& !e.announce
        },
        AudioCommand::SetDefaultSink(n) => {
            &&& default_sink_applied(a, b, n@)
            &&& e.request matches ServerRequest::DefaultSink(r)
            &&& r@ == n@
            &&& e.remember matches OverrideUpdate::DefaultSink(o)
            &&& o@ == n@
            &&& !e.announce
        },
        AudioCommand::SetDefaultSource(n) => {
            &&& default_source_applied(a, b, n@)
            &&& e.request matches ServerRequest::DefaultSource(r)
            &&& r@ == n@
            &&& e.remember matches OverrideUpdate::DefaultSource(o)
            &&& o@ == n@
            &&& !e.announce
        },
    }
}

fn channels_of(ds: &Vec<AudioDeviceInfo>, t: &Vec<char>) -> (r: u8)
    ensures
        r == channels_for(ds@, t@),
{
    let c = match find_named(ds, t) {
        Some(i) => ds[i].channels,
        None => default_channels(),
    };
    if c < 1 { 1 } else { c }
}

impl AudioStatus {
    /// Applies one client command to the state and says what the sound
    /// server is to be told, what is remembered, and whether subscribers
    /// hear of it at once.
    pub fn apply(&mut self, cmd: AudioCommand) -> (e: CommandEffect)
        ensures
            command_applied(cmd, *old(self), *final(self), e),
    {
        match cmd {
            AudioCommand::SetSinkVolume { sink, volume } => {
                let target = self.resolve_sink(sink.as_str());
                let channels = channels_of(&self.sinks, &chars_of(target.as_str()));
                let target = self.apply_sink_volume(sink.as_str(), volume);
                CommandEffect {
                    request: ServerRequest::SinkVolume { target, channels },
                    remember: OverrideUpdate::SinkVolume(volume),
                    announce: true,
                }
            },
            AudioCommand::SetSinkMute { sink, mute } => {
                let target = self.apply_sink_mute(sink.as_str(), mute);
                CommandEffect {
                    request: ServerRequest::SinkMute { target, mute },
                    remember: OverrideUpdate::SinkMuted(mute),
                    announce: true,
                }
            },
            AudioCommand::ToggleSinkMute { sink } => {
                let (target, mute) = self.apply_sink_toggle(sink.as_str());
                CommandEffect {
                    request: ServerRequest::SinkMute { target, mute },
                    remember: OverrideUpdate::SinkMuted(mute),
                    announce: true,
                }
            },
            AudioCommand::SetSourceVolume { source, volume } => {
                let target = self.resolve_source(source.as_str());
                let channels = channels_of(&self.sources, &chars_of(target.as_str()));
                let target = self.apply_source_volume(source.as_str(), volume);
                CommandEffect {
                    request: ServerRequest::SourceVolume { target, channels },
                    remember: OverrideUpdate::SourceVolume(volume),
                    announce: false,
                }
            },
            AudioCommand::SetSourceMute { source, mute } => {
                let target = self.apply_source_mute(source.as_str(), mute);
                CommandEffect {
                    request: ServerRequest::SourceMute { target, mute },
                    remember: OverrideUpdate::SourceMuted(mute),
                    announce: true,
                }
            },
            AudioCommand::ToggleSourceMute { source } => {
                let (target, mute) = self.apply_source_toggle(source.as_str());
                CommandEffect {
                    request: ServerRequest::SourceMute { target, mute },
                    remember: OverrideUpdate::SourceMuted(mute),
                    announce: false,
                }
            },
            AudioCommand::SetDefaultSink(name) => {
                self.apply_default_sink(name.as_str());
                CommandEffect {
                    request: ServerRequest::DefaultSink(name.clone()),
                    remember: OverrideUpdate::DefaultSink(name),
                    announce: false,
                }
            },
            AudioCommand::SetDefaultSource(name) => {
                self.apply_default_source(name.as_str());
                CommandEffect {
                    request: ServerRequest::DefaultSource(name.clone()),
                    remember: OverrideUpdate::DefaultSource(name),
                    announce: false,
                }
            },
        }
    }
}

/// The user's recent choices that a query result must not undo; the caller
/// keeps only those made recently enough to still count.
#[derive(Debug)]
pub struct FreshOverrides {
    pub default_sink: Option<String>,
    pub default_source: Option<String>,
    pub sink_volume: Option<u8>,
    pub source_volume: Option<u8>,
    pub sink_muted: Option<bool>,
    pub source_muted: Option<bool>,
}

/// `d` as a query leaves it: default exactly when named `n`, and then with
/// the remembered volume and mute state in place of the reported ones.
pub open spec fn marked(d: AudioDeviceInfo, n: Seq<char>, vol: Option<u8>, m: Option<bool>) -> AudioDeviceInfo {
    if d.name@ == n {
        AudioDeviceInfo {
            name: d.name,
            description: d.description,
            volume: match vol {
                Some(v) => v,
                None => d.volume,
            },
            muted: match m {
                Some(x) => x,
                None => d.muted,
            },
            is_default: true,
            channels: d.channels,
        }
    } else {
        with_default(d, false)
    }
}

pub open spec fn has_named(ds: Seq<AudioDeviceInfo>, n: Seq<char>) -> bool {
    exists|j: int| 0 <= j < ds.len() && #[trigger] ds[j].name@ == n
}

/// The devices a query reported, marked against the default name `n`; when
/// none is so named, the first becomes the default.
pub open spec fn settled_devices(ds: Seq<AudioDeviceInfo>, n: Seq<char>, vol: Option<u8>, m: Option<bool>) -> Seq<AudioDeviceInfo> {
    let mk = Seq::new(ds.len(), |i: int| marked(ds[i], n, vol, m));
    if ds.len() > 0 && !has_named(ds, n) {
        mk.update(0, with_default(mk[0], true))
    } else {
        mk
    }
}

/// The name of the default device after a query.
pub open spec fn settled_active(ds: Seq<AudioDeviceInfo>, n: Seq<char>) -> Seq<char> {
    if ds.len() > 0 && !has_named(ds, n) { ds[0].name@ } else { n }
}

/// The sink half of `b` is what a query of `ds` with default name `n`
/// leaves from `a`.
pub open spec fn sinks_committed(a: AudioStatus, b: AudioStatus, ds: Seq<AudioDeviceInfo>, n: Seq<char>, vol: Option<u8>, m: Option<bool>) -> bool {
    let s = settled_devices(ds, n, vol, m);
    &&& b.sinks@ == s
    &&& b.active_sink_name@ == settled_active(ds, n)
    &&& match first_default(s) {
        Some(d) => b.volume == d.volume && b.muted == d.muted && b.active_sink_desc == d.description,
        None => b.volume == a.volume && b.muted == a.muted && b.active_sink_desc == a.active_sink_desc,
    }
}

/// The source half of `b` is what a query of `ds` with default name `n`
/// leaves from `a`.
pub open spec fn sources_committed(a: AudioStatus, b: AudioStatus, ds: Seq<AudioDeviceInfo>, n: Seq<char>, vol: Option<u8>, m: Option<bool>) -> bool {
    let s = settled_devices(ds, n, vol, m);
    &&& b.sources@ == s
    &&& b.active_source_name@ == settled_active(ds, n)
    &&& match first_default(s) {
        Some(d) => b.mic_volume == d.volume && b.mic_muted == d.muted && b.active_source_desc == d.description,
        None => b.mic_volume == a.mic_volume && b.mic_muted == a.mic_muted && b.active_source_desc == a.active_source_desc,
    }
}

fn settle(ds: Vec<AudioDeviceInfo>, n: String, vol: Option<u8>, m: Option<bool>) -> (r: (Vec<AudioDeviceInfo>, String))
    ensures
        r.0@ == settled_devices(ds@, n@, vol, m),
        r.1@ == settled_active(ds@, n@),
{
    let t = chars_of(n.as_str());
    let mut out: Vec<AudioDeviceInfo> = Vec::new();
    let mut any = false;
    let mut i: usize = 0;
    while i < ds.len()
        invariant
            t@ == n@,
            i <= ds.len(),
            out@.len() == i,
            forall|j: int| 0 <= j < i ==> out@[j] == marked(ds@[j], n@, vol, m),
            any == (exists|j: int| 0 <= j < i && #[trigger] ds@[j].name@ == n@),
        decreases ds.len() - i,
    {
        let hit = chars_eq(&chars_of(ds[i].name.as_str()), &t);
        let d = if hit {
            AudioDeviceInfo {
                name: ds[i].name.clone(),
                description: ds[i].description.clone(),
                volume: match vol {
                    Some(v) => v,
                    None => ds[i].volume,
                },
                muted: match m {
                    Some(x) => x,
                    None => ds[i].muted,
                },
                is_default: true,
                channels: ds[i].channels,
            }
        } else {
            AudioDeviceInfo {
                name: ds[i].name.clone(),
                description: ds[i].description.clone(),
                volume: ds[i].volume,
                muted: ds[i].muted,
                is_default: false,
                channels: ds[i].channels,
            }
        };
        out.push(d);
        any = any || hit;
        i = i + 1;
    }
    let ghost mk = Seq::new(ds@.len(), |k: int| marked(ds@[k], n@, vol, m));
    assert(out@ =~= mk);
    if out.len() > 0 && !any {
        let first = AudioDeviceInfo {
            name: out[0].name.clone(),
            description: out[0].description.clone(),
            volume: out[0].volume,
            muted: out[0].muted,
            is_default: true,
            channels: out[0].channels,
        };
        let name = out[0].name.clone();
        out.set(0, first);
        (out, name)
    } else {
        (out, n)
    }
}

proof fn lemma_first_default_prefix(s: Seq<AudioDeviceInfo>, k: int)
    requires
        0 <= k <= s.len(),
        first_default(s.take(k)) is Some,
    ensures
        first_default(s) == first_default(s.take(k)),
    decreases s.len(),
{
    if k == s.len() {
        assert(s.take(k) =~= s);
    } else {
        assert(s.drop_last().take(k) =~= s.take(k));
        lemma_first_default_prefix(s.drop_last(), k);
    }
}

/// The index of the first device marked default.
fn find_default(ds: &Vec<AudioDeviceInfo>) -> (r: Option<usize>)
    ensures
        match r {
            Some(i) => i < ds@.len() && first_default(ds@) == Some(ds@[i as int]),
            None => first_default(ds@) is None,
        },
{
    let mut i: usize = 0;
    while i < ds.len()
        invariant
            i <= ds.len(),
            first_default(ds@.take(i as int)) is None,
        decreases ds.len() - i,
    {
        assert(ds@.take(i + 1).drop_last() =~= ds@.take(i as int));
        if ds[i].is_default {
            proof {
                lemma_first_default_prefix(ds@, i + 1);
            }
            return Some(i);
        }
        i = i + 1;
    }
    assert(ds@.take(ds.len() as int) =~= ds@);
    None
}

impl AudioStatus {
    /// Takes in the answer to a query of the sound server: its default sink
    /// and source names and its device lists (monitor sources already left
    /// out). Recent user choices in `ov` win over what the server reported.
    pub fn commit_query(
        &mut self,
        def_sink: String,
        def_source: String,
        sinks: Vec<AudioDeviceInfo>,
        sources: Vec<AudioDeviceInfo>,
        ov: &FreshOverrides,
    )
        ensures
            sinks_committed(
                *old(self),
                *final(self),
                sinks@,
                match ov.default_sink {
                    Some(s) => s@,
                    None => def_sink@,
                },
                ov.sink_volume,
                ov.sink_muted,
            ),
            sources_committed(
                *old(self),
                *final(self),
                sources@,
                match ov.default_source {
                    Some(s) => s@,
                    None => def_source@,
                },
                ov.source_volume,
                ov.source_muted,
            ),
    {
        let sink_name = match &ov.default_sink {
            Some(s) => s.clone(),
            None => def_sink,
        };
        let source_name = match &ov.default_source {
            Some(s) => s.clone(),
            None => def_source,
        };
        let (sinks, sink_active) = settle(sinks, sink_name, ov.sink_volume, ov.sink_muted);
        let (sources, source_active) = settle(
            sources,
            source_name,
            ov.source_volume,
            ov.source_muted,
        );
        self.active_sink_name = sink_active;
        self.active_source_name = source_active;
        if let Some(i) = find_default(&sinks) {
            self.volume = sinks[i].volume;
            self.muted = sinks[i].muted;
            self.active_sink_desc = sinks[i].description.clone();
        }
        if let Some(i) = find_default(&sources) {
            self.mic_volume = sources[i].volume;
            self.mic_muted = sources[i].muted;
            self.active_source_desc = sources[i].description.clone();
        }
        self.sinks = sinks;
        self.sources = sources;
    }
}

/// Whether a source the server lists is a real input rather than the
/// monitor of a sink.
pub fn keeps_source(name: &str) -> (r: bool)
    ensures
        r == !crate::text::spec_ends_with(name@, ".monitor"@),
{
    !crate::text::ends_with(&chars_of(name), &chars_of(".monitor"))
}

/// After a query, every device marked default carries the active name,
/// names are kept in order, and a non-empty list always has a default.
pub proof fn law_query_default_follows_active(ds: Seq<AudioDeviceInfo>, n: Seq<char>, vol: Option<u8>, m: Option<bool>)
    ensures
        settled_devices(ds, n, vol, m).len() == ds.len(),
        forall|i: int| 0 <= i < ds.len() ==> (#[trigger] settled_devices(ds, n, vol, m)[i]).name == ds[i].name,
        forall|i: int| 0 <= i < ds.len() && (#[trigger] settled_devices(ds, n, vol, m)[i]).is_default
            ==> settled_devices(ds, n, vol, m)[i].name@ == settled_active(ds, n),
        ds.len() > 0 ==> (first_default(settled_devices(ds, n, vol, m)) matches Some(d)
            && d.name@ == settled_active(ds, n)),
{
    let s = settled_devices(ds, n, vol, m);
    if ds.len() > 0 {
        if has_named(ds, n) {
            let j = choose|j: int| 0 <= j < ds.len() && #[trigger] ds[j].name@ == n;
            assert(s[j].is_default);
            lemma_first_default_exists(s, j);
        } else {
            assert(s[0].is_default);
            lemma_first_default_exists(s, 0);
        }
    }
}

proof fn lemma_first_default_exists(s: Seq<AudioDeviceInfo>, j: int)
    requires
        0 <= j < s.len(),
        s[j].is_default,
    ensures
        first_default(s) matches Some(d) && d.is_default && exists|k: int| 0 <= k < s.len() && s[k] == d,
    decreases s.len(),
{
    if j < s.len() - 1 {
        lemma_first_default_exists(s.drop_last(), j);
        let d = first_default(s.drop_last())->0;
        let k = choose|k: int| 0 <= k < s.drop_last().len() && s.drop_last()[k] == d;
        assert(s[k] == d);
    } else {
        match first_default(s.drop_last()) {
            Some(d) => {
                lemma_first_default_exists_any(s.drop_last());
                let k = choose|k: int| 0 <= k < s.drop_last().len() && s.drop_last()[k] == d;
                assert(s[k] == d);
            },
            None => {
                assert(s[s.len() - 1] == s.last());
            },
        }
    }
}

proof fn lemma_first_default_exists_any(s: Seq<AudioDeviceInfo>)
    requires
        first_default(s) is Some,
    ensures
        first_default(s) matches Some(d) && d.is_default && exists|k: int| 0 <= k < s.len() && s[k] == d,
    decreases s.len(),
{
    match first_default(s.drop_last()) {
        Some(d) => {
            lemma_first_default_exists_any(s.drop_last());
            let k = choose|k: int| 0 <= k < s.drop_last().len() && s.drop_last()[k] == d;
            assert(s[k] == d);
        },
        None => {
            assert(s[s.len() - 1] == s.last());
        },
    }
}

proof fn lemma_first_named_after_mute(ds: Seq<AudioDeviceInfo>, t: Seq<char>, m: bool)
    ensures
        first_named(devices_with_mute(ds, t, m), t) == match first_named(ds, t) {
            Some(d) => Some(with_mute(d, m)),
            None => None::<AudioDeviceInfo>,
        },
    decreases ds.len(),
{
    if ds.len() > 0 {
        assert(devices_with_mute(ds, t, m).drop_last() =~= devices_with_mute(ds.drop_last(), t, m));
        lemma_first_named_after_mute(ds.drop_last(), t, m);
    }
}

/// Toggling the mute state of one sink twice leaves it, and the status, as
/// the first toggle found it.
pub proof fn law_sink_toggle_twice_restores(a: AudioStatus, b: AudioStatus, c: AudioStatus, n: Seq<char>)
    requires
        sink_mute_applied(a, b, a.sink_target(n), !sink_mute_read(a, a.sink_target(n))),
        sink_mute_applied(b, c, b.sink_target(n), !sink_mute_read(b, b.sink_target(n))),
    ensures
        c.muted == sink_mute_read(a, a.sink_target(n)),
        c.sinks@ == devices_with_mute(a.sinks@, a.sink_target(n), sink_mute_read(a, a.sink_target(n))),
        c.volume == a.volume,
        c.active_sink_name == a.active_sink_name,
        sources_kept(a, c),
{
    let t = a.sink_target(n);
    let m0 = sink_mute_read(a, t);
    lemma_first_named_after_mute(a.sinks@, t, !m0);
    assert(b.sink_target(n) == t);
    assert(sink_mute_read(b, t) == !m0);
    assert(c.sinks@ =~= devices_with_mute(a.sinks@, t, m0));
}

/// Choosing a default sink makes exactly the sinks of that name default.
pub proof fn law_default_sink_is_exact(a: AudioStatus, b: AudioStatus, n: Seq<char>)
    requires
        default_sink_applied(a, b, n),
    ensures
        b.active_sink_name@ == n,
        b.sinks@.len() == a.sinks@.len(),
        forall|i: int| 0 <= i < b.sinks@.len() ==> ((#[trigger] b.sinks@[i]).is_default <==> b.sinks@[i].name@ == n),
{
}

/// Raising a sink's volume above zero leaves it and the status unmuted.
pub proof fn law_sink_volume_unmutes(a: AudioStatus, b: AudioStatus, t: Seq<char>, v: u8)
    requires
        sink_volume_applied(a, b, t, v),
        v > 0,
    ensures
        b.volume == v,
        !b.muted,
        forall|i: int| 0 <= i < b.sinks@.len() && (#[trigger] b.sinks@[i]).name@ == t
            ==> b.sinks@[i].volume == v && !b.sinks@[i].muted,
{
}

/// Keeps at most one query of the sound server running; a query asked for
/// while one runs is remembered and run after it.
#[derive(Debug)]
pub struct QueryGate {
    pub in_flight: bool,
    pub rerun: bool,
}

impl QueryGate {
    pub fn new() -> (g: QueryGate)
        ensures
            !g.in_flight,
            !g.rerun,
    {
        QueryGate { in_flight: false, rerun: false }
    }

    /// Whether a new query may start now; if not, one is owed afterwards.
    pub fn begin(&mut self) -> (started: bool)
        ensures
            started == !old(self).in_flight,
            final(self).in_flight,
            final(self).rerun == (old(self).rerun || old(self).in_flight),
    {
        if self.in_flight {
            self.rerun = true;
            false
        } else {
            self.in_flight = true;
            true
        }
    }

    /// The running query has been committed.
    pub fn finish(&mut self)
        ensures
            !final(self).in_flight,
            final(self).rerun == old(self).rerun,
    {
        self.in_flight = false;
    }

    /// Whether a query was asked for while another ran; clears the request.
    pub fn take_rerun(&mut self) -> (r: bool)
        ensures
            r == old(self).rerun,
            !final(self).rerun,
            final(self).in_flight == old(self).in_flight,
    {
        let r = self.rerun;
        self.rerun = false;
        r
    }
}

/// What a line sent to the audio socket asks for.
#[derive(Debug)]
pub enum AudioRequestPlan {
    Status,
    Subscribe,
    Run(AudioCommand),
    Unknown,
}

/// The plan for a socket request, given its command word, its target, and
/// the mute flag, device name and volume (in whole percent) it carried.
pub open spec fn spec_request_plan(cmd: Seq<char>, target: Seq<char>, mute: Option<bool>, name: Option<String>, volume: u8, p: AudioRequestPlan) -> bool {
    let source = target.len() > 0 && spec_is_source_target(target);
    let m = match mute {
        Some(b) => b,
        None => false,
    };
    if cmd == "status"@ {
        p is Status
    } else if cmd == "set_volume"@ {
        if source {
            p matches AudioRequestPlan::Run(AudioCommand::SetSourceVolume { source: s, volume: v }) && s@ == target && v == volume
        } else {
            p matches AudioRequestPlan::Run(AudioCommand::SetSinkVolume { sink: s, volume: v }) && s@ == target && v == volume
        }
    } else if cmd == "set_mute"@ {
        if source {
            p matches AudioRequestPlan::Run(AudioCommand::SetSourceMute { source: s, mute: x }) && s@ == target && x == m
        } else {
            p matches AudioRequestPlan::Run(AudioCommand::SetSinkMute { sink: s, mute: x }) && s@ == target && x == m
        }
    } else if cmd == "toggle_mute"@ {
        if source {
            p matches AudioRequestPlan::Run(AudioCommand::ToggleSourceMute { source: s }) && s@ == target
        } else {
            p matches AudioRequestPlan::Run(AudioCommand::ToggleSinkMute { sink: s }) && s@ == target
        }
    } else if cmd == "set_default"@ {
        let n = match name {
            Some(s) => s@,
            None => Seq::<char>::empty(),
        };
        if target == "sink"@ {
            p matches AudioRequestPlan::Run(AudioCommand::SetDefaultSink(s)) && s@ == n
        } else {
            p matches AudioRequestPlan::Run(AudioCommand::SetDefaultSource(s)) && s@ == n
        }
    } else if cmd == "subscribe"@ {
        p is Subscribe
    } else {
        p is Unknown
    }
}

/// Decides what a socket request asks of the audio daemon.
pub fn request_plan(cmd: &str, target: String, mute: Option<bool>, name: Option<String>, volume: u8) -> (p: AudioRequestPlan)
    ensures
        spec_request_plan(cmd@, target@, mute, name, volume, p),
{
    let source = target.unicode_len() > 0 && is_source_target(target.as_str());
    let m = match mute {
        Some(b) => b,
        None => false,
    };
    if str_is(cmd, "status") {
        AudioRequestPlan::Status
    } else if str_is(cmd, "set_volume") {
        if source {
            AudioRequestPlan::Run(AudioCommand::SetSourceVolume { source: target, volume })
        } else {
            AudioRequestPlan::Run(AudioCommand::SetSinkVolume { sink: target, volume })
        }
    } else if str_is(cmd, "set_mute") {
        if source {
            AudioRequestPlan::Run(AudioCommand::SetSourceMute { source: target, mute: m })
        } else {
            AudioRequestPlan::Run(AudioCommand::SetSinkMute { sink: target, mute: m })
        }
    } else if str_is(cmd, "toggle_mute") {
        if source {
            AudioRequestPlan::Run(AudioCommand::ToggleSourceMute { source: target })
        } else {
            AudioRequestPlan::Run(AudioCommand::ToggleSinkMute { sink: target })
        }
    } else if str_is(cmd, "set_default") {
        let n = match name {
            Some(s) => s,
            None => String::new(),
        };
        if str_is(target.as_str(), "sink") {
            AudioRequestPlan::Run(AudioCommand::SetDefaultSink(n))
        } else {
            AudioRequestPlan::Run(AudioCommand::SetDefaultSource(n))
        }
    } else if str_is(cmd, "subscribe") {
        AudioRequestPlan::Subscribe
    } else {
        AudioRequestPlan::Unknown
    }
}

} // verus!
