//! Media player widget: what each event asks of the player, and how a
//! track position is written.

use vstd::prelude::*;
use crate::json::Json;
use crate::notification_center::{spec_truncate, truncate_text};
use crate::number::{decimal, spec_decimal};
use crate::text::{
    ascii_uppercase, chars_of, concat, is_ascii_text, contains, spec_contains, spec_starts_with, spec_strip_prefix, spec_to_uppercase,
    starts_with, str_is, string_of, strip_prefix, to_uppercase,
};

verus! {

/// What an event on the media widgets asks for.
#[derive(Debug, PartialEq, Eq)]
pub enum MediaCommand {
    ShowPopup,
    TogglePlayback,
    Next,
    Previous,
    Stop,
    /// Seek to the position (in seconds) written before the first `:` of
    /// the event.
    Seek,
    Nothing,
}

pub open spec fn is_media_root(w: Seq<char>) -> bool {
    w == "mpris"@ || w == "media"@ || w == "player"@ || w == "popup:mpris"@
}

pub open spec fn spec_media_command(w: Seq<char>, e: Seq<char>) -> MediaCommand {
    if e == "open"@ || (is_media_root(w) && (e == "click"@ || e == "toggle"@)) {
        MediaCommand::ShowPopup
    } else if w == "mpris_play_pause"@ || w == "play_pause"@ || w == "play"@ || w == "pause"@ || w == "toggle"@ {
        MediaCommand::TogglePlayback
    } else if w == "mpris_next"@ || w == "next"@ {
        MediaCommand::Next
    } else if w == "mpris_prev"@ || w == "prev"@ || w == "previous"@ {
        MediaCommand::Previous
    } else if w == "mpris_stop"@ || w == "stop"@ {
        MediaCommand::Stop
    } else if w == "mpris_seek"@ || w == "seek"@ {
        MediaCommand::Seek
    } else if e == "click"@ {
        if spec_contains(w, "next"@) {
            MediaCommand::Next
        } else if spec_contains(w, "prev"@) {
            MediaCommand::Previous
        } else if spec_contains(w, "play"@) || spec_contains(w, "pause"@) {
            MediaCommand::TogglePlayback
        } else if spec_contains(w, "stop"@) {
            MediaCommand::Stop
        } else {
            MediaCommand::Nothing
        }
    } else {
        MediaCommand::Nothing
    }
}

/// Decides what an event on the media widgets asks for.
pub fn media_command(widget_id: &str, event: &str) -> (r: MediaCommand)
    ensures
        r == spec_media_command(widget_id@, event@),
{
    let w = chars_of(widget_id);
    let root = str_is(widget_id, "mpris") || str_is(widget_id, "media") || str_is(widget_id, "player")
        || str_is(widget_id, "popup:mpris");
    if str_is(event, "open") || (root && (str_is(event, "click") || str_is(event, "toggle"))) {
        MediaCommand::ShowPopup
    } else if str_is(widget_id, "mpris_play_pause") || str_is(widget_id, "play_pause") || str_is(widget_id, "play")
        || str_is(widget_id, "pause") || str_is(widget_id, "toggle") {
        MediaCommand::TogglePlayback
    } else if str_is(widget_id, "mpris_next") || str_is(widget_id, "next") {
        MediaCommand::Next
    } else if str_is(widget_id, "mpris_prev") || str_is(widget_id, "prev") || str_is(widget_id, "previous") {
        MediaCommand::Previous
    } else if str_is(widget_id, "mpris_stop") || str_is(widget_id, "stop") {
        MediaCommand::Stop
    } else if str_is(widget_id, "mpris_seek") || str_is(widget_id, "seek") {
        MediaCommand::Seek
    } else if str_is(event, "click") {
        if contains(&w, &chars_of("next")) {
            MediaCommand::Next
        } else if contains(&w, &chars_of("prev")) {
            MediaCommand::Previous
        } else if contains(&w, &chars_of("play")) || contains(&w, &chars_of("pause")) {
            MediaCommand::TogglePlayback
        } else if contains(&w, &chars_of("stop")) {
            MediaCommand::Stop
        } else {
            MediaCommand::Nothing
        }
    } else {
        MediaCommand::Nothing
    }
}

/// A number written with at least two digits.
pub open spec fn two_digits(n: nat) -> Seq<char> {
    if n < 10 { "0"@ + spec_decimal(n) } else { spec_decimal(n) }
}

fn two_digits_exec(n: u64) -> (r: Vec<char>)
    ensures
        r@ == two_digits(n as nat),
{
    let d = chars_of(decimal(n).as_str());
    if n < 10 { concat(&chars_of("0"), &d) } else { d }
}

/// A position of `seconds` whole seconds as `MM:SS`.
pub fn format_duration(seconds: u64) -> (r: String)
    ensures
        r@ == two_digits((seconds / 60) as nat) + ":"@ + two_digits((seconds % 60) as nat),
{
    let a = concat(&two_digits_exec(seconds / 60), &chars_of(":"));
    string_of(&concat(&a, &two_digits_exec(seconds % 60)))
}

/// The bus-name prefix of media players.
pub open spec fn player_prefix() -> Seq<char> {
    "org.mpris.MediaPlayer2."@
}

/// The first name at or after position `i` that belongs to a media player.
pub open spec fn first_player_from(a: Seq<Json>, i: int) -> Option<Seq<char>>
    decreases a.len() - i,
{
    if i < 0 || i >= a.len() {
        None
    } else {
        match a[i] {
            Json::Str(s) => if spec_starts_with(s@, player_prefix()) {
                Some(s@)
            } else {
                first_player_from(a, i + 1)
            },
            _ => first_player_from(a, i + 1),
        }
    }
}

/// The first media player among the bus names that `ListNames` answered.
pub open spec fn spec_find_player(names: Json) -> Option<Seq<char>> {
    match names {
        Json::Array(a) => first_player_from(a@, 0),
        _ => None,
    }
}

/// Picks the first media player among the bus names that `ListNames`
/// answered.
pub fn find_player(names: &Json) -> (r: Option<String>)
    ensures
        match r {
            Some(s) => spec_find_player(*names) == Some(s@),
            None => spec_find_player(*names) is None,
        },
{
    let a = match names.as_array() {
        Some(a) => a,
        None => return None,
    };
    let prefix = chars_of("org.mpris.MediaPlayer2.");
    let mut i: usize = 0;
    while i < a.len()
        invariant
            i <= a.len(),
            prefix@ == player_prefix(),
            spec_find_player(*names) == first_player_from(a@, i as int),
        decreases a.len() - i,
    {
        if let Some(s) = a[i].as_str() {
            if starts_with(&chars_of(s.as_str()), &prefix) {
                return Some(s.clone());
            }
        }
        i = i + 1;
    }
    None
}

/// The player's short name: its bus name without the prefix.
pub fn player_name(service: &str) -> (r: String)
    ensures
        r@ == match spec_strip_prefix(service@, player_prefix()) {
            Some(rest) => rest,
            None => service@,
        },
{
    match strip_prefix(&chars_of(service), &chars_of("org.mpris.MediaPlayer2.")) {
        Some(rest) => string_of(&rest),
        None => service.to_string(),
    }
}

/// The bus name of the player called `player`.
pub fn player_bus_name(player: &str) -> (r: String)
    ensures
        r@ == player_prefix() + player@,
{
    string_of(&concat(&chars_of("org.mpris.MediaPlayer2."), &chars_of(player)))
}

/// `parts` joined with `sep` between them.
pub open spec fn spec_join(parts: Seq<Seq<char>>, sep: Seq<char>) -> Seq<char>
    decreases parts.len(),
{
    if parts.len() == 0 {
        Seq::empty()
    } else if parts.len() == 1 {
        parts[0]
    } else {
        spec_join(parts.drop_last(), sep) + sep + parts.last()
    }
}

/// The strings among `a`, in order.
pub open spec fn json_strs(a: Seq<Json>) -> Seq<Seq<char>>
    decreases a.len(),
{
    if a.len() == 0 {
        Seq::empty()
    } else {
        let rest = json_strs(a.drop_last());
        match a.last() {
            Json::Str(s) => rest.push(s@),
            _ => rest,
        }
    }
}

/// The strings of a list, joined with `, `.
pub fn join_strings(a: &Vec<Json>) -> (r: String)
    ensures
        r@ == spec_join(json_strs(a@), ", "@),
{
    let sep = chars_of(", ");
    let mut acc: Vec<char> = Vec::new();
    let mut n: usize = 0;
    let mut i: usize = 0;
    assert(a@.take(0) =~= Seq::<Json>::empty());
    while i < a.len()
        invariant
            i <= a.len(),
            sep@ == ", "@,
            n == json_strs(a@.take(i as int)).len(),
            n <= i,
            acc@ == spec_join(json_strs(a@.take(i as int)), ", "@),
        decreases a.len() - i,
    {
        let ghost before = json_strs(a@.take(i as int));
        assert(a@.take(i as int + 1).drop_last() =~= a@.take(i as int));
        assert(a@.take(i as int + 1).last() == a@[i as int]);
        if let Some(s) = a[i].as_str() {
            let ghost after = before.push(s@);
            assert(after.drop_last() =~= before);
            if n == 0 {
                acc = chars_of(s.as_str());
            } else {
                acc = concat(&concat(&acc, &sep), &chars_of(s.as_str()));
            }
            n = n + 1;
        }
        i = i + 1;
    }
    assert(a@.take(a.len() as int) =~= a@);
    string_of(&acc)
}

/// The text fields of the media player state.
#[derive(Debug)]
pub struct MediaInfo {
    pub player: String,
    pub status: String,
    pub title: String,
    pub artist: String,
    pub album: String,
    pub art_url: String,
}

impl Default for MediaInfo {
    fn default() -> (r: MediaInfo)
        ensures
            r.player@.len() == 0 && r.status@.len() == 0 && r.title@.len() == 0,
            r.artist@.len() == 0 && r.album@.len() == 0 && r.art_url@.len() == 0,
    {
        MediaInfo {
            player: String::new(),
            status: String::new(),
            title: String::new(),
            artist: String::new(),
            album: String::new(),
            art_url: String::new(),
        }
    }
}

pub open spec fn str_at(v: Json, key: Seq<char>) -> Option<Seq<char>> {
    match v.spec_get(key) {
        Some(j) => j.spec_as_str(),
        None => None,
    }
}

fn str_at_exec(v: &Json, key: &str) -> (r: Option<String>)
    ensures
        match r {
            Some(s) => str_at(*v, key@) == Some(s@),
            None => str_at(*v, key@) is None,
        },
{
    match v.get(key) {
        Some(j) => match j.as_str() {
            Some(s) => Some(s.clone()),
            None => None,
        },
        None => None,
    }
}

/// The artist named in the metadata: a string, or a list whose strings are
/// joined with `, `.
pub open spec fn meta_artist(meta: Json) -> Option<Seq<char>> {
    match meta.spec_get("xesam:artist"@) {
        Some(Json::Str(s)) => Some(s@),
        Some(Json::Array(a)) => Some(spec_join(json_strs(a@), ", "@)),
        _ => None,
    }
}

/// The cover art's location, without a `file://` prefix.
pub open spec fn meta_art(meta: Json) -> Option<Seq<char>> {
    match str_at(meta, "mpris:artUrl"@) {
        Some(u) => Some(match spec_strip_prefix(u, "file://"@) {
            Some(rest) => rest,
            None => u,
        }),
        None => None,
    }
}

pub open spec fn or_keep(v: Option<Seq<char>>, old: Seq<char>) -> Seq<char> {
    match v {
        Some(s) => s,
        None => old,
    }
}

pub open spec fn meta_field(props: Json, f: spec_fn(Json) -> Option<Seq<char>>) -> Option<Seq<char>> {
    match props.spec_get("Metadata"@) {
        Some(meta) => f(meta),
        None => None,
    }
}

impl MediaInfo {
    /// Takes what the player's `GetAll` answer says; a field it leaves out
    /// keeps its value.
    pub fn apply_props(&mut self, props: &Json)
        ensures
            final(self).player == old(self).player,
            final(self).status@ == or_keep(str_at(*props, "PlaybackStatus"@), old(self).status@),
            final(self).title@ == or_keep(meta_field(*props, |m: Json| str_at(m, "xesam:title"@)), old(self).title@),
            final(self).artist@ == or_keep(meta_field(*props, |m: Json| meta_artist(m)), old(self).artist@),
            final(self).album@ == or_keep(meta_field(*props, |m: Json| str_at(m, "xesam:album"@)), old(self).album@),
            final(self).art_url@ == or_keep(meta_field(*props, |m: Json| meta_art(m)), old(self).art_url@),
    {
        if let Some(st) = str_at_exec(props, "PlaybackStatus") {
            self.status = st;
        }
        if let Some(meta) = props.get("Metadata") {
            if let Some(t) = str_at_exec(meta, "xesam:title") {
                self.title = t;
            }
            if let Some(a) = meta.get("xesam:artist") {
                if let Some(s) = a.as_str() {
                    self.artist = s.clone();
                } else if let Some(arr) = a.as_array() {
                    self.artist = join_strings(arr);
                }
            }
            if let Some(alb) = str_at_exec(meta, "xesam:album") {
                self.album = alb;
            }
            if let Some(art) = str_at_exec(meta, "mpris:artUrl") {
                self.art_url = match strip_prefix(&chars_of(art.as_str()), &chars_of("file://")) {
                    Some(rest) => string_of(&rest),
                    None => art,
                };
            }
        }
    }

    /// No player is running: stopped, and no track.
    pub fn clear_track(&mut self)
        ensures
            final(self).player == old(self).player,
            final(self).status@ == "Stopped"@,
            final(self).title@.len() == 0 && final(self).artist@.len() == 0,
            final(self).album@.len() == 0 && final(self).art_url@.len() == 0,
    {
        self.status = "Stopped".to_string();
        self.title = String::new();
        self.artist = String::new();
        self.album = String::new();
        self.art_url = String::new();
    }

    /// Play/pause was pressed: a playing player pauses, any other plays.
    pub fn toggle_status(&mut self)
        ensures
            final(self).status@ == (if old(self).status@ == "Playing"@ { "Paused"@ } else { "Playing"@ }),
            final(self).player == old(self).player && final(self).title == old(self).title,
            final(self).artist == old(self).artist && final(self).album == old(self).album,
            final(self).art_url == old(self).art_url,
    {
        self.status = if str_is(self.status.as_str(), "Playing") {
            "Paused".to_string()
        } else {
            "Playing".to_string()
        };
    }

    pub open spec fn spec_is_stopped(self) -> bool {
        self.status@ == "Stopped"@ || (self.title@.len() == 0 && self.artist@.len() == 0)
    }

    /// Whether there is nothing to show: stopped, or no title and no artist.
    pub fn is_stopped(&self) -> (r: bool)
        ensures
            r == self.spec_is_stopped(),
    {
        str_is(self.status.as_str(), "Stopped") || (self.title.unicode_len() == 0 && self.artist.unicode_len() == 0)
    }

    /// The icon of the bar widget.
    pub fn icon_name(&self) -> (r: String)
        ensures
            r@ == (if self.spec_is_stopped() {
                "multimedia-player"@
            } else if self.status@ == "Playing"@ {
                "media-playback-start"@
            } else {
                "media-playback-pause"@
            }),
    {
        if self.is_stopped() {
            "multimedia-player".to_string()
        } else if str_is(self.status.as_str(), "Playing") {
            "media-playback-start".to_string()
        } else {
            "media-playback-pause".to_string()
        }
    }

    pub open spec fn spec_label(self) -> Seq<char> {
        if self.artist@.len() == 0 { self.title@ } else { self.artist@ + " - "@ + self.title@ }
    }

    pub open spec fn spec_bar_text(self) -> Seq<char> {
        if self.spec_is_stopped() {
            "\u{f0386} Media"@
        } else {
            let label = self.spec_label();
            let short = if label.len() > 28 { label.take(25) + "\u{2026}"@ } else { label };
            if self.status@ == "Playing"@ { "\u{f040a} "@ + short } else { "\u{f03e4} "@ + short }
        }
    }

    /// The text of the bar widget: the track, shortened to 28 characters,
    /// behind a play or pause glyph.
    pub fn bar_text(&self) -> (r: String)
        ensures
            r@ == self.spec_bar_text(),
    {
        if self.is_stopped() {
            return "\u{f0386} Media".to_string();
        }
        let label = if self.artist.unicode_len() == 0 {
            chars_of(self.title.as_str())
        } else {
            concat(&concat(&chars_of(self.artist.as_str()), &chars_of(" - ")), &chars_of(self.title.as_str()))
        };
        let short = if label.len() > 28 {
            let head = crate::text::slice(&label, 0, 25);
            assert(head@ =~= label@.take(25));
            concat(&head, &chars_of("\u{2026}"))
        } else {
            label
        };
        if str_is(self.status.as_str(), "Playing") {
            string_of(&concat(&chars_of("\u{f040a} "), &short))
        } else {
            string_of(&concat(&chars_of("\u{f03e4} "), &short))
        }
    }

    pub open spec fn spec_tooltip(self) -> Seq<char> {
        if self.spec_is_stopped() {
            "Media Player (No active media)\nClick: Toggle player console\nRight-click: Play/Pause"@
        } else {
            (if self.title@.len() == 0 { "Unknown Track"@ } else { self.title@ })
                + "\nArtist: "@ + (if self.artist@.len() == 0 { "Unknown Artist"@ } else { self.artist@ })
                + "\nAlbum: "@ + (if self.album@.len() == 0 { "Unknown Album"@ } else { self.album@ })
                + "\nStatus: "@ + self.status@ + "\nClick: Toggle player console\nRight-click: Play/Pause"@
        }
    }

    /// The tool tip of the bar widget.
    pub fn tooltip(&self) -> (r: String)
        ensures
            r@ == self.spec_tooltip(),
    {
        if self.is_stopped() {
            return "Media Player (No active media)\nClick: Toggle player console\nRight-click: Play/Pause".to_string();
        }
        let title = if self.title.unicode_len() == 0 { chars_of("Unknown Track") } else { chars_of(self.title.as_str()) };
        let artist = if self.artist.unicode_len() == 0 { chars_of("Unknown Artist") } else { chars_of(self.artist.as_str()) };
        let album = if self.album.unicode_len() == 0 { chars_of("Unknown Album") } else { chars_of(self.album.as_str()) };
        let mut t = concat(&title, &chars_of("\nArtist: "));
        t = concat(&t, &artist);
        t = concat(&t, &chars_of("\nAlbum: "));
        t = concat(&t, &album);
        t = concat(&t, &chars_of("\nStatus: "));
        t = concat(&t, &chars_of(self.status.as_str()));
        t = concat(&t, &chars_of("\nClick: Toggle player console\nRight-click: Play/Pause"));
        string_of(&t)
    }

    /// The title shown in the console: the title cut to 40 characters, or
    /// a note that nothing plays.
    pub fn safe_title(&self) -> (r: String)
        ensures
            r@ == (if self.title@.len() == 0 { "No media playing"@ } else { spec_truncate(self.title@, 40) }),
    {
        if self.title.unicode_len() == 0 {
            "No media playing".to_string()
        } else {
            truncate_text(self.title.as_str(), 40)
        }
    }

    /// The artist shown in the console: cut to 40 characters, or the
    /// player's generic name.
    pub fn safe_artist(&self) -> (r: String)
        ensures
            r@ == (if self.artist@.len() == 0 { "Media Player"@ } else { spec_truncate(self.artist@, 40) }),
    {
        if self.artist.unicode_len() == 0 {
            "Media Player".to_string()
        } else {
            truncate_text(self.artist.as_str(), 40)
        }
    }
}

/// The header of the media console: the player's name in capitals (or
/// `MEDIA PLAYER`), the state badge, and the badge's style.
#[derive(Debug)]
pub struct ConsoleHeader {
    pub player_label: String,
    pub badge: &'static str,
    pub badge_style: &'static str,
}

impl MediaInfo {
    pub fn console_header(&self) -> (r: ConsoleHeader)
        ensures
            r.player_label@ == (if self.player@.len() == 0 { "MEDIA PLAYER"@ } else { spec_to_uppercase(self.player@) }),
            self.player@.len() > 0 && is_ascii_text(self.player@) ==> r.player_label@ == ascii_uppercase(self.player@),
            r.badge@ == (if self.status@ == "Playing"@ {
                "PLAYING"@
            } else if self.status@ == "Paused"@ {
                "PAUSED"@
            } else {
                "IDLE"@
            }),
            r.badge_style@ == (if self.status@ == "Playing"@ { "clean_accent"@ } else { "audio_device_desc"@ }),
    {
        let playing = str_is(self.status.as_str(), "Playing");
        ConsoleHeader {
            player_label: if self.player.unicode_len() == 0 {
                "MEDIA PLAYER".to_string()
            } else {
                to_uppercase(self.player.as_str())
            },
            badge: if playing {
                "PLAYING"
            } else if str_is(self.status.as_str(), "Paused") {
                "PAUSED"
            } else {
                "IDLE"
            },
            badge_style: if playing { "clean_accent" } else { "audio_device_desc" },
        }
    }

    /// The track lines of the console: a prompt when nothing plays, else
    /// the title and artist cut to 34 characters.
    pub fn console_track(&self) -> (r: (String, String))
        ensures
            r.0@ == (if self.spec_is_stopped() {
                "Ready for playback"@
            } else if self.title@.len() == 0 {
                "Unknown Track"@
            } else {
                spec_truncate(self.title@, 34)
            }),
            r.1@ == (if self.spec_is_stopped() {
                "Open Spotify, Firefox or MPV"@
            } else if self.artist@.len() == 0 {
                "Unknown Artist"@
            } else {
                spec_truncate(self.artist@, 34)
            }),
    {
        if self.is_stopped() {
            return ("Ready for playback".to_string(), "Open Spotify, Firefox or MPV".to_string());
        }
        let title = if self.title.unicode_len() == 0 {
            "Unknown Track".to_string()
        } else {
            truncate_text(self.title.as_str(), 34)
        };
        let artist = if self.artist.unicode_len() == 0 {
            "Unknown Artist".to_string()
        } else {
            truncate_text(self.artist.as_str(), 34)
        };
        (title, artist)
    }

    /// The glyph of the play/pause button: pause while playing.
    pub fn play_glyph(&self) -> (r: &'static str)
        ensures
            r@ == (if self.status@ == "Playing"@ { "\u{f03e4}"@ } else { "\u{f040a}"@ }),
    {
        if str_is(self.status.as_str(), "Playing") { "\u{f03e4}" } else { "\u{f040a}" }
    }
}

} // verus!
