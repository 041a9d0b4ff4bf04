//! Network indicator logic: the Wi-Fi popup and password-prompt state
//! machine, scan animation, and the decisions taken on connection requests.

use vstd::prelude::*;
use vstd::utf8::{decode_utf8, encode_utf8, valid_utf8};
use crate::json::Json;
use crate::text::{chars_eq, chars_of, spec_starts_with, starts_with, slice, string_of};

verus! {

/// Number of frames of the scan spinner.
pub const SPINNER_FRAMES: usize = 8;

pub struct NetworkModule {
    pub ssid: String,
    pub signal: u8,
    pub connected: bool,
    pub is_scanning: bool,
    pub scan_ticks: u8,
    pub scan_frame: usize,
    pub popup_open: bool,
    pub auth_target_ssid: Option<String>,
    pub auth_password: String,
    pub auth_error: Option<String>,
    pub auth_popup_open: bool,
}

/// The module's state as plain values.
pub struct NetworkView {
    pub ssid: Seq<char>,
    pub signal: u8,
    pub connected: bool,
    pub is_scanning: bool,
    pub scan_ticks: u8,
    pub scan_frame: usize,
    pub popup_open: bool,
    pub auth_target_ssid: Option<Seq<char>>,
    pub auth_password: Seq<char>,
    pub auth_error: Option<Seq<char>>,
    pub auth_popup_open: bool,
}

pub open spec fn opt_view(o: Option<String>) -> Option<Seq<char>> {
    match o {
        Some(s) => Some(s@),
        None => None,
    }
}

impl NetworkModule {
    pub open spec fn view(&self) -> NetworkView {
        NetworkView {
            ssid: self.ssid@,
            signal: self.signal,
            connected: self.connected,
            is_scanning: self.is_scanning,
            scan_ticks: self.scan_ticks,
            scan_frame: self.scan_frame,
            popup_open: self.popup_open,
            auth_target_ssid: opt_view(self.auth_target_ssid),
            auth_password: self.auth_password@,
            auth_error: opt_view(self.auth_error),
            auth_popup_open: self.auth_popup_open,
        }
    }
}

impl Default for NetworkModule {
    fn default() -> (m: Self)
        ensures
            m.ssid@ == Seq::<char>::empty(),
            m.signal == 0,
            !m.connected,
            !m.is_scanning,
            m.scan_ticks == 0,
            m.scan_frame == 0,
            !m.popup_open,
            m.auth_target_ssid is None,
            m.auth_password@ == Seq::<char>::empty(),
            m.auth_error is None,
            !m.auth_popup_open,
    {
        NetworkModule {
            ssid: String::new(),
            signal: 0,
            connected: false,
            is_scanning: false,
            scan_ticks: 0,
            scan_frame: 0,
            popup_open: false,
            auth_target_ssid: None,
            auth_password: String::new(),
            auth_error: None,
            auth_popup_open: false,
        }
    }
}

/// Work an event leaves for the caller, which talks to NetworkManager and the shell.
#[derive(Debug)]
pub enum NetworkAction {
    Nothing,
    /// Read whether Wi-Fi is enabled and pass it to `finish_wireless_toggle`.
    ToggleWireless,
    /// Ask every wireless device to scan, then redraw the network popup.
    StartScan,
    /// Connect to the named network: see `connect_plan`.
    Connect(String),
    /// Check and submit the typed password: see `check_auth`.
    SubmitAuth,
    /// Redraw the password prompt.
    ShowAuthPopup,
    /// Close the password prompt surface.
    CloseAuth,
    /// Redraw the network popup.
    ShowNetworkPopup,
}

pub enum ActionView {
    Nothing,
    ToggleWireless,
    StartScan,
    Connect(Seq<char>),
    SubmitAuth,
    ShowAuthPopup,
    CloseAuth,
    ShowNetworkPopup,
}

impl NetworkAction {
    pub open spec fn view(&self) -> ActionView {
        match self {
            NetworkAction::Nothing => ActionView::Nothing,
            NetworkAction::ToggleWireless => ActionView::ToggleWireless,
            NetworkAction::StartScan => ActionView::StartScan,
            NetworkAction::Connect(s) => ActionView::Connect(s@),
            NetworkAction::SubmitAuth => ActionView::SubmitAuth,
            NetworkAction::ShowAuthPopup => ActionView::ShowAuthPopup,
            NetworkAction::CloseAuth => ActionView::CloseAuth,
            NetworkAction::ShowNetworkPopup => ActionView::ShowNetworkPopup,
        }
    }
}

/// The state with the password prompt closed and its input and error cleared.
pub open spec fn auth_reset(m: NetworkView) -> NetworkView {
    NetworkView { auth_popup_open: false, auth_password: Seq::empty(), auth_error: None, ..m }
}

pub open spec fn is_network_popup_id(w: Seq<char>) -> bool {
    w == "network"@ || w == "popup:network"@ || w == "wifi"@ || w == "popup:wifi"@
}

pub open spec fn opens_network_popup(w: Seq<char>) -> bool {
    w == "network"@ || w == "wifi"@ || w == "net"@ || w == "popup:network"@ || w == "popup:wifi"@
        || w.len() == 0
}

/// The state and the work after an event on a network widget.
pub open spec fn spec_on_event(m: NetworkView, w: Seq<char>, e: Seq<char>) -> (NetworkView, ActionView) {
    if e == "close"@ {
        if w == "wifi-auth"@ || w == "popup:wifi-auth"@ {
            (auth_reset(m), ActionView::Nothing)
        } else if is_network_popup_id(w) {
            (NetworkView { popup_open: false, ..m }, ActionView::Nothing)
        } else {
            (auth_reset(NetworkView { popup_open: false, ..m }), ActionView::Nothing)
        }
    } else if w == "wifi_toggle"@ {
        (m, ActionView::ToggleWireless)
    } else if w == "wifi_rescan"@ || w == "popup:wifi-rescan"@ {
        if !m.is_scanning {
            (NetworkView { is_scanning: true, scan_ticks: 0, scan_frame: 0, ..m }, ActionView::StartScan)
        } else {
            (m, ActionView::Nothing)
        }
    } else if spec_starts_with(w, "connect_"@) {
        if e == "click"@ {
            (m, ActionView::Connect(w.subrange("connect_"@.len() as int, w.len() as int)))
        } else {
            (m, ActionView::Nothing)
        }
    } else if w == "wifi_auth_input"@ {
        if e == "submit"@ || e == "enter"@ {
            (m, ActionView::SubmitAuth)
        } else if m.auth_error is Some {
            (NetworkView { auth_password: e, auth_error: None, ..m }, ActionView::ShowAuthPopup)
        } else {
            (NetworkView { auth_password: e, ..m }, ActionView::Nothing)
        }
    } else if w == "wifi_auth_connect"@ {
        (m, if e == "click"@ { ActionView::SubmitAuth } else { ActionView::Nothing })
    } else if w == "wifi_auth_cancel"@ {
        if e == "click"@ { (auth_reset(m), ActionView::CloseAuth) } else { (m, ActionView::Nothing) }
    } else if opens_network_popup(w) && (e == "open"@ || e == "click"@) {
        (NetworkView { popup_open: true, ..m }, ActionView::ShowNetworkPopup)
    } else {
        (m, ActionView::Nothing)
    }
}

fn is(w: &Vec<char>, lit: &str) -> (r: bool)
    ensures
        r == (w@ == lit@),
{
    chars_eq(w, &chars_of(lit))
}

impl NetworkModule {
    fn reset_auth(&mut self)
        ensures
            final(self).view() == auth_reset(old(self).view()),
    {
        self.auth_popup_open = false;
        self.auth_password = String::new();
        self.auth_error = None;
    }

    /// Updates the state for an event on a network widget and says what is
    /// left to do.
    pub fn on_event(&mut self, widget_id: &str, event: &str) -> (a: NetworkAction)
        ensures
            (final(self).view(), a.view()) == spec_on_event(old(self).view(), widget_id@, event@),
    {
        let w = chars_of(widget_id);
        let e = chars_of(event);
        if is(&e, "close") {
            if is(&w, "wifi-auth") || is(&w, "popup:wifi-auth") {
                self.reset_auth();
            } else if is(&w, "network") || is(&w, "popup:network") || is(&w, "wifi") || is(&w, "popup:wifi") {
                self.popup_open = false;
            } else {
                self.popup_open = false;
                self.reset_auth();
            }
            return NetworkAction::Nothing;
        }
        if is(&w, "wifi_toggle") {
            NetworkAction::ToggleWireless
        } else if is(&w, "wifi_rescan") || is(&w, "popup:wifi-rescan") {
            if !self.is_scanning {
                self.is_scanning = true;
                self.scan_ticks = 0;
                self.scan_frame = 0;
                NetworkAction::StartScan
            } else {
                NetworkAction::Nothing
            }
        } else if starts_with(&w, &chars_of("connect_")) {
            if is(&e, "click") {
                let p = chars_of("connect_");
                NetworkAction::Connect(string_of(&slice(&w, p.len(), w.len())))
            } else {
                NetworkAction::Nothing
            }
        } else if is(&w, "wifi_auth_input") {
            if is(&e, "submit") || is(&e, "enter") {
                NetworkAction::SubmitAuth
            } else {
                self.auth_password = string_of(&e);
                if self.auth_error.is_some() {
                    self.auth_error = None;
                    NetworkAction::ShowAuthPopup
                } else {
                    NetworkAction::Nothing
                }
            }
        } else if is(&w, "wifi_auth_connect") {
            if is(&e, "click") { NetworkAction::SubmitAuth } else { NetworkAction::Nothing }
        } else if is(&w, "wifi_auth_cancel") {
            if is(&e, "click") {
                self.reset_auth();
                NetworkAction::CloseAuth
            } else {
                NetworkAction::Nothing
            }
        } else if (is(&w, "network") || is(&w, "wifi") || is(&w, "net") || is(&w, "popup:network")
            || is(&w, "popup:wifi") || w.len() == 0) && (is(&e, "open") || is(&e, "click")) {
            self.popup_open = true;
            NetworkAction::ShowNetworkPopup
        } else {
            NetworkAction::Nothing
        }
    }
}

/// How a connection request proceeds.
#[derive(Debug, Clone, Copy, PartialEq, Eq)]
pub enum ConnectPlan {
    /// Activate the saved connection, which holds credentials.
    ActivateSaved,
    /// The network is open: add and activate a connection without a key.
    ConnectOpen,
    /// Ask the user for the password.
    AskPassword,
}

/// What a password submission leads to.
#[derive(Debug)]
pub enum AuthStep {
    /// No network is waiting for a password.
    Nothing,
    /// The password was refused before trying; redraw the prompt with the error.
    ShowError,
    /// Try to connect to `ssid` with `password`, then call `finish_auth`.
    TryConnect { ssid: String, password: String },
}

/// What a scan tick leads to.
#[derive(Debug, Clone, Copy, PartialEq, Eq)]
pub enum ScanTick {
    /// No scan is running.
    Idle,
    /// The spinner moved; redraw the popup when it is open.
    Frame,
    /// The scan is over; refresh the status and redraw the popup when it is open.
    Finished,
}

/// Number of ticks after which a scan is considered finished.
pub const SCAN_TICKS: u8 = 14;

/// How a connection request proceeds: a saved connection with credentials
/// is used as is, an open network is joined directly, otherwise the user is
/// asked for the password.
pub fn connect_plan(saved_has_credentials: bool, secured: bool) -> (p: ConnectPlan)
    ensures
        p == (if saved_has_credentials {
            ConnectPlan::ActivateSaved
        } else if !secured {
            ConnectPlan::ConnectOpen
        } else {
            ConnectPlan::AskPassword
        }),
{
    if saved_has_credentials {
        ConnectPlan::ActivateSaved
    } else if !secured {
        ConnectPlan::ConnectOpen
    } else {
        ConnectPlan::AskPassword
    }
}

/// Whether an access point needs a key, and whether it needs WPA3-SAE:
/// any RSN or WPA flag or the privacy bit secures it; SAE is the RSN
/// `0x400` key management without the PSK bit `0x200`.
pub fn ap_security(rsn: u64, wpa: u64, flags: u64) -> (r: (bool, bool))
    ensures
        r.0 == (rsn > 0 || wpa > 0 || flags % 2 == 1),
        r.1 == ((rsn / 1024) % 2 == 1 && (rsn / 512) % 2 == 0),
{
    let secured = rsn > 0 || wpa > 0 || (flags & 1 != 0);
    let is_sae = (rsn & 1024 != 0) && (rsn & 512 == 0);
    assert((flags & 1 != 0) == (flags % 2 == 1)) by (bit_vector);
    assert((rsn & 1024 != 0) == ((rsn / 1024) % 2 == 1)) by (bit_vector);
    assert((rsn & 512 == 0) == ((rsn / 512) % 2 == 0)) by (bit_vector);
    (secured, is_sae)
}

/// The bytes of an SSID held as an array of numbers, each taken modulo 256
/// and non-numbers skipped.
pub open spec fn ssid_byte_values(vals: Seq<Json>) -> Seq<u8>
    decreases vals.len(),
{
    if vals.len() == 0 {
        Seq::empty()
    } else {
        let init = ssid_byte_values(vals.drop_last());
        match vals.last().spec_as_u64() {
            Some(n) => init.push((n % 256) as u8),
            None => init,
        }
    }
}

/// The text of an SSID as NetworkManager reports it: a byte array decoded
/// as UTF-8 (empty when invalid), or a plain string.
pub open spec fn spec_parse_ssid(val: Json) -> Seq<char> {
    match val {
        Json::Array(a) => if valid_utf8(ssid_byte_values(a@)) {
            decode_utf8(ssid_byte_values(a@))
        } else {
            Seq::empty()
        },
        Json::Str(s) => s@,
        _ => Seq::empty(),
    }
}

/// Decodes UTF-8 bytes.
/// Calls `String::from_utf8`, which std documents to succeed exactly on
/// valid UTF-8 and then to hold the decoded characters.
#[verifier::external_body]
fn string_from_utf8(bytes: Vec<u8>) -> (r: Option<String>)
    ensures
        r is Some <==> valid_utf8(bytes@),
        r matches Some(s) ==> s@ == decode_utf8(bytes@),
{
    String::from_utf8(bytes).ok()
}

/// The text of an SSID as NetworkManager reports it.
pub fn parse_ssid_bytes(val: &Json) -> (r: String)
    ensures
        r@ == spec_parse_ssid(*val),
{
    match val {
        Json::Array(a) => {
            let mut bytes: Vec<u8> = Vec::new();
            let mut i: usize = 0;
            while i < a.len()
                invariant
                    i <= a.len(),
                    bytes@ == ssid_byte_values(a@.take(i as int)),
                decreases a.len() - i,
            {
                assert(a@.take(i + 1).drop_last() == a@.take(i as int));
                match a[i].as_u64() {
                    Some(n) => bytes.push((n % 256) as u8),
                    None => {},
                }
                i = i + 1;
            }
            assert(a@.take(a.len() as int) == a@);
            match string_from_utf8(bytes) {
                Some(s) => s,
                None => String::new(),
            }
        },
        Json::Str(s) => s.clone(),
        _ => String::new(),
    }
}

/// The status icon name for a connection state and signal strength.
pub open spec fn spec_status_icon(connected: bool, signal: u8) -> Seq<char> {
    if !connected {
        "network-wireless-offline"@
    } else if signal < 30 {
        "network-wireless-signal-weak"@
    } else if signal < 65 {
        "network-wireless-signal-ok"@
    } else {
        "network-wireless-signal-excellent"@
    }
}

pub fn status_icon(connected: bool, signal: u8) -> (r: &'static str)
    ensures
        r@ == spec_status_icon(connected, signal),
{
    if !connected {
        "network-wireless-offline"
    } else if signal < 30 {
        "network-wireless-signal-weak"
    } else if signal < 65 {
        "network-wireless-signal-ok"
    } else {
        "network-wireless-signal-excellent"
    }
}

/// The message shown when a password is too short to be a WPA key.
pub open spec fn short_password_error() -> Seq<char> {
    "Password must be at least 8 characters"@
}

/// The message shown when connecting with the typed password failed.
pub open spec fn failed_connect_error() -> Seq<char> {
    "Connection failed. Please check password."@
}

impl NetworkModule {
    /// Completes a Wi-Fi toggle once the current state is known: turning
    /// Wi-Fi off closes an open password prompt. Returns whether it did.
    pub fn finish_wireless_toggle(&mut self, wifi_on: bool) -> (closed_auth: bool)
        ensures
            closed_auth == (wifi_on && old(self).auth_popup_open),
            final(self).view() == if closed_auth { auth_reset(old(self).view()) } else { old(self).view() },
    {
        if wifi_on && self.auth_popup_open {
            self.reset_auth();
            true
        } else {
            false
        }
    }

    /// Advances the scan animation; a scan ends after `SCAN_TICKS` ticks.
    pub fn tick(&mut self) -> (t: ScanTick)
        requires
            old(self).is_scanning ==> old(self).scan_ticks < u8::MAX && old(self).scan_frame < usize::MAX,
        ensures
            !old(self).is_scanning ==> t == ScanTick::Idle && final(self).view() == old(self).view(),
            old(self).is_scanning && old(self).scan_ticks + 1 >= SCAN_TICKS ==> t == ScanTick::Finished
                && final(self).view() == (NetworkView {
                    is_scanning: false,
                    scan_ticks: 0,
                    scan_frame: 0,
                    ..old(self).view()
                }),
            old(self).is_scanning && old(self).scan_ticks + 1 < SCAN_TICKS ==> t == ScanTick::Frame
                && final(self).view() == (NetworkView {
                    scan_ticks: (old(self).scan_ticks + 1) as u8,
                    scan_frame: ((old(self).scan_frame + 1) % SPINNER_FRAMES as int) as usize,
                    ..old(self).view()
                }),
    {
        if !self.is_scanning {
            return ScanTick::Idle;
        }
        self.scan_ticks = self.scan_ticks + 1;
        self.scan_frame = (self.scan_frame + 1) % SPINNER_FRAMES;
        if self.scan_ticks >= SCAN_TICKS {
            self.is_scanning = false;
            self.scan_ticks = 0;
            self.scan_frame = 0;
            ScanTick::Finished
        } else {
            ScanTick::Frame
        }
    }

    /// Ends a scan early when NetworkManager reports wireless changes after
    /// at least four ticks.
    pub fn on_dbus_signal(&mut self, interface: &str, member: &str)
        ensures
            final(self).view() == if old(self).is_scanning && old(self).scan_ticks >= 4
                && (crate::text::spec_contains(interface@, "Wireless"@) || member@ == "PropertiesChanged"@
                || member@ == "AccessPointAdded"@) {
                NetworkView { is_scanning: false, scan_ticks: 0, scan_frame: 0, ..old(self).view() }
            } else {
                old(self).view()
            },
    {
        let i = chars_of(interface);
        let m = chars_of(member);
        if self.is_scanning && self.scan_ticks >= 4 && (crate::text::contains(&i, &chars_of("Wireless"))
            || is(&m, "PropertiesChanged") || is(&m, "AccessPointAdded")) {
            self.is_scanning = false;
            self.scan_ticks = 0;
            self.scan_frame = 0;
        }
    }

    /// Opens the password prompt for `ssid` with empty input.
    pub fn begin_auth(&mut self, ssid: &str)
        ensures
            final(self).view() == (NetworkView {
                auth_target_ssid: Some(ssid@),
                auth_password: Seq::empty(),
                auth_error: None,
                auth_popup_open: true,
                ..old(self).view()
            }),
    {
        self.auth_target_ssid = Some(string_of(&chars_of(ssid)));
        self.auth_password = String::new();
        self.auth_error = None;
        self.auth_popup_open = true;
    }

    /// Checks the typed password: without a target nothing happens; a
    /// password shorter than eight bytes sets the error; otherwise the
    /// connection is to be tried.
    pub fn check_auth(&mut self) -> (step: AuthStep)
        ensures
            old(self).auth_target_ssid is None ==> step is Nothing && final(self).view() == old(self).view(),
            old(self).auth_target_ssid is Some && (encode_utf8(old(self).auth_password@).len() as usize) < 8 ==> step is ShowError
                && final(self).view() == (NetworkView { auth_error: Some(short_password_error()), ..old(self).view() }),
            old(self).auth_target_ssid is Some && (encode_utf8(old(self).auth_password@).len() as usize) >= 8 ==> final(self).view() == old(self).view()
                && (step matches AuthStep::TryConnect { ssid, password }
                    && Some(ssid@) == opt_view(old(self).auth_target_ssid)
                    && password@ == old(self).auth_password@),
    {
        let ssid = match &self.auth_target_ssid {
            Some(s) => s.clone(),
            None => return AuthStep::Nothing,
        };
        if self.auth_password.as_str().len() < 8 {
            self.auth_error = Some(string_of(&chars_of("Password must be at least 8 characters")));
            return AuthStep::ShowError;
        }
        AuthStep::TryConnect { ssid, password: self.auth_password.clone() }
    }

    /// Records the outcome of a connection attempt with the typed password:
    /// success closes the prompt, failure shows an error.
    pub fn finish_auth(&mut self, success: bool)
        ensures
            success ==> final(self).view() == auth_reset(old(self).view()),
            !success ==> final(self).view() == (NetworkView { auth_error: Some(failed_connect_error()), ..old(self).view() }),
    {
        if success {
            self.reset_auth();
        } else {
            self.auth_error = Some(string_of(&chars_of("Connection failed. Please check password.")));
        }
    }
}

/// Closing the password prompt, by the cancel button or by closing its
/// surface, always leaves it closed with no password or error kept.
pub proof fn law_auth_dismissal_clears_secret(m: NetworkView)
    ensures
        ({
            let (a, _) = spec_on_event(m, "wifi_auth_cancel"@, "click"@);
            let (b, _) = spec_on_event(m, "wifi-auth"@, "close"@);
            &&& !a.auth_popup_open && a.auth_password.len() == 0 && a.auth_error is None
            &&& !b.auth_popup_open && b.auth_password.len() == 0 && b.auth_error is None
        }),
{
    reveal_strlit("wifi_auth_cancel");
    reveal_strlit("click");
    reveal_strlit("close");
    reveal_strlit("wifi-auth");
    reveal_strlit("wifi_toggle");
    reveal_strlit("wifi_rescan");
    reveal_strlit("popup:wifi-rescan");
    reveal_strlit("connect_");
    reveal_strlit("wifi_auth_input");
    reveal_strlit("wifi_auth_connect");
    assert("click"@[2] == 'i');
    assert("close"@[2] == 'o');
    assert("click"@ != "close"@);
    let c = "wifi_auth_cancel"@;
    assert(c[5] == 'a' && "wifi_toggle"@[5] == 't');
    assert(c[5] == 'a' && "wifi_rescan"@[5] == 'r');
    assert(c[0] == 'w' && "popup:wifi-rescan"@[0] == 'p');
    assert(c[0] == 'w' && "connect_"@[0] == 'c');
    assert(c.subrange(0, 8)[0] == c[0]);
    assert(c[10] == 'c' && "wifi_auth_input"@[10] == 'i');
    assert(c[11] == 'a' && "wifi_auth_connect"@[11] == 'o');
    assert("close"@[1] == 'l' && "click"@[1] == 'l');
}

} // verus!
