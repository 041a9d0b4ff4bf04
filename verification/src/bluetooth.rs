//! Bluetooth widget: the BlueZ object tree read into adapter and device
//! state, the order devices are listed in, and what each event asks.

use vstd::prelude::*;
use crate::json::Json;
use crate::launcher::{eq_ignore_ascii_case, eq_ignore_ascii_case_exec, lemma_seq_le_total, lemma_seq_le_transitive, seq_le};
use crate::text::{
    chars_eq, chars_of, concat, contains, replace_all, spec_contains, spec_replace,
    spec_starts_with, spec_to_lowercase, spec_trim_start_matches, starts_with, str_is, string_of,
    to_lowercase, trim_start_matches,
};

verus! {

broadcast use vstd::seq_lib::group_seq_properties;

/// One device BlueZ knows of.
#[derive(Debug, Clone)]
pub struct BtDevice {
    pub path: String,
    pub address: String,
    pub name: String,
    pub connected: bool,
    pub paired: bool,
    pub icon: String,
}

/// The Bluetooth widget's state.
#[derive(Debug)]
pub struct BluetoothModule {
    pub adapter_path: String,
    pub powered: bool,
    pub discovering: bool,
    pub connected_device: Option<String>,
    pub devices: Vec<BtDevice>,
    pub scan_ticks: u32,
}

impl Default for BluetoothModule {
    fn default() -> (r: BluetoothModule)
        ensures
            r.adapter_path@.len() == 0 && !r.powered && !r.discovering,
            r.connected_device is None && r.devices@.len() == 0 && r.scan_ticks == 0,
    {
        BluetoothModule {
            adapter_path: String::new(),
            powered: false,
            discovering: false,
            connected_device: None,
            devices: Vec::new(),
            scan_ticks: 0,
        }
    }
}

pub open spec fn spec_dev_icon(icon: Seq<char>, connected: bool) -> Seq<char> {
    let fallback = if connected { "bluetooth-active"@ } else { "bluetooth"@ };
    if icon.len() == 0 {
        fallback
    } else if icon == "audio-headset"@ || icon == "audio-headphones"@ {
        "audio-headphones"@
    } else if icon == "audio-card"@ {
        "audio-card"@
    } else if icon == "input-keyboard"@ {
        "input-keyboard"@
    } else if icon == "input-mouse"@ {
        "input-mouse"@
    } else if icon == "input-gaming"@ {
        "input-gaming"@
    } else if icon == "phone"@ {
        "phone"@
    } else if icon == "computer"@ {
        "computer"@
    } else {
        fallback
    }
}

/// The icon shown for a device: its own kind where the theme has one, else
/// the Bluetooth icon, active when connected.
pub fn dev_icon_name_for(icon_name: &str, connected: bool) -> (r: &'static str)
    ensures
        r@ == spec_dev_icon(icon_name@, connected),
{
    let fallback = if connected { "bluetooth-active" } else { "bluetooth" };
    if icon_name.unicode_len() == 0 {
        fallback
    } else if str_is(icon_name, "audio-headset") || str_is(icon_name, "audio-headphones") {
        "audio-headphones"
    } else if str_is(icon_name, "audio-card") {
        "audio-card"
    } else if str_is(icon_name, "input-keyboard") {
        "input-keyboard"
    } else if str_is(icon_name, "input-mouse") {
        "input-mouse"
    } else if str_is(icon_name, "input-gaming") {
        "input-gaming"
    } else if str_is(icon_name, "phone") {
        "phone"
    } else if str_is(icon_name, "computer") {
        "computer"
    } else {
        fallback
    }
}

/// Whether a device has a name of its own rather than its address.
pub open spec fn has_name(d: BtDevice) -> bool {
    !eq_ignore_ascii_case(d.name@, d.address@)
        && !eq_ignore_ascii_case(spec_replace(d.name@, "-"@, ":"@), d.address@)
}

/// Whether `a` may be listed before `b`: connected devices first, then
/// paired ones, then named ones, then by name, case aside.
pub open spec fn bt_le(a: BtDevice, b: BtDevice) -> bool {
    if a.connected != b.connected {
        a.connected
    } else if a.paired != b.paired {
        a.paired
    } else if has_name(a) != has_name(b) {
        has_name(a)
    } else {
        seq_le(spec_to_lowercase(a.name@), spec_to_lowercase(b.name@))
    }
}

/// `s` with `x` put after the last device that may come before it.
pub open spec fn insert_device(s: Seq<BtDevice>, x: BtDevice) -> Seq<BtDevice>
    decreases s.len(),
{
    if s.len() == 0 {
        seq![x]
    } else if bt_le(s.last(), x) {
        s.push(x)
    } else {
        insert_device(s.drop_last(), x).push(s.last())
    }
}

/// The devices in listing order, by stable insertion.
pub open spec fn sorted_devices(s: Seq<BtDevice>) -> Seq<BtDevice>
    decreases s.len(),
{
    if s.len() == 0 {
        Seq::empty()
    } else {
        insert_device(sorted_devices(s.drop_last()), s.last())
    }
}

fn has_name_exec(d: &BtDevice) -> (r: bool)
    ensures
        r == has_name(*d),
{
    let name = chars_of(d.name.as_str());
    proof {
        reveal_strlit("-");
    }
    let dashed = replace_all(&name, &chars_of("-"), &chars_of(":"));
    !eq_ignore_ascii_case_exec(&name, d.address.as_str())
        && !eq_ignore_ascii_case_exec(&dashed, d.address.as_str())
}

fn bt_le_exec(a: &BtDevice, b: &BtDevice) -> (r: bool)
    ensures
        r == bt_le(*a, *b),
{
    if a.connected != b.connected {
        a.connected
    } else if a.paired != b.paired {
        a.paired
    } else {
        let ha = has_name_exec(a);
        let hb = has_name_exec(b);
        if ha != hb {
            ha
        } else {
            let ka = chars_of(to_lowercase(a.name.as_str()).as_str());
            let kb = chars_of(to_lowercase(b.name.as_str()).as_str());
            crate::launcher::chars_le(&ka, &kb)
        }
    }
}

/// Puts devices in listing order; devices that compare equal keep their
/// order.
pub fn sort_devices(devs: Vec<BtDevice>) -> (r: Vec<BtDevice>)
    ensures
        r@ == sorted_devices(devs@),
{
    let ghost input = devs@;
    assert(input.len() == devs.len());
    let mut rest = devs;
    let mut out: Vec<BtDevice> = Vec::new();
    let mut k: usize = 0;
    while rest.len() > 0
        invariant
            k <= input.len(),
            input.len() <= usize::MAX,
            rest@ == input.skip(k as int),
            out@ == sorted_devices(input.take(k as int)),
        decreases rest.len(),
    {
        let x = rest.remove(0);
        assert(input.take(k + 1).drop_last() =~= input.take(k as int));
        assert(input.take(k + 1).last() == x);
        assert(rest@ =~= input.skip(k + 1));
        let mut j: usize = out.len();
        let ghost s = out@;
        assert(s.take(j as int) =~= s);
        assert(s.skip(j as int) =~= Seq::<BtDevice>::empty());
        while j > 0 && !bt_le_exec(&out[j - 1], &x)
            invariant
                j <= out.len(),
                out@ == s,
                insert_device(s, x) == insert_device(s.take(j as int), x) + s.skip(j as int),
            decreases j,
        {
            assert(s.take(j as int).drop_last() =~= s.take(j - 1));
            assert(s.take(j as int).last() == s[j - 1]);
            assert(s.skip(j - 1) =~= seq![s[j - 1]] + s.skip(j as int));
            assert(insert_device(s.take(j - 1), x).push(s[j - 1]) + s.skip(j as int) =~= insert_device(s.take(j - 1), x) + s.skip(j - 1));
            j = j - 1;
        }
        proof {
            if j > 0 {
                assert(s.take(j as int).last() == s[j - 1]);
            }
            assert(insert_device(s.take(j as int), x) =~= s.take(j as int).push(x));
        }
        out.insert(j, x);
        assert(out@ =~= s.take(j as int).push(x) + s.skip(j as int));
        k = k + 1;
    }
    assert(input.take(k as int) =~= input);
    out
}

/// A device as seen in specifications.
pub struct BtView {
    pub path: Seq<char>,
    pub address: Seq<char>,
    pub name: Seq<char>,
    pub connected: bool,
    pub paired: bool,
    pub icon: Seq<char>,
}

impl BtDevice {
    pub open spec fn view_bt(self) -> BtView {
        BtView {
            path: self.path@,
            address: self.address@,
            name: self.name@,
            connected: self.connected,
            paired: self.paired,
            icon: self.icon@,
        }
    }
}

pub open spec fn bt_views(ds: Seq<BtDevice>) -> Seq<BtView> {
    ds.map_values(|d: BtDevice| d.view_bt())
}

/// What has been read of the BlueZ object tree so far.
pub struct BluezScan {
    pub adapter_path: Seq<char>,
    pub powered: bool,
    pub discovering: bool,
    pub connected: Option<Seq<char>>,
    pub devices: Seq<BtView>,
}

pub open spec fn bluez_start() -> BluezScan {
    BluezScan {
        adapter_path: "/org/bluez/hci0"@,
        powered: false,
        discovering: false,
        connected: None,
        devices: Seq::empty(),
    }
}

pub open spec fn flag(v: Option<Json>) -> bool {
    match v {
        Some(j) => match j.spec_as_bool() {
            Some(b) => b,
            None => false,
        },
        None => false,
    }
}

pub open spec fn text_or(v: Option<Json>, d: Seq<char>) -> Seq<char> {
    match v {
        Some(j) => match j.spec_as_str() {
            Some(s) => s,
            None => d,
        },
        None => d,
    }
}

/// The name a device is listed by: its alias, else its name, else its
/// address.
pub open spec fn device_alias(dev: Json, addr: Seq<char>) -> Seq<char> {
    match dev.spec_get("Alias"@) {
        Some(Json::Str(a)) if a@.len() > 0 => a@,
        _ => match dev.spec_get("Name"@) {
            Some(Json::Str(n)) if n@.len() > 0 => n@,
            _ => addr,
        },
    }
}

/// The scan after the object at `path` with interfaces `ifaces`.
pub open spec fn bluez_object(st: BluezScan, path: Seq<char>, ifaces: Json) -> BluezScan {
    if !(ifaces is Object) {
        st
    } else {
        let st1 = match ifaces.spec_get("org.bluez.Adapter1"@) {
            Some(a) => {
                let p = flag(a.spec_get("Powered"@));
                if st.adapter_path.len() == 0 || st.adapter_path == "/org/bluez/hci0"@ || p {
                    BluezScan { adapter_path: path, powered: p, discovering: flag(a.spec_get("Discovering"@)), ..st }
                } else {
                    st
                }
            },
            None => st,
        };
        match ifaces.spec_get("org.bluez.Device1"@) {
            Some(d) => {
                let addr = text_or(d.spec_get("Address"@), ""@);
                if addr.len() == 0 {
                    st1
                } else {
                    let alias = device_alias(d, addr);
                    let conn = flag(d.spec_get("Connected"@));
                    let v = BtView {
                        path: path,
                        address: addr,
                        name: alias,
                        connected: conn,
                        paired: flag(d.spec_get("Paired"@)),
                        icon: text_or(d.spec_get("Icon"@), "bluetooth"@),
                    };
                    BluezScan {
                        connected: if conn && st1.connected is None { Some(alias) } else { st1.connected },
                        devices: st1.devices.push(v),
                        ..st1
                    }
                }
            },
            None => st1,
        }
    }
}

pub open spec fn bluez_objects(members: Seq<(String, Json)>) -> BluezScan
    decreases members.len(),
{
    if members.len() == 0 {
        bluez_start()
    } else {
        bluez_object(bluez_objects(members.drop_last()), members.last().0@, members.last().1)
    }
}

/// The state the BlueZ object tree gives; the defaults when there is no
/// reply or it is no object.
pub open spec fn spec_bluez(reply: Option<Json>) -> BluezScan {
    match reply {
        Some(Json::Object(members)) => bluez_objects(members@),
        _ => bluez_start(),
    }
}

/// The adapter and devices read from a reply.
#[derive(Debug)]
pub struct BluezState {
    pub adapter_path: String,
    pub powered: bool,
    pub discovering: bool,
    pub connected: Option<String>,
    pub devices: Vec<BtDevice>,
}

impl BluezState {
    pub open spec fn view_scan(&self) -> BluezScan {
        BluezScan {
            adapter_path: self.adapter_path@,
            powered: self.powered,
            discovering: self.discovering,
            connected: match self.connected {
                Some(s) => Some(s@),
                None => None,
            },
            devices: bt_views(self.devices@),
        }
    }
}

fn flag_exec(v: Option<&Json>) -> (r: bool)
    ensures
        r == flag(match v { Some(j) => Some(*j), None => None }),
{
    match v {
        Some(j) => match j.as_bool() {
            Some(b) => b,
            None => false,
        },
        None => false,
    }
}

fn text_or_exec(v: Option<&Json>, d: &str) -> (r: String)
    ensures
        r@ == text_or(match v { Some(j) => Some(*j), None => None }, d@),
{
    match v {
        Some(j) => match j.as_str() {
            Some(s) => s.clone(),
            None => d.to_string(),
        },
        None => d.to_string(),
    }
}

fn nonempty_text(v: Option<&Json>) -> (r: Option<String>)
    ensures
        match v {
            Some(Json::Str(s)) => if s@.len() > 0 { r == Some(*s) } else { r is None },
            _ => r is None,
        },
{
    match v {
        Some(j) => match j.as_str() {
            Some(s) => if s.unicode_len() > 0 { Some(s.clone()) } else { None },
            None => None,
        },
        None => None,
    }
}

fn bluez_object_exec(st: &mut BluezState, path: &String, ifaces: &Json)
    ensures
        final(st).view_scan() == bluez_object(old(st).view_scan(), path@, *ifaces),
{
    match ifaces {
        Json::Object(_) => {},
        _ => return,
    }
    if let Some(a) = ifaces.get("org.bluez.Adapter1") {
        let p = flag_exec(a.get("Powered"));
        let d = flag_exec(a.get("Discovering"));
        if st.adapter_path.unicode_len() == 0 || str_is(st.adapter_path.as_str(), "/org/bluez/hci0") || p {
            st.adapter_path = path.clone();
            st.powered = p;
            st.discovering = d;
        }
    }
    if let Some(d) = ifaces.get("org.bluez.Device1") {
        let addr = text_or_exec(d.get("Address"), "");
        if addr.unicode_len() == 0 {
            return;
        }
        let alias = match nonempty_text(d.get("Alias")) {
            Some(a) => a,
            None => match nonempty_text(d.get("Name")) {
                Some(n) => n,
                None => addr.clone(),
            },
        };
        let conn = flag_exec(d.get("Connected"));
        let dev = BtDevice {
            path: path.clone(),
            address: addr,
            name: alias.clone(),
            connected: conn,
            paired: flag_exec(d.get("Paired")),
            icon: text_or_exec(d.get("Icon"), "bluetooth"),
        };
        if conn && st.connected.is_none() {
            st.connected = Some(alias);
        }
        let ghost before = bt_views(st.devices@);
        st.devices.push(dev);
        assert(bt_views(st.devices@) =~= before.push(dev.view_bt()));
    }
}

/// Reads BlueZ's managed objects: the adapter to use (the first one, or a
/// powered one), its power and discovery state, the devices with an
/// address, and the first connected device's name.
pub fn read_bluez(reply: &Option<Json>) -> (r: BluezState)
    ensures
        r.view_scan() == spec_bluez(*reply),
{
    let mut st = BluezState {
        adapter_path: "/org/bluez/hci0".to_string(),
        powered: false,
        discovering: false,
        connected: None,
        devices: Vec::new(),
    };
    assert(bt_views(st.devices@) =~= Seq::<BtView>::empty());
    match reply {
        Some(Json::Object(members)) => {
            let mut i: usize = 0;
            while i < members.len()
                invariant
                    i <= members.len(),
                    st.view_scan() == bluez_objects(members@.take(i as int)),
                decreases members.len() - i,
            {
                assert(members@.take(i + 1).drop_last() =~= members@.take(i as int));
                assert(members@.take(i + 1).last() == members@[i as int]);
                bluez_object_exec(&mut st, &members[i].0, &members[i].1);
                i = i + 1;
            }
            assert(members@.take(members.len() as int) =~= members@);
            st
        },
        _ => st,
    }
}

/// What a device button asks of BlueZ.
#[derive(Debug, PartialEq, Eq)]
pub enum DeviceRequest {
    Disconnect,
    /// Pair first (when not paired), then connect.
    Connect { pair_first: bool },
}

/// What a Bluetooth widget event asks for.
#[derive(Debug)]
pub enum BluetoothAction {
    /// Set the adapter's power.
    SetPower { adapter: String, powered: bool },
    /// Start or stop discovery, powering the adapter on first if needed.
    Scan { adapter: String, power_on: bool, start: bool },
    /// Act on the device at this object path.
    Device { path: String, request: DeviceRequest },
    /// Read the state again and show the popup.
    Refresh,
    Nothing,
}

/// The address a device button names: its id after `bt_dev_`, with `_`
/// back to `:`.
pub open spec fn button_mac(w: Seq<char>) -> Seq<char> {
    spec_replace(spec_trim_start_matches(w, "bt_dev_"@), "_"@, ":"@)
}

/// Whether the device is the one a button names: its address matches,
/// case aside, or its object path holds the button's suffix.
pub open spec fn device_named_by(d: BtDevice, w: Seq<char>) -> bool {
    eq_ignore_ascii_case(d.address@, button_mac(w)) || spec_contains(d.path@, spec_trim_start_matches(w, "bt_dev_"@))
}

pub open spec fn first_device_named_by(ds: Seq<BtDevice>, w: Seq<char>) -> Option<BtDevice>
    decreases ds.len(),
{
    if ds.len() == 0 {
        None
    } else if device_named_by(ds[0], w) {
        Some(ds[0])
    } else {
        first_device_named_by(ds.drop_first(), w)
    }
}

pub open spec fn is_root_widget(w: Seq<char>) -> bool {
    w == "bluetooth"@ || w == "bt"@ || w == "popup:bluetooth"@ || w == "bluetooth:popup"@ || w.len() == 0
}

impl BluetoothModule {
    /// The adapter to address: the known one, else the first.
    pub open spec fn spec_adapter(&self) -> Seq<char> {
        if self.adapter_path@.len() == 0 { "/org/bluez/hci0"@ } else { self.adapter_path@ }
    }

    pub fn adapter(&self) -> (r: String)
        ensures
            r@ == self.spec_adapter(),
    {
        if self.adapter_path.unicode_len() == 0 {
            "/org/bluez/hci0".to_string()
        } else {
            self.adapter_path.clone()
        }
    }

    /// Decides what an event asks for. Scanning marks the adapter powered
    /// and restarts the scan timer.
    pub fn on_event(&mut self, widget_id: &str, event: &str) -> (r: BluetoothAction)
        ensures
            widget_id@ == "bluetooth_power_toggle"@ ==> (r matches BluetoothAction::SetPower { adapter, powered }
                && adapter@ == old(self).spec_adapter() && powered == !old(self).powered)
                && *final(self) == *old(self),
            widget_id@ != "bluetooth_power_toggle"@ && widget_id@ == "bt_scan_btn"@ ==> (r matches BluetoothAction::Scan { adapter, power_on, start }
                && adapter@ == old(self).spec_adapter() && power_on == !old(self).powered
                && start == !old(self).discovering)
                && final(self).powered && final(self).scan_ticks == 0
                && final(self).discovering == old(self).discovering
                && final(self).devices@ == old(self).devices@
                && final(self).adapter_path == old(self).adapter_path,
            widget_id@ != "bluetooth_power_toggle"@ && widget_id@ != "bt_scan_btn"@
                && spec_starts_with(widget_id@, "bt_dev_"@) ==> match first_device_named_by(old(self).devices@, widget_id@) {
                Some(d) => (r matches BluetoothAction::Device { path, request } && path == d.path
                    && request == if d.connected {
                        DeviceRequest::Disconnect
                    } else {
                        DeviceRequest::Connect { pair_first: !d.paired }
                    }),
                None => r is Nothing,
            } && *final(self) == *old(self),
            widget_id@ != "bluetooth_power_toggle"@ && widget_id@ != "bt_scan_btn"@
                && !spec_starts_with(widget_id@, "bt_dev_"@) ==> *final(self) == *old(self) && if is_root_widget(widget_id@)
                && (event@ == "open"@ || event@ == "click"@) {
                r is Refresh
            } else {
                r is Nothing
            },
    {
        if str_is(widget_id, "bluetooth_power_toggle") {
            return BluetoothAction::SetPower { adapter: self.adapter(), powered: !self.powered };
        }
        if str_is(widget_id, "bt_scan_btn") {
            let adapter = self.adapter();
            let power_on = !self.powered;
            if power_on {
                self.powered = true;
            }
            self.scan_ticks = 0;
            return BluetoothAction::Scan { adapter, power_on, start: !self.discovering };
        }
        assert(widget_id@ != "bluetooth_power_toggle"@);
        assert(widget_id@ != "bt_scan_btn"@);
        if starts_with(&chars_of(widget_id), &chars_of("bt_dev_")) {
            let sanitized = trim_start_matches(widget_id, "bt_dev_");
            proof {
                reveal_strlit("_");
            }
            let mac = string_of(&replace_all(&chars_of(sanitized.as_str()), &chars_of("_"), &chars_of(":")));
            let sv = chars_of(sanitized.as_str());
            let mut i: usize = 0;
            assert(self.devices@.subrange(0, self.devices@.len() as int) =~= self.devices@);
            while i < self.devices.len()
                invariant
                    i <= self.devices.len(),
                    *self == *old(self),
                    widget_id@ != "bluetooth_power_toggle"@,
                    widget_id@ != "bt_scan_btn"@,
                    spec_starts_with(widget_id@, "bt_dev_"@),
                    mac@ == button_mac(widget_id@),
                    sv@ == spec_trim_start_matches(widget_id@, "bt_dev_"@),
                    first_device_named_by(self.devices@, widget_id@) == first_device_named_by(
                        self.devices@.subrange(i as int, self.devices@.len() as int),
                        widget_id@,
                    ),
                decreases self.devices.len() - i,
            {
                let ghost rest = self.devices@.subrange(i as int, self.devices@.len() as int);
                assert(rest.drop_first() =~= self.devices@.subrange(i + 1, self.devices@.len() as int));
                assert(rest[0] == self.devices@[i as int]);
                let d = &self.devices[i];
                if eq_ignore_ascii_case_exec(&chars_of(d.address.as_str()), mac.as_str()) || contains(
                    &chars_of(d.path.as_str()),
                    &sv,
                ) {
                    let request = if d.connected {
                        DeviceRequest::Disconnect
                    } else {
                        DeviceRequest::Connect { pair_first: !d.paired }
                    };
                    return BluetoothAction::Device { path: d.path.clone(), request };
                }
                i = i + 1;
            }
            return BluetoothAction::Nothing;
        }
        let root = str_is(widget_id, "bluetooth") || str_is(widget_id, "bt") || str_is(
            widget_id,
            "popup:bluetooth",
        ) || str_is(widget_id, "bluetooth:popup") || widget_id.unicode_len() == 0;
        if root && (str_is(event, "open") || str_is(event, "click")) {
            BluetoothAction::Refresh
        } else {
            BluetoothAction::Nothing
        }
    }

    /// One timer tick: a scan stops by itself after thirty ticks. Returns
    /// whether discovery is to be stopped now.
    pub fn tick(&mut self) -> (stop: bool)
        ensures
            old(self).discovering ==> {
                let t: int = if old(self).scan_ticks == u32::MAX { u32::MAX as int } else { old(self).scan_ticks + 1 };
                if t >= 30 {
                    stop && !final(self).discovering && final(self).scan_ticks == 0
                } else {
                    !stop && final(self).discovering && final(self).scan_ticks == t
                }
            },
            !old(self).discovering ==> !stop && !final(self).discovering && final(self).scan_ticks == 0,
            final(self).powered == old(self).powered,
            final(self).devices@ == old(self).devices@,
            final(self).adapter_path == old(self).adapter_path,
    {
        if self.discovering {
            self.scan_ticks = self.scan_ticks.saturating_add(1);
            if self.scan_ticks >= 30 {
                self.discovering = false;
                self.scan_ticks = 0;
                return true;
            }
            false
        } else {
            self.scan_ticks = 0;
            false
        }
    }

    /// Takes in the state read from BlueZ.
    pub fn apply_state(&mut self, st: BluezState)
        ensures
            final(self).adapter_path == st.adapter_path,
            final(self).powered == st.powered,
            final(self).discovering == st.discovering,
            final(self).connected_device == st.connected,
            final(self).devices@ == sorted_devices(st.devices@),
            final(self).scan_ticks == old(self).scan_ticks,
    {
        self.adapter_path = st.adapter_path;
        self.powered = st.powered;
        self.discovering = st.discovering;
        self.connected_device = st.connected;
        self.devices = sort_devices(st.devices);
    }

    /// The icon name on the bar.
    pub fn icon_name(&self) -> (r: &'static str)
        ensures
            r@ == (if !self.powered {
                "bluetooth-disabled"@
            } else if self.connected_device is Some {
                "bluetooth-active"@
            } else {
                "bluetooth"@
            }),
    {
        if !self.powered {
            "bluetooth-disabled"
        } else if self.connected_device.is_some() {
            "bluetooth-active"
        } else {
            "bluetooth"
        }
    }

    /// The bar text: the connected device, else `On` or `Off`.
    pub fn bar_text(&self) -> (r: String)
        ensures
            r@ == match self.connected_device {
                Some(d) => d@,
                None => if self.powered { "On"@ } else { "Off"@ },
            },
    {
        match &self.connected_device {
            Some(d) => d.clone(),
            None => if self.powered { "On".to_string() } else { "Off".to_string() },
        }
    }
}

/// The widget id of a device's button: `bt_dev_` and its address with `:`
/// as `_`.
pub fn device_button_id(d: &BtDevice) -> (r: String)
    ensures
        r@ == "bt_dev_"@ + spec_replace(d.address@, ":"@, "_"@),
{
    proof {
        reveal_strlit(":");
    }
    let a = replace_all(&chars_of(d.address.as_str()), &chars_of(":"), &chars_of("_"));
    string_of(&concat(&chars_of("bt_dev_"), &a))
}

/// Whether a device belongs to the paired list: paired or connected.
pub open spec fn is_known(d: BtDevice) -> bool {
    d.paired || d.connected
}

/// A device button of the popup: its id, text, the event its click sends,
/// and whether it is drawn as an accent (the device is connected). Known
/// devices carry a check mark when connected, or two spaces.
pub open spec fn bt_button(d: BtDevice) -> (Seq<char>, Seq<char>, Seq<char>, bool) {
    let id = "bt_dev_"@ + spec_replace(d.address@, ":"@, "_"@);
    let text = if is_known(d) { (if d.connected { "✓ "@ } else { "  "@ }) + d.name@ } else { d.name@ };
    (id, text, "event:bluetooth:"@ + id + ":click"@, d.connected)
}

/// A button of the Bluetooth popup.
#[derive(Debug)]
pub struct BtButton {
    pub id: String,
    pub text: String,
    pub on_click: String,
    pub accent: bool,
}

pub open spec fn bt_button_view(b: BtButton) -> (Seq<char>, Seq<char>, Seq<char>, bool) {
    (b.id@, b.text@, b.on_click@, b.accent)
}

pub open spec fn bt_buttons_view(bs: Seq<BtButton>) -> Seq<(Seq<char>, Seq<char>, Seq<char>, bool)> {
    bs.map_values(|b: BtButton| bt_button_view(b))
}

/// The buttons of the devices of `ds` that are known (paired or connected),
/// or of those that are not, in listing order.
pub open spec fn bt_buttons_of(ds: Seq<BtDevice>, known: bool) -> Seq<(Seq<char>, Seq<char>, Seq<char>, bool)> {
    ds.filter(|d: BtDevice| is_known(d) == known).map_values(|d: BtDevice| bt_button(d))
}

/// What the Bluetooth popup shows, apart from its layout.
#[derive(Debug)]
pub struct BtPopup {
    /// The power button: `ON` or `OFF`.
    pub power_text: &'static str,
    /// `Connected to` and the connected device's name, when there is one.
    pub connected_text: Option<String>,
    /// The paired (or connected) devices, in listing order.
    pub paired: Vec<BtButton>,
    /// The text in place of an empty paired list.
    pub paired_empty_text: Option<&'static str>,
    /// The title of the available-devices card; `None` when the card is not shown.
    pub available_title: Option<&'static str>,
    /// The other devices, in listing order.
    pub available: Vec<BtButton>,
    /// The text in the available-devices card while a scan has found nothing.
    pub scanning_text: Option<&'static str>,
    /// The scan button's text.
    pub scan_text: &'static str,
}

fn bt_button_exec(d: &BtDevice) -> (r: BtButton)
    ensures
        bt_button_view(r) == bt_button(*d),
{
    let id = device_button_id(d);
    let known = d.paired || d.connected;
    let text = if known {
        let mark = if d.connected { "✓ " } else { "  " };
        string_of(&concat(&chars_of(mark), &chars_of(d.name.as_str())))
    } else {
        d.name.clone()
    };
    let on_click = string_of(&concat(
        &concat(&chars_of("event:bluetooth:"), &chars_of(id.as_str())),
        &chars_of(":click"),
    ));
    BtButton { id, text, on_click, accent: d.connected }
}

fn bt_buttons_exec(ds: &Vec<BtDevice>, known: bool) -> (r: Vec<BtButton>)
    ensures
        bt_buttons_view(r@) == bt_buttons_of(ds@, known),
{
    let ghost pred = |d: BtDevice| is_known(d) == known;
    let mut out: Vec<BtButton> = Vec::new();
    let mut i: usize = 0;
    while i < ds.len()
        invariant
            i <= ds@.len(),
            pred == (|d: BtDevice| is_known(d) == known),
            bt_buttons_view(out@) == ds@.take(i as int).filter(pred).map_values(|d: BtDevice| bt_button(d)),
        decreases ds@.len() - i,
    {
        proof {
            assert(ds@.take(i + 1) == ds@.take(i as int).push(ds@[i as int]));
            ds@.take(i as int).lemma_filter_push(ds@[i as int], pred);
        }
        let d = &ds[i];
        if (d.paired || d.connected) == known {
            let ghost before = out@;
            out.push(bt_button_exec(d));
            assert(bt_buttons_view(out@) =~= bt_buttons_view(before).push(bt_button(*d)));
        }
        i = i + 1;
    }
    assert(ds@.take(ds@.len() as int) == ds@);
    out
}

impl BluetoothModule {
    /// What the popup shows: the power state, the connected device, the
    /// paired and available devices in listing order, and the scan texts.
    pub fn popup_model(&self) -> (p: BtPopup)
        ensures
            p.power_text@ == (if self.powered { "ON"@ } else { "OFF"@ }),
            match self.connected_device {
                Some(n) => p.connected_text matches Some(t) && t@ == "Connected to "@ + n@,
                None => p.connected_text is None,
            },
            bt_buttons_view(p.paired@) == bt_buttons_of(self.devices@, true),
            bt_buttons_view(p.available@) == bt_buttons_of(self.devices@, false),
            match p.paired_empty_text {
                Some(t) => p.paired@.len() == 0
                    && t@ == (if self.powered { "No paired devices"@ } else { "Bluetooth is powered off"@ }),
                None => p.paired@.len() > 0,
            },
            match p.available_title {
                Some(t) => self.powered && (self.discovering || p.available@.len() > 0)
                    && t@ == (if self.discovering { "AVAILABLE DEVICES [Scanning]"@ } else { "AVAILABLE DEVICES"@ }),
                None => !(self.powered && (self.discovering || p.available@.len() > 0)),
            },
            match p.scanning_text {
                Some(t) => self.powered && self.discovering && p.available@.len() == 0
                    && t@ == "Scanning for nearby devices..."@,
                None => !(self.powered && self.discovering && p.available@.len() == 0),
            },
            p.scan_text@ == (if self.discovering { "Scanning... (Stop)"@ } else { "Scan for Devices"@ }),
    {
        let paired = bt_buttons_exec(&self.devices, true);
        let available = bt_buttons_exec(&self.devices, false);
        proof {
            assert(bt_buttons_view(paired@).len() == paired@.len());
            assert(bt_buttons_view(available@).len() == available@.len());
        }
        let connected_text = match &self.connected_device {
            Some(n) => Some(string_of(&concat(&chars_of("Connected to "), &chars_of(n.as_str())))),
            None => None,
        };
        let paired_empty_text = if paired.len() == 0 {
            Some(if self.powered { "No paired devices" } else { "Bluetooth is powered off" })
        } else {
            None
        };
        let shown = self.powered && (self.discovering || available.len() > 0);
        let available_title = if shown {
            Some(if self.discovering { "AVAILABLE DEVICES [Scanning]" } else { "AVAILABLE DEVICES" })
        } else {
            None
        };
        let scanning_text = if self.powered && self.discovering && available.len() == 0 {
            Some("Scanning for nearby devices...")
        } else {
            None
        };
        BtPopup {
            power_text: if self.powered { "ON" } else { "OFF" },
            connected_text,
            paired,
            paired_empty_text,
            available_title,
            available,
            scanning_text,
            scan_text: if self.discovering { "Scanning... (Stop)" } else { "Scan for Devices" },
        }
    }
}

proof fn lemma_bt_le_total(a: BtDevice, b: BtDevice)
    ensures
        bt_le(a, b) || bt_le(b, a),
{
    lemma_seq_le_total(spec_to_lowercase(a.name@), spec_to_lowercase(b.name@));
}

proof fn lemma_bt_le_transitive(a: BtDevice, b: BtDevice, c: BtDevice)
    requires
        bt_le(a, b),
        bt_le(b, c),
    ensures
        bt_le(a, c),
{
    if a.connected == b.connected && b.connected == c.connected && a.paired == b.paired && b.paired == c.paired
        && has_name(a) == has_name(b) && has_name(b) == has_name(c) {
        lemma_seq_le_transitive(spec_to_lowercase(a.name@), spec_to_lowercase(b.name@), spec_to_lowercase(c.name@));
    }
}

/// Devices in listing order.
pub open spec fn in_listing_order(s: Seq<BtDevice>) -> bool {
    forall|i: int, j: int| 0 <= i < j < s.len() ==> bt_le(#[trigger] s[i], #[trigger] s[j])
}

proof fn lemma_insert_device(s: Seq<BtDevice>, x: BtDevice)
    requires
        in_listing_order(s),
    ensures
        in_listing_order(insert_device(s, x)),
        insert_device(s, x).to_multiset() =~= s.to_multiset().insert(x),
        insert_device(s, x).len() == s.len() + 1,
    decreases s.len(),
{
    broadcast use vstd::seq_lib::to_multiset_build;
    if s.len() == 0 {
        assert(seq![x] =~= Seq::<BtDevice>::empty().push(x));
    } else if bt_le(s.last(), x) {
        let r = s.push(x);
        assert forall|i: int, j: int| 0 <= i < j < r.len() implies bt_le(#[trigger] r[i], #[trigger] r[j]) by {
            if j == s.len() {
                if i < s.len() - 1 {
                    assert(bt_le(s[i], s[s.len() - 1]));
                    lemma_bt_le_transitive(s[i], s.last(), x);
                }
            } else {
                assert(r[i] == s[i] && r[j] == s[j]);
            }
        }
        assert(s.drop_last().push(s.last()) =~= s);
    } else {
        let d = s.drop_last();
        assert(in_listing_order(d)) by {
            assert forall|i: int, j: int| 0 <= i < j < d.len() implies bt_le(#[trigger] d[i], #[trigger] d[j]) by {
                assert(d[i] == s[i] && d[j] == s[j]);
            }
        }
        lemma_insert_device(d, x);
        let t = insert_device(d, x);
        let r = t.push(s.last());
        lemma_bt_le_total(s.last(), x);
        assert forall|i: int, j: int| 0 <= i < j < r.len() implies bt_le(#[trigger] r[i], #[trigger] r[j]) by {
            if j == t.len() {
                assert(r[i] == t[i]);
                assert(t.to_multiset().count(t[i]) > 0);
                if t[i] != x {
                    assert(d.to_multiset().count(t[i]) > 0);
                    assert(d.contains(t[i]));
                    let k = choose|k: int| 0 <= k < d.len() && d[k] == t[i];
                    assert(s[k] == d[k]);
                    assert(bt_le(s[k], s[s.len() - 1]));
                }
            } else {
                assert(r[i] == t[i] && r[j] == t[j]);
            }
        }
        assert(d.push(s.last()) =~= s);
    }
}

/// The device list comes connected devices first, then paired, then named
/// ones, then by name; sorting loses and adds no device.
pub proof fn law_devices_in_listing_order(s: Seq<BtDevice>)
    ensures
        in_listing_order(sorted_devices(s)),
        sorted_devices(s).to_multiset() =~= s.to_multiset(),
    decreases s.len(),
{
    broadcast use vstd::seq_lib::to_multiset_build;
    if s.len() > 0 {
        law_devices_in_listing_order(s.drop_last());
        lemma_insert_device(sorted_devices(s.drop_last()), s.last());
        assert(s.drop_last().push(s.last()) =~= s);
    }
}

} // verus!
