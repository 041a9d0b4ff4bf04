//! What the network widget reads out of NetworkManager's answers: access
//! point details, the list of networks in reach, saved connections, and
//! the device whose address is shown.

use vstd::prelude::*;
use crate::json::Json;
use crate::network::{ap_security, parse_ssid_bytes, spec_parse_ssid};
use crate::number::{decimal, spec_decimal};
use crate::text::{chars_of, concat, str_is, string_of};

verus! {

broadcast use vstd::seq_lib::group_seq_properties;

pub open spec fn u64_or(v: Json, key: Seq<char>, d: u64) -> u64 {
    match v.spec_get(key) {
        Some(j) => match j.spec_as_u64() {
            Some(n) => n,
            None => d,
        },
        None => d,
    }
}

fn u64_or_exec(v: &Json, key: &str, d: u64) -> (r: u64)
    ensures
        r == u64_or(*v, key@, d),
{
    match v.get(key) {
        Some(j) => match j.as_u64() {
            Some(n) => n,
            None => d,
        },
        None => d,
    }
}

/// What an access point reports of itself.
#[derive(Debug)]
pub struct ApDetails {
    pub ssid: String,
    pub strength: u8,
    pub secured: bool,
    pub is_sae: bool,
}

/// Reads an access point's properties; with no answer, an empty record.
/// The strength defaults to 50 and is kept modulo 256.
pub fn ap_details(props: Option<&Json>) -> (r: ApDetails)
    ensures
        match props {
            None => r.ssid@.len() == 0 && r.strength == 0 && !r.secured && !r.is_sae,
            Some(p) => {
                let rsn = u64_or(*p, "RsnFlags"@, 0);
                let wpa = u64_or(*p, "WpaFlags"@, 0);
                let flags = u64_or(*p, "Flags"@, 0);
                &&& r.ssid@ == match p.spec_get("Ssid"@) {
                    Some(v) => spec_parse_ssid(v),
                    None => Seq::empty(),
                }
                &&& r.strength == u64_or(*p, "Strength"@, 50) % 256
                &&& r.secured == (rsn > 0 || wpa > 0 || flags % 2 == 1)
                &&& r.is_sae == ((rsn / 1024) % 2 == 1 && (rsn / 512) % 2 == 0)
            },
        },
{
    match props {
        None => ApDetails { ssid: String::new(), strength: 0, secured: false, is_sae: false },
        Some(p) => {
            let ssid = match p.get("Ssid") {
                Some(v) => parse_ssid_bytes(v),
                None => String::new(),
            };
            let strength = (u64_or_exec(p, "Strength", 50) % 256) as u8;
            let rsn = u64_or_exec(p, "RsnFlags", 0);
            let wpa = u64_or_exec(p, "WpaFlags", 0);
            let flags = u64_or_exec(p, "Flags", 0);
            let (secured, is_sae) = ap_security(rsn, wpa, flags);
            ApDetails { ssid, strength, secured, is_sae }
        },
    }
}

/// A network of the list shown in the popup.
#[derive(Debug)]
pub struct NetworkEntry {
    pub ssid: String,
    pub signal: u8,
    pub secured: bool,
    pub connected: bool,
}

/// A network as plain values: SSID, signal, secured, connected.
pub type NetView = (Seq<char>, u8, bool, bool);

pub open spec fn net_view(e: NetworkEntry) -> NetView {
    (e.ssid@, e.signal, e.secured, e.connected)
}

pub open spec fn net_views(s: Seq<NetworkEntry>) -> Seq<NetView> {
    s.map_values(|e: NetworkEntry| net_view(e))
}

pub open spec fn has_ssid(d: Seq<NetView>, s: Seq<char>) -> bool {
    exists|i: int| 0 <= i < d.len() && (#[trigger] d[i]).0 == s
}

/// The networks of the access points `aps`, in their order: each SSID
/// once, as its first access point reports it, and none without an SSID.
/// A network is connected when the device is and its SSID is the active
/// one.
pub open spec fn spec_networks(aps: Seq<ApDetails>, connected: bool, active: Seq<char>) -> Seq<NetView>
    decreases aps.len(),
{
    if aps.len() == 0 {
        Seq::empty()
    } else {
        let d = spec_networks(aps.drop_last(), connected, active);
        let a = aps.last();
        if a.ssid@.len() == 0 || has_ssid(d, a.ssid@) {
            d
        } else {
            d.push((a.ssid@, a.strength, a.secured, connected && a.ssid@ == active))
        }
    }
}

fn listed(out: &Vec<NetworkEntry>, ssid: &String) -> (r: bool)
    ensures
        r == has_ssid(net_views(out@), ssid@),
{
    let mut i: usize = 0;
    while i < out.len()
        invariant
            i <= out.len(),
            forall|j: int| 0 <= j < i ==> (#[trigger] out@[j]).ssid@ != ssid@,
        decreases out.len() - i,
    {
        if str_is(out[i].ssid.as_str(), ssid.as_str()) {
            assert(net_views(out@)[i as int].0 == ssid@);
            return true;
        }
        i = i + 1;
    }
    proof {
        if has_ssid(net_views(out@), ssid@) {
            let j = choose|j: int| 0 <= j < net_views(out@).len() && (#[trigger] net_views(out@)[j]).0 == ssid@;
            assert(out@[j].ssid@ == ssid@);
        }
    }
    false
}

/// Gathers the networks of the access points of all wireless devices.
pub fn collect_networks(aps: &Vec<ApDetails>, connected: bool, active_ssid: &str) -> (r: Vec<NetworkEntry>)
    ensures
        net_views(r@) == spec_networks(aps@, connected, active_ssid@),
{
    let mut out: Vec<NetworkEntry> = Vec::new();
    let mut i: usize = 0;
    while i < aps.len()
        invariant
            i <= aps.len(),
            net_views(out@) == spec_networks(aps@.take(i as int), connected, active_ssid@),
        decreases aps.len() - i,
    {
        assert(aps@.take(i + 1).drop_last() =~= aps@.take(i as int));
        assert(aps@.take(i + 1).last() == aps@[i as int]);
        let a = &aps[i];
        if a.ssid.unicode_len() > 0 && !listed(&out, &a.ssid) {
            let is_active = connected && str_is(a.ssid.as_str(), active_ssid);
            let ghost before = net_views(out@);
            out.push(NetworkEntry { ssid: a.ssid.clone(), signal: a.strength, secured: a.secured, connected: is_active });
            assert(net_views(out@) =~= before.push(net_view(out@.last())));
        }
        i = i + 1;
    }
    assert(aps@.take(aps.len() as int) =~= aps@);
    out
}

/// The networks of `d` whose signal is `s`, in their order.
pub open spec fn with_signal(d: Seq<NetView>, s: int) -> Seq<NetView>
    decreases d.len(),
{
    if d.len() == 0 {
        Seq::empty()
    } else {
        let r = with_signal(d.drop_last(), s);
        if d.last().1 == s { r.push(d.last()) } else { r }
    }
}

/// The networks of `d` whose signal is at least `s`: strongest first, and
/// networks of equal signal in their order in `d`.
pub open spec fn strongest_first_from(d: Seq<NetView>, s: int) -> Seq<NetView>
    decreases 256 - s,
{
    if s >= 256 {
        Seq::empty()
    } else {
        strongest_first_from(d, s + 1) + with_signal(d, s)
    }
}

/// `d` ordered by signal, strongest first; networks of equal signal keep
/// their order.
pub open spec fn strongest_first(d: Seq<NetView>) -> Seq<NetView> {
    strongest_first_from(d, 0)
}

/// Orders networks by signal, strongest first, keeping the order of
/// networks of equal signal.
pub fn sort_by_signal(v: &Vec<NetworkEntry>) -> (r: Vec<NetworkEntry>)
    ensures
        net_views(r@) == strongest_first(net_views(v@)),
{
    let ghost d = net_views(v@);
    let mut out: Vec<NetworkEntry> = Vec::new();
    let mut s: u16 = 256;
    while s > 0
        invariant
            s <= 256,
            d == net_views(v@),
            net_views(out@) == strongest_first_from(d, s as int),
        decreases s,
    {
        let b: u8 = (s - 1) as u8;
        let mut i: usize = 0;
        while i < v.len()
            invariant
                i <= v.len(),
                0 < s <= 256,
                b == s - 1,
                d == net_views(v@),
                net_views(out@) == strongest_first_from(d, s as int) + with_signal(d.take(i as int), b as int),
            decreases v.len() - i,
        {
            assert(d.take(i + 1).drop_last() =~= d.take(i as int));
            assert(d.take(i + 1).last() == d[i as int]);
            if v[i].signal == b {
                let ghost before = net_views(out@);
                out.push(NetworkEntry {
                    ssid: v[i].ssid.clone(),
                    signal: v[i].signal,
                    secured: v[i].secured,
                    connected: v[i].connected,
                });
                assert(net_views(out@) =~= before.push(d[i as int]));
            }
            i = i + 1;
        }
        assert(d.take(v.len() as int) =~= d);
        s = s - 1;
    }
    out
}

proof fn lemma_with_signal_all(d: Seq<NetView>, s: int)
    ensures
        forall|i: int| 0 <= i < with_signal(d, s).len() ==> (#[trigger] with_signal(d, s)[i]).1 == s,
    decreases d.len(),
{
    if d.len() > 0 {
        lemma_with_signal_all(d.drop_last(), s);
        let r = with_signal(d.drop_last(), s);
        if d.last().1 == s {
            assert forall|i: int| 0 <= i < r.push(d.last()).len() implies (#[trigger] r.push(d.last())[i]).1 == s by {
                if i < r.len() {
                    assert(r.push(d.last())[i] == r[i]);
                }
            }
        }
    }
}

proof fn lemma_strongest_first_from_ordered(d: Seq<NetView>, s: int)
    requires
        0 <= s,
    ensures
        forall|i: int| 0 <= i < strongest_first_from(d, s).len() ==> (#[trigger] strongest_first_from(d, s)[i]).1 >= s,
        forall|i: int, j: int| 0 <= i < j < strongest_first_from(d, s).len()
            ==> strongest_first_from(d, s)[i].1 >= strongest_first_from(d, s)[j].1,
    decreases 256 - s,
{
    if s < 256 {
        lemma_strongest_first_from_ordered(d, s + 1);
        lemma_with_signal_all(d, s);
        let a = strongest_first_from(d, s + 1);
        let b = with_signal(d, s);
        assert(strongest_first_from(d, s) == a + b);
        assert forall|i: int, j: int| 0 <= i < j < (a + b).len() implies (a + b)[i].1 >= (a + b)[j].1 by {
            if j < a.len() {
                assert(a[i].1 >= a[j].1);
            } else if i < a.len() {
                assert(a[i].1 >= s + 1);
                assert(b[j - a.len()].1 == s);
            } else {
                assert(b[i - a.len()].1 == s);
                assert(b[j - a.len()].1 == s);
            }
        }
        assert forall|i: int| 0 <= i < (a + b).len() implies (#[trigger] (a + b)[i]).1 >= s by {
            if i < a.len() {
                assert(a[i].1 >= s + 1);
            } else {
                assert(b[i - a.len()].1 == s);
            }
        }
    }
}

/// The network list is ordered by signal: no network is weaker than one
/// that follows it.
pub proof fn law_strongest_first_is_ordered(d: Seq<NetView>)
    ensures
        forall|i: int, j: int| 0 <= i < j < strongest_first(d).len()
            ==> strongest_first(d)[i].1 >= strongest_first(d)[j].1,
{
    lemma_strongest_first_from_ordered(d, 0);
}

proof fn lemma_with_signal_count(d: Seq<NetView>, s: int, x: NetView)
    ensures
        with_signal(d, s).to_multiset().count(x) == (if x.1 == s { d.to_multiset().count(x) } else { 0 }),
    decreases d.len(),
{
    if d.len() > 0 {
        lemma_with_signal_count(d.drop_last(), s, x);
        assert(d =~= d.drop_last().push(d.last()));
        vstd::seq_lib::lemma_multiset_commutative(d.drop_last(), seq![d.last()]);
        assert(d.drop_last() + seq![d.last()] =~= d);
        let r = with_signal(d.drop_last(), s);
        if d.last().1 == s {
            vstd::seq_lib::lemma_multiset_commutative(r, seq![d.last()]);
            assert(r + seq![d.last()] =~= r.push(d.last()));
        }
    } else {
        assert(d.to_multiset().count(x) == 0);
    }
}

proof fn lemma_strongest_first_from_count(d: Seq<NetView>, s: int, x: NetView)
    requires
        0 <= s,
    ensures
        strongest_first_from(d, s).to_multiset().count(x) == (if x.1 >= s { d.to_multiset().count(x) } else { 0 }),
    decreases 256 - s,
{
    if s < 256 {
        lemma_strongest_first_from_count(d, s + 1, x);
        lemma_with_signal_count(d, s, x);
        vstd::seq_lib::lemma_multiset_commutative(strongest_first_from(d, s + 1), with_signal(d, s));
    } else {
        assert(strongest_first_from(d, s).to_multiset().count(x) == 0);
    }
}

/// Ordering the network list by signal loses no network and adds none: it
/// holds each network as often as before.
pub proof fn law_strongest_first_keeps_networks(d: Seq<NetView>)
    ensures
        strongest_first(d).to_multiset() =~= d.to_multiset(),
{
    assert forall|x: NetView| strongest_first(d).to_multiset().count(x) == d.to_multiset().count(x) by {
        lemma_strongest_first_from_count(d, 0, x);
    }
}

/// The network list names each SSID once, and none is empty.
pub proof fn law_networks_named_once(aps: Seq<ApDetails>, connected: bool, active: Seq<char>)
    ensures
        forall|i: int, j: int| 0 <= i < j < spec_networks(aps, connected, active).len()
            ==> spec_networks(aps, connected, active)[i].0 != spec_networks(aps, connected, active)[j].0,
        forall|i: int| 0 <= i < spec_networks(aps, connected, active).len()
            ==> (#[trigger] spec_networks(aps, connected, active)[i]).0.len() > 0,
    decreases aps.len(),
{
    if aps.len() > 0 {
        law_networks_named_once(aps.drop_last(), connected, active);
        let d = spec_networks(aps.drop_last(), connected, active);
        let a = aps.last();
        if !(a.ssid@.len() == 0 || has_ssid(d, a.ssid@)) {
            let n = d.push((a.ssid@, a.strength, a.secured, connected && a.ssid@ == active));
            assert forall|i: int, j: int| 0 <= i < j < n.len() implies n[i].0 != n[j].0 by {
                if j == d.len() {
                    assert(n[i] == d[i]);
                    if d[i].0 == a.ssid@ {
                        assert(has_ssid(d, a.ssid@));
                    }
                } else {
                    assert(n[i] == d[i] && n[j] == d[j]);
                }
            }
        }
    }
}

/// Whether `k` is the first access point of `aps` reporting `ssid`.
pub open spec fn first_ap_with(aps: Seq<ApDetails>, k: int, ssid: Seq<char>) -> bool {
    &&& 0 <= k < aps.len()
    &&& aps[k].ssid@ == ssid
    &&& forall|j: int| 0 <= j < k ==> (#[trigger] aps[j]).ssid@ != ssid
}

/// Each listed network is as the first access point with its SSID reports
/// it (signal and security), is connected exactly when the device is and it
/// is the active SSID; and every access point with an SSID has its network
/// listed.
pub proof fn law_networks_as_first_access_point(aps: Seq<ApDetails>, connected: bool, active: Seq<char>)
    ensures
        forall|i: int| #![trigger spec_networks(aps, connected, active)[i]]
            0 <= i < spec_networks(aps, connected, active).len() ==> exists|k: int|
            #![trigger aps[k]]
            first_ap_with(aps, k, spec_networks(aps, connected, active)[i].0)
            && spec_networks(aps, connected, active)[i].1 == aps[k].strength
            && spec_networks(aps, connected, active)[i].2 == aps[k].secured
            && spec_networks(aps, connected, active)[i].3 == (connected && aps[k].ssid@ == active),
        forall|k: int| 0 <= k < aps.len() && (#[trigger] aps[k]).ssid@.len() > 0
            ==> has_ssid(spec_networks(aps, connected, active), aps[k].ssid@),
    decreases aps.len(),
{
    if aps.len() > 0 {
        let init = aps.drop_last();
        law_networks_as_first_access_point(init, connected, active);
        let d = spec_networks(init, connected, active);
        let a = aps.last();
        let n = spec_networks(aps, connected, active);
        assert forall|i: int| #![trigger d[i]] 0 <= i < d.len() implies exists|k: int|
            #![trigger aps[k]]
            first_ap_with(aps, k, d[i].0) && d[i].1 == aps[k].strength && d[i].2 == aps[k].secured
                && d[i].3 == (connected && aps[k].ssid@ == active) by {
            let k = choose|k: int| #![trigger init[k]] first_ap_with(init, k, d[i].0) && d[i].1 == init[k].strength
                && d[i].2 == init[k].secured && d[i].3 == (connected && init[k].ssid@ == active);
            assert(init[k] == aps[k]);
            assert forall|j: int| 0 <= j < k implies (#[trigger] aps[j]).ssid@ != d[i].0 by {
                assert(init[j] == aps[j]);
            }
        }
        if a.ssid@.len() == 0 || has_ssid(d, a.ssid@) {
            assert(n == d);
            assert forall|k: int| 0 <= k < aps.len() && (#[trigger] aps[k]).ssid@.len() > 0
                implies has_ssid(n, aps[k].ssid@) by {
                if k < init.len() {
                    assert(init[k] == aps[k]);
                }
            }
        } else {
            assert(n == d.push((a.ssid@, a.strength, a.secured, connected && a.ssid@ == active)));
            let last = aps.len() - 1;
            assert forall|j: int| 0 <= j < last implies (#[trigger] aps[j]).ssid@ != a.ssid@ by {
                assert(init[j] == aps[j]);
                if aps[j].ssid@ == a.ssid@ {
                    assert(has_ssid(d, init[j].ssid@));
                }
            }
            assert(first_ap_with(aps, last, a.ssid@));
            assert forall|i: int| #![trigger n[i]] 0 <= i < n.len() implies exists|k: int|
                #![trigger aps[k]]
                first_ap_with(aps, k, n[i].0) && n[i].1 == aps[k].strength && n[i].2 == aps[k].secured
                    && n[i].3 == (connected && aps[k].ssid@ == active) by {
                if i < d.len() {
                    assert(n[i] == d[i]);
                } else {
                    assert(aps[last] == a);
                }
            }
            assert forall|k: int| 0 <= k < aps.len() && (#[trigger] aps[k]).ssid@.len() > 0
                implies has_ssid(n, aps[k].ssid@) by {
                if k < init.len() {
                    assert(init[k] == aps[k]);
                    let w = choose|w: int| 0 <= w < d.len() && (#[trigger] d[w]).0 == init[k].ssid@;
                    assert(n[w] == d[w]);
                } else {
                    assert(n[d.len() as int].0 == a.ssid@);
                }
            }
        }
    }
}

/// A string member of a member of an object, or empty.
pub open spec fn nested_str(v: Json, section: Seq<char>, key: Seq<char>) -> Seq<char> {
    match v.spec_get(section) {
        Some(c) => match c.spec_get(key) {
            Some(Json::Str(s)) => s@,
            _ => Seq::empty(),
        },
        None => Seq::empty(),
    }
}

fn nested_str_exec(v: &Json, section: &str, key: &str) -> (r: String)
    ensures
        r@ == nested_str(*v, section@, key@),
{
    match v.get(section) {
        Some(c) => match c.get(key) {
            Some(j) => match j.as_str() {
                Some(s) => s.clone(),
                None => String::new(),
            },
            None => String::new(),
        },
        None => String::new(),
    }
}

/// The SSID a saved wireless connection is for.
pub open spec fn saved_ssid(settings: Json) -> Seq<char> {
    match settings.spec_get("802-11-wireless"@) {
        Some(w) => match w.spec_get("ssid"@) {
            Some(v) => spec_parse_ssid(v),
            None => Seq::empty(),
        },
        None => Seq::empty(),
    }
}

/// Whether saved settings are a wireless connection for `target`, by
/// name or by SSID.
pub open spec fn saved_matches(settings: Json, target: Seq<char>) -> bool {
    &&& nested_str(settings, "connection"@, "type"@) == "802-11-wireless"@
    &&& (nested_str(settings, "connection"@, "id"@) == target || saved_ssid(settings) == target)
}

/// Checks whether a saved connection's settings are for the network
/// `target`; if so, says whether it has a security section.
pub fn saved_connection_security(settings: &Json, target: &str) -> (r: Option<bool>)
    ensures
        r is Some <==> saved_matches(*settings, target@),
        r matches Some(b) ==> b == settings.spec_get("802-11-wireless-security"@) is Some,
{
    let ty = nested_str_exec(settings, "connection", "type");
    if !str_is(ty.as_str(), "802-11-wireless") {
        return None;
    }
    let id = nested_str_exec(settings, "connection", "id");
    let ssid = match settings.get("802-11-wireless") {
        Some(w) => match w.get("ssid") {
            Some(v) => parse_ssid_bytes(v),
            None => String::new(),
        },
        None => String::new(),
    };
    if str_is(id.as_str(), target) || str_is(ssid.as_str(), target) {
        Some(settings.get("802-11-wireless-security").is_some())
    } else {
        None
    }
}

/// Whether a stored secret answers for the connection: a PSK or a WEP key
/// in its secrets.
pub open spec fn secret_given(secrets: Option<Json>) -> bool {
    match secrets {
        Some(s) => nested_str(s, "802-11-wireless-security"@, "psk"@).len() > 0
            || nested_str(s, "802-11-wireless-security"@, "wep-key0"@).len() > 0,
        None => false,
    }
}

/// Whether a saved connection can be activated without asking for a key:
/// it is open, or a key is stored in its secrets or its settings.
pub fn saved_has_credentials(has_security: bool, secrets: Option<&Json>, settings: &Json) -> (r: bool)
    ensures
        r == (!has_security || secret_given(match secrets {
            Some(s) => Some(*s),
            None => None,
        }) || nested_str(*settings, "802-11-wireless-security"@, "psk"@).len() > 0),
{
    if !has_security {
        return true;
    }
    let mut found = false;
    if let Some(s) = secrets {
        let psk = nested_str_exec(s, "802-11-wireless-security", "psk");
        let wep = nested_str_exec(s, "802-11-wireless-security", "wep-key0");
        found = psk.unicode_len() > 0 || wep.unicode_len() > 0;
    }
    let own = nested_str_exec(settings, "802-11-wireless-security", "psk");
    found || own.unicode_len() > 0
}

/// A network device: its object path, NetworkManager type and interface.
#[derive(Debug)]
pub struct DeviceInfo {
    pub path: String,
    pub kind: u64,
    pub interface: String,
}

/// A device's place when looking for the shown address: Wi-Fi, then
/// Ethernet, then the rest.
pub open spec fn device_rank(kind: u64) -> int {
    if kind == 2 { 0 } else if kind == 1 { 1 } else { 2 }
}

/// Devices that can carry the shown address: no loopback, by type or name.
pub open spec fn address_candidate(d: DeviceInfo) -> bool {
    d.kind != 32 && d.interface@ != "lo"@
}

/// The paths of the candidate devices of rank `r`, in their order.
pub open spec fn paths_of_rank(devs: Seq<DeviceInfo>, r: int) -> Seq<Seq<char>>
    decreases devs.len(),
{
    if devs.len() == 0 {
        Seq::empty()
    } else {
        let p = paths_of_rank(devs.drop_last(), r);
        let d = devs.last();
        if address_candidate(d) && device_rank(d.kind) == r { p.push(d.path@) } else { p }
    }
}

/// The order in which devices are asked for an address.
pub open spec fn spec_address_order(devs: Seq<DeviceInfo>) -> Seq<Seq<char>> {
    paths_of_rank(devs, 0) + paths_of_rank(devs, 1) + paths_of_rank(devs, 2)
}

fn push_rank(devs: &Vec<DeviceInfo>, rank: u8, out: &mut Vec<String>)
    requires
        rank <= 2,
    ensures
        final(out)@.map_values(|s: String| s@) == old(out)@.map_values(|s: String| s@) + paths_of_rank(devs@, rank as int),
{
    let ghost start = out@.map_values(|s: String| s@);
    let mut i: usize = 0;
    while i < devs.len()
        invariant
            i <= devs.len(),
            out@.map_values(|s: String| s@) == start + paths_of_rank(devs@.take(i as int), rank as int),
        decreases devs.len() - i,
    {
        assert(devs@.take(i + 1).drop_last() =~= devs@.take(i as int));
        assert(devs@.take(i + 1).last() == devs@[i as int]);
        let d = &devs[i];
        let r: u8 = if d.kind == 2 { 0 } else if d.kind == 1 { 1 } else { 2 };
        if d.kind != 32 && !str_is(d.interface.as_str(), "lo") && r == rank {
            let ghost before = out@.map_values(|s: String| s@);
            out.push(d.path.clone());
            assert(out@.map_values(|s: String| s@) =~= before.push(d.path@));
        }
        i = i + 1;
    }
    assert(devs@.take(devs.len() as int) =~= devs@);
}

/// Orders the devices to ask for an address: loopback left out, Wi-Fi
/// first, then Ethernet, then the rest, each group in its order.
pub fn address_order(devs: &Vec<DeviceInfo>) -> (r: Vec<String>)
    ensures
        r@.map_values(|s: String| s@) == spec_address_order(devs@),
{
    let mut out: Vec<String> = Vec::new();
    assert(out@.map_values(|s: String| s@) =~= Seq::<Seq<char>>::empty());
    push_rank(devs, 0, &mut out);
    push_rank(devs, 1, &mut out);
    push_rank(devs, 2, &mut out);
    assert(Seq::<Seq<char>>::empty() + paths_of_rank(devs@, 0) =~= paths_of_rank(devs@, 0));
    out
}

/// Whether an object path names an object: not empty and not `/`.
pub fn is_object_path(p: &str) -> (r: bool)
    ensures
        r == (p@.len() > 0 && p@ != "/"@),
{
    p.unicode_len() > 0 && !str_is(p, "/")
}

/// The first usable address at or after position `i`: not empty and not
/// `127.0.0.1`.
pub open spec fn first_address_from(a: Seq<Json>, i: int) -> Option<Seq<char>>
    decreases a.len() - i,
{
    if i < 0 || i >= a.len() {
        None
    } else {
        match a[i].spec_get("address"@) {
            Some(Json::Str(s)) => if s@.len() > 0 && s@ != "127.0.0.1"@ {
                Some(s@)
            } else {
                first_address_from(a, i + 1)
            },
            _ => first_address_from(a, i + 1),
        }
    }
}

/// The address shown for an IPv4 configuration: the first usable one of
/// its `AddressData`.
pub fn first_address(props: &Json) -> (r: Option<String>)
    ensures
        match r {
            Some(s) => (match props.spec_get("AddressData"@) {
                Some(Json::Array(a)) => first_address_from(a@, 0),
                _ => None,
            }) == Some(s@),
            None => (match props.spec_get("AddressData"@) {
                Some(Json::Array(a)) => first_address_from(a@, 0),
                _ => None,
            }) is None,
        },
{
    let a = match props.get("AddressData") {
        Some(Json::Array(a)) => a,
        _ => return None,
    };
    let mut i: usize = 0;
    while i < a.len()
        invariant
            i <= a.len(),
            props.spec_get("AddressData"@) == Some(Json::Array(*a)),
            first_address_from(a@, 0) == first_address_from(a@, i as int),
        decreases a.len() - i,
    {
        if let Some(Json::Str(s)) = a[i].get("address") {
            if s.unicode_len() > 0 && !str_is(s.as_str(), "127.0.0.1") {
                return Some(s.clone());
            }
        }
        i = i + 1;
    }
    None
}

/// The bar glyph for a connection state and signal strength.
pub open spec fn spec_status_glyph(connected: bool, signal: u8) -> Seq<char> {
    if !connected {
        "\u{f092e}"@
    } else if signal < 30 {
        "\u{f091f}"@
    } else if signal < 65 {
        "\u{f0925}"@
    } else {
        "\u{f0928}"@
    }
}

pub fn status_glyph(connected: bool, signal: u8) -> (r: &'static str)
    ensures
        r@ == spec_status_glyph(connected, signal),
{
    if !connected {
        "\u{f092e}"
    } else if signal < 30 {
        "\u{f091f}"
    } else if signal < 65 {
        "\u{f0925}"
    } else {
        "\u{f0928}"
    }
}

/// The network widget's bar text: the glyph and the network's name (or
/// `Connected` when it has none), or `Offline`.
pub fn bar_text(connected: bool, signal: u8, ssid: &str) -> (r: String)
    ensures
        r@ == (if connected {
            spec_status_glyph(connected, signal) + (if ssid@.len() == 0 { " Connected"@ } else { " "@ + ssid@ })
        } else {
            "\u{f092e} Offline"@
        }),
{
    if !connected {
        return "\u{f092e} Offline".to_string();
    }
    let g = chars_of(status_glyph(connected, signal));
    if ssid.unicode_len() == 0 {
        string_of(&concat(&g, &chars_of(" Connected")))
    } else {
        string_of(&concat(&concat(&g, &chars_of(" ")), &chars_of(ssid)))
    }
}

/// The text of a network's button in the popup: a check on the connected
/// one, the name cut to 20 characters and `..` when longer than 22, a lock
/// note for secured ones, and the signal.
pub open spec fn spec_network_label(e: NetView) -> Seq<char> {
    let name = if e.0.len() > 22 { e.0.take(20) + ".."@ } else { e.0 };
    (if e.3 { "\u{2713} "@ } else { "  "@ }) + name + (if e.2 { " [locked]"@ } else { ""@ })
        + " ("@ + spec_decimal(e.1 as nat) + "%)"@
}

pub fn network_label(e: &NetworkEntry) -> (r: String)
    ensures
        r@ == spec_network_label(net_view(*e)),
{
    let ssid = chars_of(e.ssid.as_str());
    let name = if ssid.len() > 22 {
        let head = crate::text::slice(&ssid, 0, 20);
        assert(head@ =~= ssid@.take(20));
        concat(&head, &chars_of(".."))
    } else {
        ssid
    };
    let badge = if e.connected { chars_of("\u{2713} ") } else { chars_of("  ") };
    let lock = if e.secured { chars_of(" [locked]") } else { chars_of("") };
    proof {
        reveal_strlit("");
    }
    let mut t = concat(&badge, &name);
    t = concat(&t, &lock);
    t = concat(&t, &chars_of(" ("));
    t = concat(&t, &chars_of(decimal(e.signal as u64).as_str()));
    t = concat(&t, &chars_of("%)"));
    string_of(&t)
}

} // verus!
