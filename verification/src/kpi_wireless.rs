//! The wireless half of the Linux kernel interface: registering wireless
//! hardware, the stations a driver has told about and their block-ack
//! sessions, and the connection state a wireless device reports.
use std::collections::BTreeMap;
use vstd::prelude::*;
use vstd::std_specs::iter::IteratorSpec;

use crate::kpi_pci::{EBUSY, EINVAL};

verus! {

broadcast use {vstd::std_specs::btree::group_btree_axioms, vstd::laws_cmp::group_laws_cmp};

pub const IEEE80211_STA_NOTEXIST: u32 = 0;

pub const IEEE80211_STA_NONE: u32 = 1;

pub const IEEE80211_STA_AUTH: u32 = 2;

pub const IEEE80211_STA_ASSOC: u32 = 3;

pub const IEEE80211_STA_AUTHORIZED: u32 = 4;

/// What the registry knows of a station: the hardware and interface it
/// belongs to and its state.
#[derive(Clone, Copy, Debug, PartialEq, Eq, Structural)]
pub struct StaEntry {
    pub hw: usize,
    pub vif: usize,
    pub state: u32,
}

/// The stations drivers have reported, by station, and their open block-ack
/// sessions.
pub struct StaRegistry {
    stations: BTreeMap<usize, StaEntry>,
    sessions: BTreeMap<usize, Vec<u16>>,
}

impl StaRegistry {
    /// The known stations.
    pub closed spec fn stations(&self) -> Map<usize, StaEntry> {
        self.stations@
    }

    /// Stations whose entry matches `hw` (and, where asked, that are past
    /// the bare `NONE` state).
    pub open spec fn station_matches(&self, k: usize, hw: usize, active_only: bool) -> bool {
        &&& self.stations().contains_key(k)
        &&& self.stations()[k].hw == hw
        &&& active_only ==> self.stations()[k].state > IEEE80211_STA_NONE
    }

    /// The open block-ack sessions, as (station, traffic identifier) pairs.
    pub closed spec fn ba_sessions(&self) -> Set<(usize, u16)> {
        Set::new(
            |p: (usize, u16)| self.sessions@.contains_key(p.0) && self.sessions@[p.0]@.contains(p.1),
        )
    }

    /// An empty registry.
    pub fn new() -> (r: Self)
        ensures
            r.stations() == Map::<usize, StaEntry>::empty(),
            r.ba_sessions() == Set::<(usize, u16)>::empty(),
    {
        let r = StaRegistry { stations: BTreeMap::new(), sessions: BTreeMap::new() };
        assert(r.ba_sessions() =~= Set::<(usize, u16)>::empty());
        r
    }

    /// Records a station's new state (hardware, interface and station each
    /// `None` where missing): `-EINVAL` where one is missing; otherwise 0,
    /// and a station at `NONE` or below is forgotten with its block-ack
    /// sessions, while any other is recorded with its new state.
    pub fn sta_state(&mut self, hw: Option<usize>, vif: Option<usize>, sta: Option<usize>, new_state: u32) -> (r:
        i32)
        ensures
            (hw is None || vif is None || sta is None) ==> r == -EINVAL && final(self).stations()
                == old(self).stations() && final(self).ba_sessions() == old(self).ba_sessions(),
            hw is Some && vif is Some && sta is Some ==> r == 0 && if new_state <= IEEE80211_STA_NONE {
                &&& final(self).stations() == old(self).stations().remove(sta->0)
                &&& final(self).ba_sessions() == old(self).ba_sessions().filter(
                    |p: (usize, u16)| p.0 != sta->0,
                )
            } else {
                &&& final(self).stations() == old(self).stations().insert(
                    sta->0,
                    StaEntry { hw: hw->0, vif: vif->0, state: new_state },
                )
                &&& final(self).ba_sessions() == old(self).ba_sessions()
            },
    {
        let (h, v, k) = match (hw, vif, sta) {
            (Some(h), Some(v), Some(k)) => (h, v, k),
            _ => {
                return -EINVAL;
            },
        };
        if new_state <= IEEE80211_STA_NONE {
            self.stations.remove(&k);
            self.sessions.remove(&k);
            assert(self.ba_sessions() =~= old(self).ba_sessions().filter(
                |p: (usize, u16)| p.0 != k,
            ));
        } else {
            self.stations.insert(k, StaEntry { hw: h, vif: v, state: new_state });
        }
        0
    }

    /// The stations of a piece of hardware that are past `NONE`, each once:
    /// those a lookup by address chooses from.
    pub fn active_stations(&self, hw: usize) -> (r: Vec<usize>)
        ensures
            r@.no_duplicates(),
            forall|k: usize| r@.contains(k) <==> self.station_matches(k, hw, true),
    {
        self.matching_stations(hw, true)
    }

    /// Forgets every station of a piece of hardware that is being freed;
    /// block-ack sessions stay as they are.
    pub fn forget_hw(&mut self, hw: usize)
        ensures
            final(self).stations() == old(self).stations().restrict(
                old(self).stations().dom().filter(|k: usize| old(self).stations()[k].hw != hw),
            ),
            final(self).ba_sessions() == old(self).ba_sessions(),
    {
        let keys = self.matching_stations(hw, false);
        let ghost start = self.stations@;
        let mut i: usize = 0;
        while i < keys.len()
            invariant
                0 <= i <= keys.len(),
                keys@.no_duplicates(),
                forall|k: usize| keys@.contains(k) <==> (start.contains_key(k) && start[k].hw == hw),
                self.sessions@ == old(self).sessions@,
                start == old(self).stations@,
                forall|k: usize|
                    #[trigger] self.stations@.contains_key(k) <==> (start.contains_key(k)
                        && !keys@.take(i as int).contains(k)),
                forall|k: usize| #[trigger]
                    self.stations@.contains_key(k) ==> self.stations@[k] == start[k],
            decreases keys.len() - i,
        {
            let k = keys[i];
            self.stations.remove(&k);
            proof {
                assert forall|x: usize|
                    #[trigger] self.stations@.contains_key(x) <==> (start.contains_key(x)
                        && !keys@.take(i + 1).contains(x)) by {
                    let a = keys@.take(i as int);
                    let b = keys@.take(i + 1);
                    assert(b == a.push(k));
                    if a.contains(x) {
                        let t = choose|t: int| 0 <= t < a.len() && a[t] == x;
                        assert(b[t] == x);
                    }
                    if x == k {
                        assert(b[i as int] == x);
                    }
                    if b.contains(x) && x != k {
                        let t = choose|t: int| 0 <= t < b.len() && b[t] == x;
                        assert(a[t] == x);
                    }
                }
            }
            i = i + 1;
        }
        proof {
            assert(keys@.take(keys.len() as int) == keys@);
            assert(self.stations@ =~= start.restrict(
                start.dom().filter(|k: usize| start[k].hw != hw),
            ));
        }
    }

    /// Opens a block-ack session with a station for a traffic identifier:
    /// `-EINVAL` for a missing station or an identifier of 16 or more,
    /// `-EBUSY` where that session is open, else 0 with the session open.
    pub fn start_ba_session(&mut self, sta: Option<usize>, tid: u16) -> (r: i32)
        ensures
            (r, final(self).ba_sessions()) == ba_start_spec(old(self).ba_sessions(), sta, tid),
            final(self).stations() == old(self).stations(),
    {
        let k = match sta {
            None => {
                return -EINVAL;
            },
            Some(k) => k,
        };
        if tid >= 16 {
            return -EINVAL;
        }
        let mut tids: Vec<u16> = match self.sessions.get(&k) {
            None => Vec::new(),
            Some(v) => v.clone(),
        };
        if contains_tid(&tids, tid) {
            return -EBUSY;
        }
        let ghost before = tids@;
        tids.push(tid);
        self.sessions.insert(k, tids);
        proof {
            assert forall|p: (usize, u16)|
                self.ba_sessions().contains(p) == old(self).ba_sessions().insert((k, tid)).contains(
                    p,
                ) by {
                if p.0 == k && self.sessions@[k]@.contains(p.1) && p.1 != tid {
                    let t = choose|t: int|
                        0 <= t < self.sessions@[k]@.len() && self.sessions@[k]@[t] == p.1;
                    assert(before[t] == p.1);
                }
                if p.0 == k && old(self).ba_sessions().contains(p) {
                    let t = choose|t: int| 0 <= t < before.len() && before[t] == p.1;
                    assert(self.sessions@[k]@[t] == p.1);
                }
                if p == (k, tid) {
                    assert(self.sessions@[k]@[before.len() as int] == tid);
                }
            }
            assert(self.ba_sessions() =~= old(self).ba_sessions().insert((k, tid)));
        }
        0
    }

    /// Closes a block-ack session: `-EINVAL` for a missing station or an
    /// identifier of 16 or more, else 0 with the session closed (closing
    /// one that is not open changes nothing).
    pub fn stop_ba_session(&mut self, sta: Option<usize>, tid: u16) -> (r: i32)
        ensures
            (r, final(self).ba_sessions()) == ba_stop_spec(old(self).ba_sessions(), sta, tid),
            final(self).stations() == old(self).stations(),
    {
        let k = match sta {
            None => {
                return -EINVAL;
            },
            Some(k) => k,
        };
        if tid >= 16 {
            return -EINVAL;
        }
        let kept = match self.sessions.get(&k) {
            None => {
                assert(self.ba_sessions() =~= old(self).ba_sessions().remove((k, tid)));
                return 0;
            },
            Some(v) => without_tid(v, tid),
        };
        if kept.len() == 0 {
            self.sessions.remove(&k);
        } else {
            self.sessions.insert(k, kept);
        }
        assert(self.ba_sessions() =~= old(self).ba_sessions().remove((k, tid)));
        0
    }

    fn matching_stations(&self, hw: usize, active_only: bool) -> (r: Vec<usize>)
        ensures
            r@.no_duplicates(),
            forall|k: usize| r@.contains(k) <==> self.station_matches(k, hw, active_only),
    {
        let mut out: Vec<usize> = Vec::new();
        for kv in it: self.stations.iter()
            invariant
                it.seq() == vstd::std_specs::btree::spec_btree_map_iter(&self.stations).remaining(),
                it.seq().no_duplicates(),
                out@.no_duplicates(),
                forall|k: usize|
                    out@.contains(k) <==> exists|j: int|
                        0 <= j < it.index() && *it.seq()[j].0 == k && self.station_matches(
                            k,
                            hw,
                            active_only,
                        ),
        {
            let (k, e) = kv;
            let ghost before = out@;
            proof {
                let s = it.seq();
                let i = it.index();
                assert(self.stations@.contains_key(*s[i].0));
                assert(kv == s[i]);
                assert(*e == self.stations@[*k]);
                if out@.contains(*k) {
                    let j = choose|j: int|
                        0 <= j < i && *s[j].0 == *k && self.station_matches(*k, hw, active_only);
                    assert(self.stations@.contains_key(*s[j].0));
                    assert(s[j] == s[i]);
                }
            }
            if e.hw == hw && (!active_only || e.state > IEEE80211_STA_NONE) {
                out.push(*k);
            }
            proof {
                let s = it.seq();
                let i = it.index();
                assert forall|x: usize|
                    out@.contains(x) <==> exists|j: int|
                        0 <= j < i + 1 && *s[j].0 == x && self.station_matches(
                            x,
                            hw,
                            active_only,
                        ) by {
                    if out@.contains(x) && !before.contains(x) {
                        let t = choose|t: int| 0 <= t < out@.len() && out@[t] == x;
                        if t < before.len() {
                            assert(before[t] == x);
                        }
                        assert(x == *k);
                        assert(0 <= i < i + 1 && *s[i].0 == x);
                    }
                    if exists|j: int|
                        0 <= j < i + 1 && *s[j].0 == x && self.station_matches(x, hw, active_only) {
                        let j = choose|j: int|
                            0 <= j < i + 1 && *s[j].0 == x && self.station_matches(
                                x,
                                hw,
                                active_only,
                            );
                        if j == i {
                            assert(out@[before.len() as int] == *k);
                        } else {
                            assert(before.contains(x));
                            let t = choose|t: int| 0 <= t < before.len() && before[t] == x;
                            assert(out@[t] == x);
                        }
                    }
                }
            }
        }
        out
    }
}


// ---- Registration ----
/// A wireless device's registration and scan limits.
#[derive(Clone, Copy, Debug, PartialEq, Eq, Structural)]
pub struct Wiphy {
    pub registered: i32,
    pub interface_modes: u32,
    pub max_scan_ssids: i32,
    pub max_scan_ie_len: i32,
}

/// A new, unregistered wireless device: four SSIDs and 512 bytes of
/// information elements per scan.
pub fn wiphy_new() -> (r: Wiphy)
    ensures
        r == (Wiphy { registered: 0, interface_modes: 0, max_scan_ssids: 4, max_scan_ie_len: 512 }),
{
    Wiphy { registered: 0, interface_modes: 0, max_scan_ssids: 4, max_scan_ie_len: 512 }
}

/// Registering a wireless device: refused as busy where it is registered.
pub open spec fn wiphy_register_spec(w: Wiphy) -> (i32, Wiphy) {
    if w.registered != 0 {
        ((-EBUSY) as i32, w)
    } else {
        (0, Wiphy { registered: 1, ..w })
    }
}

/// Registers a wireless device.
pub fn wiphy_register(w: &mut Wiphy) -> (r: i32)
    ensures
        (r, *final(w)) == wiphy_register_spec(*old(w)),
{
    if w.registered != 0 {
        return -EBUSY;
    }
    w.registered = 1;
    0
}

/// Unregisters a wireless device.
pub fn wiphy_unregister(w: &mut Wiphy)
    ensures
        *final(w) == (Wiphy { registered: 0, ..*old(w) }),
{
    w.registered = 0;
}

/// 802.11 hardware: its wireless device, whether it is registered, and
/// its transmit headroom and queue count.
#[derive(Clone, Copy, Debug, PartialEq, Eq, Structural)]
pub struct Ieee80211Hw {
    pub wiphy: Wiphy,
    pub registered: i32,
    pub extra_tx_headroom: u32,
    pub queues: u16,
}

/// New hardware: a new wireless device, unregistered, one queue.
pub fn ieee80211_alloc_hw() -> (r: Ieee80211Hw)
    ensures
        r == (Ieee80211Hw {
            wiphy: Wiphy { registered: 0, interface_modes: 0, max_scan_ssids: 4, max_scan_ie_len: 512 },
            registered: 0,
            extra_tx_headroom: 0,
            queues: 1,
        }),
{
    Ieee80211Hw { wiphy: wiphy_new(), registered: 0, extra_tx_headroom: 0, queues: 1 }
}

/// Registering hardware: busy where it is registered; else its wireless
/// device is registered, and whatever that refuses is the answer.
pub open spec fn hw_register_spec(hw: Ieee80211Hw) -> (i32, Ieee80211Hw) {
    if hw.registered != 0 {
        ((-EBUSY) as i32, hw)
    } else {
        let (rc, w) = wiphy_register_spec(hw.wiphy);
        if rc != 0 {
            (rc, Ieee80211Hw { wiphy: w, ..hw })
        } else {
            (0, Ieee80211Hw { wiphy: w, registered: 1, ..hw })
        }
    }
}

/// Unregistering hardware: nothing where it is not registered.
pub open spec fn hw_unregister_spec(hw: Ieee80211Hw) -> Ieee80211Hw {
    if hw.registered == 0 {
        hw
    } else {
        Ieee80211Hw { wiphy: Wiphy { registered: 0, ..hw.wiphy }, registered: 0, ..hw }
    }
}

/// Registers 802.11 hardware.
pub fn ieee80211_register_hw(hw: &mut Ieee80211Hw) -> (r: i32)
    ensures
        (r, *final(hw)) == hw_register_spec(*old(hw)),
{
    if hw.registered != 0 {
        return -EBUSY;
    }
    let rc = wiphy_register(&mut hw.wiphy);
    if rc != 0 {
        return rc;
    }
    hw.registered = 1;
    0
}

/// Unregisters 802.11 hardware.
pub fn ieee80211_unregister_hw(hw: &mut Ieee80211Hw)
    ensures
        *final(hw) == hw_unregister_spec(*old(hw)),
{
    if hw.registered == 0 {
        return;
    }
    wiphy_unregister(&mut hw.wiphy);
    hw.registered = 0;
}

/// Fresh hardware registers, a second registration is refused as busy, and
/// after unregistering it registers again.
pub proof fn lemma_hw_registration_cycle(hw: Ieee80211Hw)
    requires
        hw.registered == 0,
        hw.wiphy.registered == 0,
    ensures
        hw_register_spec(hw).0 == 0,
        hw_register_spec(hw_register_spec(hw).1).0 == -EBUSY,
        hw_register_spec(hw_unregister_spec(hw_register_spec(hw).1)).0 == 0,
{
}

// ---- Connection state ----
/// An interface's association, which losing the connection or the beacon
/// clears.
#[derive(Clone, Copy, Debug)]
pub struct Ieee80211Vif {
    pub addr: [u8; 6],
    pub type_: u32,
    pub cfg_assoc: bool,
}

/// The connection was lost: the interface is no longer associated.
pub fn ieee80211_connection_loss(vif: &mut Ieee80211Vif)
    ensures
        !final(vif).cfg_assoc,
        final(vif).addr == old(vif).addr,
        final(vif).type_ == old(vif).type_,
{
    vif.cfg_assoc = false;
}

/// The beacon was lost: the interface is no longer associated.
pub fn ieee80211_beacon_loss(vif: &mut Ieee80211Vif)
    ensures
        !final(vif).cfg_assoc,
        final(vif).addr == old(vif).addr,
        final(vif).type_ == old(vif).type_,
{
    vif.cfg_assoc = false;
}

/// What a wireless device reports of its scans and its connection.
#[derive(Clone, Copy, Debug)]
pub struct WirelessDevState {
    pub scan_in_flight: bool,
    pub scan_aborted: bool,
    pub connecting: bool,
    pub connected: bool,
    pub locally_generated: bool,
    pub last_status: u16,
    pub last_reason: u16,
    pub has_bssid: bool,
    pub last_bssid: [u8; 6],
}

/// A scan ended; `aborted` is what the scan information says, `None` where
/// there is none (counted as not aborted).
pub fn cfg80211_scan_done(w: &mut WirelessDevState, aborted: Option<bool>)
    ensures
        !final(w).scan_in_flight,
        final(w).scan_aborted == (aborted == Some(true)),
        final(w).connecting == old(w).connecting,
        final(w).connected == old(w).connected,
        final(w).has_bssid == old(w).has_bssid,
        final(w).last_bssid == old(w).last_bssid,
        final(w).last_status == old(w).last_status,
        final(w).last_reason == old(w).last_reason,
        final(w).locally_generated == old(w).locally_generated,
{
    w.scan_in_flight = false;
    w.scan_aborted = match aborted {
        Some(a) => a,
        None => false,
    };
}

/// A connection attempt ended with `status` (0 for success) at `bssid`
/// (`None` where none was given); returns whether the carrier goes on.
pub fn cfg80211_connect_result(w: &mut WirelessDevState, bssid: Option<[u8; 6]>, status: u16) -> (r:
    bool)
    ensures
        r == (status == 0),
        final(w).scan_in_flight == old(w).scan_in_flight,
        final(w).scan_aborted == old(w).scan_aborted,
        !final(w).connecting,
        final(w).connected == (status == 0),
        final(w).last_status == status,
        final(w).last_reason == old(w).last_reason,
        !final(w).locally_generated,
        final(w).has_bssid == bssid is Some,
        match bssid {
            Some(b) => final(w).last_bssid@ == b@,
            None => final(w).last_bssid@ == seq![0u8, 0u8, 0u8, 0u8, 0u8, 0u8],
        },
{
    w.connecting = false;
    w.connected = status == 0;
    w.last_status = status;
    w.locally_generated = false;
    match bssid {
        Some(b) => {
            w.last_bssid = b;
            w.has_bssid = true;
        },
        None => {
            w.has_bssid = false;
            w.last_bssid = [0u8; 6];
        },
    }
    status == 0
}

/// The connection ended for `reason`; the carrier goes off.
pub fn cfg80211_disconnected(w: &mut WirelessDevState, reason: u16, locally_generated: bool)
    ensures
        final(w).scan_in_flight == old(w).scan_in_flight,
        final(w).scan_aborted == old(w).scan_aborted,
        !final(w).connecting,
        !final(w).connected,
        final(w).last_status == old(w).last_status,
        final(w).last_reason == reason,
        final(w).locally_generated == locally_generated,
        !final(w).has_bssid,
        final(w).last_bssid@ == seq![0u8, 0u8, 0u8, 0u8, 0u8, 0u8],
{
    w.connecting = false;
    w.connected = false;
    w.last_reason = reason;
    w.locally_generated = locally_generated;
    w.has_bssid = false;
    w.last_bssid = [0u8; 6];
}

/// The pieces of a station's lifecycle: once a station is recorded past
/// `NONE` it is among its hardware's active stations, and once it drops to
/// `NONE` it is gone together with its block-ack sessions.
pub proof fn lemma_station_lifecycle(
    stations: Map<usize, StaEntry>,
    sessions: Set<(usize, u16)>,
    hw: usize,
    vif: usize,
    sta: usize,
    state: u32,
    tid: u16,
)
    requires
        state > IEEE80211_STA_NONE,
    ensures
        ({
            let m = stations.insert(sta, StaEntry { hw, vif, state });
            m.contains_key(sta) && m[sta].hw == hw && m[sta].state > IEEE80211_STA_NONE
        }),
        !stations.remove(sta).contains_key(sta),
        !sessions.filter(|p: (usize, u16)| p.0 != sta).contains((sta, tid)),
{
}

/// Opening a block-ack session, over the set of open sessions: the result
/// and the sessions after.
pub open spec fn ba_start_spec(s: Set<(usize, u16)>, sta: Option<usize>, tid: u16) -> (i32, Set<
    (usize, u16),
>) {
    match sta {
        None => ((-EINVAL) as i32, s),
        Some(k) => if tid >= 16 {
            ((-EINVAL) as i32, s)
        } else if s.contains((k, tid)) {
            ((-EBUSY) as i32, s)
        } else {
            (0, s.insert((k, tid)))
        },
    }
}

/// Closing a block-ack session, over the set of open sessions.
pub open spec fn ba_stop_spec(s: Set<(usize, u16)>, sta: Option<usize>, tid: u16) -> (i32, Set<
    (usize, u16),
>) {
    match sta {
        None => ((-EINVAL) as i32, s),
        Some(k) => if tid >= 16 {
            ((-EINVAL) as i32, s)
        } else {
            (0, s.remove((k, tid)))
        },
    }
}

fn contains_tid(v: &Vec<u16>, tid: u16) -> (r: bool)
    ensures
        r == v@.contains(tid),
{
    let mut i: usize = 0;
    while i < v.len()
        invariant
            0 <= i <= v.len(),
            forall|j: int| 0 <= j < i ==> v@[j] != tid,
        decreases v.len() - i,
    {
        if v[i] == tid {
            return true;
        }
        i = i + 1;
    }
    false
}

fn without_tid(v: &Vec<u16>, tid: u16) -> (r: Vec<u16>)
    ensures
        forall|x: u16| r@.contains(x) <==> (v@.contains(x) && x != tid),
{
    let mut out: Vec<u16> = Vec::new();
    let mut i: usize = 0;
    while i < v.len()
        invariant
            0 <= i <= v.len(),
            forall|x: u16| out@.contains(x) <==> (v@.take(i as int).contains(x) && x != tid),
        decreases v.len() - i,
    {
        let ghost before = out@;
        if v[i] != tid {
            out.push(v[i]);
        }
        proof {
            assert(v@.take(i + 1) == v@.take(i as int).push(v@[i as int]));
            assert forall|x: u16|
                out@.contains(x) <==> (v@.take(i + 1).contains(x) && x != tid) by {
                if out@.contains(x) {
                    let t = choose|t: int| 0 <= t < out@.len() && out@[t] == x;
                    if t < before.len() {
                        assert(before[t] == x);
                        assert(before.contains(x));
                        let u = choose|u: int|
                            0 <= u < v@.take(i as int).len() && v@.take(i as int)[u] == x;
                        assert(v@.take(i + 1)[u] == x);
                    } else {
                        assert(v@.take(i + 1)[i as int] == x);
                    }
                }
                if v@.take(i + 1).contains(x) && x != tid {
                    let w = v@.take(i + 1);
                    let t = choose|t: int| 0 <= t < w.len() && w[t] == x;
                    if t < i {
                        assert(v@.take(i as int)[t] == x);
                        assert(v@.take(i as int).contains(x));
                        assert(before.contains(x));
                        let u = choose|u: int| 0 <= u < before.len() && before[u] == x;
                        assert(out@[u] == x);
                    } else {
                        assert(out@[before.len() as int] == x);
                    }
                }
            }
        }
        i = i + 1;
    }
    assert(v@.take(v.len() as int) == v@);
    out
}

/// Opening a session that is not open succeeds, a second opening is refused
/// as busy, and once closed the session can be opened again.
pub proof fn lemma_ba_session_cycle(s: Set<(usize, u16)>, sta: usize, tid: u16)
    requires
        tid < 16,
        !s.contains((sta, tid)),
    ensures
        ba_start_spec(s, Some(sta), tid).0 == 0,
        ba_start_spec(ba_start_spec(s, Some(sta), tid).1, Some(sta), tid).0 == -EBUSY,
        ba_start_spec(
            ba_stop_spec(ba_start_spec(s, Some(sta), tid).1, Some(sta), tid).1,
            Some(sta),
            tid,
        ).0 == 0,
{
    assert(s.insert((sta, tid)).contains((sta, tid)));
    assert(!s.insert((sta, tid)).remove((sta, tid)).contains((sta, tid)));
}

} // verus!
