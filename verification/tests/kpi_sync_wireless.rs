use redbear_drivers::kpi_sync::{
    atomic_add, atomic_add_return, atomic_cmpxchg, atomic_dec, atomic_dec_and_test, atomic_inc,
    atomic_inc_and_test, atomic_read, atomic_set, atomic_sub, atomic_sub_return, atomic_xchg,
    complete, complete_all, completion_done, completion_wait_step, init_completion,
    irq_disable_step, irq_enable_step, irq_restore_depth, irq_saved_flags, irqs_disabled_at,
    lock_acquire_step, mutex_init, mutex_is_locked, mutex_trylock, mutex_unlock,
    reinit_completion, spin_lock_init, spin_try_acquire, spin_unlock, wait_result, AtomicT,
    WaitStep, MUTEX_LOCKED,
};
use redbear_drivers::kpi_wireless::{
    cfg80211_connect_result, cfg80211_disconnected, cfg80211_scan_done, ieee80211_alloc_hw,
    ieee80211_beacon_loss, ieee80211_connection_loss, ieee80211_register_hw,
    ieee80211_unregister_hw, wiphy_new, wiphy_register, wiphy_unregister, Ieee80211Vif,
    StaRegistry, WirelessDevState, IEEE80211_STA_ASSOC, IEEE80211_STA_NONE,
};

#[test]
fn mutex_trylock_reflects_lock_state() {
    let mut lock = mutex_init();
    assert_eq!(mutex_trylock(&mut lock), 1);
    assert_eq!(mutex_trylock(&mut lock), 0);
    assert!(mutex_is_locked(&lock));
    mutex_unlock(&mut lock);
    assert!(!mutex_is_locked(&lock));
    assert_eq!(mutex_trylock(&mut lock), 1);
}

#[test]
fn spinlock_is_exclusive() {
    let mut lock = spin_lock_init();
    assert!(spin_try_acquire(&mut lock));
    assert!(!spin_try_acquire(&mut lock));
    spin_unlock(&mut lock);
    assert!(spin_try_acquire(&mut lock));
    assert_eq!(lock_acquire_step(0), Some(MUTEX_LOCKED));
    assert_eq!(lock_acquire_step(MUTEX_LOCKED), None);
}

#[test]
fn local_irq_disable_enable_tracks_depth() {
    let depth = irq_disable_step(0);
    assert!(irqs_disabled_at(depth));
    let depth = irq_enable_step(depth);
    assert!(!irqs_disabled_at(depth));
    assert_eq!(irq_enable_step(0), 0);
    assert_eq!(irq_disable_step(u32::MAX), 0);
}

#[test]
fn irq_save_then_restore_returns_depth() {
    let flags = irq_saved_flags(3);
    assert_eq!(flags, 3);
    assert_eq!(irq_restore_depth(flags), 3);
    assert_eq!(irq_restore_depth(0x1_0000_0005), 5);
}

#[test]
fn atomic_operations_cover_all_paths() {
    let mut value = AtomicT { value: 0 };
    atomic_set(&mut value, 3);
    assert_eq!(atomic_read(&value), 3);
    atomic_add(4, &mut value);
    assert_eq!(atomic_read(&value), 7);
    atomic_sub(2, &mut value);
    assert_eq!(atomic_read(&value), 5);
    atomic_inc(&mut value);
    atomic_dec(&mut value);
    assert_eq!(atomic_add_return(5, &mut value), 10);
    assert_eq!(atomic_sub_return(3, &mut value), 7);
    assert_eq!(atomic_xchg(&mut value, 11), 7);
    assert_eq!(atomic_cmpxchg(&mut value, 10, 12), 11);
    assert_eq!(atomic_cmpxchg(&mut value, 11, 13), 11);
    assert_eq!(atomic_read(&value), 13);

    atomic_set(&mut value, -1);
    assert_eq!(atomic_inc_and_test(&mut value), 1);
    atomic_set(&mut value, 1);
    assert_eq!(atomic_dec_and_test(&mut value), 1);
}

#[test]
fn atomic_add_wraps_and_sub_restores() {
    let mut value = AtomicT { value: i32::MAX };
    atomic_add(1, &mut value);
    assert_eq!(atomic_read(&value), i32::MIN);
    atomic_sub(1, &mut value);
    assert_eq!(atomic_read(&value), i32::MAX);
}

#[test]
fn completion_timeout_and_complete_all_work() {
    let mut completion = init_completion();
    assert_eq!(completion_wait_step(completion.done, true), WaitStep::TimedOut);
    assert_eq!(completion_wait_step(completion.done, false), WaitStep::Waiting);
    complete_all(&mut completion);
    assert_eq!(completion.done, u8::MAX);
    assert_eq!(wait_result(completion_wait_step(completion.done, true)), 1);
    reinit_completion(&mut completion);
    assert!(!completion_done(&completion));
    assert_eq!(wait_result(completion_wait_step(completion.done, true)), 0);
    complete(&mut completion);
    assert!(completion_done(&completion));
}

#[test]
fn wiphy_registration_round_trip_works() {
    let mut wiphy = wiphy_new();
    assert_eq!(wiphy.max_scan_ssids, 4);
    assert_eq!(wiphy.max_scan_ie_len, 512);
    assert_eq!(wiphy_register(&mut wiphy), 0);
    assert_eq!(wiphy_register(&mut wiphy), -16);
    assert_eq!(wiphy.registered, 1);
    wiphy_unregister(&mut wiphy);
    assert_eq!(wiphy.registered, 0);
}

#[test]
fn ieee80211_hw_registration_round_trip_works() {
    let mut hw = ieee80211_alloc_hw();
    assert_eq!(hw.queues, 1);
    assert_eq!(ieee80211_register_hw(&mut hw), 0);
    assert_eq!(ieee80211_register_hw(&mut hw), -16);
    assert_eq!(hw.registered, 1);
    assert_eq!(hw.wiphy.registered, 1);
    ieee80211_unregister_hw(&mut hw);
    assert_eq!(hw.registered, 0);
    assert_eq!(hw.wiphy.registered, 0);
    assert_eq!(ieee80211_register_hw(&mut hw), 0);
}

#[test]
fn hw_registration_refused_when_wiphy_already_registered() {
    let mut hw = ieee80211_alloc_hw();
    assert_eq!(wiphy_register(&mut hw.wiphy), 0);
    assert_eq!(ieee80211_register_hw(&mut hw), -16);
    assert_eq!(hw.registered, 0);
}

#[test]
fn connection_loss_and_beacon_loss_clear_assoc_state() {
    let mut vif = Ieee80211Vif { addr: [0; 6], type_: 0, cfg_assoc: true };
    ieee80211_connection_loss(&mut vif);
    assert!(!vif.cfg_assoc);
    vif.cfg_assoc = true;
    ieee80211_beacon_loss(&mut vif);
    assert!(!vif.cfg_assoc);
}

#[test]
fn ieee80211_sta_registry_and_ba_sessions_work() {
    let mut reg = StaRegistry::new();
    let (hw, vif, sta) = (0x1000usize, 0x2000usize, 0x3000usize);
    assert_eq!(reg.sta_state(Some(hw), Some(vif), Some(sta), IEEE80211_STA_ASSOC), 0);
    assert_eq!(reg.active_stations(hw), vec![sta]);
    assert!(reg.active_stations(0x9999).is_empty());

    assert_eq!(reg.start_ba_session(Some(sta), 3), 0);
    assert_eq!(reg.start_ba_session(Some(sta), 3), -16);
    assert_eq!(reg.stop_ba_session(Some(sta), 3), 0);
    assert_eq!(reg.start_ba_session(Some(sta), 3), 0);
    assert_eq!(reg.start_ba_session(Some(sta), 16), -22);
    assert_eq!(reg.start_ba_session(None, 3), -22);

    assert_eq!(reg.sta_state(Some(hw), Some(vif), Some(sta), IEEE80211_STA_NONE), 0);
    assert!(reg.active_stations(hw).is_empty());
    // The sessions went with the station: the identifier can be opened anew.
    assert_eq!(reg.start_ba_session(Some(sta), 3), 0);
    assert_eq!(reg.sta_state(None, Some(vif), Some(sta), IEEE80211_STA_ASSOC), -22);
}

#[test]
fn forgetting_hardware_drops_its_stations_only() {
    let mut reg = StaRegistry::new();
    assert_eq!(reg.sta_state(Some(1), Some(2), Some(10), IEEE80211_STA_ASSOC), 0);
    assert_eq!(reg.sta_state(Some(1), Some(2), Some(11), IEEE80211_STA_ASSOC), 0);
    assert_eq!(reg.sta_state(Some(5), Some(2), Some(12), IEEE80211_STA_ASSOC), 0);
    reg.forget_hw(1);
    assert!(reg.active_stations(1).is_empty());
    assert_eq!(reg.active_stations(5), vec![12]);
}

#[test]
fn scan_and_connect_lifecycle_updates_wireless_state() {
    let mut w = WirelessDevState {
        scan_in_flight: true,
        scan_aborted: false,
        connecting: true,
        connected: false,
        locally_generated: false,
        last_status: u16::MAX,
        last_reason: 0,
        has_bssid: false,
        last_bssid: [0; 6],
    };
    cfg80211_scan_done(&mut w, Some(true));
    assert!(!w.scan_in_flight);
    assert!(w.scan_aborted);
    cfg80211_scan_done(&mut w, None);
    assert!(!w.scan_aborted);

    let bssid = [1, 2, 3, 4, 5, 6];
    assert!(cfg80211_connect_result(&mut w, Some(bssid), 0));
    assert!(w.connected);
    assert_eq!(w.last_status, 0);
    assert!(w.has_bssid);
    assert_eq!(w.last_bssid, bssid);

    cfg80211_disconnected(&mut w, 7, true);
    assert!(!w.connected);
    assert_eq!(w.last_reason, 7);
    assert!(w.locally_generated);
    assert!(!w.has_bssid);
    assert_eq!(w.last_bssid, [0; 6]);

    assert!(!cfg80211_connect_result(&mut w, None, 1));
    assert!(!w.connected);
    assert!(!w.has_bssid);
}
