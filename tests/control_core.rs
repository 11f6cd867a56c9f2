use synapse_control::control::{is_resume_file, Action, Command, Control, Event, TransferReport};
use synapse_control::hexid::{id_to_hash, ContentHash};
use synapse_control::jobs::{JobKind, JobManager};
use synapse_control::server::ServerData;
use synapse_control::table::{same_hash, AddError, TorrentTable};

const REFRESH: usize = 1;
const FLUSH: usize = 2;
const JOBS: usize = 3;

fn hash(b: u8) -> ContentHash {
    let mut h = [0u8; 20];
    for (i, x) in h.iter_mut().enumerate() {
        *x = b.wrapping_add(i as u8);
    }
    h
}

fn hex(h: &ContentHash) -> String {
    h.iter().map(|b| format!("{:02x}", b)).collect()
}

fn fresh_core() -> Control {
    Control::new(REFRESH, FLUSH, JOBS, 100, 200, ServerData::new("0.1.0", "abcdefghijklmno"), 1000)
}

#[test]
fn hex_id_decodes_lower_and_upper_case() {
    let h = hash(0xa0);
    assert_eq!(id_to_hash(&hex(&h)), Some(h));
    assert_eq!(id_to_hash(&hex(&h).to_uppercase()), Some(h));
}

#[test]
fn hex_id_rejects_bad_input() {
    let good = hex(&hash(1));
    assert_eq!(id_to_hash(&good[..38]), None);
    assert_eq!(id_to_hash(&format!("{}00", good)), None);
    let mut bad = good.clone();
    bad.replace_range(10..11, "g");
    assert_eq!(id_to_hash(&bad), None);
    assert_eq!(id_to_hash(""), None);
    assert_eq!(id_to_hash("é0000000000000000000000000000000000000000"), None);
}

#[test]
fn same_hash_compares_bytes() {
    assert!(same_hash(&hash(3), &hash(3)));
    assert!(!same_hash(&hash(3), &hash(4)));
}

#[test]
fn table_insert_lookup_remove() {
    let mut t = TorrentTable::new();
    assert_eq!(t.insert(&hash(1)), Ok(0));
    assert_eq!(t.insert(&hash(2)), Ok(1));
    assert_eq!(t.insert(&hash(1)), Err(AddError::Duplicate));
    assert_eq!(t.len(), 2);
    assert_eq!(t.next_tid(), 2);
    assert_eq!(t.lookup(&hash(2)), Some(1));
    assert_eq!(t.remove(&hash(1)), Some(0));
    assert_eq!(t.remove(&hash(1)), None);
    assert_eq!(t.lookup(&hash(1)), None);
    assert!(!t.contains(0));
    assert_eq!(t.hash_of(1), Some(hash(2)));
    assert_eq!(t.insert(&hash(1)), Ok(2));
}

#[test]
fn fresh_start_record() {
    let d = ServerData::new("0.1.0", "abcdefghijklmno");
    assert_eq!(d.id, "0.1.0-abcdefghijklmno");
    assert_eq!((d.ul, d.dl, d.session_ul, d.session_dl), (0, 0, 0, 0));
    let c = fresh_core();
    let bytes = c.server_data().to_bytes().unwrap();
    let back = ServerData::from_bytes(&bytes).unwrap();
    assert_eq!(back, d);
}

#[test]
fn server_record_layout() {
    let d = ServerData { id: "ab".to_string(), ul: 1, dl: 2, session_ul: 1, session_dl: 0 };
    let b = d.to_bytes().unwrap();
    let mut want = vec![2u8, 0, 0, 0, 0, 0, 0, 0, b'a', b'b'];
    want.extend_from_slice(&[1, 0, 0, 0, 0, 0, 0, 0]);
    want.extend_from_slice(&[2, 0, 0, 0, 0, 0, 0, 0]);
    assert_eq!(b, want);
}

#[test]
fn server_record_round_trip_drops_session_counters() {
    let mut d = ServerData::new("1.2", "xyz");
    d.record(10, 20);
    d.record(5, 0);
    assert_eq!((d.ul, d.dl, d.session_ul, d.session_dl), (15, 20, 15, 20));
    let back = ServerData::from_bytes(&d.to_bytes().unwrap()).unwrap();
    assert_eq!(back.id, d.id);
    assert_eq!((back.ul, back.dl, back.session_ul, back.session_dl), (15, 20, 0, 0));
}

#[test]
fn restore_falls_back_to_fresh_record() {
    let fresh = ServerData::new("1.0", "fresh");
    let stored = ServerData { id: "1.0-old".to_string(), ul: 7, dl: 8, session_ul: 0, session_dl: 0 };
    let bytes = stored.to_bytes().unwrap();
    assert_eq!(ServerData::restore_or(Some(&bytes), fresh.clone()), stored);
    assert_eq!(ServerData::restore_or(None, fresh.clone()), fresh);
    assert_eq!(ServerData::restore_or(Some(&vec![1, 2]), fresh.clone()), fresh);
}

#[test]
fn counters_saturate_and_stay_ordered() {
    let mut d = ServerData { id: String::new(), ul: u64::MAX - 1, dl: 3, session_ul: 2, session_dl: 1 };
    d.record(5, 1);
    assert_eq!((d.ul, d.session_ul), (u64::MAX, 7));
    assert_eq!((d.dl, d.session_dl), (4, 2));
    assert!(d.ul >= d.session_ul && d.dl >= d.session_dl);
}

#[test]
fn add_and_remove_torrent() {
    let mut c = fresh_core();
    let h = hash(9);
    let r = c.handle_event(Event::Rpc(Command::AddTorrent { hash: h }));
    assert_eq!(r, Action::Create(0));
    assert_eq!(c.lookup(&h), Some(0));
    let r = c.handle_event(Event::Rpc(Command::RemoveTorrent(hex(&h))));
    assert_eq!(r, Action::Delete(0));
    assert_eq!(c.lookup(&h), None);
    assert_eq!(c.torrent_count(), 0);
    assert_eq!(c.hash_of(0), None);
}

#[test]
fn duplicate_add_is_ignored() {
    let mut c = fresh_core();
    let h = hash(4);
    assert_eq!(c.handle_rpc_ev(Command::AddTorrent { hash: h }), Action::Create(0));
    assert_eq!(c.handle_rpc_ev(Command::AddTorrent { hash: h }), Action::Nothing);
    assert_eq!(c.torrent_count(), 1);
    assert_eq!(c.next_tid(), 1);
    assert_eq!(c.handle_rpc_ev(Command::AddTorrent { hash: hash(5) }), Action::Create(1));
}

#[test]
fn throttle_reconfigure_keeps_missing_cap() {
    let mut c = fresh_core();
    let r = c.handle_rpc_ev(Command::UpdateServer {
        id: "srv".to_string(),
        throttle_up: None,
        throttle_down: Some(1048576),
    });
    assert_eq!(r, Action::SetThrottle { id: "srv".to_string(), up: 100, down: 1048576 });
    assert_eq!(c.throttle_caps(), (100, 1048576));
    let r = c.handle_rpc_ev(Command::UpdateServer {
        id: "other".to_string(),
        throttle_up: Some(5),
        throttle_down: None,
    });
    assert_eq!(r, Action::SetThrottle { id: "other".to_string(), up: 5, down: 1048576 });
}

#[test]
fn resume_across_restart() {
    let mut first = fresh_core();
    let h = hash(0x33);
    first.handle_rpc_ev(Command::AddTorrent { hash: h });
    let saved = first.hash_of(0).unwrap();
    let name = hex(&saved);
    assert!(is_resume_file(name.as_bytes()));
    let record = first.server_data().to_bytes().unwrap();

    let data = ServerData::restore_or(Some(&record), ServerData::new("0.1.0", "other"));
    assert_eq!(data.id, "0.1.0-abcdefghijklmno");
    let mut second = Control::new(REFRESH, FLUSH, JOBS, 100, 200, data, 5000);
    assert_eq!(second.next_tid(), 0);
    assert_eq!(second.restore_torrent(&id_to_hash(&name).unwrap()), Ok(0));
    assert_eq!(second.torrent_count(), 1);
    assert_eq!(second.lookup(&h), Some(0));
    assert_eq!(second.restore_torrent(&h), Err(AddError::Duplicate));
    assert_eq!(second.torrent_count(), 1);
}

#[test]
fn restart_keeps_every_hash() {
    let mut first = fresh_core();
    for b in [1u8, 50, 100] {
        first.handle_rpc_ev(Command::AddTorrent { hash: hash(b) });
    }
    first.handle_rpc_ev(Command::RemoveTorrent(hex(&hash(50))));
    let names: Vec<String> = (0..3).filter_map(|t| first.hash_of(t)).map(|h| hex(&h)).collect();
    let mut second = fresh_core();
    for n in names.iter().chain(["syn_data".to_string()].iter()) {
        if is_resume_file(n.as_bytes()) {
            assert!(second.restore_torrent(&id_to_hash(n).unwrap()).is_ok());
        }
    }
    assert_eq!(second.torrent_count(), 2);
    assert_eq!(second.lookup(&hash(1)), Some(0));
    assert_eq!(second.lookup(&hash(100)), Some(1));
    assert_eq!(second.lookup(&hash(50)), None);
}

#[test]
fn resume_file_names_are_forty_bytes() {
    assert!(is_resume_file("a".repeat(40).as_bytes()));
    assert!(!is_resume_file("a".repeat(39).as_bytes()));
    assert!(!is_resume_file("a".repeat(41).as_bytes()));
    assert!(!is_resume_file(b"syn_data"));
    assert!(is_resume_file(&[0xffu8; 40]));
}

#[test]
fn listener_peer_then_failure() {
    let mut c = fresh_core();
    let h = hash(7);
    c.handle_rpc_ev(Command::AddTorrent { hash: h });
    assert_eq!(c.handle_event(Event::Listener(h)), Action::Deliver(0));
    assert!(c.add_peer(42, 0));
    assert_eq!(c.peer_owner(42), Some(0));
    assert_eq!(c.handle_event(Event::Peer(42)), Action::Deliver(0));
    assert!(c.remove_peer(42));
    assert_eq!(c.peer_owner(42), None);
    assert_eq!(c.handle_event(Event::Peer(42)), Action::Nothing);
    assert_eq!(c.handle_event(Event::Listener(hash(8))), Action::Nothing);
}

#[test]
fn peer_of_unknown_torrent_is_not_recorded() {
    let mut c = fresh_core();
    assert!(!c.add_peer(1, 0));
    assert_eq!(c.peer_owner(1), None);
    assert!(!c.remove_peer(1));
}

#[test]
fn peer_of_removed_torrent_is_not_delivered() {
    let mut c = fresh_core();
    let h = hash(2);
    c.handle_rpc_ev(Command::AddTorrent { hash: h });
    assert!(c.add_peer(9, 0));
    c.handle_rpc_ev(Command::RemoveTorrent(hex(&h)));
    assert_eq!(c.handle_event(Event::Peer(9)), Action::Nothing);
}

#[test]
fn non_hex_ids_are_ignored() {
    let mut c = fresh_core();
    c.handle_rpc_ev(Command::AddTorrent { hash: hash(1) });
    for cmd in [
        Command::UpdateTorrent("xyz".to_string()),
        Command::Pause("not hex".to_string()),
        Command::Resume("g".repeat(40)),
        Command::RemoveTorrent("12".to_string()),
        Command::UpdateFile { torrent_id: "?".to_string() },
        Command::RemovePeer { torrent_id: String::new() },
        Command::RemoveTracker { torrent_id: "zz".repeat(20) },
    ] {
        assert_eq!(c.handle_rpc_ev(cmd), Action::Nothing);
    }
    assert_eq!(c.torrent_count(), 1);
}

#[test]
fn commands_reach_the_named_torrent() {
    let mut c = fresh_core();
    c.handle_rpc_ev(Command::AddTorrent { hash: hash(1) });
    c.handle_rpc_ev(Command::AddTorrent { hash: hash(2) });
    let id = hex(&hash(2));
    assert_eq!(c.handle_rpc_ev(Command::Pause(id.clone())), Action::Deliver(1));
    assert_eq!(c.handle_rpc_ev(Command::Resume(id.to_uppercase())), Action::Deliver(1));
    assert_eq!(c.handle_rpc_ev(Command::UpdateTorrent(hex(&hash(1)))), Action::Deliver(0));
    assert_eq!(c.handle_rpc_ev(Command::UpdateFile { torrent_id: id.clone() }), Action::Deliver(1));
    assert_eq!(c.handle_rpc_ev(Command::RemovePeer { torrent_id: id.clone() }), Action::Deliver(1));
    assert_eq!(c.handle_rpc_ev(Command::RemoveTracker { torrent_id: id.clone() }), Action::Deliver(1));
    let r = c.handle_rpc_ev(Command::Validate(vec![id, "bad".to_string(), hex(&hash(3)), hex(&hash(1))]));
    assert_eq!(r, Action::DeliverAll(vec![1, 0]));
}

#[test]
fn io_events_route_by_torrent_id() {
    let mut c = fresh_core();
    c.handle_rpc_ev(Command::AddTorrent { hash: hash(1) });
    assert_eq!(c.handle_event(Event::Tracker(0)), Action::Deliver(0));
    assert_eq!(c.handle_event(Event::Tracker(4)), Action::Nothing);
    assert_eq!(c.handle_event(Event::Disk(0)), Action::Deliver(0));
    assert_eq!(c.handle_event(Event::Disk(1)), Action::Nothing);
    assert_eq!(c.handle_event(Event::TrackerError), Action::Nothing);
    assert_eq!(c.handle_event(Event::DiskError), Action::Nothing);
    assert_eq!(c.handle_event(Event::ListenerError), Action::Nothing);
    assert_eq!(c.handle_event(Event::RpcError), Action::Terminate);
    assert_eq!(c.torrent_count(), 1);
}

#[test]
fn timers_are_told_apart() {
    let mut c = fresh_core();
    assert_eq!(c.handle_event(Event::Timer(REFRESH, 1100)), Action::RefreshRates);
    assert_eq!(c.handle_event(Event::Timer(FLUSH, 1100)), Action::FlushBlocked);
    assert_eq!(c.handle_event(Event::Timer(99, 1100)), Action::Nothing);
    assert_eq!(
        c.handle_event(Event::Timer(JOBS, 1400)),
        Action::RunJobs { due: vec![], publish: None }
    );
    assert_eq!(
        c.handle_event(Event::Timer(JOBS, 1500)),
        Action::RunJobs { due: vec![JobKind::TorrentTxUpdate], publish: None }
    );
    assert_eq!(
        c.handle_event(Event::Timer(JOBS, 61000)),
        Action::RunJobs {
            due: vec![
                JobKind::TrackerUpdate,
                JobKind::UnchokeUpdate,
                JobKind::SessionUpdate,
                JobKind::TorrentTxUpdate
            ],
            publish: None
        }
    );
    assert_eq!(
        c.handle_event(Event::Timer(JOBS, 76000)),
        Action::RunJobs { due: vec![JobKind::UnchokeUpdate, JobKind::TorrentTxUpdate], publish: None }
    );
}

#[test]
fn job_manager_runs_due_jobs_in_order() {
    let mut m = JobManager::new();
    m.add_job(JobKind::SessionUpdate, 100, 0);
    m.add_job(JobKind::TrackerUpdate, 50, 0);
    assert_eq!(m.update(49), vec![]);
    assert_eq!(m.update(50), vec![JobKind::TrackerUpdate]);
    assert_eq!(m.update(100), vec![JobKind::SessionUpdate, JobKind::TrackerUpdate]);
    assert_eq!(m.update(120), vec![]);
}

#[test]
fn rates_are_published_only_when_changed() {
    let mut c = fresh_core();
    c.record_rates(Some(((5, 100), (6, 200))));
    let report = TransferReport {
        id: "0.1.0-abcdefghijklmno".to_string(),
        rate_up: 5,
        rate_down: 6,
        transferred_up: 100,
        transferred_down: 200,
        ses_transferred_up: 100,
        ses_transferred_down: 200,
    };
    assert_eq!(c.update_rpc_tx(), Some(report));
    assert_eq!(c.update_rpc_tx(), None);
    c.record_rates(Some(((5, 10), (6, 20))));
    assert_eq!(c.update_rpc_tx(), None);
    c.record_rates(Some(((0, 0), (6, 0))));
    let r = c.handle_event(Event::Timer(JOBS, 1200));
    match r {
        Action::RunJobs { publish: Some(p), .. } => {
            assert_eq!((p.rate_up, p.rate_down), (0, 6));
            assert_eq!((p.transferred_up, p.transferred_down), (110, 220));
        }
        other => panic!("unexpected {:?}", other),
    }
}

#[test]
fn zero_rates_at_start_are_not_published() {
    let mut c = fresh_core();
    c.record_rates(Some(((0, 0), (0, 0))));
    assert_eq!(c.update_rpc_tx(), None);
    c.record_rates(None);
    assert_eq!(c.update_rpc_tx(), None);
}

#[test]
fn session_counters_only_grow() {
    let mut c = fresh_core();
    let mut last = (0u64, 0u64);
    for (ul, dl) in [(3u64, 0u64), (0, 9), (12, 12)] {
        c.record_rates(Some(((1, ul), (1, dl))));
        let d = c.server_data();
        assert!(d.session_ul >= last.0 && d.session_dl >= last.1);
        assert!(d.ul >= d.session_ul && d.dl >= d.session_dl);
        last = (d.session_ul, d.session_dl);
    }
    assert_eq!(last, (15, 21));
}

#[test]
fn server_info_reports_counters() {
    let mut c = fresh_core();
    c.record_rates(Some(((1, 4), (1, 5))));
    let info = c.server_info();
    assert_eq!(info.id, "0.1.0-abcdefghijklmno");
    assert_eq!((info.transferred_up, info.transferred_down), (4, 5));
    assert_eq!((info.ses_transferred_up, info.ses_transferred_down), (4, 5));
    assert_eq!((info.rate_up, info.throttle_up), (0, 0));
    assert!(info.started_ms > 1_500_000_000_000);
}

#[test]
fn undecodable_record_gives_fresh_one() {
    let fresh = ServerData::new("2.0", "abc");
    let stored = ServerData::new("2.0", "old").to_bytes().unwrap();
    let cut = stored[..stored.len() - 3].to_vec();
    assert_eq!(ServerData::from_bytes(&cut), None);
    assert_eq!(ServerData::restore_or(Some(&cut), fresh.clone()), fresh);
    assert_eq!(ServerData::restore_or(Some(&Vec::new()), fresh.clone()), fresh);
}

#[test]
fn restore_uses_the_current_counter() {
    let mut c = fresh_core();
    let a = hash(1);
    let b = hash(2);
    c.handle_rpc_ev(Command::AddTorrent { hash: a });
    c.handle_rpc_ev(Command::RemoveTorrent(hex(&a)));
    assert_eq!(c.next_tid(), 1);
    assert_eq!(c.restore_torrent(&b), Ok(1));
    assert_eq!(c.lookup(&b), Some(1));
    assert_eq!(c.torrent_count(), 1);
    assert_eq!(c.next_tid(), 2);
    assert_eq!(c.handle_rpc_ev(Command::AddTorrent { hash: a }), Action::Create(2));
}
