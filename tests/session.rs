use spdmlib::session::{compute_iv, bin_concat, SpdmSession, SpdmSessionPool, SpdmSessionState};

#[test]
fn record_ivs_are_distinct() {
    let static_iv = vec![0x10u8; 12];
    let ivs: Vec<Vec<u8>> = (0u64..16).map(|seq| compute_iv(&static_iv, seq)).collect();
    for i in 0..ivs.len() {
        for j in (i + 1)..ivs.len() {
            assert_ne!(ivs[i], ivs[j]);
        }
    }
    assert_eq!(ivs[0], static_iv);
    assert_eq!(compute_iv(&static_iv, 0x0102), vec![0x12, 0x11, 0x10, 0x10, 0x10, 0x10, 0x10, 0x10, 0x10, 0x10, 0x10, 0x10]);
}

#[test]
fn session_slots_are_distinct() {
    let mut pool = SpdmSessionPool::new();
    let a = pool.get_next_available_session().unwrap();
    assert!(pool.setup(a, 0x0001_FFFF).is_ok());
    let b = pool.get_next_available_session().unwrap();
    assert_ne!(a, b);
    assert!(pool.setup(b, 0x0002_FFFE).is_ok());
    assert_eq!(pool.get_session_via_id(0x0001_FFFF), Some(a));
    assert_eq!(pool.get_session_via_id(0x0002_FFFE), Some(b));
    assert!(pool.setup(pool.get_next_available_session().unwrap(), 0x0001_FFFF).is_err());
    pool.sessions[a].dhe_secret = vec![1, 2, 3];
    pool.sessions[a].request_direction.key = vec![4; 32];
    pool.sessions[a].request_direction.sequence_number = 9;
    assert!(pool.teardown(0x0001_FFFF).is_ok());
    let s = &pool.sessions[a];
    assert_eq!(s.state, SpdmSessionState::SpdmSessionNotStarted);
    assert!(s.dhe_secret.iter().all(|b| *b == 0));
    assert!(s.request_direction.key.iter().all(|b| *b == 0));
    assert_eq!(s.request_direction.sequence_number, 0);
    assert_eq!(pool.get_session_via_id(0x0001_FFFF), None);
    assert!(pool.teardown(0x0001_FFFF).is_err());
}

#[test]
fn session_setup_only_from_free() {
    let mut s = SpdmSession::new();
    assert!(s.setup(7).is_ok());
    assert_eq!(s.state, SpdmSessionState::SpdmSessionHandshaking);
    assert!(s.setup(8).is_err());
    assert_eq!(s.session_id, 7);
}

#[test]
fn key_schedule_info_layout() {
    let info = bin_concat(48, b"req hs data", &[1, 2]);
    let mut expected = vec![48, 0];
    expected.extend_from_slice(b"spdm1.1 ");
    expected.extend_from_slice(b"req hs data");
    expected.extend_from_slice(&[1, 2]);
    assert_eq!(info, expected);
}
