use std::hash::{BuildHasher, Hasher};
use deluge_rpc::rpc::{Inbound, InboundError};
use deluge_rpc::types::enums::TolerantFilePriority;
use deluge_rpc::types::info_hash::HexError;
use deluge_rpc::types::message::MessageError;
use deluge_rpc::types::rpc_error::GenericError;
use deluge_rpc::{
    AddTorrentError, AuthLevel, Error, Event, EventKind, FilePriority, FilterKey, InfoHash, Message,
    RpcError, TorrentState, Value,
};

const HASH: &str = "0123456789abcdef0123456789abcdef01234567";

fn s(x: &str) -> Value {
    Value::Str(x.to_string())
}

#[test]
fn info_hash_hex_roundtrip() {
    let h = InfoHash::from_hex(HASH).unwrap();
    assert_eq!(h.to_hex(), HASH);
    let upper = InfoHash::from_hex(&HASH.to_uppercase()).unwrap();
    assert_eq!(upper, h);
    assert_eq!(h.to_hex_upper(), HASH.to_uppercase());
    assert_eq!(InfoHash::from_hex(&h.to_hex_upper()), Ok(h));
    assert_eq!(InfoHash::default().to_hex(), "0".repeat(40));
}

#[test]
fn info_hash_hex_errors() {
    assert_eq!(InfoHash::from_hex("abc"), Err(HexError::OddLength));
    assert_eq!(InfoHash::from_hex("abcd"), Err(HexError::InvalidStringLength));
    let bad = format!("{}g{}", &HASH[..10], &HASH[11..]);
    assert_eq!(
        InfoHash::from_hex(&bad),
        Err(HexError::InvalidHexCharacter { c: 'g', index: 10 })
    );
}

#[test]
fn file_priorities() {
    assert_eq!(FilePriority::from_u8(0), Some(FilePriority::Skip));
    assert_eq!(FilePriority::from_u8(2), Some(FilePriority::Low));
    assert_eq!(FilePriority::from_u8(4), Some(FilePriority::Normal));
    assert_eq!(FilePriority::from_u8(6), Some(FilePriority::High));
    assert_eq!(FilePriority::from_u8(8), None);
    assert_eq!(FilePriority::from(TolerantFilePriority::Low3), FilePriority::Low);
    for p in [FilePriority::Skip, FilePriority::Low, FilePriority::Normal, FilePriority::High] {
        assert_eq!(FilePriority::from_u8(p.to_u8()), Some(p));
    }
    assert_eq!(FilePriority::High.to_u8(), 7);
    assert_eq!(FilePriority::default(), FilePriority::Normal);
    assert_eq!(TolerantFilePriority::try_from_u8(5).map(|t| t.to_u8()), Some(5));
}

#[test]
fn auth_levels() {
    for a in [AuthLevel::Nobody, AuthLevel::ReadOnly, AuthLevel::Normal, AuthLevel::Admin] {
        assert_eq!(AuthLevel::try_from_u8(a.to_u8()), Some(a));
    }
    assert_eq!(AuthLevel::Admin.to_u8(), 10);
    assert_eq!(AuthLevel::try_from_u8(2), None);
    assert_eq!(AuthLevel::default(), AuthLevel::Normal);
}

#[test]
fn torrent_states() {
    assert_eq!(TorrentState::from_str("Seeding"), Ok(TorrentState::Seeding));
    assert_eq!(TorrentState::Paused.as_str(), "Paused");
    assert_eq!(
        TorrentState::from_str("seeding"),
        Err("Invalid TorrentState value: \"seeding\"".to_string())
    );
    for t in [TorrentState::Checking, TorrentState::Downloading, TorrentState::Error] {
        assert_eq!(TorrentState::from_str(t.as_str()), Ok(t));
    }
}

#[test]
fn filter_keys() {
    assert_eq!(FilterKey::from_str("tracker_host"), Ok(FilterKey::Tracker));
    assert_eq!(FilterKey::from_str("Tracker"), Ok(FilterKey::Tracker));
    assert_eq!(FilterKey::Tracker.wire_str(), "tracker_host");
    assert_eq!(FilterKey::Label.as_str(), "Label");
    assert_eq!(
        FilterKey::from_str("x\"y"),
        Err("Invalid FilterKey value: \"x\\\"y\"".to_string())
    );
}

#[test]
fn add_torrent_messages() {
    let h = InfoHash::from_hex(HASH).unwrap();
    assert_eq!(
        AddTorrentError::from_str(&format!("Torrent already in session ({}).", HASH)),
        AddTorrentError::AlreadyInSession(h)
    );
    assert_eq!(
        AddTorrentError::from_str(&format!("Torrent already being added ({}).", HASH)),
        AddTorrentError::AlreadyBeingAdded(h)
    );
    assert_eq!(
        AddTorrentError::from_str("Unable to add magnet, invalid magnet info: magnet:?xt"),
        AddTorrentError::UnableToAddMagnet("magnet:?xt".to_string())
    );
    assert_eq!(
        AddTorrentError::from_str("You must specify a valid torrent_info, torrent state or magnet."),
        AddTorrentError::MustSpecifyValidTorrent
    );
    assert_eq!(
        AddTorrentError::from_str("Unable to add torrent, decoding filedump failed: bad"),
        AddTorrentError::DecodingFiledumpFailed("bad".to_string())
    );
    assert_eq!(
        AddTorrentError::from_str("Unable to add torrent to session: full"),
        AddTorrentError::UnableToAddToSession("full".to_string())
    );
    assert_eq!(
        AddTorrentError::from_str(&format!("Torrent already in session ({}).x", HASH)),
        AddTorrentError::Other(format!("Torrent already in session ({}).x", HASH))
    );
}

#[test]
fn ok_if_added_passes_known_torrents() {
    let h = InfoHash::from_hex(HASH).unwrap();
    assert_eq!(AddTorrentError::AlreadyInSession(h).ok_if_added(), Ok(h));
    assert_eq!(AddTorrentError::AlreadyBeingAdded(h).ok_if_added(), Ok(h));
    assert_eq!(
        AddTorrentError::MustSpecifyValidTorrent.ok_if_added(),
        Err(AddTorrentError::MustSpecifyValidTorrent)
    );
    let e = Error::Rpc(RpcError::AddTorrent(AddTorrentError::AlreadyInSession(h)));
    assert_eq!(e.ok_if_added().unwrap(), h);
    let e = Error::BadResponse(deluge_rpc::rencode::error::Error::TooManyBytes);
    assert!(matches!(e.ok_if_added(), Err(Error::BadResponse(_))));
}

fn report(exception: &str, args: Vec<Value>) -> Vec<Value> {
    vec![
        s(exception),
        Value::List(args),
        Value::Dict(vec![(s("a"), Value::I8(1)), (s("b"), Value::I8(2)), (s("a"), Value::I8(3))]),
        s("Traceback ..."),
    ]
}

#[test]
fn generic_errors_keep_last_keyword_value() {
    let g = GenericError::from_values(&report("KeyError", vec![s("x")])).unwrap();
    assert_eq!(g.exception, "KeyError");
    assert_eq!(g.args, vec![s("x")]);
    assert_eq!(
        g.kwargs,
        vec![("a".to_string(), Value::I8(3)), ("b".to_string(), Value::I8(2))]
    );
    assert_eq!(g.traceback, "Traceback ...");
    assert!(GenericError::from_values(&vec![s("x")]).is_none());
    let mut bad = report("KeyError", vec![]);
    bad[2] = Value::Dict(vec![(Value::I8(1), Value::I8(1))]);
    assert!(GenericError::from_values(&bad).is_none());
}

#[test]
fn rpc_errors_from_reports() {
    let g = GenericError::from_values(&report(
        "AddTorrentError",
        vec![s("Unable to add torrent to session: disk")],
    ))
    .unwrap();
    match RpcError::from_generic(g) {
        RpcError::AddTorrent(AddTorrentError::UnableToAddToSession(m)) => assert_eq!(m, "disk"),
        other => panic!("unexpected {:?}", other),
    }
    let g = GenericError::from_values(&report("AddTorrentError", vec![s("a"), s("b")])).unwrap();
    assert!(matches!(RpcError::from_generic(g), RpcError::Generic(_)));
}

#[test]
fn event_keys() {
    assert_eq!(EventKind::TorrentAdded.key(), "TorrentAddedEvent");
    assert_eq!(EventKind::ExternalIp.key(), "ExternalIPEvent");
    assert_eq!(EventKind::SessionPaused.key(), "SessionPausedEvent");
}

#[test]
fn events_from_parts() {
    let h = InfoHash::from_hex(HASH).unwrap();
    match Event::from_parts("TorrentAddedEvent", &vec![s(HASH), Value::Bool(true)]) {
        Some(Event::TorrentAdded(x, true)) => assert_eq!(x, h),
        other => panic!("unexpected {:?}", other),
    }
    match Event::from_parts("TorrentFileRenamedEvent", &vec![s(HASH), Value::I8(3), s("new")]) {
        Some(Event::TorrentFileRenamed(x, 3, n)) => {
            assert_eq!(x, h);
            assert_eq!(n, "new");
        }
        other => panic!("unexpected {:?}", other),
    }
    assert!(matches!(
        Event::from_parts("TorrentStateChangedEvent", &vec![s(HASH), s("Paused")]),
        Some(Event::TorrentStateChanged(_, TorrentState::Paused))
    ));
    assert!(matches!(Event::from_parts("SessionStartedEvent", &vec![]), Some(Event::SessionStarted)));
    assert!(Event::from_parts("SessionStartedEvent", &vec![Value::Unit]).is_none());
    assert!(Event::from_parts("TorrentFileRenamedEvent", &vec![s(HASH), Value::I8(-1), s("n")])
        .is_none());
    assert!(Event::from_parts("NoSuchEvent", &vec![]).is_none());
    assert!(matches!(
        Event::from_parts("ClientDisconnectedEvent", &vec![Value::I64(-7)]),
        Some(Event::ClientDisconnected(-7))
    ));
    let e = Event::from_parts("ConfigValueChangedEvent", &vec![s("k"), Value::I16(9)]).unwrap();
    assert_eq!(e.kind(), EventKind::ConfigValueChanged);
}

#[test]
fn response_messages() {
    match Message::try_from_list(&vec![Value::I8(1), Value::I8(7), Value::List(vec![s("x")])]) {
        Ok(Message::Response { request_id: 7, result: Ok(v) }) => assert_eq!(v, vec![s("x")]),
        other => panic!("unexpected {:?}", other),
    }
    match Message::try_from_list(&vec![Value::I8(1), Value::I16(300), Value::Bool(true)]) {
        Ok(Message::Response { request_id: 300, result: Ok(v) }) => {
            assert_eq!(v, vec![Value::Bool(true)])
        }
        other => panic!("unexpected {:?}", other),
    }
}

#[test]
fn error_messages() {
    let mut data = vec![Value::I8(2), Value::I8(4)];
    data.extend(report("ValueError", vec![]));
    match Message::try_from_list(&data) {
        Ok(Message::Response { request_id: 4, result: Err(RpcError::Generic(g)) }) => {
            assert_eq!(g.exception, "ValueError")
        }
        other => panic!("unexpected {:?}", other),
    }
    let data = vec![Value::I8(2), Value::I8(4), s("ValueError")];
    assert_eq!(Message::try_from_list(&data).unwrap_err(), MessageError::InvalidRpcError);
}

#[test]
fn event_messages() {
    let data = vec![Value::I8(3), s("PluginEnabledEvent"), Value::List(vec![s("Label")])];
    match Message::try_from_list(&data) {
        Ok(Message::Event(Event::PluginEnabled(p))) => assert_eq!(p, "Label"),
        other => panic!("unexpected {:?}", other),
    }
    let data = vec![Value::I8(3), s("MysteryEvent"), Value::List(vec![Value::I8(1)])];
    match Message::try_from_list(&data) {
        Ok(Message::Event(Event::Unrecognized(n, a))) => {
            assert_eq!(n, "MysteryEvent");
            assert_eq!(a, vec![Value::I8(1)]);
        }
        other => panic!("unexpected {:?}", other),
    }
}

#[test]
fn malformed_messages() {
    assert_eq!(Message::try_from_list(&vec![]).unwrap_err(), MessageError::Missing);
    assert_eq!(
        Message::try_from_list(&vec![Value::I8(4)]).unwrap_err(),
        MessageError::InvalidMessageType
    );
    assert_eq!(
        Message::try_from_list(&vec![s("1")]).unwrap_err(),
        MessageError::InvalidMessageType
    );
    assert_eq!(Message::try_from_list(&vec![Value::I8(1)]).unwrap_err(), MessageError::Missing);
    assert_eq!(
        Message::try_from_list(&vec![Value::I8(1), s("x"), Value::Unit]).unwrap_err(),
        MessageError::InvalidRequestId
    );
    assert_eq!(
        Message::try_from_list(&vec![Value::I8(1), Value::I8(1)]).unwrap_err(),
        MessageError::Missing
    );
    assert_eq!(
        Message::try_from_list(&vec![Value::I8(3), s("x")]).unwrap_err(),
        MessageError::Missing
    );
    assert_eq!(
        Message::try_from_list(&vec![Value::I8(3), Value::I8(1), Value::List(vec![])]).unwrap_err(),
        MessageError::InvalidEventName
    );
    assert_eq!(
        Message::try_from_list(&vec![Value::I8(3), s("x"), Value::I8(1)]).unwrap_err(),
        MessageError::InvalidEventArgs
    );
    assert_eq!(Message::from_value(&Value::I8(1)).unwrap_err(), MessageError::NotAList);
}

#[test]
fn messages_from_compressed_bodies() {
    let v = Value::List(vec![Value::I8(1), Value::I8(0), Value::List(vec![s("2.1.1")])]);
    let body = deluge_rpc::encoding::encode(&v).unwrap();
    let value = deluge_rpc::encoding::decode(&body).unwrap();
    match Message::from_value(&value) {
        Ok(Message::Response { request_id: 0, result: Ok(vals) }) => assert_eq!(vals, vec![s("2.1.1")]),
        other => panic!("unexpected {:?}", other),
    }
}

#[test]
fn inbound_messages() {
    match Inbound::from(&[Value::I8(3), s("SessionPausedEvent"), Value::List(vec![])]) {
        Ok(Inbound::Event { event_name, data }) => {
            assert_eq!(event_name, "SessionPausedEvent");
            assert!(data.is_empty());
        }
        other => panic!("unexpected {:?}", other),
    }
    match Inbound::from(&[Value::I8(1), Value::I8(2), Value::I8(5)]) {
        Ok(Inbound::Response { request_id: 2, result: Ok(v) }) => assert_eq!(v, vec![Value::I8(5)]),
        other => panic!("unexpected {:?}", other),
    }
    let data = [
        Value::I8(2),
        Value::I8(9),
        s("KeyError"),
        Value::List(vec![]),
        Value::Dict(vec![]),
        s("tb"),
    ];
    match Inbound::from(&data) {
        Ok(Inbound::Response { request_id: 9, result: Err(e) }) => {
            assert_eq!(e.exception, "KeyError");
            assert_eq!(e.traceback, "tb");
        }
        other => panic!("unexpected {:?}", other),
    }
    assert_eq!(Inbound::from(&data[..4]).unwrap_err(), InboundError::Missing);
    assert_eq!(Inbound::from(&[Value::I8(9)]).unwrap_err(), InboundError::UnknownMessageType(9));
    assert_eq!(Inbound::from(&[Value::Unit]).unwrap_err(), InboundError::InvalidMessageType);
    assert_eq!(
        Inbound::from(&[Value::I8(2), Value::I8(1), Value::I8(1)]).unwrap_err(),
        InboundError::InvalidErrorField
    );
}

#[test]
fn event_keys_are_distinct_and_read_back() {
    let kinds = [
        EventKind::TorrentAdded,
        EventKind::TorrentRemoved,
        EventKind::PreTorrentRemoved,
        EventKind::TorrentStateChanged,
        EventKind::TorrentTrackerStatus,
        EventKind::TorrentQueueChanged,
        EventKind::TorrentFolderRenamed,
        EventKind::TorrentFileRenamed,
        EventKind::TorrentFinished,
        EventKind::TorrentResumed,
        EventKind::TorrentFileCompleted,
        EventKind::TorrentStorageMoved,
        EventKind::CreateTorrentProgress,
        EventKind::NewVersionAvailable,
        EventKind::SessionStarted,
        EventKind::SessionPaused,
        EventKind::SessionResumed,
        EventKind::ConfigValueChanged,
        EventKind::PluginEnabled,
        EventKind::PluginDisabled,
        EventKind::ClientDisconnected,
        EventKind::ExternalIp,
    ];
    let keys: std::collections::HashSet<String> = kinds.iter().map(|k| k.key()).collect();
    assert_eq!(keys.len(), kinds.len());
    for name in ["SessionResumedEvent", "TorrentQueueChangedEvent"] {
        let e = Event::from_parts(name, &vec![]).unwrap();
        assert_eq!(e.kind().key(), name);
    }
    let e = Event::from_parts("ExternalIPEvent", &vec![s("10.0.0.1")]).unwrap();
    assert_eq!(e.kind(), EventKind::ExternalIp);
}

#[test]
fn every_filter_key_name_reads_back() {
    for k in [FilterKey::State, FilterKey::Tracker, FilterKey::Owner, FilterKey::Label] {
        assert_eq!(FilterKey::from_str(k.as_str()), Ok(k));
        assert_eq!(FilterKey::from_str(k.wire_str()), Ok(k));
    }
}

#[test]
fn every_torrent_state_name_reads_back() {
    for t in [
        TorrentState::Checking,
        TorrentState::Downloading,
        TorrentState::Seeding,
        TorrentState::Allocating,
        TorrentState::Error,
        TorrentState::Moving,
        TorrentState::Queued,
        TorrentState::Paused,
    ] {
        assert_eq!(TorrentState::from_str(t.as_str()), Ok(t));
    }
}

#[test]
fn pass_through_hasher_keeps_the_last_eight_bytes() {
    let mut h = deluge_rpc::PassThroughBuildHasher.build_hasher();
    h.write(&[1, 2, 3, 4, 5, 6, 7, 8, 9]);
    assert_eq!(h.finish(), 0x0203040506070809);
}

#[test]
fn pass_through_hasher_starts_at_zero() {
    let h = deluge_rpc::PassThroughBuildHasher.build_hasher();
    assert_eq!(h.finish(), 0);
}

#[test]
fn hex_of_a_parsed_hash_is_the_input_in_lower_case() {
    let mixed = "0123456789ABCDEFabcdef0123456789AbCdEf01";
    let h = InfoHash::from_hex(mixed).unwrap();
    assert_eq!(h.to_hex(), mixed.to_ascii_lowercase());
    assert_eq!(h.to_hex().len(), 40);
}

#[test]
fn already_messages_need_exactly_forty_hex_digits() {
    let upper = HASH.to_uppercase();
    assert_eq!(
        AddTorrentError::from_str(&format!("Torrent already in session ({}).", upper)),
        AddTorrentError::AlreadyInSession(InfoHash::from_hex(HASH).unwrap())
    );
    let short = &HASH[..39];
    assert_eq!(
        AddTorrentError::from_str(&format!("Torrent already being added ({}).", short)),
        AddTorrentError::Other(format!("Torrent already being added ({}).", short))
    );
    let odd = format!("{}g", &HASH[..39]);
    assert_eq!(
        AddTorrentError::from_str(&format!("Torrent already in session ({}).", odd)),
        AddTorrentError::Other(format!("Torrent already in session ({}).", odd))
    );
}

#[test]
fn external_address_events_need_an_address() {
    match Event::ExternalIp("10.0.0.1".to_string()).with_address_checked(true) {
        Event::ExternalIp(a) => assert_eq!(a, "10.0.0.1"),
        other => panic!("unexpected {:?}", other),
    }
    match Event::ExternalIp("not an address".to_string()).with_address_checked(false) {
        Event::Unrecognized(name, args) => {
            assert_eq!(name, "ExternalIPEvent");
            assert_eq!(args, vec![Value::Str("not an address".to_string())]);
        }
        other => panic!("unexpected {:?}", other),
    }
    match Event::SessionPaused.with_address_checked(false) {
        Event::SessionPaused => {}
        other => panic!("unexpected {:?}", other),
    }
}

#[test]
fn event_kinds_have_different_keys() {
    let kinds = [
        EventKind::TorrentAdded,
        EventKind::TorrentRemoved,
        EventKind::PreTorrentRemoved,
        EventKind::TorrentStateChanged,
        EventKind::TorrentTrackerStatus,
        EventKind::TorrentQueueChanged,
        EventKind::TorrentFolderRenamed,
        EventKind::TorrentFileRenamed,
        EventKind::TorrentFinished,
        EventKind::TorrentResumed,
        EventKind::TorrentFileCompleted,
        EventKind::TorrentStorageMoved,
        EventKind::CreateTorrentProgress,
        EventKind::NewVersionAvailable,
        EventKind::SessionStarted,
        EventKind::SessionPaused,
        EventKind::SessionResumed,
        EventKind::ConfigValueChanged,
        EventKind::PluginEnabled,
        EventKind::PluginDisabled,
        EventKind::ClientDisconnected,
        EventKind::ExternalIp,
        EventKind::Unrecognized,
    ];
    for (i, a) in kinds.iter().enumerate() {
        assert_eq!(a.key(), a.key());
        for b in &kinds[i + 1..] {
            assert_ne!(a.key(), b.key());
        }
    }
    assert_eq!(EventKind::ExternalIp.key(), "ExternalIPEvent");
}
