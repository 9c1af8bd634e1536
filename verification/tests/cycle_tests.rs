use jobstr_poller::config::SessionConfig;
use jobstr_poller::cycle::{finish_cycle, process_response};
use jobstr_poller::error::{CycleError, QueryFailure};
use jobstr_poller::parse::{assemble, parse_all, parse_record, DeserializationError, RawRecord};
use jobstr_poller::poller::{PollerAction, PollerState};
use jobstr_poller::query::{build_query, lookback_bound};
use nostr::ToBech32;

const KEY_ONE: &str = "79be667ef9dcbbac55a06295ce870b07029bfcdb2dce28d959f2815b16f81798";
const KEY_TWO: &str = "c6047f9441ed7d6d3045406e95c07cd85c778e4b8cef3ca7abac09b95c709ee5";
const ID_ONE: &str = "00000000000000000000000000000000000000000000000000000000000000a1";
const ID_TWO: &str = "00000000000000000000000000000000000000000000000000000000000000b2";

fn raw(id: &str, pubkey: &str, created_at: u64, content: &str) -> RawRecord {
    RawRecord {
        id: id.to_string(),
        pubkey: pubkey.to_string(),
        created_at,
        content: content.to_string(),
        sig: "5369676e6174757265".to_string(),
        tags: vec![vec!["t".to_string(), "jobstr".to_string()]],
    }
}

fn key_one_bytes() -> Vec<u8> {
    vec![
        0x79, 0xbe, 0x66, 0x7e, 0xf9, 0xdc, 0xbb, 0xac, 0x55, 0xa0, 0x62, 0x95, 0xce, 0x87, 0x0b,
        0x07, 0x02, 0x9b, 0xfc, 0xdb, 0x2d, 0xce, 0x28, 0xd9, 0x59, 0xf2, 0x81, 0x5b, 0x16, 0xf8,
        0x17, 0x98,
    ]
}

fn id_one_bytes() -> Vec<u8> {
    let mut id = vec![0u8; 32];
    id[31] = 0xa1;
    id
}

#[test]
fn query_is_built_from_the_clock() {
    let q = build_query(1_700_000_000);
    assert_eq!(q.kind, 1);
    assert_eq!(q.hashtag, "jobstr");
    assert_eq!(q.since, Some(1_699_999_700));
    assert_eq!(q.timeout_secs, 40);
}

#[test]
fn lookback_bound_is_five_minutes() {
    assert_eq!(lookback_bound(300), 0);
    assert_eq!(lookback_bound(301), 1);
    assert_eq!(lookback_bound(u64::MAX), u64::MAX - 300);
}

#[test]
fn parse_reads_identifier_and_key_as_bytes() {
    let rec = parse_record(raw(ID_ONE, KEY_ONE, 1_700_000_000, "hello")).unwrap();
    assert_eq!(rec.id, id_one_bytes());
    assert_eq!(rec.pubkey, key_one_bytes());
    assert_eq!(rec.created_at, 1_700_000_000);
    assert_eq!(rec.content, "hello");
    assert_eq!(rec.sig, "5369676e6174757265");
    assert_eq!(rec.tags, vec![vec!["t".to_string(), "jobstr".to_string()]]);
}

#[test]
fn two_spellings_of_one_key_give_equal_records() {
    let lower = parse_record(raw(ID_ONE, KEY_ONE, 5, "x")).unwrap();
    let upper =
        parse_record(raw(&ID_ONE.to_uppercase(), &KEY_ONE.to_uppercase(), 5, "x")).unwrap();
    assert!(lower.same(&upper));
}

#[test]
fn malformed_identifier_is_rejected() {
    let r = parse_record(raw("not-an-id", KEY_ONE, 5, "x"));
    assert_eq!(r.unwrap_err(), DeserializationError::MalformedId);
    let r = parse_record(raw(&ID_ONE[..62], KEY_ONE, 5, "x"));
    assert_eq!(r.unwrap_err(), DeserializationError::MalformedId);
}

#[test]
fn malformed_public_key_is_rejected() {
    let r = parse_record(raw(ID_ONE, "zz", 5, "x"));
    assert_eq!(r.unwrap_err(), DeserializationError::MalformedPubkey);
    let all_f = "f".repeat(64);
    let r = parse_record(raw(ID_ONE, &all_f, 5, "x"));
    assert_eq!(r.unwrap_err(), DeserializationError::MalformedPubkey);
    let r = parse_record(raw(ID_ONE, &KEY_ONE[..62], 5, "x"));
    assert_eq!(r.unwrap_err(), DeserializationError::MalformedPubkey);
}

#[test]
fn every_creation_time_is_taken() {
    let rec = parse_record(raw(ID_ONE, KEY_ONE, 0, "x")).unwrap();
    assert_eq!(rec.created_at, 0);
    let rec = parse_record(raw(ID_ONE, KEY_ONE, 2_147_483_647, "x")).unwrap();
    assert_eq!(rec.created_at, 2_147_483_647);
    let rec = parse_record(raw(ID_ONE, KEY_ONE, 2_147_483_648, "x")).unwrap();
    assert_eq!(rec.created_at, 2_147_483_648);
    let rec = parse_record(raw(ID_ONE, KEY_ONE, u64::MAX, "x")).unwrap();
    assert_eq!(rec.created_at, u64::MAX);
}

#[test]
fn first_failing_field_names_the_error() {
    let r = parse_record(raw("bad", "bad", u64::MAX, "x"));
    assert_eq!(r.unwrap_err(), DeserializationError::MalformedId);
    let r = parse_record(raw(ID_ONE, "bad", u64::MAX, "x"));
    assert_eq!(r.unwrap_err(), DeserializationError::MalformedPubkey);
}

#[test]
fn assemble_judges_what_it_is_given() {
    let r = assemble(raw("", "", 7, "x"), Some(id_one_bytes()), Some(key_one_bytes())).unwrap();
    assert_eq!(r.id, id_one_bytes());
    assert_eq!(r.pubkey, key_one_bytes());
    assert_eq!(r.created_at, 7);
    let r = assemble(raw("", "", 7, "x"), None, Some(key_one_bytes()));
    assert_eq!(r.unwrap_err(), DeserializationError::MalformedId);
    let r = assemble(raw("", "", 7, "x"), Some(vec![1, 2, 3]), Some(key_one_bytes()));
    assert_eq!(r.unwrap_err(), DeserializationError::MalformedId);
    let r = assemble(raw("", "", 7, "x"), Some(id_one_bytes()), None);
    assert_eq!(r.unwrap_err(), DeserializationError::MalformedPubkey);
    let r = assemble(raw("", "", 7, "x"), Some(id_one_bytes()), Some(vec![0u8; 33]));
    assert_eq!(r.unwrap_err(), DeserializationError::MalformedPubkey);
    let r = assemble(raw("", "", 1 << 31, "x"), Some(id_one_bytes()), Some(key_one_bytes()));
    assert_eq!(r.unwrap().created_at, 2_147_483_648);
}

#[test]
fn one_bad_event_fails_the_whole_list() {
    let r = parse_all(vec![
        raw(ID_ONE, KEY_ONE, 5, "x"),
        raw(ID_TWO, "bad", 6, "y"),
        raw("bad", KEY_TWO, 7, "z"),
    ]);
    assert_eq!(r.unwrap_err(), DeserializationError::MalformedPubkey);
    let ok = parse_all(vec![raw(ID_ONE, KEY_ONE, 5, "x"), raw(ID_TWO, KEY_TWO, 6, "y")]).unwrap();
    assert_eq!(ok.len(), 2);
    assert_eq!(ok[0].content, "x");
    assert_eq!(ok[1].content, "y");
    assert_eq!(parse_all(Vec::new()).unwrap().len(), 0);
}

#[test]
fn three_events_two_identical_give_two_records() {
    let response = Ok(vec![
        raw(ID_ONE, KEY_ONE, 1_700_000_000, "first"),
        raw(ID_TWO, KEY_TWO, 1_700_000_001, "second"),
        raw(ID_ONE, KEY_ONE, 1_700_000_000, "first"),
    ]);
    let out = process_response(response).unwrap();
    assert_eq!(out.len(), 2);
    assert_eq!(out[0].content, "first");
    assert_eq!(out[1].content, "second");
    for r in &out {
        assert_eq!(r.id.len(), 32);
        assert_eq!(r.pubkey.len(), 32);
        assert!(!r.sig.is_empty());
        assert_eq!(r.tags.len(), 1);
    }
}

#[test]
fn cycle_writes_every_distinct_record_whatever_its_age() {
    let q = build_query(400);
    assert_eq!(q.since, Some(100));
    let response = Ok(vec![
        raw(ID_ONE, KEY_ONE, 99, "old"),
        raw(ID_TWO, KEY_TWO, 100, "new"),
        raw(ID_TWO, KEY_TWO, 100, "new"),
    ]);
    let out = process_response(response).unwrap();
    assert_eq!(out.len(), 2);
    assert_eq!(out[0].content, "old");
    assert_eq!(out[1].content, "new");
}

#[test]
fn cycle_writes_a_single_record_older_than_the_bound() {
    let out = process_response(Ok(vec![raw(ID_ONE, KEY_ONE, 1, "old")])).unwrap();
    assert_eq!(out.len(), 1);
    assert_eq!(out[0].content, "old");
    assert_eq!(out[0].created_at, 1);
}

#[test]
fn cycle_writes_records_dated_beyond_32_bits() {
    let out = process_response(Ok(vec![
        raw(ID_TWO, KEY_TWO, 4_102_444_800, "late"),
        raw(ID_ONE, KEY_ONE, 1_700_000_000, "now"),
    ]))
    .unwrap();
    assert_eq!(out.len(), 2);
    assert_eq!(out[0].content, "now");
    assert_eq!(out[1].content, "late");
    assert_eq!(out[1].created_at, 4_102_444_800);
}

#[test]
fn cycle_with_an_empty_answer_writes_nothing_but_succeeds() {
    assert_eq!(process_response(Ok(Vec::new())).unwrap().len(), 0);
}

#[test]
fn query_timeout_ends_the_cycle_without_a_write() {
    let r = process_response(Err(QueryFailure::Timeout));
    let e = r.unwrap_err();
    assert_eq!(e, CycleError::Query(QueryFailure::Timeout));
    let (state, action) = PollerState::start().step(Err(e));
    assert_eq!(state, PollerState::Terminated(e));
    assert_eq!(action, PollerAction::Exit(e));
    assert_ne!(e.exit_status(), 0);
}

#[test]
fn transport_failure_is_a_query_error() {
    let r = process_response(Err(QueryFailure::Transport));
    assert_eq!(r.unwrap_err(), CycleError::Query(QueryFailure::Transport));
}

#[test]
fn bad_event_ends_the_cycle() {
    let r = process_response(Ok(vec![raw(ID_ONE, "bad", 5, "x")]));
    assert_eq!(
        r.unwrap_err(),
        CycleError::Deserialization(DeserializationError::MalformedPubkey)
    );
}

#[test]
fn failed_write_is_an_io_error() {
    assert_eq!(finish_cycle(true), Ok(()));
    assert_eq!(finish_cycle(false), Err(CycleError::Io));
}

#[test]
fn poller_sleeps_after_success_and_stops_on_first_error() {
    let s = PollerState::start();
    assert_eq!(s, PollerState::Running);
    let (s, a) = s.step(Ok(()));
    assert_eq!(s, PollerState::Running);
    assert_eq!(a, PollerAction::Sleep(300));
    let (s, a) = s.step(Err(CycleError::Io));
    assert_eq!(s, PollerState::Terminated(CycleError::Io));
    assert_eq!(a, PollerAction::Exit(CycleError::Io));
    let (s, a) = s.step(Ok(()));
    assert_eq!(s, PollerState::Terminated(CycleError::Io));
    assert_eq!(a, PollerAction::Exit(CycleError::Io));
    let (s, a) = s.step(Err(CycleError::Connection));
    assert_eq!(s, PollerState::Terminated(CycleError::Io));
    assert_eq!(a, PollerAction::Exit(CycleError::Io));
}

#[test]
fn every_error_has_its_message_and_a_failure_status() {
    let all = vec![
        (CycleError::Config, "configuration error: private key missing or invalid"),
        (CycleError::Connection, "connection error: relay unreachable"),
        (CycleError::Query(QueryFailure::Timeout), "query error: timed out"),
        (CycleError::Query(QueryFailure::Transport), "query error: transport failed"),
        (
            CycleError::Deserialization(DeserializationError::MalformedId),
            "deserialization error: malformed identifier",
        ),
        (
            CycleError::Deserialization(DeserializationError::MalformedPubkey),
            "deserialization error: malformed public key",
        ),
        (CycleError::Io, "i/o error: cannot write the output file"),
    ];
    for (e, text) in all {
        assert_eq!(e.message(), text);
        assert_eq!(e.exit_status(), 1);
    }
}

#[test]
fn missing_or_invalid_private_key_is_a_config_error() {
    assert_eq!(SessionConfig::load(None).unwrap_err(), CycleError::Config);
    assert_eq!(
        SessionConfig::load(Some("not a key".to_string())).unwrap_err(),
        CycleError::Config
    );
    assert_eq!(SessionConfig::load(Some(KEY_ONE.to_string())).unwrap_err(), CycleError::Config);
    assert_eq!(
        SessionConfig::build(Some("anything".to_string()), false).unwrap_err(),
        CycleError::Config
    );
    assert_eq!(SessionConfig::build(None, true).unwrap_err(), CycleError::Config);
}

#[test]
fn valid_private_key_gives_the_fixed_configuration() {
    let secret = nostr::SecretKey::from_hex(
        "67dea2ed018072d675f5415ecfaed7d2597555e202d85b3d65ea4e58d2d92ffa",
    )
    .unwrap();
    let text = secret.to_bech32().unwrap();
    assert!(text.starts_with("nsec1"));
    let c = SessionConfig::load(Some(text.clone())).unwrap();
    assert_eq!(c.private_key, text);
    assert_eq!(c.relay_url, "wss://relay.damus.io");
    assert_eq!(c.proxy_port, 9050);
    assert_eq!(c.output_path, "output.json");
}
