use encoding::Encoding;
use server_watch::address::{parse_ipv4, Ipv4Address};
use server_watch::directory::{fetch, Directory, DirectoryEntry};
use server_watch::errors::MonitorError;
use server_watch::probe::{ProbeDirective, ProbeSession};
use server_watch::resolve::resolve;
use server_watch::text::{chars_eq, parse_u16, split_char};
use server_watch::watch::WatchSession;

fn chars(s: &str) -> Vec<char> {
    s.chars().collect()
}

fn string_of(v: &[char]) -> String {
    v.iter().collect()
}

fn fetch_str(payload: &str) -> Result<Directory, MonitorError> {
    fetch(&payload.as_bytes().to_vec())
}

// --- directory fetching and parsing ---

#[test]
fn fetch_counts_nonempty_lines() {
    let dir = fetch_str("0\tA\tx\t1.2.3.4\t100\n0\tB\tx\t5.6.7.8\t200\n").unwrap();
    assert_eq!(dir.entries.len(), 2);
    assert_eq!(string_of(&dir.entries[0].name), "A");
    assert_eq!(string_of(&dir.entries[0].host), "1.2.3.4");
    assert_eq!(dir.entries[0].port, 100);
    assert_eq!(string_of(&dir.entries[1].name), "B");
    assert_eq!(string_of(&dir.entries[1].host), "5.6.7.8");
    assert_eq!(dir.entries[1].port, 200);
}

#[test]
fn fetch_trailing_newline_yields_no_spurious_entry() {
    let with_newline = fetch_str("0\tA\tx\t1.2.3.4\t100\n").unwrap();
    let without = fetch_str("0\tA\tx\t1.2.3.4\t100").unwrap();
    assert_eq!(with_newline.entries.len(), 1);
    assert_eq!(without.entries.len(), 1);
}

#[test]
fn fetch_skips_blank_lines() {
    let dir = fetch_str("\n0\tA\tx\t1.2.3.4\t100\n\n0\tB\tx\t5.6.7.8\t200\n\n").unwrap();
    assert_eq!(dir.entries.len(), 2);
}

#[test]
fn fetch_empty_payload_is_empty_directory() {
    let dir = fetch_str("").unwrap();
    assert_eq!(dir.entries.len(), 0);
}

#[test]
fn fetch_ignores_extra_fields() {
    let dir = fetch_str("junk\tA\tignored\t9.9.9.9\t65535\tmore\tfields\n").unwrap();
    assert_eq!(dir.entries.len(), 1);
    assert_eq!(dir.entries[0].port, 65535);
}

#[test]
fn fetch_nonnumeric_port_is_decode_error() {
    let r = fetch_str("0\tA\tx\t1.2.3.4\tabc\n");
    assert!(matches!(r, Err(MonitorError::DecodeError)));
}

#[test]
fn fetch_overflowing_port_is_decode_error() {
    let r = fetch_str("0\tA\tx\t1.2.3.4\t65536\n");
    assert!(matches!(r, Err(MonitorError::DecodeError)));
}

#[test]
fn fetch_short_row_is_decode_error() {
    let r = fetch_str("0\tA\tx\t1.2.3.4\n");
    assert!(matches!(r, Err(MonitorError::DecodeError)));
}

#[test]
fn fetch_bad_row_poisons_whole_payload() {
    // The first row is fine on its own; no partial directory may come back.
    let r = fetch_str("0\tA\tx\t1.2.3.4\t100\n0\tB\tx\t5.6.7.8\tbad\n");
    assert!(matches!(r, Err(MonitorError::DecodeError)));
}

#[test]
fn fetch_undecodable_bytes_is_decode_error() {
    // 0x81 opens a two-byte GBK sequence; 0x20 is no valid trail byte.
    let payload: Vec<u8> = vec![0x30, 0x09, 0x81, 0x20, 0x09, 0x78, 0x09, 0x31, 0x09, 0x35];
    let r = fetch(&payload);
    assert!(matches!(r, Err(MonitorError::DecodeError)));
}

#[test]
fn fetch_decodes_gbk_names() {
    // A name outside the seven-bit range: its GBK bytes differ from its
    // characters, so this fails if decoding were a byte-for-byte copy.
    let name = "\u{5929}\u{9e45}\u{576a}"; // 天鹅坪
    let line = format!("0\t{}\tx\t1.2.3.4\t100\n", name);
    let payload = encoding::all::GBK
        .encode(&line, encoding::EncoderTrap::Strict)
        .unwrap();
    assert_ne!(payload.len(), line.chars().count());
    let dir = fetch(&payload).unwrap();
    assert_eq!(dir.entries.len(), 1);
    assert_eq!(string_of(&dir.entries[0].name), name);
    assert!(dir.find(&chars(name)).is_some());
}

#[test]
fn find_returns_last_entry_for_repeated_name() {
    let dir = fetch_str("0\tA\tx\t1.1.1.1\t1\n0\tA\tx\t2.2.2.2\t2\n").unwrap();
    let idx = dir.find(&chars("A")).unwrap();
    assert_eq!(idx, 1);
    assert_eq!(dir.entries[idx].port, 2);
    assert!(dir.find(&chars("B")).is_none());
}

// --- endpoint resolution ---

fn sample_directory() -> Directory {
    fetch_str("0\tA\tx\t1.2.3.4\t100\n0\tB\tx\t5.6.7.8\t200\n").unwrap()
}

#[test]
fn resolve_missing_name_is_unknown_endpoint() {
    let dir = sample_directory();
    let watch = vec![chars("X")];
    match resolve(&dir, &watch) {
        Err(MonitorError::UnknownEndpoint(n)) => assert_eq!(string_of(&n), "X"),
        other => panic!("expected UnknownEndpoint, got {:?}", other.is_ok()),
    }
}

#[test]
fn resolve_reports_first_missing_name_before_any_target() {
    let dir = sample_directory();
    // "A" resolves, but the whole list is checked before anything is handed
    // out, and the first absent name wins.
    let watch = vec![chars("A"), chars("Q"), chars("Z")];
    match resolve(&dir, &watch) {
        Err(MonitorError::UnknownEndpoint(n)) => assert_eq!(string_of(&n), "Q"),
        other => panic!("expected UnknownEndpoint, got {:?}", other.is_ok()),
    }
}

#[test]
fn resolve_keeps_order_and_duplicates() {
    let dir = sample_directory();
    let watch = vec![chars("B"), chars("A"), chars("B")];
    let targets = resolve(&dir, &watch).unwrap();
    assert_eq!(targets.len(), 3);
    assert_eq!(string_of(&targets[0].name), "B");
    assert_eq!(targets[0].addr, Ipv4Address { a: 5, b: 6, c: 7, d: 8 });
    assert_eq!(targets[0].port, 200);
    assert_eq!(string_of(&targets[1].name), "A");
    assert_eq!(targets[1].addr, Ipv4Address { a: 1, b: 2, c: 3, d: 4 });
    assert_eq!(targets[1].port, 100);
    assert_eq!(string_of(&targets[2].name), "B");
}

#[test]
fn resolve_bad_host_is_configuration_error() {
    let dir = fetch_str("0\tA\tx\t999.1.1.1\t100\n").unwrap();
    let watch = vec![chars("A")];
    match resolve(&dir, &watch) {
        Err(MonitorError::ConfigurationError(h)) => assert_eq!(string_of(&h), "999.1.1.1"),
        other => panic!("expected ConfigurationError, got {:?}", other.is_ok()),
    }
}

// --- the prober ---

#[test]
fn probe_already_reachable_succeeds_first_attempt_without_delay() {
    let addr = Ipv4Address { a: 1, b: 2, c: 3, d: 4 };
    let mut session = ProbeSession::new(addr, 100, 50);
    assert_eq!(session.attempts, 0);
    let d = session.on_attempt(true);
    assert_eq!(d, ProbeDirective::Done);
    assert_eq!(session.attempts, 0);
}

#[test]
fn probe_succeeds_on_attempt_k_plus_one_after_k_failures() {
    let addr = Ipv4Address { a: 1, b: 2, c: 3, d: 4 };
    let interval = 50u64;
    let k = 3u64;
    let mut session = ProbeSession::new(addr, 100, interval);
    let mut directives = Vec::new();
    // The target becomes reachable only on the attempt after k failures.
    for attempt in 1..=(k + 1) {
        let connected = attempt == k + 1;
        directives.push(session.on_attempt(connected));
    }
    assert_eq!(directives.len(), (k + 1) as usize);
    for i in 0..k as usize {
        assert_eq!(directives[i], ProbeDirective::RetryAfter(interval));
    }
    assert_eq!(directives[k as usize], ProbeDirective::Done);
    assert_eq!(session.attempts, k);
}

#[test]
fn probe_zero_interval_still_directs_a_retry() {
    let addr = Ipv4Address { a: 9, b: 9, c: 9, d: 9 };
    let mut session = ProbeSession::new(addr, 1, 0);
    assert_eq!(session.on_attempt(false), ProbeDirective::RetryAfter(0));
}

// --- the orchestrator ---

#[derive(Debug, PartialEq)]
enum LoggedAction {
    Probe(Ipv4Address, u16),
    Notify(String),
}

#[test]
fn watch_notifies_a_before_b_is_probed() {
    // Watch list ["A", "B"]; A reachable at once, B only on its third
    // attempt, at interval 50.
    let dir = sample_directory();
    let watch = vec![chars("A"), chars("B")];
    let targets = resolve(&dir, &watch).unwrap();
    let mut session = WatchSession::new(targets);
    let mut log: Vec<LoggedAction> = Vec::new();
    let reachable_after = [0u64, 2u64]; // failed attempts before success
    let mut target_index = 0;
    while !session.finished() {
        let (addr, port) = session.begin_probe();
        log.push(LoggedAction::Probe(addr, port));
        let mut probe = ProbeSession::new(addr, port, 50);
        loop {
            let connected = probe.attempts >= reachable_after[target_index];
            match probe.on_attempt(connected) {
                ProbeDirective::Done => break,
                ProbeDirective::RetryAfter(interval) => assert_eq!(interval, 50),
            }
        }
        let name = session.probe_succeeded();
        log.push(LoggedAction::Notify(string_of(&name)));
        target_index += 1;
    }
    let a = Ipv4Address { a: 1, b: 2, c: 3, d: 4 };
    let b = Ipv4Address { a: 5, b: 6, c: 7, d: 8 };
    assert_eq!(
        log,
        vec![
            LoggedAction::Probe(a, 100),
            LoggedAction::Notify("A".to_string()),
            LoggedAction::Probe(b, 200),
            LoggedAction::Notify("B".to_string()),
        ]
    );
}

#[test]
fn watch_unknown_name_means_zero_probe_attempts() {
    // Watch list ["X"] against a directory without "X": resolution fails
    // fast and no probe session is ever begun.
    let dir = sample_directory();
    let watch = vec![chars("X")];
    match resolve(&dir, &watch) {
        Err(MonitorError::UnknownEndpoint(n)) => {
            assert_eq!(string_of(&n), "X");
            // No targets exist, so a run over the resolution's output can
            // make no probe at all.
        }
        _ => panic!("expected UnknownEndpoint"),
    }
}

#[test]
fn watch_empty_list_is_finished_at_once() {
    let session = WatchSession::new(Vec::new());
    assert!(session.finished());
}

// --- addresses and numbers ---

#[test]
fn parse_ipv4_accepts_dotted_quads() {
    assert_eq!(
        parse_ipv4(&chars("0.0.0.0")),
        Some(Ipv4Address { a: 0, b: 0, c: 0, d: 0 })
    );
    assert_eq!(
        parse_ipv4(&chars("255.255.255.255")),
        Some(Ipv4Address { a: 255, b: 255, c: 255, d: 255 })
    );
    assert_eq!(
        parse_ipv4(&chars("192.168.0.1")),
        Some(Ipv4Address { a: 192, b: 168, c: 0, d: 1 })
    );
}

#[test]
fn parse_ipv4_rejects_malformed_hosts() {
    assert_eq!(parse_ipv4(&chars("")), None);
    assert_eq!(parse_ipv4(&chars("1.2.3")), None);
    assert_eq!(parse_ipv4(&chars("1.2.3.4.5")), None);
    assert_eq!(parse_ipv4(&chars("1.2.3.256")), None);
    assert_eq!(parse_ipv4(&chars("01.2.3.4")), None);
    assert_eq!(parse_ipv4(&chars("1.2..4")), None);
    assert_eq!(parse_ipv4(&chars("a.b.c.d")), None);
}

#[test]
fn parse_u16_reads_decimal_ports() {
    assert_eq!(parse_u16(&chars("0")), Some(0));
    assert_eq!(parse_u16(&chars("007")), Some(7));
    assert_eq!(parse_u16(&chars("65535")), Some(65535));
    assert_eq!(parse_u16(&chars("65536")), None);
    assert_eq!(parse_u16(&chars("")), None);
    assert_eq!(parse_u16(&chars("12a")), None);
    assert_eq!(parse_u16(&chars("000000000000123")), Some(123));
}

#[test]
fn split_char_keeps_empty_fields() {
    let parts = split_char(&chars("a\t\tb\t"), '\t');
    let parts: Vec<String> = parts.iter().map(|p| string_of(p)).collect();
    assert_eq!(parts, vec!["a", "", "b", ""]);
    let parts = split_char(&chars(""), '\t');
    assert_eq!(parts.len(), 1);
    assert!(parts[0].is_empty());
}

#[test]
fn chars_eq_compares_contents() {
    assert!(chars_eq(&chars("abc"), &chars("abc")));
    assert!(!chars_eq(&chars("abc"), &chars("abd")));
    assert!(!chars_eq(&chars("abc"), &chars("ab")));
}

#[test]
fn directory_entry_fields_are_plain() {
    let e = DirectoryEntry { name: chars("A"), host: chars("1.2.3.4"), port: 100 };
    assert!(chars_eq(&e.name, &chars("A")));
    assert_eq!(e.port, 100);
}
