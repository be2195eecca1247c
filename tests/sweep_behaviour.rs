use ipscan::{
    next_probe_action, AddressRange, AttemptOutcome, ConfigError, ParsedCidr, ProbeAction, ScanConfig,
    Sweep, SweepAction,
};
use std::collections::{BTreeSet, VecDeque};

fn ip(a: u8, b: u8, c: u8, d: u8) -> u32 {
    u32::from_be_bytes([a, b, c, d])
}

/// Runs one probe against a simulated host; returns the ports attempted and the verdict.
fn run_probe(addr: u32, answer: &dyn Fn(u32, u16) -> AttemptOutcome) -> (Vec<u16>, bool) {
    let mut seen = Vec::new();
    let mut ports = Vec::new();
    loop {
        match next_probe_action(&seen) {
            ProbeAction::Connect(port) => {
                ports.push(port);
                seen.push(answer(addr, port));
            }
            ProbeAction::Finish(live) => return (ports, live),
        }
    }
}

struct SweepRecord {
    emitted: Vec<u32>,
    dispatched: Vec<u32>,
    completed: Vec<u32>,
    most_running: usize,
}

/// Drives a whole sweep against a simulated network; probes complete oldest first.
fn simulate(cidr: &str, concurrency: usize, answer: &dyn Fn(u32, u16) -> AttemptOutcome) -> SweepRecord {
    let config = ScanConfig::parse(cidr, 50, concurrency).unwrap();
    let mut sweep = Sweep::new(config.range, config.concurrency);
    let mut running: VecDeque<u32> = VecDeque::new();
    let mut record = SweepRecord { emitted: vec![], dispatched: vec![], completed: vec![], most_running: 0 };
    loop {
        match sweep.step() {
            SweepAction::Dispatch(addr) => {
                running.push_back(addr);
                record.dispatched.push(addr);
                record.most_running = record.most_running.max(sweep.running());
            }
            SweepAction::Wait => {
                let addr = running.pop_front().unwrap();
                let (_, live) = run_probe(addr, answer);
                record.completed.push(addr);
                if let Some(found) = sweep.complete(addr, live) {
                    record.emitted.push(found);
                }
            }
            SweepAction::Finished => break,
        }
    }
    assert!(running.is_empty());
    record
}

fn only_10_0_0_2_on_443(addr: u32, port: u16) -> AttemptOutcome {
    if addr == ip(10, 0, 0, 2) && port == 443 {
        AttemptOutcome::Connected
    } else {
        AttemptOutcome::TimedOut
    }
}

#[test]
fn range_clears_host_bits() {
    let r = AddressRange::new(ip(10, 0, 0, 5), 30);
    assert_eq!(r.network(), ip(10, 0, 0, 4));
    assert_eq!(r.prefix(), 30);
    assert_eq!(r.len(), 4);
    assert_eq!(r.last(), ip(10, 0, 0, 7));
    assert!(r.contains_addr(ip(10, 0, 0, 4)));
    assert!(r.contains_addr(ip(10, 0, 0, 7)));
    assert!(!r.contains_addr(ip(10, 0, 0, 8)));
    assert!(!r.contains_addr(ip(10, 0, 0, 3)));
}

#[test]
fn range_of_prefix_20() {
    let r = AddressRange::new(ip(192, 168, 70, 9), 20);
    assert_eq!(r.network(), ip(192, 168, 64, 0));
    assert_eq!(r.len(), 4096);
    assert_eq!(r.last(), ip(192, 168, 79, 255));
}

#[test]
fn single_host_range_yields_one_candidate() {
    let r = AddressRange::new(ip(10, 0, 0, 0), 32);
    let mut c = r.candidates_iter();
    assert_eq!(c.next(), Some(ip(10, 0, 0, 0)));
    assert_eq!(c.next(), None);
    assert_eq!(c.next(), None);
    assert!(c.is_exhausted());
}

#[test]
fn whole_space_range() {
    let r = AddressRange::new(ip(1, 2, 3, 4), 0);
    assert_eq!(r.network(), 0);
    assert_eq!(r.len(), 1u64 << 32);
    assert_eq!(r.last(), u32::MAX);
    let mut c = r.candidates_iter();
    assert_eq!(c.next(), Some(0));
    assert_eq!(c.next(), Some(1));
}

#[test]
fn candidates_are_ascending_distinct_and_complete() {
    for prefix in [24u8, 28, 30, 31, 32] {
        let r = AddressRange::new(ip(172, 16, 5, 77), prefix);
        let mut c = r.candidates_iter();
        let mut all = Vec::new();
        while let Some(a) = c.next() {
            all.push(a);
        }
        assert_eq!(all.len() as u64, 1u64 << (32 - prefix));
        assert!(all.windows(2).all(|w| w[0] < w[1]));
        assert!(all.iter().all(|a| r.contains_addr(*a)));
        assert_eq!(all[0], r.network());
        assert_eq!(*all.last().unwrap(), r.last());
    }
}

#[test]
fn probe_starts_on_port_80() {
    assert_eq!(next_probe_action(&vec![]), ProbeAction::Connect(80));
}

#[test]
fn probe_refusal_is_live_and_stops() {
    let (ports, live) = run_probe(1, &|_, port| {
        if port == 443 {
            AttemptOutcome::Refused
        } else {
            AttemptOutcome::TimedOut
        }
    });
    assert!(live);
    assert_eq!(ports, vec![80, 443]);
    let (ports, live) = run_probe(1, &|_, _| AttemptOutcome::Refused);
    assert!(live);
    assert_eq!(ports, vec![80]);
}

#[test]
fn probe_connection_is_live() {
    let (ports, live) = run_probe(1, &|_, port| {
        if port == 445 {
            AttemptOutcome::Connected
        } else {
            AttemptOutcome::Failed
        }
    });
    assert!(live);
    assert_eq!(ports, vec![80, 443, 22, 445]);
}

#[test]
fn probe_silence_tries_every_port() {
    let (ports, live) = run_probe(1, &|_, _| AttemptOutcome::TimedOut);
    assert!(!live);
    assert_eq!(ports, vec![80, 443, 22, 445]);
}

#[test]
fn probe_other_errors_are_inconclusive() {
    let (ports, live) = run_probe(1, &|_, _| AttemptOutcome::Failed);
    assert!(!live);
    assert_eq!(ports, vec![80, 443, 22, 445]);
    let seen = vec![AttemptOutcome::Failed, AttemptOutcome::TimedOut];
    assert_eq!(next_probe_action(&seen), ProbeAction::Connect(22));
}

#[test]
fn config_parses_ipv4_block() {
    let c = ScanConfig::parse("192.168.64.0/20", 250, 512).unwrap();
    assert_eq!(c.range.network(), ip(192, 168, 64, 0));
    assert_eq!(c.range.prefix(), 20);
    assert_eq!(c.timeout_ms, 250);
    assert_eq!(c.concurrency, 512);
}

#[test]
fn config_masks_unaligned_address() {
    let c = ScanConfig::parse("10.0.0.5/30", 50, 4).unwrap();
    assert_eq!(c.range.network(), ip(10, 0, 0, 4));
    assert_eq!(c.range.prefix(), 30);
}

#[test]
fn config_bare_address_is_single_host() {
    let c = ScanConfig::parse("10.1.2.3", 50, 4).unwrap();
    assert_eq!(c.range.network(), ip(10, 1, 2, 3));
    assert_eq!(c.range.len(), 1);
}

#[test]
fn config_rejects_prefix_40() {
    assert_eq!(ScanConfig::parse("10.0.0.0/40", 50, 4), Err(ConfigError::InvalidRange));
}

#[test]
fn config_rejects_garbage() {
    assert_eq!(ScanConfig::parse("not a range", 50, 4), Err(ConfigError::InvalidRange));
    assert_eq!(ScanConfig::parse("10.0.0/24", 50, 4), Err(ConfigError::InvalidRange));
}

#[test]
fn config_rejects_ipv6() {
    assert_eq!(ScanConfig::parse("fe80::/64", 50, 4), Err(ConfigError::UnsupportedFamily));
}

#[test]
fn config_rejects_zero_concurrency() {
    assert_eq!(ScanConfig::parse("10.0.0.0/30", 50, 0), Err(ConfigError::ZeroConcurrency));
}

#[test]
fn config_from_parsed_values() {
    assert_eq!(ScanConfig::from_parsed(ParsedCidr::Invalid, 1, 1), Err(ConfigError::InvalidRange));
    assert_eq!(ScanConfig::from_parsed(ParsedCidr::V6, 1, 1), Err(ConfigError::UnsupportedFamily));
    assert_eq!(
        ScanConfig::from_parsed(ParsedCidr::V4 { addr: 7, prefix: 33 }, 1, 1),
        Err(ConfigError::InvalidRange)
    );
    let c = ScanConfig::from_parsed(ParsedCidr::V4 { addr: ip(10, 9, 8, 7), prefix: 24 }, 9, 3).unwrap();
    assert_eq!(c.range.network(), ip(10, 9, 8, 0));
    assert_eq!(c.timeout_ms, 9);
    assert_eq!(c.concurrency, 3);
}

#[test]
fn sweep_reports_only_the_live_host() {
    let rec = simulate("10.0.0.0/30", 4, &only_10_0_0_2_on_443);
    let found: BTreeSet<u32> = rec.emitted.iter().copied().collect();
    assert_eq!(found, BTreeSet::from([ip(10, 0, 0, 2)]));
    assert_eq!(rec.emitted.len(), 1);
}

#[test]
fn sweep_single_unreachable_host_reports_nothing() {
    let rec = simulate("10.0.0.0/32", 4, &|_, _| AttemptOutcome::TimedOut);
    assert!(rec.emitted.is_empty());
    assert_eq!(rec.dispatched, vec![ip(10, 0, 0, 0)]);
}

#[test]
fn sweep_never_exceeds_budget() {
    for n in [1usize, 2, 3, 7, 64] {
        let rec = simulate("10.0.0.0/28", n, &|_, _| AttemptOutcome::TimedOut);
        assert!(rec.most_running <= n);
        assert_eq!(rec.most_running, n.min(16));
    }
}

#[test]
fn sweep_waits_when_budget_is_full() {
    let r = AddressRange::new(ip(10, 0, 0, 0), 30);
    let mut s = Sweep::new(r, 2);
    assert_eq!(s.step(), SweepAction::Dispatch(ip(10, 0, 0, 0)));
    assert_eq!(s.step(), SweepAction::Dispatch(ip(10, 0, 0, 1)));
    assert_eq!(s.step(), SweepAction::Wait);
    assert_eq!(s.running(), 2);
    assert_eq!(s.complete(ip(10, 0, 0, 1), true), Some(ip(10, 0, 0, 1)));
    assert_eq!(s.step(), SweepAction::Dispatch(ip(10, 0, 0, 2)));
    assert_eq!(s.complete(ip(10, 0, 0, 0), false), None);
    assert_eq!(s.step(), SweepAction::Dispatch(ip(10, 0, 0, 3)));
    assert_eq!(s.step(), SweepAction::Wait);
    assert_eq!(s.complete(ip(10, 0, 0, 3), false), None);
    assert_eq!(s.step(), SweepAction::Wait);
    assert_eq!(s.complete(ip(10, 0, 0, 2), false), None);
    assert_eq!(s.step(), SweepAction::Finished);
    assert_eq!(s.running(), 0);
}

#[test]
fn sweep_probes_each_candidate_once() {
    let rec = simulate("10.0.1.0/27", 5, &|a, _| {
        if a % 3 == 0 {
            AttemptOutcome::Refused
        } else {
            AttemptOutcome::TimedOut
        }
    });
    let expected: Vec<u32> = (0..32).map(|i| ip(10, 0, 1, 0) + i).collect();
    assert_eq!(rec.dispatched, expected);
    let mut completed = rec.completed.clone();
    completed.sort();
    assert_eq!(completed, expected);
}

#[test]
fn sweep_twice_gives_same_live_set() {
    let answer = |a: u32, port: u16| {
        if a % 5 == 1 && port == 22 {
            AttemptOutcome::Connected
        } else {
            AttemptOutcome::TimedOut
        }
    };
    let first: BTreeSet<u32> = simulate("10.0.2.0/26", 3, &answer).emitted.into_iter().collect();
    let second: BTreeSet<u32> = simulate("10.0.2.0/26", 9, &answer).emitted.into_iter().collect();
    assert_eq!(first, second);
    let expected: BTreeSet<u32> = (0..64u32).map(|i| ip(10, 0, 2, 0) + i).filter(|a| a % 5 == 1).collect();
    assert_eq!(first, expected);
}
