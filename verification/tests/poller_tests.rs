use bus_monitor::bus::{Candidate, Servers};
use bus_monitor::poller::{poll_round, PollOutcome};

fn directory(names: &[&str]) -> Servers {
    let candidates = names
        .iter()
        .map(|name| Candidate {
            name: (*name).to_owned(),
            reachable: true,
            accessible_name: Some((*name).to_owned()),
            application_ok: true,
        })
        .collect();
    Servers::new(candidates).unwrap()
}

#[test]
fn always_timing_out_peer_stays_unset() {
    let mut servers = directory(&[":1.1"]);
    for _ in 0..50 {
        poll_round(&mut servers, &vec![PollOutcome::NoResponse]);
    }
    let stats = &servers.bus[0].stats;
    assert_eq!(stats.samples, 0);
    assert_eq!(stats.min, None);
    assert_eq!(stats.max, None);
    assert_eq!(stats.mean, None);
    assert_eq!(stats.std_dev, None);
}

#[test]
fn contended_peers_are_skipped_for_the_round() {
    let mut servers = directory(&[":1.1", ":1.2"]);
    poll_round(
        &mut servers,
        &vec![PollOutcome::Contended, PollOutcome::Response(90)],
    );
    assert_eq!(servers.bus[0].stats.samples, 0);
    assert_eq!(servers.bus[1].stats.samples, 1);
    assert_eq!(servers.bus[1].stats.mean, Some(90));
}

#[test]
fn completed_probes_feed_each_peer_independently() {
    let mut servers = directory(&[":1.1", ":1.2"]);
    poll_round(
        &mut servers,
        &vec![PollOutcome::Response(10), PollOutcome::Response(30)],
    );
    poll_round(
        &mut servers,
        &vec![PollOutcome::Response(20), PollOutcome::NoResponse],
    );
    assert_eq!(servers.bus[0].stats.samples, 2);
    assert_eq!(servers.bus[0].stats.mean, Some(15));
    assert_eq!(servers.bus[1].stats.samples, 1);
    assert_eq!(servers.bus[1].stats.mean, Some(30));
}

#[test]
fn record_probe_absorbs_missing_measurements() {
    let mut servers = directory(&[":1.1"]);
    servers.bus[0].record_probe(None);
    assert_eq!(servers.bus[0].stats.samples, 0);
    servers.bus[0].record_probe(Some(70));
    assert_eq!(servers.bus[0].stats.samples, 1);
    assert_eq!(servers.bus[0].stats.min, Some(70));
}
