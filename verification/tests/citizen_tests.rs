use bus_monitor::citizen::{BusCitizens, CitizenCandidate};

fn scanned(name: &str) -> CitizenCandidate {
    CitizenCandidate {
        bus_name: name.to_owned(),
        reachable: true,
        capability_ok: true,
        accessible_name: Some(format!("app {name}")),
        application_ok: true,
    }
}

#[test]
fn scan_keeps_only_convention_following_addresses() {
    let citizens = BusCitizens::new(vec![
        scanned("xorg.one"),
        scanned("org.plain.Two"),
        scanned("xorg.three"),
    ]);
    assert_eq!(citizens.citizens.len(), 2);
    assert_eq!(citizens.citizens[0].bus_name, "xorg.one");
    assert_eq!(citizens.citizens[1].bus_name, "xorg.three");
}

#[test]
fn every_failure_is_local_to_its_candidate() {
    let mut unreachable = scanned("xorg.a");
    unreachable.reachable = false;
    let mut no_capability = scanned("xorg.b");
    no_capability.capability_ok = false;
    let mut nameless = scanned("xorg.c");
    nameless.accessible_name = None;
    let mut no_application = scanned("xorg.d");
    no_application.application_ok = false;
    let citizens = BusCitizens::new(vec![
        unreachable,
        scanned("xorg.keep"),
        no_capability,
        nameless,
        no_application,
    ]);
    assert_eq!(citizens.citizens.len(), 1);
    assert_eq!(citizens.citizens[0].bus_name, "xorg.keep");
    assert_eq!(citizens.citizens[0].stats.samples, 0);
}

#[test]
fn get_citizen_finds_by_address() {
    let citizens = BusCitizens::new(vec![scanned("xorg.one"), scanned("xorg.two")]);
    let found = citizens.get_citizen("xorg.two").unwrap();
    assert_eq!(found.accessible_name, "app xorg.two");
    assert!(citizens.get_citizen("xorg.missing").is_none());
}

#[test]
fn citizen_statistics_advance_like_the_engine() {
    let mut citizens = BusCitizens::new(vec![scanned("xorg.one")]);
    citizens.citizens[0].update_rtt_stats(40);
    citizens.citizens[0].update_rtt_stats(60);
    let stats = &citizens.citizens[0].stats;
    assert_eq!(stats.samples, 2);
    assert_eq!(stats.min, Some(40));
    assert_eq!(stats.max, Some(60));
    assert_eq!(stats.mean, Some(50));
}
