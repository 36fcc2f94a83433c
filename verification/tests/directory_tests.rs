use bus_monitor::bus::{Candidate, DirectoryError, Servers};

fn candidate(name: &str) -> Candidate {
    Candidate {
        name: name.to_owned(),
        reachable: true,
        accessible_name: Some(format!("app {name}")),
        application_ok: true,
    }
}

#[test]
fn three_valid_two_invalid_yields_three_peers() {
    let mut nameless = candidate(":1.4");
    nameless.accessible_name = None;
    let mut no_application = candidate(":1.5");
    no_application.application_ok = false;
    let candidates = vec![
        candidate(":1.1"),
        nameless,
        candidate("org.example.Editor"),
        no_application,
        candidate(":1.3"),
    ];
    let servers = Servers::new(candidates).unwrap();
    assert_eq!(servers.bus.len(), 3);
    assert_eq!(servers.bus[0].bus_name, ":1.1");
    assert_eq!(servers.bus[1].bus_name, "org.example.Editor");
    assert_eq!(servers.bus[2].bus_name, ":1.3");
    for server in &servers.bus {
        assert_eq!(server.stats.samples, 0);
        assert_eq!(server.stats.min, None);
    }
}

#[test]
fn skipped_candidates_keep_display_names_of_the_rest() {
    let servers = Servers::new(vec![candidate(":1.7")]).unwrap();
    assert_eq!(servers.bus[0].accessible_name, "app :1.7");
}

#[test]
fn empty_candidate_list_yields_empty_directory() {
    let servers = Servers::new(Vec::new()).unwrap();
    assert!(servers.bus.is_empty());
}

#[test]
fn malformed_address_aborts_enumeration() {
    let candidates = vec![candidate(":1.1"), candidate("not a bus name")];
    match Servers::new(candidates) {
        Err(DirectoryError::MalformedBusName) => {},
        other => panic!("expected a malformed-name failure, got {:?}", other.is_ok()),
    }
}

#[test]
fn whitespace_is_trimmed_for_reaching_the_peer() {
    // The raw address keeps its whitespace and is therefore rejected when
    // it is turned into the peer's key, even though the trimmed form used
    // to reach the peer is valid.
    let candidates = vec![candidate(" :1.6 ")];
    match Servers::new(candidates) {
        Err(DirectoryError::MalformedBusName) => {},
        other => panic!("expected a malformed-name failure, got {:?}", other.is_ok()),
    }
}

#[test]
fn unreachable_candidate_aborts_enumeration() {
    let mut unreachable = candidate(":1.2");
    unreachable.reachable = false;
    match Servers::new(vec![unreachable]) {
        Err(DirectoryError::Unreachable) => {},
        other => panic!("expected an unreachable failure, got {:?}", other.is_ok()),
    }
}

#[test]
fn get_server_finds_first_match_by_address() {
    let servers = Servers::new(vec![candidate(":1.1"), candidate(":1.2")]).unwrap();
    let found = servers.get_server(":1.2").unwrap();
    assert_eq!(found.accessible_name, "app :1.2");
    assert!(servers.get_server(":9.9").is_none());
}

#[test]
fn remove_server_drops_only_the_named_peer() {
    let mut servers = Servers::new(vec![
        candidate(":1.1"),
        candidate(":1.2"),
        candidate(":1.3"),
    ])
    .unwrap();
    servers.remove_server(":1.2");
    assert_eq!(servers.bus.len(), 2);
    assert_eq!(servers.bus[0].bus_name, ":1.1");
    assert_eq!(servers.bus[1].bus_name, ":1.3");
    servers.remove_server(":9.9");
    assert_eq!(servers.bus.len(), 2);
}
