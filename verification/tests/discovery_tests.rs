use blobman::manifest::{manifest_stem, Discovery, DiscoveryAction, DiscoveryEvent};

#[test]
fn discovery_walks_up_until_the_manifest_is_found() {
    // a manifest sits at a/; the search starts in a/b/c/
    let (mut d, first) = Discovery::start();
    assert_eq!(first, ".blobs.toml");
    assert_eq!(first, manifest_stem());

    // miss in a/b/c; the probe's directory is the empty relative path
    match d.on_event(DiscoveryEvent::ManifestAbsent { canonical_parent: None }) {
        DiscoveryAction::Probe(p) => assert_eq!(p, "../.blobs.toml"),
        other => panic!("expected another probe, got {:?}", describe(&other)),
    }
    // miss in a/b; its canonicalized parent still has named components
    match d.on_event(DiscoveryEvent::ManifestAbsent {
        canonical_parent: Some("/a/b".to_string()),
    }) {
        DiscoveryAction::Probe(p) => assert_eq!(p, "../../.blobs.toml"),
        other => panic!("expected another probe, got {:?}", describe(&other)),
    }
    // hit in a/: the manifest is loaded from where it was found
    match d.on_event(DiscoveryEvent::ManifestPresent) {
        DiscoveryAction::LoadHere(p) => assert_eq!(p, "../../.blobs.toml"),
        other => panic!("expected the manifest to be loaded, got {:?}", describe(&other)),
    }
    assert_eq!(d.ascents(), 2);
}

#[test]
fn discovery_stops_empty_at_the_filesystem_root() {
    // no manifest anywhere between the start directory and the root
    let (mut d, _) = Discovery::start();
    match d.on_event(DiscoveryEvent::ManifestAbsent { canonical_parent: None }) {
        DiscoveryAction::Probe(p) => assert_eq!(p, "../.blobs.toml"),
        other => panic!("expected another probe, got {:?}", describe(&other)),
    }
    match d.on_event(DiscoveryEvent::ManifestAbsent {
        canonical_parent: Some("/home".to_string()),
    }) {
        DiscoveryAction::Probe(p) => assert_eq!(p, "../../.blobs.toml"),
        other => panic!("expected another probe, got {:?}", describe(&other)),
    }
    // the canonicalized parent is the root: no named component remains
    match d.on_event(DiscoveryEvent::ManifestAbsent { canonical_parent: Some("/".to_string()) }) {
        DiscoveryAction::FinishEmpty => {}
        other => panic!("expected the empty finish, got {:?}", describe(&other)),
    }
}

fn describe(a: &DiscoveryAction) -> String {
    match a {
        DiscoveryAction::Probe(p) => format!("Probe({})", p),
        DiscoveryAction::LoadHere(p) => format!("LoadHere({})", p),
        DiscoveryAction::FinishEmpty => "FinishEmpty".to_string(),
    }
}
