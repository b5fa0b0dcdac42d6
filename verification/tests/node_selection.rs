use orange_platform::data_plane_nodes::{SelectableNode, SelectableNodeProtocol, SelectorGroup};
use orange_platform::node_selection::{
    delay_probe_targets, fresh_loads, load_refresh_interval_seconds, pick_by_delay, NodeLoad,
    NodeLoadState, NodeLoadsResponse, AUTOMATIC_PROBE_TIMEOUT_MS,
};
use sha2::{Digest, Sha256};

#[test]
fn refresh_interval_is_stable_and_bounded() {
    for index in 0..500 {
        let installation_id = format!("installation-{index}");
        let interval = load_refresh_interval_seconds(&installation_id);
        assert!((50..=70).contains(&interval), "interval was {interval}");
        assert_eq!(interval, load_refresh_interval_seconds(&installation_id));
    }
}

#[test]
fn refresh_interval_depends_on_the_installation() {
    let first = load_refresh_interval_seconds("installation-a");
    let differs = (0..50).any(|index| {
        load_refresh_interval_seconds(&format!("installation-{index}")) != first
    });
    assert!(differs);
    assert_eq!(AUTOMATIC_PROBE_TIMEOUT_MS, 1_500);
}

#[test]
fn refresh_interval_matches_the_digest_prefix() {
    assert_eq!(load_refresh_interval_seconds("installation-a"), 51);
    assert_eq!(load_refresh_interval_seconds("installation-0"), 70);
}

fn tie_break(installation_id: &str, node_id: &str) -> u64 {
    let mut input = Vec::new();
    for part in [installation_id, node_id] {
        input.extend_from_slice(part.as_bytes());
        input.push(0);
    }
    let digest = Sha256::digest(&input);
    u64::from_be_bytes(digest[..8].try_into().unwrap())
}

#[test]
fn delay_only_selection_probes_the_first_nodes() {
    let nodes = (0..10)
        .map(|index| {
            SelectableNode::from_public_parts(
                format!("node-{index}"),
                format!("Node {index}"),
                SelectableNodeProtocol::Vless,
            )
            .unwrap()
        })
        .collect::<Vec<_>>();
    let group = SelectorGroup::from_public_parts("proxy".to_owned(), "node-3".to_owned(), nodes).unwrap();
    let targets = delay_probe_targets(&group);
    assert_eq!(targets, (0..8).map(|index| format!("node-{index}")).collect::<Vec<_>>());
}

#[test]
fn delay_only_selection_takes_the_fastest_node() {
    assert_eq!(pick_by_delay("fallback", "installation-a", &[]), "fallback");
    let delays = vec![("slow".to_owned(), 90), ("fast".to_owned(), 20), ("medium".to_owned(), 40)];
    assert_eq!(pick_by_delay("fallback", "installation-a", &delays), "fast");

    let tied = vec![("left".to_owned(), 30), ("right".to_owned(), 30)];
    let expected = if tie_break("installation-a", "left") <= tie_break("installation-a", "right") {
        "left"
    } else {
        "right"
    };
    assert_eq!(pick_by_delay("fallback", "installation-a", &tied), expected);
    let reversed = vec![("right".to_owned(), 30), ("left".to_owned(), 30)];
    assert_eq!(pick_by_delay("fallback", "installation-a", &reversed), expected);
}

fn load(id: &str, state: NodeLoadState, updated_at: Option<u64>) -> NodeLoad {
    NodeLoad { id: id.to_owned(), capacity_group: "m-1".to_owned(), state, updated_at }
}

fn loads_snapshot(generated_at: u64, ttl_seconds: u64, nodes: Vec<NodeLoad>) -> NodeLoadsResponse {
    NodeLoadsResponse { generated_at, ttl_seconds, nodes }
}

fn has_load(loads: &[NodeLoad], id: &str) -> bool {
    loads.iter().any(|load| load.id == id)
}

#[test]
fn missing_snapshot_yields_no_loads() {
    assert!(fresh_loads(None, 1_000).is_empty());
}

#[test]
fn expired_snapshot_is_discarded_wholesale() {
    let response = loads_snapshot(1_000, 180, vec![load("xb-1", NodeLoadState::Normal, Some(1_000))]);
    assert!(fresh_loads(Some(&response), 1_181).is_empty());
    assert_eq!(fresh_loads(Some(&response), 1_180).len(), 1);
}

#[test]
fn stale_entries_are_dropped_but_unknown_entries_survive() {
    let response = loads_snapshot(
        1_000,
        180,
        vec![
            load("xb-fresh", NodeLoadState::Normal, Some(1_000)),
            load("xb-stale", NodeLoadState::Normal, Some(800)),
            load("xb-unknown", NodeLoadState::Unknown, None),
        ],
    );
    let loads = fresh_loads(Some(&response), 1_100);
    assert!(has_load(&loads, "xb-fresh"));
    assert!(!has_load(&loads, "xb-stale"));
    assert!(has_load(&loads, "xb-unknown"));
}

#[test]
fn the_last_valid_report_of_an_id_is_kept() {
    let response = loads_snapshot(
        1_000,
        180,
        vec![
            load("xb-1", NodeLoadState::Normal, Some(1_000)),
            load("xb-1", NodeLoadState::Busy, Some(1_050)),
            load("xb-1", NodeLoadState::Idle, Some(700)),
            load("xb-timed-out", NodeLoadState::Busy, None),
        ],
    );
    let loads = fresh_loads(Some(&response), 1_100);
    assert_eq!(loads.len(), 1);
    assert_eq!(loads[0].state, NodeLoadState::Busy);
    assert_eq!(loads[0].updated_at, Some(1_050));
}

#[test]
fn the_snapshot_expiry_saturates() {
    let response = loads_snapshot(u64::MAX - 1, 10, vec![load("xb-1", NodeLoadState::Unknown, None)]);
    assert_eq!(fresh_loads(Some(&response), u64::MAX).len(), 1);
}
