use peercore::bootstrap::{get_hardcoded_bootstrap_nodes, select_bootstrap_nodes};
use peercore::bootstrap::get_hardcoded_bootstrap_nodes_with_info;

#[test]
fn test_hardcoded_bootstrap_nodes() {
    let nodes = get_hardcoded_bootstrap_nodes();
    assert_eq!(nodes.len(), 3);
    assert!(nodes[0].contains("134.199.240.145"));
    assert!(nodes[1].contains("136.116.190.115"));
    assert!(nodes[2].contains("130.245.173.105"));
}

#[test]
fn hardcoded_bootstrap_nodes_with_info_have_aliases() {
    let nodes = get_hardcoded_bootstrap_nodes_with_info();
    assert_eq!(nodes.len(), 3);
    for node in &nodes {
        assert!(!node.alias.is_empty());
        assert!(!node.multiaddr.is_empty());
        assert!(node.multiaddr.starts_with("/ip4/"));
    }
}

#[test]
fn select_prefers_nonempty_override() {
    let env = Some(vec!["/ip4/9.9.9.9/tcp/4001".to_string()]);
    let file = Some(vec!["/ip4/8.8.8.8/tcp/4001".to_string()]);
    let chosen = select_bootstrap_nodes(env, file);
    assert_eq!(chosen, vec!["/ip4/9.9.9.9/tcp/4001".to_string()]);
}

#[test]
fn select_falls_back_to_packaged_list() {
    let file = Some(vec!["/ip4/8.8.8.8/tcp/4001".to_string()]);
    let chosen = select_bootstrap_nodes(Some(Vec::new()), file);
    assert_eq!(chosen, vec!["/ip4/8.8.8.8/tcp/4001".to_string()]);
}

#[test]
fn select_falls_back_to_hardcoded() {
    let chosen = select_bootstrap_nodes(None, Some(Vec::new()));
    assert_eq!(chosen, get_hardcoded_bootstrap_nodes());
}
