//! Bootstrap node configuration: the hardcoded last-resort addresses and
//! the tiered choice among an override list, a packaged list, and that
//! fallback. Reading the override and the packaged file is the caller's
//! business; the choice itself is decided here.

use vstd::prelude::*;

verus! {

/// One bootstrap node: a friendly alias and its multiaddr.
#[derive(Debug)]
pub struct BootstrapNode {
    pub alias: String,
    pub multiaddr: String,
}

impl Clone for BootstrapNode {
    fn clone(&self) -> (r: Self)
        ensures
            r == *self,
    {
        BootstrapNode { alias: self.alias.clone(), multiaddr: self.multiaddr.clone() }
    }
}

/// Hardcoded bootstrap nodes: the last-resort fallback of exactly three
/// well-known addresses.
pub fn get_hardcoded_bootstrap_nodes() -> (r: Vec<String>)
    ensures
        r@.len() == 3,
        r@[0]@ == "/ip4/134.199.240.145/tcp/4001/p2p/12D3KooWFYTuQ2FY8tXRtFKfpXkTSipTF55mZkLntwtN1nHu83qE"@,
        r@[1]@ == "/ip4/136.116.190.115/tcp/4001/p2p/12D3KooWETLNJUVLbkAbenbSPPdwN9ZLkBU3TLfyAeEUW2dsVptr"@,
        r@[2]@ == "/ip4/130.245.173.105/tcp/4001/p2p/12D3KooWGFRvjXFBoU9y6xdteqP1kzctAXrYPoaDGmTGRHybZ6rp"@,
{
    let mut r: Vec<String> = Vec::new();
    r.push(
        "/ip4/134.199.240.145/tcp/4001/p2p/12D3KooWFYTuQ2FY8tXRtFKfpXkTSipTF55mZkLntwtN1nHu83qE".to_owned(),
    );
    r.push(
        "/ip4/136.116.190.115/tcp/4001/p2p/12D3KooWETLNJUVLbkAbenbSPPdwN9ZLkBU3TLfyAeEUW2dsVptr".to_owned(),
    );
    r.push(
        "/ip4/130.245.173.105/tcp/4001/p2p/12D3KooWGFRvjXFBoU9y6xdteqP1kzctAXrYPoaDGmTGRHybZ6rp".to_owned(),
    );
    r
}

/// The hardcoded bootstrap nodes with their default aliases.
pub fn get_hardcoded_bootstrap_nodes_with_info() -> (r: Vec<BootstrapNode>)
    ensures
        r@.len() == 3,
        r@[0].alias@ == "vincenzo-bootstrap"@,
        r@[1].alias@ == "turtle-bootstrap-2"@,
        r@[2].alias@ == "whale-bootstrap-3"@,
        r@[0].multiaddr@ == "/ip4/134.199.240.145/tcp/4001/p2p/12D3KooWFYTuQ2FY8tXRtFKfpXkTSipTF55mZkLntwtN1nHu83qE"@,
        r@[1].multiaddr@ == "/ip4/136.116.190.115/tcp/4001/p2p/12D3KooWETLNJUVLbkAbenbSPPdwN9ZLkBU3TLfyAeEUW2dsVptr"@,
        r@[2].multiaddr@ == "/ip4/130.245.173.105/tcp/4001/p2p/12D3KooWGFRvjXFBoU9y6xdteqP1kzctAXrYPoaDGmTGRHybZ6rp"@,
{
    let mut r: Vec<BootstrapNode> = Vec::new();
    r.push(
        BootstrapNode {
            alias: "vincenzo-bootstrap".to_owned(),
            multiaddr: "/ip4/134.199.240.145/tcp/4001/p2p/12D3KooWFYTuQ2FY8tXRtFKfpXkTSipTF55mZkLntwtN1nHu83qE".to_owned(),
        },
    );
    r.push(
        BootstrapNode {
            alias: "turtle-bootstrap-2".to_owned(),
            multiaddr: "/ip4/136.116.190.115/tcp/4001/p2p/12D3KooWETLNJUVLbkAbenbSPPdwN9ZLkBU3TLfyAeEUW2dsVptr".to_owned(),
        },
    );
    r.push(
        BootstrapNode {
            alias: "whale-bootstrap-3".to_owned(),
            multiaddr: "/ip4/130.245.173.105/tcp/4001/p2p/12D3KooWGFRvjXFBoU9y6xdteqP1kzctAXrYPoaDGmTGRHybZ6rp".to_owned(),
        },
    );
    r
}

/// Whether an optional node list is missing or empty.
pub open spec fn spec_opt_empty(o: Option<Vec<String>>) -> bool {
    match o {
        Some(v) => v@.len() == 0,
        None => true,
    }
}

/// Choose the bootstrap node list: a non-empty override list wins, then a
/// non-empty packaged list, then the hardcoded fallback.
pub fn select_bootstrap_nodes(
    env_nodes: Option<Vec<String>>,
    file_nodes: Option<Vec<String>>,
) -> (r: Vec<String>)
    ensures
        (match env_nodes {
            Some(e) => e@.len() > 0 ==> r@ == e@,
            None => true,
        }),
        (match file_nodes {
            Some(f) => spec_opt_empty(env_nodes) && f@.len() > 0 ==> r@ == f@,
            None => true,
        }),
        spec_opt_empty(env_nodes) && spec_opt_empty(file_nodes) ==> r@.len() == 3
            && r@[0]@ == "/ip4/134.199.240.145/tcp/4001/p2p/12D3KooWFYTuQ2FY8tXRtFKfpXkTSipTF55mZkLntwtN1nHu83qE"@
            && r@[1]@ == "/ip4/136.116.190.115/tcp/4001/p2p/12D3KooWETLNJUVLbkAbenbSPPdwN9ZLkBU3TLfyAeEUW2dsVptr"@
            && r@[2]@ == "/ip4/130.245.173.105/tcp/4001/p2p/12D3KooWGFRvjXFBoU9y6xdteqP1kzctAXrYPoaDGmTGRHybZ6rp"@,
{
    match env_nodes {
        Some(e) => {
            if e.len() > 0 {
                return e;
            }
        },
        None => {},
    }
    match file_nodes {
        Some(f) => {
            if f.len() > 0 {
                return f;
            }
        },
        None => {},
    }
    get_hardcoded_bootstrap_nodes()
}

} // verus!
