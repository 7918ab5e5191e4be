use std::collections::HashMap;

use sim_admission::cache::{resolve_start, OwnershipChainCache, ResolveStep};
use sim_admission::pod::OwnerReference;

fn owner(name: &str) -> OwnerReference {
    OwnerReference { name: name.to_string() }
}

/// Drives one full resolution against a fake cluster: `graph` maps an object
/// name to the names of its own owners.  Returns the chain and how many
/// fetches the accessor served.
fn resolve(
    cache: &mut OwnershipChainCache,
    refs: Vec<OwnerReference>,
    graph: &HashMap<String, Vec<String>>,
) -> (Vec<String>, usize) {
    let mut fetches = 0usize;
    let mut r = resolve_start(refs);
    loop {
        match cache.resolve_step(&mut r) {
            ResolveStep::Done(chain) => {
                return (chain.into_iter().map(|o| o.name).collect(), fetches);
            }
            ResolveStep::Fetch(name) => {
                fetches += 1;
                let owners = graph
                    .get(&name)
                    .map(|v| v.iter().map(|n| owner(n)).collect())
                    .unwrap_or_default();
                cache.resolve_deliver(&mut r, owners);
            }
            ResolveStep::CycleDetected(name) => panic!("unexpected cycle at {name}"),
        }
    }
}

fn sample_graph() -> HashMap<String, Vec<String>> {
    let mut g = HashMap::new();
    g.insert("rs-1".to_string(), vec!["deploy-1".to_string()]);
    g.insert("deploy-1".to_string(), vec!["sim-root-X".to_string()]);
    g.insert("sim-root-X".to_string(), Vec::new());
    g
}

#[test]
fn resolution_walks_the_ancestry() {
    let mut cache = OwnershipChainCache::new();
    let g = sample_graph();
    let (chain, fetches) = resolve(&mut cache, vec![owner("rs-1")], &g);
    assert_eq!(chain, vec!["rs-1", "deploy-1", "sim-root-X"]);
    assert_eq!(fetches, 3);
}

#[test]
fn no_owner_references_resolve_to_empty_chain() {
    let mut cache = OwnershipChainCache::new();
    let g = sample_graph();
    let (chain, fetches) = resolve(&mut cache, Vec::new(), &g);
    assert!(chain.is_empty());
    assert_eq!(fetches, 0);
}

#[test]
fn second_resolution_is_served_from_cache() {
    let mut cache = OwnershipChainCache::new();
    let g = sample_graph();
    let (_, first) = resolve(&mut cache, vec![owner("rs-1")], &g);
    assert_eq!(first, 3);
    // The same pod again: everything is cached, no accessor call at all.
    let (chain, second) = resolve(&mut cache, vec![owner("rs-1")], &g);
    assert_eq!(chain, vec!["rs-1", "deploy-1", "sim-root-X"]);
    assert_eq!(second, 0);
}

#[test]
fn sibling_pod_sharing_an_ancestor_does_not_refetch_it() {
    let mut cache = OwnershipChainCache::new();
    let mut g = sample_graph();
    g.insert("rs-2".to_string(), vec!["deploy-1".to_string()]);
    let (_, first) = resolve(&mut cache, vec![owner("rs-1")], &g);
    assert_eq!(first, 3);
    // A sibling owned by rs-2: only rs-2 itself is new; deploy-1's suffix is
    // spliced from the cache.
    let (chain, second) = resolve(&mut cache, vec![owner("rs-2")], &g);
    assert_eq!(chain, vec!["rs-2", "deploy-1", "sim-root-X"]);
    assert_eq!(second, 1);
}

#[test]
fn ownership_cycle_is_detected() {
    let mut cache = OwnershipChainCache::new();
    let mut g = HashMap::new();
    g.insert("a".to_string(), vec!["b".to_string()]);
    g.insert("b".to_string(), vec!["a".to_string()]);
    let mut r = resolve_start(vec![owner("a")]);
    let cycle = loop {
        match cache.resolve_step(&mut r) {
            ResolveStep::Fetch(name) => {
                let owners = g[&name].iter().map(|n| owner(n)).collect();
                cache.resolve_deliver(&mut r, owners);
            }
            ResolveStep::CycleDetected(name) => break name,
            ResolveStep::Done(_) => panic!("cycle must not resolve"),
        }
    };
    assert_eq!(cycle, "a");
}
