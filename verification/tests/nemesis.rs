use omnipaxos_kv::nemesis::{
    alive_containers, crash_downtime_secs, isolates_leader, partition_group, pick_one, quorum_kill_set,
    quorum_majority, remove_names, take_random,
};
use rand::rngs::StdRng;
use rand::SeedableRng;

fn v(names: &[&str]) -> Vec<String> {
    names.iter().map(|s| s.to_string()).collect()
}

#[test]
fn partition_groups_leave_someone_out() {
    let containers = v(&["s1", "s2", "s3"]);
    let mut rng = StdRng::seed_from_u64(11);
    for _ in 0..50 {
        let g = partition_group(&mut rng, &containers);
        assert!(!g.is_empty() && g.len() < containers.len());
        for c in &g {
            assert!(containers.contains(c));
        }
        let mut sorted = g.clone();
        sorted.sort();
        sorted.dedup();
        assert_eq!(sorted.len(), g.len());
    }
    let single = v(&["only"]);
    assert_eq!(partition_group(&mut rng, &single), single);
}

#[test]
fn take_random_splits_the_candidates() {
    let mut rng = StdRng::seed_from_u64(5);
    let (taken, rest) = take_random(&mut rng, v(&["a", "b", "c", "d"]), 2);
    assert_eq!(taken.len(), 2);
    assert_eq!(rest.len(), 2);
    let mut all: Vec<String> = taken.into_iter().chain(rest).collect();
    all.sort();
    assert_eq!(all, v(&["a", "b", "c", "d"]));
    let (taken, rest) = take_random(&mut rng, v(&["a"]), 3);
    assert_eq!((taken.len(), rest.len()), (1, 0));
}

#[test]
fn leader_isolation_is_noticed() {
    let containers = v(&["s1", "s2", "s3"]);
    assert!(isolates_leader(&containers, &v(&["s3", "s1"])));
    assert!(!isolates_leader(&containers, &v(&["s2"])));
    assert!(!isolates_leader(&v(&[]), &v(&["s1"])));
}

#[test]
fn bookkeeping_of_partitioned_and_stopped() {
    let mut partitioned = v(&["s1", "s2", "s1", "s3"]);
    remove_names(&mut partitioned, &v(&["s1", "s4"]));
    assert_eq!(partitioned, v(&["s2", "s3"]));
    let mut stopped = v(&["s2", "s3", "s2"]);
    remove_names(&mut stopped, &v(&["s2"]));
    assert_eq!(stopped, v(&["s3"]));
    assert_eq!(alive_containers(&v(&["s1", "s2", "s3"]), &v(&["s2"])), v(&["s1", "s3"]));
}

#[test]
fn crash_and_quorum_choices() {
    let mut rng = StdRng::seed_from_u64(9);
    let alive = v(&["s1", "s3"]);
    for _ in 0..20 {
        let c = pick_one(&mut rng, &alive);
        assert!(alive.contains(&c));
        let d = crash_downtime_secs(&mut rng);
        assert!((5..=15).contains(&d));
    }
    assert_eq!(quorum_majority(3), 2);
    assert_eq!(quorum_majority(4), 3);
    assert_eq!(quorum_majority(5), 3);
    assert!(quorum_kill_set(&mut rng, v(&["s1"]), 2).is_none());
    let k = quorum_kill_set(&mut rng, v(&["s1", "s2", "s3"]), 2).unwrap();
    assert_eq!(k.len(), 2);
    assert_ne!(k[0], k[1]);
}

#[test]
fn random_draws_spread_over_their_range() {
    let mut rng = StdRng::seed_from_u64(2024);
    let mut seen = [false; 16];
    for _ in 0..500 {
        seen[crash_downtime_secs(&mut rng) as usize] = true;
    }
    assert!((5..=15).all(|s| seen[s]), "every downtime from 5 to 15 s should occur");
    let containers = v(&["s1", "s2", "s3", "s4", "s5"]);
    let mut picked = std::collections::HashSet::new();
    for _ in 0..200 {
        picked.insert(pick_one(&mut rng, &containers));
    }
    assert_eq!(picked.len(), containers.len());
}
