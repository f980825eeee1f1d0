use omnipaxos_kv::fault_rounds::{FaultAction, FaultEvent, FaultKind, FaultRounds};
use rand::rngs::StdRng;
use rand::SeedableRng;

fn v(names: &[&str]) -> Vec<String> {
    names.iter().map(|s| s.to_string()).collect()
}

/// Runs a schedule to the end; `outcome` decides which of the containers
/// in each Break / Heal action succeed.
fn run(kind: FaultKind, containers: &[&str], mut outcome: impl FnMut(bool, &[String]) -> Vec<String>) -> (Vec<String>, usize, Vec<u64>) {
    let mut rng = StdRng::seed_from_u64(17);
    let mut s = FaultRounds::new(kind, v(containers));
    let mut ev = FaultEvent::Proceed;
    let mut breaks = 0;
    let mut sleeps = Vec::new();
    for _ in 0..1000 {
        let a = s.step(&mut rng, ev);
        ev = FaultEvent::Proceed;
        match a {
            FaultAction::Sleep(n) => sleeps.push(n),
            FaultAction::Break(g) => {
                breaks += 1;
                ev = FaultEvent::Done(outcome(true, &g));
            }
            FaultAction::Heal(g) => ev = FaultEvent::Done(outcome(false, &g)),
            FaultAction::Skip => {}
            FaultAction::Finish(left) => return (left, breaks, sleeps),
        }
    }
    panic!("schedule did not finish");
}

#[test]
fn empty_configuration_finishes_at_once() {
    let (left, breaks, sleeps) = run(FaultKind::Crash, &[], |_, g| g.to_vec());
    assert!(left.is_empty());
    assert_eq!(breaks, 0);
    assert!(sleeps.is_empty());
}

#[test]
fn crash_rounds_all_succeed_leave_nothing_down() {
    let (left, breaks, sleeps) = run(FaultKind::Crash, &["s1", "s2", "s3"], |_, g| {
        assert_eq!(g.len(), 1);
        g.to_vec()
    });
    assert!(left.is_empty());
    assert_eq!(breaks, 3);
    assert_eq!(sleeps[0], 2);
    assert_eq!(sleeps.len(), 1 + 3 * 2);
    for w in sleeps[1..].chunks(2) {
        assert!((5..=15).contains(&w[0]));
        assert_eq!(w[1], 5);
    }
}

#[test]
fn failed_restart_leaves_container_down() {
    let mut calls = 0;
    let (left, breaks, _) = run(FaultKind::Crash, &["s1", "s2", "s3"], |is_break, g| {
        if is_break {
            g.to_vec()
        } else {
            calls += 1;
            if calls == 1 { Vec::new() } else { g.to_vec() }
        }
    });
    assert_eq!(left.len(), 1);
    assert_eq!(breaks, 3);
}

#[test]
fn failed_kill_ends_the_round() {
    let (left, breaks, sleeps) = run(FaultKind::Crash, &["s1", "s2"], |is_break, g| {
        if is_break { Vec::new() } else { g.to_vec() }
    });
    assert!(left.is_empty());
    assert_eq!(breaks, 2);
    assert_eq!(sleeps, vec![2]);
}

#[test]
fn partition_rounds_track_unhealed_containers() {
    let (left, breaks, sleeps) = run(FaultKind::Partition, &["s1", "s2", "s3"], |is_break, g| {
        if is_break { g.to_vec() } else { Vec::new() }
    });
    assert_eq!(breaks, 3);
    assert!(!left.is_empty());
    assert_eq!(sleeps.iter().filter(|&&n| n == 10).count(), 3);
    let (left, _, _) = run(FaultKind::Partition, &["s1", "s2", "s3"], |_, g| g.to_vec());
    assert!(left.is_empty());
}

#[test]
fn quorum_loss_kills_a_majority_and_restarts_only_those_killed() {
    let mut killed: Vec<String> = Vec::new();
    let (left, breaks, _) = run(FaultKind::QuorumLoss, &["s1", "s2", "s3"], |is_break, g| {
        if is_break {
            assert_eq!(g.len(), 2);
            killed = g[..1].to_vec();
            killed.clone()
        } else {
            assert_eq!(g, killed.as_slice());
            g.to_vec()
        }
    });
    assert!(left.is_empty());
    assert_eq!(breaks, 3);
}

#[test]
fn quorum_loss_groups_are_distinct_live_majorities() {
    let mut rng = StdRng::seed_from_u64(3);
    let mut s = FaultRounds::new(FaultKind::QuorumLoss, v(&["s1", "s2", "s3", "s4", "s5"]));
    let mut ev = FaultEvent::Proceed;
    let mut down: Vec<String> = Vec::new();
    let mut groups = 0;
    let mut heals = 0;
    for _ in 0..1000 {
        let a = s.step(&mut rng, ev);
        ev = FaultEvent::Proceed;
        match a {
            FaultAction::Break(g) => {
                groups += 1;
                assert_eq!(g.len(), 3);
                let mut sorted = g.clone();
                sorted.sort();
                sorted.dedup();
                assert_eq!(sorted.len(), 3, "a kill group holds no container twice");
                assert!(g.iter().all(|c| !down.contains(c)), "only live containers are killed");
                down.extend(g.iter().cloned());
                ev = FaultEvent::Done(g);
            }
            FaultAction::Heal(g) => {
                heals += 1;
                // the first restart fails for every container; later ones succeed
                let restored = if heals == 1 { Vec::new() } else { g.clone() };
                down.retain(|c| !restored.contains(c));
                ev = FaultEvent::Done(restored);
            }
            FaultAction::Finish(left) => {
                let mut l = left.clone();
                l.sort();
                l.dedup();
                assert_eq!(l.len(), left.len(), "nothing is left down twice");
                assert_eq!(left.len(), 3);
                assert_eq!(groups, 1, "with three of five down, no later round finds a live majority");
                return;
            }
            _ => {}
        }
    }
    panic!("schedule did not finish");
}
