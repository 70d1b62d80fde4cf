use bldr_core::config::ConfigStore;
use bldr_core::control::{LoopAction, SupervisorLoop};
use bldr_core::election::{Group, Role};
use bldr_core::process::{ProcAction, ProcEvent, ProcState, ProcessSupervisor};
use bldr_core::render::{render, Template};

fn template_of(keys: &[&str]) -> Template {
    Template { keys: keys.iter().map(|k| k.to_string()).collect() }
}

fn leader_count(g: &Group) -> usize {
    g.peers.iter().filter(|p| p.alive && p.role == Role::Leader).count()
}

fn follower_count(g: &Group) -> usize {
    g.peers.iter().filter(|p| p.alive && p.role == Role::Follower).count()
}

#[test]
fn store_revisions_never_decrease() {
    let mut store = ConfigStore::new();
    assert!(store.apply("setting".to_string(), "sepultura".to_string(), 3));
    assert_eq!(store.revision, 3);
    // A stale revision for the same key is rejected and nothing regresses.
    assert!(!store.apply("setting".to_string(), "older".to_string(), 2));
    assert_eq!(store.revision, 3);
    assert_eq!(store.get(&"setting".to_string()), Some(&"sepultura".to_string()));
    // A newer revision is accepted.
    assert!(store.apply("setting".to_string(), "against me!".to_string(), 5));
    assert_eq!(store.revision, 5);
    assert_eq!(store.get(&"setting".to_string()), Some(&"against me!".to_string()));
}

#[test]
fn store_duplicate_delivery_is_idempotent() {
    let mut once = ConfigStore::new();
    once.apply("setting".to_string(), "sepultura".to_string(), 7);

    let mut twice = ConfigStore::new();
    twice.apply("setting".to_string(), "sepultura".to_string(), 7);
    assert!(!twice.apply("setting".to_string(), "sepultura".to_string(), 7));

    assert_eq!(once.revision, twice.revision);
    assert_eq!(once.entries.len(), twice.entries.len());
    assert_eq!(once.get(&"setting".to_string()), twice.get(&"setting".to_string()));
}

#[test]
fn store_revision_is_strictly_increasing() {
    let mut store = ConfigStore::new();
    assert!(store.apply("a".to_string(), "1".to_string(), 10));
    // A replayed event with an older revision is dropped whatever its key,
    // so the snapshot revision strictly increases and never regresses.
    assert!(!store.apply("b".to_string(), "2".to_string(), 4));
    assert_eq!(store.get(&"b".to_string()), None);
    assert_eq!(store.revision, 10);
    assert!(store.apply("b".to_string(), "3".to_string(), 11));
    assert_eq!(store.get(&"a".to_string()), Some(&"1".to_string()));
    assert_eq!(store.get(&"b".to_string()), Some(&"3".to_string()));
    assert!(store.changed_since(10));
    assert!(!store.changed_since(11));
}

#[test]
fn three_peers_elect_exactly_one_leader() {
    let mut g = Group::new(30);
    assert!(g.join(1));
    assert!(g.join(2));
    assert!(g.join(3));
    assert!(!g.join(2));
    let leader = g.elect();
    assert!(leader.is_some());
    assert_eq!(leader_count(&g), 1);
    assert_eq!(follower_count(&g), 2);
    // The winner holds the lease for term 1.
    let f = leader.unwrap();
    assert_eq!(g.peers[f].term, 1);
    let lease = g.key.lease.unwrap();
    assert_eq!(lease.holder, g.peers[f].id);
    assert_eq!(lease.term, 1);
}

#[test]
fn claims_while_lease_live_are_lost() {
    let mut g = Group::new(30);
    g.join(1);
    g.join(2);
    let f = g.elect().unwrap();
    // The lease is live: every re-attempt by the other peer loses.
    let other = 1 - f;
    let won = g.attempt_claim(other);
    assert!(!won);
    assert_eq!(g.peers[other].role, Role::Follower);
    assert_eq!(leader_count(&g), 1);
    assert_eq!(g.key.last_term, 1);
}

#[test]
fn leader_refresh_keeps_role_and_term() {
    let mut g = Group::new(30);
    g.join(1);
    g.join(2);
    let f = g.elect().unwrap();
    g.advance(10);
    // The leader refreshes its live lease: no role change is emitted.
    let change = g.tick(f);
    assert_eq!(change, None);
    assert_eq!(g.peers[f].role, Role::Leader);
    assert_eq!(g.peers[f].term, 1);
    assert_eq!(g.key.lease.unwrap().expires_at, 40);
    // A follower watching a live lease emits nothing either.
    let other = 1 - f;
    assert_eq!(g.tick(other), None);
    assert_eq!(g.peers[other].role, Role::Follower);
}

#[test]
fn failover_after_leader_crash_is_bounded() {
    let mut g = Group::new(30);
    g.join(1);
    g.join(2);
    g.join(3);
    let f = g.elect().unwrap();
    // The leader crashes; its lease lapses after at most the TTL.
    g.crash(f);
    g.advance(30);
    // One retry round later, exactly one survivor is the new leader.
    let newf = g.elect();
    assert!(newf.is_some());
    let newf = newf.unwrap();
    assert_ne!(newf, f);
    assert_eq!(leader_count(&g), 1);
    assert_eq!(g.peers[newf].term, 2);
}

#[test]
fn graceful_release_hands_leadership_over() {
    let mut g = Group::new(30);
    g.join(1);
    g.join(2);
    let f = g.elect().unwrap();
    // Graceful resignation releases the key at once: no TTL wait is needed.
    assert!(g.release(f));
    assert!(g.key.lease.is_none());
    assert_eq!(g.peers[f].role, Role::Candidate);
    let other = 1 - f;
    let won = g.attempt_claim(other);
    assert!(won);
    assert_eq!(g.peers[other].role, Role::Leader);
    assert_eq!(g.peers[other].term, 2);
}

#[test]
fn stale_leader_confirms_loss_before_acting() {
    let mut g = Group::new(30);
    g.join(1);
    g.join(2);
    let f = g.elect().unwrap();
    let other = 1 - f;
    // The leader goes silent past its TTL; the other peer takes over.
    g.advance(31);
    let won = g.attempt_claim(other);
    assert!(won);
    // When the stale leader next checks, it finds the lease held elsewhere
    // and downgrades instead of continuing as leader.
    let change = g.tick(f);
    assert_eq!(change, Some(Role::Candidate));
    assert_eq!(leader_count(&g), 1);
}

#[test]
fn ambiguous_claim_failure_never_grants_leadership() {
    let mut g = Group::new(30);
    g.join(1);
    g.join(2);
    // Peer 0's claim is answered by a backend failure: the safe default is
    // to settle as Follower, never to assume leadership.
    g.claim_error(0);
    assert_eq!(g.peers[0].role, Role::Follower);
    assert_eq!(leader_count(&g), 0);
    assert!(g.key.lease.is_none());
    // The key is untouched, so a later clean attempt still wins term 1.
    assert!(g.attempt_claim(0));
    assert_eq!(g.peers[0].term, 1);
}

#[test]
fn render_is_deterministic() {
    let t = template_of(&["setting"]);
    let mut store = ConfigStore::new();
    store.apply("setting".to_string(), "sepultura".to_string(), 1);
    let snap = store.current();
    let a1 = render(&t, &snap, Role::Leader).unwrap();
    let a2 = render(&t, &snap, Role::Leader).unwrap();
    assert_eq!(a1.hash, a2.hash);
    assert_eq!(a1.content, a2.content);
    assert_eq!(a1.content, b"role: leader\nsetting: sepultura\n".to_vec());
}

#[test]
fn content_hash_is_fnv1a() {
    let t = template_of(&["setting"]);
    let mut store = ConfigStore::new();
    store.apply("setting".to_string(), "sepultura".to_string(), 1);
    let artifact = render(&t, &store.current(), Role::Leader).unwrap();
    // 64-bit FNV-1a of "role: leader\nsetting: sepultura\n".
    assert_eq!(artifact.hash, 0xfee17cbd00780e29);
}

#[test]
fn render_differs_when_inputs_differ() {
    let t = template_of(&["setting"]);
    let mut store = ConfigStore::new();
    store.apply("setting".to_string(), "sepultura".to_string(), 1);
    let snap = store.current();
    let leader = render(&t, &snap, Role::Leader).unwrap();
    let follower = render(&t, &snap, Role::Follower).unwrap();
    assert_eq!(follower.content, b"role: follower\nsetting: sepultura\n".to_vec());
    assert_ne!(leader.content, follower.content);
    assert_ne!(leader.hash, follower.hash);
}

#[test]
fn render_missing_key_names_it() {
    let t = template_of(&["setting", "port"]);
    let mut store = ConfigStore::new();
    store.apply("setting".to_string(), "sepultura".to_string(), 1);
    let err = render(&t, &store.current(), Role::Leader).unwrap_err();
    assert_eq!(err.key, "port".to_string());
}

#[test]
fn loop_restarts_only_on_real_change() {
    let mut sup = SupervisorLoop::new(template_of(&["setting"]), Role::Leader);
    // First good config: a restart onto the rendered artifact.
    let action = sup.on_config_update("setting".to_string(), "sepultura".to_string(), 1);
    let hash1 = match action {
        LoopAction::Restart(a) => {
            assert_eq!(a.content, b"role: leader\nsetting: sepultura\n".to_vec());
            a.hash
        }
        LoopAction::Nothing => panic!("expected a restart"),
    };
    assert_eq!(sup.restarts, 1);
    assert_eq!(sup.running_hash, Some(hash1));
    // Duplicate delivery: the store is unchanged, zero restart commands.
    let action = sup.on_config_update("setting".to_string(), "sepultura".to_string(), 1);
    assert!(matches!(action, LoopAction::Nothing));
    assert_eq!(sup.restarts, 1);
    // A real update: exactly one more restart, with the new content.
    let action = sup.on_config_update("setting".to_string(), "against me!".to_string(), 2);
    match action {
        LoopAction::Restart(a) => {
            assert_eq!(a.content, b"role: leader\nsetting: against me!\n".to_vec());
            assert_ne!(a.hash, hash1);
        }
        LoopAction::Nothing => panic!("expected a restart"),
    }
    assert_eq!(sup.restarts, 2);
}

#[test]
fn loop_keeps_previous_artifact_on_bad_render() {
    let mut sup = SupervisorLoop::new(template_of(&["setting", "port"]), Role::Leader);
    // The snapshot lacks `port`: the render fails, nothing restarts.
    let action = sup.on_config_update("setting".to_string(), "sepultura".to_string(), 1);
    assert!(matches!(action, LoopAction::Nothing));
    assert_eq!(sup.restarts, 0);
    assert_eq!(sup.running_hash, None);
    // Once `port` arrives the render succeeds and the restart carries both.
    let action = sup.on_config_update("port".to_string(), "9631".to_string(), 2);
    match action {
        LoopAction::Restart(a) => {
            assert_eq!(a.content, b"role: leader\nsetting: sepultura\nport: 9631\n".to_vec());
        }
        LoopAction::Nothing => panic!("expected a restart"),
    }
}

#[test]
fn loop_suppresses_duplicate_role_events() {
    let mut sup = SupervisorLoop::new(template_of(&["setting"]), Role::Follower);
    sup.on_config_update("setting".to_string(), "sepultura".to_string(), 1);
    let restarts = sup.restarts;
    // The same role again is a duplicate event: no render, no restart.
    let action = sup.on_role_change(Role::Follower);
    assert!(matches!(action, LoopAction::Nothing));
    assert_eq!(sup.restarts, restarts);
    // A genuine change re-renders with the new role line.
    let action = sup.on_role_change(Role::Leader);
    match action {
        LoopAction::Restart(a) => {
            assert_eq!(a.content, b"role: leader\nsetting: sepultura\n".to_vec());
        }
        LoopAction::Nothing => panic!("expected a restart"),
    }
}

#[test]
fn process_lifecycle_follows_commands() {
    let mut p = ProcessSupervisor::new(8);
    let (action, report) = p.handle(ProcEvent::Start { hash: 11 });
    assert_eq!(action, ProcAction::Spawn { generation: 1, hash: 11 });
    assert_eq!(report, None);
    assert_eq!(p.state, ProcState::Running { hash: 11 });
    // A graceful restart signals the child and waits.
    let (action, _) = p.handle(ProcEvent::Restart { hash: 22, now: 100 });
    assert_eq!(action, ProcAction::SignalTerm { generation: 1 });
    // The child exits in time: the next generation spawns the new artifact.
    let (action, report) = p.handle(ProcEvent::ChildExited { status: 0 });
    assert_eq!(action, ProcAction::Spawn { generation: 2, hash: 22 });
    assert_eq!(report, None);
    assert_eq!(p.state, ProcState::Running { hash: 22 });
}

#[test]
fn process_force_kills_after_grace() {
    let mut p = ProcessSupervisor::new(8);
    p.handle(ProcEvent::Start { hash: 11 });
    p.handle(ProcEvent::Restart { hash: 22, now: 100 });
    // Before the deadline nothing is forced.
    let (action, _) = p.handle(ProcEvent::TimePassed { now: 107 });
    assert_eq!(action, ProcAction::Nothing);
    // At the deadline the kill is forced, exactly once.
    let (action, _) = p.handle(ProcEvent::TimePassed { now: 108 });
    assert_eq!(action, ProcAction::ForceKill { generation: 1 });
    let (action, _) = p.handle(ProcEvent::TimePassed { now: 109 });
    assert_eq!(action, ProcAction::Nothing);
    // The killed child's exit still spawns the next generation.
    let (action, _) = p.handle(ProcEvent::ChildExited { status: 9 });
    assert_eq!(action, ProcAction::Spawn { generation: 2, hash: 22 });
}

#[test]
fn process_reports_unexpected_exit() {
    let mut p = ProcessSupervisor::new(8);
    p.handle(ProcEvent::Start { hash: 11 });
    let (action, report) = p.handle(ProcEvent::ChildExited { status: 137 });
    assert_eq!(action, ProcAction::Nothing);
    assert_eq!(report, Some(137));
    assert_eq!(p.state, ProcState::Idle);
}

#[test]
fn leader_topology_scenario() {
    // Three peers join the "leader" topology.
    let mut g = Group::new(30);
    g.join(1);
    g.join(2);
    g.join(3);
    let f = g.elect().unwrap();
    assert_eq!(leader_count(&g), 1);
    assert_eq!(follower_count(&g), 2);

    // Each peer runs its own control loop under its reported role.
    let mut loops: Vec<SupervisorLoop> = (0..3)
        .map(|i| {
            let role = g.peers[i].role;
            SupervisorLoop::new(template_of(&["setting"]), role)
        })
        .collect();

    // The config key arrives at every peer: all render the same setting.
    for sup in loops.iter_mut() {
        let action = sup.on_config_update("setting".to_string(), "sepultura".to_string(), 1);
        match action {
            LoopAction::Restart(a) => {
                let text = String::from_utf8(a.content).unwrap();
                assert!(text.contains("setting: sepultura"));
            }
            LoopAction::Nothing => panic!("expected a restart"),
        }
    }

    // The value is updated: all three converge on the new value.
    for sup in loops.iter_mut() {
        let action = sup.on_config_update("setting".to_string(), "against me!".to_string(), 2);
        match action {
            LoopAction::Restart(a) => {
                let text = String::from_utf8(a.content).unwrap();
                assert!(text.contains("setting: against me!"));
            }
            LoopAction::Nothing => panic!("expected a restart"),
        }
    }

    // The leader terminates; after the bounded window exactly one of the
    // remaining two peers is the new leader.
    g.crash(f);
    g.advance(31);
    let newf = g.elect().unwrap();
    assert_ne!(newf, f);
    assert_eq!(leader_count(&g), 1);
    assert_eq!(follower_count(&g), 1);
}
