//! Tests of the session actor: the mutual-life invariant, the single
//! terminal event, idempotent stop, and health-check gating.

use candyconnect::errors::Error;
use candyconnect::session::{
    plan_start, stop_vpn_plan, Action, Member, Os, Role, Session, SpawnOutcome, StartResult,
    StopAction,
};

fn three_member_session() -> Session {
    Session {
        members: vec![
            Member { role: Role::DnsttClient, pid: 101, living: true },
            Member { role: Role::SshTunnel, pid: 202, living: true },
            Member { role: Role::SingBox, pid: 303, living: true },
        ],
        disconnect_emitted: false,
    }
}

#[test]
fn s5_one_exit_kills_companions_and_emits_once() {
    let mut s = three_member_session();
    let actions = s.on_member_exit(1);
    assert_eq!(
        actions,
        vec![
            Action::JoinReaders(1),
            Action::LogExit(1),
            Action::Kill(101),
            Action::Kill(303),
            Action::EmitDisconnected,
        ]
    );
    assert!(s.members.iter().all(|m| !m.living));
    assert!(s.disconnect_emitted);

    // The companions' own watchers fire next; they kill no one (all dead)
    // and emit nothing more.
    let later = s.on_member_exit(0);
    assert_eq!(later, vec![Action::JoinReaders(0), Action::LogExit(0)]);
    let last = s.on_member_exit(2);
    assert_eq!(last, vec![Action::JoinReaders(2), Action::LogExit(2)]);
}

#[test]
fn exit_plan_emits_after_all_output_is_flushed() {
    let mut s = three_member_session();
    let actions = s.on_member_exit(0);
    let join = actions
        .iter()
        .position(|a| matches!(a, Action::JoinReaders(_)))
        .expect("join comes first");
    let emit = actions
        .iter()
        .position(|a| matches!(a, Action::EmitDisconnected))
        .expect("one emission");
    assert!(join < emit);
    assert_eq!(emit, actions.len() - 1);
    assert_eq!(
        actions.iter().filter(|a| matches!(a, Action::EmitDisconnected)).count(),
        1
    );
}

#[test]
fn stop_is_idempotent_and_covers_every_helper() {
    for _ in 0..5 {
        let plan = stop_vpn_plan(Os::Linux);
        let names: Vec<Vec<u8>> = plan
            .iter()
            .filter_map(|a| match a {
                StopAction::KillByName(n) => Some(n.clone()),
                _ => None,
            })
            .collect();
        assert!(names.contains(&b"xray".to_vec()));
        assert!(names.contains(&b"sing-box".to_vec()));
        assert!(names.contains(&b"dnstt-client".to_vec()));
        assert!(names.contains(&b"openvpn".to_vec()));
        assert!(names.contains(&b"xl2tpd".to_vec()));
    }

    let win = stop_vpn_plan(Os::Windows);
    let profiles: Vec<Vec<u8>> = win
        .iter()
        .filter_map(|a| match a {
            StopAction::NativeDisconnect(n) => Some(n.clone()),
            _ => None,
        })
        .collect();
    assert_eq!(profiles, vec![b"CandyConnect-L2TP".to_vec(), b"CandyConnect-IKEv2".to_vec()]);

    let mut s = three_member_session();
    s.stop();
    let after_first: Vec<bool> = s.members.iter().map(|m| m.living).collect();
    s.stop();
    let after_second: Vec<bool> = s.members.iter().map(|m| m.living).collect();
    assert_eq!(after_first, vec![false, false, false]);
    assert_eq!(after_first, after_second);
    assert!(!s.disconnect_emitted);
}

#[test]
fn all_healthy_members_become_the_session() {
    let roles = vec![Role::Xray, Role::SingBox];
    let outcomes = vec![SpawnOutcome::Healthy(11), SpawnOutcome::Healthy(22)];
    match plan_start(&roles, &outcomes) {
        StartResult::Started(s) => {
            assert_eq!(s.members.len(), 2);
            assert_eq!(s.members[0].pid, 11);
            assert_eq!(s.members[1].pid, 22);
            assert!(s.members.iter().all(|m| m.living));
            assert!(!s.disconnect_emitted);
        }
        StartResult::Failed(_) => panic!("healthy chain must start"),
    }
}

#[test]
fn health_check_failure_rolls_back_without_event() {
    let roles = vec![Role::DnsttClient, Role::SshTunnel, Role::SingBox];
    let outcomes = vec![
        SpawnOutcome::Healthy(101),
        SpawnOutcome::Healthy(202),
        SpawnOutcome::ExitedEarly(1),
    ];
    match plan_start(&roles, &outcomes) {
        StartResult::Failed(f) => {
            assert_eq!(f.failed_index, 2);
            assert_eq!(f.kills, vec![101, 202]);
            assert!(matches!(f.error, Error::HealthCheckError(1)));
        }
        StartResult::Started(_) => panic!("a failing member must abort the start"),
    }
}

#[test]
fn spawn_failure_names_the_helper() {
    let roles = vec![Role::Xray, Role::SingBox];
    let outcomes = vec![SpawnOutcome::Healthy(11), SpawnOutcome::FailedToSpawn];
    match plan_start(&roles, &outcomes) {
        StartResult::Failed(f) => {
            assert_eq!(f.failed_index, 1);
            assert_eq!(f.kills, vec![11]);
            match f.error {
                Error::SpawnError(name) => assert_eq!(name, b"sing-box".to_vec()),
                _ => panic!("expected a spawn error"),
            }
        }
        StartResult::Started(_) => panic!("a failed spawn must abort the start"),
    }
}

#[test]
fn first_member_failure_kills_nothing() {
    let roles = vec![Role::Xray];
    let outcomes = vec![SpawnOutcome::ExitedEarly(127)];
    match plan_start(&roles, &outcomes) {
        StartResult::Failed(f) => {
            assert_eq!(f.failed_index, 0);
            assert!(f.kills.is_empty());
        }
        StartResult::Started(_) => panic!(),
    }
}
