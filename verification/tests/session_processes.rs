use gatedesk::sessions::{
    connect_sessions, disconnect_api_sessions, process_created, terminate_pid, ConnectSession,
    DisconnectAction, DisconnectEvent, Platform, ProcessProbe,
};

fn session(id: &str, pid: u32, created: u64) -> ConnectSession {
    ConnectSession { id: id.to_string(), pid, created }
}

#[test]
fn alive_compares_creation_times() {
    let s = session("1", 10, 500);
    assert!(!s.alive(None));
    assert!(s.alive(Some(500)));
    assert!(!s.alive(Some(501)));
    let unknown = session("1", 10, 0);
    assert!(unknown.alive(Some(12345)));
    assert!(!unknown.alive(None));
}

#[test]
fn creation_time_joins_the_filetime_halves() {
    assert_eq!(process_created(ProcessProbe::Gone), None);
    assert_eq!(process_created(ProcessProbe::Running), Some(0));
    assert_eq!(process_created(ProcessProbe::Times { high: 1, low: 2 }), Some((1u64 << 32) | 2));
    assert_eq!(
        process_created(ProcessProbe::Times { high: 0x01DA_0000, low: 0xFFFF_FFFF }),
        Some(0x01DA_0000_FFFF_FFFF)
    );
}

#[test]
fn terminate_commands_per_platform() {
    let c = terminate_pid(4321, Platform::Windows).unwrap();
    assert_eq!(c.program, "taskkill");
    assert_eq!(c.args, vec!["/PID", "4321", "/T", "/F"]);
    let c = terminate_pid(7, Platform::Unix).unwrap();
    assert_eq!(c.program, "kill");
    assert_eq!(c.args, vec!["-TERM", "7"]);
    assert!(terminate_pid(7, Platform::Other).is_none());
}

#[test]
fn prune_keeps_only_live_records_in_order() {
    let mut reg = connect_sessions();
    assert!(reg.last_peer().is_none());
    reg.add(session("a", 1, 100));
    reg.add(session("b", 2, 200));
    reg.add(session("c", 3, 0));
    reg.add(session("d", 4, 400));
    reg.prune(&vec![Some(100), None, Some(9), Some(401)]);
    let ids: Vec<&str> = reg.sessions.iter().map(|s| s.id.as_str()).collect();
    assert_eq!(ids, vec!["a", "c"]);
    assert_eq!(reg.last_peer(), Some("c".to_string()));
}

#[test]
fn disconnect_walk_closes_live_sessions_only() {
    let mut reg = connect_sessions();
    reg.add(session("ended", 1, 100));
    reg.add(session("closed", 2, 200));
    reg.add(session("stubborn", 3, 300));
    reg.add(session("reused", 4, 400));
    let mut walk = disconnect_api_sessions(&mut reg);
    assert!(reg.sessions.is_empty());

    let mut terminated: Vec<u32> = Vec::new();
    let mut action = walk.next_action();
    let mut steps = 0;
    let closed = loop {
        steps += 1;
        assert!(steps <= 8);
        action = match action {
            DisconnectAction::Probe { pid } => {
                let now = match pid {
                    1 => None,
                    2 => Some(200),
                    3 => Some(300),
                    _ => Some(999),
                };
                walk.step(DisconnectEvent::Probed(now))
            },
            DisconnectAction::Terminate { pid } => {
                terminated.push(pid);
                walk.step(DisconnectEvent::Terminated(pid == 2))
            },
            DisconnectAction::Finished { closed } => break closed,
        };
    };
    assert_eq!(closed, 1);
    assert_eq!(terminated, vec![2, 3]);
    reg.sessions = walk.into_remaining();
    let ids: Vec<&str> = reg.sessions.iter().map(|s| s.id.as_str()).collect();
    assert_eq!(ids, vec!["stubborn"]);
}

#[test]
fn a_report_that_does_not_answer_changes_nothing() {
    let mut reg = connect_sessions();
    reg.add(session("x", 5, 50));
    let mut walk = disconnect_api_sessions(&mut reg);
    assert!(matches!(walk.next_action(), DisconnectAction::Probe { pid: 5 }));
    assert!(matches!(walk.step(DisconnectEvent::Terminated(true)), DisconnectAction::Probe { pid: 5 }));
    assert!(matches!(walk.step(DisconnectEvent::Probed(Some(50))), DisconnectAction::Terminate { pid: 5 }));
    assert!(matches!(walk.step(DisconnectEvent::Probed(Some(50))), DisconnectAction::Terminate { pid: 5 }));
    assert!(matches!(walk.step(DisconnectEvent::Terminated(true)), DisconnectAction::Finished { closed: 1 }));
    assert!(matches!(walk.step(DisconnectEvent::Terminated(true)), DisconnectAction::Finished { closed: 1 }));
    assert!(walk.into_remaining().is_empty());
}

#[test]
fn disconnecting_nothing_finishes_at_once() {
    let mut reg = connect_sessions();
    let walk = disconnect_api_sessions(&mut reg);
    assert!(matches!(walk.next_action(), DisconnectAction::Finished { closed: 0 }));
}
