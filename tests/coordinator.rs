use penguin::compile::compile;
use penguin::coordinator::{Coordinator, Event};
use penguin::model::{Client, DomainList, Lease, Rule, RuleKind};
use penguin::sweep::{possibly_expire_leases, sweep_expired_leases};

fn client_with_leases(id: u32, ends: &[i64]) -> Client {
    Client {
        id: Some(id),
        ip: format!("10.0.0.{}", id),
        name: format!("c{}", id),
        rules: vec![],
        leases: ends
            .iter()
            .map(|e| Lease { end_date_utc: *e, rule: Rule { kind: RuleKind::AllowHttpAccess, domainlists: vec![1] } })
            .collect(),
        mac_address: None,
    }
}

/// Stands in for the coordinator: counts what the sweeper asks of it.
struct CountingCoordinator {
    requests: usize,
}

fn tick(clients: &mut Vec<Client>, now: i64, stub: &mut CountingCoordinator) {
    if sweep_expired_leases(clients, now) {
        stub.requests += 1;
    }
}

#[test]
fn quiet_tick_requests_nothing() {
    let mut clients = vec![client_with_leases(1, &[200, 300]), client_with_leases(2, &[])];
    let mut stub = CountingCoordinator { requests: 0 };
    tick(&mut clients, 100, &mut stub);
    assert_eq!(stub.requests, 0);
    assert_eq!(clients[0].leases.len(), 2);
}

#[test]
fn expired_leases_are_removed_and_regeneration_requested() {
    let mut clients = vec![client_with_leases(1, &[50, 200, 100]), client_with_leases(2, &[10])];
    let mut stub = CountingCoordinator { requests: 0 };
    tick(&mut clients, 100, &mut stub);
    assert_eq!(stub.requests, 1);
    let ends: Vec<i64> = clients[0].leases.iter().map(|l| l.end_date_utc).collect();
    assert_eq!(ends, vec![200]);
    assert!(clients[1].leases.is_empty());
    assert_eq!(clients[1].name, "c2");
}

#[test]
fn sweep_at_current_time_removes_past_leases() {
    let mut clients = vec![client_with_leases(1, &[0, i64::MAX])];
    let (now, changed) = possibly_expire_leases(&mut clients);
    assert!(now > 0);
    assert!(changed);
    assert_eq!(clients[0].leases.len(), 1);
}

#[test]
fn five_requests_run_one_cycle_at_a_time() {
    let mut c = Coordinator::new(10);
    for _ in 0..5 {
        assert!(c.request_regeneration());
    }
    assert_eq!(c.pending_len(), 5);
    let mut cycles = 0;
    while let Some(e) = c.start_cycle() {
        assert_eq!(e, Event::GenerateConfiguration);
        assert!(c.is_busy());
        assert!(c.start_cycle().is_none());
        assert!(c.request_regeneration() || c.pending_len() == 10);
        c.finish_cycle(true);
        cycles += 1;
        if cycles == 5 {
            break;
        }
    }
    assert_eq!(cycles, 5);
    assert_eq!(c.generation(), 5);
    assert!(!c.is_busy());
}

#[test]
fn full_queue_drops_requests() {
    let mut c = Coordinator::new(10);
    for _ in 0..10 {
        assert!(c.request_regeneration());
    }
    assert!(!c.request_regeneration());
    assert_eq!(c.pending_len(), 10);
}

#[test]
fn failed_cycle_keeps_generation() {
    let mut c = Coordinator::new(1);
    assert!(c.request_regeneration());
    assert!(c.start_cycle().is_some());
    assert_eq!(c.finish_cycle(false), 0);
    assert_eq!(c.generation(), 0);
    assert!(c.start_cycle().is_none());
}

#[test]
fn sweeping_does_not_change_what_compiles() {
    let mut c = client_with_leases(1, &[50, 500]);
    c.rules = vec![Rule { kind: RuleKind::DenyHttpAccess, domainlists: vec![1, 2] }];
    c.leases[0].rule.domainlists = vec![2];
    let lists = vec![
        DomainList { id: Some(1), name: "a".to_string(), domains: vec!["a.com".to_string()] },
        DomainList { id: Some(2), name: "b".to_string(), domains: vec!["b.com".to_string()] },
    ];
    let mut clients = vec![c];
    let before = compile(&clients, &lists, 100).unwrap();
    assert!(sweep_expired_leases(&mut clients, 100));
    let after = compile(&clients, &lists, 100).unwrap();
    assert_eq!(before.len(), after.len());
    for (x, y) in before.iter().zip(after.iter()) {
        assert_eq!(x.name, y.name);
        assert_eq!(x.content, y.content);
    }
    assert_eq!(after[0].content, "acl client_0001 src 10.0.0.1\nhttp_access deny client_0001 domains_0002\n");
}
