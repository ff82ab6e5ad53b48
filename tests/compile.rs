use penguin::compile::{compile, Artifact, CompileError};
use penguin::list::IdentifiedList;
use penguin::model::{Client, DomainList, Lease, Rule, RuleKind};
use penguin::text::{decimal_string, id_string, padded_id, NiceLineWriter};

fn client(id: u32, ip: &str, rules: Vec<Rule>, leases: Vec<Lease>) -> Client {
    Client {
        id: Some(id),
        ip: ip.to_string(),
        name: format!("c{}", id),
        rules,
        leases,
        mac_address: None,
    }
}

fn deny(lists: Vec<u32>) -> Rule {
    Rule { kind: RuleKind::DenyHttpAccess, domainlists: lists }
}

fn allow(lists: Vec<u32>) -> Rule {
    Rule { kind: RuleKind::AllowHttpAccess, domainlists: lists }
}

fn list(id: u32, domains: &[&str]) -> DomainList {
    DomainList { id: Some(id), name: format!("l{}", id), domains: domains.iter().map(|d| d.to_string()).collect() }
}

fn find<'a>(arts: &'a [Artifact], name: &str) -> Option<&'a Artifact> {
    arts.iter().find(|a| a.name == name)
}

const NOW: i64 = 1_700_000_000_000;

#[test]
fn ids_are_padded_to_four_digits() {
    assert_eq!(decimal_string(0), "0");
    assert_eq!(decimal_string(4096), "4096");
    assert_eq!(padded_id(7), "0007");
    assert_eq!(padded_id(42), "0042");
    assert_eq!(padded_id(123), "0123");
    assert_eq!(padded_id(12345), "12345");
    assert_eq!(id_string("client", 7), "client_0007");
    assert_eq!(id_string("domains", 3), "domains_0003");
}

#[test]
fn line_writer_appends_newlines() {
    let mut w = NiceLineWriter::new();
    w.writeln("a");
    w.writeln("b c");
    assert_eq!(w.into_string(), "a\nb c\n");
}

#[test]
fn ruleless_clients_get_no_artifact() {
    let clients = vec![client(1, "10.0.0.1", vec![], vec![]), client(2, "10.0.0.2", vec![deny(vec![3])], vec![])];
    let lists = vec![list(3, &["a.com"])];
    let arts = compile(&clients, &lists, NOW).unwrap();
    let names: Vec<&str> = arts.iter().map(|a| a.name.as_str()).collect();
    assert_eq!(names, vec!["client_0002.conf", "domains.conf"]);
    assert!(find(&arts, "client_0001.conf").is_none());
}

#[test]
fn client_seven_artifact_is_named_from_padded_id() {
    let clients = vec![client(7, "192.168.1.7", vec![allow(vec![])], vec![])];
    let arts = compile(&clients, &vec![], NOW).unwrap();
    assert_eq!(arts[0].name, "client_0007.conf");
    assert!(arts[0].name.contains("0007"));
    assert_eq!(arts[0].content, "acl client_0007 src 192.168.1.7\n");
}

#[test]
fn deny_rule_produces_deny_line() {
    let clients = vec![client(1, "10.0.0.1", vec![deny(vec![3])], vec![])];
    let lists = vec![list(3, &["a.com", "b.com"])];
    let arts = compile(&clients, &lists, NOW).unwrap();
    let c = find(&arts, "client_0001.conf").unwrap();
    assert_eq!(c.content, "acl client_0001 src 10.0.0.1\nhttp_access deny client_0001 domains_0003\n");
    assert!(c.content.contains("http_access deny client_0001 domains_0003"));
}

#[test]
fn active_lease_suppresses_deny_line() {
    let lease = Lease { end_date_utc: NOW + 60_000, rule: allow(vec![3]) };
    let clients = vec![client(1, "10.0.0.1", vec![deny(vec![3])], vec![lease])];
    let lists = vec![list(3, &["a.com"])];
    let arts = compile(&clients, &lists, NOW).unwrap();
    let c = find(&arts, "client_0001.conf").unwrap();
    assert_eq!(c.content, "acl client_0001 src 10.0.0.1\n");
    assert!(!c.content.contains("domains_0003"));
}

#[test]
fn expired_lease_has_no_effect() {
    let lease = Lease { end_date_utc: NOW - 1, rule: allow(vec![3]) };
    let clients = vec![client(1, "10.0.0.1", vec![deny(vec![3])], vec![lease])];
    let lists = vec![list(3, &["a.com"])];
    let arts = compile(&clients, &lists, NOW).unwrap();
    let c = find(&arts, "client_0001.conf").unwrap();
    assert!(c.content.contains("http_access deny client_0001 domains_0003\n"));
}

#[test]
fn lease_ending_exactly_now_has_no_effect() {
    let lease = Lease { end_date_utc: NOW, rule: allow(vec![3]) };
    let clients = vec![client(1, "10.0.0.1", vec![deny(vec![3])], vec![lease])];
    let lists = vec![list(3, &["a.com"])];
    let arts = compile(&clients, &lists, NOW).unwrap();
    assert!(find(&arts, "client_0001.conf").unwrap().content.contains("domains_0003"));
}

#[test]
fn deny_lease_does_not_allow() {
    let lease = Lease { end_date_utc: NOW + 1000, rule: deny(vec![3]) };
    let clients = vec![client(1, "10.0.0.1", vec![deny(vec![3, 4])], vec![lease])];
    let lists = vec![list(3, &["a.com"]), list(4, &["b.com"])];
    let arts = compile(&clients, &lists, NOW).unwrap();
    assert_eq!(
        find(&arts, "client_0001.conf").unwrap().content,
        "acl client_0001 src 10.0.0.1\nhttp_access deny client_0001 domains_0003\nhttp_access deny client_0001 domains_0004\n"
    );
}

#[test]
fn no_domain_lists_gives_comment_only_shared_artifact() {
    let arts = compile(&vec![], &vec![], NOW).unwrap();
    let d = find(&arts, "domains.conf").unwrap();
    assert_eq!(d.content, "# This file will be populated with penguin domains\n");
}

#[test]
fn shared_artifact_lists_domains_in_order() {
    let lists = vec![list(2, &["x.org", "y.org"]), list(10, &[])];
    let arts = compile(&vec![], &lists, NOW).unwrap();
    assert_eq!(
        find(&arts, "domains.conf").unwrap().content,
        "acl domains_0002 dstdomain x.org y.org\nacl domains_0010 dstdomain \n"
    );
}

#[test]
fn placeholder_only_when_no_client_qualifies() {
    let arts = compile(&vec![client(1, "10.0.0.1", vec![], vec![])], &vec![], NOW).unwrap();
    assert_eq!(arts.len(), 2);
    assert_eq!(arts[0].name, "client_dummy.conf");
    assert_eq!(arts[0].content, "# This file is intentionally left blank.\n");
    let arts = compile(&vec![client(1, "10.0.0.1", vec![deny(vec![])], vec![])], &vec![], NOW).unwrap();
    assert!(find(&arts, "client_dummy.conf").is_none());
}

#[test]
fn compile_is_deterministic() {
    let clients = vec![client(1, "10.0.0.1", vec![deny(vec![3])], vec![])];
    let lists = vec![list(3, &["a.com"])];
    let a = compile(&clients, &lists, NOW).unwrap();
    let b = compile(&clients, &lists, NOW + 5).unwrap();
    assert_eq!(a.len(), b.len());
    for (x, y) in a.iter().zip(b.iter()) {
        assert_eq!(x.name, y.name);
        assert_eq!(x.content, y.content);
    }
}

#[test]
fn unknown_domain_list_is_reported() {
    let clients = vec![client(5, "10.0.0.5", vec![deny(vec![9])], vec![])];
    let err = compile(&clients, &vec![list(3, &["a.com"])], NOW).unwrap_err();
    assert_eq!(err, CompileError::UnknownDomainList { client: 5, list: 9 });
}

#[test]
fn unknown_but_allowed_list_is_no_error() {
    let lease = Lease { end_date_utc: NOW + 1, rule: allow(vec![9]) };
    let clients = vec![client(5, "10.0.0.5", vec![deny(vec![9])], vec![lease])];
    assert!(compile(&clients, &vec![], NOW).is_ok());
}

#[test]
fn missing_ids_are_reported() {
    let mut c = client(1, "10.0.0.1", vec![deny(vec![])], vec![]);
    c.id = None;
    assert_eq!(compile(&vec![c], &vec![], NOW).unwrap_err(), CompileError::ClientWithoutId { index: 0 });
    let mut l = list(1, &[]);
    l.id = None;
    assert_eq!(compile(&vec![], &vec![l], NOW).unwrap_err(), CompileError::DomainListWithoutId { index: 0 });
}

#[test]
fn generate_compiles_at_current_time() {
    let clients = IdentifiedList::new(vec![client(1, "10.0.0.1", vec![deny(vec![3])], vec![])]);
    let lists = IdentifiedList::new(vec![list(3, &["a.com"])]);
    let (now, r) = penguin::compile::generate_squid_config(&clients, &lists);
    assert!(now > NOW);
    let arts = r.unwrap();
    assert_eq!(arts.len(), 2);
    assert_eq!(arts[0].name, "client_0001.conf");
}
