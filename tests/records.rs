use penguin::api::{check, is_blank, logs_for_client, other_clients, validate};
use penguin::config::{join_path, Conf, ConfigPaths, UnifiConfig};
use penguin::errors::MyError;
use penguin::list::{IdentifiedList, Identifiable, ManagedList};
use penguin::model::{Client, DomainList};
use penguin::squid::LogEntry;

fn client(id: Option<u32>, ip: &str, name: &str) -> Client {
    Client { id, ip: ip.to_string(), name: name.to_string(), rules: vec![], leases: vec![], mac_address: None }
}

fn entry(ip: &str) -> LogEntry {
    LogEntry {
        date: 0,
        response_time_millis: 1,
        client_ip: ip.to_string(),
        client_fqdn: ip.to_string(),
        status_code: "TCP_MISS/200".to_string(),
        request_size_bytes: 2,
        request_method: "GET".to_string(),
        request_url: "http://a/".to_string(),
        username: "-".to_string(),
        peer_fqdn: "-".to_string(),
        mime_type: "-".to_string(),
    }
}

#[test]
fn add_assigns_next_id() {
    let mut l = IdentifiedList::new(vec![client(Some(3), "a", "a"), client(Some(9), "b", "b")]);
    assert_eq!(l.max_id(), 9);
    let added = l.add(client(None, "c", "c"));
    assert_eq!(added.id, Some(10));
    assert_eq!(l.items.len(), 3);
    let mut empty: ManagedList<DomainList> = IdentifiedList::new(vec![]);
    assert_eq!(empty.add(DomainList { id: None, name: "x".to_string(), domains: vec![] }).id, Some(1));
}

#[test]
fn update_replaces_by_id() {
    let mut l = IdentifiedList::new(vec![client(Some(1), "a", "a"), client(Some(2), "b", "b")]);
    let r = l.update(2, client(None, "z", "zed")).unwrap();
    assert_eq!(r.id, Some(2));
    assert_eq!(r.name, "zed");
    assert_eq!(l.items[1].ip, "z");
    assert!(l.update(7, client(None, "q", "q")).is_none());
    assert_eq!(l.items.len(), 2);
}

#[test]
fn delete_removes_by_id() {
    let mut l = IdentifiedList::new(vec![client(Some(1), "a", "a"), client(Some(2), "b", "b")]);
    assert_eq!(l.delete(1).unwrap().name, "a");
    assert!(l.delete(1).is_none());
    assert_eq!(l.items.len(), 1);
    assert_eq!(l.get(2).unwrap().name, "b");
    assert!(l.get(1).is_none());
}

#[test]
fn ids_and_set_id() {
    let mut c = client(None, "a", "a");
    assert_eq!(c.id(), None);
    c.set_id(4);
    assert_eq!(c.id(), Some(4));
    let l = IdentifiedList::new(vec![client(Some(1), "a", "a"), client(None, "b", "b")]);
    assert!(!l.all_ids_assigned());
}

#[test]
fn validation_rules() {
    let stored = vec![client(Some(1), "10.0.0.1", "laptop"), client(Some(2), "10.0.0.2", "phone")];
    assert!(validate(&stored, &client(Some(3), "10.0.0.3", "tablet")).is_ok());
    assert!(validate(&stored, &client(Some(1), "10.0.0.1", "laptop")).is_ok());
    match validate(&stored, &client(None, "10.0.0.9", " \t ")) {
        Err(MyError::BadRequest(m)) => assert_eq!(m, "Client name must not be empty"),
        other => panic!("unexpected {:?}", other),
    }
    match validate(&stored, &client(Some(5), "10.0.0.2", "new")) {
        Err(MyError::BadRequest(m)) => assert_eq!(m, "A client with ip address '10.0.0.2' already exists."),
        other => panic!("unexpected {:?}", other),
    }
    match validate(&stored, &client(Some(5), "10.0.0.7", "phone")) {
        Err(MyError::BadRequest(m)) => assert_eq!(m, "A client with name 'phone' already exists."),
        other => panic!("unexpected {:?}", other),
    }
    assert_eq!(other_clients(&stored, &stored[0]).len(), 1);
    assert!(is_blank(""));
    assert!(!is_blank(" x "));
    assert!(check(false, "m".to_string()).is_ok());
    assert!(matches!(check(true, "m".to_string()), Err(MyError::BadRequest(_))));
}

#[test]
fn logs_of_one_client() {
    let clients = vec![client(Some(1), "10.0.0.1", "a"), client(Some(2), "10.0.0.2", "b")];
    let logs = vec![entry("10.0.0.1"), entry("10.0.0.2"), entry("10.0.0.1")];
    let mine = logs_for_client(logs, &clients, 1);
    assert_eq!(mine.len(), 2);
    assert!(mine.iter().all(|e| e.client_ip == "10.0.0.1"));
    let none = logs_for_client(vec![entry("10.0.0.1")], &clients, 9);
    assert!(none.is_empty());
}

#[test]
fn config_paths() {
    let conf = Conf {
        config_dir: "config".to_string(),
        squid_config_dir: "squid".to_string(),
        squid_log_dir: "logs".to_string(),
        hup_squid_daemon: false,
        require_auth: false,
        authorized_users: vec![],
        unifi: UnifiConfig::default(),
    };
    assert_eq!(conf.config_path(), "config");
    assert_eq!(conf.clients_json(), "config/clients.json");
    assert_eq!(conf.domains_json(), "config/domains.json");
    assert_eq!(conf.netaccess_json(), "config/netaccess.json");
    assert_eq!(join_path("/etc/", "a.json"), "/etc/a.json");
    assert_eq!(join_path("", "a.json"), "a.json");
    let p = ConfigPaths::new("/var/lib/penguin");
    assert_eq!(p.clients, "/var/lib/penguin/clients.json");
    assert_eq!(p.domains, "/var/lib/penguin/domains.json");
    let u = UnifiConfig::default();
    assert!(!u.enabled);
    assert_eq!(u.url, "https://192.168.1.1/");
}

#[test]
fn error_responses() {
    assert_eq!(MyError::NotFound.status_code(), 404);
    assert_eq!(MyError::NotFound.body(), "");
    assert_eq!(MyError::BadRequest("bad".to_string()).status_code(), 400);
    assert_eq!(MyError::BadRequest("bad".to_string()).body(), "bad");
    assert_eq!(MyError::Failed("disk".to_string()).status_code(), 500);
    assert_eq!(MyError::Failed("disk".to_string()).body(), "An internal error occurred: disk");
    assert_eq!(MyError::NotAuthorized.status_code(), 401);
}
