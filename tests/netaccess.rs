use penguin::netaccess::{
    ensure_new_access, net_access_from_rules, plan_access_update, NetAccess, RuleAction, RuleChange,
};
use penguin::startup::{server_ready, PollStep, StatusPoll, TRIES};
use penguin::unifi::{create_block_rule, TargetDevice, TrafficRule};

fn block(macs: &[&str], enabled: bool) -> TrafficRule {
    let mut r = TrafficRule::block_internet();
    r.enabled = enabled;
    r.target_devices = macs.iter().map(|m| TargetDevice::for_client_mac(m)).collect();
    r
}

#[test]
fn access_follows_last_block_rule() {
    let mut app_rule = TrafficRule::default();
    app_rule.enabled = true;
    app_rule.target_devices.push(TargetDevice::for_client_mac("cc"));
    let rules = vec![block(&["aa", "bb"], true), app_rule, block(&["bb"], false)];
    let config = vec![("aa".to_string(), 1234i64)];
    let all = net_access_from_rules(&rules, &config);
    assert_eq!(all.len(), 2);
    let aa = all.iter().find(|a| a.mac_address == "aa").unwrap();
    assert!(!aa.enabled);
    assert_eq!(aa.auto_disable_at, Some(1234));
    let bb = all.iter().find(|a| a.mac_address == "bb").unwrap();
    assert!(bb.enabled);
    assert_eq!(bb.auto_disable_at, None);
    assert!(all.iter().all(|a| a.mac_address != "cc"));
}

#[test]
fn update_toggles_sole_rule_and_splits_shared_rule() {
    let mut rules = vec![block(&["aa"], false), block(&["bb", "aa"], false), block(&["aa"], true), TrafficRule::default()];
    let actions = plan_access_update(&mut rules, "aa", true);
    assert_eq!(
        actions,
        vec![RuleAction { index: 0, change: RuleChange::Toggle }, RuleAction { index: 1, change: RuleChange::Split }]
    );
    assert!(rules[0].enabled);
    assert_eq!(rules[1].target_devices.len(), 1);
    assert_eq!(rules[1].target_devices[0].client_mac, "bb");
    assert!(!rules[1].enabled);
    assert!(rules[2].enabled);
    let separate = create_block_rule("aa", true);
    assert_eq!(separate.target_devices[0].client_mac, "aa");
}

#[test]
fn unchanged_flag_plans_nothing() {
    let mut rules = vec![block(&["aa"], true)];
    assert!(plan_access_update(&mut rules, "aa", true).is_empty());
    assert!(plan_access_update(&mut rules, "zz", false).is_empty());
}

#[test]
fn duplicate_access_is_refused() {
    let all = vec![NetAccess { mac_address: "aa".to_string(), enabled: true, auto_disable_at: None }];
    assert!(ensure_new_access(&all, &"aa".to_string()).is_err());
    assert!(ensure_new_access(&all, &"bb".to_string()).is_ok());
}

#[test]
fn status_poll_gives_up_after_all_tries() {
    let mut p = StatusPoll::new();
    assert_eq!(p.next(), PollStep::Probe { attempt: 1 });
    for _ in 1..TRIES {
        assert!(matches!(p.next(), PollStep::Probe { .. }));
    }
    assert_eq!(p.next(), PollStep::GiveUp);
    assert!(server_ready("OK"));
    assert!(!server_ready("OK\n"));
}

#[test]
fn access_lookup_by_mac() {
    let all = vec![
        NetAccess { mac_address: "aa".to_string(), enabled: true, auto_disable_at: None },
        NetAccess { mac_address: "bb".to_string(), enabled: false, auto_disable_at: Some(5) },
    ];
    assert_eq!(penguin::netaccess::find_access(&all, &"bb".to_string()), Some(1));
    assert_eq!(penguin::netaccess::find_access(&all, &"cc".to_string()), None);
}
