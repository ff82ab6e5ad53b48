use std::collections::BTreeMap;

use penguin::compile::{compile, Artifact};
use penguin::coordinator::Coordinator;
use penguin::deploy::{DeployOutcome, DeployStep, Deployment};
use penguin::file::{backup_path, get_parent_or_die};
use penguin::model::{Client, DomainList, Rule, RuleKind};

type Dir = BTreeMap<String, String>;

#[derive(Clone, PartialEq, Debug, Default)]
struct SimFs {
    live: Option<Dir>,
    backup: Option<Dir>,
    staging: Option<Dir>,
}

impl SimFs {
    fn perform(&mut self, step: DeployStep, arts: &[Artifact]) -> bool {
        match step {
            DeployStep::CreateStaging => {
                self.staging = Some(Dir::new());
            }
            DeployStep::WriteArtifact { index } => {
                let a = &arts[index];
                self.staging.as_mut().unwrap().insert(a.name.clone(), a.content.clone());
            }
            DeployStep::EnsureParent => {}
            DeployStep::ClearBackup => {
                self.backup = None;
            }
            DeployStep::ParkLive => {
                if let Some(l) = self.live.take() {
                    self.backup = Some(l);
                }
            }
            DeployStep::Promote => {
                self.live = self.staging.take();
            }
        }
        true
    }
}

/// Runs a cycle; the step at position `fail_at`, if any, fails without
/// touching anything.
fn run(fs: &mut SimFs, arts: &[Artifact], generation: u64, fail_at: Option<usize>) -> DeployOutcome {
    let mut d = Deployment::new(arts.len(), generation);
    let mut pos = 0;
    while let Some(step) = d.next_step() {
        let ok = if Some(pos) == fail_at { false } else { fs.perform(step, arts) };
        d.report(ok);
        pos += 1;
    }
    d.outcome()
}

fn sample_artifacts() -> Vec<Artifact> {
    let clients = vec![Client {
        id: Some(1),
        ip: "10.0.0.1".to_string(),
        name: "one".to_string(),
        rules: vec![Rule { kind: RuleKind::DenyHttpAccess, domainlists: vec![3] }],
        leases: vec![],
        mac_address: None,
    }];
    let lists = vec![DomainList { id: Some(3), name: "ads".to_string(), domains: vec!["ads.com".to_string()] }];
    compile(&clients, &lists, 0).unwrap()
}

#[test]
fn steps_come_in_order() {
    let d = Deployment::new(2, 0);
    assert_eq!(d.next_step(), Some(DeployStep::CreateStaging));
    let mut d = d;
    let mut steps = vec![];
    while let Some(s) = d.next_step() {
        steps.push(s);
        d.report(true);
    }
    assert_eq!(
        steps,
        vec![
            DeployStep::CreateStaging,
            DeployStep::WriteArtifact { index: 0 },
            DeployStep::WriteArtifact { index: 1 },
            DeployStep::EnsureParent,
            DeployStep::ClearBackup,
            DeployStep::ParkLive,
            DeployStep::Promote,
        ]
    );
    assert_eq!(d.outcome(), DeployOutcome::Deployed { generation: 1 });
}

#[test]
fn redeploy_is_byte_identical_and_advances_generation_by_one() {
    let arts = sample_artifacts();
    let mut fs = SimFs::default();
    let mut coordinator = Coordinator::new(10);
    for expected in 1..=2u64 {
        assert!(coordinator.request_regeneration());
        assert!(coordinator.start_cycle().is_some());
        let outcome = run(&mut fs, &arts, coordinator.generation(), None);
        assert_eq!(outcome, DeployOutcome::Deployed { generation: expected });
        assert_eq!(coordinator.finish_cycle(true), expected);
        if expected == 1 {
            let first = fs.live.clone();
            assert!(first.is_some());
        }
    }
    let mut fresh = SimFs::default();
    run(&mut fresh, &arts, 0, None);
    assert_eq!(fs.live, fresh.live);
    let live = fs.live.unwrap();
    assert_eq!(live.len(), 2);
    assert_eq!(live["client_0001.conf"], arts[0].content);
    assert_eq!(fs.backup, fresh.live);
}

#[test]
fn staging_failure_leaves_live_untouched() {
    let arts = sample_artifacts();
    let mut fs = SimFs::default();
    run(&mut fs, &arts, 0, None);
    let before = fs.live.clone();
    for fail_at in 0..=arts.len() + 2 {
        let mut trial = fs.clone();
        let outcome = run(&mut trial, &arts, 1, Some(fail_at));
        assert!(matches!(outcome, DeployOutcome::StagingFailed { .. }));
        assert_eq!(trial.live, before);
    }
}

#[test]
fn promotion_failure_is_reported_as_such() {
    let arts = sample_artifacts();
    let mut fs = SimFs::default();
    let park = arts.len() + 3;
    assert_eq!(run(&mut fs, &arts, 4, Some(park)), DeployOutcome::PromotionFailed { step: DeployStep::ParkLive });
    let mut fs = SimFs::default();
    assert_eq!(run(&mut fs, &arts, 4, Some(park + 1)), DeployOutcome::PromotionFailed { step: DeployStep::Promote });
}

#[test]
fn failed_write_names_its_step() {
    let arts = sample_artifacts();
    let mut fs = SimFs::default();
    assert_eq!(
        run(&mut fs, &arts, 0, Some(2)),
        DeployOutcome::StagingFailed { step: DeployStep::WriteArtifact { index: 1 } }
    );
}

#[test]
fn backup_sits_beside_live_directory() {
    assert_eq!(backup_path("/etc/squid/conf.d").unwrap(), "/etc/squid/squid_old");
    assert_eq!(get_parent_or_die("/a/b").unwrap(), "/a");
    assert!(get_parent_or_die("/").is_err());
    assert!(backup_path("").is_err());
}
