//! Staged deployment of compiled artifacts: a cycle writes every artifact into
//! a fresh staging directory, parks the live directory as the single backup,
//! and promotes the staging directory into the live path.
//!
//! The host performs each step and reports whether it succeeded; the
//! [`Deployment`] decides what comes next. The model below says what each
//! step does to the three directories involved, so that the guarantees of a
//! cycle can be stated and proved over every run.
use vstd::prelude::*;
use crate::compile::ArtifactView;

verus! {

/// One filesystem step of a deployment cycle.
#[derive(PartialEq, Eq, Structural, Clone, Copy, Debug)]
pub enum DeployStep {
    /// Create a fresh, uniquely named staging directory.
    CreateStaging,
    /// Write the artifact at `index` into the staging directory.
    WriteArtifact { index: usize },
    /// Make sure that the parent of the live path exists.
    EnsureParent,
    /// Remove a backup left over from an earlier cycle, if there is one.
    ClearBackup,
    /// Rename the live directory to the backup path, if it exists.
    ParkLive,
    /// Rename the staging directory to the live path.
    Promote,
}

/// How a cycle ended, or that it is still under way.
#[derive(PartialEq, Eq, Structural, Clone, Copy, Debug)]
pub enum DeployOutcome {
    Running,
    /// The new configuration is live; this is the generation it received.
    Deployed { generation: u64 },
    /// A step before the live directory was touched failed: the previous
    /// configuration is still live, unchanged.
    StagingFailed { step: DeployStep },
    /// Parking or promotion failed: the live directory may be missing until
    /// the next successful cycle.
    PromotionFailed { step: DeployStep },
}

/// The contents of a directory: file name to text.
pub type DirView = Map<Seq<char>, Seq<char>>;

/// The directories a cycle works on: the live one that the proxy reads, the
/// backup beside it, and this cycle's staging directory.
pub struct FsModel {
    pub live: Option<DirView>,
    pub backup: Option<DirView>,
    pub staging: Option<DirView>,
}

/// The number of steps of a cycle that deploys `n` artifacts.
pub open spec fn cycle_len(n: nat) -> nat {
    n + 5
}

/// The step at position `p` of a cycle that deploys `n` artifacts.
pub open spec fn step_at(n: nat, p: int) -> DeployStep {
    if p == 0 {
        DeployStep::CreateStaging
    } else if p <= n {
        DeployStep::WriteArtifact { index: (p - 1) as usize }
    } else if p == n + 1 {
        DeployStep::EnsureParent
    } else if p == n + 2 {
        DeployStep::ClearBackup
    } else if p == n + 3 {
        DeployStep::ParkLive
    } else {
        DeployStep::Promote
    }
}

/// Steps that leave the live directory alone whatever their result.
pub open spec fn is_staging_step(s: DeployStep) -> bool {
    !(s is ParkLive || s is Promote)
}

/// The directory that holds `arts`, later artifacts of one name replacing
/// earlier ones.
pub open spec fn dir_of(arts: Seq<ArtifactView>) -> DirView
    decreases arts.len(),
{
    if arts.len() == 0 {
        Map::empty()
    } else {
        dir_of(arts.drop_last()).insert(arts.last().name, arts.last().content)
    }
}

/// What step `s` does to the directories: `fs2` follows `fs` when the step
/// succeeded (`ok`) or failed. A failed step may leave the directory it works
/// on in any state, and no other.
pub open spec fn step_effect(
    fs: FsModel,
    s: DeployStep,
    arts: Seq<ArtifactView>,
    ok: bool,
    fs2: FsModel,
) -> bool {
    match s {
        DeployStep::CreateStaging => {
            &&& fs2.live == fs.live
            &&& fs2.backup == fs.backup
            &&& ok ==> fs2.staging == Some(Map::<Seq<char>, Seq<char>>::empty())
        },
        DeployStep::WriteArtifact { index } => {
            &&& fs2.live == fs.live
            &&& fs2.backup == fs.backup
            &&& ok ==> index < arts.len() && fs.staging is Some && fs2.staging == Some(
                fs.staging.unwrap().insert(arts[index as int].name, arts[index as int].content),
            )
        },
        DeployStep::EnsureParent => fs2 == fs,
        DeployStep::ClearBackup => {
            &&& fs2.live == fs.live
            &&& fs2.staging == fs.staging
            &&& ok ==> fs2.backup is None
        },
        DeployStep::ParkLive => {
            &&& fs2.staging == fs.staging
            &&& ok ==> fs2.live is None && fs2.backup == (if fs.live is Some {
                fs.live
            } else {
                fs.backup
            })
        },
        DeployStep::Promote => {
            &&& fs2.backup == fs.backup
            &&& ok ==> fs.staging is Some && fs2.live == fs.staging && fs2.staging is None
        },
    }
}

/// `fss` are the directories before and after each step of a cycle that
/// deploys `arts`, and `oks` the results of those steps. A cycle goes on only
/// while its steps succeed.
pub open spec fn valid_run(arts: Seq<ArtifactView>, fss: Seq<FsModel>, oks: Seq<bool>) -> bool {
    &&& arts.len() <= usize::MAX
    &&& fss.len() == oks.len() + 1
    &&& oks.len() <= cycle_len(arts.len())
    &&& forall|k: int| 0 <= k < oks.len() - 1 ==> #[trigger] oks[k]
    &&& forall|k: int|
        0 <= k < oks.len() ==> step_effect(
            fss[k],
            step_at(arts.len(), k),
            arts,
            #[trigger] oks[k],
            fss[k + 1],
        )
}

/// Every step of the cycle ran and succeeded.
pub open spec fn completed(arts: Seq<ArtifactView>, oks: Seq<bool>) -> bool {
    oks.len() == cycle_len(arts.len()) && oks.last()
}

/// The cycle stopped at a failed step that precedes parking the live
/// directory.
pub open spec fn failed_while_staging(arts: Seq<ArtifactView>, oks: Seq<bool>) -> bool {
    oks.len() > 0 && !oks.last() && is_staging_step(step_at(arts.len(), oks.len() - 1))
}

/// What holds after the first `k` steps of a run have all succeeded.
proof fn lemma_run_prefix(arts: Seq<ArtifactView>, fss: Seq<FsModel>, oks: Seq<bool>, k: int)
    requires
        valid_run(arts, fss, oks),
        0 <= k <= oks.len(),
        forall|j: int| 0 <= j < k ==> #[trigger] oks[j],
    ensures
        k <= arts.len() + 3 ==> fss[k].live == fss[0].live,
        1 <= k <= arts.len() + 1 ==> fss[k].staging == Some(dir_of(arts.take(k - 1))),
        arts.len() + 1 <= k <= arts.len() + 4 ==> fss[k].staging == Some(dir_of(arts)),
        k == arts.len() + 5 ==> fss[k].live == Some(dir_of(arts)),
        k == arts.len() + 3 ==> fss[k].backup is None,
        k >= arts.len() + 4 ==> fss[k].backup == fss[0].live,
    decreases k,
{
    let n = arts.len();
    if k > 0 {
        lemma_run_prefix(arts, fss, oks, k - 1);
        let p = k - 1;
        assert(oks[p]);
        assert(step_effect(fss[p], step_at(n, p), arts, oks[p], fss[p + 1]));
        if p == 0 {
            assert(fss[k].staging == Some(dir_of(arts.take(0))));
        } else if p <= n {
            assert(step_at(n, p) == DeployStep::WriteArtifact { index: (p - 1) as usize });
            assert(arts.take(p).drop_last() =~= arts.take(p - 1));
            assert(arts.take(p).last() == arts[p - 1]);
            assert(fss[k].staging == Some(dir_of(arts.take(p))));
            if k == n + 1 {
                assert(arts.take(n as int) =~= arts);
            }
        } else if p == n + 1 {
            assert(fss[k] == fss[p]);
        } else if p == n + 2 {
            assert(fss[k].staging == fss[p].staging);
        } else if p == n + 3 {
            assert(fss[k].staging == fss[p].staging);
            assert(fss[k].backup == fss[0].live);
        } else {
            assert(fss[k].backup == fss[p].backup);
        }
    }
}

/// A cycle that fails before the live directory is parked leaves the live
/// directory exactly as it was before the cycle.
pub proof fn lemma_staging_failure_keeps_live(arts: Seq<ArtifactView>, fss: Seq<FsModel>, oks: Seq<bool>)
    requires
        valid_run(arts, fss, oks),
        failed_while_staging(arts, oks),
    ensures
        fss.last().live == fss[0].live,
{
    let k = oks.len() - 1;
    lemma_run_prefix(arts, fss, oks, k);
    assert(step_effect(fss[k], step_at(arts.len(), k), arts, oks[k], fss[k + 1]));
}

/// A completed cycle makes the live directory hold exactly the deployed
/// artifacts, whatever the directories held before, and keeps the directory
/// that was live before as the one backup (none when nothing was live).
pub proof fn lemma_completed_run_publishes(arts: Seq<ArtifactView>, fss: Seq<FsModel>, oks: Seq<bool>)
    requires
        valid_run(arts, fss, oks),
        completed(arts, oks),
    ensures
        fss.last().live == Some(dir_of(arts)),
        fss.last().staging is None,
        fss.last().backup == fss[0].live,
{
    let k = oks.len() as int;
    lemma_run_prefix(arts, fss, oks, k);
    assert(step_effect(fss[k - 1], step_at(arts.len(), k - 1), arts, oks[k - 1], fss[k]));
}

/// Deploying the same artifacts twice in a row leaves the live directory
/// with identical contents after each cycle.
pub proof fn lemma_redeploy_identical(
    arts: Seq<ArtifactView>,
    fss1: Seq<FsModel>,
    oks1: Seq<bool>,
    fss2: Seq<FsModel>,
    oks2: Seq<bool>,
)
    requires
        valid_run(arts, fss1, oks1),
        completed(arts, oks1),
        valid_run(arts, fss2, oks2),
        completed(arts, oks2),
        fss2[0] == fss1.last(),
    ensures
        fss2.last().live == fss1.last().live,
        fss2.last().live == Some(dir_of(arts)),
{
    lemma_completed_run_publishes(arts, fss1, oks1);
    lemma_completed_run_publishes(arts, fss2, oks2);
}

/// The decisions of one deployment cycle. The host asks for the next step,
/// performs it, and reports whether it succeeded, until no step is left.
pub struct Deployment {
    count: usize,
    pos: usize,
    generation: u64,
    outcome: DeployOutcome,
    results: Ghost<Seq<bool>>,
}

impl Deployment {
    /// The number of artifacts the cycle deploys.
    pub closed spec fn artifact_count(&self) -> nat {
        self.count as nat
    }

    /// The number of steps that have succeeded.
    pub closed spec fn position(&self) -> int {
        self.pos as int
    }

    /// The generation that was live when the cycle began.
    pub closed spec fn generation_before(&self) -> int {
        self.generation as int
    }

    /// Where the cycle stands.
    pub closed spec fn state(&self) -> DeployOutcome {
        self.outcome
    }

    /// The results reported so far, one per step performed.
    pub closed spec fn results(&self) -> Seq<bool> {
        self.results@
    }

    pub closed spec fn wf(&self) -> bool {
        &&& self.count + 5 <= usize::MAX
        &&& self.generation < u64::MAX
        &&& self.pos <= cycle_len(self.count as nat)
        &&& self.outcome is Running ==> self.pos < cycle_len(self.count as nat)
        &&& self.pos == cycle_len(self.count as nat) <==> self.outcome is Deployed
        &&& self.outcome matches DeployOutcome::Deployed { generation } ==> generation == self.generation + 1
        &&& self.results@.len() == self.pos + if self.outcome is StagingFailed || self.outcome is PromotionFailed {
            1int
        } else {
            0int
        }
        &&& forall|k: int| 0 <= k < self.pos ==> #[trigger] self.results@[k]
        &&& (self.outcome is StagingFailed || self.outcome is PromotionFailed) ==> !self.results@[self.pos as int]
            && self.pos < cycle_len(self.count as nat)
        &&& self.outcome is StagingFailed ==> is_staging_step(step_at(self.count as nat, self.pos as int))
    }

    /// A cycle that deploys `artifact_count` artifacts after generation
    /// `generation`.
    pub fn new(artifact_count: usize, generation: u64) -> (r: Deployment)
        requires
            artifact_count + 5 <= usize::MAX,
            generation < u64::MAX,
        ensures
            r.wf(),
            r.artifact_count() == artifact_count,
            r.generation_before() == generation,
            r.position() == 0,
            r.state() is Running,
            r.results() == Seq::<bool>::empty(),
    {
        Deployment {
            count: artifact_count,
            pos: 0,
            generation,
            outcome: DeployOutcome::Running,
            results: Ghost(Seq::empty()),
        }
    }

    /// The step to perform next, or `None` once the cycle has ended.
    pub fn next_step(&self) -> (r: Option<DeployStep>)
        requires
            self.wf(),
        ensures
            self.state() is Running ==> r == Some(step_at(self.artifact_count(), self.position())),
            !(self.state() is Running) ==> r is None,
    {
        match self.outcome {
            DeployOutcome::Running => {
                let n = self.count;
                let p = self.pos;
                let s = if p == 0 {
                    DeployStep::CreateStaging
                } else if p <= n {
                    DeployStep::WriteArtifact { index: p - 1 }
                } else if p == n + 1 {
                    DeployStep::EnsureParent
                } else if p == n + 2 {
                    DeployStep::ClearBackup
                } else if p == n + 3 {
                    DeployStep::ParkLive
                } else {
                    DeployStep::Promote
                };
                Some(s)
            },
            _ => None,
        }
    }

    /// Records the result of the step returned by `next_step`. A failure ends
    /// the cycle; success of the last step makes it deployed, one generation
    /// after the one it began with.
    pub fn report(&mut self, ok: bool)
        requires
            old(self).wf(),
            old(self).state() is Running,
        ensures
            final(self).wf(),
            final(self).artifact_count() == old(self).artifact_count(),
            final(self).generation_before() == old(self).generation_before(),
            final(self).results() == old(self).results().push(ok),
            ok ==> final(self).position() == old(self).position() + 1,
            ok && final(self).position() < cycle_len(old(self).artifact_count()) ==> final(self).state() is Running,
            ok && final(self).position() == cycle_len(old(self).artifact_count()) ==> final(self).state()
                == (DeployOutcome::Deployed { generation: (old(self).generation_before() + 1) as u64 }),
            !ok ==> final(self).position() == old(self).position(),
            !ok ==> final(self).state() == if is_staging_step(
                step_at(old(self).artifact_count(), old(self).position()),
            ) {
                DeployOutcome::StagingFailed {
                    step: step_at(old(self).artifact_count(), old(self).position()),
                }
            } else {
                DeployOutcome::PromotionFailed {
                    step: step_at(old(self).artifact_count(), old(self).position()),
                }
            },
    {
        let step = self.next_step().unwrap();
        self.results = Ghost(self.results@.push(ok));
        if ok {
            self.pos = self.pos + 1;
            if self.pos == self.count + 5 {
                self.outcome = DeployOutcome::Deployed { generation: self.generation + 1 };
            }
        } else {
            match step {
                DeployStep::ParkLive => {
                    self.outcome = DeployOutcome::PromotionFailed { step };
                },
                DeployStep::Promote => {
                    self.outcome = DeployOutcome::PromotionFailed { step };
                },
                _ => {
                    self.outcome = DeployOutcome::StagingFailed { step };
                },
            }
        }
    }

    /// Where the cycle stands.
    pub fn outcome(&self) -> (r: DeployOutcome)
        ensures
            r == self.state(),
    {
        self.outcome
    }
}

/// What a cycle's outcome says of the directories: for any directories
/// `fss` that the steps performed so far led through, a cycle that failed
/// while staging left the live directory as it was, and a deployed cycle left
/// exactly `arts` live with the previous live directory as the backup.
pub proof fn lemma_deployment_outcome(d: &Deployment, arts: Seq<ArtifactView>, fss: Seq<FsModel>)
    requires
        d.wf(),
        arts.len() == d.artifact_count(),
        fss.len() == d.results().len() + 1,
        forall|k: int|
            0 <= k < d.results().len() ==> step_effect(
                fss[k],
                step_at(arts.len(), k),
                arts,
                #[trigger] d.results()[k],
                fss[k + 1],
            ),
    ensures
        d.state() is StagingFailed ==> fss.last().live == fss[0].live,
        d.state() is Deployed ==> fss.last().live == Some(dir_of(arts)) && fss.last().backup == fss[0].live,
{
    let oks = d.results();
    assert(valid_run(arts, fss, oks));
    if d.state() is StagingFailed {
        lemma_staging_failure_keeps_live(arts, fss, oks);
    }
    if d.state() is Deployed {
        lemma_completed_run_publishes(arts, fss, oks);
    }
}

} // verus!
