//! The guard of a source swap: it puts the candidate implementation in place of
//! the active one and takes it out again.
//!
//! The guard touches no file system. It hands out one [`Request`] at a time and
//! is told the answer. [`DirectoryGuard::swap`] and [`DirectoryGuard::restore`]
//! have a function of the caller's serve the requests on the directories below
//! the guard's root; [`DirectoryGuard::swap_on`] and
//! [`DirectoryGuard::restore_on`] serve them from a [`Layout`] held in memory.

use std::path::PathBuf;
use vstd::prelude::*;
use crate::layout::{Layout, Request, Slot};

verus! {

/// `std::path::PathBuf`, carried through as the root of a guard and never
/// looked into.
#[verifier::external_type_specification]
#[verifier::external_body]
pub struct ExPathBuf(PathBuf);

/// Why a swap or a restore did not go through.
#[derive(Clone, Copy, Debug, PartialEq, Eq, Hash)]
pub enum SwapError {
    /// There is no candidate directory; nothing was renamed.
    CandidateNotFound,
    /// The temporary directory of an earlier run is still there; nothing was
    /// renamed.
    StalePreviousRun,
    /// The first or the second rename of a swap failed.
    RenameFailed { step: u8 },
    /// A rename of a restore failed. The restore was attempted, so the guard
    /// no longer counts as swapped; the directories may not be back in place.
    RestoreFailed,
}

/// Where a guard stands within a swap or a restore: the request that it waits
/// to have answered.
#[derive(Clone, Copy, Debug, PartialEq, Eq, Hash)]
pub enum Stage {
    /// No operation is in progress.
    Idle,
    SwapProbeCandidate,
    SwapProbeTemp,
    SwapMoveActive,
    SwapMoveCandidate,
    RestoreProbeActive,
    RestoreMoveActive,
    RestoreProbeTemp,
    RestoreMoveTemp,
}

/// What a guard wants next.
#[derive(Clone, Copy, Debug, PartialEq, Eq, Hash)]
pub enum Step {
    /// Perform the request and call [`DirectoryGuard::advance`] with the answer.
    Ask(Request),
    /// The operation is over.
    Done(Result<(), SwapError>),
}

impl Stage {
    /// The request that waits for an answer in this stage.
    pub open spec fn request(self) -> Option<Request> {
        match self {
            Stage::Idle => None,
            Stage::SwapProbeCandidate => Some(Request::Probe(Slot::Candidate)),
            Stage::SwapProbeTemp => Some(Request::Probe(Slot::Temp)),
            Stage::SwapMoveActive => Some(Request::Rename { from: Slot::Active, to: Slot::Temp }),
            Stage::SwapMoveCandidate => Some(
                Request::Rename { from: Slot::Candidate, to: Slot::Active },
            ),
            Stage::RestoreProbeActive => Some(Request::Probe(Slot::Active)),
            Stage::RestoreMoveActive => Some(
                Request::Rename { from: Slot::Active, to: Slot::Candidate },
            ),
            Stage::RestoreProbeTemp => Some(Request::Probe(Slot::Temp)),
            Stage::RestoreMoveTemp => Some(Request::Rename { from: Slot::Temp, to: Slot::Active }),
        }
    }

    /// How the operation ends on this answer, if it ends on it.
    pub open spec fn verdict(self, answer: bool) -> Option<Result<(), SwapError>> {
        match self {
            Stage::Idle => Some(Ok(())),
            Stage::SwapProbeCandidate => if answer {
                None
            } else {
                Some(Err(SwapError::CandidateNotFound))
            },
            Stage::SwapProbeTemp => if answer {
                Some(Err(SwapError::StalePreviousRun))
            } else {
                None
            },
            Stage::SwapMoveActive => if answer {
                None
            } else {
                Some(Err(SwapError::RenameFailed { step: 1 }))
            },
            Stage::SwapMoveCandidate => if answer {
                Some(Ok(()))
            } else {
                Some(Err(SwapError::RenameFailed { step: 2 }))
            },
            Stage::RestoreProbeActive => None,
            Stage::RestoreMoveActive => if answer {
                None
            } else {
                Some(Err(SwapError::RestoreFailed))
            },
            Stage::RestoreProbeTemp => if answer {
                None
            } else {
                Some(Ok(()))
            },
            Stage::RestoreMoveTemp => if answer {
                Some(Ok(()))
            } else {
                Some(Err(SwapError::RestoreFailed))
            },
        }
    }

    /// The stage after this answer; `Idle` where the operation ends on it.
    pub open spec fn following(self, answer: bool) -> Stage {
        if self.verdict(answer) is Some {
            Stage::Idle
        } else {
            match self {
                Stage::SwapProbeCandidate => Stage::SwapProbeTemp,
                Stage::SwapProbeTemp => Stage::SwapMoveActive,
                Stage::SwapMoveActive => Stage::SwapMoveCandidate,
                Stage::RestoreProbeActive => if answer {
                    Stage::RestoreMoveActive
                } else {
                    Stage::RestoreProbeTemp
                },
                Stage::RestoreMoveActive => Stage::RestoreProbeTemp,
                Stage::RestoreProbeTemp => Stage::RestoreMoveTemp,
                _ => Stage::Idle,
            }
        }
    }

    /// Whether the guard counts as swapped after this answer: a swap that went
    /// through sets the mark, a restore clears it when it ends, whether it
    /// went through or a rename of it failed, and nothing else touches it.
    pub open spec fn marks(self, answer: bool, swapped: bool) -> bool {
        match self {
            Stage::SwapMoveCandidate => swapped || answer,
            Stage::RestoreMoveActive => swapped && answer,
            Stage::RestoreProbeTemp => swapped && answer,
            Stage::RestoreMoveTemp => false,
            _ => swapped,
        }
    }

    /// An upper bound on the requests that are still to come, this one counted.
    pub open spec fn steps_left(self) -> nat {
        match self {
            Stage::Idle => 0,
            Stage::SwapProbeCandidate => 4,
            Stage::SwapProbeTemp => 3,
            Stage::SwapMoveActive => 2,
            Stage::SwapMoveCandidate => 1,
            Stage::RestoreProbeActive => 4,
            Stage::RestoreMoveActive => 3,
            Stage::RestoreProbeTemp => 2,
            Stage::RestoreMoveTemp => 1,
        }
    }
}

/// What a step is for a stage that was just entered or left with a verdict.
pub open spec fn step_of(stage: Stage, verdict: Option<Result<(), SwapError>>) -> Step {
    match verdict {
        Some(result) => Step::Done(result),
        None => match stage.request() {
            Some(request) => Step::Ask(request),
            None => Step::Done(Ok(())),
        },
    }
}

/// Tracks, for one root, whether its candidate implementation is swapped in.
#[derive(Debug)]
pub struct DirectoryGuard {
    root: PathBuf,
    swapped: bool,
    stage: Stage,
}

impl DirectoryGuard {
    /// The root whose directories the guard renames.
    pub closed spec fn root_path(&self) -> PathBuf {
        self.root
    }

    /// Whether the candidate is in the place of the active implementation.
    pub closed spec fn swapped(&self) -> bool {
        self.swapped
    }

    /// Where the guard stands.
    pub closed spec fn stage(&self) -> Stage {
        self.stage
    }

    /// A guard for `root`, not swapped and with no operation in progress.
    pub fn new(root: PathBuf) -> (guard: Self)
        ensures
            guard.root_path() == root,
            !guard.swapped(),
            guard.stage() == Stage::Idle,
    {
        Self { root, swapped: false, stage: Stage::Idle }
    }

    pub fn root(&self) -> (root: &PathBuf)
        ensures
            *root == self.root_path(),
    {
        &self.root
    }

    pub fn is_swapped(&self) -> (swapped: bool)
        ensures
            swapped == self.swapped(),
    {
        self.swapped
    }

    /// Whether an operation waits for an answer.
    pub fn in_progress(&self) -> (busy: bool)
        ensures
            busy == (self.stage() != Stage::Idle),
    {
        !matches!(self.stage, Stage::Idle)
    }

    /// Starts a swap, whatever was in progress, and gives its first request:
    /// whether the candidate directory exists.
    pub fn begin_swap(&mut self) -> (request: Request)
        ensures
            final(self).root_path() == old(self).root_path(),
            final(self).swapped() == old(self).swapped(),
            final(self).stage() == Stage::SwapProbeCandidate,
            request == Request::Probe(Slot::Candidate),
    {
        self.stage = Stage::SwapProbeCandidate;
        Request::Probe(Slot::Candidate)
    }

    /// Starts a restore. A guard that is not swapped has nothing to restore: it
    /// is left as it is and asks for nothing. A swapped guard first asks
    /// whether the active directory exists.
    pub fn begin_restore(&mut self) -> (step: Step)
        ensures
            final(self).root_path() == old(self).root_path(),
            final(self).swapped() == old(self).swapped(),
            old(self).swapped() ==> final(self).stage() == Stage::RestoreProbeActive && step
                == Step::Ask(Request::Probe(Slot::Active)),
            !old(self).swapped() ==> final(self).stage() == old(self).stage() && step
                == Step::Done(Ok(())),
    {
        if !self.swapped {
            return Step::Done(Ok(()));
        }
        self.stage = Stage::RestoreProbeActive;
        Step::Ask(Request::Probe(Slot::Active))
    }

    /// Takes the answer to the request that was asked last and gives the next
    /// step. With no operation in progress there is nothing left to do.
    pub fn advance(&mut self, answer: bool) -> (step: Step)
        ensures
            final(self).root_path() == old(self).root_path(),
            final(self).stage() == old(self).stage().following(answer),
            final(self).swapped() == old(self).stage().marks(answer, old(self).swapped()),
            step == step_of(old(self).stage().following(answer), old(self).stage().verdict(answer)),
    {
        match self.stage {
            Stage::Idle => Step::Done(Ok(())),
            Stage::SwapProbeCandidate => {
                if answer {
                    self.stage = Stage::SwapProbeTemp;
                    Step::Ask(Request::Probe(Slot::Temp))
                } else {
                    self.stage = Stage::Idle;
                    Step::Done(Err(SwapError::CandidateNotFound))
                }
            },
            Stage::SwapProbeTemp => {
                if answer {
                    self.stage = Stage::Idle;
                    Step::Done(Err(SwapError::StalePreviousRun))
                } else {
                    self.stage = Stage::SwapMoveActive;
                    Step::Ask(Request::Rename { from: Slot::Active, to: Slot::Temp })
                }
            },
            Stage::SwapMoveActive => {
                if answer {
                    self.stage = Stage::SwapMoveCandidate;
                    Step::Ask(Request::Rename { from: Slot::Candidate, to: Slot::Active })
                } else {
                    self.stage = Stage::Idle;
                    Step::Done(Err(SwapError::RenameFailed { step: 1 }))
                }
            },
            Stage::SwapMoveCandidate => {
                self.stage = Stage::Idle;
                if answer {
                    self.swapped = true;
                    Step::Done(Ok(()))
                } else {
                    Step::Done(Err(SwapError::RenameFailed { step: 2 }))
                }
            },
            Stage::RestoreProbeActive => {
                if answer {
                    self.stage = Stage::RestoreMoveActive;
                    Step::Ask(Request::Rename { from: Slot::Active, to: Slot::Candidate })
                } else {
                    self.stage = Stage::RestoreProbeTemp;
                    Step::Ask(Request::Probe(Slot::Temp))
                }
            },
            Stage::RestoreMoveActive => {
                if answer {
                    self.stage = Stage::RestoreProbeTemp;
                    Step::Ask(Request::Probe(Slot::Temp))
                } else {
                    self.stage = Stage::Idle;
                    self.swapped = false;
                    Step::Done(Err(SwapError::RestoreFailed))
                }
            },
            Stage::RestoreProbeTemp => {
                if answer {
                    self.stage = Stage::RestoreMoveTemp;
                    Step::Ask(Request::Rename { from: Slot::Temp, to: Slot::Active })
                } else {
                    self.stage = Stage::Idle;
                    self.swapped = false;
                    Step::Done(Ok(()))
                }
            },
            Stage::RestoreMoveTemp => {
                self.stage = Stage::Idle;
                self.swapped = false;
                if answer {
                    Step::Done(Ok(()))
                } else {
                    Step::Done(Err(SwapError::RestoreFailed))
                }
            },
        }
    }
}

/// How an operation left the guard and the directories.
pub struct Settled {
    /// Whether the guard counts as swapped.
    pub swapped: bool,
    /// What the directories hold.
    pub tree: Layout,
    /// How the operation ended.
    pub result: Result<(), SwapError>,
}

/// Follows a guard from `stage` to the end of the operation, every request
/// answered by `tree`.
pub open spec fn run(stage: Stage, swapped: bool, tree: Layout) -> Settled
    decreases stage.steps_left(),
{
    match stage.request() {
        None => Settled { swapped, tree, result: Ok(()) },
        Some(request) => {
            let answer = tree.answer(request);
            match stage.verdict(answer) {
                Some(result) => Settled {
                    swapped: stage.marks(answer, swapped),
                    tree: tree.after(request),
                    result,
                },
                None => run(
                    stage.following(answer),
                    stage.marks(answer, swapped),
                    tree.after(request),
                ),
            }
        },
    }
}

/// What a swap makes of a layout, or why it renames nothing: the active tree
/// goes to the temporary directory and the candidate takes its place.
pub open spec fn swapped_in(tree: Layout) -> Result<Layout, SwapError> {
    if tree.candidate is None {
        Err(SwapError::CandidateNotFound)
    } else if tree.temp is Some {
        Err(SwapError::StalePreviousRun)
    } else if tree.active is None {
        Err(SwapError::RenameFailed { step: 1 })
    } else {
        Ok(Layout { active: tree.candidate, candidate: None, temp: tree.active })
    }
}

/// What the restore of a swapped guard makes of a layout, or why it renames
/// nothing: the active tree goes back to the candidate directory, and what the
/// temporary directory holds becomes the active tree again.
pub open spec fn restored(tree: Layout) -> Result<Layout, SwapError> {
    if tree.active is Some && tree.candidate is Some {
        Err(SwapError::RestoreFailed)
    } else {
        Ok(
            Layout {
                active: tree.temp,
                candidate: if tree.active is Some {
                    tree.active
                } else {
                    tree.candidate
                },
                temp: None,
            },
        )
    }
}

/// A swap on `tree` by a guard whose mark is `swapped`.
pub open spec fn after_swap(swapped: bool, tree: Layout) -> Settled {
    match swapped_in(tree) {
        Ok(after) => Settled { swapped: true, tree: after, result: Ok(()) },
        Err(error) => Settled { swapped, tree, result: Err(error) },
    }
}

/// A restore on `tree` by a guard whose mark is `swapped`. The guard is not
/// swapped afterwards, whether the restore went through or not.
pub open spec fn after_restore(swapped: bool, tree: Layout) -> Settled {
    if !swapped {
        Settled { swapped: false, tree, result: Ok(()) }
    } else {
        match restored(tree) {
            Ok(after) => Settled { swapped: false, tree: after, result: Ok(()) },
            Err(error) => Settled { swapped: false, tree, result: Err(error) },
        }
    }
}

/// The requests of a swap, answered by a layout, end as `after_swap` says.
pub proof fn lemma_run_swap(swapped: bool, tree: Layout)
    ensures
        run(Stage::SwapProbeCandidate, swapped, tree) == after_swap(swapped, tree),
{
    reveal_with_fuel(run, 5);
}

/// The requests of a restore, answered by a layout, end as `after_restore`
/// says.
pub proof fn lemma_run_restore(tree: Layout)
    ensures
        run(Stage::RestoreProbeActive, true, tree) == after_restore(true, tree),
{
    reveal_with_fuel(run, 5);
}

impl DirectoryGuard {
    /// Answers the guard's requests from `tree` until the operation is over.
    fn settle(&mut self, tree: &mut Layout, first: Step) -> (result: Result<(), SwapError>)
        requires
            first == step_of(old(self).stage(), None),
        ensures
            final(self).root_path() == old(self).root_path(),
            final(self).stage() == Stage::Idle,
            (Settled { swapped: final(self).swapped(), tree: *final(tree), result }) == run(
                old(self).stage(),
                old(self).swapped(),
                *old(tree),
            ),
    {
        let mut step = first;
        let ghost goal = run(self.stage(), self.swapped(), *tree);
        loop
            invariant
                self.root_path() == old(self).root_path(),
                goal == run(old(self).stage(), old(self).swapped(), *old(tree)),
                match step {
                    Step::Ask(request) => self.stage().request() == Some(request) && run(
                        self.stage(),
                        self.swapped(),
                        *tree,
                    ) == goal,
                    Step::Done(result) => self.stage() == Stage::Idle && (Settled {
                        swapped: self.swapped(),
                        tree: *tree,
                        result,
                    }) == goal,
                },
            decreases self.stage().steps_left() + (if step is Ask { 1nat } else { 0nat }),
        {
            match step {
                Step::Done(result) => {
                    return result;
                },
                Step::Ask(request) => {
                    let answer = tree.perform(request);
                    step = self.advance(answer);
                },
            }
        }
    }

    /// Swaps the candidate in, on a layout held in memory: the active tree goes
    /// to the temporary directory and the candidate takes its place. Where the
    /// swap is refused or a rename is not done, nothing that was renamed stays
    /// renamed and the guard's mark is as before.
    pub fn swap_on(&mut self, tree: &mut Layout) -> (result: Result<(), SwapError>)
        ensures
            final(self).root_path() == old(self).root_path(),
            final(self).stage() == Stage::Idle,
            (Settled { swapped: final(self).swapped(), tree: *final(tree), result }) == after_swap(
                old(self).swapped(),
                *old(tree),
            ),
    {
        proof {
            lemma_run_swap(self.swapped(), *tree);
        }
        let first = self.begin_swap();
        self.settle(tree, Step::Ask(first))
    }

    /// Takes the candidate out again, on a layout held in memory. A guard that
    /// is not swapped renames nothing and succeeds. The guard is not swapped
    /// afterwards, also where a rename was not done and the restore failed.
    pub fn restore_on(&mut self, tree: &mut Layout) -> (result: Result<(), SwapError>)
        ensures
            final(self).root_path() == old(self).root_path(),
            !final(self).swapped(),
            old(self).swapped() ==> final(self).stage() == Stage::Idle,
            !old(self).swapped() ==> final(self).stage() == old(self).stage(),
            (Settled { swapped: final(self).swapped(), tree: *final(tree), result })
                == after_restore(old(self).swapped(), *old(tree)),
    {
        proof {
            lemma_run_restore(*tree);
        }
        match self.begin_restore() {
            Step::Done(result) => result,
            Step::Ask(request) => self.settle(tree, Step::Ask(request)),
        }
    }
}

/// Whether `answers` are answers that `serve` gives to the requests of an
/// operation that stands at `stage`, one for each request up to the end of the
/// operation, and the operation ends on them with `result` and leaves the
/// guard's mark `marked`.
pub open spec fn explains<F: Fn(Request) -> bool>(
    serve: F,
    stage: Stage,
    swapped: bool,
    answers: Seq<bool>,
    marked: bool,
    result: Result<(), SwapError>,
) -> bool
    decreases answers.len(),
{
    match stage.request() {
        None => answers.len() == 0 && marked == swapped && result == Ok::<(), SwapError>(()),
        Some(request) => answers.len() > 0 && call_ensures(serve, (request,), answers[0])
            && match stage.verdict(answers[0]) {
            Some(verdict) => answers.len() == 1 && marked == stage.marks(answers[0], swapped)
                && result == verdict,
            None => explains(
                serve,
                stage.following(answers[0]),
                stage.marks(answers[0], swapped),
                answers.drop_first(),
                marked,
                result,
            ),
        },
    }
}

/// The stage in which a restore starts: a guard that is not swapped has
/// nothing to ask.
pub open spec fn restore_entry(swapped: bool) -> Stage {
    if swapped {
        Stage::RestoreProbeActive
    } else {
        Stage::Idle
    }
}

impl DirectoryGuard {
    /// Has `serve` answer the guard's requests, from `request` on, until the
    /// operation is over.
    fn settle_with<F: Fn(Request) -> bool>(&mut self, serve: &F, request: Request) -> (result:
        Result<(), SwapError>)
        requires
            old(self).stage().request() == Some(request),
            forall|any: Request| call_requires(*serve, (any,)),
        ensures
            final(self).root_path() == old(self).root_path(),
            final(self).stage() == Stage::Idle,
            exists|answers: Seq<bool>|
                explains(
                    *serve,
                    old(self).stage(),
                    old(self).swapped(),
                    answers,
                    final(self).swapped(),
                    result,
                ),
        decreases old(self).stage().steps_left(),
    {
        let ghost stage = self.stage();
        let ghost swapped = self.swapped();
        let answer = serve(request);
        match self.advance(answer) {
            Step::Done(result) => {
                proof {
                    let answers = seq![answer];
                    assert(explains(*serve, stage, swapped, answers, self.swapped(), result));
                }
                result
            },
            Step::Ask(next) => {
                let ghost between = self.swapped();
                let result = self.settle_with(serve, next);
                proof {
                    let rest = choose|rest: Seq<bool>|
                        explains(
                            *serve,
                            stage.following(answer),
                            between,
                            rest,
                            self.swapped(),
                            result,
                        );
                    let answers = seq![answer] + rest;
                    assert(answers.drop_first() =~= rest);
                    assert(explains(*serve, stage, swapped, answers, self.swapped(), result));
                }
                result
            },
        }
    }

    /// Swaps the candidate in. `serve` performs each request on the
    /// directories below the root and says how it went. The swap asks whether
    /// the candidate is there and whether a temporary directory is in the way,
    /// then has the active directory renamed to the temporary one and the
    /// candidate to the active one; it stops at the first answer that forbids
    /// the next step, and marks the guard as swapped once both renames are
    /// done. The result and the mark are those that the answers of `serve`
    /// lead to.
    pub fn swap<F: Fn(Request) -> bool>(&mut self, serve: &F) -> (result: Result<(), SwapError>)
        requires
            forall|any: Request| call_requires(*serve, (any,)),
        ensures
            final(self).root_path() == old(self).root_path(),
            final(self).stage() == Stage::Idle,
            final(self).swapped() == (old(self).swapped() || result is Ok),
            !(result matches Err(SwapError::RestoreFailed)),
            exists|answers: Seq<bool>|
                explains(
                    *serve,
                    Stage::SwapProbeCandidate,
                    old(self).swapped(),
                    answers,
                    final(self).swapped(),
                    result,
                ),
    {
        let first = self.begin_swap();
        let result = self.settle_with(serve, first);
        proof {
            let answers = choose|answers: Seq<bool>|
                explains(
                    *serve,
                    Stage::SwapProbeCandidate,
                    old(self).swapped(),
                    answers,
                    self.swapped(),
                    result,
                );
            lemma_swap_explained(*serve, old(self).swapped(), answers, self.swapped(), result);
        }
        result
    }

    /// Takes the candidate out again. `serve` performs each request on the
    /// directories below the root and says how it went. A guard that is not
    /// swapped asks for nothing and succeeds. A swapped guard has the active directory, if
    /// there is one, renamed back to the candidate, and the temporary one, if
    /// there is one, renamed back to the active. It fails exactly where a
    /// rename was asked for and failed. Whether it went through or failed, the
    /// restore was attempted and the guard is no longer swapped. The result is
    /// the one that the answers of `serve` lead to.
    pub fn restore<F: Fn(Request) -> bool>(&mut self, serve: &F) -> (result: Result<
        (),
        SwapError,
    >)
        requires
            forall|any: Request| call_requires(*serve, (any,)),
        ensures
            final(self).root_path() == old(self).root_path(),
            !old(self).swapped() ==> result is Ok && final(self).stage() == old(self).stage(),
            old(self).swapped() ==> final(self).stage() == Stage::Idle,
            !final(self).swapped(),
            result is Err ==> result == Err::<(), SwapError>(SwapError::RestoreFailed),
            exists|answers: Seq<bool>|
                explains(
                    *serve,
                    restore_entry(old(self).swapped()),
                    old(self).swapped(),
                    answers,
                    final(self).swapped(),
                    result,
                ),
    {
        match self.begin_restore() {
            Step::Done(result) => {
                proof {
                    assert(explains(
                        *serve,
                        Stage::Idle,
                        false,
                        Seq::<bool>::empty(),
                        false,
                        result,
                    ));
                }
                result
            },
            Step::Ask(request) => {
                let result = self.settle_with(serve, request);
                proof {
                    let answers = choose|answers: Seq<bool>|
                        explains(
                            *serve,
                            Stage::RestoreProbeActive,
                            true,
                            answers,
                            self.swapped(),
                            result,
                        );
                    lemma_restore_explained(*serve, answers, self.swapped(), result);
                }
                result
            },
        }
    }
}

/// However the requests of a swap are answered, the guard is marked exactly
/// when the swap went through, and a swap never reports a failed restore.
pub proof fn lemma_swap_explained<F: Fn(Request) -> bool>(
    serve: F,
    swapped: bool,
    answers: Seq<bool>,
    marked: bool,
    result: Result<(), SwapError>,
)
    requires
        explains(serve, Stage::SwapProbeCandidate, swapped, answers, marked, result),
    ensures
        marked == (swapped || result is Ok),
        !(result matches Err(SwapError::RestoreFailed)),
        answers.len() <= 4,
{
    reveal_with_fuel(explains, 5);
}

/// However the requests of a restore are answered, the guard is not marked
/// when the restore ends, and the restore fails only as a failed restore.
pub proof fn lemma_restore_explained<F: Fn(Request) -> bool>(
    serve: F,
    answers: Seq<bool>,
    marked: bool,
    result: Result<(), SwapError>,
)
    requires
        explains(serve, Stage::RestoreProbeActive, true, answers, marked, result),
    ensures
        !marked,
        result is Err ==> result == Err::<(), SwapError>(SwapError::RestoreFailed),
        answers.len() <= 4,
{
    reveal_with_fuel(explains, 5);
}

/// Where the temporary directory of an earlier run is found, a swap fails
/// after its two questions at the latest, so that nothing is renamed, and the
/// guard's mark stays as it was.
pub proof fn stale_temp_is_found_before_any_rename<F: Fn(Request) -> bool>(
    serve: F,
    swapped: bool,
    answers: Seq<bool>,
    marked: bool,
    result: Result<(), SwapError>,
)
    requires
        explains(serve, Stage::SwapProbeCandidate, swapped, answers, marked, result),
        forall|found: bool| call_ensures(serve, (Request::Probe(Slot::Temp),), found) ==> found,
    ensures
        answers.len() <= 2,
        marked == swapped,
        result == Err::<(), SwapError>(SwapError::CandidateNotFound) || result == Err::<
            (),
            SwapError,
        >(SwapError::StalePreviousRun),
        answers.len() == 2 ==> result == Err::<(), SwapError>(SwapError::StalePreviousRun),
{
    reveal_with_fuel(explains, 5);
}

/// After a restore, whether it went through or failed, a second restore asks
/// for nothing and succeeds, whatever would serve it; so does the restore of a
/// guard that was never swapped. Only an empty list of answers explains it.
pub proof fn second_restore_asks_nothing<F: Fn(Request) -> bool, G: Fn(Request) -> bool>(
    serve: F,
    swapped: bool,
    answers: Seq<bool>,
    marked: bool,
    result: Result<(), SwapError>,
    again: G,
    more: Seq<bool>,
    marked_again: bool,
    result_again: Result<(), SwapError>,
)
    requires
        explains(serve, restore_entry(swapped), swapped, answers, marked, result),
        explains(again, restore_entry(marked), marked, more, marked_again, result_again),
    ensures
        !marked,
        more.len() == 0,
        !marked_again,
        result_again is Ok,
{
    reveal_with_fuel(explains, 5);
}

/// A restore that follows a restore changes nothing: the directories and the
/// guard's mark are as the first left them, and the second succeeds, also
/// where the first failed. In particular the restore of a guard that was
/// never swapped renames nothing.
pub proof fn restore_is_idempotent(swapped: bool, tree: Layout)
    ensures
        ({
            let once = after_restore(swapped, tree);
            let twice = after_restore(once.swapped, once.tree);
            &&& !once.swapped
            &&& twice.tree == once.tree
            &&& twice.swapped == once.swapped
            &&& twice.result is Ok
        }),
        !swapped ==> after_restore(swapped, tree).tree == tree,
{
}

/// A swap that finds the temporary directory of an earlier run renames
/// nothing and fails; where the candidate is there, it fails as a stale
/// previous run.
pub proof fn stale_temp_stops_swap(swapped: bool, tree: Layout)
    requires
        tree.temp is Some,
    ensures
        after_swap(swapped, tree).tree == tree,
        after_swap(swapped, tree).swapped == swapped,
        after_swap(swapped, tree).result is Err,
        tree.candidate is Some ==> after_swap(swapped, tree).result == Err::<(), SwapError>(
            SwapError::StalePreviousRun,
        ),
{
}

/// A restore after a swap that went through gives every directory back what
/// it held before the swap, and leaves the guard not swapped.
pub proof fn restore_undoes_swap(swapped: bool, tree: Layout)
    requires
        after_swap(swapped, tree).result is Ok,
    ensures
        ({
            let there = after_swap(swapped, tree);
            let back = after_restore(there.swapped, there.tree);
            back.tree == tree && !back.swapped && back.result is Ok
        }),
{
}

/// While the candidate is swapped in, a second swap is refused and renames
/// nothing: the candidate directory is gone, and were it made anew, the
/// temporary directory would still be in the way.
pub proof fn second_swap_is_refused(swapped: bool, tree: Layout, candidate: Option<u64>)
    requires
        after_swap(swapped, tree).result is Ok,
    ensures
        ({
            let there = after_swap(swapped, tree).tree;
            let again = Layout { candidate, ..there };
            &&& after_swap(true, again).result is Err
            &&& after_swap(true, again).tree == again
            &&& candidate is None ==> after_swap(true, again).result == Err::<(), SwapError>(
                SwapError::CandidateNotFound,
            )
            &&& candidate is Some ==> after_swap(true, again).result == Err::<(), SwapError>(
                SwapError::StalePreviousRun,
            )
        }),
{
}

} // verus!
