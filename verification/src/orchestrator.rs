//! The comparison of a baseline against a candidate implementation, as a
//! sequence of decisions.
//!
//! An [`Orchestrator`] performs nothing itself. It hands out one [`Action`] at
//! a time and is told with one `bool` how it went; whoever drives it touches
//! the file system and starts the processes. A run with no candidate directory
//! measures once. A run with one measures the baseline, swaps the candidate
//! in, has the package under test rebuilt, measures again, and restores the
//! directories whatever the rebuild and the second measurement came to.

use std::path::PathBuf;
use vstd::prelude::*;
use crate::guard::{DirectoryGuard, Stage, Step, SwapError, step_of};
use crate::layout::{Layout, Request, Slot};

verus! {

/// What a run of the benchmark program is for.
#[derive(Clone, Copy, Debug, PartialEq, Eq, Hash)]
pub enum BenchMode {
    /// The only measurement of a run without a candidate.
    Standard,
    /// The first measurement of a comparison; its statistics are saved.
    SaveBaseline,
    /// The second measurement of a comparison; it loads the saved statistics.
    CompareWithBaseline,
}

/// File in which the first measurement of a comparison saves its statistics
/// and from which the second loads them.
pub open spec fn spec_baseline_file() -> Seq<char> {
    "baseline_results.json"@
}

/// File in which the first measurement of a comparison saves its statistics
/// and from which the second loads them.
pub fn baseline_file() -> (name: &'static str)
    ensures
        name@ == spec_baseline_file(),
{
    "baseline_results.json"
}

/// The words of a command line.
pub open spec fn words(args: Seq<&'static str>) -> Seq<Seq<char>> {
    args.map_values(|word: &'static str| word@)
}

impl BenchMode {
    /// The arguments with which the build tool runs the benchmark program in
    /// this mode.
    pub open spec fn spec_cargo_args(self) -> Seq<Seq<char>> {
        let run = seq!["run"@, "--bin"@, "globalsearch-benches"@, "--release"@];
        match self {
            BenchMode::Standard => run,
            BenchMode::SaveBaseline => run + seq!["--"@, "--save-json"@, spec_baseline_file()],
            BenchMode::CompareWithBaseline => run + seq![
                "--"@,
                "--load-baseline"@,
                spec_baseline_file(),
            ],
        }
    }

    /// The arguments with which the build tool runs the benchmark program in
    /// this mode.
    pub fn cargo_args(self) -> (args: Vec<&'static str>)
        ensures
            words(args@) == self.spec_cargo_args(),
    {
        let mut args: Vec<&'static str> = vec!["run", "--bin", "globalsearch-benches", "--release"];
        match self {
            BenchMode::Standard => {},
            BenchMode::SaveBaseline => {
                args.push("--");
                args.push("--save-json");
                args.push(baseline_file());
            },
            BenchMode::CompareWithBaseline => {
                args.push("--");
                args.push("--load-baseline");
                args.push(baseline_file());
            },
        }
        assert(words(args@) =~= self.spec_cargo_args());
        args
    }
}

/// The arguments with which the build tool forgets what it built of the
/// package under test, so that the next run builds it again.
pub open spec fn spec_rebuild_args() -> Seq<Seq<char>> {
    seq!["clean"@, "-p"@, "globalsearch"@]
}

/// The arguments with which the build tool forgets what it built of the
/// package under test, so that the next run builds it again.
pub fn rebuild_args() -> (args: Vec<&'static str>)
    ensures
        words(args@) == spec_rebuild_args(),
{
    let args: Vec<&'static str> = vec!["clean", "-p", "globalsearch"];
    assert(words(args@) =~= spec_rebuild_args());
    args
}

/// What kind of run it was.
#[derive(Clone, Copy, Debug, PartialEq, Eq, Hash)]
pub enum Mode {
    /// One measurement, no candidate.
    Standard,
    /// Baseline and candidate, both measured.
    Comparison,
}

/// Why a run was given up.
#[derive(Clone, Copy, Debug, PartialEq, Eq, Hash)]
pub enum Failure {
    /// The benchmark program failed in this mode.
    Benchmark(BenchMode),
    /// The statistics that an earlier comparison saved could not be removed.
    BaselineCleanup,
    /// The candidate could not be swapped in.
    Swap(SwapError),
}

/// How a run ended. The two warnings do not change the result.
#[derive(Clone, Copy, Debug, PartialEq, Eq, Hash)]
pub struct Outcome {
    pub result: Result<Mode, Failure>,
    /// The rebuild between the two measurements failed, so the second
    /// measurement may be that of a stale build.
    pub rebuild_failed: bool,
    /// The directories could not be put back.
    pub restore_failed: bool,
}

/// What the orchestrator wants done next. Every action but the last is
/// answered with `true` when it went well.
#[derive(Clone, Copy, Debug, PartialEq, Eq, Hash)]
pub enum Action {
    /// Serve the request on the directories below the root.
    Guard(Request),
    /// Remove the statistics that an earlier comparison saved, if there are any.
    ClearBaseline,
    /// Run the benchmark program.
    RunBench(BenchMode),
    /// Force a rebuild of the package under test.
    Rebuild,
    /// The run is over.
    Finish(Outcome),
}

/// The part of a run that the orchestrator is in.
#[derive(Clone, Copy, Debug, PartialEq, Eq, Hash)]
pub enum Phase {
    /// It asked whether there is a candidate.
    Discovering,
    /// The only measurement is running.
    Standard,
    /// Saved statistics are being removed.
    Clearing,
    /// The baseline is being measured.
    Baseline,
    /// The candidate is being swapped in.
    Swapping,
    /// The package under test is being rebuilt.
    Rebuilding,
    /// The candidate is being measured.
    Candidate,
    /// The directories are being put back; the result of the run is known.
    Restoring(Result<Mode, Failure>),
    /// The run is over.
    Finished(Outcome),
}

/// Where an orchestrator stands.
pub struct Position {
    /// The root whose directories the run renames.
    pub root: PathBuf,
    pub phase: Phase,
    /// The stage of its guard.
    pub stage: Stage,
    /// Whether its guard counts as swapped.
    pub swapped: bool,
    /// Whether the rebuild has failed.
    pub rebuild_failed: bool,
}

/// A position and the action that was handed out on reaching it.
pub struct Turn {
    pub position: Position,
    pub action: Action,
}

impl Position {
    /// The run ends here with `result`.
    pub open spec fn finished(self, result: Result<Mode, Failure>, restore_failed: bool) -> Turn {
        let outcome = Outcome { result, rebuild_failed: self.rebuild_failed, restore_failed };
        Turn { position: Position { phase: Phase::Finished(outcome), ..self }, action: Action::Finish(outcome) }
    }

    /// The result of the run is known and the guard is told to restore: a
    /// swapped guard starts to, any other has nothing to put back.
    pub open spec fn released(self, result: Result<Mode, Failure>) -> Turn {
        if self.swapped {
            Turn {
                position: Position {
                    phase: Phase::Restoring(result),
                    stage: Stage::RestoreProbeActive,
                    ..self
                },
                action: Action::Guard(Request::Probe(Slot::Active)),
            }
        } else {
            self.finished(result, false)
        }
    }

    /// The guard was given an answer.
    pub open spec fn guarded(self, answer: bool) -> Position {
        Position {
            stage: self.stage.following(answer),
            swapped: self.stage.marks(answer, self.swapped),
            ..self
        }
    }

    /// The position after `answer`, and the action handed out there.
    pub open spec fn next(self, answer: bool) -> Turn {
        match self.phase {
            Phase::Discovering => if answer {
                Turn { position: Position { phase: Phase::Clearing, ..self }, action: Action::ClearBaseline }
            } else {
                Turn {
                    position: Position { phase: Phase::Standard, ..self },
                    action: Action::RunBench(BenchMode::Standard),
                }
            },
            Phase::Standard => if answer {
                self.finished(Ok(Mode::Standard), false)
            } else {
                self.finished(Err(Failure::Benchmark(BenchMode::Standard)), false)
            },
            Phase::Clearing => if answer {
                Turn {
                    position: Position { phase: Phase::Baseline, ..self },
                    action: Action::RunBench(BenchMode::SaveBaseline),
                }
            } else {
                self.finished(Err(Failure::BaselineCleanup), false)
            },
            Phase::Baseline => if answer {
                Turn {
                    position: Position {
                        phase: Phase::Swapping,
                        stage: Stage::SwapProbeCandidate,
                        ..self
                    },
                    action: Action::Guard(Request::Probe(Slot::Candidate)),
                }
            } else {
                self.finished(Err(Failure::Benchmark(BenchMode::SaveBaseline)), false)
            },
            Phase::Swapping => match step_of(
                self.stage.following(answer),
                self.stage.verdict(answer),
            ) {
                Step::Ask(request) => Turn {
                    position: self.guarded(answer),
                    action: Action::Guard(request),
                },
                Step::Done(Ok(())) => Turn {
                    position: Position { phase: Phase::Rebuilding, ..self.guarded(answer) },
                    action: Action::Rebuild,
                },
                Step::Done(Err(error)) => self.guarded(answer).released(
                    Err(Failure::Swap(error)),
                ),
            },
            Phase::Rebuilding => Turn {
                position: Position { phase: Phase::Candidate, rebuild_failed: !answer, ..self },
                action: Action::RunBench(BenchMode::CompareWithBaseline),
            },
            Phase::Candidate => if answer {
                self.released(Ok(Mode::Comparison))
            } else {
                self.released(Err(Failure::Benchmark(BenchMode::CompareWithBaseline)))
            },
            Phase::Restoring(result) => match step_of(
                self.stage.following(answer),
                self.stage.verdict(answer),
            ) {
                Step::Ask(request) => Turn {
                    position: self.guarded(answer),
                    action: Action::Guard(request),
                },
                Step::Done(restore) => self.guarded(answer).finished(result, restore is Err),
            },
            Phase::Finished(outcome) => Turn { position: self, action: Action::Finish(outcome) },
        }
    }
}

/// The position in which every run starts: the question whether there is a
/// candidate has been asked.
pub open spec fn opening(root: PathBuf) -> Turn {
    Turn {
        position: Position {
            root,
            phase: Phase::Discovering,
            stage: Stage::Idle,
            swapped: false,
            rebuild_failed: false,
        },
        action: Action::Guard(Request::Probe(Slot::Candidate)),
    }
}

/// Decides, step by step, what a comparison run does next.
#[derive(Debug)]
pub struct Orchestrator {
    guard: DirectoryGuard,
    phase: Phase,
    rebuild_failed: bool,
}

impl View for Orchestrator {
    type V = Position;

    closed spec fn view(&self) -> Position {
        Position {
            root: self.guard.root_path(),
            phase: self.phase,
            stage: self.guard.stage(),
            swapped: self.guard.swapped(),
            rebuild_failed: self.rebuild_failed,
        }
    }
}

impl Orchestrator {
    /// Starts a run on `root` and hands out its first action: the question
    /// whether the candidate directory exists.
    pub fn start(root: PathBuf) -> (begun: (Orchestrator, Action))
        ensures
            begun.0@ == opening(root).position,
            begun.1 == opening(root).action,
    {
        let orchestrator = Orchestrator {
            guard: DirectoryGuard::new(root),
            phase: Phase::Discovering,
            rebuild_failed: false,
        };
        (orchestrator, Action::Guard(Request::Probe(Slot::Candidate)))
    }

    /// The guard of the run.
    pub fn guard(&self) -> (guard: &DirectoryGuard)
        ensures
            guard.stage() == self@.stage,
            guard.swapped() == self@.swapped,
            guard.root_path() == self@.root,
    {
        &self.guard
    }

    /// How the run ended, once it has.
    pub fn outcome(&self) -> (outcome: Option<Outcome>)
        ensures
            outcome == match self@.phase {
                Phase::Finished(outcome) => Some(outcome),
                _ => None,
            },
    {
        match self.phase {
            Phase::Finished(outcome) => Some(outcome),
            _ => None,
        }
    }

    fn finish(&mut self, result: Result<Mode, Failure>, restore_failed: bool) -> (action: Action)
        ensures
            (Turn { position: final(self)@, action }) == old(self)@.finished(result, restore_failed),
    {
        let outcome = Outcome { result, rebuild_failed: self.rebuild_failed, restore_failed };
        self.phase = Phase::Finished(outcome);
        Action::Finish(outcome)
    }

    fn release(&mut self, result: Result<Mode, Failure>) -> (action: Action)
        ensures
            (Turn { position: final(self)@, action }) == old(self)@.released(result),
    {
        match self.guard.begin_restore() {
            Step::Ask(request) => {
                self.phase = Phase::Restoring(result);
                Action::Guard(request)
            },
            Step::Done(restore) => self.finish(result, restore.is_err()),
        }
    }

    /// Takes the answer to the action that was handed out last and hands out
    /// the next one. A run that is over stays over.
    pub fn advance(&mut self, answer: bool) -> (action: Action)
        ensures
            (Turn { position: final(self)@, action }) == old(self)@.next(answer),
    {
        match self.phase {
            Phase::Discovering => {
                if answer {
                    self.phase = Phase::Clearing;
                    Action::ClearBaseline
                } else {
                    self.phase = Phase::Standard;
                    Action::RunBench(BenchMode::Standard)
                }
            },
            Phase::Standard => {
                if answer {
                    self.finish(Ok(Mode::Standard), false)
                } else {
                    self.finish(Err(Failure::Benchmark(BenchMode::Standard)), false)
                }
            },
            Phase::Clearing => {
                if answer {
                    self.phase = Phase::Baseline;
                    Action::RunBench(BenchMode::SaveBaseline)
                } else {
                    self.finish(Err(Failure::BaselineCleanup), false)
                }
            },
            Phase::Baseline => {
                if answer {
                    self.phase = Phase::Swapping;
                    Action::Guard(self.guard.begin_swap())
                } else {
                    self.finish(Err(Failure::Benchmark(BenchMode::SaveBaseline)), false)
                }
            },
            Phase::Swapping => {
                match self.guard.advance(answer) {
                    Step::Ask(request) => Action::Guard(request),
                    Step::Done(Ok(())) => {
                        self.phase = Phase::Rebuilding;
                        Action::Rebuild
                    },
                    Step::Done(Err(error)) => self.release(Err(Failure::Swap(error))),
                }
            },
            Phase::Rebuilding => {
                self.rebuild_failed = !answer;
                self.phase = Phase::Candidate;
                Action::RunBench(BenchMode::CompareWithBaseline)
            },
            Phase::Candidate => {
                if answer {
                    self.release(Ok(Mode::Comparison))
                } else {
                    self.release(Err(Failure::Benchmark(BenchMode::CompareWithBaseline)))
                }
            },
            Phase::Restoring(result) => {
                match self.guard.advance(answer) {
                    Step::Ask(request) => Action::Guard(request),
                    Step::Done(restore) => self.finish(result, restore.is_err()),
                }
            },
            Phase::Finished(outcome) => Action::Finish(outcome),
        }
    }
}

/// How the actions that do not touch the directories go in a run that is
/// thought through: `true` where the action goes well.
pub struct Script {
    pub standard_ok: bool,
    pub clear_ok: bool,
    pub baseline_ok: bool,
    pub rebuild_ok: bool,
    pub candidate_ok: bool,
}

/// How a run that was thought through ended.
pub struct Ending {
    /// Where the orchestrator stands.
    pub position: Position,
    /// What the directories hold.
    pub tree: Layout,
    /// The actions that were handed out, in order, the last of them `Finish`.
    pub trace: Seq<Action>,
    pub outcome: Outcome,
}

/// The answer to an action: that of the layout for a request on the
/// directories, that of the script for every other.
pub open spec fn respond(action: Action, tree: Layout, script: Script) -> bool {
    match action {
        Action::Guard(request) => tree.answer(request),
        Action::ClearBaseline => script.clear_ok,
        Action::RunBench(BenchMode::Standard) => script.standard_ok,
        Action::RunBench(BenchMode::SaveBaseline) => script.baseline_ok,
        Action::RunBench(BenchMode::CompareWithBaseline) => script.candidate_ok,
        Action::Rebuild => script.rebuild_ok,
        Action::Finish(_) => true,
    }
}

/// The layout after an action: only a request on the directories changes it.
pub open spec fn serve(action: Action, tree: Layout) -> Layout {
    match action {
        Action::Guard(request) => tree.after(request),
        _ => tree,
    }
}

impl Position {
    /// An upper bound on the actions that are still to be answered.
    pub open spec fn steps_left(self) -> nat {
        match self.phase {
            Phase::Discovering => 15,
            Phase::Standard => 1,
            Phase::Clearing => 14,
            Phase::Baseline => 13,
            Phase::Swapping => self.stage.steps_left() + 8,
            Phase::Rebuilding => 7,
            Phase::Candidate => 6,
            Phase::Restoring(_) => self.stage.steps_left() + 1,
            Phase::Finished(_) => 0,
        }
    }
}

/// Follows a run from `turn` to its end, the directories being `tree` and the
/// rest going as `script` says.
pub open spec fn play(turn: Turn, tree: Layout, script: Script) -> Ending
    decreases turn.position.steps_left(), (if turn.action is Finish { 0nat } else { 1nat }),
{
    match turn.action {
        Action::Finish(outcome) => Ending {
            position: turn.position,
            tree,
            trace: seq![turn.action],
            outcome,
        },
        _ => {
            let answer = respond(turn.action, tree, script);
            let rest = play(turn.position.next(answer), serve(turn.action, tree), script);
            Ending { trace: seq![turn.action] + rest.trace, ..rest }
        },
    }
}

/// Whether `answers` are answers that `perform` gives to the actions of a run
/// that stands at `turn`, one for each action up to the end of the run, and
/// the run ends on them at `end`.
pub open spec fn accounts_for<F: Fn(Action) -> bool>(
    perform: F,
    turn: Turn,
    answers: Seq<bool>,
    end: Turn,
) -> bool
    decreases answers.len(),
{
    match turn.action {
        Action::Finish(_) => answers.len() == 0 && end == turn,
        _ => answers.len() > 0 && call_ensures(perform, (turn.action,), answers[0])
            && accounts_for(perform, turn.position.next(answers[0]), answers.drop_first(), end),
    }
}

impl Orchestrator {
    /// Has `perform` carry out the actions of the run, from `action` on, until
    /// the run is over.
    fn proceed<F: Fn(Action) -> bool>(&mut self, perform: &F, action: Action) -> (outcome: Outcome)
        requires
            forall|any: Action| call_requires(*perform, (any,)),
        ensures
            exists|answers: Seq<bool>|
                accounts_for(
                    *perform,
                    Turn { position: old(self)@, action },
                    answers,
                    Turn { position: final(self)@, action: Action::Finish(outcome) },
                ),
        decreases old(self)@.steps_left(), (if action is Finish { 0nat } else { 1nat }),
    {
        let ghost turn = Turn { position: self@, action };
        match action {
            Action::Finish(outcome) => {
                proof {
                    assert(accounts_for(*perform, turn, Seq::<bool>::empty(), turn));
                }
                outcome
            },
            _ => {
                let answer = perform(action);
                let next = self.advance(answer);
                let ghost after = Turn { position: self@, action: next };
                let outcome = self.proceed(perform, next);
                proof {
                    let end = Turn { position: self@, action: Action::Finish(outcome) };
                    let rest = choose|rest: Seq<bool>| accounts_for(*perform, after, rest, end);
                    let answers = seq![answer] + rest;
                    assert(answers.drop_first() =~= rest);
                    assert(accounts_for(*perform, turn, answers, end));
                }
                outcome
            },
        }
    }

    /// Runs a comparison on `root`. `perform` carries out each action and says
    /// how it went. The run asks whether there is a candidate. Without one it
    /// measures once. With one it removes saved statistics, measures the
    /// baseline, swaps the candidate in, has the package under test rebuilt,
    /// measures the candidate and restores the directories; it gives up at a
    /// measurement that fails, or where the swap is refused, and restores the
    /// directories before it ends wherever the candidate was swapped in. The
    /// outcome is the one that the answers of `perform` lead to.
    pub fn run<F: Fn(Action) -> bool>(root: PathBuf, perform: &F) -> (outcome: Outcome)
        requires
            forall|any: Action| call_requires(*perform, (any,)),
        ensures
            exists|answers: Seq<bool>, position: Position|
                accounts_for(
                    *perform,
                    opening(root),
                    answers,
                    Turn { position, action: Action::Finish(outcome) },
                ),
    {
        let (mut orchestrator, first) = Orchestrator::start(root);
        orchestrator.proceed(perform, first)
    }
}

/// However the actions of a run are answered, the run is over after thirteen
/// answers at most, and its guard is idle and not swapped when it ends:
/// wherever the candidate was swapped in, a restore was attempted before the
/// end, and the outcome says whether it failed.
pub proof fn run_ends_with_guard_released<F: Fn(Action) -> bool>(
    perform: F,
    root: PathBuf,
    answers: Seq<bool>,
    end: Turn,
)
    requires
        accounts_for(perform, opening(root), answers, end),
    ensures
        answers.len() <= 13,
        end.action is Finish,
        end.position.phase is Finished,
        end.position.stage == Stage::Idle,
        !end.position.swapped,
        end.position.root == root,
{
    reveal_with_fuel(accounts_for, 15);
}

/// Where the question for the candidate directory is answered with no, a run
/// measures exactly once and does nothing else: two actions are answered, the
/// guard starts neither a swap nor a restore, and no warning is given.
pub proof fn run_without_candidate<F: Fn(Action) -> bool>(
    perform: F,
    root: PathBuf,
    answers: Seq<bool>,
    end: Turn,
)
    requires
        accounts_for(perform, opening(root), answers, end),
        forall|found: bool|
            call_ensures(perform, (Action::Guard(Request::Probe(Slot::Candidate)),), found)
                ==> !found,
    ensures
        answers.len() == 2,
        call_ensures(perform, (Action::RunBench(BenchMode::Standard),), answers[1]),
        end.position.stage == Stage::Idle,
        !end.position.swapped,
        end.action == Action::Finish(
            Outcome {
                result: if answers[1] {
                    Ok(Mode::Standard)
                } else {
                    Err(Failure::Benchmark(BenchMode::Standard))
                },
                rebuild_failed: false,
                restore_failed: false,
            },
        ),
{
    reveal_with_fuel(accounts_for, 4);
}

/// Whatever a run comes to, it leaves in every directory what it found there,
/// and its guard is not swapped at the end.
pub proof fn run_leaves_directories_as_found(root: PathBuf, tree: Layout, script: Script)
    ensures
        play(opening(root), tree, script).tree == tree,
        !play(opening(root), tree, script).position.swapped,
{
    reveal_with_fuel(play, 16);
}

/// Without a candidate directory a run measures exactly once: it renames
/// nothing, never starts a swap or a restore, and ends with no warning.
pub proof fn no_candidate_means_one_measurement(root: PathBuf, tree: Layout, script: Script)
    requires
        tree.candidate is None,
    ensures
        ({
            let ending = play(opening(root), tree, script);
            &&& ending.trace =~= seq![
                Action::Guard(Request::Probe(Slot::Candidate)),
                Action::RunBench(BenchMode::Standard),
                Action::Finish(ending.outcome),
            ]
            &&& ending.outcome == (Outcome {
                result: if script.standard_ok {
                    Ok(Mode::Standard)
                } else {
                    Err(Failure::Benchmark(BenchMode::Standard))
                },
                rebuild_failed: false,
                restore_failed: false,
            })
            &&& ending.position.stage == Stage::Idle
            &&& !ending.position.swapped
            &&& ending.tree == tree
        }),
{
    reveal_with_fuel(play, 4);
}

/// Once the candidate is swapped in, the run goes on to the second
/// measurement and then puts the directories back, whether or not the rebuild
/// and the second measurement went well. A failed rebuild is a warning only.
pub proof fn swap_is_undone_whatever_follows(root: PathBuf, tree: Layout, script: Script)
    requires
        tree.active is Some,
        tree.candidate is Some,
        tree.temp is None,
        script.clear_ok,
        script.baseline_ok,
    ensures
        ({
            let ending = play(opening(root), tree, script);
            &&& ending.trace =~= seq![
                Action::Guard(Request::Probe(Slot::Candidate)),
                Action::ClearBaseline,
                Action::RunBench(BenchMode::SaveBaseline),
                Action::Guard(Request::Probe(Slot::Candidate)),
                Action::Guard(Request::Probe(Slot::Temp)),
                Action::Guard(Request::Rename { from: Slot::Active, to: Slot::Temp }),
                Action::Guard(Request::Rename { from: Slot::Candidate, to: Slot::Active }),
                Action::Rebuild,
                Action::RunBench(BenchMode::CompareWithBaseline),
                Action::Guard(Request::Probe(Slot::Active)),
                Action::Guard(Request::Rename { from: Slot::Active, to: Slot::Candidate }),
                Action::Guard(Request::Probe(Slot::Temp)),
                Action::Guard(Request::Rename { from: Slot::Temp, to: Slot::Active }),
                Action::Finish(ending.outcome),
            ]
            &&& ending.outcome == (Outcome {
                result: if script.candidate_ok {
                    Ok(Mode::Comparison)
                } else {
                    Err(Failure::Benchmark(BenchMode::CompareWithBaseline))
                },
                rebuild_failed: !script.rebuild_ok,
                restore_failed: false,
            })
            &&& !ending.position.swapped
            &&& ending.tree == tree
        }),
{
    reveal_with_fuel(play, 16);
}

} // verus!
