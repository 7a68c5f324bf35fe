use globalsearch_benches::guard::SwapError;
use globalsearch_benches::layout::{Layout, Request, Slot};
use globalsearch_benches::orchestrator::{
    baseline_file, rebuild_args, Action, BenchMode, Failure, Mode, Orchestrator, Outcome,
};
use std::cell::RefCell;
use std::path::PathBuf;

struct World {
    tree: Layout,
    standard_ok: bool,
    clear_ok: bool,
    baseline_ok: bool,
    rebuild_ok: bool,
    candidate_ok: bool,
    trace: Vec<Action>,
}

fn world(tree: Layout) -> World {
    World {
        tree,
        standard_ok: true,
        clear_ok: true,
        baseline_ok: true,
        rebuild_ok: true,
        candidate_ok: true,
        trace: Vec::new(),
    }
}

fn play(world: World) -> (Outcome, World) {
    let cell = RefCell::new(world);
    let outcome = Orchestrator::run(PathBuf::from("/work/optimizer"), &|action: Action| {
        let mut w = cell.borrow_mut();
        w.trace.push(action);
        match action {
            Action::Guard(request) => w.tree.perform(request),
            Action::ClearBaseline => w.clear_ok,
            Action::RunBench(BenchMode::Standard) => w.standard_ok,
            Action::RunBench(BenchMode::SaveBaseline) => w.baseline_ok,
            Action::RunBench(BenchMode::CompareWithBaseline) => w.candidate_ok,
            Action::Rebuild => w.rebuild_ok,
            Action::Finish(_) => true,
        }
    });
    (outcome, cell.into_inner())
}

fn swap_requests() -> Vec<Action> {
    vec![
        Action::Guard(Request::Probe(Slot::Candidate)),
        Action::Guard(Request::Probe(Slot::Temp)),
        Action::Guard(Request::Rename { from: Slot::Active, to: Slot::Temp }),
        Action::Guard(Request::Rename { from: Slot::Candidate, to: Slot::Active }),
    ]
}

fn restore_requests() -> Vec<Action> {
    vec![
        Action::Guard(Request::Probe(Slot::Active)),
        Action::Guard(Request::Rename { from: Slot::Active, to: Slot::Candidate }),
        Action::Guard(Request::Probe(Slot::Temp)),
        Action::Guard(Request::Rename { from: Slot::Temp, to: Slot::Active }),
    ]
}

fn full_trace() -> Vec<Action> {
    let mut trace = vec![
        Action::Guard(Request::Probe(Slot::Candidate)),
        Action::ClearBaseline,
        Action::RunBench(BenchMode::SaveBaseline),
    ];
    trace.extend(swap_requests());
    trace.push(Action::Rebuild);
    trace.push(Action::RunBench(BenchMode::CompareWithBaseline));
    trace.extend(restore_requests());
    trace
}

#[test]
fn bench_arguments_per_mode() {
    assert_eq!(
        BenchMode::Standard.cargo_args(),
        vec!["run", "--bin", "globalsearch-benches", "--release"]
    );
    assert_eq!(
        BenchMode::SaveBaseline.cargo_args(),
        vec![
            "run",
            "--bin",
            "globalsearch-benches",
            "--release",
            "--",
            "--save-json",
            "baseline_results.json"
        ]
    );
    assert_eq!(
        BenchMode::CompareWithBaseline.cargo_args(),
        vec![
            "run",
            "--bin",
            "globalsearch-benches",
            "--release",
            "--",
            "--load-baseline",
            "baseline_results.json"
        ]
    );
}

#[test]
fn rebuild_arguments_and_baseline_file() {
    assert_eq!(rebuild_args(), vec!["clean", "-p", "globalsearch"]);
    assert_eq!(baseline_file(), "baseline_results.json");
}

#[test]
fn start_asks_for_the_candidate() {
    let (orchestrator, first) = Orchestrator::start(PathBuf::from("/r"));
    assert_eq!(first, Action::Guard(Request::Probe(Slot::Candidate)));
    assert_eq!(orchestrator.outcome(), None);
    assert!(!orchestrator.guard().is_swapped());
    assert_eq!(orchestrator.guard().root(), &PathBuf::from("/r"));
}

#[test]
fn no_candidate_runs_exactly_one_measurement() {
    let before = Layout::new(Some(1), None, None);
    let (outcome, w) = play(world(before));
    assert_eq!(
        outcome,
        Outcome { result: Ok(Mode::Standard), rebuild_failed: false, restore_failed: false }
    );
    assert_eq!(
        w.trace,
        vec![
            Action::Guard(Request::Probe(Slot::Candidate)),
            Action::RunBench(BenchMode::Standard),
        ]
    );
    assert_eq!(w.tree, before);
}

#[test]
fn no_candidate_and_failing_measurement() {
    let mut w = world(Layout::new(Some(1), None, Some(4)));
    w.standard_ok = false;
    let (outcome, w) = play(w);
    assert_eq!(outcome.result, Err(Failure::Benchmark(BenchMode::Standard)));
    assert!(!outcome.rebuild_failed);
    assert!(!outcome.restore_failed);
    assert_eq!(w.trace.len(), 2);
    assert_eq!(w.tree, Layout { active: Some(1), candidate: None, temp: Some(4) });
}

#[test]
fn comparison_runs_both_phases_and_restores() {
    let before = Layout::new(Some(1), Some(2), None);
    let (outcome, w) = play(world(before));
    assert_eq!(
        outcome,
        Outcome { result: Ok(Mode::Comparison), rebuild_failed: false, restore_failed: false }
    );
    assert_eq!(w.trace, full_trace());
    assert_eq!(w.tree, before);
}

#[test]
fn failed_rebuild_is_a_warning_and_layout_is_restored() {
    let before = Layout::new(Some(1), Some(2), None);
    let mut w = world(before);
    w.rebuild_ok = false;
    let (outcome, w) = play(w);
    assert_eq!(
        outcome,
        Outcome { result: Ok(Mode::Comparison), rebuild_failed: true, restore_failed: false }
    );
    assert_eq!(w.trace, full_trace());
    assert_eq!(w.tree, before);
}

#[test]
fn failed_candidate_measurement_still_restores() {
    let before = Layout::new(Some(1), Some(2), None);
    let mut w = world(before);
    w.candidate_ok = false;
    w.rebuild_ok = false;
    let (outcome, w) = play(w);
    assert_eq!(
        outcome,
        Outcome {
            result: Err(Failure::Benchmark(BenchMode::CompareWithBaseline)),
            rebuild_failed: true,
            restore_failed: false
        }
    );
    assert_eq!(w.trace, full_trace());
    assert_eq!(w.tree, before);
}

#[test]
fn failed_baseline_measurement_ends_before_any_swap() {
    let before = Layout::new(Some(1), Some(2), None);
    let mut w = world(before);
    w.baseline_ok = false;
    let (outcome, w) = play(w);
    assert_eq!(outcome.result, Err(Failure::Benchmark(BenchMode::SaveBaseline)));
    assert_eq!(
        w.trace,
        vec![
            Action::Guard(Request::Probe(Slot::Candidate)),
            Action::ClearBaseline,
            Action::RunBench(BenchMode::SaveBaseline),
        ]
    );
    assert_eq!(w.tree, before);
}

#[test]
fn failed_cleanup_ends_the_run() {
    let mut w = world(Layout::new(Some(1), Some(2), None));
    w.clear_ok = false;
    let (outcome, w) = play(w);
    assert_eq!(outcome.result, Err(Failure::BaselineCleanup));
    assert_eq!(w.trace.len(), 2);
}

#[test]
fn stale_temp_is_fatal_and_nothing_is_renamed() {
    let before = Layout::new(Some(1), Some(2), Some(3));
    let (outcome, w) = play(world(before));
    assert_eq!(
        outcome,
        Outcome {
            result: Err(Failure::Swap(SwapError::StalePreviousRun)),
            rebuild_failed: false,
            restore_failed: false
        }
    );
    assert_eq!(
        w.trace,
        vec![
            Action::Guard(Request::Probe(Slot::Candidate)),
            Action::ClearBaseline,
            Action::RunBench(BenchMode::SaveBaseline),
            Action::Guard(Request::Probe(Slot::Candidate)),
            Action::Guard(Request::Probe(Slot::Temp)),
        ]
    );
    assert_eq!(w.tree, before);
}

#[test]
fn missing_active_directory_fails_the_swap() {
    let before = Layout::new(None, Some(2), None);
    let (outcome, w) = play(world(before));
    assert_eq!(outcome.result, Err(Failure::Swap(SwapError::RenameFailed { step: 1 })));
    assert_eq!(w.tree, before);
}

#[test]
fn restore_failure_is_reported_and_does_not_change_the_result() {
    let (mut orchestrator, first) = Orchestrator::start(PathBuf::from("/r"));
    assert_eq!(first, Action::Guard(Request::Probe(Slot::Candidate)));
    let answers = [true, true, true, true, false, true, true, false, true];
    let mut last = first;
    for answer in answers {
        last = orchestrator.advance(answer);
    }
    assert_eq!(last, Action::Guard(Request::Probe(Slot::Active)));
    assert!(orchestrator.guard().is_swapped());
    assert_eq!(
        orchestrator.advance(true),
        Action::Guard(Request::Rename { from: Slot::Active, to: Slot::Candidate })
    );
    let expected = Outcome {
        result: Ok(Mode::Comparison),
        rebuild_failed: true,
        restore_failed: true,
    };
    assert_eq!(orchestrator.advance(false), Action::Finish(expected));
    assert_eq!(orchestrator.outcome(), Some(expected));
    assert!(!orchestrator.guard().is_swapped());
    assert!(!orchestrator.guard().in_progress());
    assert_eq!(orchestrator.advance(true), Action::Finish(expected));
}

#[test]
fn second_rename_of_swap_failing_ends_the_run_without_restore_requests() {
    let (mut orchestrator, _) = Orchestrator::start(PathBuf::from("/r"));
    for answer in [true, true, true, true, false, true] {
        orchestrator.advance(answer);
    }
    assert_eq!(
        orchestrator.advance(false),
        Action::Finish(Outcome {
            result: Err(Failure::Swap(SwapError::RenameFailed { step: 2 })),
            rebuild_failed: false,
            restore_failed: false,
        })
    );
    assert!(!orchestrator.guard().is_swapped());
}
