use globalsearch_benches::guard::{DirectoryGuard, Stage, Step, SwapError};
use globalsearch_benches::layout::{Layout, Request, Slot};
use std::cell::RefCell;
use std::path::PathBuf;

fn guard() -> DirectoryGuard {
    DirectoryGuard::new(PathBuf::from("/work/optimizer"))
}

#[test]
fn directory_names() {
    assert_eq!(Slot::Active.dir_name(), "src");
    assert_eq!(Slot::Candidate.dir_name(), "src-new");
    assert_eq!(Slot::Temp.dir_name(), "src-original-temp");
}

#[test]
fn new_guard_is_idle_and_not_swapped() {
    let g = guard();
    assert!(!g.is_swapped());
    assert!(!g.in_progress());
    assert_eq!(g.root(), &PathBuf::from("/work/optimizer"));
}

#[test]
fn layout_rename_moves_the_tree() {
    let mut tree = Layout::new(Some(1), None, None);
    assert!(tree.has(Slot::Active));
    assert!(!tree.has(Slot::Temp));
    assert!(tree.rename(Slot::Active, Slot::Temp));
    assert_eq!(tree, Layout { active: None, candidate: None, temp: Some(1) });
    assert_eq!(tree.get(Slot::Temp), Some(1));
}

#[test]
fn layout_rename_needs_a_source_and_a_free_target() {
    let mut tree = Layout::new(Some(1), Some(2), None);
    assert!(!tree.rename(Slot::Temp, Slot::Active));
    assert!(!tree.rename(Slot::Active, Slot::Candidate));
    assert_eq!(tree, Layout { active: Some(1), candidate: Some(2), temp: None });
}

#[test]
fn layout_perform_answers_requests() {
    let mut tree = Layout::new(Some(1), Some(2), None);
    assert!(tree.perform(Request::Probe(Slot::Candidate)));
    assert!(!tree.perform(Request::Probe(Slot::Temp)));
    assert!(tree.perform(Request::Rename { from: Slot::Candidate, to: Slot::Temp }));
    assert_eq!(tree, Layout { active: Some(1), candidate: None, temp: Some(2) });
    tree.set(Slot::Candidate, Some(9));
    assert_eq!(tree.get(Slot::Candidate), Some(9));
}

#[test]
fn swap_puts_candidate_in_place() {
    let mut tree = Layout::new(Some(1), Some(2), None);
    let mut g = guard();
    assert_eq!(g.swap_on(&mut tree), Ok(()));
    assert!(g.is_swapped());
    assert!(!g.in_progress());
    assert_eq!(tree, Layout { active: Some(2), candidate: None, temp: Some(1) });
}

#[test]
fn swap_without_candidate_is_refused() {
    let mut tree = Layout::new(Some(1), None, None);
    let mut g = guard();
    assert_eq!(g.swap_on(&mut tree), Err(SwapError::CandidateNotFound));
    assert!(!g.is_swapped());
    assert_eq!(tree, Layout { active: Some(1), candidate: None, temp: None });
}

#[test]
fn swap_with_stale_temp_fails_and_renames_nothing() {
    let mut tree = Layout::new(Some(1), Some(2), Some(7));
    let mut g = guard();
    assert_eq!(g.swap_on(&mut tree), Err(SwapError::StalePreviousRun));
    assert!(!g.is_swapped());
    assert_eq!(tree, Layout { active: Some(1), candidate: Some(2), temp: Some(7) });
}

#[test]
fn swap_with_stale_temp_and_no_candidate_reports_the_candidate() {
    let mut tree = Layout::new(Some(1), None, Some(7));
    let mut g = guard();
    assert_eq!(g.swap_on(&mut tree), Err(SwapError::CandidateNotFound));
    assert_eq!(tree, Layout { active: Some(1), candidate: None, temp: Some(7) });
}

#[test]
fn swap_without_active_fails_at_first_rename() {
    let mut tree = Layout::new(None, Some(2), None);
    let mut g = guard();
    assert_eq!(g.swap_on(&mut tree), Err(SwapError::RenameFailed { step: 1 }));
    assert!(!g.is_swapped());
    assert_eq!(tree, Layout { active: None, candidate: Some(2), temp: None });
}

#[test]
fn restore_after_swap_gives_back_the_layout() {
    let before = Layout::new(Some(1), Some(2), None);
    let mut tree = before;
    let mut g = guard();
    assert_eq!(g.swap_on(&mut tree), Ok(()));
    assert_eq!(g.restore_on(&mut tree), Ok(()));
    assert!(!g.is_swapped());
    assert_eq!(tree, before);
}

#[test]
fn restore_twice_is_restore_once() {
    let mut tree = Layout::new(Some(1), Some(2), None);
    let mut g = guard();
    assert_eq!(g.swap_on(&mut tree), Ok(()));
    assert_eq!(g.restore_on(&mut tree), Ok(()));
    let after_first = tree;
    assert_eq!(g.restore_on(&mut tree), Ok(()));
    assert_eq!(tree, after_first);
    assert!(!g.is_swapped());
}

#[test]
fn restore_when_never_swapped_is_a_no_op() {
    let mut tree = Layout::new(Some(1), Some(2), Some(3));
    let mut g = guard();
    assert_eq!(g.restore_on(&mut tree), Ok(()));
    assert_eq!(tree, Layout { active: Some(1), candidate: Some(2), temp: Some(3) });
    assert!(!g.is_swapped());
}

#[test]
fn restore_blocked_by_a_new_candidate_fails_and_leaves_guard_unswapped() {
    let mut tree = Layout::new(Some(1), Some(2), None);
    let mut g = guard();
    assert_eq!(g.swap_on(&mut tree), Ok(()));
    tree.set(Slot::Candidate, Some(5));
    let blocked = tree;
    assert_eq!(g.restore_on(&mut tree), Err(SwapError::RestoreFailed));
    assert!(!g.is_swapped());
    assert!(!g.in_progress());
    assert_eq!(tree, blocked);
    assert_eq!(g.restore_on(&mut tree), Ok(()));
    assert!(!g.is_swapped());
    assert_eq!(tree, blocked);
}

#[test]
fn restore_without_active_only_moves_temp_back() {
    let mut tree = Layout::new(Some(1), Some(2), None);
    let mut g = guard();
    assert_eq!(g.swap_on(&mut tree), Ok(()));
    tree.set(Slot::Active, None);
    assert_eq!(g.restore_on(&mut tree), Ok(()));
    assert_eq!(tree, Layout { active: Some(1), candidate: None, temp: None });
}

#[test]
fn second_swap_while_swapped_is_refused() {
    let mut tree = Layout::new(Some(1), Some(2), None);
    let mut g = guard();
    assert_eq!(g.swap_on(&mut tree), Ok(()));
    let swapped = tree;
    assert_eq!(g.swap_on(&mut tree), Err(SwapError::CandidateNotFound));
    assert_eq!(tree, swapped);
    tree.set(Slot::Candidate, Some(8));
    assert_eq!(g.swap_on(&mut tree), Err(SwapError::StalePreviousRun));
    assert!(g.is_swapped());
}

#[test]
fn steps_of_a_swap_in_order() {
    let mut g = guard();
    assert_eq!(g.begin_swap(), Request::Probe(Slot::Candidate));
    assert!(g.in_progress());
    assert_eq!(g.advance(true), Step::Ask(Request::Probe(Slot::Temp)));
    assert_eq!(
        g.advance(false),
        Step::Ask(Request::Rename { from: Slot::Active, to: Slot::Temp })
    );
    assert_eq!(
        g.advance(true),
        Step::Ask(Request::Rename { from: Slot::Candidate, to: Slot::Active })
    );
    assert!(!g.is_swapped());
    assert_eq!(g.advance(true), Step::Done(Ok(())));
    assert!(g.is_swapped());
    assert!(!g.in_progress());
}

#[test]
fn second_rename_failing_leaves_guard_unswapped() {
    let mut g = guard();
    g.begin_swap();
    g.advance(true);
    g.advance(false);
    g.advance(true);
    assert_eq!(g.advance(false), Step::Done(Err(SwapError::RenameFailed { step: 2 })));
    assert!(!g.is_swapped());
    assert_eq!(g.begin_restore(), Step::Done(Ok(())));
}

#[test]
fn first_rename_failing_is_step_one() {
    let mut g = guard();
    g.begin_swap();
    g.advance(true);
    g.advance(false);
    assert_eq!(g.advance(false), Step::Done(Err(SwapError::RenameFailed { step: 1 })));
    assert!(!g.is_swapped());
}

#[test]
fn stale_temp_answer_ends_swap_before_any_rename() {
    let mut g = guard();
    assert_eq!(g.begin_swap(), Request::Probe(Slot::Candidate));
    assert_eq!(g.advance(true), Step::Ask(Request::Probe(Slot::Temp)));
    assert_eq!(g.advance(true), Step::Done(Err(SwapError::StalePreviousRun)));
    assert!(!g.is_swapped());
    assert!(!g.in_progress());
}

fn swapped_guard() -> DirectoryGuard {
    let mut g = guard();
    g.begin_swap();
    g.advance(true);
    g.advance(false);
    g.advance(true);
    g.advance(true);
    g
}

#[test]
fn steps_of_a_restore_in_order() {
    let mut g = swapped_guard();
    assert_eq!(g.begin_restore(), Step::Ask(Request::Probe(Slot::Active)));
    assert_eq!(
        g.advance(true),
        Step::Ask(Request::Rename { from: Slot::Active, to: Slot::Candidate })
    );
    assert_eq!(g.advance(true), Step::Ask(Request::Probe(Slot::Temp)));
    assert_eq!(
        g.advance(true),
        Step::Ask(Request::Rename { from: Slot::Temp, to: Slot::Active })
    );
    assert!(g.is_swapped());
    assert_eq!(g.advance(true), Step::Done(Ok(())));
    assert!(!g.is_swapped());
}

#[test]
fn restore_with_nothing_to_move_clears_the_mark() {
    let mut g = swapped_guard();
    assert_eq!(g.begin_restore(), Step::Ask(Request::Probe(Slot::Active)));
    assert_eq!(g.advance(false), Step::Ask(Request::Probe(Slot::Temp)));
    assert_eq!(g.advance(false), Step::Done(Ok(())));
    assert!(!g.is_swapped());
}

#[test]
fn restore_rename_failing_clears_the_mark() {
    let mut g = swapped_guard();
    g.begin_restore();
    g.advance(true);
    assert!(g.is_swapped());
    assert_eq!(g.advance(false), Step::Done(Err(SwapError::RestoreFailed)));
    assert!(!g.is_swapped());
    assert!(!g.in_progress());
    assert_eq!(g.begin_restore(), Step::Done(Ok(())));

    let mut g = swapped_guard();
    g.begin_restore();
    g.advance(false);
    g.advance(true);
    assert!(g.is_swapped());
    assert_eq!(g.advance(false), Step::Done(Err(SwapError::RestoreFailed)));
    assert!(!g.is_swapped());
    assert_eq!(g.begin_restore(), Step::Done(Ok(())));
}

#[test]
fn failed_restore_through_a_serving_function_is_not_retried() {
    let asked: RefCell<Vec<Request>> = RefCell::new(Vec::new());
    let serve = |request: Request| {
        asked.borrow_mut().push(request);
        match request {
            Request::Probe(_) => true,
            Request::Rename { .. } => false,
        }
    };
    let mut g = swapped_guard();
    assert_eq!(g.restore(&serve), Err(SwapError::RestoreFailed));
    assert!(!g.is_swapped());
    assert_eq!(
        *asked.borrow(),
        vec![
            Request::Probe(Slot::Active),
            Request::Rename { from: Slot::Active, to: Slot::Candidate },
        ]
    );
    asked.borrow_mut().clear();
    assert_eq!(g.restore(&serve), Ok(()));
    assert!(asked.borrow().is_empty());
}

#[test]
fn advance_with_nothing_in_progress_is_done() {
    let mut g = guard();
    assert_eq!(g.advance(true), Step::Done(Ok(())));
    assert_eq!(g.advance(false), Step::Done(Ok(())));
    assert!(!g.is_swapped());
}

#[test]
fn swap_and_restore_through_a_serving_function() {
    let tree = RefCell::new(Layout::new(Some(10), Some(20), None));
    let asked: RefCell<Vec<Request>> = RefCell::new(Vec::new());
    let serve = |request: Request| {
        asked.borrow_mut().push(request);
        tree.borrow_mut().perform(request)
    };
    let mut g = guard();
    assert_eq!(g.swap(&serve), Ok(()));
    assert!(g.is_swapped());
    assert_eq!(*tree.borrow(), Layout { active: Some(20), candidate: None, temp: Some(10) });
    assert_eq!(
        *asked.borrow(),
        vec![
            Request::Probe(Slot::Candidate),
            Request::Probe(Slot::Temp),
            Request::Rename { from: Slot::Active, to: Slot::Temp },
            Request::Rename { from: Slot::Candidate, to: Slot::Active },
        ]
    );
    asked.borrow_mut().clear();
    assert_eq!(g.restore(&serve), Ok(()));
    assert!(!g.is_swapped());
    assert_eq!(*tree.borrow(), Layout { active: Some(10), candidate: Some(20), temp: None });
    assert_eq!(
        *asked.borrow(),
        vec![
            Request::Probe(Slot::Active),
            Request::Rename { from: Slot::Active, to: Slot::Candidate },
            Request::Probe(Slot::Temp),
            Request::Rename { from: Slot::Temp, to: Slot::Active },
        ]
    );
    asked.borrow_mut().clear();
    assert_eq!(g.restore(&serve), Ok(()));
    assert!(asked.borrow().is_empty());
    assert_eq!(*tree.borrow(), Layout { active: Some(10), candidate: Some(20), temp: None });
}

#[test]
fn stale_temp_through_a_serving_function_asks_two_questions() {
    let tree = RefCell::new(Layout::new(Some(10), Some(20), Some(30)));
    let asked: RefCell<Vec<Request>> = RefCell::new(Vec::new());
    let serve = |request: Request| {
        asked.borrow_mut().push(request);
        tree.borrow_mut().perform(request)
    };
    let mut g = guard();
    assert_eq!(g.swap(&serve), Err(SwapError::StalePreviousRun));
    assert!(!g.is_swapped());
    assert_eq!(
        *asked.borrow(),
        vec![Request::Probe(Slot::Candidate), Request::Probe(Slot::Temp)]
    );
    assert_eq!(*tree.borrow(), Layout { active: Some(10), candidate: Some(20), temp: Some(30) });
}

#[test]
fn failing_rename_through_a_serving_function() {
    let serve = |request: Request| match request {
        Request::Probe(Slot::Candidate) => true,
        Request::Probe(_) => false,
        Request::Rename { from: Slot::Active, .. } => true,
        Request::Rename { .. } => false,
    };
    let mut g = guard();
    assert_eq!(g.swap(&serve), Err(SwapError::RenameFailed { step: 2 }));
    assert!(!g.is_swapped());
    assert_eq!(g.restore(&serve), Ok(()));
}

#[test]
fn stage_is_visible_in_debug_output() {
    assert_eq!(format!("{:?}", Stage::Idle), "Idle");
}
