use raytrace::trace::{after_query, begin, trace_path, Outcome, Step, Terminal};

#[test]
fn zero_budget_is_black() {
    assert_eq!(begin(0), Step::Finish(Terminal::Black));
    assert_eq!(begin(-4), Step::Finish(Terminal::Black));
    assert_eq!(trace_path(0, &vec![Outcome::Miss]), (0, Terminal::Black));
    assert_eq!(trace_path(0, &vec![Outcome::Scattered, Outcome::Miss]), (0, Terminal::Black));
}

#[test]
fn budget_left_queries() {
    assert_eq!(begin(1), Step::Query);
    assert_eq!(begin(50), Step::Query);
}

#[test]
fn outcomes_after_query() {
    assert_eq!(after_query(3, Outcome::Miss), Step::Finish(Terminal::Sky));
    assert_eq!(after_query(3, Outcome::Absorbed), Step::Finish(Terminal::Black));
    assert_eq!(after_query(3, Outcome::Scattered), Step::Follow(2));
    assert_eq!(after_query(1, Outcome::Scattered), Step::Follow(0));
}

#[test]
fn miss_sees_sky() {
    assert_eq!(trace_path(5, &vec![Outcome::Miss]), (0, Terminal::Sky));
}

#[test]
fn bounces_until_sky() {
    let path = vec![Outcome::Scattered, Outcome::Scattered, Outcome::Miss];
    assert_eq!(trace_path(5, &path), (2, Terminal::Sky));
}

#[test]
fn budget_cuts_path_to_black() {
    let path = vec![Outcome::Scattered, Outcome::Scattered, Outcome::Miss];
    assert_eq!(trace_path(2, &path), (2, Terminal::Black));
    assert_eq!(trace_path(1, &path), (1, Terminal::Black));
}

#[test]
fn absorbed_is_black() {
    let path = vec![Outcome::Scattered, Outcome::Absorbed, Outcome::Miss];
    assert_eq!(trace_path(5, &path), (1, Terminal::Black));
}
