use gde::git::OnelineLog;
use gde::navigator::{to_term_string, LogNavigator};

fn line(hash: &str) -> OnelineLog {
    OnelineLog::from(format!("* {hash} - msg (2023-01-01) <me>").as_str())
}

fn deco() -> OnelineLog {
    OnelineLog::from("|\\")
}

#[test]
fn next_wraps_to_first_commit() {
    let mut n = LogNavigator::new(vec![deco(), line("aaa"), deco(), line("bbb")]);
    n.next();
    assert_eq!(Some(1), n.selected());
    n.next();
    assert_eq!(Some(3), n.selected());
    n.next();
    assert_eq!(Some(1), n.selected());
    match n.current() {
        Some(OnelineLog::Commit(c)) => assert_eq!("aaa", c.hash()),
        _ => panic!("expected a commit"),
    }
}

#[test]
fn prev_wraps_to_last_commit() {
    let mut n = LogNavigator::new(vec![deco(), line("aaa"), deco(), line("bbb"), deco()]);
    n.prev();
    assert_eq!(Some(3), n.selected());
    n.prev();
    assert_eq!(Some(1), n.selected());
    n.prev();
    assert_eq!(Some(3), n.selected());
}

#[test]
fn only_decorations_select_nothing() {
    let mut n = LogNavigator::new(vec![deco(), deco()]);
    n.next();
    assert_eq!(None, n.selected());
    n.prev();
    assert_eq!(None, n.selected());
    assert!(n.current().is_none());
    let mut empty = LogNavigator::new(Vec::new());
    empty.next();
    assert_eq!(None, empty.selected());
}

#[test]
fn get_next_and_prev_search_both_ways() {
    let n = LogNavigator::new(vec![line("a"), deco(), deco(), line("d")]);
    assert_eq!(Some(3), n.get_next(1));
    assert_eq!(Some(0), n.get_prev(2));
    assert_eq!(Some(0), n.get_next(0));
}

#[test]
fn term_strings() {
    let l = line("abc");
    assert_eq!(
        "[F] * abc - msg (2023-01-01) <me>",
        to_term_string(&l, Some("F"))
    );
    assert_eq!("    |\\", to_term_string(&deco(), None));
}
