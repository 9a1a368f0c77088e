use bci_core::osc::App;
use bci_core::tally::AggMap;
use bci_core::types::{Agg, Item};

fn item(id: &str) -> Item {
    Item { id: id.to_string(), title: id.to_uppercase(), bin: "red".to_string(), source: "s".to_string() }
}

#[test]
fn a_fresh_scope_keeps_its_endpoint() {
    let a = App::new("https://bci.blue".to_string());
    assert_eq!(a.endpoint, "https://bci.blue");
    assert_eq!(a.state.history.len(), 60);
}

#[test]
fn refresh_takes_in_both_payloads() {
    let mut a = App::new("e".to_string());
    let mut m = AggMap::new();
    m.insert("a".to_string(), Agg { red: 1, blue: 4, abstain: 0, total: 5 });
    a.apply_refresh(Ok(vec![item("a"), item("b")]), Ok(m));
    assert_eq!(a.state.items.len(), 2);
    assert_eq!(a.state.history.len(), 61);
    assert_eq!(*a.state.history.last().unwrap(), 3);
    assert_eq!(a.state.last_msg, "");
    assert_eq!(a.totals().blue, 4);
    assert_eq!(a.gf3(), 0);
}

#[test]
fn refresh_reports_each_error() {
    let mut a = App::new("e".to_string());
    a.apply_refresh(Err("timeout".to_string()), Ok(AggMap::new()));
    assert_eq!(a.state.last_msg, "catalog err: timeout");
    assert_eq!(a.state.history.len(), 61);
    a.apply_refresh(Ok(vec![item("a")]), Err("bad json".to_string()));
    assert_eq!(a.state.last_msg, "agg err: bad json");
    assert_eq!(a.state.items.len(), 1);
    assert_eq!(a.state.history.len(), 61);
    a.apply_refresh(Err("x".to_string()), Err("y".to_string()));
    assert_eq!(a.state.last_msg, "agg err: y");
}

#[test]
fn refresh_pulls_the_cursor_back() {
    let mut a = App::new("e".to_string());
    a.apply_refresh(Ok(vec![item("a"), item("b"), item("c")]), Err("-".to_string()));
    a.prev();
    assert_eq!(a.state.selected, 2);
    a.apply_refresh(Ok(vec![item("a")]), Err("-".to_string()));
    assert_eq!(a.state.selected, 0);
    a.next();
    assert_eq!(a.state.selected, 0);
}

#[test]
fn vote_outcomes_are_reported() {
    let mut a = App::new("e".to_string());
    a.apply_vote_outcome("a", -1, Ok(Agg { red: 2, blue: 0, abstain: 0, total: 2 }));
    assert_eq!(a.state.last_msg, "voted red on a");
    assert_eq!(*a.state.history.last().unwrap(), -2);
    a.apply_vote_outcome("a", 1, Err("503".to_string()));
    assert_eq!(a.state.last_msg, "vote err: 503");
    assert_eq!(a.state.history.len(), 61);
}
