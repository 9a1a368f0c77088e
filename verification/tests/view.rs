use bci_core::app::App;
use bci_core::bins::{bin_members, bin_vote_total, is_cursor_row, item_net, position_of};
use bci_core::input::{action_for, refresh_due, Action, Key};
use bci_core::tally::AggMap;
use bci_core::trit::gf3_residue;
use bci_core::types::{Agg, Item};

fn item(id: &str, bin: &str) -> Item {
    Item { id: id.to_string(), title: id.to_string(), bin: bin.to_string(), source: String::new() }
}

fn agg(red: u64, blue: u64, abstain: u64, total: u64) -> Agg {
    Agg { red, blue, abstain, total }
}

#[test]
fn keys_map_to_actions() {
    assert_eq!(action_for(Key::Char('q'), true), Action::Quit);
    assert_eq!(action_for(Key::Esc, true), Action::Quit);
    assert_eq!(action_for(Key::Char('r'), true), Action::Vote(-1));
    assert_eq!(action_for(Key::Char('b'), true), Action::Vote(1));
    assert_eq!(action_for(Key::Char(' '), true), Action::Vote(0));
    assert_eq!(action_for(Key::Down, true), Action::Next);
    assert_eq!(action_for(Key::Char('j'), true), Action::Next);
    assert_eq!(action_for(Key::Up, true), Action::Prev);
    assert_eq!(action_for(Key::Char('k'), true), Action::Prev);
    assert_eq!(action_for(Key::Char('R'), true), Action::Refresh);
    assert_eq!(action_for(Key::Char('x'), true), Action::Idle);
    assert_eq!(action_for(Key::Other, true), Action::Idle);
    assert_eq!(action_for(Key::Char('q'), false), Action::Skip);
}

#[test]
fn refresh_is_due_strictly_after_fifteen_seconds() {
    assert!(!refresh_due(0));
    assert!(!refresh_due(15_000_000_000));
    assert!(refresh_due(15_000_000_001));
}

#[test]
fn bins_partition_the_catalogue_in_order() {
    let items = vec![item("a", "red"), item("b", "blue"), item("c", "red"), item("d", "green")];
    assert_eq!(bin_members(&items, "red"), vec![0, 2]);
    assert_eq!(bin_members(&items, "blue"), vec![1]);
    assert_eq!(bin_members(&items, "purple"), Vec::<usize>::new());
}

#[test]
fn the_cursor_row_is_the_first_item_with_that_id() {
    let items = vec![item("a", "red"), item("b", "blue"), item("a", "red")];
    assert_eq!(position_of(&items, "a"), 0);
    assert_eq!(position_of(&items, "b"), 1);
    assert_eq!(position_of(&items, "zz"), 0);
    assert!(is_cursor_row(&items, 0, "a"));
    assert!(!is_cursor_row(&items, 2, "a"));
    assert!(is_cursor_row(&items, 1, "b"));
}

#[test]
fn item_net_is_blue_minus_red() {
    assert_eq!(item_net(&agg(3, 10, 1, 14)), 7);
    assert_eq!(item_net(&agg(10, 3, 0, 13)), -7);
}

#[test]
fn a_bin_counts_the_totals_of_its_items() {
    let items = vec![item("a", "red"), item("b", "blue"), item("c", "red")];
    let mut m = AggMap::new();
    m.insert("a".to_string(), agg(1, 1, 1, 3));
    m.insert("b".to_string(), agg(0, 4, 0, 4));
    let red = bin_members(&items, "red");
    let blue = bin_members(&items, "blue");
    assert_eq!(bin_vote_total(&m, &items, &red), 3);
    assert_eq!(bin_vote_total(&m, &items, &blue), 4);
}

#[test]
fn totals_add_up_over_disjoint_maps_in_any_order() {
    let mut m1 = AggMap::new();
    m1.insert("a".to_string(), agg(1, 2, 3, 6));
    let mut m2 = AggMap::new();
    m2.insert("b".to_string(), agg(4, 5, 6, 15));
    m2.insert("c".to_string(), agg(7, 8, 9, 24));
    let mut m3 = AggMap::new();
    m3.insert("c".to_string(), agg(7, 8, 9, 24));
    m3.insert("a".to_string(), agg(1, 2, 3, 6));
    m3.insert("b".to_string(), agg(4, 5, 6, 15));
    let (t1, t2, t3) = (m1.totals(), m2.totals(), m3.totals());
    assert_eq!(t3, agg(t1.red + t2.red, t1.blue + t2.blue, t1.abstain + t2.abstain, t1.total + t2.total));
    assert_eq!(m3.net_total(), m1.net_total() + m2.net_total());
}

#[test]
fn a_balanced_item_keeps_the_gf3_balance() {
    let mut a = App::new();
    a.apply_vote("x", agg(1, 3, 0, 4), 1);
    let before = a.gf3();
    a.apply_vote("y", agg(5, 5, 2, 12), 0);
    assert_eq!(a.gf3(), before);
}

#[test]
fn gf3_is_the_newest_sample_mod_three() {
    let mut a = App::new();
    a.apply_vote("x", agg(7, 2, 0, 9), -1);
    assert_eq!(a.gf3(), gf3_residue(*a.history.last().unwrap()));
    let mut m = AggMap::new();
    m.insert("p".to_string(), agg(0, 11, 0, 11));
    m.insert("q".to_string(), agg(3, 0, 0, 3));
    a.set_aggs(m);
    assert_eq!(a.gf3(), gf3_residue(*a.history.last().unwrap()));
    assert_eq!(a.gf3(), 2);
}
