use bci_core::app::App;
use bci_core::tally::AggMap;
use bci_core::types::{Agg, Item};

fn item(id: &str, bin: &str) -> Item {
    Item {
        id: id.to_string(),
        title: format!("title of {id}"),
        bin: bin.to_string(),
        source: "test".to_string(),
    }
}

fn agg(red: u64, blue: u64, abstain: u64, total: u64) -> Agg {
    Agg { red, blue, abstain, total }
}

#[test]
fn a_fresh_app_is_empty_with_sixty_zero_samples() {
    let a = App::new();
    assert!(a.items.is_empty());
    assert_eq!(a.aggs.len(), 0);
    assert_eq!(a.selected, 0);
    assert_eq!(a.history, vec![0_i64; 60]);
    assert_eq!(a.last_msg, "");
    let d = App::default();
    assert_eq!(d.history.len(), 60);
}

#[test]
fn agg_default_is_all_zero() {
    assert_eq!(Agg::default(), agg(0, 0, 0, 0));
}

#[test]
fn cursor_wraps_both_ways() {
    let mut a = App::new();
    a.set_items(vec![item("a", "red"), item("b", "blue"), item("c", "red")]);
    assert_eq!(a.selected, 0);
    a.prev();
    assert_eq!(a.selected, 2);
    a.next();
    assert_eq!(a.selected, 0);
    a.next();
    a.next();
    assert_eq!(a.selected, 2);
    a.next();
    assert_eq!(a.selected, 0);
}

#[test]
fn next_then_prev_returns_to_the_same_item() {
    let mut a = App::new();
    a.set_items(vec![item("a", "red"), item("b", "blue"), item("c", "red"), item("d", "blue")]);
    for start in 0..4 {
        a.selected = start;
        a.next();
        a.prev();
        assert_eq!(a.selected, start);
        a.prev();
        a.next();
        assert_eq!(a.selected, start);
    }
}

#[test]
fn cursor_does_not_move_without_items() {
    let mut a = App::new();
    a.next();
    assert_eq!(a.selected, 0);
    a.prev();
    assert_eq!(a.selected, 0);
    assert!(a.selected_item().is_none());
}

#[test]
fn set_items_pulls_the_cursor_back_onto_the_list() {
    let mut a = App::new();
    a.set_items(vec![item("a", "red"), item("b", "blue"), item("c", "red")]);
    a.selected = 2;
    a.set_items(vec![item("x", "red")]);
    assert_eq!(a.selected, 0);
    assert_eq!(a.selected_item().unwrap().id, "x");
    a.set_items(vec![item("x", "red"), item("y", "red")]);
    assert_eq!(a.selected, 0);
    a.selected = 1;
    a.set_items(Vec::new());
    assert_eq!(a.selected, 1);
    assert!(a.selected_item().is_none());
}

#[test]
fn selected_item_is_the_one_under_the_cursor() {
    let mut a = App::new();
    a.set_items(vec![item("a", "red"), item("b", "blue")]);
    a.next();
    assert_eq!(a.selected_item().unwrap().id, "b");
    assert_eq!(a.selected_item().unwrap().bin, "blue");
}

#[test]
fn apply_vote_stores_the_aggregate_and_reports_it() {
    let mut a = App::new();
    a.apply_vote("abc", agg(1, 5, 2, 8), 1);
    assert_eq!(a.last_msg, "voted blue on abc");
    assert_eq!(a.aggs.get("abc"), Some(&agg(1, 5, 2, 8)));
    assert_eq!(a.aggs.get("zzz"), None);
    assert_eq!(a.history.len(), 61);
    assert_eq!(*a.history.last().unwrap(), 4);
    a.apply_vote("abc", agg(3, 5, 2, 10), -1);
    assert_eq!(a.last_msg, "voted red on abc");
    assert_eq!(a.aggs.len(), 1);
    assert_eq!(a.aggs.get("abc"), Some(&agg(3, 5, 2, 10)));
    assert_eq!(*a.history.last().unwrap(), 2);
    a.apply_vote("def", agg(0, 0, 1, 1), 0);
    assert_eq!(a.last_msg, "voted abstain on def");
    assert_eq!(a.aggs.len(), 2);
    a.apply_vote("def", agg(0, 0, 1, 1), 7);
    assert_eq!(a.last_msg, "voted ? on def");
}

#[test]
fn totals_add_up_every_count() {
    let mut a = App::new();
    a.apply_vote("a", agg(1, 5, 2, 8), 1);
    a.apply_vote("b", agg(2, 0, 1, 3), -1);
    assert_eq!(a.totals(), agg(3, 5, 3, 11));
    assert_eq!(a.gf3(), 2);
}

#[test]
fn gf3_of_a_red_majority_is_in_range() {
    let mut a = App::new();
    a.apply_vote("a", agg(4, 0, 0, 4), -1);
    assert_eq!(a.gf3(), 2);
    a.apply_vote("b", agg(0, 1, 0, 1), 1);
    assert_eq!(a.gf3(), 0);
}

#[test]
fn totals_wrap_like_u64_addition() {
    let mut m = AggMap::new();
    m.insert("a".to_string(), agg(u64::MAX, 0, 0, 0));
    m.insert("b".to_string(), agg(2, 0, 0, 0));
    assert_eq!(m.totals().red, 1);
}

#[test]
fn history_keeps_the_latest_hundred_and_twenty_samples() {
    let mut a = App::new();
    for i in 0..70_u64 {
        a.apply_vote("a", agg(0, i, 0, i), 1);
        assert!(a.history.len() <= 120);
    }
    assert_eq!(a.history.len(), 120);
    assert_eq!(a.history[0], 0);
    assert_eq!(a.history[49], 0);
    assert_eq!(a.history[50], 0);
    assert_eq!(a.history[51], 1);
    assert_eq!(*a.history.last().unwrap(), 69);
}

#[test]
fn set_aggs_replaces_the_aggregates_and_records_the_net() {
    let mut a = App::new();
    a.apply_vote("old", agg(0, 9, 0, 9), 1);
    let mut m = AggMap::new();
    m.insert("x".to_string(), agg(7, 2, 0, 9));
    m.insert("y".to_string(), agg(0, 3, 0, 3));
    a.set_aggs(m);
    assert_eq!(a.aggs.get("old"), None);
    assert_eq!(a.aggs.get("x"), Some(&agg(7, 2, 0, 9)));
    assert_eq!(*a.history.last().unwrap(), -2);
    assert_eq!(a.history.len(), 62);
}

#[test]
fn err_only_sets_the_message() {
    let mut a = App::new();
    a.set_items(vec![item("a", "red")]);
    a.err("catalog: down".to_string());
    assert_eq!(a.last_msg, "catalog: down");
    assert_eq!(a.items.len(), 1);
    assert_eq!(a.history.len(), 60);
}

#[test]
fn net_score_wraps_like_i64_arithmetic() {
    let mut m = AggMap::new();
    m.insert("a".to_string(), agg(0, i64::MAX as u64, 0, 0));
    m.insert("b".to_string(), agg(0, 1, 0, 0));
    assert_eq!(m.net_total(), i64::MIN);
}

#[test]
fn storing_under_one_id_leaves_the_others_alone() {
    let mut m = AggMap::new();
    m.insert("a".to_string(), agg(1, 2, 3, 6));
    m.insert("b".to_string(), agg(4, 5, 6, 15));
    m.insert("a".to_string(), agg(0, 1, 0, 1));
    assert_eq!(m.len(), 2);
    assert_eq!(m.get("a"), Some(&agg(0, 1, 0, 1)));
    assert_eq!(m.get("b"), Some(&agg(4, 5, 6, 15)));
}

#[test]
fn replacing_an_aggregate_adjusts_the_totals_by_the_difference() {
    let mut m = AggMap::new();
    m.insert("a".to_string(), agg(1, 2, 3, 6));
    m.insert("b".to_string(), agg(4, 5, 6, 15));
    let before = m.totals();
    let net_before = m.net_total();
    m.insert("a".to_string(), agg(10, 0, 3, 13));
    let after = m.totals();
    assert_eq!(after.red, before.red - 1 + 10);
    assert_eq!(after.blue, before.blue - 2);
    assert_eq!(after.abstain, before.abstain);
    assert_eq!(after.total, before.total - 6 + 13);
    assert_eq!(m.net_total(), net_before - (2 - 1) + (0 - 10));
}

#[test]
fn setting_the_same_items_twice_keeps_the_cursor() {
    let mut a = App::new();
    let list = vec![item("a", "red"), item("b", "blue")];
    a.selected = 7;
    a.set_items(list.clone());
    let once = a.selected;
    a.set_items(list);
    assert_eq!(a.selected, once);
    assert_eq!(once, 1);
}

#[test]
fn every_operation_keeps_the_cursor_on_the_list() {
    let mut a = App::new();
    a.set_items(vec![item("a", "red"), item("b", "blue"), item("c", "red")]);
    for step in 0..20 {
        if step % 3 == 0 {
            a.prev();
        } else {
            a.next();
        }
        assert!(a.selected < a.items.len());
        assert!(a.history.len() >= 60 && a.history.len() <= 120);
    }
    a.set_items(vec![item("z", "blue")]);
    assert!(a.selected < a.items.len());
}
