use glideslope::checklist::landing::landing_checklist;
use glideslope::checklist::Checklist;

#[test]
fn matches_the_roadmap_item_list_in_order() {
    let checklist = landing_checklist();
    let names: Vec<&str> = checklist.items.iter().map(|item| item.name.as_str()).collect();
    assert_eq!(names, vec!["Gear", "Flaps", "Spoilers", "Autobrake", "Cabin"]);
}

#[test]
fn next_pending_returns_items_in_order() {
    let checklist = Checklist::new("Test", &["A", "B", "C"]);
    assert_eq!(checklist.next_pending(), Some(0));
}

#[test]
fn check_next_marks_the_first_pending_item_and_advances() {
    let mut checklist = Checklist::new("Test", &["A", "B"]);
    assert_eq!(checklist.check_next(), Some("A".to_string()));
    assert_eq!(checklist.next_pending(), Some(1));
    assert_eq!(checklist.check_next(), Some("B".to_string()));
    assert_eq!(checklist.next_pending(), None);
}

#[test]
fn check_next_on_a_complete_checklist_returns_none() {
    let mut checklist = Checklist::new("Test", &["A"]);
    checklist.check_next();
    assert_eq!(checklist.check_next(), None);
}

#[test]
fn is_complete_reflects_item_state() {
    let mut checklist = Checklist::new("Test", &["A", "B"]);
    assert!(!checklist.is_complete());
    checklist.check_next();
    assert!(!checklist.is_complete());
    checklist.check_next();
    assert!(checklist.is_complete());
}

#[test]
fn empty_checklist_is_complete_by_definition() {
    let checklist = Checklist::new("Empty", &[]);
    assert!(checklist.is_complete());
    assert_eq!(checklist.next_pending(), None);
}

#[test]
fn landing_checklist_is_named_and_starts_untouched() {
    let checklist = landing_checklist();
    assert_eq!(checklist.name, "Landing Checklist");
    assert!(checklist.items.iter().all(|item| !item.complete));
    assert_eq!(checklist.next_pending(), Some(0));
}

#[test]
fn marking_an_item_out_of_order_leaves_the_earlier_ones_pending() {
    let mut checklist = Checklist::new("Test", &["A", "B", "C"]);
    checklist.mark_complete(1);
    assert!(!checklist.items[0].complete);
    assert!(checklist.items[1].complete);
    assert!(!checklist.items[2].complete);
    assert_eq!(checklist.next_pending(), Some(0));
    assert_eq!(checklist.check_next(), Some("A".to_string()));
    assert_eq!(checklist.next_pending(), Some(2));
}

#[test]
fn checking_never_uncompletes_an_item() {
    let mut checklist = Checklist::new("Test", &["A", "B"]);
    checklist.check_next();
    checklist.mark_complete(0);
    assert!(checklist.items[0].complete);
    checklist.check_next();
    checklist.check_next();
    assert!(checklist.items.iter().all(|item| item.complete));
}
