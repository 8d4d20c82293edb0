use taskdeck::task::{Status, Task};
use taskdeck::util::Util;

#[test]
fn priority_indicator_is_reversed_scale() {
    assert_eq!(Util::get_priority_indicator(1), "!!!");
    assert_eq!(Util::get_priority_indicator(2), "!!");
    assert_eq!(Util::get_priority_indicator(3), "!");
    assert_eq!(Util::get_priority_indicator(0), "");
    assert_eq!(Util::get_priority_indicator(9), "");
}

#[test]
fn spaced_title_pads_both_sides() {
    assert_eq!(Util::get_spaced_title("projects"), " projects ");
    assert_eq!(Util::get_spaced_title(""), "  ");
}

#[test]
fn status_labels_in_cycle_order() {
    let items = Task::load_statues_items();
    assert_eq!(items, vec!["UpNext", "OnGoing", "Done"]);
    assert_eq!(Task::status_label(Status::OnGoing), "OnGoing");
}

#[test]
fn priority_items_in_cycle_order() {
    let items = Task::load_priority_items();
    assert_eq!(items, vec!["!!!", "!!", "!", ""]);
}
