use rust_primer::smart_pointers::refcell::alert_for;
use rust_primer::smart_pointers::refcell::Alert;
use rust_primer::smart_pointers::refcell::LimitTracker;
use rust_primer::smart_pointers::refcell::Messenger;
use std::cell::RefCell;

struct MockMessenger {
    sent_messages: RefCell<Vec<String>>,
}

impl MockMessenger {
    fn new() -> MockMessenger {
        MockMessenger { sent_messages: RefCell::new(vec![]) }
    }
}

impl Messenger for MockMessenger {
    fn send(&self, message: &str) {
        let mut one_borrow = self.sent_messages.borrow_mut();
        one_borrow.push(String::from(message));
    }
}

#[test]
fn it_sends_an_over_75_percent_warning_message() {
    let mock_messenger = MockMessenger::new();
    let mut limit_tracker = LimitTracker::new(&mock_messenger, 100);
    limit_tracker.set_value(80);
    assert_eq!(mock_messenger.sent_messages.borrow().len(), 1);
}

fn sent(value: usize, max: usize) -> Vec<String> {
    let mock_messenger = MockMessenger::new();
    let mut limit_tracker = LimitTracker::new(&mock_messenger, max);
    limit_tracker.set_value(value);
    let messages = mock_messenger.sent_messages.borrow().clone();
    messages
}

#[test]
fn each_share_of_the_quota_has_its_message() {
    let none: Vec<String> = vec![];
    assert_eq!(sent(0, 100), none);
    assert_eq!(sent(74, 100), none);
    assert_eq!(sent(75, 100), vec!["Warning: You've used up over 75% of your quota!"]);
    assert_eq!(sent(89, 100), vec!["Warning: You've used up over 75% of your quota!"]);
    assert_eq!(sent(90, 100), vec!["Urgent warning: You've used up over 90% of your quota!"]);
    assert_eq!(sent(99, 100), vec!["Urgent warning: You've used up over 90% of your quota!"]);
    assert_eq!(sent(100, 100), vec!["Error: You are over your quota!"]);
    assert_eq!(sent(250, 100), vec!["Error: You are over your quota!"]);
}

#[test]
fn a_quota_of_zero_is_passed_by_any_use() {
    let none: Vec<String> = vec![];
    assert_eq!(sent(0, 0), none);
    assert_eq!(sent(1, 0), vec!["Error: You are over your quota!"]);
}

#[test]
fn every_value_set_is_judged_on_its_own() {
    let mock_messenger = MockMessenger::new();
    let mut limit_tracker = LimitTracker::new(&mock_messenger, 4);
    limit_tracker.set_value(1);
    limit_tracker.set_value(3);
    limit_tracker.set_value(2);
    limit_tracker.set_value(4);
    limit_tracker.set_value(3);
    assert_eq!(
        *mock_messenger.sent_messages.borrow(),
        vec![
            "Warning: You've used up over 75% of your quota!",
            "Error: You are over your quota!",
            "Warning: You've used up over 75% of your quota!",
        ]
    );
}

#[test]
fn alerts_are_exact_at_the_limits_of_the_machine() {
    assert_eq!(alert_for(usize::MAX, usize::MAX), Some(Alert::Over));
    assert_eq!(alert_for(usize::MAX - 1, usize::MAX), Some(Alert::Urgent));
    assert_eq!(alert_for(usize::MAX / 4 * 3, usize::MAX), None);
    assert_eq!(alert_for(usize::MAX / 4 * 3 + 3, usize::MAX), Some(Alert::Warning));
    assert_eq!(alert_for(3, 4), Some(Alert::Warning));
    assert_eq!(alert_for(9, 10), Some(Alert::Urgent));
    assert_eq!(alert_for(8, 10), Some(Alert::Warning));
    assert_eq!(alert_for(7, 10), None);
    assert_eq!(Alert::Over.message(), "Error: You are over your quota!");
}
