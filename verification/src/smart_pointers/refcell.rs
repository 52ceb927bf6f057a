//! A tracker that watches how much of a quota is used up and sends a message
//! when the use passes 75%, 90% or all of it.

use vstd::prelude::*;

verus! {

/// Something that can deliver a message. Implementations are free to record
/// or forward the message as they see fit.
pub trait Messenger {
    fn send(&self, msg: &str);
}

/// How close to the quota a value is.
#[derive(PartialEq, Eq, Structural, Debug, Clone, Copy)]
pub enum Alert {
    /// At least 75% and less than 90% of the quota.
    Warning,
    /// At least 90% of the quota and less than all of it.
    Urgent,
    /// All of the quota, or more.
    Over,
}

/// The alert that `value` calls for under the quota `max`, if any. The
/// shares are exact: `value / max >= 3 / 4` means `4 * value >= 3 * max`.
/// With a quota of zero every use but zero is over the quota.
pub open spec fn alert(value: nat, max: nat) -> Option<Alert> {
    if max == 0 && value == 0 {
        None
    } else if value >= max {
        Some(Alert::Over)
    } else if 10 * value >= 9 * max {
        Some(Alert::Urgent)
    } else if 4 * value >= 3 * max {
        Some(Alert::Warning)
    } else {
        None
    }
}

/// Decides which alert `value` calls for under the quota `max`.
pub fn alert_for(value: usize, max: usize) -> (due: Option<Alert>)
    ensures
        due == alert(value as nat, max as nat),
{
    let used = value as u128;
    let quota = max as u128;
    if quota == 0 && used == 0 {
        None
    } else if used >= quota {
        Some(Alert::Over)
    } else if 10 * used >= 9 * quota {
        Some(Alert::Urgent)
    } else if 4 * used >= 3 * quota {
        Some(Alert::Warning)
    } else {
        None
    }
}

impl Alert {
    /// The text that goes with each alert.
    pub open spec fn text(self) -> Seq<char> {
        match self {
            Alert::Warning => "Warning: You've used up over 75% of your quota!"@,
            Alert::Urgent => "Urgent warning: You've used up over 90% of your quota!"@,
            Alert::Over => "Error: You are over your quota!"@,
        }
    }

    /// The message to send for this alert.
    pub fn message(&self) -> (msg: &'static str)
        ensures
            msg@ == self.text(),
    {
        match self {
            Alert::Warning => "Warning: You've used up over 75% of your quota!",
            Alert::Urgent => "Urgent warning: You've used up over 90% of your quota!",
            Alert::Over => "Error: You are over your quota!",
        }
    }
}

/// Tracks a value against a maximum and reports through `messenger`.
pub struct LimitTracker<'a, T: Messenger> {
    messenger: &'a T,
    value: usize,
    max: usize,
}

impl<'a, T: Messenger> LimitTracker<'a, T> {
    /// The messenger that alerts go to.
    pub closed spec fn messenger(self) -> &'a T {
        self.messenger
    }

    /// The value last set; zero at first.
    pub closed spec fn value(self) -> usize {
        self.value
    }

    /// The quota.
    pub closed spec fn max(self) -> usize {
        self.max
    }

    /// A tracker at value zero under the quota `max`.
    pub fn new(messenger: &'a T, max: usize) -> (tracker: LimitTracker<'a, T>)
        ensures
            tracker.messenger() == messenger,
            tracker.value() == 0,
            tracker.max() == max,
    {
        LimitTracker { messenger, value: 0, max }
    }

    /// Records `value` and, where `alert` calls for one, sends that alert's
    /// message to the messenger.
    pub fn set_value(&mut self, value: usize)
        ensures
            final(self).value() == value,
            final(self).max() == old(self).max(),
            final(self).messenger() == old(self).messenger(),
    {
        self.value = value;
        match alert_for(self.value, self.max) {
            Some(due) => {
                self.messenger.send(due.message());
            },
            None => {},
        }
    }
}

} // verus!
