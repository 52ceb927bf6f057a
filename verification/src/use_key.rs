//! Bringing some of an enum's variants into scope by name.

use crate::use_key::TrafficLight::Red;
use crate::use_key::TrafficLight::Yellow;
use vstd::prelude::*;

verus! {

/// The three lights of a traffic light.
pub enum TrafficLight {
    Red,
    Yellow,
    _Green,
}

/// Names two variants without their enum's name in front.
pub fn f() {
    let _red = Red;
    let _yellow = Yellow;
}

} // verus!
