//! Serving layer: gateways between the WebSocket and the bus, the per-session
//! managers, and session admission.
use vstd::prelude::*;

pub mod gateways;
pub mod managers;
pub mod sessions;

verus! {

/// Crate identity helper used by smoke checks.
pub fn crate_name() -> (r: &'static str)
    ensures
        r@ == "xtalk-serving"@,
{
    "xtalk-serving"
}

/// `r` lists exactly the subscriptions `expected` (event type, priority), in order.
pub open spec fn subscriptions_are(r: Seq<(&'static str, i32)>, expected: Seq<(Seq<char>, i32)>) -> bool {
    &&& r.len() == expected.len()
    &&& forall|i: int| 0 <= i < r.len() ==> (#[trigger] r[i]).0@ == expected[i].0 && r[i].1 == expected[i].1
}

/// A serving-layer component: its name and the event types it handles, each
/// with the priority its handler runs at.
pub trait Manager {
    fn name(&self) -> &'static str;

    fn subscriptions(&self) -> Vec<(&'static str, i32)>;
}

} // verus!
