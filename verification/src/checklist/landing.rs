//! The landing checklist: the five items run before touchdown.
use vstd::prelude::*;
use crate::checklist::Checklist;

verus! {

/// The names of the landing checklist's items, in order.
pub open spec fn landing_item_names() -> Seq<Seq<char>> {
    seq!["Gear"@, "Flaps"@, "Spoilers"@, "Autobrake"@, "Cabin"@]
}

/// The landing checklist: Gear, Flaps, Spoilers, Autobrake, Cabin, none
/// of them complete.
pub fn landing_checklist() -> (r: Checklist)
    ensures
        r.name@ == "Landing Checklist"@,
        r.items@.len() == 5,
        forall|i: int|
            0 <= i < 5 ==> #[trigger] r.items@[i].name@ == landing_item_names()[i]
                && !r.items@[i].complete,
{
    let names: [&str; 5] = ["Gear", "Flaps", "Spoilers", "Autobrake", "Cabin"];
    let r = Checklist::new("Landing Checklist", &names);
    assert(names@ =~= seq!["Gear", "Flaps", "Spoilers", "Autobrake", "Cabin"]);
    r
}

} // verus!
