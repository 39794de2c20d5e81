//! Interactive checklists: an ordered list of items the player steps
//! through, either themselves or by delegating to the FO. Nothing
//! validates real aircraft configuration yet; this is the mechanic.
pub mod landing;

use vstd::prelude::*;

verus! {

#[derive(Debug, Clone, PartialEq)]
pub struct ChecklistItem {
    pub name: String,
    pub complete: bool,
}

#[derive(Debug, Clone, PartialEq)]
pub struct Checklist {
    pub name: String,
    pub items: Vec<ChecklistItem>,
}

/// Every item from 0 up to (not including) `upto` is complete.
pub open spec fn all_complete_before(items: Seq<ChecklistItem>, upto: int) -> bool {
    forall|j: int| 0 <= j < upto ==> #[trigger] items[j].complete
}

/// The index of the first incomplete item, if any.
pub open spec fn first_pending(items: Seq<ChecklistItem>) -> Option<int> {
    if exists|i: int| 0 <= i < items.len() && !#[trigger] items[i].complete {
        Some(
            choose|i: int|
                0 <= i < items.len() && !#[trigger] items[i].complete && all_complete_before(
                    items,
                    i,
                ),
        )
    } else {
        None
    }
}

/// The names of the items, in order.
pub open spec fn item_names(items: Seq<ChecklistItem>) -> Seq<Seq<char>> {
    items.map_values(|item: ChecklistItem| item.name@)
}

/// `after` is `before` with item `i` marked complete and nothing else
/// changed.
pub open spec fn marked_complete(
    before: Seq<ChecklistItem>,
    after: Seq<ChecklistItem>,
    i: int,
) -> bool {
    &&& after.len() == before.len()
    &&& 0 <= i < before.len()
    &&& after[i].complete
    &&& after[i].name@ == before[i].name@
    &&& forall|j: int| 0 <= j < before.len() && j != i ==> #[trigger] after[j] == before[j]
}

proof fn lemma_first_pending(items: Seq<ChecklistItem>, i: int)
    requires
        0 <= i < items.len(),
        !items[i].complete,
        all_complete_before(items, i),
    ensures
        first_pending(items) == Some(i),
{
    let k = choose|k: int|
        0 <= k < items.len() && !#[trigger] items[k].complete && all_complete_before(items, k);
    assert(0 <= k < items.len() && !items[k].complete && all_complete_before(items, k));
    if k < i {
        assert(items[k].complete);
    } else if k > i {
        assert(items[i].complete);
    }
}

impl Checklist {
    /// A checklist named `name` whose items, in order, are `item_names`,
    /// none of them complete.
    pub fn new(name: &str, names: &[&str]) -> (r: Checklist)
        ensures
            r.name@ == name@,
            r.items@.len() == names@.len(),
            forall|i: int|
                0 <= i < names@.len() ==> #[trigger] r.items@[i].name@ == names@[i]@
                    && !r.items@[i].complete,
    {
        let mut items: Vec<ChecklistItem> = Vec::new();
        let mut i: usize = 0;
        while i < names.len()
            invariant
                i <= names@.len(),
                items@.len() == i,
                forall|j: int|
                    0 <= j < i ==> #[trigger] items@[j].name@ == names@[j]@ && !items@[j].complete,
            decreases names@.len() - i,
        {
            items.push(ChecklistItem { name: String::from_str(names[i]), complete: false });
            i = i + 1;
        }
        Checklist { name: String::from_str(name), items }
    }

    /// Index of the first not-yet-complete item, if any remain.
    pub fn next_pending(&self) -> (r: Option<usize>)
        ensures
            match r {
                Some(i) => i < self.items@.len() && first_pending(self.items@) == Some(i as int),
                None => first_pending(self.items@).is_none(),
            },
            r.is_none() <==> all_complete_before(self.items@, self.items@.len() as int),
    {
        let n = self.items.len();
        let mut i: usize = 0;
        while i < n
            invariant
                n == self.items@.len(),
                i <= n,
                all_complete_before(self.items@, i as int),
            decreases n - i,
        {
            if !self.items[i].complete {
                proof {
                    lemma_first_pending(self.items@, i as int);
                }
                return Some(i);
            }
            i = i + 1;
        }
        None
    }

    /// Mark the next pending item complete directly (the player doing it
    /// rather than delegating). Returns the item's name, or `None` if the
    /// checklist is already fully complete, in which case nothing changes.
    pub fn check_next(&mut self) -> (r: Option<String>)
        ensures
            final(self).name == old(self).name,
            match first_pending(old(self).items@) {
                Some(i) => r.is_some() && r.unwrap()@ == old(self).items@[i].name@ && marked_complete(
                    old(self).items@,
                    final(self).items@,
                    i,
                ),
                None => r.is_none() && final(self).items@ == old(self).items@,
            },
    {
        match self.next_pending() {
            None => None,
            Some(idx) => {
                let name = self.items[idx].name.clone();
                let replacement = ChecklistItem { name: self.items[idx].name.clone(), complete: true };
                self.items.set(idx, replacement);
                Some(name)
            },
        }
    }

    /// Mark item `index` complete, if there is such an item. Used when a
    /// delegated item comes back from the FO.
    pub fn mark_complete(&mut self, index: usize)
        ensures
            final(self).name == old(self).name,
            index < old(self).items@.len() ==> marked_complete(
                old(self).items@,
                final(self).items@,
                index as int,
            ),
            index >= old(self).items@.len() ==> final(self).items@ == old(self).items@,
    {
        if index < self.items.len() {
            let replacement = ChecklistItem {
                name: self.items[index].name.clone(),
                complete: true,
            };
            self.items.set(index, replacement);
        }
    }

    pub fn is_complete(&self) -> (r: bool)
        ensures
            r == all_complete_before(self.items@, self.items@.len() as int),
            r == first_pending(self.items@).is_none(),
    {
        self.next_pending().is_none()
    }
}

/// Completing items never un-completes any other: whatever was complete
/// before a `check_next` or `mark_complete` is still complete after it.
pub proof fn law_completion_is_monotone(
    before: Seq<ChecklistItem>,
    after: Seq<ChecklistItem>,
    i: int,
)
    requires
        marked_complete(before, after, i),
    ensures
        forall|j: int| 0 <= j < before.len() && before[j].complete ==> #[trigger] after[j].complete,
        all_complete_before(before, before.len() as int) ==> all_complete_before(
            after,
            after.len() as int,
        ),
{
    assert forall|j: int| 0 <= j < before.len() && before[j].complete implies #[trigger] after[j].complete by {
        if j != i {
            assert(after[j] == before[j]);
        }
    }
}

/// A checklist with no items is complete by definition.
pub proof fn law_empty_checklist_is_complete(items: Seq<ChecklistItem>)
    requires
        items.len() == 0,
    ensures
        first_pending(items).is_none(),
        all_complete_before(items, 0),
{
}

} // verus!
