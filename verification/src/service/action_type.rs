//! The action types in force: a snapshot of the active rows, taken once.

use crate::model::action_type::ActionTypeModel;
use vstd::prelude::*;

verus! {

/// Whether `rows` holds an action type with the id given.
pub open spec fn lists_action(rows: Seq<ActionTypeModel>, id: i32) -> bool {
    exists|i: int| 0 <= i < rows.len() && (#[trigger] rows[i]).id == id
}

/// The first row of `rows` with the id given.
pub open spec fn rule_of(rows: Seq<ActionTypeModel>, id: i32) -> Option<ActionTypeModel>
    decreases rows.len(),
{
    if rows.len() == 0 {
        None
    } else if rows[0].id == id {
        Some(rows[0])
    } else {
        rule_of(rows.drop_first(), id)
    }
}

/// The active rows of `rows`, in order.
pub open spec fn active_actions(rows: Seq<ActionTypeModel>) -> Seq<ActionTypeModel> {
    rows.filter(|row: ActionTypeModel| row.is_active)
}

/// The active action types, by id.
pub struct ActionTypeService {
    action_types: Vec<ActionTypeModel>,
}

impl View for ActionTypeService {
    type V = Seq<ActionTypeModel>;

    closed spec fn view(&self) -> Seq<ActionTypeModel> {
        self.action_types@
    }
}

impl ActionTypeService {
    /// Takes the snapshot: the active rows among `rows`, in their order.
    pub fn init(rows: Vec<ActionTypeModel>) -> (service: ActionTypeService)
        ensures
            service@ == active_actions(rows@),
    {
        let mut kept: Vec<ActionTypeModel> = Vec::new();
        let mut i: usize = 0;
        proof {
            reveal(Seq::filter);
            assert(rows@.take(0) =~= Seq::empty());
        }
        while i < rows.len()
            invariant
                i <= rows@.len(),
                kept@ == active_actions(rows@.take(i as int)),
            decreases rows@.len() - i,
        {
            proof {
                assert(rows@.take(i + 1) =~= rows@.take(i as int).push(rows@[i as int]));
                rows@.take(i as int).lemma_filter_push(
                    rows@[i as int],
                    |row: ActionTypeModel| row.is_active,
                );
            }
            if rows[i].is_active {
                kept.push(rows[i].duplicate());
            }
            i += 1;
        }
        proof {
            assert(rows@.take(i as int) =~= rows@);
        }
        ActionTypeService { action_types: kept }
    }

    /// The snapshot.
    pub fn list(&self) -> (rows: &Vec<ActionTypeModel>)
        ensures
            rows@ == self@,
    {
        &self.action_types
    }

    /// Whether `id` names an action type of the snapshot.
    pub fn is_active(&self, id: i32) -> (known: bool)
        ensures
            known == lists_action(self@, id),
    {
        let mut i: usize = 0;
        while i < self.action_types.len()
            invariant
                i <= self.action_types@.len(),
                forall|j: int| 0 <= j < i ==> (#[trigger] self.action_types@[j]).id != id,
            decreases self.action_types@.len() - i,
        {
            if self.action_types[i].id == id {
                return true;
            }
            i += 1;
        }
        false
    }

    /// The first action type of the snapshot with the id given.
    pub fn by_id(&self, id: i32) -> (found: Option<&ActionTypeModel>)
        ensures
            found is Some <==> rule_of(self@, id) is Some,
            found matches Some(row) ==> rule_of(self@, id) == Some(*row),
    {
        let mut i: usize = 0;
        proof {
            assert(self.action_types@.skip(0) =~= self.action_types@);
        }
        while i < self.action_types.len()
            invariant
                i <= self.action_types@.len(),
                rule_of(self@, id) == rule_of(self.action_types@.skip(i as int), id),
            decreases self.action_types@.len() - i,
        {
            proof {
                assert(self.action_types@.skip(i as int).drop_first() =~= self.action_types@.skip(
                    i + 1,
                ));
            }
            if self.action_types[i].id == id {
                return Some(&self.action_types[i]);
            }
            i += 1;
        }
        None
    }
}

} // verus!
