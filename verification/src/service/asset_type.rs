//! The asset types in force: a snapshot of the active rows, taken once.

use crate::model::asset_type::AssetTypeModel;
use vstd::prelude::*;

verus! {

/// Whether `rows` holds an asset type with the id given.
pub open spec fn lists_asset(rows: Seq<AssetTypeModel>, id: i32) -> bool {
    exists|i: int| 0 <= i < rows.len() && (#[trigger] rows[i]).id == id
}

/// The active rows of `rows`, in order.
pub open spec fn active_assets(rows: Seq<AssetTypeModel>) -> Seq<AssetTypeModel> {
    rows.filter(|row: AssetTypeModel| row.is_active)
}

/// The active asset types, by id.
pub struct AssetTypeService {
    asset_types: Vec<AssetTypeModel>,
}

impl View for AssetTypeService {
    type V = Seq<AssetTypeModel>;

    closed spec fn view(&self) -> Seq<AssetTypeModel> {
        self.asset_types@
    }
}

impl AssetTypeService {
    /// Takes the snapshot: the active rows among `rows`, in their order.
    pub fn init(rows: Vec<AssetTypeModel>) -> (service: AssetTypeService)
        ensures
            service@ == active_assets(rows@),
    {
        let mut kept: Vec<AssetTypeModel> = Vec::new();
        let mut i: usize = 0;
        proof {
            reveal(Seq::filter);
            assert(rows@.take(0) =~= Seq::empty());
        }
        while i < rows.len()
            invariant
                i <= rows@.len(),
                kept@ == active_assets(rows@.take(i as int)),
            decreases rows@.len() - i,
        {
            proof {
                assert(rows@.take(i + 1) =~= rows@.take(i as int).push(rows@[i as int]));
                rows@.take(i as int).lemma_filter_push(
                    rows@[i as int],
                    |row: AssetTypeModel| row.is_active,
                );
            }
            if rows[i].is_active {
                kept.push(rows[i].duplicate());
            }
            i += 1;
        }
        proof {
            assert(rows@.take(i as int) =~= rows@);
        }
        AssetTypeService { asset_types: kept }
    }

    /// The snapshot.
    pub fn list(&self) -> (rows: &Vec<AssetTypeModel>)
        ensures
            rows@ == self@,
    {
        &self.asset_types
    }

    /// Whether `id` names an asset type of the snapshot.
    pub fn is_active(&self, id: i32) -> (known: bool)
        ensures
            known == lists_asset(self@, id),
    {
        let mut i: usize = 0;
        while i < self.asset_types.len()
            invariant
                i <= self.asset_types@.len(),
                forall|j: int| 0 <= j < i ==> (#[trigger] self.asset_types@[j]).id != id,
            decreases self.asset_types@.len() - i,
        {
            if self.asset_types[i].id == id {
                return true;
            }
            i += 1;
        }
        false
    }

    /// The ids of the snapshot, in its order.
    pub fn ids(&self) -> (ids: Vec<i32>)
        ensures
            ids@ == self@.map_values(|row: AssetTypeModel| row.id),
    {
        let mut ids: Vec<i32> = Vec::new();
        let mut i: usize = 0;
        while i < self.asset_types.len()
            invariant
                i <= self.asset_types@.len(),
                ids@ == self.asset_types@.take(i as int).map_values(|row: AssetTypeModel| row.id),
            decreases self.asset_types@.len() - i,
        {
            ids.push(self.asset_types[i].id);
            i += 1;
            assert(ids@ =~= self.asset_types@.take(i as int).map_values(
                |row: AssetTypeModel| row.id,
            ));
        }
        assert(self.asset_types@.take(i as int) =~= self.asset_types@);
        ids
    }
}

} // verus!
