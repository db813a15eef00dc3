//! Asset types: the ledger families in which a user can hold balances.

use vstd::prelude::*;

verus! {

/// One row of the asset type table.
#[derive(Debug)]
pub struct AssetTypeModel {
    pub id: i32,
    pub name: String,
    pub description: String,
    pub is_active: bool,
    /// Microseconds since the Unix epoch.
    pub created_at: i64,
    /// Microseconds since the Unix epoch.
    pub updated_at: i64,
}

impl AssetTypeModel {
    /// A copy of the row.
    pub fn duplicate(&self) -> (copy: AssetTypeModel)
        ensures
            copy == *self,
    {
        AssetTypeModel {
            id: self.id,
            name: self.name.clone(),
            description: self.description.clone(),
            is_active: self.is_active,
            created_at: self.created_at,
            updated_at: self.updated_at,
        }
    }
}

} // verus!
