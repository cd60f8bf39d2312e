use vstd::prelude::*;

verus! {

/// A model offered by a provider. A deprecated model stays addressable for
/// the messages that name it but is no longer offered for selection.
#[derive(Debug)]
pub struct Model {
    pub id: i64,
    pub provider_id: i64,
    pub model: String,
    pub disabled: bool,
    pub deprecated: bool,
    pub created_dt: i64,
}

impl Clone for Model {
    fn clone(&self) -> (r: Self)
        ensures
            r == *self,
    {
        Model {
            id: self.id,
            provider_id: self.provider_id,
            model: self.model.clone(),
            disabled: self.disabled,
            deprecated: self.deprecated,
            created_dt: self.created_dt,
        }
    }
}

} // verus!
