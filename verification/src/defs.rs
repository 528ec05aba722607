//! What is defined in a schema as a whole.

use crate::keyed::{contains_same, key_set, Keyed};
use crate::model::Model;
use crate::names::{EntityUID, InternalName};
use vstd::prelude::*;

verus! {

/// The entity types, common types and actions that are defined in all the
/// fragments of a schema, by their full names.
#[derive(Debug)]
pub struct AllDefs {
    pub entity_defs: Vec<InternalName>,
    pub common_defs: Vec<InternalName>,
    pub action_defs: Vec<EntityUID>,
}

/// The components of what is defined.
#[verifier::ext_equal]
pub struct DefsModel {
    pub entity: Set<Seq<Seq<char>>>,
    pub common: Set<Seq<Seq<char>>>,
    pub action: Set<(Seq<Seq<char>>, Seq<char>)>,
}

impl Model for AllDefs {
    type M = DefsModel;

    open spec fn model(&self) -> DefsModel {
        DefsModel {
            entity: key_set::<InternalName>(self.entity_defs.model()),
            common: key_set::<InternalName>(self.common_defs.model()),
            action: key_set::<EntityUID>(self.action_defs.model()),
        }
    }
}

impl AllDefs {
    /// Whether an entity type of that name is defined.
    pub fn is_defined_as_entity(&self, name: &InternalName) -> (r: bool)
        ensures
            r == self.model().entity.contains(name.model().components()),
    {
        contains_same(&self.entity_defs, name)
    }

    /// Whether a common type of that name is defined.
    pub fn is_defined_as_common(&self, name: &InternalName) -> (r: bool)
        ensures
            r == self.model().common.contains(name.model().components()),
    {
        contains_same(&self.common_defs, name)
    }

    /// Whether that action is defined.
    pub fn is_defined_as_action(&self, uid: &EntityUID) -> (r: bool)
        ensures
            r == self.model().action.contains(EntityUID::key(uid.model())),
    {
        contains_same(&self.action_defs, uid)
    }
}

} // verus!
