//! What an action applies to.

use crate::defs::{AllDefs, DefsModel};
use crate::entity_types::declared_entity_type;
use crate::err::{joined, ErrorModel, SchemaError};
use crate::keyed::{all_distinct, distinct, keep_distinct, Keyed};
use crate::model::{Duplicate, Model};
use crate::names::{internal_name_to_entity_type, EntityType, NameModel};
use crate::nonempty_list::extend_list;
use crate::outcome::{errs, oks, partition_nonempty};
use crate::raw_name::{resolved, ConditionalModel, ConditionalName};
use vstd::prelude::*;

verus! {

broadcast use crate::model::group_models;

/// The entity types that the principals and the resources of an action may have.
/// None occurs twice among the one or the other.
#[derive(Debug)]
pub struct ValidatorApplySpec<N: Keyed> {
    principal_apply_spec: Vec<N>,
    resource_apply_spec: Vec<N>,
}

#[verifier::ext_equal]
pub struct ApplySpecModel<N> {
    pub principals: Seq<N>,
    pub resources: Seq<N>,
}

impl<N: Keyed> Model for ValidatorApplySpec<N> {
    type M = ApplySpecModel<N::M>;

    closed spec fn model(&self) -> ApplySpecModel<N::M> {
        ApplySpecModel {
            principals: self.principal_apply_spec.model(),
            resources: self.resource_apply_spec.model(),
        }
    }
}

/// Whether no entity type occurs twice.
pub open spec fn applies_once<N: Keyed>(spec: ApplySpecModel<N::M>) -> bool {
    &&& all_distinct::<N>(spec.principals)
    &&& all_distinct::<N>(spec.resources)
}

impl<N: Keyed + Duplicate> Clone for ValidatorApplySpec<N> {
    fn clone(&self) -> (r: Self)
        ensures
            r.model() == self.model(),
    {
        proof {
            use_type_invariant(self);
        }
        ValidatorApplySpec {
            principal_apply_spec: self.principal_apply_spec.duplicate(),
            resource_apply_spec: self.resource_apply_spec.duplicate(),
        }
    }
}

impl<N: Keyed> ValidatorApplySpec<N> {
    #[verifier::type_invariant]
    spec fn is_well_formed(self) -> bool {
        applies_once::<N>(self.model())
    }

    /// The given entity types, each once.
    pub fn new(principal_apply_spec: Vec<N>, resource_apply_spec: Vec<N>) -> (r: Self)
        ensures
            r.model() == (ApplySpecModel {
                principals: distinct::<N>(principal_apply_spec.model()),
                resources: distinct::<N>(resource_apply_spec.model()),
            }),
    {
        ValidatorApplySpec {
            principal_apply_spec: keep_distinct(principal_apply_spec),
            resource_apply_spec: keep_distinct(resource_apply_spec),
        }
    }

    /// The entity types that the principals may have.
    pub fn applicable_principal_types(&self) -> (r: &Vec<N>)
        ensures
            r.model() == self.model().principals,
            all_distinct::<N>(r.model()),
    {
        proof {
            use_type_invariant(self);
        }
        &self.principal_apply_spec
    }

    /// The entity types that the resources may have.
    pub fn applicable_resource_types(&self) -> (r: &Vec<N>)
        ensures
            r.model() == self.model().resources,
            all_distinct::<N>(r.model()),
    {
        proof {
            use_type_invariant(self);
        }
        &self.resource_apply_spec
    }
}

/// The entity type that a reference stands for.
pub open spec fn entity_type_resolved(reference: ConditionalModel, defs: DefsModel) -> Result<
    NameModel,
    ErrorModel,
> {
    match resolved(reference, defs) {
        Ok(name) => declared_entity_type(name),
        Err(undefined) => Err(ErrorModel::TypeNotDefined(undefined)),
    }
}

/// What becomes of each reference to an entity type when it is resolved.
pub open spec fn entity_types_found(
    references: Seq<ConditionalModel>,
    defs: DefsModel,
) -> Seq<Result<NameModel, ErrorModel>> {
    Seq::new(references.len(), |i: int| entity_type_resolved(references[i], defs))
}

/// The entity types that an action applies to; or, where references stand for
/// nothing, all the errors, those of the principals first, as one.
pub open spec fn apply_spec_resolved(
    spec: ApplySpecModel<ConditionalModel>,
    defs: DefsModel,
) -> Result<ApplySpecModel<NameModel>, ErrorModel> {
    let principals = entity_types_found(spec.principals, defs);
    let resources = entity_types_found(spec.resources, defs);
    if errs(principals).len() == 0 && errs(resources).len() == 0 {
        Ok(
            ApplySpecModel {
                principals: distinct::<EntityType>(oks(principals)),
                resources: distinct::<EntityType>(oks(resources)),
            },
        )
    } else {
        Err(joined(errs(principals) + errs(resources)))
    }
}

/// What becomes of each reference when it is resolved.
fn find_entity_types(references: Vec<ConditionalName>, all_defs: &AllDefs) -> (r: Vec<
    Result<EntityType, SchemaError>,
>)
    ensures
        r.model() == entity_types_found(references.model(), all_defs.model()),
{
    let ghost all = references@;
    let ghost steps = entity_types_found(references.model(), all_defs.model());
    let mut out: Vec<Result<EntityType, SchemaError>> = Vec::new();
    for reference in it: references
        invariant
            it.seq() == all,
            all == references@,
            steps == entity_types_found(references.model(), all_defs.model()),
            out@.len() == it.index(),
            forall|i: int|
                #![trigger out@[i]]
                0 <= i < out@.len() ==> out@[i].model() == steps[i],
    {
        let ghost i = it.index() as int;
        assert(references.model()[i] == reference.model());
        out.push(
            match reference.resolve(all_defs) {
                Ok(name) => match internal_name_to_entity_type(name) {
                    Ok(ety) => Ok(ety),
                    Err(e) => Err(SchemaError::ReservedName(e)),
                },
                Err(e) => Err(SchemaError::TypeNotDefined(e)),
            },
        );
    }
    assert(out.model() =~= steps);
    out
}

impl ValidatorApplySpec<ConditionalName> {
    /// Replaces each reference by the entity type that it stands for.
    ///
    /// `all_defs` needs to contain the full set of all fully-qualified typenames
    /// and actions that are defined in the schema (in all schema fragments).
    pub fn fully_qualify_type_references(self, all_defs: &AllDefs) -> (r: Result<
        ValidatorApplySpec<EntityType>,
        SchemaError,
    >)
        ensures
            r.model() == apply_spec_resolved(self.model(), all_defs.model()),
    {
        let principals = find_entity_types(self.principal_apply_spec, all_defs);
        let resources = find_entity_types(self.resource_apply_spec, all_defs);
        let ghost p = errs(principals.model());
        let ghost r = errs(resources.model());
        proof {
            assert(r.len() == 0 ==> p + r =~= p);
            assert(p.len() == 0 ==> p + r =~= r);
        }
        match (partition_nonempty(principals), partition_nonempty(resources)) {
            (Ok(principals), Ok(resources)) => Ok(ValidatorApplySpec::new(principals, resources)),
            (Err(principal_errs), Ok(_)) => Err(SchemaError::join_nonempty(principal_errs)),
            (Ok(_), Err(resource_errs)) => Err(SchemaError::join_nonempty(resource_errs)),
            (Err(principal_errs), Err(resource_errs)) => {
                let mut errs = principal_errs;
                extend_list(&mut errs, resource_errs);
                Err(SchemaError::join_nonempty(errs))
            },
        }
    }
}

} // verus!
