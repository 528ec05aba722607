//! The definition of a namespace, processed into a form which is closer to that
//! used by the validator.

use crate::action_uid::action_entity_type;
use crate::actions::{actions_once, actions_resolved, raw_actions, ActionFragmentModel, ActionsDef};
use crate::common_types::{
    common_types_once, common_types_resolved, conditional_common_types, raw_common_types,
    CommonTypeDefs,
};
use crate::declarations::{ActionBehavior, ActionTypeModel, DefinitionModel, NamespaceDefinition};
use crate::defs::{AllDefs, DefsModel};
use crate::entity_types::{
    entity_types_once, entity_types_resolved, raw_entity_types, EntityTypesDef, FragmentModel,
};
use crate::err::{
    joined, undefined_types, ActionEntityTypeDeclaredError, ErrorModel, SchemaError,
    UnsupportedFeature, UnsupportedFeatureError,
};
use crate::json_schema::{SchemaType, Type};
use crate::keyed::{names_of, Keyed};
use crate::model::{Duplicate, Model};
use crate::names::{
    qualified, simple_name, EntityType, EntityUID, InternalName, NameModel, UidModel, UnreservedId,
};
use crate::nonempty_list::collect_list;
use crate::outcome::err_of;
use crate::raw_name::{ConditionalModel, ConditionalName, RawName};
use crate::sorting::{in_order, sort_texts};
use crate::text::{smol_is, to_smolstr};
use crate::value::{NoExtensions, RestrictedEvaluator};
use vstd::prelude::*;

verus! {

broadcast use crate::model::group_models;

/// The definition of a namespace.
///
/// There may still be references to undeclared entity types, common types and
/// actions, because any of these may be declared in a different fragment of the
/// schema.
///
/// The parameter `N` is the type of the references to types, and `A` is that of the
/// references to what actions apply to. The names that are being declared are fully
/// qualified in any case.
#[derive(Debug)]
pub struct ValidatorNamespaceDef<N: Keyed, A: Keyed> {
    /// The (fully-qualified) name of the namespace this is a definition of, or
    /// `None` if this is a definition for the empty namespace.
    ///
    /// This is informational only: names and references inside the definition do
    /// not need it any longer.
    namespace: Option<InternalName>,
    /// Common type definitions, which can be used to define entity type attributes,
    /// action contexts, and other common types.
    common_types: CommonTypeDefs<N>,
    /// Entity type declarations.
    entity_types: EntityTypesDef<N>,
    /// Action declarations.
    actions: ActionsDef<N, A>,
}

#[verifier::ext_equal]
pub struct NamespaceModel<N, A> {
    pub namespace: Option<NameModel>,
    pub common_types: Seq<(NameModel, SchemaType<N>)>,
    pub entity_types: Seq<(NameModel, FragmentModel<N>)>,
    pub actions: Seq<(UidModel, ActionFragmentModel<N, A>)>,
}

impl<N: Keyed, A: Keyed> Model for ValidatorNamespaceDef<N, A> {
    type M = NamespaceModel<N::M, A::M>;

    closed spec fn model(&self) -> NamespaceModel<N::M, A::M> {
        NamespaceModel {
            namespace: self.namespace.model(),
            common_types: self.common_types.model(),
            entity_types: self.entity_types.model(),
            actions: self.actions.model(),
        }
    }
}

/// Whether nothing is declared twice, and no entity type lists a parent twice.
pub open spec fn declared_once<N: Keyed, A: Keyed>(
    definition: NamespaceModel<N::M, A::M>,
) -> bool {
    &&& common_types_once(definition.common_types)
    &&& entity_types_once::<N>(definition.entity_types)
    &&& actions_once(definition.actions)
}

impl<N: Keyed + Duplicate, A: Keyed + Duplicate> Clone for ValidatorNamespaceDef<N, A> {
    fn clone(&self) -> (r: Self)
        ensures
            r.model() == self.model(),
    {
        ValidatorNamespaceDef {
            namespace: self.namespace.duplicate(),
            common_types: self.common_types.clone(),
            entity_types: self.entity_types.clone(),
            actions: self.actions.clone(),
        }
    }
}

impl<N: Keyed, A: Keyed> ValidatorNamespaceDef<N, A> {
    /// The common types that are declared.
    pub fn common_types(&self) -> (r: &CommonTypeDefs<N>)
        ensures
            r.model() == self.model().common_types,
    {
        &self.common_types
    }

    /// The entity types that are declared.
    pub fn entity_types(&self) -> (r: &EntityTypesDef<N>)
        ensures
            r.model() == self.model().entity_types,
    {
        &self.entity_types
    }

    /// The actions that are declared.
    pub fn actions(&self) -> (r: &ActionsDef<N, A>)
        ensures
            r.model() == self.model().actions,
    {
        &self.actions
    }

    /// The fully-qualified names of all entity types declared in this namespace.
    pub fn all_declared_entity_type_names(&self) -> (r: Vec<&InternalName>)
        ensures
            r.model() == names_of(self.model().entity_types),
    {
        let mut out: Vec<&InternalName> = Vec::new();
        let declared = self.entity_types.defs();
        let mut i: usize = 0;
        while i < declared.len()
            invariant
                i <= declared@.len(),
                declared.model() == self.model().entity_types,
                out@.len() == i,
                forall|j: int|
                    0 <= j < i ==> (#[trigger] out@[j]).model() == names_of(
                        self.model().entity_types,
                    )[j],
            decreases declared@.len() - i,
        {
            out.push(declared[i].0.0.as_internal());
            i = i + 1;
        }
        assert(out.model() =~= names_of(self.model().entity_types));
        out
    }

    /// The fully-qualified names of all common types declared in this namespace.
    pub fn all_declared_common_type_names(&self) -> (r: Vec<&InternalName>)
        ensures
            r.model() == names_of(self.model().common_types),
    {
        let mut out: Vec<&InternalName> = Vec::new();
        let declared = self.common_types.defs();
        let mut i: usize = 0;
        while i < declared.len()
            invariant
                i <= declared@.len(),
                declared.model() == self.model().common_types,
                out@.len() == i,
                forall|j: int|
                    0 <= j < i ==> (#[trigger] out@[j]).model() == names_of(
                        self.model().common_types,
                    )[j],
            decreases declared@.len() - i,
        {
            out.push(&declared[i].0);
            i = i + 1;
        }
        assert(out.model() =~= names_of(self.model().common_types));
        out
    }

    /// The fully-qualified names of all actions declared in this namespace.
    pub fn all_declared_action_names(&self) -> (r: Vec<&EntityUID>)
        ensures
            r.model() == names_of(self.model().actions),
    {
        let mut out: Vec<&EntityUID> = Vec::new();
        let declared = self.actions.actions();
        let mut i: usize = 0;
        while i < declared.len()
            invariant
                i <= declared@.len(),
                declared.model() == self.model().actions,
                out@.len() == i,
                forall|j: int|
                    0 <= j < i ==> (#[trigger] out@[j]).model() == names_of(
                        self.model().actions,
                    )[j],
            decreases declared@.len() - i,
        {
            out.push(&declared[i].0);
            i = i + 1;
        }
        assert(out.model() =~= names_of(self.model().actions));
        out
    }

    /// The fully-qualified name of the namespace this is a definition of.
    /// `None` indicates this definition is for the empty namespace.
    pub fn namespace(&self) -> (r: Option<&InternalName>)
        ensures
            r.model() == self.model().namespace,
    {
        match &self.namespace {
            Some(namespace) => Some(namespace),
            None => None,
        }
    }
}

/// The names of the actions that are declared with attributes.
pub open spec fn with_attributes<N>(actions: Seq<(Seq<char>, ActionTypeModel<N>)>) -> Seq<Seq<char>>
    decreases actions.len(),
{
    if actions.len() == 0 {
        Seq::empty()
    } else if actions.last().1.attributes is Some {
        with_attributes(actions.drop_last()).push(actions.last().0)
    } else {
        with_attributes(actions.drop_last())
    }
}

/// Whether an entity type of the name kept for actions is declared.
pub open spec fn declares_action_type<N>(definition: DefinitionModel<N>) -> bool {
    exists|i: int|
        0 <= i < definition.entity_types.len() && (#[trigger] definition.entity_types[i]).0
            == action_entity_type()
}

/// Whether a definition may declare what it does, and if not, why not.
pub open spec fn behavior_checked<N>(
    definition: DefinitionModel<N>,
    action_behavior: ActionBehavior,
) -> Result<(), ErrorModel> {
    if declares_action_type(definition) {
        Err(ErrorModel::ActionEntityTypeDeclared)
    } else if action_behavior == ActionBehavior::ProhibitAttributes && with_attributes(
        definition.actions,
    ).len() > 0 {
        Err(ErrorModel::ActionAttributes(in_order(with_attributes(definition.actions))))
    } else {
        Ok(())
    }
}

/// The definition of `namespace`.
pub open spec fn definition_processed<E: RestrictedEvaluator>(
    namespace: Option<NameModel>,
    definition: DefinitionModel<NameModel>,
    action_behavior: ActionBehavior,
    evaluator: E,
) -> Result<NamespaceModel<ConditionalModel, ConditionalModel>, ErrorModel> {
    match behavior_checked(definition, action_behavior) {
        Err(error) => Err(error),
        Ok(_) => match raw_common_types(definition.common_types, namespace) {
            Err(error) => Err(error),
            Ok(common_types) => match raw_actions(definition.actions, namespace, evaluator) {
                Err(error) => Err(error),
                Ok(actions) => match raw_entity_types(definition.entity_types, namespace) {
                    Err(error) => Err(error),
                    Ok(entity_types) => Ok(
                        NamespaceModel { namespace, common_types, entity_types, actions },
                    ),
                },
            },
        },
    }
}

/// The definition of `namespace` with common types only.
pub open spec fn common_types_only(
    namespace: Option<NameModel>,
    common_types: Seq<(NameModel, SchemaType<ConditionalModel>)>,
) -> NamespaceModel<ConditionalModel, ConditionalModel> {
    NamespaceModel {
        namespace,
        common_types,
        entity_types: Seq::empty(),
        actions: Seq::empty(),
    }
}

/// A definition with its references resolved, or all the errors as one.
pub open spec fn namespace_resolved(
    definition: NamespaceModel<ConditionalModel, ConditionalModel>,
    defs: DefsModel,
) -> Result<NamespaceModel<NameModel, NameModel>, ErrorModel> {
    match (
        common_types_resolved(definition.common_types, defs),
        entity_types_resolved(definition.entity_types, defs),
        actions_resolved(definition.actions, defs),
    ) {
        (Ok(common_types), Ok(entity_types), Ok(actions)) => Ok(
            NamespaceModel {
                namespace: definition.namespace,
                common_types,
                entity_types,
                actions,
            },
        ),
        (common_types, entity_types, actions) => Err(
            joined(
                err_of(undefined_types(common_types)) + err_of(undefined_types(entity_types))
                    + err_of(actions),
            ),
        ),
    }
}

/// Where no action is declared with attributes, none has any.
pub proof fn without_attributes<N>(actions: Seq<(Seq<char>, ActionTypeModel<N>)>, i: int)
    requires
        with_attributes(actions).len() == 0,
        0 <= i < actions.len(),
    ensures
        actions[i].1.attributes is None,
    decreases actions.len(),
{
    if i < actions.len() - 1 {
        without_attributes(actions.drop_last(), i);
        assert(actions[i] == actions.drop_last()[i]);
    }
}

impl ValidatorNamespaceDef<ConditionalName, ConditionalName> {
    /// Processes the definition of a namespace.
    ///
    /// The attributes of actions are evaluated by `evaluator`.
    pub fn from_namespace_definition<E: RestrictedEvaluator>(
        namespace: Option<InternalName>,
        namespace_def: NamespaceDefinition<RawName>,
        action_behavior: ActionBehavior,
        evaluator: &E,
    ) -> (r: Result<ValidatorNamespaceDef<ConditionalName, ConditionalName>, SchemaError>)
        ensures
            r.model() == definition_processed(
                namespace.model(),
                namespace_def.model(),
                action_behavior,
                *evaluator,
            ),
            r matches Ok(def) ==> declared_once::<ConditionalName, ConditionalName>(def.model()),
    {
        // Return early with an error if actions cannot have attributes, but the
        // schema contains attributes.
        match Self::check_action_behavior(&namespace_def, action_behavior) {
            Ok(_) => {},
            Err(e) => return Err(e),
        }
        let common_types = match CommonTypeDefs::from_raw_common_types(
            namespace_def.common_types,
            namespace.as_ref(),
        ) {
            Ok(common_types) => common_types,
            Err(e) => return Err(e),
        };
        let actions = match ActionsDef::from_raw_actions(
            namespace_def.actions,
            namespace.as_ref(),
            evaluator,
        ) {
            Ok(actions) => actions,
            Err(e) => return Err(e),
        };
        let entity_types = match EntityTypesDef::from_raw_entity_types(
            namespace_def.entity_types,
            namespace.as_ref(),
        ) {
            Ok(entity_types) => entity_types,
            Err(e) => return Err(e),
        };
        Ok(ValidatorNamespaceDef { namespace, common_types, entity_types, actions })
    }

    /// The definition of a namespace containing only the given common-type
    /// definitions, whose references are already made.
    pub fn from_common_type_defs(
        namespace: Option<InternalName>,
        defs: Vec<(UnreservedId, Type<ConditionalName>)>,
    ) -> (r: Result<ValidatorNamespaceDef<ConditionalName, ConditionalName>, SchemaError>)
        ensures
            r.model() == (match conditional_common_types(defs.model(), namespace.model()) {
                Ok(common_types) => Ok(common_types_only(namespace.model(), common_types)),
                Err(error) => Err(error),
            }),
            r matches Ok(def) ==> declared_once::<ConditionalName, ConditionalName>(def.model()),
    {
        match CommonTypeDefs::from_conditionalname_typedefs(defs, namespace.as_ref()) {
            Ok(common_types) => Ok(
                ValidatorNamespaceDef {
                    namespace,
                    common_types,
                    entity_types: EntityTypesDef::new(),
                    actions: ActionsDef::new(),
                },
            ),
            Err(e) => Err(e),
        }
    }

    /// The definition of a namespace containing only a single given common-type
    /// definition, whose references are already made.
    ///
    /// Unlike `from_common_type_defs()`, this function cannot fail, because there is
    /// only one def so it cannot have a name collision with itself.
    pub fn from_common_type_def(
        namespace: Option<InternalName>,
        def: (UnreservedId, Type<ConditionalName>),
    ) -> (r: ValidatorNamespaceDef<ConditionalName, ConditionalName>)
        ensures
            r.model() == common_types_only(
                namespace.model(),
                seq![
                    (
                        qualified(simple_name(def.0.model(), None), namespace.model()),
                        def.1.model(),
                    ),
                ],
            ),
            declared_once::<ConditionalName, ConditionalName>(r.model()),
    {
        let common_types = CommonTypeDefs::from_conditionalname_typedef(def, namespace.as_ref());
        ValidatorNamespaceDef {
            namespace,
            common_types,
            entity_types: EntityTypesDef::new(),
            actions: ActionsDef::new(),
        }
    }

    /// Replaces each reference in the definition by what it stands for.
    ///
    /// `all_defs` needs to contain the full set of all fully-qualified typenames
    /// and actions that are defined in the schema (in all schema fragments).
    pub fn fully_qualify_type_references(self, all_defs: &AllDefs) -> (r: Result<
        ValidatorNamespaceDef<InternalName, EntityType>,
        SchemaError,
    >)
        ensures
            r.model() == namespace_resolved(self.model(), all_defs.model()),
            r matches Ok(def) ==> declared_once::<InternalName, EntityType>(def.model()),
    {
        match (
            self.common_types.fully_qualify_type_references(all_defs),
            self.entity_types.fully_qualify_type_references(all_defs),
            self.actions.fully_qualify_type_references(all_defs),
        ) {
            (Ok(common_types), Ok(entity_types), Ok(actions)) => Ok(
                ValidatorNamespaceDef {
                    namespace: self.namespace,
                    common_types,
                    entity_types,
                    actions,
                },
            ),
            (res1, res2, res3) => {
                let mut errs: Vec<SchemaError> = Vec::new();
                let ghost parts = err_of(undefined_types(res1.model())) + err_of(
                    undefined_types(res2.model()),
                ) + err_of(res3.model());
                if let Err(e) = res1 {
                    errs.push(SchemaError::TypeNotDefined(e));
                }
                if let Err(e) = res2 {
                    errs.push(SchemaError::TypeNotDefined(e));
                }
                if let Err(e) = res3 {
                    errs.push(e);
                }
                assert(errs.model() =~= parts);
                // At least one of the results is an error, so the list is not empty.
                Err(SchemaError::join_nonempty(collect_list(errs).unwrap()))
            },
        }
    }

    /// Check that `schema_nsdef` uses actions in a way consistent with the
    /// specified `action_behavior`: that no entity type has the name kept for
    /// actions, and that no action has attributes where they are prohibited.
    pub fn check_action_behavior<N: Model>(
        schema_nsdef: &NamespaceDefinition<N>,
        action_behavior: ActionBehavior,
    ) -> (r: Result<(), SchemaError>)
        ensures
            r.model() == behavior_checked(schema_nsdef.model(), action_behavior),
    {
        let ghost definition = schema_nsdef.model();
        let mut i: usize = 0;
        while i < schema_nsdef.entity_types.len()
            invariant
                i <= schema_nsdef.entity_types@.len(),
                definition == schema_nsdef.model(),
                forall|j: int|
                    0 <= j < i ==> (#[trigger] definition.entity_types[j]).0
                        != action_entity_type(),
            decreases schema_nsdef.entity_types@.len() - i,
        {
            // The name in an entity type declaration cannot be qualified with a
            // namespace (it always implicitly takes the schema namespace), so we do
            // this comparison directly.
            if smol_is(&to_smolstr(schema_nsdef.entity_types[i].0.as_str()), "Action") {
                assert(definition.entity_types[i as int].0 == action_entity_type());
                return Err(
                    SchemaError::ActionEntityTypeDeclared(ActionEntityTypeDeclaredError {  }),
                );
            }
            i = i + 1;
        }
        if action_behavior == ActionBehavior::ProhibitAttributes {
            let mut actions_with_attributes: Vec<String> = Vec::new();
            let mut i: usize = 0;
            while i < schema_nsdef.actions.len()
                invariant
                    i <= schema_nsdef.actions@.len(),
                    definition == schema_nsdef.model(),
                    actions_with_attributes.model() == with_attributes(
                        definition.actions.take(i as int),
                    ),
                decreases schema_nsdef.actions@.len() - i,
            {
                proof {
                    assert(definition.actions.take(i + 1).drop_last() =~= definition.actions.take(
                        i as int,
                    ));
                    assert(definition.actions[i as int] == schema_nsdef.actions@[i as int].model());
                }
                if schema_nsdef.actions[i].1.attributes.is_some() {
                    actions_with_attributes.push(schema_nsdef.actions[i].0.as_str().to_owned());
                }
                i = i + 1;
            }
            proof {
                assert(definition.actions.take(i as int) =~= definition.actions);
            }
            if actions_with_attributes.len() > 0 {
                return Err(
                    SchemaError::UnsupportedFeature(
                        UnsupportedFeatureError(
                            UnsupportedFeature::ActionAttributes(
                                sort_texts(actions_with_attributes),
                            ),
                        ),
                    ),
                );
            }
        }
        Ok(())
    }
}

impl TryFrom<NamespaceDefinition<RawName>>
    for ValidatorNamespaceDef<ConditionalName, ConditionalName> {
    type Error = SchemaError;

    /// Processes the definition of the empty namespace, whose actions may not have
    /// attributes.
    fn try_from(definition: NamespaceDefinition<RawName>) -> (r: Result<Self, SchemaError>)
        ensures
            r.model() == definition_processed(
                None,
                definition.model(),
                ActionBehavior::ProhibitAttributes,
                NoExtensions,
            ),
            r matches Ok(def) ==> declared_once::<ConditionalName, ConditionalName>(def.model()),
    {
        ValidatorNamespaceDef::from_namespace_definition(
            None,
            definition,
            ActionBehavior::default(),
            &NoExtensions,
        )
    }
}

impl vstd::std_specs::convert::TryFromSpecImpl<NamespaceDefinition<RawName>>
    for ValidatorNamespaceDef<ConditionalName, ConditionalName> {
    open spec fn obeys_try_from_spec() -> bool {
        false
    }

    open spec fn try_from_spec(definition: NamespaceDefinition<RawName>) -> Result<
        Self,
        SchemaError,
    > {
        arbitrary()
    }
}

} // verus!
