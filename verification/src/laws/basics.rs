//! What the smaller parts do.

use crate::action_uid::{action_entity, ActionEntityUID, ActionUidModel};
use crate::defs::DefsModel;
use crate::entity_types::{parents_of, FragmentModel};
use crate::err::SchemaError;
use crate::json_schema::{
    record_qualified, record_resolved, variant_qualified, variant_resolved, RecordModel, SchemaType,
    VariantModel,
};
use crate::keyed::{names_of, Keyed};
use crate::laws::action_fragments::holds_reserved;
use crate::laws::fragments::{
    same_name, same_name_same_components, same_reference, same_reference_same_key,
};
use crate::laws::qualification::{
    corresponds, found_in, is_first_lost, lost_references_are_reported, made_in, none_lost,
    references_are_made_in_place, references_are_resolved_in_place,
};
use crate::laws::values::{calls_nothing, expression_is_evaluated, has_value, reports_first_call};
use crate::model::Model;
use crate::names::{
    entity_type_of, path_text, EntityType, EntityUID, InternalName, Name, NameModel, UidModel,
};
use crate::namespace_def::common_types_only;
use crate::raw_name::{ConditionalModel, ConditionalName};
use crate::types::{Type, ValidatorType};
use crate::unresolved::{CommonTypeTable, WithUnresolvedCommonTypeRefs};
use crate::value::{ExprModel, NoExtensions, PartialValueModel, RestrictedEvaluator};
use vstd::prelude::*;
use vstd::std_specs::convert::FromSpec;

verus! {

/// A name reads as its components, in order, with two colons between them.
pub proof fn name_reads_as_its_components(name: NameModel)
    ensures
        name.path.len() == 0 ==> name.text() =~= name.id,
        name.path.len() > 0 ==> name.text() =~= (NameModel {
            path: name.path.drop_last(),
            id: name.path.last(),
            loc: name.loc,
        }).text() + "::"@ + name.id,
{
    if name.path.len() > 0 {
        let front = path_text(name.path.drop_last());
        assert(front + name.path.last() + "::"@ + name.id =~= (front + name.path.last()) + "::"@
            + name.id);
    }
}

/// A name is that of an entity type exactly where the reserved identifier does not occur in
/// it; either way it is that name which comes back.
pub proof fn entity_types_are_not_reserved(name: NameModel)
    ensures
        (match entity_type_of(name) {
            Ok(n) => n == name && !holds_reserved(name),
            Err(n) => n == name && holds_reserved(name),
        }),
{
}

/// An action is an entity exactly where its type is that of one: the entity of that type and
/// identifier.
pub proof fn actions_are_entities(action: ActionUidModel<NameModel>)
    ensures
        (match action_entity(action) {
            Ok(uid) => uid.ty == action.ty && uid.eid == action.id && !holds_reserved(action.ty),
            Err(name) => name == action.ty && holds_reserved(action.ty),
        }),
{
}

/// Names, entity types, references, actions and entities are told apart by what they are, not
/// by where they were written.
pub proof fn told_apart_by_what_they_are(
    a: NameModel,
    b: NameModel,
    x: ConditionalModel,
    y: ConditionalModel,
    s: Seq<char>,
    t: Seq<char>,
)
    ensures
        InternalName::key(a) == InternalName::key(b) <==> same_name(a, b),
        Name::key(a) == Name::key(b) <==> same_name(a, b),
        EntityType::key(a) == EntityType::key(b) <==> same_name(a, b),
        ConditionalName::key(x) == ConditionalName::key(y) <==> same_reference(x, y),
        EntityUID::key(UidModel { ty: a, eid: s }) == EntityUID::key(UidModel { ty: b, eid: t })
            <==> same_name(a, b) && s == t,
        ActionEntityUID::<InternalName>::key(ActionUidModel { id: s, ty: a }) == ActionEntityUID::<
            InternalName,
        >::key(ActionUidModel { id: t, ty: b }) <==> same_name(a, b) && s == t,
        ActionEntityUID::<ConditionalName>::key(ActionUidModel { id: s, ty: x })
            == ActionEntityUID::<ConditionalName>::key(ActionUidModel { id: t, ty: y })
            <==> same_reference(x, y) && s == t,
{
    same_name_same_components(a, b);
    same_reference_same_key(x, y);
}

/// The names of entries are those under which they stand, in order.
pub proof fn names_are_those_of_entries<K, V>(entries: Seq<(K, V)>)
    ensures
        names_of(entries) =~= entries.map_values(|entry: (K, V)| entry.0),
{
}

/// The parents of an entity type are those that its fragment lists; an enumerated one has
/// none.
pub proof fn parents_are_those_listed<N>(fragment: FragmentModel<N>)
    ensures
        (match fragment {
            FragmentModel::Standard { parents: listed, .. } => parents_of(fragment) == listed,
            FragmentModel::Enum(_) => parents_of(fragment).len() == 0,
        }),
{
}

/// A form of type, and a record, have their references made in place as a type has.
pub proof fn parts_have_references_made_in_place(
    ty: VariantModel<NameModel>,
    record: RecordModel<NameModel>,
    namespace: Option<NameModel>,
)
    ensures
        corresponds(
            SchemaType::Type { ty, loc: None },
            SchemaType::Type { ty: variant_qualified(ty, namespace), loc: None },
            made_in(namespace),
        ),
        corresponds(
            SchemaType::Type { ty: VariantModel::Record(record), loc: None },
            SchemaType::Type {
                ty: VariantModel::Record(record_qualified(record, namespace)),
                loc: None,
            },
            made_in(namespace),
        ),
{
    references_are_made_in_place(SchemaType::Type { ty, loc: None }, namespace);
    references_are_made_in_place(
        SchemaType::Type { ty: VariantModel::Record(record), loc: None },
        namespace,
    );
}

/// A form of type, and a record, have their references resolved in place as a type has; or
/// else the first reference that stands for nothing is reported.
pub proof fn parts_have_references_resolved_in_place(
    ty: VariantModel<ConditionalModel>,
    record: RecordModel<ConditionalModel>,
    defs: DefsModel,
)
    ensures
        (match variant_resolved(ty, defs) {
            Ok(r) => corresponds(
                SchemaType::Type { ty, loc: None },
                SchemaType::Type { ty: r, loc: None },
                found_in(defs),
            ),
            Err(reported) => reported.len() == 1 && is_first_lost(
                SchemaType::Type { ty, loc: None },
                reported[0],
                defs,
            ),
        }),
        variant_resolved(ty, defs) is Ok <==> none_lost(SchemaType::Type { ty, loc: None }, defs),
        (match record_resolved(record, defs) {
            Ok(r) => corresponds(
                SchemaType::Type { ty: VariantModel::Record(record), loc: None },
                SchemaType::Type { ty: VariantModel::Record(r), loc: None },
                found_in(defs),
            ),
            Err(reported) => reported.len() == 1 && is_first_lost(
                SchemaType::Type { ty: VariantModel::Record(record), loc: None },
                reported[0],
                defs,
            ),
        }),
        record_resolved(record, defs) is Ok <==> none_lost(
            SchemaType::Type { ty: VariantModel::Record(record), loc: None },
            defs,
        ),
{
    let t = SchemaType::Type { ty, loc: None };
    let u = SchemaType::Type { ty: VariantModel::Record(record), loc: None };
    references_are_resolved_in_place(t, defs);
    references_are_resolved_in_place(u, defs);
    lost_references_are_reported(t, defs);
    lost_references_are_reported(u, defs);
}

/// A definition of common types only has these, its namespace, and nothing else.
pub proof fn common_types_only_are_defined(
    namespace: Option<NameModel>,
    common_types: Seq<(NameModel, SchemaType<ConditionalModel>)>,
)
    ensures
        ({
            let r = common_types_only(namespace, common_types);
            &&& r.namespace == namespace
            &&& r.common_types == common_types
            &&& r.entity_types.len() == 0
            &&& r.actions.len() == 0
        }),
{
}

/// Without extensions, an expression in which no function is called has its value in full,
/// part by part; otherwise the first call is reported.
pub proof fn values_are_full_without_extensions(e: ExprModel)
    ensures
        (match NoExtensions.evaluated(e) {
            Ok(PartialValueModel::Value(v)) => has_value(e, v) && calls_nothing(e),
            Ok(PartialValueModel::Residual(_)) => false,
            Err(error) => reports_first_call(e, error) && !calls_nothing(e),
        }),
{
    expression_is_evaluated(e);
}

/// What has no unresolved references gives its value whatever the common types are, and
/// nothing else.
pub proof fn resolved_values_are_given<T>(
    w: WithUnresolvedCommonTypeRefs<T>,
    table: &CommonTypeTable,
    x: Result<T, SchemaError>,
)
    requires
        !w.is_unresolved(),
    ensures
        w.accepts(table),
        w.yields(table, x) <==> x == Ok::<T, SchemaError>(w->WithoutUnresolved_0),
{
}

/// What is made from a value alone has no unresolved references and no place, and gives that
/// value.
pub proof fn values_have_nothing_unresolved<T: 'static>(
    value: T,
    ty: Type,
    table: &CommonTypeTable,
    other: &CommonTypeTable,
)
    ensures
        ({
            let w = <WithUnresolvedCommonTypeRefs<T> as FromSpec<T>>::from_spec(value);
            &&& !w.is_unresolved()
            &&& w.place() is None
            &&& w.yields(table, Ok(value))
        }),
        ({
            let w = <WithUnresolvedCommonTypeRefs<ValidatorType> as FromSpec<Type>>::from_spec(ty);
            &&& !w.is_unresolved()
            &&& w.place() is None
            &&& w.yields(other, Ok(ValidatorType { ty }))
        }),
{
}

} // verus!
