//! What is declared, and under which names.

use crate::action_attributes::attributes_converted;
use crate::action_uid::action_entity_type;
use crate::actions::{
    action_declarations, declared_action, declared_fragment, duplicate_action, or_empty,
    raw_actions, ActionFragmentModel,
};
use crate::common_types::{
    common_type_declarations, conditional_common_types, duplicate_common_type, raw_common_types,
    typedef_declarations,
};
use crate::declarations::{ActionTypeModel, CommonTypeModel, EntityDeclarationModel};
use crate::entity_types::{
    duplicate_entity_type, entity_type_declarations, raw_entity_types, raw_fragment, FragmentModel,
};
use crate::err::ErrorModel;
use crate::gathered::gathered_ok;
use crate::json_schema::{type_qualified, SchemaType};
use crate::keyed::Keyed;
use crate::names::{
    qualified, reserved_id, simple_name, EntityType, EntityUID, InternalName, LocModel, NameModel,
};
use crate::raw_name::ConditionalModel;
use crate::value::RestrictedEvaluator;
use vstd::prelude::*;

verus! {

/// The components of a namespace; the empty one has none.
pub open spec fn components_of(namespace: Option<NameModel>) -> Seq<Seq<char>> {
    match namespace {
        Some(name) => name.components(),
        None => Seq::empty(),
    }
}

/// Whether no two declarations have the same identifier.
pub open spec fn no_id_twice<D>(declarations: Seq<(Seq<char>, D)>) -> bool {
    forall|i: int, j: int|
        0 <= i < j < declarations.len() ==> (#[trigger] declarations[i]).0 != (
        #[trigger] declarations[j]).0
}

/// A declared name is always prefixed by the namespace: it consists of the
/// components of the namespace and of the identifier, and it has the reserved
/// identifier in it where the one or the other has.
pub proof fn declared_name_is_prefixed(
    id: Seq<char>,
    loc: Option<LocModel>,
    namespace: Option<NameModel>,
)
    ensures
        qualified(simple_name(id, loc), namespace).components() == components_of(namespace).push(
            id,
        ),
        qualified(simple_name(id, loc), namespace).loc == loc,
        qualified(simple_name(id, loc), namespace).is_reserved() <==> components_of(
            namespace,
        ).contains(reserved_id()) || id == reserved_id(),
{
    let all = components_of(namespace);
    assert(qualified(simple_name(id, loc), namespace).components() =~= all.push(id));
    if all.contains(reserved_id()) {
        let i = choose|i: int| 0 <= i < all.len() && all[i] == reserved_id();
        assert(all.push(id)[i] == reserved_id());
    }
    if id == reserved_id() {
        assert(all.push(id)[all.len() as int] == reserved_id());
    }
    if all.push(id).contains(reserved_id()) {
        let i = choose|i: int| 0 <= i < all.push(id).len() && all.push(id)[i] == reserved_id();
        if i < all.len() {
            assert(all[i] == reserved_id());
        }
    }
}

/// Inside one namespace, declared names are the same exactly where the identifiers
/// are.
pub proof fn declared_names_differ_as_identifiers_do(
    a: Seq<char>,
    a_loc: Option<LocModel>,
    b: Seq<char>,
    b_loc: Option<LocModel>,
    namespace: Option<NameModel>,
)
    ensures
        qualified(simple_name(a, a_loc), namespace).components() == qualified(
            simple_name(b, b_loc),
            namespace,
        ).components() <==> a == b,
{
    let all = components_of(namespace);
    declared_name_is_prefixed(a, a_loc, namespace);
    declared_name_is_prefixed(b, b_loc, namespace);
    assert(all.push(a).last() == a);
    assert(all.push(b).last() == b);
}

/// Common types can be declared exactly where no two have the same identifier. Each
/// is then declared under its identifier with the namespace in front, in the order
/// in which they came.
pub proof fn common_types_are_declared_once(
    types: Seq<(Seq<char>, CommonTypeModel<NameModel>)>,
    namespace: Option<NameModel>,
)
    ensures
        raw_common_types(types, namespace) is Ok <==> no_id_twice(types),
        raw_common_types(types, namespace) matches Ok(defs) ==> {
            &&& defs.len() == types.len()
            &&& forall|i: int|
                0 <= i < types.len() ==> (#[trigger] defs[i]) == (
                    qualified(simple_name(types[i].0, types[i].1.loc), namespace),
                    type_qualified(types[i].1.ty, namespace),
                )
        },
{
    let declarations = common_type_declarations(types, namespace);
    gathered_ok::<InternalName, SchemaType<ConditionalModel>, ErrorModel>(
        declarations,
        duplicate_common_type(),
    );
    assert forall|i: int, j: int| 0 <= i < j < types.len() implies ((#[trigger] types[i]).0 == (
    #[trigger] types[j]).0 <==> declarations[i].0->Ok_0.components()
        == declarations[j].0->Ok_0.components()) by {
        declared_names_differ_as_identifiers_do(
            types[i].0,
            types[i].1.loc,
            types[j].0,
            types[j].1.loc,
            namespace,
        );
    }
    if no_id_twice(types) {
        assert forall|i: int, j: int| 0 <= i < j < declarations.len() implies (
        #[trigger] declarations[i]).0->Ok_0.components() != (
        #[trigger] declarations[j]).0->Ok_0.components() by {
            assert(types[i].0 != types[j].0);
        }
    }
    if let Ok(defs) = raw_common_types(types, namespace) {
        assert forall|i: int, j: int| 0 <= i < j < types.len() implies (#[trigger] types[i]).0 != (
        #[trigger] types[j]).0 by {
            assert(declarations[i].0->Ok_0.components() != declarations[j].0->Ok_0.components());
        }
        assert forall|i: int| 0 <= i < types.len() implies (#[trigger] defs[i]) == (
            qualified(simple_name(types[i].0, types[i].1.loc), namespace),
            type_qualified(types[i].1.ty, namespace),
        ) by {
            assert(declarations[i].0 is Ok);
        }
    }
}

/// Common types whose references are already made can be declared exactly where no
/// two have the same identifier. Each is then declared under its identifier with the
/// namespace in front, in the order in which they came, and stays as it is.
pub proof fn typedefs_are_declared_once(
    types: Seq<(Seq<char>, SchemaType<ConditionalModel>)>,
    namespace: Option<NameModel>,
)
    ensures
        conditional_common_types(types, namespace) is Ok <==> no_id_twice(types),
        conditional_common_types(types, namespace) matches Ok(defs) ==> {
            &&& defs.len() == types.len()
            &&& forall|i: int|
                0 <= i < types.len() ==> (#[trigger] defs[i]) == (
                    qualified(simple_name(types[i].0, None), namespace),
                    types[i].1,
                )
        },
{
    let declarations = typedef_declarations(types, namespace);
    gathered_ok::<InternalName, SchemaType<ConditionalModel>, ErrorModel>(
        declarations,
        duplicate_common_type(),
    );
    assert forall|i: int, j: int| 0 <= i < j < types.len() implies ((#[trigger] types[i]).0 == (
    #[trigger] types[j]).0 <==> declarations[i].0->Ok_0.components()
        == declarations[j].0->Ok_0.components()) by {
        declared_names_differ_as_identifiers_do(types[i].0, None, types[j].0, None, namespace);
    }
    if no_id_twice(types) {
        assert forall|i: int, j: int| 0 <= i < j < declarations.len() implies (
        #[trigger] declarations[i]).0->Ok_0.components() != (
        #[trigger] declarations[j]).0->Ok_0.components() by {
            assert(types[i].0 != types[j].0);
        }
    }
    if let Ok(defs) = conditional_common_types(types, namespace) {
        assert forall|i: int, j: int| 0 <= i < j < types.len() implies (#[trigger] types[i]).0 != (
        #[trigger] types[j]).0 by {
            assert(declarations[i].0->Ok_0.components() != declarations[j].0->Ok_0.components());
        }
        assert forall|i: int| 0 <= i < types.len() implies (#[trigger] defs[i]) == (
            qualified(simple_name(types[i].0, None), namespace),
            types[i].1,
        ) by {
            assert(declarations[i].0 is Ok);
        }
    }
}

/// A single declaration does not collide with itself: declaring it alone is
/// declaring a sequence of one.
pub proof fn one_typedef_is_declared(
    id: Seq<char>,
    ty: SchemaType<ConditionalModel>,
    namespace: Option<NameModel>,
)
    ensures
        conditional_common_types(seq![(id, ty)], namespace) == Ok::<
            Seq<(NameModel, SchemaType<ConditionalModel>)>,
            ErrorModel,
        >(seq![(qualified(simple_name(id, None), namespace), ty)]),
{
    typedefs_are_declared_once(seq![(id, ty)], namespace);
    let defs = conditional_common_types(seq![(id, ty)], namespace)->Ok_0;
    assert(defs[0] == (qualified(simple_name(id, None), namespace), ty));
    assert(defs =~= seq![(qualified(simple_name(id, None), namespace), ty)]);
}

/// Entity types can be declared exactly where no two have the same identifier and
/// the reserved one does not occur in the namespace. Each is then declared under its
/// identifier with the namespace in front, in the order in which they came.
pub proof fn entity_types_are_declared_once(
    types: Seq<(Seq<char>, EntityDeclarationModel<NameModel>)>,
    namespace: Option<NameModel>,
)
    requires
        forall|i: int| 0 <= i < types.len() ==> (#[trigger] types[i]).0 != reserved_id(),
    ensures
        raw_entity_types(types, namespace) is Ok <==> no_id_twice(types) && (types.len() == 0
            || !components_of(namespace).contains(reserved_id())),
        raw_entity_types(types, namespace) matches Ok(defs) ==> {
            &&& defs.len() == types.len()
            &&& forall|i: int|
                0 <= i < types.len() ==> (#[trigger] defs[i]) == (
                    qualified(simple_name(types[i].0, types[i].1.loc), namespace),
                    raw_fragment(types[i].1, namespace),
                )
        },
{
    let declarations = entity_type_declarations(types, namespace);
    gathered_ok::<EntityType, FragmentModel<ConditionalModel>, ErrorModel>(
        declarations,
        duplicate_entity_type(),
    );
    assert forall|i: int| 0 <= i < types.len() implies ((#[trigger] declarations[i]).0 is Ok
        <==> !components_of(namespace).contains(reserved_id())) && declarations[i].1 is Ok by {
        assert(types[i].0 != reserved_id());
        declared_name_is_prefixed(types[i].0, types[i].1.loc, namespace);
    }
    if !components_of(namespace).contains(reserved_id()) {
        assert forall|i: int, j: int| 0 <= i < j < types.len() implies ((#[trigger] types[i]).0 == (
        #[trigger] types[j]).0 <==> declarations[i].0->Ok_0.components()
            == declarations[j].0->Ok_0.components()) by {
            assert(declarations[i].0 is Ok && declarations[j].0 is Ok);
            declared_names_differ_as_identifiers_do(
                types[i].0,
                types[i].1.loc,
                types[j].0,
                types[j].1.loc,
                namespace,
            );
        }
        if no_id_twice(types) {
            assert forall|i: int, j: int| 0 <= i < j < declarations.len() implies (
            #[trigger] declarations[i]).0->Ok_0.components() != (
            #[trigger] declarations[j]).0->Ok_0.components() by {
                assert(types[i].0 != types[j].0);
            }
        }
    }
    if let Ok(defs) = raw_entity_types(types, namespace) {
        if types.len() > 0 {
            assert(declarations[0].0 is Ok);
        }
        assert forall|i: int, j: int| 0 <= i < j < types.len() implies (#[trigger] types[i]).0 != (
        #[trigger] types[j]).0 by {
            assert(declarations[i].0->Ok_0.components() != declarations[j].0->Ok_0.components());
        }
        assert forall|i: int| 0 <= i < types.len() implies (#[trigger] defs[i]) == (
            qualified(simple_name(types[i].0, types[i].1.loc), namespace),
            raw_fragment(types[i].1, namespace),
        ) by {
            assert(declarations[i].0 is Ok);
        }
    }
}

/// The action that is declared under a name is of the type kept for actions, with
/// the namespace in front. It cannot be declared where the reserved identifier
/// occurs in the namespace.
pub proof fn declared_action_is_prefixed(name: Seq<char>, namespace: Option<NameModel>)
    ensures
        declared_action(name, namespace) is Ok <==> !components_of(namespace).contains(
            reserved_id(),
        ),
        declared_action(name, namespace) matches Ok(uid) ==> {
            &&& uid.eid == name
            &&& uid.ty.components() == components_of(namespace).push(action_entity_type())
        },
{
    reveal_strlit("Action");
    reveal_strlit("__cedar");
    assert("Action"@.len() == 6);
    assert("__cedar"@.len() == 7);
    declared_name_is_prefixed(action_entity_type(), None, namespace);
}

/// Actions can be declared exactly where no two have the same name, the reserved
/// identifier does not occur in the namespace and the attributes of all of them have
/// types and values. Each is then declared under its name, in the order in which they
/// came.
pub proof fn actions_are_declared_once<E: RestrictedEvaluator>(
    actions: Seq<(Seq<char>, ActionTypeModel<NameModel>)>,
    namespace: Option<NameModel>,
    evaluator: E,
)
    ensures
        raw_actions(actions, namespace, evaluator) is Ok <==> {
            &&& no_id_twice(actions)
            &&& actions.len() == 0 || !components_of(namespace).contains(reserved_id())
            &&& forall|i: int|
                0 <= i < actions.len() ==> attributes_converted(
                    or_empty((#[trigger] actions[i]).1.attributes),
                    declared_action(actions[i].0, namespace)->Ok_0,
                    evaluator,
                ) is Ok
        },
        raw_actions(actions, namespace, evaluator) matches Ok(defs) ==> {
            &&& defs.len() == actions.len()
            &&& forall|i: int|
                0 <= i < actions.len() ==> {
                    &&& (#[trigger] defs[i]).0.eid == actions[i].0
                    &&& defs[i].0.ty.components() == components_of(namespace).push(
                        action_entity_type(),
                    )
                    &&& Ok::<ActionFragmentModel<ConditionalModel, ConditionalModel>, ErrorModel>(
                        defs[i].1,
                    ) == declared_fragment(actions[i].0, actions[i].1, namespace, evaluator)
                }
        },
{
    let declarations = action_declarations(actions, namespace, evaluator);
    gathered_ok::<EntityUID, ActionFragmentModel<ConditionalModel, ConditionalModel>, ErrorModel>(
        declarations,
        duplicate_action(),
    );
    assert forall|i: int| 0 <= i < actions.len() implies {
        &&& (#[trigger] declarations[i]).0 is Ok <==> !components_of(namespace).contains(
            reserved_id(),
        )
        &&& declarations[i].0 is Ok ==> declarations[i].0->Ok_0.eid == actions[i].0
        &&& declarations[i].0 is Ok ==> declarations[i].0->Ok_0.ty.components() == components_of(
            namespace,
        ).push(action_entity_type())
        &&& declarations[i].0 is Ok ==> (declarations[i].1 is Ok <==> attributes_converted(
            or_empty(actions[i].1.attributes),
            declared_action(actions[i].0, namespace)->Ok_0,
            evaluator,
        ) is Ok)
    } by {
        declared_action_is_prefixed(actions[i].0, namespace);
    }
    let whole = raw_actions(actions, namespace, evaluator);
    let distinct_names = no_id_twice(actions);
    let unreserved = actions.len() == 0 || !components_of(namespace).contains(reserved_id());
    let converted = forall|i: int|
        0 <= i < actions.len() ==> attributes_converted(
            or_empty((#[trigger] actions[i]).1.attributes),
            declared_action(actions[i].0, namespace)->Ok_0,
            evaluator,
        ) is Ok;
    if distinct_names && unreserved && converted {
        assert forall|i: int| 0 <= i < declarations.len() implies (
        #[trigger] declarations[i]).0 is Ok && declarations[i].1 is Ok by {
            assert(attributes_converted(
                or_empty(actions[i].1.attributes),
                declared_action(actions[i].0, namespace)->Ok_0,
                evaluator,
            ) is Ok);
        }
        assert forall|i: int, j: int| 0 <= i < j < declarations.len() implies EntityUID::key(
            (#[trigger] declarations[i]).0->Ok_0,
        ) != EntityUID::key((#[trigger] declarations[j]).0->Ok_0) by {
            assert(actions[i].0 != actions[j].0);
        }
    }
    if let Ok(defs) = whole {
        if actions.len() > 0 {
            assert(declarations[0].0 is Ok);
        }
        assert forall|i: int, j: int| 0 <= i < j < actions.len() implies (
        #[trigger] actions[i]).0 != (#[trigger] actions[j]).0 by {
            assert(EntityUID::key(declarations[i].0->Ok_0) != EntityUID::key(
                declarations[j].0->Ok_0,
            ));
        }
        assert forall|i: int| 0 <= i < actions.len() implies attributes_converted(
            or_empty((#[trigger] actions[i]).1.attributes),
            declared_action(actions[i].0, namespace)->Ok_0,
            evaluator,
        ) is Ok by {
            assert(declarations[i].1 is Ok);
        }
        assert forall|i: int| 0 <= i < actions.len() implies {
            &&& (#[trigger] defs[i]).0.eid == actions[i].0
            &&& defs[i].0.ty.components() == components_of(namespace).push(action_entity_type())
            &&& Ok::<ActionFragmentModel<ConditionalModel, ConditionalModel>, ErrorModel>(defs[i].1)
                == declared_fragment(actions[i].0, actions[i].1, namespace, evaluator)
        } by {
            assert(declarations[i].0 is Ok);
        }
    }
}

} // verus!
