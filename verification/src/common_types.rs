//! The common types that are declared in a namespace.

use crate::declarations::{CommonType, CommonTypeModel};
use crate::defs::{AllDefs, DefsModel};
use crate::err::{
    partition_undefined, DuplicateCommonTypeError, ErrorModel, SchemaError, TypeNotDefinedError,
};
use crate::gathered::{gathered, gathered_ok, gathered_prefix, gathered_push, Declaration};
use crate::json_schema::{type_qualified, type_resolved, SchemaType, Type};
use crate::keyed::{all_distinct, names_of, position};
use crate::model::{Duplicate, Model};
use crate::names::{
    namespace_model, qualified, simple_name, CommonTypeId, InternalName, NameModel, UnreservedId,
};
use crate::outcome::{partition_nonempty, partitioned, partitioned_ok};
use crate::raw_name::{ConditionalModel, ConditionalName, RawName};
use vstd::prelude::*;

verus! {

broadcast use crate::model::group_models;

/// The common types that are declared, each under its full name. The names are
/// fully qualified; whether the references inside the types are depends on `N`. No
/// common type is declared twice.
#[derive(Debug)]
pub struct CommonTypeDefs<N: Model> {
    defs: Vec<(InternalName, Type<N>)>,
}

impl<N: Model> Model for CommonTypeDefs<N> {
    type M = Seq<(NameModel, SchemaType<N::M>)>;

    closed spec fn model(&self) -> Seq<(NameModel, SchemaType<N::M>)> {
        self.defs.model()
    }
}

/// Whether no common type is declared twice.
pub open spec fn common_types_once<T>(defs: Seq<(NameModel, T)>) -> bool {
    all_distinct::<InternalName>(names_of(defs))
}

impl<N: Duplicate> Clone for CommonTypeDefs<N> {
    fn clone(&self) -> (r: Self)
        ensures
            r.model() == self.model(),
    {
        proof {
            use_type_invariant(self);
        }
        CommonTypeDefs { defs: self.defs.duplicate() }
    }
}

impl<N: Model> CommonTypeDefs<N> {
    #[verifier::type_invariant]
    spec fn is_well_formed(self) -> bool {
        common_types_once(self.model())
    }

    /// The common types, each under its full name.
    pub fn defs(&self) -> (r: &Vec<(InternalName, Type<N>)>)
        ensures
            r.model() == self.model(),
            common_types_once(r.model()),
    {
        proof {
            use_type_invariant(self);
        }
        &self.defs
    }
}

/// Two declarations of the same common type: the name is that of the first.
pub open spec fn duplicate_common_type() -> spec_fn(NameModel, NameModel) -> ErrorModel {
    |earlier: NameModel, later: NameModel| ErrorModel::DuplicateCommonType(earlier)
}

/// The declarations of common types inside `namespace`. The name of a declaration
/// is always prefixed by the namespace.
pub open spec fn common_type_declarations(
    types: Seq<(Seq<char>, CommonTypeModel<NameModel>)>,
    namespace: Option<NameModel>,
) -> Seq<Declaration<NameModel, SchemaType<ConditionalModel>, ErrorModel>> {
    Seq::new(
        types.len(),
        |i: int|
            (
                Ok(qualified(simple_name(types[i].0, types[i].1.loc), namespace)),
                Ok(type_qualified(types[i].1.ty, namespace)),
            ),
    )
}

/// The common types of `types` inside `namespace`.
pub open spec fn raw_common_types(
    types: Seq<(Seq<char>, CommonTypeModel<NameModel>)>,
    namespace: Option<NameModel>,
) -> Result<Seq<(NameModel, SchemaType<ConditionalModel>)>, ErrorModel> {
    gathered::<InternalName, SchemaType<ConditionalModel>, ErrorModel>(
        common_type_declarations(types, namespace),
        duplicate_common_type(),
    )
}

/// The declarations of common types whose references are already made.
pub open spec fn typedef_declarations(
    types: Seq<(Seq<char>, SchemaType<ConditionalModel>)>,
    namespace: Option<NameModel>,
) -> Seq<Declaration<NameModel, SchemaType<ConditionalModel>, ErrorModel>> {
    Seq::new(
        types.len(),
        |i: int| (Ok(qualified(simple_name(types[i].0, None), namespace)), Ok(types[i].1)),
    )
}

/// The common types of `types`, whose references are already made, inside
/// `namespace`.
pub open spec fn conditional_common_types(
    types: Seq<(Seq<char>, SchemaType<ConditionalModel>)>,
    namespace: Option<NameModel>,
) -> Result<Seq<(NameModel, SchemaType<ConditionalModel>)>, ErrorModel> {
    gathered::<InternalName, SchemaType<ConditionalModel>, ErrorModel>(
        typedef_declarations(types, namespace),
        duplicate_common_type(),
    )
}

/// What becomes of each common type when references are resolved.
pub open spec fn common_type_steps(
    defs: Seq<(NameModel, SchemaType<ConditionalModel>)>,
    all_defs: DefsModel,
) -> Seq<Result<(NameModel, SchemaType<NameModel>), Seq<ConditionalModel>>> {
    Seq::new(
        defs.len(),
        |i: int|
            match type_resolved(defs[i].1, all_defs) {
                Ok(ty) => Ok((defs[i].0, ty)),
                Err(undefined) => Err(undefined),
            },
    )
}

/// The common types with their references resolved, or all the references that
/// stand for nothing.
pub open spec fn common_types_resolved(
    defs: Seq<(NameModel, SchemaType<ConditionalModel>)>,
    all_defs: DefsModel,
) -> Result<Seq<(NameModel, SchemaType<NameModel>)>, Seq<ConditionalModel>> {
    partition_undefined(partitioned(common_type_steps(defs, all_defs)))
}

/// Common types stay declared under the same names when references are resolved.
pub proof fn common_types_keep_names(
    defs: Seq<(NameModel, SchemaType<ConditionalModel>)>,
    all_defs: DefsModel,
)
    ensures
        common_types_resolved(defs, all_defs) matches Ok(r) ==> names_of(r) == names_of(defs),
{
    let steps = common_type_steps(defs, all_defs);
    partitioned_ok(steps);
    if let Ok(r) = common_types_resolved(defs, all_defs) {
        assert forall|i: int| 0 <= i < steps.len() implies #[trigger] r[i].0 == defs[i].0 by {
            assert(steps[i] is Ok);
        }
        assert(names_of(r) =~= names_of(defs));
    }
}

impl CommonTypeDefs<ConditionalName> {
    /// The common types of `schema_file_type_def`, which are declared inside
    /// `schema_namespace`.
    pub fn from_raw_common_types(
        schema_file_type_def: Vec<(CommonTypeId, CommonType<RawName>)>,
        schema_namespace: Option<&InternalName>,
    ) -> (r: Result<Self, SchemaError>)
        ensures
            r.model() == raw_common_types(
                schema_file_type_def.model(),
                namespace_model(schema_namespace),
            ),
            r matches Ok(defs) ==> common_types_once(defs.model()),
    {
        let ghost all = schema_file_type_def@;
        let ghost ns = namespace_model(schema_namespace);
        let ghost declarations = common_type_declarations(schema_file_type_def.model(), ns);
        let mut defs: Vec<(InternalName, Type<ConditionalName>)> = Vec::new();
        proof {
            gathered_ok::<InternalName, SchemaType<ConditionalModel>, ErrorModel>(
                declarations,
                duplicate_common_type(),
            );
            assert(declarations.take(0) =~= Seq::empty());
        }
        for entry in it: schema_file_type_def
            invariant
                it.seq() == all,
                all == schema_file_type_def@,
                ns == namespace_model(schema_namespace),
                declarations == common_type_declarations(schema_file_type_def.model(), ns),
                gathered::<InternalName, SchemaType<ConditionalModel>, ErrorModel>(
                    declarations.take(it.index() as int),
                    duplicate_common_type(),
                ) == Ok::<Seq<(NameModel, SchemaType<ConditionalModel>)>, ErrorModel>(defs.model()),
        {
            let ghost i = it.index() as int;
            let (id, schema_ty) = entry;
            proof {
                assert(schema_file_type_def.model()[i] == entry.model());
                gathered_push::<InternalName, SchemaType<ConditionalModel>, ErrorModel>(
                    declarations,
                    duplicate_common_type(),
                    i,
                );
            }
            // The name of a declaration is always (unconditionally) prefixed by the
            // current namespace.
            let name = RawName::new_from_unreserved(
                id.into_unreserved(),
                schema_ty.loc,
            ).qualify_with(schema_namespace);
            match position(&defs, &name) {
                None => {
                    defs.push(
                        (
                            name,
                            schema_ty.ty.conditionally_qualify_type_references(schema_namespace),
                        ),
                    );
                },
                Some(earlier) => {
                    proof {
                        gathered_prefix::<InternalName, SchemaType<ConditionalModel>, ErrorModel>(
                            declarations,
                            duplicate_common_type(),
                            i + 1,
                        );
                    }
                    return Err(
                        SchemaError::DuplicateCommonType(
                            DuplicateCommonTypeError { ty: defs[earlier].0.clone() },
                        ),
                    );
                },
            }
        }
        proof {
            assert(declarations.take(all.len() as int) =~= declarations);
        }
        Ok(CommonTypeDefs { defs })
    }

    /// The common types of `input_type_defs`, which are declared inside
    /// `schema_namespace` and whose references are already made.
    pub fn from_conditionalname_typedefs(
        input_type_defs: Vec<(UnreservedId, Type<ConditionalName>)>,
        schema_namespace: Option<&InternalName>,
    ) -> (r: Result<Self, SchemaError>)
        ensures
            r.model() == conditional_common_types(
                input_type_defs.model(),
                namespace_model(schema_namespace),
            ),
            r matches Ok(defs) ==> common_types_once(defs.model()),
    {
        let ghost all = input_type_defs@;
        let ghost ns = namespace_model(schema_namespace);
        let ghost declarations = typedef_declarations(input_type_defs.model(), ns);
        let mut defs: Vec<(InternalName, Type<ConditionalName>)> = Vec::new();
        proof {
            gathered_ok::<InternalName, SchemaType<ConditionalModel>, ErrorModel>(
                declarations,
                duplicate_common_type(),
            );
            assert(declarations.take(0) =~= Seq::empty());
        }
        for entry in it: input_type_defs
            invariant
                it.seq() == all,
                all == input_type_defs@,
                ns == namespace_model(schema_namespace),
                declarations == typedef_declarations(input_type_defs.model(), ns),
                gathered::<InternalName, SchemaType<ConditionalModel>, ErrorModel>(
                    declarations.take(it.index() as int),
                    duplicate_common_type(),
                ) == Ok::<Seq<(NameModel, SchemaType<ConditionalModel>)>, ErrorModel>(defs.model()),
        {
            let ghost i = it.index() as int;
            let (id, schema_ty) = entry;
            proof {
                assert(input_type_defs.model()[i] == entry.model());
                gathered_push::<InternalName, SchemaType<ConditionalModel>, ErrorModel>(
                    declarations,
                    duplicate_common_type(),
                    i,
                );
            }
            let name = RawName::new_from_unreserved(id, None).qualify_with(schema_namespace);
            match position(&defs, &name) {
                None => {
                    defs.push((name, schema_ty));
                },
                Some(earlier) => {
                    proof {
                        gathered_prefix::<InternalName, SchemaType<ConditionalModel>, ErrorModel>(
                            declarations,
                            duplicate_common_type(),
                            i + 1,
                        );
                    }
                    return Err(
                        SchemaError::DuplicateCommonType(
                            DuplicateCommonTypeError { ty: defs[earlier].0.clone() },
                        ),
                    );
                },
            }
        }
        proof {
            assert(declarations.take(all.len() as int) =~= declarations);
        }
        Ok(CommonTypeDefs { defs })
    }

    /// A single common type, which is declared inside `schema_namespace` and whose
    /// references are already made.
    ///
    /// Unlike `from_conditionalname_typedefs()`, this cannot fail: one declaration
    /// does not collide with itself.
    pub fn from_conditionalname_typedef(
        def: (UnreservedId, Type<ConditionalName>),
        schema_namespace: Option<&InternalName>,
    ) -> (r: Self)
        ensures
            r.model() == seq![
                (
                    qualified(simple_name(def.0.model(), None), namespace_model(schema_namespace)),
                    def.1.model(),
                ),
            ],
            common_types_once(r.model()),
    {
        let (id, schema_ty) = def;
        let mut defs: Vec<(InternalName, Type<ConditionalName>)> = Vec::new();
        defs.push(
            (RawName::new_from_unreserved(id, None).qualify_with(schema_namespace), schema_ty),
        );
        let r = CommonTypeDefs { defs };
        assert(r.model() =~= seq![
            (
                qualified(simple_name(def.0.model(), None), namespace_model(schema_namespace)),
                def.1.model(),
            ),
        ]);
        r
    }

    /// Replaces each reference in the common types by what it stands for.
    ///
    /// `all_defs` needs to contain the full set of all fully-qualified typenames
    /// and actions that are defined in the schema (in all schema fragments).
    pub fn fully_qualify_type_references(self, all_defs: &AllDefs) -> (r: Result<
        CommonTypeDefs<InternalName>,
        TypeNotDefinedError,
    >)
        ensures
            r.model() == common_types_resolved(self.model(), all_defs.model()),
            r matches Ok(defs) ==> common_types_once(defs.model()),
    {
        proof {
            use_type_invariant(&self);
        }
        let ghost all = self.defs@;
        let ghost steps = common_type_steps(self.model(), all_defs.model());
        let mut results: Vec<Result<(InternalName, Type<InternalName>), TypeNotDefinedError>> =
            Vec::new();
        for entry in it: self.defs
            invariant
                it.seq() == all,
                all == self.defs@,
                steps == common_type_steps(self.model(), all_defs.model()),
                results@.len() == it.index(),
                forall|i: int|
                    #![trigger results@[i]]
                    0 <= i < results@.len() ==> results@[i].model() == steps[i],
        {
            let ghost i = it.index() as int;
            proof {
                assert(self.model()[i] == entry.model());
            }
            let (name, ty) = entry;
            results.push(
                match ty.fully_qualify_type_references(all_defs) {
                    Ok(ty) => Ok((name, ty)),
                    Err(e) => Err(e),
                },
            );
        }
        assert(results.model() =~= steps);
        proof {
            common_types_keep_names(self.model(), all_defs.model());
        }
        match partition_nonempty(results) {
            Ok(defs) => Ok(CommonTypeDefs { defs }),
            Err(errs) => Err(TypeNotDefinedError::join_nonempty(errs)),
        }
    }
}

} // verus!
