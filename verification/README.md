# cedar_schema

A verified library for the namespaces of an authorization-policy schema. It takes
the declarations of a namespace as a schema writes them and brings them, step by
step, into the form that a policy validator works on:

1. `namespace_def` processes the definition of a namespace. Names that are being
   declared get the namespace in front, and references become *conditional*: it is
   noted which full names they may stand for. Duplicate and reserved names are
   refused, and so are attributes of actions where they are not allowed.
2. Once everything that is defined in all the fragments of a schema is known,
   `fully_qualify_type_references` resolves each reference to the full name that it
   stands for, or reports those that stand for nothing.
3. `conversion` turns the types of a schema into those of the validator. What a type
   denotes may depend on common types; such a type stays unresolved
   (`unresolved::WithUnresolvedCommonTypeRefs`) until these are known.

Contracts relate values by their *models* (`model::Model`): a name is its components
and the place it was written at, a type is a tree, a collection is a sequence in which
no key occurs twice (`keyed`); the types of declarations keep that as an invariant.
Each step has a spec function that says what comes of
it, errors included, and the executable functions are proved to compute just that.
The modules under `laws` prove what holds across the steps: that nothing is declared
twice, that resolved references are defined, that resolution succeeds exactly where
every reference stands for something, that what is reported is in fact undefined.

Strings are those of the `smol_str` crate, non-empty lists those of `nonempty`, and
`itertools` looks for a name among others. What is taken on trust of them stands in
`text`, `nonempty_list` and `extensions`; `sorting` trusts the standard library's sort.
