//! The extension types that are available.

use crate::keyed::{has_key, Keyed};
use crate::model::Model;
use crate::names::{simple_name, Id, Name, NameModel, UnreservedId};
use crate::text::smol;
use itertools::Itertools;
use vstd::prelude::*;

verus! {

broadcast use crate::model::group_models;

/// The extension types that are available, each by its name.
#[derive(Debug)]
pub struct Extensions {
    pub types: Vec<Name>,
}

impl Model for Extensions {
    type M = Seq<NameModel>;

    open spec fn model(&self) -> Seq<NameModel> {
        self.types.model()
    }
}

/// `Itertools::contains` on the iterator of a vector of names: whether one of them
/// is equal to the given one, as `==` on names says.
#[verifier::external_body]
fn contains_name(names: &Vec<Name>, name: &Name) -> (r: bool)
    ensures
        r == has_key::<Name>(names.model(), Name::key(name.model())),
{
    names.iter().contains(name)
}

/// The name of an extension type.
fn extension_name(text: &str) -> (r: Name)
    requires
        text@ != "__cedar"@,
    ensures
        r.model() == simple_name(text@, None),
{
    Name::unqualified_name(UnreservedId::new(Id::new(smol(text))).unwrap())
}

impl Extensions {
    /// No extensions.
    pub fn none() -> (r: Self)
        ensures
            r.model() == Seq::<NameModel>::empty(),
    {
        Extensions { types: Vec::new() }
    }

    /// All the extensions that there are.
    pub fn all_available() -> (r: Self)
        ensures
            r.model() == seq![
                simple_name("ipaddr"@, None),
                simple_name("decimal"@, None),
                simple_name("datetime"@, None),
                simple_name("duration"@, None),
            ],
    {
        proof {
            reveal_strlit("__cedar");
            reveal_strlit("ipaddr");
            reveal_strlit("decimal");
            reveal_strlit("datetime");
            reveal_strlit("duration");
            assert("decimal"@[0] != "__cedar"@[0]);
            assert("ipaddr"@.len() == 6);
            assert("datetime"@.len() == 8);
            assert("duration"@.len() == 8);
            assert("__cedar"@.len() == 7);
        }
        let mut types: Vec<Name> = Vec::new();
        types.push(extension_name("ipaddr"));
        types.push(extension_name("decimal"));
        types.push(extension_name("datetime"));
        types.push(extension_name("duration"));
        let r = Extensions { types };
        assert(r.model() =~= seq![
            simple_name("ipaddr"@, None),
            simple_name("decimal"@, None),
            simple_name("datetime"@, None),
            simple_name("duration"@, None),
        ]);
        r
    }

    /// Whether there is an extension type of that name.
    pub fn has_type(&self, name: &Name) -> (r: bool)
        ensures
            r == has_key::<Name>(self.model(), name.model().components()),
    {
        contains_name(&self.types, name)
    }

    /// The names of the extension types, as they are written.
    pub fn type_names(&self) -> (r: Vec<String>)
        ensures
            r.model() == texts_of(self.model()),
    {
        let mut out: Vec<String> = Vec::new();
        let mut i: usize = 0;
        while i < self.types.len()
            invariant
                i <= self.types@.len(),
                out@.len() == i,
                forall|j: int|
                    #![trigger out@[j]]
                    0 <= j < i ==> out@[j].model() == texts_of(self.model())[j],
            decreases self.types@.len() - i,
        {
            out.push(self.types[i].to_string());
            i = i + 1;
        }
        assert(out.model() =~= texts_of(self.model()));
        out
    }
}

/// The names as they are written.
pub open spec fn texts_of(names: Seq<NameModel>) -> Seq<Seq<char>> {
    Seq::new(names.len(), |i: int| names[i].text())
}

} // verus!
