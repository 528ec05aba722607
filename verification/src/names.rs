//! Identifiers, qualified names, entity types and entity identifiers.

use crate::keyed::Keyed;
use crate::model::{Duplicate, Model};
use crate::text::{chars_of, smol_clone, smol_is, smol_same};
use smol_str::SmolStr;
use vstd::prelude::*;
use vstd::string::*;

verus! {

broadcast use crate::model::group_models;

/// A place in a source text.
#[derive(Debug, PartialEq, Eq)]
pub struct Loc {
    /// Where the place starts.
    pub start: usize,
    /// Where it ends.
    pub end: usize,
    /// The text that it is in.
    pub src: SmolStr,
}

/// A place in a source text, where one is known.
pub type MaybeLoc = Option<Box<Loc>>;

pub struct LocModel {
    pub start: usize,
    pub end: usize,
    pub src: Seq<char>,
}

impl Model for Loc {
    type M = LocModel;

    open spec fn model(&self) -> LocModel {
        LocModel { start: self.start, end: self.end, src: chars_of(self.src) }
    }
}

impl Clone for Loc {
    fn clone(&self) -> (r: Self)
        ensures
            r.model() == self.model(),
    {
        Loc { start: self.start, end: self.end, src: smol_clone(&self.src) }
    }
}

/// A copy of a place.
pub fn clone_loc(loc: &MaybeLoc) -> (r: MaybeLoc)
    ensures
        r.model() == loc.model(),
{
    match loc {
        Some(place) => Some(Box::new((**place).clone())),
        None => None,
    }
}

/// The place itself, where one is known.
pub fn as_loc_ref(loc: &MaybeLoc) -> (r: Option<&Loc>)
    ensures
        (match r {
            Some(place) => Some(place.model()),
            None => None,
        }) == loc.model(),
{
    match loc {
        Some(place) => Some(&**place),
        None => None,
    }
}

/// A copy of a place that is only referred to.
pub fn into_maybe_loc(loc: Option<&Loc>) -> (r: MaybeLoc)
    ensures
        r.model() == (match loc {
            Some(place) => Some(place.model()),
            None => None,
        }),
{
    match loc {
        Some(place) => Some(Box::new(place.clone())),
        None => None,
    }
}

/// An identifier.
#[derive(Debug, PartialEq, Eq)]
pub struct Id {
    pub text: SmolStr,
}

impl Model for Id {
    type M = Seq<char>;

    open spec fn model(&self) -> Seq<char> {
        chars_of(self.text)
    }
}

impl Clone for Id {
    fn clone(&self) -> (r: Self)
        ensures
            r.model() == self.model(),
    {
        Id { text: smol_clone(&self.text) }
    }
}

/// The identifier that schemas may not declare.
pub open spec fn reserved_id() -> Seq<char> {
    "__cedar"@
}

impl Id {
    pub fn new(text: SmolStr) -> (r: Self)
        ensures
            r.model() == text.model(),
    {
        Id { text }
    }

    /// Whether this is the reserved identifier.
    pub fn is_reserved(&self) -> (r: bool)
        ensures
            r == (self.model() == reserved_id()),
    {
        smol_is(&self.text, "__cedar")
    }
}

/// A name that is refused because the reserved identifier occurs in it.
#[derive(Debug, PartialEq, Eq)]
pub struct ReservedNameError(pub InternalName);

impl Model for ReservedNameError {
    type M = NameModel;

    open spec fn model(&self) -> NameModel {
        self.0.model()
    }
}

/// An identifier other than the reserved one.
#[derive(Debug, PartialEq, Eq)]
pub struct UnreservedId {
    id: Id,
}

impl Model for UnreservedId {
    type M = Seq<char>;

    closed spec fn model(&self) -> Seq<char> {
        self.id.model()
    }
}

impl Clone for UnreservedId {
    fn clone(&self) -> (r: Self)
        ensures
            r.model() == self.model(),
    {
        proof {
            use_type_invariant(self);
        }
        UnreservedId { id: self.id.clone() }
    }
}

impl UnreservedId {
    #[verifier::type_invariant]
    spec fn is_unreserved(self) -> bool {
        self.id.model() != reserved_id()
    }

    /// Takes an identifier that is not the reserved one.
    pub fn new(id: Id) -> (r: Result<Self, ReservedNameError>)
        ensures
            r is Ok <==> id.model() != reserved_id(),
            r matches Ok(u) ==> u.model() == id.model(),
            r matches Err(e) ==> e.model() == simple_name(id.model(), None),
    {
        if id.is_reserved() {
            Err(ReservedNameError(InternalName::unqualified_name(id, None)))
        } else {
            Ok(UnreservedId { id })
        }
    }

    /// The identifier.
    pub fn into_id(self) -> (r: Id)
        ensures
            r.model() == self.model(),
            r.model() != reserved_id(),
    {
        proof {
            use_type_invariant(&self);
        }
        self.id
    }

    /// The text of the identifier.
    pub fn as_str(&self) -> (r: &str)
        ensures
            r@ == self.model(),
    {
        self.id.text.as_str()
    }
}

/// The name of a common type where it is declared.
#[derive(Debug, PartialEq, Eq)]
pub struct CommonTypeId {
    pub id: UnreservedId,
}

impl Model for CommonTypeId {
    type M = Seq<char>;

    open spec fn model(&self) -> Seq<char> {
        self.id.model()
    }
}

impl CommonTypeId {
    pub fn unchecked(id: UnreservedId) -> (r: Self)
        ensures
            r.model() == id.model(),
    {
        CommonTypeId { id }
    }

    /// The identifier.
    pub fn into_unreserved(self) -> (r: UnreservedId)
        ensures
            r.model() == self.model(),
    {
        self.id
    }
}

/// A name, qualified by the namespaces in front of it or not.
#[derive(Debug, Eq)]
pub struct InternalName {
    /// The last component.
    pub id: Id,
    /// The components in front of it, outermost first.
    pub path: Vec<Id>,
    /// Where the name was written.
    pub loc: MaybeLoc,
}

#[verifier::ext_equal]
pub struct NameModel {
    pub path: Seq<Seq<char>>,
    pub id: Seq<char>,
    pub loc: Option<LocModel>,
}

impl NameModel {
    /// All the components of the name, outermost first.
    pub open spec fn components(self) -> Seq<Seq<char>> {
        self.path.push(self.id)
    }

    /// Whether the reserved identifier occurs in the name.
    pub open spec fn is_reserved(self) -> bool {
        self.components().contains(reserved_id())
    }

    /// The name as it is written.
    pub open spec fn text(self) -> Seq<char> {
        path_text(self.path) + self.id
    }
}

/// The components of a path, each with the separator behind it.
pub open spec fn path_text(path: Seq<Seq<char>>) -> Seq<char>
    decreases path.len(),
{
    if path.len() == 0 {
        Seq::empty()
    } else {
        path_text(path.drop_last()) + path.last() + "::"@
    }
}

/// A name without a namespace.
pub open spec fn simple_name(id: Seq<char>, loc: Option<LocModel>) -> NameModel {
    NameModel { path: Seq::empty(), id, loc }
}

/// The name that `name` means inside the namespace `namespace`, if it has to be
/// there: a name without a namespace is put into it, any other stays.
pub open spec fn qualified(name: NameModel, namespace: Option<NameModel>) -> NameModel {
    match namespace {
        Some(ns) if name.path.len() == 0 => NameModel { path: ns.components(), ..name },
        _ => name,
    }
}

/// The model of a namespace that is only referred to.
pub open spec fn namespace_model(namespace: Option<&InternalName>) -> Option<NameModel> {
    match namespace {
        Some(ns) => Some(ns.model()),
        None => None,
    }
}

impl Model for InternalName {
    type M = NameModel;

    open spec fn model(&self) -> NameModel {
        NameModel { path: self.path.model(), id: self.id.model(), loc: self.loc.model() }
    }
}

/// A copy of a list of identifiers.
fn clone_ids(ids: &Vec<Id>) -> (r: Vec<Id>)
    ensures
        r.model() == ids.model(),
{
    let mut out: Vec<Id> = Vec::new();
    let mut i: usize = 0;
    while i < ids.len()
        invariant
            i <= ids@.len(),
            out@.len() == i,
            forall|j: int| 0 <= j < i ==> (#[trigger] out@[j]).model() == ids@[j].model(),
        decreases ids@.len() - i,
    {
        out.push(ids[i].clone());
        i = i + 1;
    }
    assert(out.model() =~= ids.model());
    out
}

impl Clone for InternalName {
    fn clone(&self) -> (r: Self)
        ensures
            r.model() == self.model(),
    {
        InternalName {
            id: self.id.clone(),
            path: clone_ids(&self.path),
            loc: clone_loc(&self.loc),
        }
    }
}

impl Duplicate for InternalName {
    fn duplicate(&self) -> (r: Self) {
        self.clone()
    }
}

impl Keyed for InternalName {
    type K = Seq<Seq<char>>;

    open spec fn key(m: NameModel) -> Seq<Seq<char>> {
        m.components()
    }

    fn same(&self, other: &Self) -> (r: bool) {
        let ghost a = self.model();
        let ghost b = other.model();
        proof {
            assert(Self::key(a) == a.components());
            assert(Self::key(b) == b.components());
            if a.components() == b.components() {
                assert(a.components().len() == b.components().len());
                assert(a.components().last() == b.components().last());
                assert(a.components().drop_last() =~= a.path);
                assert(b.components().drop_last() =~= b.path);
            }
        }
        if self.path.len() != other.path.len() || !smol_same(&self.id.text, &other.id.text) {
            return false;
        }
        let mut i: usize = 0;
        while i < self.path.len()
            invariant
                i <= self.path@.len(),
                self.path@.len() == other.path@.len(),
                a == self.model(),
                b == other.model(),
                a.components() == b.components() ==> a.path == b.path,
                forall|j: int| 0 <= j < i ==> #[trigger] a.path[j] == b.path[j],
            decreases self.path@.len() - i,
        {
            if !smol_same(&self.path[i].text, &other.path[i].text) {
                assert(a.path[i as int] != b.path[i as int]);
                return false;
            }
            i = i + 1;
        }
        assert(a.path =~= b.path);
        true
    }
}

impl PartialEq for InternalName {
    /// Names are equal where their components are, wherever they were written.
    fn eq(&self, other: &Self) -> (r: bool) {
        self.same(other)
    }
}

impl vstd::std_specs::cmp::PartialEqSpecImpl for InternalName {
    open spec fn obeys_eq_spec() -> bool {
        true
    }

    open spec fn eq_spec(&self, other: &Self) -> bool {
        self.model().components() == other.model().components()
    }
}

impl InternalName {
    pub fn new(id: Id, path: Vec<Id>, loc: MaybeLoc) -> (r: Self)
        ensures
            r.model() == (NameModel { path: path.model(), id: id.model(), loc: loc.model() }),
    {
        InternalName { id, path, loc }
    }

    /// A name without a namespace.
    pub fn unqualified_name(id: Id, loc: MaybeLoc) -> (r: Self)
        ensures
            r.model() == simple_name(id.model(), loc.model()),
    {
        InternalName { id, path: Vec::new(), loc }
    }

    /// Whether the name has no namespace.
    pub fn is_unqualified(&self) -> (r: bool)
        ensures
            r == (self.model().path.len() == 0),
    {
        self.path.len() == 0
    }

    /// Whether the reserved identifier occurs in the name.
    pub fn is_reserved(&self) -> (r: bool)
        ensures
            r == self.model().is_reserved(),
    {
        let ghost all = self.model().components();
        let mut i: usize = 0;
        while i < self.path.len()
            invariant
                i <= self.path@.len(),
                all == self.model().components(),
                forall|j: int| 0 <= j < i ==> #[trigger] all[j] != reserved_id(),
            decreases self.path@.len() - i,
        {
            if self.path[i].is_reserved() {
                assert(all[i as int] == reserved_id());
                return true;
            }
            i = i + 1;
        }
        assert(all[i as int] == self.id.model());
        self.id.is_reserved()
    }

    /// The name that this one means inside the given namespace, if it has to be
    /// there.
    pub fn qualify_with(self, namespace: Option<&InternalName>) -> (r: InternalName)
        ensures
            r.model() == qualified(self.model(), namespace_model(namespace)),
    {
        match namespace {
            Some(ns) => {
                if self.is_unqualified() {
                    let mut path = clone_ids(&ns.path);
                    path.push(ns.id.clone());
                    InternalName { id: self.id, path, loc: self.loc }
                } else {
                    self
                }
            },
            None => self,
        }
    }

    /// The name as it is written: its components with `::` between them.
    pub fn to_string(&self) -> (r: String)
        ensures
            r@ == self.model().text(),
    {
        let mut text = String::new();
        let mut i: usize = 0;
        while i < self.path.len()
            invariant
                i <= self.path@.len(),
                text@ == path_text(self.path.model().take(i as int)),
            decreases self.path@.len() - i,
        {
            proof {
                assert(self.path.model().take(i + 1).drop_last() =~= self.path.model().take(
                    i as int,
                ));
            }
            text.append(self.path[i].text.as_str());
            text.append("::");
            i = i + 1;
        }
        proof {
            assert(self.path.model().take(i as int) =~= self.path.model());
        }
        text.append(self.id.text.as_str());
        text
    }
}

/// A name in which the reserved identifier does not occur.
#[derive(Debug, Eq)]
pub struct Name {
    name: InternalName,
}

impl Model for Name {
    type M = NameModel;

    closed spec fn model(&self) -> NameModel {
        self.name.model()
    }
}

impl Clone for Name {
    fn clone(&self) -> (r: Self)
        ensures
            r.model() == self.model(),
    {
        proof {
            use_type_invariant(self);
        }
        Name { name: self.name.clone() }
    }
}

impl Duplicate for Name {
    fn duplicate(&self) -> (r: Self) {
        self.clone()
    }
}

impl Keyed for Name {
    type K = Seq<Seq<char>>;

    open spec fn key(m: NameModel) -> Seq<Seq<char>> {
        m.components()
    }

    fn same(&self, other: &Self) -> (r: bool) {
        self.name.same(&other.name)
    }
}

impl PartialEq for Name {
    /// Names are equal where their components are, wherever they were written.
    fn eq(&self, other: &Self) -> (r: bool) {
        self.same(other)
    }
}

impl vstd::std_specs::cmp::PartialEqSpecImpl for Name {
    open spec fn obeys_eq_spec() -> bool {
        true
    }

    open spec fn eq_spec(&self, other: &Self) -> bool {
        self.model().components() == other.model().components()
    }
}

impl Name {
    #[verifier::type_invariant]
    spec fn is_unreserved(self) -> bool {
        !self.name.model().is_reserved()
    }

    /// Takes a name in which the reserved identifier does not occur.
    pub fn try_from_internal(name: InternalName) -> (r: Result<Name, ReservedNameError>)
        ensures
            r is Ok <==> !name.model().is_reserved(),
            r matches Ok(n) ==> n.model() == name.model(),
            r matches Err(e) ==> e.model() == name.model(),
    {
        if name.is_reserved() {
            Err(ReservedNameError(name))
        } else {
            Ok(Name { name })
        }
    }

    /// A name without a namespace.
    pub fn unqualified_name(id: UnreservedId) -> (r: Name)
        ensures
            r.model() == simple_name(id.model(), None),
    {
        let name = InternalName::unqualified_name(id.into_id(), None);
        proof {
            let all = name.model().components();
            assert(all.len() == 1);
            assert(!all.contains(reserved_id()));
        }
        Name { name }
    }

    /// The name itself.
    pub fn as_internal(&self) -> (r: &InternalName)
        ensures
            r.model() == self.model(),
            !r.model().is_reserved(),
    {
        proof {
            use_type_invariant(self);
        }
        &self.name
    }

    /// The name as it is written.
    pub fn to_string(&self) -> (r: String)
        ensures
            r@ == self.model().text(),
    {
        self.name.to_string()
    }
}

/// The name of an entity type.
#[derive(Debug, PartialEq, Eq)]
pub struct EntityType(pub Name);

impl Model for EntityType {
    type M = NameModel;

    open spec fn model(&self) -> NameModel {
        self.0.model()
    }
}

impl Clone for EntityType {
    fn clone(&self) -> (r: Self)
        ensures
            r.model() == self.model(),
    {
        EntityType(self.0.clone())
    }
}

impl Duplicate for EntityType {
    fn duplicate(&self) -> (r: Self) {
        self.clone()
    }
}

impl Keyed for EntityType {
    type K = Seq<Seq<char>>;

    open spec fn key(m: NameModel) -> Seq<Seq<char>> {
        m.components()
    }

    fn same(&self, other: &Self) -> (r: bool) {
        self.0.same(&other.0)
    }
}

/// The entity type of a name, if the reserved identifier does not occur in it.
pub open spec fn entity_type_of(name: NameModel) -> Result<NameModel, NameModel> {
    if name.is_reserved() {
        Err(name)
    } else {
        Ok(name)
    }
}

/// The entity type of the given name. Fails where the reserved identifier occurs
/// in it.
pub fn internal_name_to_entity_type(name: InternalName) -> (r: Result<EntityType, ReservedNameError>)
    ensures
        r.model() == entity_type_of(name.model()),
{
    match Name::try_from_internal(name) {
        Ok(n) => Ok(EntityType(n)),
        Err(e) => Err(e),
    }
}

/// An entity: its type and its identifier among the entities of that type.
#[derive(Debug, PartialEq, Eq)]
pub struct EntityUID {
    pub ty: EntityType,
    pub eid: SmolStr,
}

pub struct UidModel {
    pub ty: NameModel,
    pub eid: Seq<char>,
}

impl Model for EntityUID {
    type M = UidModel;

    open spec fn model(&self) -> UidModel {
        UidModel { ty: self.ty.model(), eid: chars_of(self.eid) }
    }
}

impl Clone for EntityUID {
    fn clone(&self) -> (r: Self)
        ensures
            r.model() == self.model(),
    {
        EntityUID { ty: self.ty.clone(), eid: smol_clone(&self.eid) }
    }
}

impl Duplicate for EntityUID {
    fn duplicate(&self) -> (r: Self) {
        self.clone()
    }
}

impl Keyed for EntityUID {
    type K = (Seq<Seq<char>>, Seq<char>);

    open spec fn key(m: UidModel) -> (Seq<Seq<char>>, Seq<char>) {
        (m.ty.components(), m.eid)
    }

    fn same(&self, other: &Self) -> (r: bool) {
        self.ty.same(&other.ty) && smol_same(&self.eid, &other.eid)
    }
}

} // verus!
