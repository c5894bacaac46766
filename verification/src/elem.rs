//! Element functions, and what an element can do.

use vstd::prelude::*;

verus! {

/// What tells one element function from another.
#[derive(Clone, Copy, Debug, PartialEq, Eq, Structural, Hash)]
pub enum ElemId {
    /// A sequence of content.
    Sequence,
    /// Content with styles attached to it.
    Styled,
    /// The host of metadata.
    Meta,
    /// Any other element.
    Native(u64),
}

/// What tells one capability from another.
#[derive(Clone, Copy, Debug, PartialEq, Eq, Structural, Hash)]
pub enum TypeId {
    /// The element can be located in the document.
    Locatable,
    /// The element synthesizes fields before it is shown.
    Synthesize,
    /// The element says how it behaves among its neighbours.
    Behave,
    /// Any other capability.
    Other(u64),
}

/// A handle to the methods with which an element implements a capability.
#[derive(Clone, Copy, Debug, PartialEq, Eq, Structural, Hash)]
pub struct Vtable(pub u64);

/// An element's constructor function.
///
/// Two element functions are the same if they have the same `id`.
#[derive(Clone, Copy, Debug, Hash)]
pub struct ElemFunc {
    /// The identity of the element.
    pub id: ElemId,
    /// The element's name.
    pub name: &'static str,
    /// The capabilities of the element.
    pub vtable: &'static [(TypeId, Vtable)],
}

/// What an [`ElemFunc`] stands for.
pub struct FuncView {
    /// The identity of the element.
    pub id: ElemId,
    /// The characters of its name.
    pub name: Seq<char>,
    /// Its capabilities.
    pub vtable: Seq<(TypeId, Vtable)>,
}

/// The first handle that a table holds for a capability.
pub open spec fn first_vtable(table: Seq<(TypeId, Vtable)>, type_id: TypeId) -> Option<Vtable>
    decreases table.len(),
{
    if table.len() == 0 {
        None
    } else if table[0].0 == type_id {
        Some(table[0].1)
    } else {
        first_vtable(table.drop_first(), type_id)
    }
}

impl FuncView {
    /// The handle to the methods of a capability, if the element has it.
    pub open spec fn vtable_of(self, type_id: TypeId) -> Option<Vtable> {
        first_vtable(self.vtable, type_id)
    }

    /// Whether the element has a capability.
    pub open spec fn can(self, type_id: TypeId) -> bool {
        self.vtable_of(type_id) is Some
    }
}

impl View for ElemFunc {
    type V = FuncView;

    open spec fn view(&self) -> FuncView {
        FuncView { id: self.id, name: self.name@, vtable: self.vtable@ }
    }
}

impl ElemFunc {
    /// The function of an element that is defined elsewhere.
    pub fn native(
        id: u64,
        name: &'static str,
        vtable: &'static [(TypeId, Vtable)],
    ) -> (r: Self)
        ensures
            r@ == (FuncView { id: ElemId::Native(id), name: name@, vtable: vtable@ }),
    {
        ElemFunc { id: ElemId::Native(id), name, vtable }
    }

    /// The element's name.
    pub fn name(&self) -> (r: &'static str)
        ensures
            r@ == self@.name,
    {
        self.name
    }

    /// The handle to the methods of a capability, if the element has it.
    pub fn vtable_of(&self, type_id: TypeId) -> (r: Option<Vtable>)
        ensures
            r == self@.vtable_of(type_id),
    {
        let table = self.vtable;
        let mut i: usize = 0;
        assert(table@.skip(0) =~= table@);
        while i < table.len()
            invariant
                table@ == self@.vtable,
                i <= table@.len(),
                first_vtable(table@, type_id) == first_vtable(table@.skip(i as int), type_id),
            decreases table@.len() - i,
        {
            if table[i].0 == type_id {
                return Some(table[i].1);
            }
            assert(table@.skip(i as int).drop_first() =~= table@.skip(i + 1));
            i += 1;
        }
        None
    }
}

impl PartialEq for ElemFunc {
    fn eq(&self, other: &Self) -> (r: bool) {
        self.id == other.id
    }
}

impl vstd::std_specs::cmp::PartialEqSpecImpl for ElemFunc {
    open spec fn obeys_eq_spec() -> bool {
        true
    }

    open spec fn eq_spec(&self, other: &Self) -> bool {
        self.id == other.id
    }
}

impl Eq for ElemFunc {

}

/// An element of the document.
pub trait Element {
    /// What the element's function stands for.
    spec fn func_view() -> FuncView;

    /// The element's function.
    fn func() -> (r: ElemFunc)
        ensures
            r@ == Self::func_view(),
    ;
}

/// A set of methods that elements can implement.
pub trait Capability {
    /// What tells this capability from others, as a specification.
    spec fn spec_id() -> TypeId;

    /// What tells this capability from others.
    fn id() -> (r: TypeId)
        ensures
            r == Self::spec_id(),
    ;
}

/// Elements that have a location in the document.
pub trait Locatable {

}

/// Elements that synthesize fields before they are shown.
pub trait Synthesize {

}

impl Capability for dyn Locatable {
    open spec fn spec_id() -> TypeId {
        TypeId::Locatable
    }

    fn id() -> (r: TypeId) {
        TypeId::Locatable
    }
}

impl Capability for dyn Synthesize {
    open spec fn spec_id() -> TypeId {
        TypeId::Synthesize
    }

    fn id() -> (r: TypeId) {
        TypeId::Synthesize
    }
}

/// How an element interacts with other elements in a stream.
#[derive(Clone, Copy, Debug, PartialEq, Eq, Structural, Hash)]
pub enum Behaviour {
    /// A weak element which only survives when a supportive element is before and after it; a
    /// lower number is stronger.
    Weak(usize),
    /// An element that enables adjacent weak elements to exist.
    Supportive,
    /// An element that destroys adjacent weak elements.
    Destructive,
    /// An element that does not interact at all with other elements.
    Ignorant,
    /// An element that does not have a visual representation.
    Invisible,
}

/// Elements that say how they interact with other elements.
pub trait Behave {
    /// The element's behaviour, as a specification.
    spec fn spec_behaviour(&self) -> Behaviour;

    /// The element's interaction behaviour.
    fn behaviour(&self) -> (r: Behaviour)
        ensures
            r == self.spec_behaviour(),
    ;
}

impl Capability for dyn Behave {
    open spec fn spec_id() -> TypeId {
        TypeId::Behave
    }

    fn id() -> (r: TypeId) {
        TypeId::Behave
    }
}

/// A sequence of content.
pub struct SequenceElem {}

impl Element for SequenceElem {
    open spec fn func_view() -> FuncView {
        FuncView { id: ElemId::Sequence, name: "sequence"@, vtable: Seq::empty() }
    }

    fn func() -> (r: ElemFunc) {
        let r = ElemFunc { id: ElemId::Sequence, name: "sequence", vtable: &[] };
        assert(r@.vtable =~= Seq::empty());
        r
    }
}

/// Content with styles attached to it.
pub struct StyledElem {}

impl Element for StyledElem {
    open spec fn func_view() -> FuncView {
        FuncView { id: ElemId::Styled, name: "styled"@, vtable: Seq::empty() }
    }

    fn func() -> (r: ElemFunc) {
        let r = ElemFunc { id: ElemId::Styled, name: "styled", vtable: &[] };
        assert(r@.vtable =~= Seq::empty());
        r
    }
}

} // verus!
