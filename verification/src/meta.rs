//! Metadata.

use crate::content::Content;
use crate::elem::{Behave, Behaviour, ElemFunc, ElemId, Element, FuncView, TypeId, Vtable};
use crate::value::Value;
use ecow::EcoString;
use vstd::prelude::*;

verus! {

/// Metadata that can be attached to elements.
pub enum Meta {
    /// Indicates that what it is attached to is hidden.
    Hide,
    /// A link to a destination.
    Link(EcoString),
    /// An identifiable element that produces something within the area this metadata is attached
    /// to.
    Elem(Content),
    /// The numbering of the current page.
    PageNumbering(Value),
}

/// The methods by which [`MetaElem`] behaves.
pub const META_BEHAVE: u64 = 0;

/// Hosts metadata and ensures metadata is produced even for empty elements.
pub struct MetaElem {
    /// Metadata that should be attached to all elements affected by this style
    /// property.
    pub data: Vec<Meta>,
}

impl Element for MetaElem {
    open spec fn func_view() -> FuncView {
        FuncView {
            id: ElemId::Meta,
            name: "meta"@,
            vtable: seq![(TypeId::Behave, Vtable(META_BEHAVE))],
        }
    }

    fn func() -> (r: ElemFunc) {
        let r = ElemFunc {
            id: ElemId::Meta,
            name: "meta",
            vtable: &[(TypeId::Behave, Vtable(META_BEHAVE))],
        };
        assert(r@.vtable =~= seq![(TypeId::Behave, Vtable(META_BEHAVE))]);
        r
    }
}

impl Behave for MetaElem {
    open spec fn spec_behaviour(&self) -> Behaviour {
        Behaviour::Ignorant
    }

    fn behaviour(&self) -> (r: Behaviour) {
        Behaviour::Ignorant
    }
}

/// A property that is folded to determine its final value.
pub trait Fold: Sized {
    /// The type of the folded output.
    type Output;

    /// What folding gives, as a specification.
    spec fn folded(self, outer: Self::Output, r: Self::Output) -> bool;

    /// Folds this inner value with an outer folded value.
    fn fold(self, outer: Self::Output) -> (r: Self::Output)
        ensures
            self.folded(outer, r),
    ;
}

impl Fold for Vec<Meta> {
    type Output = Self;

    open spec fn folded(self, outer: Self, r: Self) -> bool {
        r@ == self@ + outer@
    }

    fn fold(self, outer: Self) -> (r: Self) {
        let mut inner = self;
        let mut outer = outer;
        inner.append(&mut outer);
        inner
    }
}

} // verus!
