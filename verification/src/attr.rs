//! The attributes of content, kept in an economical vector of the `ecow` crate.

use crate::content::Content;
use crate::eco::{eco_chars, eco_clone};
use crate::elem::ElemFunc;
use crate::model::{AttrView, GuardView};
use crate::place::{Location, Span};
use crate::style::Styles;
use crate::value::Value;
use ecow::{EcoString, EcoVec};
use vstd::prelude::*;

verus! {

/// Guards content against being affected by the same show rule multiple times.
#[derive(Clone, Copy, Hash)]
pub enum Guard {
    /// The recipe with this number, from the top of the chain.
    Nth(usize),
    /// The base recipe for a kind of element.
    Base(ElemFunc),
}

impl View for Guard {
    type V = GuardView;

    open spec fn view(&self) -> GuardView {
        match self {
            Guard::Nth(n) => GuardView::Nth(*n as int),
            Guard::Base(func) => GuardView::Base(func.id),
        }
    }
}

impl PartialEq for Guard {
    fn eq(&self, other: &Self) -> (r: bool) {
        match (self, other) {
            (Guard::Nth(a), Guard::Nth(b)) => *a == *b,
            (Guard::Base(a), Guard::Base(b)) => a.id == b.id,
            _ => false,
        }
    }
}

impl vstd::std_specs::cmp::PartialEqSpecImpl for Guard {
    open spec fn obeys_eq_spec() -> bool {
        true
    }

    open spec fn eq_spec(&self, other: &Self) -> bool {
        self@ == other@
    }
}

impl Eq for Guard {

}

/// An attribute that is attached to content.
#[derive(Hash)]
pub enum Attr {
    /// Where the content comes from.
    Span(Span),
    /// The name of a field; its value comes next.
    Field(EcoString),
    /// The value of the field before it.
    Value(Value),
    /// A child of a sequence or of a styled element.
    Child(Content),
    /// The styles of a styled element.
    Styles(Styles),
    /// The content is prepared.
    Prepared,
    /// A show rule is disabled.
    Guard(Guard),
    /// Where the content stands in the document.
    Location(Location),
}

impl View for Attr {
    type V = AttrView;

    open spec fn view(&self) -> AttrView {
        match self {
            Attr::Span(span) => AttrView::Span(*span),
            Attr::Field(name) => AttrView::Field(eco_chars(*name)),
            Attr::Value(value) => AttrView::Value(value@),
            Attr::Child(child) => AttrView::Child(child@),
            Attr::Styles(styles) => AttrView::Styles(styles@),
            Attr::Prepared => AttrView::Prepared,
            Attr::Guard(guard) => AttrView::Guard(guard@),
            Attr::Location(location) => AttrView::Location(*location),
        }
    }
}

impl Clone for Attr {
    fn clone(&self) -> (r: Self)
        ensures
            r@ == self@,
    {
        match self {
            Attr::Span(span) => Attr::Span(*span),
            Attr::Field(name) => Attr::Field(eco_clone(name)),
            Attr::Value(value) => Attr::Value(value.clone()),
            Attr::Child(child) => Attr::Child(child.clone()),
            Attr::Styles(styles) => Attr::Styles(styles.clone()),
            Attr::Prepared => Attr::Prepared,
            Attr::Guard(guard) => Attr::Guard(*guard),
            Attr::Location(location) => Attr::Location(*location),
        }
    }
}

impl Attr {
    /// The child, if this is one.
    pub fn child(&self) -> (r: Option<&Content>)
        ensures
            r is Some <==> self@.child() is Some,
            r matches Some(child) ==> self@.child() == Some(child@),
    {
        match self {
            Attr::Child(child) => Some(child),
            _ => None,
        }
    }

    /// The styles, if these are some.
    pub fn styles(&self) -> (r: Option<&Styles>)
        ensures
            r is Some <==> self@.styles() is Some,
            r matches Some(styles) ==> self@.styles() == Some(styles@),
    {
        match self {
            Attr::Styles(styles) => Some(styles),
            _ => None,
        }
    }

    /// The field name, if this is one.
    pub fn field(&self) -> (r: Option<&EcoString>)
        ensures
            r is Some <==> self@.field() is Some,
            r matches Some(name) ==> self@.field() == Some(eco_chars(*name)),
    {
        match self {
            Attr::Field(name) => Some(name),
            _ => None,
        }
    }

    /// The value, if this is one.
    pub fn value(&self) -> (r: Option<&Value>)
        ensures
            r is Some <==> self@.value() is Some,
            r matches Some(value) ==> self@.value() == Some(value@),
    {
        match self {
            Attr::Value(value) => Some(value),
            _ => None,
        }
    }

    /// The span, if this is one.
    pub fn span(&self) -> (r: Option<Span>)
        ensures
            r == self@.span(),
    {
        match self {
            Attr::Span(span) => Some(*span),
            _ => None,
        }
    }

    /// The styles, if these are some, to be changed in place.
    pub fn styles_mut(&mut self) -> (r: Option<&mut Styles>)
        ensures
            r is Some <==> old(self)@.styles() is Some,
            r matches Some(styles) ==> old(self)@ == AttrView::Styles((*styles)@) && final(self)@
                == AttrView::Styles((*final(styles))@),
            r is None ==> *final(self) == *old(self),
    {
        match self {
            Attr::Styles(styles) => Some(styles),
            _ => None,
        }
    }
}

/// What attributes in a row stand for.
pub open spec fn attr_views(attrs: Seq<Attr>) -> Seq<AttrView> {
    attrs.map_values(|attr: Attr| attr@)
}

/// A list of attributes that is cheap to clone: an `ecow::EcoVec`.
///
/// Clones share their items until one of them is changed. The items are cloned then, and the
/// clone of an attribute stands for what the attribute stands for.
#[verifier::external_body]
#[derive(Hash)]
pub struct Attrs {
    items: EcoVec<Attr>,
}

/// What the attributes that an `Attrs` holds stand for, in order. Items never hold the list that
/// they are in, so that this is a finite tree.
pub uninterp spec fn attrs_contents(attrs: Attrs) -> Seq<AttrView>;

impl View for Attrs {
    type V = Seq<AttrView>;

    open spec fn view(&self) -> Seq<AttrView> {
        attrs_contents(*self)
    }
}

impl Attrs {
    /// Calls `EcoVec::new`.
    /// Trusted: the list is empty.
    #[verifier::external_body]
    pub(crate) fn new() -> (r: Self)
        ensures
            attrs_contents(r) == Seq::<AttrView>::empty(),
    {
        Attrs { items: EcoVec::new() }
    }

    /// Calls `EcoVec::push`.
    /// Trusted: the attribute comes after those that were there.
    #[verifier::external_body]
    pub(crate) fn push(&mut self, attr: Attr)
        ensures
            attrs_contents(*final(self)) == attrs_contents(*old(self)).push(attr@),
    {
        self.items.push(attr)
    }

    /// Calls `EcoVec::as_slice`.
    /// Trusted: the slice holds what the list holds.
    #[verifier::external_body]
    pub(crate) fn as_slice(&self) -> (r: &[Attr])
        ensures
            attr_views(r@) == attrs_contents(*self),
    {
        self.items.as_slice()
    }

    /// Calls `EcoVec::make_mut`.
    /// Trusted: the slice holds what the list holds, and what is left in it is what the list
    /// holds afterwards.
    #[verifier::external_body]
    pub(crate) fn make_mut(&mut self) -> (r: &mut [Attr])
        ensures
            attr_views((*r)@) == attrs_contents(*old(self)),
            attrs_contents(*final(self)) == attr_views((*final(r))@),
    {
        self.items.make_mut()
    }

    /// Calls `EcoVec::insert`.
    /// Trusted: the attribute comes before those that stood at the index and after it.
    #[verifier::external_body]
    pub(crate) fn insert(&mut self, index: usize, attr: Attr)
        requires
            index <= attrs_contents(*old(self)).len(),
        ensures
            attrs_contents(*final(self)) == attrs_contents(*old(self)).insert(
                index as int,
                attr@,
            ),
    {
        self.items.insert(index, attr)
    }

    /// Calls `EcoVec::extend` with the items of another list.
    /// Trusted: what the other list held comes after what was there.
    #[verifier::external_body]
    pub(crate) fn extend(&mut self, other: Attrs)
        ensures
            attrs_contents(*final(self)) == attrs_contents(*old(self)) + attrs_contents(other),
    {
        self.items.extend(other.items)
    }
}

impl Clone for Attrs {
    /// Calls `EcoVec::clone`.
    /// Trusted: the clone holds what the list holds.
    #[verifier::external_body]
    fn clone(&self) -> (r: Self)
        ensures
            attrs_contents(r) == attrs_contents(*self),
    {
        Attrs { items: self.items.clone() }
    }
}

} // verus!
