//! Selectors, which pick elements.

use crate::content::Content;
use crate::eco::{eco_chars, eco_clone, eco_eq, eco_str};
use crate::elem::{ElemFunc, TypeId};
use crate::equality::value_eq;
use crate::model::{ContentView, SelectorView, ValueView};
use crate::place::Location;
use crate::value::{Label, Value};
use ecow::EcoString;
use vstd::prelude::*;

verus! {

/// A selector for elements.
#[derive(Hash)]
pub enum Selector {
    /// Selects elements with this function, and with these values in their fields.
    Elem(ElemFunc, Vec<(EcoString, Value)>),
    /// Selects elements with this label.
    Label(Label),
    /// Selects elements with this capability.
    Can(TypeId),
    /// Selects the element at this location.
    Location(Location),
    /// Selects what at least one of these selects.
    Or(Vec<Selector>),
    /// Selects what all of these select.
    And(Vec<Selector>),
}

/// What names with values in a row stand for.
pub open spec fn pair_views(pairs: Seq<(EcoString, Value)>) -> Seq<(Seq<char>, ValueView)> {
    pairs.map_values(|pair: (EcoString, Value)| (eco_chars(pair.0), pair.1@))
}

impl Selector {
    /// What the selector stands for.
    pub open spec fn model(self) -> SelectorView
        decreases self,
    {
        match self {
            Selector::Elem(func, fields) => SelectorView::Elem(func@, pair_views(fields@)),
            Selector::Label(label) => SelectorView::Label(label@),
            Selector::Can(type_id) => SelectorView::Can(type_id),
            Selector::Location(location) => SelectorView::Location(location),
            Selector::Or(selectors) => SelectorView::Or(
                Seq::new(
                    selectors@.len(),
                    |i: int|
                        if 0 <= i < selectors@.len() {
                            selectors@[i].model()
                        } else {
                            SelectorView::Or(seq![])
                        },
                ),
            ),
            Selector::And(selectors) => SelectorView::And(
                Seq::new(
                    selectors@.len(),
                    |i: int|
                        if 0 <= i < selectors@.len() {
                            selectors@[i].model()
                        } else {
                            SelectorView::Or(seq![])
                        },
                ),
            ),
        }
    }
}

impl View for Selector {
    type V = SelectorView;

    open spec fn view(&self) -> SelectorView {
        self.model()
    }
}

/// What selectors in a row stand for.
pub open spec fn selector_views(selectors: Seq<Selector>) -> Seq<SelectorView> {
    selectors.map_values(|selector: Selector| selector@)
}

/// A combination of selectors stands for the combination of what they stand for.
pub(crate) proof fn lemma_selectors_view(selectors: Vec<Selector>)
    ensures
        Selector::Or(selectors)@ == SelectorView::Or(selector_views(selectors@)),
        Selector::And(selectors)@ == SelectorView::And(selector_views(selectors@)),
{
    assert(Selector::Or(selectors)@->Or_0 =~= selector_views(selectors@));
    assert(Selector::And(selectors)@->And_0 =~= selector_views(selectors@));
}

/// Clones selectors in a row.
fn clone_selectors(selectors: &Vec<Selector>) -> (r: Vec<Selector>)
    ensures
        selector_views(r@) == selector_views(selectors@),
    decreases selectors,
{
    let mut copy: Vec<Selector> = Vec::new();
    let mut i: usize = 0;
    while i < selectors.len()
        invariant
            i <= selectors@.len(),
            copy@.len() == i,
            forall|j: int| 0 <= j < i ==> (#[trigger] copy@[j])@ == selectors@[j]@,
        decreases selectors@.len() - i,
    {
        copy.push(selectors[i].clone());
        i += 1;
    }
    assert(selector_views(copy@) =~= selector_views(selectors@));
    copy
}

impl Clone for Selector {
    fn clone(&self) -> (r: Self)
        ensures
            r@ == self@,
        decreases self,
    {
        match self {
            Selector::Elem(func, fields) => {
                let mut copy: Vec<(EcoString, Value)> = Vec::new();
                let mut i: usize = 0;
                while i < fields.len()
                    invariant
                        i <= fields@.len(),
                        copy@.len() == i,
                        forall|j: int|
                            0 <= j < i ==> eco_chars((#[trigger] copy@[j]).0) == eco_chars(fields@[j].0)
                                && copy@[j].1@ == fields@[j].1@,
                    decreases fields@.len() - i,
                {
                    copy.push((eco_clone(&fields[i].0), fields[i].1.clone()));
                    i += 1;
                }
                assert(pair_views(copy@) =~= pair_views(fields@));
                Selector::Elem(*func, copy)
            },
            Selector::Label(label) => Selector::Label(label.clone()),
            Selector::Can(type_id) => Selector::Can(*type_id),
            Selector::Location(location) => Selector::Location(*location),
            Selector::Or(selectors) => {
                let copy = clone_selectors(selectors);
                proof {
                    lemma_selectors_view(copy);
                    lemma_selectors_view(*selectors);
                }
                Selector::Or(copy)
            },
            Selector::And(selectors) => {
                let copy = clone_selectors(selectors);
                proof {
                    lemma_selectors_view(copy);
                    lemma_selectors_view(*selectors);
                }
                Selector::And(copy)
            },
        }
    }
}

impl SelectorView {
    /// Whether the selector picks the element.
    pub open spec fn selects(self, target: ContentView) -> bool
        decreases self,
    {
        match self {
            SelectorView::Elem(func, fields) => {
                &&& target.func.id == func.id
                &&& forall|i: int|
                    0 <= i < fields.len() ==> holds(
                        target,
                        (#[trigger] fields[i]).0,
                        fields[i].1,
                    )
            },
            SelectorView::Label(label) => target.label() == Some(label),
            SelectorView::Can(type_id) => target.func.can(type_id),
            SelectorView::Location(location) => target.location() == Some(location),
            SelectorView::Or(selectors) => exists|i: int|
                0 <= i < selectors.len() && (#[trigger] selectors[i]).selects(target),
            SelectorView::And(selectors) => forall|i: int|
                0 <= i < selectors.len() ==> (#[trigger] selectors[i]).selects(target),
        }
    }
}

/// Whether an attached field has the given value.
pub open spec fn holds(target: ContentView, name: Seq<char>, value: ValueView) -> bool {
    match target.field_ref(name) {
        Some(found) => value_eq(found, value),
        None => false,
    }
}

impl Selector {
    /// Whether the selector matches for the target.
    pub fn matches(&self, target: &Content) -> (r: bool)
        ensures
            r == self@.selects(target@),
        decreases self,
    {
        match self {
            Selector::Elem(func, fields) => {
                if target.func() != *func {
                    return false;
                }
                let ghost views = pair_views(fields@);
                let mut i: usize = 0;
                while i < fields.len()
                    invariant
                        i <= fields@.len(),
                        views == pair_views(fields@),
                        self@ == SelectorView::Elem(func@, views),
                        forall|j: int|
                            0 <= j < i ==> holds(target@, (#[trigger] views[j]).0, views[j].1),
                    decreases fields@.len() - i,
                {
                    assert(views[i as int] == (eco_chars(fields@[i as int].0), fields@[i as int].1@));
                    let same = match target.field_ref(eco_str(&fields[i].0)) {
                        Some(found) => *found == fields[i].1,
                        None => false,
                    };
                    if !same {
                        assert(self@->Elem_1[i as int] == views[i as int]);
                        return false;
                    }
                    i += 1;
                }
                true
            },
            Selector::Label(label) => match target.label() {
                Some(found) => eco_eq(&found.0, &label.0),
                None => false,
            },
            Selector::Can(type_id) => target.can_type_id(*type_id),
            Selector::Location(location) => match target.location() {
                Some(found) => found == *location,
                None => false,
            },
            Selector::Or(selectors) => {
                let ghost views = selector_views(selectors@);
                proof {
                    lemma_selectors_view(*selectors);
                }
                let mut i: usize = 0;
                while i < selectors.len()
                    invariant
                        i <= selectors@.len(),
                        *self == Selector::Or(*selectors),
                        views == selector_views(selectors@),
                        self@ == SelectorView::Or(views),
                        forall|j: int| 0 <= j < i ==> !(#[trigger] views[j]).selects(target@),
                    decreases selectors@.len() - i,
                {
                    assert(views[i as int] == selectors@[i as int]@);
                    if selectors[i].matches(target) {
                        assert(self@->Or_0[i as int].selects(target@));
                        return true;
                    }
                    i += 1;
                }
                false
            },
            Selector::And(selectors) => {
                let ghost views = selector_views(selectors@);
                proof {
                    lemma_selectors_view(*selectors);
                }
                let mut i: usize = 0;
                while i < selectors.len()
                    invariant
                        i <= selectors@.len(),
                        *self == Selector::And(*selectors),
                        views == selector_views(selectors@),
                        self@ == SelectorView::And(views),
                        forall|j: int| 0 <= j < i ==> (#[trigger] views[j]).selects(target@),
                    decreases selectors@.len() - i,
                {
                    assert(views[i as int] == selectors@[i as int]@);
                    if !selectors[i].matches(target) {
                        assert(!self@->And_0[i as int].selects(target@));
                        return false;
                    }
                    i += 1;
                }
                true
            },
        }
    }
}

} // verus!
