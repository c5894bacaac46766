//! Styles that can be attached to content.

use crate::model::{RecipeView, StyleView};
use crate::place::Span;
use crate::selector::Selector;
use vstd::prelude::*;

verus! {

/// A style property that a set rule fixed.
///
/// Content keeps properties without looking into them, so that here one is its hash.
#[derive(Clone, Copy, Debug, PartialEq, Eq, Structural, Hash)]
pub struct Property {
    /// The hash of the property.
    pub hash: u128,
}

/// A show rule.
#[derive(Hash)]
pub struct Recipe {
    /// The hash of the rule, its transformation included.
    pub hash: u128,
    /// Where the rule comes from.
    pub span: Span,
    /// What the rule applies to; everything that follows if there is none.
    pub selector: Option<Selector>,
}

impl View for Recipe {
    type V = RecipeView;

    open spec fn view(&self) -> RecipeView {
        RecipeView {
            hash: self.hash,
            span: self.span,
            selector: match self.selector {
                Some(selector) => Some(selector@),
                None => None,
            },
        }
    }
}

impl Clone for Recipe {
    fn clone(&self) -> (r: Self)
        ensures
            r@ == self@,
    {
        let selector = match &self.selector {
            Some(selector) => Some(selector.clone()),
            None => None,
        };
        Recipe { hash: self.hash, span: self.span, selector }
    }
}

/// A single style: a property or a show rule.
#[derive(Hash)]
pub enum Style {
    /// A style property.
    Property(Property),
    /// A show rule.
    Recipe(Recipe),
}

impl View for Style {
    type V = StyleView;

    open spec fn view(&self) -> StyleView {
        match self {
            Style::Property(property) => StyleView::Property(property.hash),
            Style::Recipe(recipe) => StyleView::Recipe(recipe@),
        }
    }
}

impl Clone for Style {
    fn clone(&self) -> (r: Self)
        ensures
            r@ == self@,
    {
        match self {
            Style::Property(property) => Style::Property(*property),
            Style::Recipe(recipe) => Style::Recipe(recipe.clone()),
        }
    }
}

impl Style {
    /// The hash by which style entries are told apart.
    pub fn hash(&self) -> (r: u128)
        ensures
            r == self@.hash(),
    {
        match self {
            Style::Property(property) => property.hash,
            Style::Recipe(recipe) => recipe.hash,
        }
    }
}

/// What styles in a row stand for.
pub open spec fn style_views(styles: Seq<Style>) -> Seq<StyleView> {
    styles.map_values(|style: Style| style@)
}

/// A list of styles, the outermost first.
#[derive(Hash)]
pub struct Styles {
    /// The entries.
    pub entries: Vec<Style>,
}

impl View for Styles {
    type V = Seq<StyleView>;

    open spec fn view(&self) -> Seq<StyleView> {
        style_views(self.entries@)
    }
}

impl Styles {
    /// A list with a single style.
    pub fn single(style: Style) -> (r: Self)
        ensures
            r@ == seq![style@],
    {
        let mut entries: Vec<Style> = Vec::new();
        entries.push(style);
        let r = Styles { entries };
        assert(r@ =~= seq![style@]);
        r
    }

    /// Whether there are no styles in the list.
    pub fn is_empty(&self) -> (r: bool)
        ensures
            r == (self@.len() == 0),
    {
        self.entries.len() == 0
    }

    /// Adds outer styles: they come before those that are there.
    pub fn apply(&mut self, outer: Styles)
        ensures
            final(self)@ == outer@ + old(self)@,
    {
        let mut outer = outer;
        let ghost before = outer@;
        let ghost inner = self@;
        outer.entries.append(&mut self.entries);
        assert(outer@ =~= before + inner);
        *self = outer;
    }
}

impl Clone for Styles {
    fn clone(&self) -> (r: Self)
        ensures
            r@ == self@,
    {
        let mut entries: Vec<Style> = Vec::new();
        let mut i: usize = 0;
        while i < self.entries.len()
            invariant
                i <= self.entries@.len(),
                entries@.len() == i,
                forall|j: int| 0 <= j < i ==> (#[trigger] entries@[j])@ == self.entries@[j]@,
            decreases self.entries@.len() - i,
        {
            entries.push(self.entries[i].clone());
            i += 1;
        }
        assert(style_views(entries@) =~= style_views(self.entries@));
        Styles { entries }
    }
}

} // verus!
