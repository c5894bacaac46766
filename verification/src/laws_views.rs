//! What the values of the library stand for.

use crate::attr::{attr_views, Attr, Guard};
use crate::content::{content_views, field_views, owned_field_views, owned_views, Content};
use crate::debug::{eco_views, field_piece, pieces};
use crate::eco::eco_chars;
use crate::elem::ElemFunc;
use crate::equality::{content_eq, value_eq};
use crate::model::{AttrView, GuardView, SelectorView, StyleView, ValueView};
use crate::selector::{lemma_selectors_view, pair_views, selector_views, Selector};
use crate::style::{style_views, Property, Recipe, Style, Styles};
use crate::value::{lemma_array_view, value_views, Label, Value};
use ecow::EcoString;
use vstd::prelude::*;
use vstd::std_specs::cmp::PartialEqSpec;

verus! {

/// A label stands for its characters.
pub proof fn law_label_view(label: Label)
    ensures
        label@ == eco_chars(label.0),
{
}

/// Guards stand for the same exactly if they are for the same recipe: by number, or by element.
pub proof fn law_guard_view(a: Guard, b: Guard)
    ensures
        a@ == b@ <==> (match (a, b) {
            (Guard::Nth(m), Guard::Nth(n)) => m == n,
            (Guard::Base(f), Guard::Base(g)) => f.id == g.id,
            _ => false,
        }),
        a matches Guard::Nth(n) ==> a@ == GuardView::Nth(n as int),
        a matches Guard::Base(f) ==> a@ == GuardView::Base(f.id),
{
}

/// An attribute stands for what it holds.
pub proof fn law_attr_view(attr: Attr)
    ensures
        attr@ == (match attr {
            Attr::Span(span) => AttrView::Span(span),
            Attr::Field(name) => AttrView::Field(eco_chars(name)),
            Attr::Value(value) => AttrView::Value(value@),
            Attr::Child(child) => AttrView::Child(child@),
            Attr::Styles(styles) => AttrView::Styles(styles@),
            Attr::Prepared => AttrView::Prepared,
            Attr::Guard(guard) => AttrView::Guard(guard@),
            Attr::Location(location) => AttrView::Location(location),
        }),
{
}

/// A value stands for what it holds: a number for the number, a string for its characters, an
/// array for what its items stand for, in order.
pub proof fn law_value_view(value: Value)
    ensures
        match value {
            Value::Nothing => value@ == ValueView::Nothing,
            Value::Auto => value@ == ValueView::Auto,
            Value::Bool(b) => value@ == ValueView::Bool(b),
            Value::Int(n) => value@ == ValueView::Int(n as int),
            Value::Str(s) => value@ == ValueView::Str(eco_chars(s)),
            Value::Label(label) => value@ == ValueView::Label(eco_chars(label.0)),
            Value::Content(content) => value@ == ValueView::Content(content@),
            Value::Array(items) => value@ matches ValueView::Array(views) && views.len()
                == items@.len() && forall|i: int|
                0 <= i < views.len() ==> #[trigger] views[i] == items@[i]@,
            Value::Dyn(hash) => value@ == ValueView::Dyn(hash),
        },
{
    if let Value::Array(items) = value {
        lemma_array_view(items);
    }
}

/// A style stands for its property or its show rule.
pub proof fn law_style_view(property: Property, recipe: Recipe)
    ensures
        Style::Property(property)@ == StyleView::Property(property.hash),
        Style::Recipe(recipe)@ matches StyleView::Recipe(view) && view.hash == recipe.hash
            && view.span == recipe.span && view.selector is Some == recipe.selector is Some && (
        recipe.selector matches Some(selector) ==> view.selector == Some(selector@)),
{
}

/// A list of styles stands for what its entries stand for, in order.
pub proof fn law_styles_view(styles: Styles)
    ensures
        styles@.len() == styles.entries@.len(),
        forall|i: int|
            0 <= i < styles@.len() ==> #[trigger] styles@[i] == styles.entries@[i]@,
{
}

/// A selector stands for what it asks for, with all fields and all parts in order.
pub proof fn law_selector_view(selector: Selector)
    ensures
        match selector {
            Selector::Elem(func, fields) => selector@ matches SelectorView::Elem(f, views) && f
                == func@ && views.len() == fields@.len() && forall|i: int|
                0 <= i < views.len() ==> #[trigger] views[i] == (
                    eco_chars(fields@[i].0),
                    fields@[i].1@,
                ),
            Selector::Label(label) => selector@ == SelectorView::Label(eco_chars(label.0)),
            Selector::Can(type_id) => selector@ == SelectorView::Can(type_id),
            Selector::Location(location) => selector@ == SelectorView::Location(location),
            Selector::Or(parts) => selector@ matches SelectorView::Or(views) && views.len()
                == parts@.len() && forall|i: int|
                0 <= i < views.len() ==> #[trigger] views[i] == parts@[i]@,
            Selector::And(parts) => selector@ matches SelectorView::And(views) && views.len()
                == parts@.len() && forall|i: int|
                0 <= i < views.len() ==> #[trigger] views[i] == parts@[i]@,
        },
{
    match selector {
        Selector::Or(parts) => lemma_selectors_view(parts),
        Selector::And(parts) => lemma_selectors_view(parts),
        _ => {},
    }
}

/// Content in a row stands for what each stands for, in order.
pub proof fn law_content_rows(refs: Seq<&Content>, owned: Seq<Content>)
    ensures
        content_views(refs).len() == refs.len(),
        forall|i: int| 0 <= i < refs.len() ==> #[trigger] content_views(refs)[i] == refs[i]@,
        owned_views(owned).len() == owned.len(),
        forall|i: int| 0 <= i < owned.len() ==> #[trigger] owned_views(owned)[i] == owned[i]@,
{
}

/// Fields in a row stand for their names and what their values stand for, in order.
pub proof fn law_field_rows(
    refs: Seq<(&EcoString, &Value)>,
    owned: Seq<(&EcoString, Value)>,
    pairs: Seq<(EcoString, Value)>,
)
    ensures
        field_views(refs).len() == refs.len(),
        forall|i: int|
            0 <= i < refs.len() ==> #[trigger] field_views(refs)[i] == (
                eco_chars(*refs[i].0),
                refs[i].1@,
            ),
        owned_field_views(owned).len() == owned.len(),
        forall|i: int|
            0 <= i < owned.len() ==> #[trigger] owned_field_views(owned)[i] == (
                eco_chars(*owned[i].0),
                owned[i].1@,
            ),
        pair_views(pairs).len() == pairs.len(),
        forall|i: int|
            0 <= i < pairs.len() ==> #[trigger] pair_views(pairs)[i] == (
                eco_chars(pairs[i].0),
                pairs[i].1@,
            ),
{
}

/// Attributes, values, styles and selectors in a row stand for what each stands for, in order.
pub proof fn law_other_rows(
    attrs: Seq<Attr>,
    values: Seq<Value>,
    styles: Seq<Style>,
    selectors: Seq<Selector>,
    strings: Seq<EcoString>,
)
    ensures
        attr_views(attrs).len() == attrs.len(),
        forall|i: int| 0 <= i < attrs.len() ==> #[trigger] attr_views(attrs)[i] == attrs[i]@,
        value_views(values).len() == values.len(),
        forall|i: int| 0 <= i < values.len() ==> #[trigger] value_views(values)[i] == values[i]@,
        style_views(styles).len() == styles.len(),
        forall|i: int| 0 <= i < styles.len() ==> #[trigger] style_views(styles)[i] == styles[i]@,
        selector_views(selectors).len() == selectors.len(),
        forall|i: int|
            0 <= i < selectors.len() ==> #[trigger] selector_views(selectors)[i] == selectors[i]@,
        eco_views(strings).len() == strings.len(),
        forall|i: int|
            0 <= i < strings.len() ==> #[trigger] eco_views(strings)[i] == eco_chars(strings[i]),
{
}

/// `==` on content and on values is their equality; on guards and element functions it is being
/// for the same recipe and having the same identity.
pub proof fn law_operators(
    a: Content,
    b: Content,
    v: Value,
    w: Value,
    g: Guard,
    h: Guard,
    e: ElemFunc,
    f: ElemFunc,
)
    ensures
        Content::obeys_eq_spec(),
        a.eq_spec(&b) <==> content_eq(a@, b@),
        Value::obeys_eq_spec(),
        v.eq_spec(&w) <==> value_eq(v@, w@),
        Guard::obeys_eq_spec(),
        g.eq_spec(&h) <==> g@ == h@,
        ElemFunc::obeys_eq_spec(),
        e.eq_spec(&f) <==> e.id == f.id,
{
}

/// The arguments of a debug form are the fields in order, each as its name, a colon with a space,
/// and its value; after them come two dots if there are styles, and nothing else.
pub proof fn law_pieces(fields: Seq<(EcoString, String)>, styled: bool)
    ensures
        pieces(fields, styled).len() == fields.len() + (if styled {
            1int
        } else {
            0
        }),
        forall|i: int|
            0 <= i < fields.len() ==> #[trigger] pieces(fields, styled)[i] == eco_chars(
                fields[i].0,
            ) + seq![':', ' '] + fields[i].1@,
        styled ==> pieces(fields, styled).last() == seq!['.', '.'],
{
    reveal_strlit(": ");
    reveal_strlit("..");
    assert(": "@ =~= seq![':', ' ']);
    assert(".."@ =~= seq!['.', '.']);
    assert forall|i: int| 0 <= i < fields.len() implies #[trigger] pieces(fields, styled)[i]
        == eco_chars(fields[i].0) + seq![':', ' '] + fields[i].1@ by {
        assert(pieces(fields, styled)[i] == field_piece(eco_chars(fields[i].0), fields[i].1@));
    }
}

} // verus!
