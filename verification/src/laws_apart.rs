//! What equality and selectors tell apart.

use crate::elem::{ElemId, FuncView, TypeId};
use crate::equality::{content_eq, value_eq};
use crate::laws::{
    law_labelled, law_push_field_keeps_the_rest, law_push_field_reads_back, law_sequence,
    law_styled,
};
use crate::laws_elem::law_capabilities;
use crate::laws_eq::{law_eq_reflexive, law_value_eq_reflexive};
use crate::laws_fields::law_push_field_lists;
use crate::laws_query::law_query_exact;
use crate::model::{ContentView, SelectorView, StyleView, ValueView};
use crate::place::Location;
use crate::query::{nodes, selected};
use vstd::prelude::*;

verus! {

/// Two sequences are equal exactly if they have as many children, and these are equal one by one.
pub proof fn law_eq_of_sequences(a: ContentView, b: ContentView)
    requires
        a.func.id == ElemId::Sequence,
        b.func.id == ElemId::Sequence,
    ensures
        content_eq(a, b) <==> a.children().len() == b.children().len() && forall|i: int|
            0 <= i < a.children().len() ==> content_eq(#[trigger] a.children()[i], b.children()[i]),
{
}

/// Two styled elements with child and styles are equal exactly if their children are equal, and
/// they have as many styles with the same hashes one by one.
pub proof fn law_eq_of_styled(a: ContentView, b: ContentView)
    ensures
        (a.to_styled(), b.to_styled()) matches (Some((x, s)), Some((y, t))) ==> (content_eq(a, b)
            <==> content_eq(x, y) && s.len() == t.len() && forall|i: int|
            0 <= i < s.len() ==> (#[trigger] s[i]).hash() == t[i].hash()),
{
}

/// Other elements are equal exactly if they have the same function and as many fields, with the
/// same names and equal values one by one. A sequence equals nothing but sequences.
pub proof fn law_eq_of_elements(a: ContentView, b: ContentView)
    requires
        !(a.func.id == ElemId::Sequence && b.func.id == ElemId::Sequence),
        !(a.to_styled() is Some && b.to_styled() is Some),
    ensures
        content_eq(a, b) <==> a.func.id == b.func.id && a.fields().len() == b.fields().len()
            && forall|i: int|
            0 <= i < a.fields().len() ==> (#[trigger] a.fields()[i]).0 == b.fields()[i].0
                && value_eq(a.fields()[i].1, b.fields()[i].1),
{
}

/// Values that are content are equal exactly if the content is. Arrays are equal exactly if they
/// have as many items, and these are equal one by one. Other values are equal exactly if they
/// are the same.
pub proof fn law_eq_of_values(a: ValueView, b: ValueView)
    ensures
        (a, b) matches (ValueView::Content(x), ValueView::Content(y)) ==> (value_eq(a, b)
            <==> content_eq(x, y)),
        (a, b) matches (ValueView::Array(xs), ValueView::Array(ys)) ==> (value_eq(a, b)
            <==> xs.len() == ys.len() && forall|i: int|
            0 <= i < xs.len() ==> value_eq(#[trigger] xs[i], ys[i])),
        !(a is Content && b is Content) && !(a is Array && b is Array) ==> (value_eq(a, b)
            <==> a == b),
{
}

/// The hash of a style is that of the property or of the show rule.
pub proof fn law_style_hash(style: StyleView)
    ensures
        style.hash() == (match style {
            StyleView::Property(hash) => hash,
            StyleView::Recipe(recipe) => recipe.hash,
        }),
{
}

/// Two values in the same field of an element that is neither a sequence nor styled make equal
/// content exactly if the values are equal.
pub proof fn law_eq_tells_fields_apart(
    content: ContentView,
    name: Seq<char>,
    v: ValueView,
    w: ValueView,
)
    requires
        content.wf(),
        !content.is_sequence(),
        !content.is_styled(),
    ensures
        content_eq(content.push_field(name, v), content.push_field(name, w)) <==> value_eq(v, w),
{
    let a = content.push_field(name, v);
    let b = content.push_field(name, w);
    let fields = content.fields();
    law_push_field_keeps_the_rest(content, name, v);
    law_push_field_keeps_the_rest(content, name, w);
    law_push_field_lists(content, name, v);
    law_push_field_lists(content, name, w);
    law_eq_of_elements(a, b);
    assert forall|i: int| 0 <= i < fields.len() implies value_eq(
        (#[trigger] fields[i]).1,
        fields[i].1,
    ) by {
        law_value_eq_reflexive(fields[i].1);
    }
    let k = lemma_first_named(fields, name);
    if k < fields.len() {
        assert(fields[k].0 == name);
        assert(a.fields() == fields.update(k, (name, v)));
        assert(b.fields() == fields.update(k, (name, w)));
        assert(a.fields()[k] == (name, v));
        assert(b.fields()[k] == (name, w));
        if value_eq(v, w) {
            assert forall|i: int| 0 <= i < a.fields().len() implies (#[trigger] a.fields()[i]).0
                == b.fields()[i].0 && value_eq(a.fields()[i].1, b.fields()[i].1) by {
                if i != k {
                    assert(a.fields()[i] == fields[i]);
                    assert(b.fields()[i] == fields[i]);
                }
            }
        }
    } else {
        assert(a.fields()[fields.len() as int] == (name, v));
        assert(b.fields()[fields.len() as int] == (name, w));
        if value_eq(v, w) {
            assert forall|i: int| 0 <= i < a.fields().len() implies (#[trigger] a.fields()[i]).0
                == b.fields()[i].0 && value_eq(a.fields()[i].1, b.fields()[i].1) by {
                if i < fields.len() {
                    assert(a.fields()[i] == fields[i]);
                    assert(b.fields()[i] == fields[i]);
                }
            }
        }
    }
}

/// Where the first field of a name stands, or how many fields there are if there is none.
proof fn lemma_first_named(fields: Seq<(Seq<char>, ValueView)>, name: Seq<char>) -> (k: int)
    ensures
        0 <= k <= fields.len(),
        k < fields.len() ==> fields[k].0 == name,
        forall|j: int| 0 <= j < k ==> (#[trigger] fields[j]).0 != name,
    decreases fields.len(),
{
    if fields.len() == 0 {
        0
    } else {
        let rest = fields.drop_last();
        let k = lemma_first_named(rest, name);
        assert forall|j: int| 0 <= j < k implies (#[trigger] fields[j]).0 != name by {
            assert(rest[j] == fields[j]);
        }
        if k < rest.len() {
            assert(fields[k] == rest[k]);
            k
        } else if fields.last().0 == name {
            k
        } else {
            k + 1
        }
    }
}

/// Content in a field tells elements apart exactly if it is told apart itself.
pub proof fn law_eq_tells_nested_content_apart(
    content: ContentView,
    name: Seq<char>,
    x: ContentView,
    y: ContentView,
)
    requires
        content.wf(),
        !content.is_sequence(),
        !content.is_styled(),
    ensures
        content_eq(
            content.push_field(name, ValueView::Content(x)),
            content.push_field(name, ValueView::Content(y)),
        ) <==> content_eq(x, y),
{
    law_eq_tells_fields_apart(content, name, ValueView::Content(x), ValueView::Content(y));
    law_eq_of_values(ValueView::Content(x), ValueView::Content(y));
}

/// Exchanging one part of a row gives equal content exactly if the parts are equal.
pub proof fn law_eq_tells_parts_apart(items: Seq<ContentView>, i: int, x: ContentView)
    requires
        0 <= i < items.len(),
    ensures
        content_eq(ContentView::sequence(items), ContentView::sequence(items.update(i, x)))
            <==> content_eq(items[i], x),
{
    let other = items.update(i, x);
    law_sequence(items);
    law_sequence(other);
    if items.len() != 1 {
        let a = ContentView::sequence(items);
        let b = ContentView::sequence(other);
        law_eq_of_sequences(a, b);
        if content_eq(a, b) {
            assert(content_eq(a.children()[i], b.children()[i]));
        }
        if content_eq(items[i], x) {
            assert forall|j: int| 0 <= j < a.children().len() implies content_eq(
                #[trigger] a.children()[j],
                b.children()[j],
            ) by {
                law_eq_reflexive(items[j]);
            }
        }
    }
}

/// Exchanging one item of an array gives an equal array exactly if the items are equal.
pub proof fn law_eq_tells_items_apart(values: Seq<ValueView>, i: int, w: ValueView)
    requires
        0 <= i < values.len(),
    ensures
        value_eq(ValueView::Array(values), ValueView::Array(values.update(i, w))) <==> value_eq(
            values[i],
            w,
        ),
{
    let other = values.update(i, w);
    law_eq_of_values(ValueView::Array(values), ValueView::Array(other));
    if value_eq(ValueView::Array(values), ValueView::Array(other)) {
        assert(value_eq(values[i], other[i]));
    }
    if value_eq(values[i], w) {
        assert forall|j: int| 0 <= j < values.len() implies value_eq(
            #[trigger] values[j],
            other[j],
        ) by {
            law_value_eq_reflexive(values[j]);
        }
    }
}

/// Styled content is equal exactly if the content is equal and the styles have the same hashes.
pub proof fn law_eq_tells_styled_apart(
    a: ContentView,
    s: Seq<StyleView>,
    b: ContentView,
    t: Seq<StyleView>,
)
    requires
        !a.is_styled(),
        !b.is_styled(),
    ensures
        content_eq(a.wrapped(s), b.wrapped(t)) <==> content_eq(a, b) && s.len() == t.len()
            && forall|i: int| 0 <= i < s.len() ==> (#[trigger] s[i]).hash() == t[i].hash(),
{
    law_styled(a, s);
    law_styled(b, t);
    law_eq_of_styled(a.wrapped(s), b.wrapped(t));
}

/// A selector for elements picks those with its function that have every listed field, with an
/// equal value, among their attached fields.
pub proof fn law_selects_elem(
    func: FuncView,
    fields: Seq<(Seq<char>, ValueView)>,
    target: ContentView,
)
    ensures
        SelectorView::Elem(func, fields).selects(target) <==> target.func.id == func.id
            && forall|i: int|
            0 <= i < fields.len() ==> (target.field_ref((#[trigger] fields[i]).0) matches Some(
                found,
            ) && value_eq(found, fields[i].1)),
{
    let selector = SelectorView::Elem(func, fields);
    if selector.selects(target) {
        assert forall|i: int| 0 <= i < fields.len() implies (target.field_ref(
            (#[trigger] fields[i]).0,
        ) matches Some(found) && value_eq(found, fields[i].1)) by {
            assert(selector->Elem_1[i] == fields[i]);
        }
    }
}

/// One more listed field is one more condition.
pub proof fn law_selects_elem_push(
    func: FuncView,
    fields: Seq<(Seq<char>, ValueView)>,
    name: Seq<char>,
    value: ValueView,
    target: ContentView,
)
    ensures
        SelectorView::Elem(func, seq![]).selects(target) <==> target.func.id == func.id,
        SelectorView::Elem(func, fields.push((name, value))).selects(target)
            <==> SelectorView::Elem(func, fields).selects(target) && (target.field_ref(
            name,
        ) matches Some(found) && value_eq(found, value)),
{
    let more = fields.push((name, value));
    law_selects_elem(func, seq![], target);
    law_selects_elem(func, fields, target);
    law_selects_elem(func, more, target);
    assert(more[fields.len() as int] == (name, value));
    if SelectorView::Elem(func, more).selects(target) {
        assert forall|i: int| 0 <= i < fields.len() implies (target.field_ref(
            (#[trigger] fields[i]).0,
        ) matches Some(found) && value_eq(found, fields[i].1)) by {
            assert(more[i] == fields[i]);
        }
    }
}

/// A query by function and fields finds no content that lacks one of the fields or has another
/// value in it, wherever the field stands in the list.
pub proof fn law_query_elem(
    content: ContentView,
    func: FuncView,
    fields: Seq<(Seq<char>, ValueView)>,
    found: ContentView,
    i: int,
)
    requires
        0 <= i < fields.len(),
        !(found.field_ref(fields[i].0) matches Some(value) && value_eq(value, fields[i].1)),
    ensures
        !selected(nodes(content), SelectorView::Elem(func, fields)).contains(found),
{
    law_query_exact(content, SelectorView::Elem(func, fields), found);
    law_selects_elem(func, fields, found);
}

/// An element is picked by its function and the value that was attached to a field of it, and
/// not by a value that differs from it.
pub proof fn law_selects_attached(
    content: ContentView,
    name: Seq<char>,
    value: ValueView,
    other: ValueView,
)
    requires
        content.wf(),
    ensures
        SelectorView::Elem(content.func, seq![(name, other)]).selects(
            content.push_field(name, value),
        ) <==> value_eq(value, other),
{
    let target = content.push_field(name, value);
    let fields = seq![(name, other)];
    law_push_field_reads_back(content, name, value);
    law_push_field_keeps_the_rest(content, name, value);
    law_selects_elem(content.func, fields, target);
    assert(fields[0] == (name, other));
}

/// A selector for a label picks the content with that label, one for a capability the content
/// that has it, and one for a location the content at that location.
pub proof fn law_selects_marks(
    target: ContentView,
    label: Seq<char>,
    type_id: TypeId,
    location: Location,
)
    ensures
        SelectorView::Label(label).selects(target) <==> target.field_ref("label"@) == Some(
            ValueView::Label(label),
        ),
        SelectorView::Can(type_id).selects(target) <==> exists|i: int|
            0 <= i < target.func.vtable.len() && (#[trigger] target.func.vtable[i]).0 == type_id,
        SelectorView::Location(location).selects(target) <==> target.location() == Some(location),
{
    law_capabilities(target.func, type_id);
}

/// Content that was labelled is picked by that label and by no other.
pub proof fn law_selects_label(content: ContentView, label: Seq<char>, other: Seq<char>)
    requires
        content.wf(),
    ensures
        SelectorView::Label(other).selects(
            content.push_field("label"@, ValueView::Label(label)),
        ) <==> other == label,
{
    law_labelled(content, label);
}

/// A disjunction picks what one of its selectors picks, and a conjunction what all of them pick.
pub proof fn law_selects_combined(selectors: Seq<SelectorView>, target: ContentView)
    ensures
        SelectorView::Or(selectors).selects(target) <==> exists|i: int|
            0 <= i < selectors.len() && (#[trigger] selectors[i]).selects(target),
        SelectorView::And(selectors).selects(target) <==> forall|i: int|
            0 <= i < selectors.len() ==> (#[trigger] selectors[i]).selects(target),
{
    let either = SelectorView::Or(selectors);
    let both = SelectorView::And(selectors);
    assert(either->Or_0 == selectors);
    assert(both->And_0 == selectors);
    if exists|i: int| 0 <= i < selectors.len() && (#[trigger] selectors[i]).selects(target) {
        let i = choose|i: int|
            0 <= i < selectors.len() && (#[trigger] selectors[i]).selects(target);
        assert(either->Or_0[i].selects(target));
    }
    if either.selects(target) {
        let i = choose|i: int|
            0 <= i < either->Or_0.len() && (#[trigger] either->Or_0[i]).selects(target);
        assert(selectors[i].selects(target));
    }
    if both.selects(target) {
        assert forall|i: int| 0 <= i < selectors.len() implies (#[trigger] selectors[i]).selects(
            target,
        ) by {
            assert(both->And_0[i].selects(target));
        }
    }
}

/// One more selector widens a disjunction and narrows a conjunction by what it picks. An empty
/// disjunction picks nothing, an empty conjunction everything.
pub proof fn law_selects_combined_push(
    selectors: Seq<SelectorView>,
    more: SelectorView,
    target: ContentView,
)
    ensures
        !SelectorView::Or(seq![]).selects(target),
        SelectorView::And(seq![]).selects(target),
        SelectorView::Or(selectors.push(more)).selects(target) <==> SelectorView::Or(
            selectors,
        ).selects(target) || more.selects(target),
        SelectorView::And(selectors.push(more)).selects(target) <==> SelectorView::And(
            selectors,
        ).selects(target) && more.selects(target),
{
    let all = selectors.push(more);
    law_selects_combined(seq![], target);
    law_selects_combined(selectors, target);
    law_selects_combined(all, target);
    assert(all[selectors.len() as int] == more);
    assert(forall|i: int| 0 <= i < selectors.len() ==> all[i] == selectors[i]);
    if SelectorView::Or(selectors).selects(target) {
        let i = choose|i: int|
            0 <= i < selectors.len() && (#[trigger] selectors[i]).selects(target);
        assert(all[i].selects(target));
    }
    if SelectorView::And(all).selects(target) {
        assert forall|i: int| 0 <= i < selectors.len() implies (#[trigger] selectors[i]).selects(
            target,
        ) by {
            assert(all[i].selects(target));
        }
    }
}

} // verus!
