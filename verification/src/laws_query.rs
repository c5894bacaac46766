//! What holds of queries.

use crate::elem::{ElemId, FuncView};
use crate::fields::lemma_field_ref;
use crate::laws::{is_mark, law_labelled};
use crate::model::{AttrView, ContentView, SelectorView, StyleView, ValueView};
use crate::place::Span;
use crate::query::{
    attr_nodes, attrs_nodes, lemma_selected_add, nodes, selected, value_nodes, values_nodes,
};
use crate::seqs::{lemma_find_map_cases, lemma_position_is};
use vstd::prelude::*;

verus! {

/// A query finds what is in the content and matches, and nothing else.
pub proof fn law_query_exact(content: ContentView, selector: SelectorView, found: ContentView)
    ensures
        selected(nodes(content), selector).contains(found) <==> nodes(content).contains(found)
            && selector.selects(found),
{
    broadcast use Seq::lemma_filter_pred, Seq::lemma_filter_contains;

    let all = nodes(content);
    let pred = |c: ContentView| selector.selects(c);
    if selected(all, selector).contains(found) {
        all.lemma_filter_contains_rev(pred, found);
        let i = choose|i: int| 0 <= i < all.filter(pred).len() && all.filter(pred)[i] == found;
        assert(pred(all.filter(pred)[i]));
    }
    if all.contains(found) && selector.selects(found) {
        let i = choose|i: int| 0 <= i < all.len() && all[i] == found;
        assert(pred(all[i]));
    }
}

/// Content that matches is the first that a query of it finds.
pub proof fn law_query_root(content: ContentView, selector: SelectorView)
    requires
        selector.selects(content),
    ensures
        selected(nodes(content), selector).len() > 0,
        selected(nodes(content), selector)[0] == content,
{
    let root = seq![content];
    lemma_selected_add(root, attrs_nodes(content.attrs), selector);
    lemma_selected_one(content, selector);
}

/// What is picked from a row of one.
proof fn lemma_selected_one(content: ContentView, selector: SelectorView)
    ensures
        selected(seq![content], selector) == (if selector.selects(content) {
            seq![content]
        } else {
            seq![]
        }),
{
    reveal_with_fuel(Seq::filter, 2);
    assert(seq![content].drop_last() =~= seq![]);
    assert(selected(seq![content], selector) =~= (if selector.selects(content) {
        seq![content]
    } else {
        seq![]
    }));
}

/// What a query with the given selector finds in an attribute: all that it finds in a child or in
/// the value of a field, and nothing elsewhere.
pub open spec fn query_attr(selector: SelectorView) -> spec_fn(AttrView) -> Seq<ContentView> {
    |attr: AttrView|
        match attr {
            AttrView::Child(child) => selected(nodes(child), selector),
            AttrView::Value(value) => selected(value_nodes(value), selector),
            _ => seq![],
        }
}

/// What a query with the given selector finds in a value.
pub open spec fn query_value(selector: SelectorView) -> spec_fn(ValueView) -> Seq<ContentView> {
    |value: ValueView| selected(value_nodes(value), selector)
}

/// A query goes in document order: it finds the content itself if that matches, and then what
/// it finds in each attribute, in the order in which they were attached.
pub proof fn law_query_order(content: ContentView, selector: SelectorView)
    ensures
        selected(nodes(content), selector) == (if selector.selects(content) {
            seq![content]
        } else {
            seq![]
        }) + content.attrs.flat_map(query_attr(selector)),
{
    lemma_selected_add(seq![content], attrs_nodes(content.attrs), selector);
    lemma_selected_one(content, selector);
    lemma_attrs_selected(content.attrs, selector);
}

/// What is picked from attributes is what is picked from each in turn.
proof fn lemma_attrs_selected(attrs: Seq<AttrView>, selector: SelectorView)
    ensures
        selected(attrs_nodes(attrs), selector) == attrs.flat_map(query_attr(selector)),
    decreases attrs.len(),
{
    let picked = query_attr(selector);
    reveal(Seq::filter);
    if attrs.len() == 0 {
        assert(selected(attrs_nodes(attrs), selector) =~= attrs.flat_map(picked));
    } else {
        lemma_attrs_selected(attrs.drop_last(), selector);
        lemma_selected_add(attrs_nodes(attrs.drop_last()), attr_nodes(attrs.last()), selector);
        lemma_flat_map_last(attrs, picked);
        assert(selected(attr_nodes(attrs.last()), selector) =~= picked(attrs.last()));
    }
}

/// In a value that is content, a query finds what it finds in the content; in an array, what it
/// finds in each item in turn; in any other value, nothing.
pub proof fn law_query_value(value: ValueView, selector: SelectorView)
    ensures
        selected(value_nodes(value), selector) == (match value {
            ValueView::Content(content) => selected(nodes(content), selector),
            ValueView::Array(values) => values.flat_map(query_value(selector)),
            _ => seq![],
        }),
{
    match value {
        ValueView::Content(_) => {},
        ValueView::Array(values) => lemma_values_selected(values, selector),
        _ => {
            reveal(Seq::filter);
        },
    }
}

/// What is picked from values is what is picked from each in turn.
proof fn lemma_values_selected(values: Seq<ValueView>, selector: SelectorView)
    ensures
        selected(values_nodes(values), selector) == values.flat_map(query_value(selector)),
    decreases values.len(),
{
    let picked = query_value(selector);
    if values.len() == 0 {
        reveal(Seq::filter);
        assert(selected(values_nodes(values), selector) =~= values.flat_map(picked));
    } else {
        lemma_values_selected(values.drop_last(), selector);
        lemma_selected_add(
            values_nodes(values.drop_last()),
            value_nodes(values.last()),
            selector,
        );
        lemma_flat_map_last(values, picked);
    }
}

/// What a selector picks from a row is what it picks from each in turn, and no more.
pub proof fn law_selected(contents: Seq<ContentView>, last: ContentView, selector: SelectorView)
    ensures
        selected(seq![], selector).len() == 0,
        selected(contents.push(last), selector) == (if selector.selects(last) {
            selected(contents, selector).push(last)
        } else {
            selected(contents, selector)
        }),
{
    reveal(Seq::filter);
    assert(contents.push(last).drop_last() =~= contents);
}

/// A search starts with the content itself, and goes on with what is nested in its attributes,
/// one after the other: all that a search of a child or of content in a value goes through, for
/// an array what its items hold, and nothing for other attributes.
pub proof fn law_nodes(content: ContentView, attr: AttrView)
    ensures
        nodes(content).len() > 0,
        nodes(content)[0] == content,
        nodes(ContentView::new(content.func)).len() == 1,
        nodes(content.with(attr)) == seq![content.with(attr)] + nodes(content).skip(1) + (
        match attr {
            AttrView::Child(child) => nodes(child),
            AttrView::Value(ValueView::Content(inner)) => nodes(inner),
            AttrView::Value(ValueView::Array(_)) => nodes(
                ContentView::new(content.func).with(attr),
            ).skip(1),
            _ => seq![],
        }),
{
    let bare = ContentView::new(content.func);
    let after = content.with(attr);
    assert(after.attrs =~= content.attrs + seq![attr]);
    assert(bare.with(attr).attrs =~= seq![attr]);
    lemma_attrs_nodes_add(content.attrs, seq![attr]);
    lemma_attrs_nodes_one(attr);
    assert(nodes(content).skip(1) =~= attrs_nodes(content.attrs));
    assert(nodes(bare.with(attr)).skip(1) =~= attr_nodes(attr));
    assert(nodes(after) =~= seq![after] + nodes(content).skip(1) + attr_nodes(attr));
}

/// A search of an array goes through its items in order, each as it would alone.
pub proof fn law_nodes_array(func: FuncView, values: Seq<ValueView>, last: ValueView)
    ensures
        ({
            let holder = ContentView::new(func);
            &&& nodes(holder.with(AttrView::Value(ValueView::Array(seq![])))).skip(1).len() == 0
            &&& nodes(holder.with(AttrView::Value(ValueView::Array(values.push(last))))).skip(1)
                == nodes(holder.with(AttrView::Value(ValueView::Array(values)))).skip(1) + nodes(
                holder.with(AttrView::Value(last)),
            ).skip(1)
        }),
{
    let all = values.push(last);
    assert(all.drop_last() =~= values);
    lemma_holder_nodes(func, ValueView::Array(seq![]));
    lemma_holder_nodes(func, ValueView::Array(values));
    lemma_holder_nodes(func, ValueView::Array(all));
    lemma_holder_nodes(func, last);
}

/// What a search of an element with a single value goes through besides the element.
proof fn lemma_holder_nodes(func: FuncView, value: ValueView)
    ensures
        nodes(ContentView::new(func).with(AttrView::Value(value))).skip(1) == value_nodes(value),
{
    let holder = ContentView::new(func).with(AttrView::Value(value));
    assert(holder.attrs =~= seq![AttrView::Value(value)]);
    lemma_attrs_nodes_one(AttrView::Value(value));
    assert(nodes(holder).skip(1) =~= value_nodes(value));
}

/// What is nested in one attribute is nested in the list.
proof fn lemma_attrs_nodes_contains(attrs: Seq<AttrView>, i: int, found: ContentView)
    requires
        0 <= i < attrs.len(),
        attr_nodes(attrs[i]).contains(found),
    ensures
        attrs_nodes(attrs).contains(found),
{
    let head = attrs.take(i);
    let tail = attrs.skip(i + 1);
    assert(attrs =~= head + seq![attrs[i]] + tail);
    lemma_attrs_nodes_add(head + seq![attrs[i]], tail);
    lemma_attrs_nodes_add(head, seq![attrs[i]]);
    lemma_attrs_nodes_one(attrs[i]);
    let k = choose|k: int|
        0 <= k < attr_nodes(attrs[i]).len() && attr_nodes(attrs[i])[k] == found;
    assert(attrs_nodes(attrs)[attrs_nodes(head).len() + k] == found);
}

/// A search of a sum goes through what its sequences hold and through its other parts, first on
/// the left and then on the right.
pub proof fn law_nodes_concat(left: ContentView, right: ContentView)
    ensures
        nodes(left.concat(right)).skip(1) == (if left.func.id == ElemId::Sequence {
            nodes(left).skip(1)
        } else {
            nodes(left)
        }) + (if right.func.id == ElemId::Sequence {
            nodes(right).skip(1)
        } else {
            nodes(right)
        }),
{
    let sum = left.concat(right);
    lemma_attrs_nodes_concat(left, right);
    assert(nodes(left).skip(1) =~= attrs_nodes(left.attrs));
    assert(nodes(right).skip(1) =~= attrs_nodes(right.attrs));
    assert(nodes(sum).skip(1) =~= attrs_nodes(sum.attrs));
}

/// A search of styled content goes through the content, or through what it held if it was styled
/// before.
pub proof fn law_nodes_styled(content: ContentView, styles: Seq<StyleView>)
    requires
        content.is_styled() ==> content.styles() is Some,
    ensures
        nodes(content.wrapped(styles)).skip(1) == (if content.func.id == ElemId::Styled {
            nodes(content).skip(1)
        } else {
            nodes(content)
        }),
{
    let styled = content.wrapped(styles);
    lemma_attrs_nodes_wrapped(content, styles);
    assert(nodes(content).skip(1) =~= attrs_nodes(content.attrs));
    assert(nodes(styled).skip(1) =~= attrs_nodes(styled.attrs));
}

/// A span changes nothing of what a search of the content goes through besides the content.
pub proof fn law_nodes_spanned(content: ContentView, span: Span)
    ensures
        nodes(content.spanned(span)).skip(1) == nodes(content).skip(1),
{
    let after = content.spanned(span);
    let attr = AttrView::Span(span);
    assert(content.with(attr).attrs =~= content.attrs + seq![attr]);
    lemma_attrs_nodes_add(content.attrs, seq![attr]);
    lemma_attrs_nodes_add(seq![attr], content.attrs);
    lemma_attrs_nodes_one(attr);
    assert(nodes(after).skip(1) =~= attrs_nodes(after.attrs));
    assert(nodes(content).skip(1) =~= attrs_nodes(content.attrs));
}

/// What a query finds in content, it finds in content that holds it in a field too.
pub proof fn law_query_field(
    content: ContentView,
    name: Seq<char>,
    inner: ContentView,
    selector: SelectorView,
    found: ContentView,
)
    requires
        content.wf(),
        selected(nodes(inner), selector).contains(found),
    ensures
        selected(
            nodes(content.push_field(name, ValueView::Content(inner))),
            selector,
        ).contains(found),
{
    let value = ValueView::Content(inner);
    let after = content.push_field(name, value);
    law_query_exact(inner, selector, found);
    law_query_exact(after, selector, found);
    lemma_field_ref(content, name);
    let i = content.field_index(name) + 1;
    assert(after.attrs[i] == AttrView::Value(value));
    lemma_attrs_nodes_contains(after.attrs, i, found);
    let k = choose|k: int|
        0 <= k < attrs_nodes(after.attrs).len() && attrs_nodes(after.attrs)[k] == found;
    assert(nodes(after)[k + 1] == found);
}

/// What a query finds in a child, it finds in the content too.
pub proof fn law_query_child(
    content: ContentView,
    i: int,
    selector: SelectorView,
    found: ContentView,
)
    requires
        0 <= i < content.children().len(),
        selected(nodes(content.children()[i]), selector).contains(found),
    ensures
        selected(nodes(content), selector).contains(found),
{
    let child = content.children()[i];
    let f = |attr: AttrView| attr.child();
    law_query_exact(child, selector, found);
    law_query_exact(content, selector, found);
    assert(content.attrs.filter_map(f).contains(child));
    content.attrs.lemma_filter_map_contains(f, child);
    let attr = choose|attr: AttrView|
        content.attrs.contains(attr) && #[trigger] f(attr) == Some(child);
    let j = choose|j: int| 0 <= j < content.attrs.len() && content.attrs[j] == attr;
    lemma_attrs_nodes_contains(content.attrs, j, found);
    let k = choose|k: int|
        0 <= k < attrs_nodes(content.attrs).len() && attrs_nodes(content.attrs)[k] == found;
    assert(nodes(content)[k + 1] == found);
}

/// Content that was labelled is found by its label.
pub proof fn law_query_label(content: ContentView, label: Seq<char>)
    requires
        content.wf(),
    ensures
        ({
            let labelled = content.push_field("label"@, ValueView::Label(label));
            selected(nodes(labelled), SelectorView::Label(label)).contains(labelled)
        }),
{
    let labelled = content.push_field("label"@, ValueView::Label(label));
    law_labelled(content, label);
    law_query_root(labelled, SelectorView::Label(label));
    assert(selected(nodes(labelled), SelectorView::Label(label))[0] == labelled);
}

/// What is nested in two lists of attributes is what is nested in each.
proof fn lemma_attrs_nodes_add(left: Seq<AttrView>, right: Seq<AttrView>)
    ensures
        attrs_nodes(left + right) == attrs_nodes(left) + attrs_nodes(right),
    decreases right.len(),
{
    if right.len() == 0 {
        assert(left + right =~= left);
        assert(attrs_nodes(left) + attrs_nodes(right) =~= attrs_nodes(left));
    } else {
        let rest = right.drop_last();
        lemma_attrs_nodes_add(left, rest);
        assert((left + right).drop_last() =~= left + rest);
        assert((left + right).last() == right.last());
        assert(attrs_nodes(left + right) =~= attrs_nodes(left) + attrs_nodes(right));
    }
}

/// What is nested in a list of one attribute.
proof fn lemma_attrs_nodes_one(attr: AttrView)
    ensures
        attrs_nodes(seq![attr]) == attr_nodes(attr),
{
    let attrs = seq![attr];
    assert(attrs.drop_last() =~= seq![]);
    assert(attrs.last() == attr);
    assert(attrs_nodes(attrs.drop_last()) =~= seq![]);
    assert(attrs_nodes(attrs) =~= attr_nodes(attr));
}

/// What a query with the given selector finds.
pub open spec fn query_of(selector: SelectorView) -> spec_fn(ContentView) -> Seq<ContentView> {
    |content: ContentView| selected(nodes(content), selector)
}

/// A query of content in a row looks at the row, and then at each part in turn. A single part
/// stands for the row.
pub proof fn law_query_sequence(items: Seq<ContentView>, selector: SelectorView)
    ensures
        ({
            let row = ContentView::sequence(items);
            selected(nodes(row), selector) == (if items.len() == 1 {
                selected(nodes(items[0]), selector)
            } else {
                selected(seq![row], selector) + items.flat_map(query_of(selector))
            })
        }),
{
    let row = ContentView::sequence(items);
    lemma_selected_add(seq![row], attrs_nodes(row.attrs), selector);
    lemma_children_selected(items, selector);
}

/// What is picked from children is what is picked from each in turn.
proof fn lemma_children_selected(items: Seq<ContentView>, selector: SelectorView)
    ensures
        selected(
            attrs_nodes(items.map_values(|item: ContentView| AttrView::Child(item))),
            selector,
        ) == items.flat_map(query_of(selector)),
    decreases items.len(),
{
    let child = |item: ContentView| AttrView::Child(item);
    let picked = query_of(selector);
    let attrs = items.map_values(child);
    if items.len() == 0 {
        reveal(Seq::filter);
        assert(selected(attrs_nodes(attrs), selector) =~= items.flat_map(picked));
    } else {
        let rest = items.drop_last();
        lemma_children_selected(rest, selector);
        assert(attrs.drop_last() =~= rest.map_values(child));
        assert(attrs.last() == AttrView::Child(items.last()));
        assert(attr_nodes(attrs.last()) == nodes(items.last()));
        assert(attrs_nodes(attrs) == attrs_nodes(attrs.drop_last()) + nodes(items.last()));
        lemma_selected_add(attrs_nodes(attrs.drop_last()), nodes(items.last()), selector);
        lemma_flat_map_last(items, picked);
    }
}

/// The last item comes last.
proof fn lemma_flat_map_last<A, B>(s: Seq<A>, f: spec_fn(A) -> Seq<B>)
    requires
        s.len() > 0,
    ensures
        s.flat_map(f) == s.drop_last().flat_map(f) + f(s.last()),
{
    let all = s.map_values(f);
    assert(all.drop_last() =~= s.drop_last().map_values(f));
    all.lemma_flatten_and_flatten_alt_are_equivalent();
    all.drop_last().lemma_flatten_and_flatten_alt_are_equivalent();
}

/// What is nested in content when it is part of a sequence.
pub open spec fn part_nodes(content: ContentView) -> Seq<ContentView> {
    if content.is_sequence() {
        attrs_nodes(content.attrs)
    } else {
        nodes(content)
    }
}

/// A query of a sum looks at the sum, and then at what the left and the right one bring.
pub proof fn law_query_concat(left: ContentView, right: ContentView, selector: SelectorView)
    ensures
        ({
            let sum = left.concat(right);
            selected(nodes(sum), selector) == selected(seq![sum], selector) + selected(
                part_nodes(left),
                selector,
            ) + selected(part_nodes(right), selector)
        }),
{
    let sum = left.concat(right);
    lemma_attrs_nodes_concat(left, right);
    lemma_selected_add(seq![sum], attrs_nodes(sum.attrs), selector);
    lemma_selected_add(part_nodes(left), part_nodes(right), selector);
    assert(selected(nodes(sum), selector) =~= selected(seq![sum], selector) + selected(
        part_nodes(left),
        selector,
    ) + selected(part_nodes(right), selector));
}

/// What is nested in a sum is what its parts bring.
proof fn lemma_attrs_nodes_concat(left: ContentView, right: ContentView)
    ensures
        attrs_nodes(left.concat(right).attrs) == part_nodes(left) + part_nodes(right),
{
    let sum = left.concat(right);
    lemma_attrs_nodes_one(AttrView::Child(left));
    lemma_attrs_nodes_one(AttrView::Child(right));
    if left.is_sequence() && right.is_sequence() {
        lemma_attrs_nodes_add(left.attrs, right.attrs);
    } else if left.is_sequence() {
        assert(sum.attrs =~= left.attrs + seq![AttrView::Child(right)]);
        lemma_attrs_nodes_add(left.attrs, seq![AttrView::Child(right)]);
    } else if right.is_sequence() {
        lemma_attrs_nodes_add(seq![AttrView::Child(left)], right.attrs);
    } else {
        assert(sum.attrs =~= seq![AttrView::Child(left)] + seq![AttrView::Child(right)]);
        lemma_attrs_nodes_add(seq![AttrView::Child(left)], seq![AttrView::Child(right)]);
    }
}

/// Spans hide nothing from a query, and add nothing to what it finds inside the content.
pub proof fn law_query_spanned(content: ContentView, span: Span, selector: SelectorView)
    ensures
        selected(nodes(content.spanned(span)), selector) == selected(
            seq![content.spanned(span)],
            selector,
        ) + selected(attrs_nodes(content.attrs), selector),
{
    let after = content.spanned(span);
    let attr = AttrView::Span(span);
    assert(content.with(attr).attrs =~= content.attrs + seq![attr]);
    lemma_attrs_nodes_add(content.attrs, seq![attr]);
    lemma_attrs_nodes_add(seq![attr], content.attrs);
    lemma_attrs_nodes_one(attr);
    assert(attrs_nodes(after.attrs) =~= attrs_nodes(content.attrs));
    lemma_selected_add(seq![after], attrs_nodes(content.attrs), selector);
}

/// Exchanging an attribute in which nothing is nested for another such changes nothing.
proof fn lemma_attrs_nodes_update(attrs: Seq<AttrView>, i: int, attr: AttrView)
    requires
        0 <= i < attrs.len(),
        attr_nodes(attrs[i]) == Seq::<ContentView>::empty(),
        attr_nodes(attr) == Seq::<ContentView>::empty(),
    ensures
        attrs_nodes(attrs.update(i, attr)) == attrs_nodes(attrs),
    decreases attrs.len(),
{
    let after = attrs.update(i, attr);
    if i == attrs.len() - 1 {
        assert(after.drop_last() =~= attrs.drop_last());
    } else {
        lemma_attrs_nodes_update(attrs.drop_last(), i, attr);
        assert(after.drop_last() =~= attrs.drop_last().update(i, attr));
    }
}

/// Styles hide nothing from a query: besides the styled element, it finds what it finds in the
/// content, or in the child that was styled before.
pub proof fn law_query_styled(
    content: ContentView,
    styles: Seq<StyleView>,
    selector: SelectorView,
)
    requires
        content.is_styled() ==> content.styles() is Some,
    ensures
        selected(nodes(content.wrapped(styles)), selector) == selected(
            seq![content.wrapped(styles)],
            selector,
        ) + selected(
            if content.is_styled() {
                attrs_nodes(content.attrs)
            } else {
                nodes(content)
            },
            selector,
        ),
{
    let styled = content.wrapped(styles);
    lemma_attrs_nodes_wrapped(content, styles);
    lemma_selected_add(seq![styled], attrs_nodes(styled.attrs), selector);
}

/// What is nested in styled content is the content, or what it held if it was styled before.
proof fn lemma_attrs_nodes_wrapped(content: ContentView, styles: Seq<StyleView>)
    requires
        content.is_styled() ==> content.styles() is Some,
    ensures
        attrs_nodes(content.wrapped(styles).attrs) == (if content.is_styled() {
            attrs_nodes(content.attrs)
        } else {
            nodes(content)
        }),
{
    let styled = content.wrapped(styles);
    if content.is_styled() {
        let i = lemma_find_map_cases(content.attrs, |attr: AttrView| attr.styles());
        lemma_position_is(content.attrs, |attr: AttrView| attr.styles() is Some, i);
        let attr = AttrView::Styles(styles + content.attrs[i]->Styles_0);
        lemma_attrs_nodes_update(content.attrs, i, attr);
    } else {
        let child = AttrView::Child(content);
        let own = AttrView::Styles(styles);
        assert(styled.attrs =~= seq![child] + seq![own]);
        lemma_attrs_nodes_add(seq![child], seq![own]);
        lemma_attrs_nodes_one(child);
        lemma_attrs_nodes_one(own);
        assert(attrs_nodes(styled.attrs) =~= nodes(content));
    }
}

/// Spans, guards, locations and the mark of being prepared hide nothing from a query, and add
/// nothing to what it finds inside the content.
pub proof fn law_query_marks(content: ContentView, attr: AttrView, selector: SelectorView)
    requires
        is_mark(attr),
    ensures
        selected(nodes(content.with(attr)), selector) == selected(
            seq![content.with(attr)],
            selector,
        ) + selected(attrs_nodes(content.attrs), selector),
{
    let after = content.with(attr);
    assert(after.attrs =~= content.attrs + seq![attr]);
    lemma_attrs_nodes_add(content.attrs, seq![attr]);
    lemma_attrs_nodes_one(attr);
    assert(attrs_nodes(after.attrs) =~= attrs_nodes(content.attrs));
    lemma_selected_add(seq![after], attrs_nodes(content.attrs), selector);
}

} // verus!
