//! What holds between the operations on content.

use crate::fields::{
    lemma_field_ref, lemma_fields_push, lemma_fields_push_field, lemma_fields_update,
    lemma_fields_update_other, lemma_paired_add, lemma_paired_push, lemma_paired_push_field,
    lemma_paired_value_update,
};
use crate::model::{
    fields_of, is_field, is_named, value_if, AttrView, ContentView, GuardView, StyleView, ValueView,
};
use crate::place::{Location, Span, DETACHED};
use crate::seqs::{
    lemma_filter_map_add, lemma_filter_map_all, lemma_filter_map_push, lemma_filter_map_update,
    lemma_find_map_add, lemma_find_map_at, lemma_find_map_cases, lemma_find_map_first,
    lemma_find_map_none, lemma_find_map_push, lemma_find_map_update, lemma_position,
    lemma_position_is, position,
};
use vstd::prelude::*;

verus! {

/// Attaching a field keeps every field name next to its value.
pub proof fn law_push_field_wf(content: ContentView, name: Seq<char>, value: ValueView)
    requires
        content.wf(),
    ensures
        content.push_field(name, value).wf(),
{
    lemma_field_ref(content, name);
    let i = content.field_index(name);
    if i < content.attrs.len() {
        lemma_paired_value_update(content.attrs, i, value);
    } else {
        lemma_paired_push_field(content.attrs, name, value);
    }
}

/// A field that was attached reads back.
pub proof fn law_push_field_reads_back(content: ContentView, name: Seq<char>, value: ValueView)
    requires
        content.wf(),
    ensures
        content.push_field(name, value).field_ref(name) == Some(value),
{
    law_push_field_wf(content, name, value);
    lemma_push_field_index(content, name, value, name);
    lemma_field_ref(content, name);
    lemma_field_ref(content.push_field(name, value), name);
}

/// Attaching a field moves no name.
proof fn lemma_push_field_index(
    content: ContentView,
    name: Seq<char>,
    value: ValueView,
    other: Seq<char>,
)
    requires
        content.wf(),
    ensures
        ({
            let after = content.push_field(name, value);
            let i = content.field_index(other);
            if i < content.attrs.len() {
                after.field_index(other) == i
            } else if other == name {
                after.field_index(other) == content.attrs.len()
            } else {
                after.field_index(other) == after.attrs.len()
            }
        }),
{
    let after = content.push_field(name, value);
    let pred = is_field(other);
    let i = content.field_index(other);
    let k = content.field_index(name);
    lemma_position(content.attrs, pred);
    lemma_field_ref(content, name);
    lemma_field_ref(content, other);
    assert forall|j: int| 0 <= j < i implies !pred(#[trigger] after.attrs[j]) by {
        assert(!pred(content.attrs[j]));
    }
    if i < content.attrs.len() {
        lemma_position_is(after.attrs, pred, i);
    } else if k < content.attrs.len() {
        lemma_position_is(after.attrs, pred, after.attrs.len() as int);
    } else if other == name {
        lemma_position_is(after.attrs, pred, content.attrs.len() as int);
    } else {
        lemma_position_is(after.attrs, pred, after.attrs.len() as int);
    }
}

/// Attaching a field leaves fields with other names as they were.
pub proof fn law_push_field_others(
    content: ContentView,
    name: Seq<char>,
    value: ValueView,
    other: Seq<char>,
)
    requires
        content.wf(),
        other != name,
    ensures
        content.push_field(name, value).field_ref(other) == content.field_ref(other),
{
    let after = content.push_field(name, value);
    law_push_field_wf(content, name, value);
    lemma_push_field_index(content, name, value, other);
    lemma_field_ref(content, name);
    lemma_field_ref(content, other);
    lemma_field_ref(after, other);
}

/// Attaching a field replaces the value of the first field of that name, or adds a field at the
/// end; the other fields stay as they were, in the same order.
pub proof fn law_push_field_fields(content: ContentView, name: Seq<char>, value: ValueView)
    requires
        content.wf(),
    ensures
        ({
            let k = position(content.fields(), is_named(name));
            content.push_field(name, value).fields() == (if k < content.fields().len() {
                content.fields().update(k, (name, value))
            } else {
                content.fields().push((name, value))
            })
        }),
{
    let fields = content.fields();
    lemma_field_ref(content, name);
    lemma_position(fields, is_named(name));
    if content.field_index(name) < content.attrs.len() {
        lemma_fields_update(content.attrs, name, value);
    } else {
        lemma_fields_push_field(content.attrs, name, value);
        let k = position(fields, is_named(name));
        if k < fields.len() {
            let f = value_if(name);
            lemma_find_map_cases(fields, f);
            assert(f(fields[k]) is Some);
        }
    }
}

/// Of two values that were attached to one field, the last counts.
pub proof fn law_push_field_last_counts(
    content: ContentView,
    name: Seq<char>,
    first: ValueView,
    second: ValueView,
)
    requires
        content.wf(),
    ensures
        content.push_field(name, first).push_field(name, second) == content.push_field(
            name,
            second,
        ),
{
    lemma_push_field_index(content, name, first, name);
    lemma_field_ref(content, name);
    assert(content.push_field(name, first).push_field(name, second).attrs
        =~= content.push_field(name, second).attrs);
}

/// A field that was attached reads back through every access. This leaves out the fields
/// `children` of a sequence and `child` of a styled element: they are synthesized.
pub proof fn law_push_field_is_accessible(content: ContentView, name: Seq<char>, value: ValueView)
    requires
        content.wf(),
        !(content.is_sequence() && name == "children"@),
        !(content.to_styled() is Some && name == "child"@),
    ensures
        content.push_field(name, value).field(name) == Some(value),
{
    law_push_field_reads_back(content, name, value);
    law_push_field_keeps_the_rest(content, name, value);
}

/// A field access is answered by the synthesized field if it goes by that name, and by the
/// attached field otherwise.
pub proof fn law_field(content: ContentView, name: Seq<char>)
    ensures
        content.field(name) == (match content.synthesized() {
            Some((own, value)) if name == own => Some(value),
            _ => content.field_ref(name),
        }),
{
}

/// Content that was just styled has the field `child`, which holds the content, and no other.
pub proof fn law_styled_field(content: ContentView, styles: Seq<StyleView>, name: Seq<char>)
    requires
        !content.is_styled(),
    ensures
        content.wrapped(styles).field(name) == (if name == "child"@ {
            Some(ValueView::Content(content))
        } else {
            None
        }),
{
    let styled = content.wrapped(styles);
    law_styled(content, styles);
    reveal_with_fuel(fields_of, 3);
    assert(styled.fields() =~= seq![]);
    lemma_find_map_none(styled.fields(), value_if(name));
}

/// Attaching a field leaves all that is attached besides fields as it was.
pub proof fn law_push_field_keeps_the_rest(content: ContentView, name: Seq<char>, value: ValueView)
    requires
        content.wf(),
    ensures
        ({
            let after = content.push_field(name, value);
            &&& after.func == content.func
            &&& after.children() == content.children()
            &&& after.to_styled() == content.to_styled()
            &&& after.span() == content.span()
            &&& after.location() == content.location()
            &&& after.is_prepared() == content.is_prepared()
            &&& after.is_pristine() == content.is_pristine()
            &&& forall|guard: GuardView| #[trigger]
                after.attrs.contains(AttrView::Guard(guard)) == content.attrs.contains(
                    AttrView::Guard(guard),
                )
        }),
{
    let child = |attr: AttrView| attr.child();
    let styles = |attr: AttrView| attr.styles();
    let span = |attr: AttrView| attr.span();
    let location = |attr: AttrView| attr.location();
    let i = content.field_index(name);
    let attrs = content.attrs;
    let after = content.push_field(name, value);
    lemma_field_ref(content, name);
    if i < attrs.len() {
        let attr = AttrView::Value(value);
        lemma_filter_map_update(attrs, child, i + 1, attr);
        lemma_find_map_update(attrs, child, i + 1, attr);
        lemma_find_map_update(attrs, styles, i + 1, attr);
        lemma_find_map_update(attrs, span, i + 1, attr);
        lemma_find_map_update(attrs, location, i + 1, attr);
        assert(after.is_prepared() == content.is_prepared()) by {
            if content.is_prepared() {
                let k = choose|k: int| 0 <= k < attrs.len() && attrs[k] == AttrView::Prepared;
                assert(after.attrs[k] == AttrView::Prepared);
            }
        }
        assert(after.is_pristine() == content.is_pristine()) by {
            assert forall|j: int| 0 <= j < attrs.len() implies (#[trigger] attrs[j] is Guard
                <==> after.attrs[j] is Guard) by {
            }
        }
        assert forall|guard: GuardView| #[trigger]
            after.attrs.contains(AttrView::Guard(guard)) == attrs.contains(
                AttrView::Guard(guard),
            ) by {
            if attrs.contains(AttrView::Guard(guard)) {
                let k = choose|k: int| 0 <= k < attrs.len() && attrs[k] == AttrView::Guard(guard);
                assert(after.attrs[k] == AttrView::Guard(guard));
            }
        }
    } else {
        lemma_attach_plain(content, AttrView::Field(name));
        lemma_attach_plain(content.with(AttrView::Field(name)), AttrView::Value(value));
    }
}

/// A field name or value at the end leaves all that is attached besides fields as it was.
proof fn lemma_attach_plain(content: ContentView, attr: AttrView)
    requires
        attr is Field || attr is Value,
    ensures
        content.with(attr).children() == content.children(),
        content.with(attr).to_styled() == content.to_styled(),
        content.with(attr).span() == content.span(),
        content.with(attr).location() == content.location(),
        content.with(attr).is_prepared() == content.is_prepared(),
        content.with(attr).is_pristine() == content.is_pristine(),
        forall|guard: GuardView| #[trigger]
            content.with(attr).attrs.contains(AttrView::Guard(guard)) == content.attrs.contains(
                AttrView::Guard(guard),
            ),
{
    lemma_filter_map_push(content.attrs, |attr: AttrView| attr.child(), attr);
    lemma_find_map_push(content.attrs, |attr: AttrView| attr.child(), attr);
    lemma_find_map_push(content.attrs, |attr: AttrView| attr.styles(), attr);
    lemma_find_map_push(content.attrs, |attr: AttrView| attr.span(), attr);
    lemma_find_map_push(content.attrs, |attr: AttrView| attr.location(), attr);
    lemma_with_flags(content, attr);
}

/// What one more attribute does to the marks on content.
pub(crate) proof fn lemma_with_flags(content: ContentView, attr: AttrView)
    ensures
        content.with(attr).is_prepared() == (content.is_prepared() || attr is Prepared),
        content.with(attr).is_pristine() == (content.is_pristine() && !(attr is Guard)),
        forall|guard: GuardView| #[trigger]
            content.with(attr).attrs.contains(AttrView::Guard(guard)) == (content.attrs.contains(
                AttrView::Guard(guard),
            ) || attr == AttrView::Guard(guard)),
{
    let after = content.with(attr);
    assert(after.attrs.last() == attr);
    assert(forall|i: int| 0 <= i < content.attrs.len() ==> after.attrs[i] == content.attrs[i]);
    assert forall|a: AttrView| #[trigger] after.attrs.contains(a) == (content.attrs.contains(a)
        || attr == a) by {
        if content.attrs.contains(a) {
            let k = choose|k: int| 0 <= k < content.attrs.len() && content.attrs[k] == a;
            assert(after.attrs[k] == a);
        }
        if attr == a {
            assert(after.attrs[content.attrs.len() as int] == a);
        }
    }
    if after.is_pristine() {
        assert forall|i: int| 0 <= i < content.attrs.len() implies !(
        #[trigger] content.attrs[i] is Guard) by {
            assert(!(after.attrs[i] is Guard));
        }
    }
}

/// Content that has no span gets the one that is attached, and content that has one keeps it.
pub proof fn law_spanned(content: ContentView, span: Span)
    ensures
        content.spanned(span).span() == (if content.span().number == DETACHED {
            span
        } else {
            content.span()
        }),
{
    let attr = AttrView::Span(span);
    lemma_find_map_push(content.attrs, |attr: AttrView| attr.span(), attr);
    lemma_find_map_at(content.with_first(attr).attrs, |attr: AttrView| attr.span(), 0);
}

/// Attaching a span leaves all else that is attached as it was.
pub proof fn law_spanned_keeps_the_rest(content: ContentView, span: Span)
    requires
        content.wf(),
    ensures
        ({
            let after = content.spanned(span);
            &&& after.wf()
            &&& after.func == content.func
            &&& after.fields() == content.fields()
            &&& after.children() == content.children()
            &&& after.to_styled() == content.to_styled()
            &&& after.location() == content.location()
            &&& after.is_prepared() == content.is_prepared()
            &&& after.is_pristine() == content.is_pristine()
            &&& forall|guard: GuardView| #[trigger]
                after.attrs.contains(AttrView::Guard(guard)) == content.attrs.contains(
                    AttrView::Guard(guard),
                )
        }),
{
    let attr = AttrView::Span(span);
    law_marks_keep_the_rest(content, attr);
    lemma_first_mark(content, attr);
}

/// A mark before the other attributes leaves them as they were.
proof fn lemma_first_mark(content: ContentView, attr: AttrView)
    requires
        content.wf(),
        attr is Span,
    ensures
        ({
            let after = content.with_first(attr);
            &&& after.wf()
            &&& after.fields() == content.fields()
            &&& after.children() == content.children()
            &&& after.to_styled() == content.to_styled()
            &&& after.location() == content.location()
            &&& forall|a: AttrView| #[trigger]
                after.attrs.contains(a) == (content.attrs.contains(a) || attr == a)
            &&& after.is_pristine() == content.is_pristine()
        }),
{
    let after = content.with_first(attr);
    let child = |attr: AttrView| attr.child();
    assert(after.attrs.drop_first() =~= content.attrs);
    lemma_paired_add(seq![attr], content.attrs);
    lemma_filter_map_add(seq![attr], content.attrs, child);
    lemma_filter_map_push(seq![], child, attr);
    assert(Seq::<AttrView>::empty().push(attr) =~= seq![attr]);
    assert(Seq::<AttrView>::empty().filter_map(child) =~= seq![]) by {
        reveal(Seq::filter_map);
    }
    assert(after.children() =~= content.children());
    lemma_find_map_first(after.attrs, child);
    lemma_find_map_first(after.attrs, |attr: AttrView| attr.styles());
    lemma_find_map_first(after.attrs, |attr: AttrView| attr.location());
    assert forall|a: AttrView| #[trigger] after.attrs.contains(a) == (content.attrs.contains(a)
        || attr == a) by {
        assert(after.attrs[0] == attr);
        if content.attrs.contains(a) {
            let k = choose|k: int| 0 <= k < content.attrs.len() && content.attrs[k] == a;
            assert(after.attrs[k + 1] == a);
        }
    }
    law_pristine(content);
    law_pristine(after);
}

/// The span of a sum is that of its first part that brings one. Only sequences bring theirs.
pub proof fn law_concat_span(left: ContentView, right: ContentView)
    ensures
        left.concat(right).first_span() == (if left.is_sequence() && left.first_span() is Some {
            left.first_span()
        } else if right.is_sequence() {
            right.first_span()
        } else {
            None
        }),
{
    let span = |attr: AttrView| attr.span();
    if left.is_sequence() && right.is_sequence() {
        lemma_find_map_add(left.attrs, right.attrs, span);
    } else if left.is_sequence() {
        lemma_find_map_push(left.attrs, span, AttrView::Child(right));
    } else if right.is_sequence() {
        let sum = left.concat(right).attrs;
        assert(sum.drop_first() =~= right.attrs);
        lemma_find_map_first(sum, span);
    } else {
        lemma_find_map_none(left.concat(right).attrs, span);
    }
}

/// Content that has a span takes no other.
pub proof fn law_spanned_once(content: ContentView, span: Span)
    requires
        content.span().number != DETACHED,
    ensures
        content.spanned(span) == content,
{
}

/// A label that was attached is the label, and what the field `label` holds.
pub proof fn law_labelled(content: ContentView, label: Seq<char>)
    requires
        content.wf(),
    ensures
        content.push_field("label"@, ValueView::Label(label)).label() == Some(label),
        content.push_field("label"@, ValueView::Label(label)).field("label"@) == Some(
            ValueView::Label(label),
        ),
{
    reveal_strlit("label");
    reveal_strlit("child");
    reveal_strlit("children");
    assert("label"@[0] != "child"@[0]);
    assert("label"@[0] != "children"@[0]);
    law_push_field_reads_back(content, "label"@, ValueView::Label(label));
    law_push_field_is_accessible(content, "label"@, ValueView::Label(label));
}

/// Guarding content disables the recipe, leaves other recipes as they were, and ends its being
/// pristine.
pub proof fn law_guarded(content: ContentView, guard: GuardView)
    ensures
        content.with(AttrView::Guard(guard)).attrs.contains(AttrView::Guard(guard)),
        forall|other: GuardView|
            other != guard ==> #[trigger] content.with(AttrView::Guard(guard)).attrs.contains(
                AttrView::Guard(other),
            ) == content.attrs.contains(AttrView::Guard(other)),
        !content.with(AttrView::Guard(guard)).is_pristine(),
{
    lemma_with_flags(content, AttrView::Guard(guard));
}

/// Content is pristine exactly if it is guarded against nothing.
pub proof fn law_pristine(content: ContentView)
    ensures
        content.is_pristine() <==> (forall|guard: GuardView|
            !#[trigger] content.attrs.contains(AttrView::Guard(guard))),
{
    if forall|guard: GuardView| !#[trigger] content.attrs.contains(AttrView::Guard(guard)) {
        assert forall|i: int| 0 <= i < content.attrs.len() implies !(
        #[trigger] content.attrs[i] is Guard) by {
            if content.attrs[i] is Guard {
                let guard = content.attrs[i]->Guard_0;
                assert(content.attrs[i] == AttrView::Guard(guard));
                assert(content.attrs.contains(AttrView::Guard(guard)));
            }
        }
    }
}

/// Content that was marked as prepared is prepared, and needs no preparation.
pub proof fn law_prepared(content: ContentView)
    ensures
        content.with(AttrView::Prepared).is_prepared(),
        !content.with(AttrView::Prepared).needs_preparation(),
{
    lemma_with_flags(content, AttrView::Prepared);
}

/// The first location that is attached is the location, and stays it.
pub proof fn law_located(content: ContentView, location: Location)
    ensures
        content.with(AttrView::Location(location)).location() == (match content.location() {
            Some(first) => Some(first),
            None => Some(location),
        }),
{
    lemma_find_map_push(
        content.attrs,
        |attr: AttrView| attr.location(),
        AttrView::Location(location),
    );
}

/// Whether an attribute says something about the content without being part of it.
pub open spec fn is_mark(attr: AttrView) -> bool {
    attr is Span || attr is Prepared || attr is Guard || attr is Location
}

/// Marks leave the fields, the children and the styles as they were, and none of them changes
/// what the others say.
pub proof fn law_marks_keep_the_rest(content: ContentView, attr: AttrView)
    requires
        content.wf(),
        is_mark(attr),
    ensures
        ({
            let after = content.with(attr);
            &&& after.wf()
            &&& after.fields() == content.fields()
            &&& after.children() == content.children()
            &&& after.to_styled() == content.to_styled()
            &&& !(attr is Span) ==> after.span() == content.span()
            &&& !(attr is Location) ==> after.location() == content.location()
            &&& !(attr is Prepared) ==> after.is_prepared() == content.is_prepared()
            &&& !(attr is Guard) ==> after.is_pristine() == content.is_pristine()
            &&& forall|guard: GuardView|
                attr != AttrView::Guard(guard) ==> #[trigger] after.attrs.contains(
                    AttrView::Guard(guard),
                ) == content.attrs.contains(AttrView::Guard(guard))
        }),
{
    lemma_paired_push(content.attrs, attr);
    lemma_fields_push(content.attrs, attr);
    lemma_filter_map_push(content.attrs, |attr: AttrView| attr.child(), attr);
    lemma_find_map_push(content.attrs, |attr: AttrView| attr.child(), attr);
    lemma_find_map_push(content.attrs, |attr: AttrView| attr.styles(), attr);
    lemma_find_map_push(content.attrs, |attr: AttrView| attr.span(), attr);
    lemma_find_map_push(content.attrs, |attr: AttrView| attr.location(), attr);
    lemma_with_flags(content, attr);
}

/// Styling content that is not styled makes a styled element of it: its child is the content,
/// and its styles are the given ones.
pub proof fn law_styled(content: ContentView, styles: Seq<StyleView>)
    requires
        !content.is_styled(),
    ensures
        content.wrapped(styles).to_styled() == Some((content, styles)),
{
    let attrs = content.wrapped(styles).attrs;
    lemma_find_map_at(attrs, |attr: AttrView| attr.child(), 0);
    lemma_find_map_at(attrs, |attr: AttrView| attr.styles(), 1);
}

/// Styling a styled element keeps its child, and adds the given styles around its own.
pub proof fn law_styled_again(content: ContentView, styles: Seq<StyleView>)
    requires
        content.to_styled() is Some,
    ensures
        content.to_styled() matches Some((child, inner)) && content.wrapped(styles).to_styled()
            == Some((child, styles + inner)),
{
    let child = |attr: AttrView| attr.child();
    let own = |attr: AttrView| attr.styles();
    let i = lemma_find_map_cases(content.attrs, own);
    lemma_position_is(content.attrs, |attr: AttrView| attr.styles() is Some, i);
    let attr = AttrView::Styles(styles + content.attrs[i]->Styles_0);
    let after = content.wrapped(styles).attrs;
    assert(after == content.attrs.update(i, attr));
    lemma_find_map_update(content.attrs, child, i, attr);
    assert forall|j: int| 0 <= j < i implies own(#[trigger] after[j]) is None by {
        assert(own(content.attrs[j]) is None);
    }
    lemma_find_map_at(after, own, i);
}

/// Styling a styled element leaves all that is attached besides the styles as it was.
pub proof fn law_styled_again_keeps_the_rest(content: ContentView, styles: Seq<StyleView>)
    requires
        content.is_styled(),
        content.styles() is Some,
    ensures
        ({
            let after = content.wrapped(styles);
            &&& after.func == content.func
            &&& after.fields() == content.fields()
            &&& after.children() == content.children()
            &&& after.to_styled() is Some == content.to_styled() is Some
            &&& after.span() == content.span()
            &&& after.location() == content.location()
            &&& after.is_prepared() == content.is_prepared()
            &&& after.is_pristine() == content.is_pristine()
            &&& forall|guard: GuardView| #[trigger]
                after.attrs.contains(AttrView::Guard(guard)) == content.attrs.contains(
                    AttrView::Guard(guard),
                )
        }),
{
    let attrs = content.attrs;
    let child = |attr: AttrView| attr.child();
    let own = |attr: AttrView| attr.styles();
    let i = lemma_find_map_cases(attrs, own);
    lemma_position_is(attrs, |attr: AttrView| attr.styles() is Some, i);
    let attr = AttrView::Styles(styles + attrs[i]->Styles_0);
    let after = content.wrapped(styles);
    assert(after.attrs == attrs.update(i, attr));
    lemma_fields_update_other(attrs, i, attr);
    lemma_filter_map_update(attrs, child, i, attr);
    lemma_find_map_update(attrs, child, i, attr);
    lemma_find_map_update(attrs, |attr: AttrView| attr.span(), i, attr);
    lemma_find_map_update(attrs, |attr: AttrView| attr.location(), i, attr);
    assert forall|j: int| 0 <= j < i implies own(#[trigger] after.attrs[j]) is None by {
        assert(own(attrs[j]) is None);
    }
    lemma_find_map_at(after.attrs, own, i);
    assert forall|a: AttrView| !(a is Styles) implies #[trigger] after.attrs.contains(a)
        == attrs.contains(a) by {
        if attrs.contains(a) {
            let k = choose|k: int| 0 <= k < attrs.len() && attrs[k] == a;
            assert(after.attrs[k] == a);
        }
    }
    assert(after.is_pristine() == content.is_pristine()) by {
        assert forall|j: int| 0 <= j < attrs.len() implies (#[trigger] attrs[j] is Guard
            <==> after.attrs[j] is Guard) by {
        }
    }
}

/// Styling twice nests no deeper than styling once: the styles that come later are around those
/// that came first.
pub proof fn law_styled_twice(content: ContentView, first: Seq<StyleView>, second: Seq<StyleView>)
    requires
        content.is_styled() ==> content.styles() is Some,
    ensures
        content.wrapped(first).wrapped(second) == content.wrapped(second + first),
{
    let once = content.wrapped(first);
    let pred = |attr: AttrView| attr.styles() is Some;
    if content.is_styled() {
        let i = lemma_find_map_cases(content.attrs, |attr: AttrView| attr.styles());
        lemma_position_is(content.attrs, pred, i);
        assert forall|j: int| 0 <= j < i implies !pred(#[trigger] once.attrs[j]) by {
            assert(content.attrs[j].styles() is None);
        }
        lemma_position_is(once.attrs, pred, i);
        let inner = content.attrs[i]->Styles_0;
        assert(second + (first + inner) =~= (second + first) + inner);
        assert(once.wrapped(second).attrs =~= content.wrapped(second + first).attrs);
    } else {
        lemma_position_is(once.attrs, pred, 1);
        assert(once.wrapped(second).attrs =~= content.wrapped(second + first).attrs);
    }
}

/// What content contributes to a sequence: its children if it is one, else itself.
pub open spec fn parts(content: ContentView) -> Seq<ContentView> {
    if content.is_sequence() {
        content.children()
    } else {
        seq![content]
    }
}

/// Content in a row is a sequence of just that content, unless there is only one.
pub proof fn law_sequence(items: Seq<ContentView>)
    ensures
        items.len() != 1 ==> ContentView::sequence(items).is_sequence() && ContentView::sequence(
            items,
        ).children() == items,
        items.len() == 1 ==> ContentView::sequence(items) == items[0],
        items.len() == 0 ==> ContentView::sequence(items) == ContentView::empty(),
{
    if items.len() != 1 {
        lemma_filter_map_all(
            ContentView::sequence(items).attrs,
            |attr: AttrView| attr.child(),
            items,
        );
    }
    if items.len() == 0 {
        assert(ContentView::sequence(items).attrs =~= ContentView::empty().attrs);
    }
}

/// A sum is a sequence: the parts of the left one, and then those of the right one.
pub proof fn law_concat(left: ContentView, right: ContentView)
    ensures
        left.concat(right).is_sequence(),
        left.concat(right).children() == parts(left) + parts(right),
{
    let child = |attr: AttrView| attr.child();
    if left.is_sequence() && right.is_sequence() {
        lemma_filter_map_add(left.attrs, right.attrs, child);
    } else if left.is_sequence() {
        lemma_filter_map_push(left.attrs, child, AttrView::Child(right));
        assert(left.concat(right).children() =~= parts(left) + parts(right));
    } else if right.is_sequence() {
        let head = seq![AttrView::Child(left)];
        lemma_filter_map_add(head, right.attrs, child);
        lemma_filter_map_all(head, child, seq![left]);
    } else {
        law_sequence(seq![left, right]);
        assert(parts(left) + parts(right) =~= seq![left, right]);
    }
}

/// Repeating content gives a sequence of that many copies; once, it gives the content itself.
pub proof fn law_repeat(content: ContentView, n: nat)
    ensures
        n == 1 ==> ContentView::sequence(Seq::new(n, |i: int| content)) == content,
        n != 1 ==> ({
            let repeated = ContentView::sequence(Seq::new(n, |i: int| content));
            &&& repeated.is_sequence()
            &&& repeated.children().len() == n
            &&& forall|i: int| 0 <= i < n ==> #[trigger] repeated.children()[i] == content
        }),
{
    law_sequence(Seq::new(n, |i: int| content));
}

} // verus!
