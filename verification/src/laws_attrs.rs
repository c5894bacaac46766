//! What content says, attribute by attribute.
//!
//! All content is made of an element without attributes by attaching one attribute after another.
//! So what is said here of an element without attributes, and of one more attribute, settles what
//! all content says.

use crate::elem::{ElemId, FuncView};
use crate::fields::{
    lemma_fields_push, lemma_fields_push_field, lemma_paired_add, lemma_paired_drop_first,
    lemma_paired_push, lemma_paired_push_field, lemma_paired_skip_field,
};
use crate::laws::{law_concat, law_sequence, lemma_with_flags};
use crate::model::{
    fields_of, is_field, linked, paired, value_if, AttrView, ContentView, GuardView, StyleView,
    ValueView,
};
use crate::place::Span;
use crate::seqs::{
    find_map, lemma_filter_map_push, lemma_find_map_add, lemma_find_map_at, lemma_find_map_cases,
    lemma_find_map_none, lemma_find_map_push, lemma_position_is,
};
use vstd::prelude::*;

verus! {

/// An element without attributes has no children, styles, fields, span, location, marks or label.
pub proof fn law_new(func: FuncView)
    ensures
        ({
            let content = ContentView::new(func);
            &&& content.func == func
            &&& content.attrs.len() == 0
            &&& content.wf()
            &&& content.children().len() == 0
            &&& content.styles() is None
            &&& content.to_styled() is None
            &&& content.fields().len() == 0
            &&& content.first_span() is None
            &&& content.span() == (Span { number: 1 })
            &&& content.location() is None
            &&& content.label() is None
            &&& !content.is_prepared()
            &&& content.is_pristine()
            &&& forall|name: Seq<char>| #[trigger] content.field_ref(name) is None
        }),
{
    let content = ContentView::new(func);
    reveal(Seq::filter_map);
    assert forall|name: Seq<char>| #[trigger] content.field_ref(name) is None by {
        lemma_find_map_none(content.fields(), value_if(name));
    }
}

/// One more attribute comes last, and adds just what it stands for: a child is one more child,
/// styles, a span and a location count if they are the first, and the marks are set by the
/// attributes that say so.
pub proof fn law_with(content: ContentView, attr: AttrView)
    ensures
        ({
            let after = content.with(attr);
            &&& after.func == content.func
            &&& after.attrs == content.attrs.push(attr)
            &&& after.children() == (match attr {
                AttrView::Child(child) => content.children().push(child),
                _ => content.children(),
            })
            &&& after.styles() == (match (content.styles(), attr) {
                (None, AttrView::Styles(styles)) => Some(styles),
                (first, _) => first,
            })
            &&& after.first_span() == (match (content.first_span(), attr) {
                (None, AttrView::Span(span)) => Some(span),
                (first, _) => first,
            })
            &&& after.location() == (match (content.location(), attr) {
                (None, AttrView::Location(location)) => Some(location),
                (first, _) => first,
            })
            &&& after.is_prepared() <==> content.is_prepared() || attr is Prepared
            &&& after.is_pristine() <==> content.is_pristine() && !(attr is Guard)
        }),
{
    let after = content.with(attr);
    lemma_filter_map_push(content.attrs, |attr: AttrView| attr.child(), attr);
    lemma_find_map_push(content.attrs, |attr: AttrView| attr.styles(), attr);
    lemma_find_map_push(content.attrs, |attr: AttrView| attr.span(), attr);
    lemma_find_map_push(content.attrs, |attr: AttrView| attr.location(), attr);
    lemma_with_flags(content, attr);
}

/// The span of content is the first that was attached, and points nowhere if there is none.
pub proof fn law_span(content: ContentView)
    ensures
        content.first_span() matches Some(span) ==> content.span() == span,
        content.first_span() is None ==> content.span() == (Span { number: 1 }),
{
}

/// An attribute that is no part of a field leaves the fields as they were.
pub proof fn law_with_keeps_fields(content: ContentView, attr: AttrView)
    requires
        content.wf(),
        !(attr is Field),
        !(attr is Value),
    ensures
        content.with(attr).wf(),
        content.with(attr).fields() == content.fields(),
{
    lemma_paired_push(content.attrs, attr);
    lemma_fields_push(content.attrs, attr);
}

/// A name and a value that are attached one after the other are one more field.
pub proof fn law_with_field(content: ContentView, name: Seq<char>, value: ValueView)
    requires
        content.wf(),
    ensures
        content.with(AttrView::Field(name)).with(AttrView::Value(value)).wf(),
        content.with(AttrView::Field(name)).with(AttrView::Value(value)).fields()
            == content.fields().push((name, value)),
{
    lemma_paired_push_field(content.attrs, name, value);
    lemma_fields_push_field(content.attrs, name, value);
}

/// Content is in order exactly if a value stands after every field name and nowhere else.
pub proof fn law_wf(content: ContentView)
    ensures
        content.wf() <==> {
            &&& content.attrs.len() > 0 ==> !(content.attrs.first() is Value)
            &&& content.attrs.len() > 0 ==> !(content.attrs.last() is Field)
            &&& forall|i: int, j: int|
                0 <= i < content.attrs.len() && j == i + 1 && j < content.attrs.len() ==> (
                #[trigger] content.attrs[i] is Field <==> #[trigger] content.attrs[j] is Value)
        },
{
    let attrs = content.attrs;
    if content.wf() {
        assert forall|i: int, j: int|
            0 <= i < attrs.len() && j == i + 1 && j < attrs.len() implies (
        #[trigger] attrs[i] is Field <==> #[trigger] attrs[j] is Value) by {
            assert(linked(attrs, i));
        }
    }
    if forall|i: int, j: int|
        0 <= i < attrs.len() && j == i + 1 && j < attrs.len() ==> (#[trigger] attrs[i] is Field
            <==> #[trigger] attrs[j] is Value) {
        assert forall|i: int| 0 <= i < attrs.len() - 1 implies #[trigger] linked(attrs, i) by {
            assert(attrs[i] is Field <==> attrs[i + 1] is Value);
        }
    }
}

/// The first child that is found is the first of all children.
proof fn lemma_first_child(attrs: Seq<AttrView>)
    ensures
        ({
            let child = |attr: AttrView| attr.child();
            find_map(attrs, child) == (if attrs.filter_map(child).len() > 0 {
                Some(attrs.filter_map(child)[0])
            } else {
                None
            })
        }),
    decreases attrs.len(),
{
    let child = |attr: AttrView| attr.child();
    if attrs.len() == 0 {
        reveal(Seq::filter_map);
        lemma_find_map_none(attrs, child);
    } else {
        let rest = attrs.drop_last();
        lemma_first_child(rest);
        assert(rest.push(attrs.last()) =~= attrs);
        lemma_filter_map_push(rest, child, attrs.last());
        lemma_find_map_push(rest, child, attrs.last());
    }
}

/// A styled element gives access to its first child and its styles exactly if it has both; no
/// other element does.
pub proof fn law_to_styled(content: ContentView)
    ensures
        content.to_styled() is Some <==> content.func.id == ElemId::Styled
            && content.children().len() > 0 && content.styles() is Some,
        content.to_styled() matches Some((child, styles)) ==> child == content.children()[0]
            && content.styles() == Some(styles),
{
    lemma_first_child(content.attrs);
}

/// An element is a sequence or styled exactly if its function says so, and never both.
pub proof fn law_kind(content: ContentView)
    ensures
        content.is_sequence() <==> content.func.id == ElemId::Sequence,
        content.is_styled() <==> content.func.id == ElemId::Styled,
        !(content.is_sequence() && content.is_styled()),
{
}

/// Content is prepared exactly if some attribute says so.
pub proof fn law_is_prepared(content: ContentView)
    ensures
        content.is_prepared() <==> exists|i: int|
            0 <= i < content.attrs.len() && #[trigger] content.attrs[i] is Prepared,
{
    if content.is_prepared() {
        let k = choose|k: int|
            0 <= k < content.attrs.len() && content.attrs[k] == AttrView::Prepared;
        assert(content.attrs[k] is Prepared);
    }
    if exists|i: int| 0 <= i < content.attrs.len() && #[trigger] content.attrs[i] is Prepared {
        let i = choose|i: int|
            0 <= i < content.attrs.len() && #[trigger] content.attrs[i] is Prepared;
        assert(content.attrs[i] == AttrView::Prepared);
    }
}

/// Empty content is a sequence with nothing in it.
pub proof fn law_empty()
    ensures
        ContentView::empty().func.id == ElemId::Sequence,
        ContentView::empty().func.name == "sequence"@,
        ContentView::empty().func.vtable.len() == 0,
        ContentView::empty().attrs.len() == 0,
        ContentView::empty().children().len() == 0,
{
    reveal(Seq::filter_map);
}

/// Content in a row has its parts as children and nothing else: no fields, styles, span, location
/// or marks.
pub proof fn law_sequence_is_plain(items: Seq<ContentView>)
    requires
        items.len() != 1,
    ensures
        ({
            let row = ContentView::sequence(items);
            &&& row.func.id == ElemId::Sequence
            &&& row.wf()
            &&& row.children() == items
            &&& row.attrs.len() == items.len()
            &&& row.fields().len() == 0
            &&& row.styles() is None
            &&& row.first_span() is None
            &&& row.location() is None
            &&& !row.is_prepared()
            &&& row.is_pristine()
        }),
{
    let row = ContentView::sequence(items);
    law_sequence(items);
    lemma_no_fields(row.attrs);
    lemma_find_map_none(row.attrs, |attr: AttrView| attr.styles());
    lemma_find_map_none(row.attrs, |attr: AttrView| attr.span());
    lemma_find_map_none(row.attrs, |attr: AttrView| attr.location());
    assert forall|i: int| 0 <= i < row.attrs.len() - 1 implies #[trigger] linked(row.attrs, i) by {
    }
}

/// Without field names there are no fields.
proof fn lemma_no_fields(attrs: Seq<AttrView>)
    requires
        forall|i: int| 0 <= i < attrs.len() ==> !(#[trigger] attrs[i] is Field),
    ensures
        fields_of(attrs).len() == 0,
    decreases attrs.len(),
{
    if attrs.len() > 0 {
        let rest = attrs.drop_first();
        assert forall|i: int| 0 <= i < rest.len() implies !(#[trigger] rest[i] is Field) by {
            assert(rest[i] == attrs[i + 1]);
        }
        lemma_no_fields(rest);
    }
}

/// A list of fields after another.
proof fn lemma_fields_add(left: Seq<AttrView>, right: Seq<AttrView>)
    requires
        paired(left),
    ensures
        fields_of(left + right) == fields_of(left)
            + fields_of(right),
    decreases left.len(),
{
    let sum = left + right;
    if left.len() == 0 {
        assert(sum =~= right);
        assert(fields_of(left) + fields_of(right)
            =~= fields_of(right));
    } else if left[0] is Field {
        lemma_paired_skip_field(left);
        lemma_fields_add(left.skip(2), right);
        assert(sum.skip(2) =~= left.skip(2) + right);
        assert(fields_of(sum) =~= fields_of(left)
            + fields_of(right));
    } else {
        lemma_paired_drop_first(left);
        lemma_fields_add(left.drop_first(), right);
        assert(sum.drop_first() =~= left.drop_first() + right);
    }
}

/// A sum is a sequence. Sequences bring all that is attached to them, in order; other content
/// brings itself, as a child.
pub proof fn law_concat_brings(left: ContentView, right: ContentView)
    requires
        left.wf(),
        right.wf(),
    ensures
        ({
            let sum = left.concat(right);
            let l = left.func.id == ElemId::Sequence;
            let r = right.func.id == ElemId::Sequence;
            let none = Seq::<(Seq<char>, ValueView)>::empty();
            &&& sum.func.id == ElemId::Sequence
            &&& sum.wf()
            &&& sum.children() == (if l {
                left.children()
            } else {
                seq![left]
            }) + (if r {
                right.children()
            } else {
                seq![right]
            })
            &&& sum.fields() == (if l {
                left.fields()
            } else {
                none
            }) + (if r {
                right.fields()
            } else {
                none
            })
            &&& sum.location() == (if l && left.location() is Some {
                left.location()
            } else if r {
                right.location()
            } else {
                None
            })
            &&& sum.is_prepared() <==> (l && left.is_prepared()) || (r && right.is_prepared())
            &&& forall|guard: GuardView| #[trigger]
                sum.attrs.contains(AttrView::Guard(guard)) <==> (l && left.attrs.contains(
                    AttrView::Guard(guard),
                )) || (r && right.attrs.contains(AttrView::Guard(guard)))
        }),
{
    let sum = left.concat(right);
    let location = |attr: AttrView| attr.location();
    law_concat(left, right);
    let (a, b) = if left.is_sequence() && right.is_sequence() {
        (left.attrs, right.attrs)
    } else if left.is_sequence() {
        (left.attrs, seq![AttrView::Child(right)])
    } else if right.is_sequence() {
        (seq![AttrView::Child(left)], right.attrs)
    } else {
        (seq![AttrView::Child(left)], seq![AttrView::Child(right)])
    };
    assert(sum.attrs =~= a + b);
    lemma_no_fields(seq![AttrView::Child(left)]);
    lemma_no_fields(seq![AttrView::Child(right)]);
    lemma_paired_add(a, b);
    lemma_fields_add(a, b);
    lemma_find_map_add(a, b, location);
    lemma_find_map_none(seq![AttrView::Child(left)], location);
    lemma_find_map_none(seq![AttrView::Child(right)], location);
    let none = Seq::<(Seq<char>, ValueView)>::empty();
    assert(fields_of(seq![AttrView::Child(left)]) =~= none);
    assert(fields_of(seq![AttrView::Child(right)]) =~= none);
    assert forall|x: AttrView| #[trigger] sum.attrs.contains(x) <==> a.contains(x) || b.contains(
        x,
    ) by {
        if a.contains(x) {
            let k = choose|k: int| 0 <= k < a.len() && a[k] == x;
            assert(sum.attrs[k] == x);
        }
        if b.contains(x) {
            let k = choose|k: int| 0 <= k < b.len() && b[k] == x;
            assert(sum.attrs[a.len() + k] == x);
        }
    }
}

/// Content that was just styled has the content as its only child, and carries nothing else that
/// the content has: no fields, span, location or marks.
pub proof fn law_styled_is_plain(content: ContentView, styles: Seq<StyleView>)
    requires
        !content.is_styled(),
    ensures
        ({
            let styled = content.wrapped(styles);
            &&& styled.func.id == ElemId::Styled
            &&& styled.wf()
            &&& styled.children() == seq![content]
            &&& styled.styles() == Some(styles)
            &&& styled.fields().len() == 0
            &&& styled.first_span() is None
            &&& styled.location() is None
            &&& !styled.is_prepared()
            &&& styled.is_pristine()
        }),
{
    let bare = ContentView::new(content.wrapped(styles).func);
    let once = bare.with(AttrView::Child(content));
    let styled = once.with(AttrView::Styles(styles));
    assert(content.wrapped(styles).attrs =~= styled.attrs);
    law_new(bare.func);
    law_with(bare, AttrView::Child(content));
    law_with(once, AttrView::Styles(styles));
    law_with_keeps_fields(bare, AttrView::Child(content));
    law_with_keeps_fields(once, AttrView::Styles(styles));
    assert(styled.children() =~= seq![content]);
}

/// Styling a styled element puts the new styles before those that it has.
pub proof fn law_styled_outside(content: ContentView, styles: Seq<StyleView>)
    requires
        content.is_styled(),
        content.styles() is Some,
    ensures
        content.styles() matches Some(inner) && content.wrapped(styles).styles() == Some(
            styles + inner,
        ),
        content.wrapped(styles).attrs.len() == content.attrs.len(),
{
    let own = |attr: AttrView| attr.styles();
    let i = lemma_find_map_cases(content.attrs, own);
    lemma_position_is(content.attrs, |attr: AttrView| attr.styles() is Some, i);
    let after = content.wrapped(styles).attrs;
    assert forall|j: int| 0 <= j < i implies own(#[trigger] after[j]) is None by {
        assert(own(content.attrs[j]) is None);
    }
    lemma_find_map_at(after, own, i);
}

/// Content whose span points nowhere gets the span as its first one, as a single new attribute,
/// whether or not the span points somewhere; other content stays as it is.
pub proof fn law_spanned_attaches(content: ContentView, span: Span)
    ensures
        content.span() == (Span { number: 1 }) ==> content.spanned(span).first_span() == Some(span)
            && content.spanned(span).attrs.len() == content.attrs.len() + 1,
        content.span() != (Span { number: 1 }) ==> content.spanned(span) == content,
{
    let attr = AttrView::Span(span);
    law_with(content, attr);
    lemma_find_map_at(content.with_first(attr).attrs, |attr: AttrView| attr.span(), 0);
}

/// Where a field of the name is attached, attaching it again exchanges the value after the first
/// such name, and leaves all other attributes in place. Where none is, the name and the value
/// come after all other attributes.
pub proof fn law_push_field_attrs(content: ContentView, name: Seq<char>, value: ValueView)
    ensures
        forall|i: int|
            0 <= i < content.attrs.len() && #[trigger] content.attrs[i] == AttrView::Field(name)
                && (forall|j: int|
                0 <= j < i ==> #[trigger] content.attrs[j] != AttrView::Field(name))
                ==> content.push_field(name, value).attrs == content.attrs.update(
                i + 1,
                AttrView::Value(value),
            ),
        (forall|i: int|
            0 <= i < content.attrs.len() ==> #[trigger] content.attrs[i] != AttrView::Field(name))
            ==> content.push_field(name, value).attrs == content.attrs.push(
            AttrView::Field(name),
        ).push(AttrView::Value(value)),
        content.push_field(name, value).func == content.func,
{
    let attrs = content.attrs;
    let pred = is_field(name);
    assert forall|i: int|
        0 <= i < attrs.len() && #[trigger] attrs[i] == AttrView::Field(name) && (forall|j: int|
            0 <= j < i ==> #[trigger] attrs[j] != AttrView::Field(name)) implies content.push_field(
        name,
        value,
    ).attrs == attrs.update(i + 1, AttrView::Value(value)) by {
        lemma_position_is(attrs, pred, i);
    }
    if forall|i: int| 0 <= i < attrs.len() ==> #[trigger] attrs[i] != AttrView::Field(name) {
        lemma_position_is(attrs, pred, attrs.len() as int);
    }
}

/// Each reading of an attribute gives what the attribute holds, and nothing of the others.
pub proof fn law_attr_readings(attr: AttrView)
    ensures
        attr.child() == (match attr {
            AttrView::Child(child) => Some(child),
            _ => None,
        }),
        attr.styles() == (match attr {
            AttrView::Styles(styles) => Some(styles),
            _ => None,
        }),
        attr.field() == (match attr {
            AttrView::Field(name) => Some(name),
            _ => None,
        }),
        attr.value() == (match attr {
            AttrView::Value(value) => Some(value),
            _ => None,
        }),
        attr.span() == (match attr {
            AttrView::Span(span) => Some(span),
            _ => None,
        }),
        attr.location() == (match attr {
            AttrView::Location(location) => Some(location),
            _ => None,
        }),
{
}

} // verus!
