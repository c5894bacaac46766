//! What holds of equality.

use crate::equality::{
    content_eq, height, lemma_children_height, lemma_content_fields_height, lemma_items_height,
    lemma_styled_height, styles_eq, value_eq, value_height,
};
use crate::laws::{
    is_mark, law_concat, law_marks_keep_the_rest, law_sequence, law_spanned_keeps_the_rest,
    law_styled, law_styled_again, law_styled_again_keeps_the_rest, parts,
};
use crate::model::{AttrView, ContentView, StyleView, ValueView};
use crate::place::Span;
use vstd::prelude::*;

verus! {

/// Content is equal to itself.
pub proof fn law_eq_reflexive(a: ContentView)
    ensures
        content_eq(a, a),
    decreases height(a),
{
    lemma_children_height(a);
    lemma_styled_height(a);
    lemma_content_fields_height(a);
    if a.is_sequence() {
        assert forall|i: int| 0 <= i < a.children().len() implies content_eq(
            #[trigger] a.children()[i],
            a.children()[i],
        ) by {
            law_eq_reflexive(a.children()[i]);
        }
    } else if let Some((child, styles)) = a.to_styled() {
        law_eq_reflexive(child);
    } else {
        assert forall|i: int| 0 <= i < a.fields().len() implies value_eq(
            (#[trigger] a.fields()[i]).1,
            a.fields()[i].1,
        ) by {
            law_value_eq_reflexive(a.fields()[i].1);
        }
    }
}

/// A value is equal to itself.
pub proof fn law_value_eq_reflexive(a: ValueView)
    ensures
        value_eq(a, a),
    decreases value_height(a),
{
    match a {
        ValueView::Content(content) => law_eq_reflexive(content),
        ValueView::Array(values) => {
            lemma_items_height(values);
            assert forall|i: int| 0 <= i < values.len() implies value_eq(
                #[trigger] values[i],
                values[i],
            ) by {
                law_value_eq_reflexive(values[i]);
            }
        },
        _ => {},
    }
}

/// Equality goes both ways.
pub proof fn law_eq_symmetric(a: ContentView, b: ContentView)
    requires
        content_eq(a, b),
    ensures
        content_eq(b, a),
    decreases height(a),
{
    lemma_children_height(a);
    lemma_styled_height(a);
    lemma_content_fields_height(a);
    if a.is_sequence() && b.is_sequence() {
        assert forall|i: int| 0 <= i < b.children().len() implies content_eq(
            #[trigger] b.children()[i],
            a.children()[i],
        ) by {
            law_eq_symmetric(a.children()[i], b.children()[i]);
        }
    } else if let (Some((x, s)), Some((y, t))) = (a.to_styled(), b.to_styled()) {
        law_eq_symmetric(x, y);
        assert forall|i: int| 0 <= i < t.len() implies (#[trigger] t[i]).hash() == s[i].hash() by {
            assert(s[i].hash() == t[i].hash());
        }
    } else {
        assert forall|i: int| 0 <= i < b.fields().len() implies (#[trigger] b.fields()[i]).0
            == a.fields()[i].0 && value_eq(b.fields()[i].1, a.fields()[i].1) by {
            assert(a.fields()[i].0 == b.fields()[i].0);
            law_value_eq_symmetric(a.fields()[i].1, b.fields()[i].1);
        }
    }
}

/// Equality of values goes both ways.
pub proof fn law_value_eq_symmetric(a: ValueView, b: ValueView)
    requires
        value_eq(a, b),
    ensures
        value_eq(b, a),
    decreases value_height(a),
{
    match (a, b) {
        (ValueView::Content(x), ValueView::Content(y)) => law_eq_symmetric(x, y),
        (ValueView::Array(xs), ValueView::Array(ys)) => {
            lemma_items_height(xs);
            assert forall|i: int| 0 <= i < ys.len() implies value_eq(#[trigger] ys[i], xs[i]) by {
                assert(value_eq(xs[i], ys[i]));
                law_value_eq_symmetric(xs[i], ys[i]);
            }
        },
        _ => {},
    }
}

/// Whether fields are equal: in order, they have the same names and equal values.
pub open spec fn fields_eq(
    a: Seq<(Seq<char>, ValueView)>,
    b: Seq<(Seq<char>, ValueView)>,
) -> bool {
    &&& a.len() == b.len()
    &&& forall|i: int|
        0 <= i < a.len() ==> (#[trigger] a[i]).0 == b[i].0 && value_eq(a[i].1, b[i].1)
}

/// Everywhere in the three, compared place by place as equality does: if exactly two of them
/// have both the child and the styles of a styled element, these two are equal in the fields as
/// well as in child and styles.
pub open spec fn even(a: ContentView, b: ContentView, c: ContentView) -> bool
    decreases height(a),
{
    proof {
        lemma_children_height(a);
        lemma_styled_height(a);
        lemma_content_fields_height(a);
    }
    if a.is_sequence() && b.is_sequence() && c.is_sequence() {
        forall|i: int|
            0 <= i < a.children().len() && i < b.children().len() && i < c.children().len()
                ==> even(#[trigger] a.children()[i], b.children()[i], c.children()[i])
    } else {
        match (a.to_styled(), b.to_styled(), c.to_styled()) {
            (Some((x, _)), Some((y, _)), Some((z, _))) => even(x, y, z),
            (Some((x, s)), None, Some((z, u))) => content_eq(x, z) && styles_eq(s, u),
            (p, q, r) => {
                &&& p is Some && q is Some ==> fields_eq(a.fields(), b.fields())
                &&& q is Some && r is Some ==> fields_eq(b.fields(), c.fields())
                &&& forall|i: int|
                    0 <= i < a.fields().len() && i < b.fields().len() && i < c.fields().len()
                        ==> value_even(
                        (#[trigger] a.fields()[i]).1,
                        b.fields()[i].1,
                        c.fields()[i].1,
                    )
            },
        }
    }
}

/// The same for content in three values.
pub open spec fn value_even(a: ValueView, b: ValueView, c: ValueView) -> bool
    decreases value_height(a),
{
    match (a, b, c) {
        (ValueView::Content(x), ValueView::Content(y), ValueView::Content(z)) => even(x, y, z),
        (ValueView::Array(xs), ValueView::Array(ys), ValueView::Array(zs)) => {
            proof {
                lemma_items_height(xs);
            }
            forall|i: int|
                0 <= i < xs.len() && i < ys.len() && i < zs.len() ==> value_even(
                    #[trigger] xs[i],
                    ys[i],
                    zs[i],
                )
        },
        _ => true,
    }
}

/// Content that is equal to the same content is equal. This leaves out styled elements without
/// child and styles: such an element is equal to others by the fields alone, while two that have
/// child and styles are equal by these alone. Where exactly one of the three is such, the other
/// two must be equal either way.
pub proof fn law_eq_transitive(a: ContentView, b: ContentView, c: ContentView)
    requires
        content_eq(a, b),
        content_eq(b, c),
        even(a, b, c),
    ensures
        content_eq(a, c),
    decreases height(a),
{
    lemma_children_height(a);
    lemma_styled_height(a);
    lemma_content_fields_height(a);
    if a.is_sequence() && c.is_sequence() {
        assert(b.is_sequence());
        assert forall|i: int| 0 <= i < a.children().len() implies content_eq(
            #[trigger] a.children()[i],
            c.children()[i],
        ) by {
            assert(content_eq(b.children()[i], c.children()[i]));
            law_eq_transitive(a.children()[i], b.children()[i], c.children()[i]);
        }
    } else if let (Some((x, s)), Some((z, u))) = (a.to_styled(), c.to_styled()) {
        if let Some((y, t)) = b.to_styled() {
            law_eq_transitive(x, y, z);
            assert forall|i: int| 0 <= i < s.len() implies (#[trigger] s[i]).hash()
                == u[i].hash() by {
                assert(t[i].hash() == u[i].hash());
            }
        }
    } else {
        assert(!(a.is_sequence() && b.is_sequence()));
        assert forall|i: int| 0 <= i < a.fields().len() implies (#[trigger] a.fields()[i]).0
            == c.fields()[i].0 && value_eq(a.fields()[i].1, c.fields()[i].1) by {
            assert(b.fields()[i].0 == c.fields()[i].0);
            law_value_eq_transitive(a.fields()[i].1, b.fields()[i].1, c.fields()[i].1);
        }
    }
}

/// Values that are equal to the same value are equal, with what is left out for content.
pub proof fn law_value_eq_transitive(a: ValueView, b: ValueView, c: ValueView)
    requires
        value_eq(a, b),
        value_eq(b, c),
        value_even(a, b, c),
    ensures
        value_eq(a, c),
    decreases value_height(a),
{
    match (a, b, c) {
        (ValueView::Content(x), ValueView::Content(y), ValueView::Content(z)) => {
            law_eq_transitive(x, y, z);
        },
        (ValueView::Array(xs), ValueView::Array(ys), ValueView::Array(zs)) => {
            lemma_items_height(xs);
            assert forall|i: int| 0 <= i < xs.len() implies value_eq(#[trigger] xs[i], zs[i]) by {
                assert(value_eq(xs[i], ys[i]));
                assert(value_eq(ys[i], zs[i]));
                law_value_eq_transitive(xs[i], ys[i], zs[i]);
            }
        },
        _ => {},
    }
}

/// Spans, guards, locations and the mark of being prepared do not count for equality: content
/// with such a mark is equal to the content without it, and to what that is equal to.
pub proof fn law_eq_ignores_marks(content: ContentView, attr: AttrView)
    requires
        content.wf(),
        is_mark(attr),
    ensures
        content_eq(content.with(attr), content),
        forall|e: ContentView| #[trigger]
            content_eq(content.with(attr), e) == content_eq(content, e),
        forall|e: ContentView| #[trigger]
            content_eq(e, content.with(attr)) == content_eq(e, content),
{
    law_marks_keep_the_rest(content, attr);
    law_eq_reflexive(content);
}

/// Spans do not count for equality, wherever they are attached.
pub proof fn law_eq_ignores_spans(content: ContentView, span: Span)
    requires
        content.wf(),
    ensures
        content_eq(content.spanned(span), content),
        forall|e: ContentView| #[trigger]
            content_eq(content.spanned(span), e) == content_eq(content, e),
        forall|e: ContentView| #[trigger]
            content_eq(e, content.spanned(span)) == content_eq(e, content),
{
    law_spanned_keeps_the_rest(content, span);
    law_eq_reflexive(content);
}

/// Sequences with the same children are equal.
pub proof fn law_eq_sequences(a: ContentView, b: ContentView)
    requires
        a.is_sequence(),
        b.is_sequence(),
        a.children() == b.children(),
    ensures
        content_eq(a, b),
{
    assert forall|i: int| 0 <= i < a.children().len() implies content_eq(
        #[trigger] a.children()[i],
        b.children()[i],
    ) by {
        law_eq_reflexive(a.children()[i]);
    }
}

/// It does not matter which of two sums is made first: the result has the same attributes in
/// the same order, and is equal.
pub proof fn law_concat_associative(a: ContentView, b: ContentView, c: ContentView)
    ensures
        a.concat(b).concat(c).attrs == a.concat(b.concat(c)).attrs,
        a.concat(b).concat(c).func.id == a.concat(b.concat(c)).func.id,
        content_eq(a.concat(b).concat(c), a.concat(b.concat(c))),
{
    law_concat(a, b);
    law_concat(a.concat(b), c);
    law_concat(b, c);
    law_concat(a, b.concat(c));
    assert((parts(a) + parts(b)) + parts(c) =~= parts(a) + (parts(b) + parts(c)));
    law_eq_sequences(a.concat(b).concat(c), a.concat(b.concat(c)));
    assert(a.concat(b).concat(c).attrs =~= a.concat(b.concat(c)).attrs);
}

/// Empty content adds nothing to a sequence.
pub proof fn law_concat_empty(content: ContentView)
    requires
        content.is_sequence(),
    ensures
        ContentView::empty().concat(content).attrs == content.attrs,
        content.concat(ContentView::empty()) == content,
        content_eq(ContentView::empty().concat(content), content),
        content_eq(content.concat(ContentView::empty()), content),
{
    let empty = ContentView::empty();
    law_concat(empty, content);
    law_concat(content, empty);
    law_sequence(seq![]);
    assert(parts(empty) + parts(content) =~= parts(content));
    assert(parts(content) + parts(empty) =~= parts(content));
    law_eq_sequences(empty.concat(content), content);
    law_eq_sequences(content.concat(empty), content);
    assert(empty.concat(content).attrs =~= content.attrs);
    assert(content.concat(empty).attrs =~= content.attrs);
}

/// Adding content to content in a row is putting it at the end of the row. This leaves out
/// sequences, of which a sum takes the children, unless the row is empty, and other content
/// after an empty row, which the sum makes a sequence of.
pub proof fn law_sum(items: Seq<ContentView>, last: ContentView)
    requires
        items.len() == 1 ==> !items[0].is_sequence(),
        items.len() == 0 <==> last.is_sequence(),
    ensures
        content_eq(
            ContentView::sequence(items).concat(last),
            ContentView::sequence(items.push(last)),
        ),
{
    let row = ContentView::sequence(items);
    law_sequence(items);
    law_sequence(items.push(last));
    law_concat(row, last);
    if items.len() == 0 {
        law_concat_empty(last);
    } else {
        assert(parts(row) + parts(last) =~= items.push(last));
        law_eq_sequences(row.concat(last), ContentView::sequence(items.push(last)));
    }
}

/// Equal content has equal parts.
proof fn lemma_eq_parts(a: ContentView, b: ContentView)
    requires
        content_eq(a, b),
    ensures
        parts(a).len() == parts(b).len(),
        forall|i: int| 0 <= i < parts(a).len() ==> content_eq(#[trigger] parts(a)[i], parts(b)[i]),
{
    assert(a.is_sequence() == b.is_sequence());
    if a.is_sequence() {
        assert forall|i: int| 0 <= i < parts(a).len() implies content_eq(
            #[trigger] parts(a)[i],
            parts(b)[i],
        ) by {
            assert(content_eq(a.children()[i], b.children()[i]));
        }
    }
}

/// Sums of equal content are equal.
pub proof fn law_eq_concat(a: ContentView, b: ContentView, x: ContentView, y: ContentView)
    requires
        content_eq(a, b),
        content_eq(x, y),
    ensures
        content_eq(a.concat(x), b.concat(y)),
{
    law_concat(a, x);
    law_concat(b, y);
    lemma_eq_parts(a, b);
    lemma_eq_parts(x, y);
    let left = a.concat(x);
    let right = b.concat(y);
    assert forall|i: int| 0 <= i < left.children().len() implies content_eq(
        #[trigger] left.children()[i],
        right.children()[i],
    ) by {
        let n = parts(a).len();
        if i < n {
            assert(content_eq(parts(a)[i], parts(b)[i]));
        } else {
            assert(content_eq(parts(x)[i - n], parts(y)[i - n]));
        }
    }
}

/// Equal content with the same styles around it is equal. Styled elements without styles are
/// left out: there is nothing to add styles to.
pub proof fn law_eq_styled(a: ContentView, b: ContentView, styles: Seq<StyleView>)
    requires
        content_eq(a, b),
        a.is_styled() ==> a.styles() is Some && b.styles() is Some,
    ensures
        content_eq(a.wrapped(styles), b.wrapped(styles)),
{
    if a.is_styled() {
        law_styled_again_keeps_the_rest(a, styles);
        law_styled_again_keeps_the_rest(b, styles);
        if let (Some((_, s)), Some((_, t))) = (a.to_styled(), b.to_styled()) {
            law_styled_again(a, styles);
            law_styled_again(b, styles);
            assert forall|i: int| 0 <= i < (styles + s).len() implies (#[trigger] (styles
                + s)[i]).hash() == (styles + t)[i].hash() by {
                if i >= styles.len() {
                    assert(s[i - styles.len()].hash() == t[i - styles.len()].hash());
                }
            }
        }
    } else {
        assert(!b.is_styled());
        law_styled(a, styles);
        law_styled(b, styles);
    }
}

} // verus!
