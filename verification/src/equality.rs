//! When content is equal.

use crate::content::{content_views, field_views, Content};
use crate::eco::{eco_chars, eco_eq};
use crate::model::{fields_of, AttrView, ContentView, StyleView, ValueView};
use crate::seqs::lemma_find_map_cases;
use crate::style::Styles;
use crate::value::{lemma_array_view, value_views, Value};
use vstd::prelude::*;

verus! {

/// How deep content is nested in content.
pub open spec fn height(content: ContentView) -> nat
    decreases content,
{
    1 + attrs_height(content.attrs)
}

/// How deep content is nested in a list of attributes.
pub open spec fn attrs_height(attrs: Seq<AttrView>) -> nat
    decreases attrs,
{
    if attrs.len() == 0 {
        0
    } else {
        let rest = attrs_height(attrs.drop_last());
        let last = attr_height(attrs.last());
        if rest < last {
            last
        } else {
            rest
        }
    }
}

/// How deep content is nested in an attribute.
pub open spec fn attr_height(attr: AttrView) -> nat
    decreases attr,
{
    match attr {
        AttrView::Child(child) => height(child),
        AttrView::Value(value) => value_height(value),
        _ => 0,
    }
}

/// How deep content is nested in a value.
pub open spec fn value_height(value: ValueView) -> nat
    decreases value,
{
    match value {
        ValueView::Content(content) => 1 + height(content),
        ValueView::Array(values) => 1 + values_height(values),
        _ => 0,
    }
}

/// How deep content is nested in values.
pub open spec fn values_height(values: Seq<ValueView>) -> nat
    decreases values,
{
    if values.len() == 0 {
        0
    } else {
        let rest = values_height(values.drop_last());
        let last = value_height(values.last());
        if rest < last {
            last
        } else {
            rest
        }
    }
}

/// No attribute is deeper than the list.
pub proof fn lemma_attr_height(attrs: Seq<AttrView>, i: int)
    requires
        0 <= i < attrs.len(),
    ensures
        attr_height(attrs[i]) <= attrs_height(attrs),
    decreases attrs.len(),
{
    if i < attrs.len() - 1 {
        lemma_attr_height(attrs.drop_last(), i);
        assert(attrs.drop_last()[i] == attrs[i]);
    }
}

/// No value is deeper than the list.
pub proof fn lemma_value_height(values: Seq<ValueView>, i: int)
    requires
        0 <= i < values.len(),
    ensures
        value_height(values[i]) <= values_height(values),
    decreases values.len(),
{
    if i < values.len() - 1 {
        lemma_value_height(values.drop_last(), i);
        assert(values.drop_last()[i] == values[i]);
    }
}

/// No item of an array is deeper than the array.
pub proof fn lemma_items_height(values: Seq<ValueView>)
    ensures
        forall|i: int|
            0 <= i < values.len() ==> value_height(#[trigger] values[i]) <= values_height(values),
{
    assert forall|i: int| 0 <= i < values.len() implies value_height(#[trigger] values[i])
        <= values_height(values) by {
        lemma_value_height(values, i);
    }
}

/// Children are less deep than the content.
pub proof fn lemma_children_height(content: ContentView)
    ensures
        forall|i: int|
            0 <= i < content.children().len() ==> height(#[trigger] content.children()[i])
                < height(content),
{
    let f = |attr: AttrView| attr.child();
    assert forall|i: int| 0 <= i < content.children().len() implies height(
        #[trigger] content.children()[i],
    ) < height(content) by {
        let child = content.children()[i];
        assert(content.attrs.filter_map(f).contains(child));
        content.attrs.lemma_filter_map_contains(f, child);
        let attr = choose|attr: AttrView| content.attrs.contains(attr) && #[trigger] f(attr) == Some(child);
        let j = choose|j: int| 0 <= j < content.attrs.len() && content.attrs[j] == attr;
        lemma_attr_height(content.attrs, j);
    }
}

/// The child of a styled element is less deep than it.
pub proof fn lemma_styled_height(content: ContentView)
    ensures
        content.to_styled() matches Some((child, _)) ==> height(child) < height(content),
{
    let f = |attr: AttrView| attr.child();
    let i = lemma_find_map_cases(content.attrs, f);
    if i < content.attrs.len() {
        lemma_attr_height(content.attrs, i);
    }
}

/// Field values are less deep than the content.
pub proof fn lemma_fields_height(attrs: Seq<AttrView>, bound: nat)
    requires
        forall|i: int| 0 <= i < attrs.len() ==> attr_height(#[trigger] attrs[i]) <= bound,
    ensures
        forall|i: int|
            0 <= i < fields_of(attrs).len() ==> value_height((#[trigger] fields_of(attrs)[i]).1)
                <= bound,
    decreases attrs.len(),
{
    if attrs.len() > 0 {
        if attrs[0] is Field {
            if attrs.len() > 1 && attrs[1] is Value {
                let rest = attrs.skip(2);
                assert forall|i: int| 0 <= i < rest.len() implies attr_height(#[trigger] rest[i])
                    <= bound by {
                    assert(rest[i] == attrs[i + 2]);
                }
                lemma_fields_height(rest, bound);
                let all = fields_of(attrs);
                assert(all == seq![(attrs[0]->Field_0, attrs[1]->Value_0)] + fields_of(rest));
                assert forall|i: int| 0 <= i < all.len() implies value_height((#[trigger] all[i]).1)
                    <= bound by {
                    if i > 0 {
                        assert(all[i] == fields_of(rest)[i - 1]);
                    } else {
                        assert(attr_height(attrs[1]) <= bound);
                    }
                }
            }
        } else {
            let rest = attrs.drop_first();
            assert forall|i: int| 0 <= i < rest.len() implies attr_height(#[trigger] rest[i])
                <= bound by {
                assert(rest[i] == attrs[i + 1]);
            }
            lemma_fields_height(rest, bound);
            assert(fields_of(attrs) == fields_of(rest));
        }
    }
}

/// Field values are less deep than the content.
pub proof fn lemma_content_fields_height(content: ContentView)
    ensures
        forall|i: int|
            0 <= i < content.fields().len() ==> value_height(
                (#[trigger] content.fields()[i]).1,
            ) < height(content),
{
    assert forall|i: int| 0 <= i < content.attrs.len() implies attr_height(
        #[trigger] content.attrs[i],
    ) <= attrs_height(content.attrs) by {
        lemma_attr_height(content.attrs, i);
    }
    lemma_fields_height(content.attrs, attrs_height(content.attrs));
}

/// Whether two lists of styles are equal: entry by entry, they have the same hash.
pub open spec fn styles_eq(a: Seq<StyleView>, b: Seq<StyleView>) -> bool {
    &&& a.len() == b.len()
    &&& forall|i: int| 0 <= i < a.len() ==> (#[trigger] a[i]).hash() == b[i].hash()
}

/// Whether content is equal.
///
/// Sequences are equal if their children are, styled elements if their child and styles are, and
/// other elements if they have the same function and equal fields in the same order. Nothing
/// else that is attached counts.
pub open spec fn content_eq(a: ContentView, b: ContentView) -> bool
    decreases height(a),
{
    proof {
        lemma_children_height(a);
        lemma_styled_height(a);
        lemma_content_fields_height(a);
    }
    if a.is_sequence() && b.is_sequence() {
        &&& a.children().len() == b.children().len()
        &&& forall|i: int|
            0 <= i < a.children().len() ==> content_eq(#[trigger] a.children()[i], b.children()[i])
    } else {
        match (a.to_styled(), b.to_styled()) {
            (Some((x, s)), Some((y, t))) => content_eq(x, y) && styles_eq(s, t),
            _ => {
                &&& a.func.id == b.func.id
                &&& a.fields().len() == b.fields().len()
                &&& forall|i: int|
                    0 <= i < a.fields().len() ==> (#[trigger] a.fields()[i]).0 == b.fields()[i].0
                        && value_eq(a.fields()[i].1, b.fields()[i].1)
            },
        }
    }
}

/// Whether values are equal: arrays item by item, content as content is.
pub open spec fn value_eq(a: ValueView, b: ValueView) -> bool
    decreases value_height(a),
{
    match (a, b) {
        (ValueView::Content(x), ValueView::Content(y)) => content_eq(x, y),
        (ValueView::Array(xs), ValueView::Array(ys)) => {
            proof {
                lemma_items_height(xs);
            }
            &&& xs.len() == ys.len()
            &&& forall|i: int| 0 <= i < xs.len() ==> value_eq(#[trigger] xs[i], ys[i])
        },
        _ => a == b,
    }
}

/// Whether two lists of styles are equal.
fn equal_styles(a: &Styles, b: &Styles) -> (r: bool)
    ensures
        r == styles_eq(a@, b@),
{
    if a.entries.len() != b.entries.len() {
        return false;
    }
    let mut i: usize = 0;
    while i < a.entries.len()
        invariant
            i <= a.entries@.len(),
            a.entries@.len() == b.entries@.len(),
            forall|j: int| 0 <= j < i ==> (#[trigger] a@[j]).hash() == b@[j].hash(),
        decreases a.entries@.len() - i,
    {
        assert(a@[i as int] == a.entries@[i as int]@);
        assert(b@[i as int] == b.entries@[i as int]@);
        if a.entries[i].hash() != b.entries[i].hash() {
            return false;
        }
        i += 1;
    }
    true
}

/// Whether content is equal.
fn equal_content(a: &Content, b: &Content) -> (r: bool)
    ensures
        r == content_eq(a@, b@),
    decreases height(a@),
{
    proof {
        lemma_children_height(a@);
        lemma_styled_height(a@);
        lemma_content_fields_height(a@);
    }
    if let (Some(left), Some(right)) = (a.to_sequence(), b.to_sequence()) {
        if left.len() != right.len() {
            assert(content_views(left@).len() == left@.len());
            assert(content_views(right@).len() == right@.len());
            return false;
        }
        let mut i: usize = 0;
        while i < left.len()
            invariant
                i <= left@.len(),
                left@.len() == right@.len(),
                a@.is_sequence() && b@.is_sequence(),
                content_views(left@) == a@.children(),
                content_views(right@) == b@.children(),
                forall|j: int|
                    0 <= j < a@.children().len() ==> height(#[trigger] a@.children()[j]) < height(
                        a@,
                    ),
                forall|j: int|
                    0 <= j < i ==> content_eq(#[trigger] a@.children()[j], b@.children()[j]),
            decreases left@.len() - i,
        {
            assert(a@.children()[i as int] == left@[i as int]@);
            assert(b@.children()[i as int] == right@[i as int]@);
            if !equal_content(left[i], right[i]) {
                return false;
            }
            i += 1;
        }
        return true;
    }
    if let (Some((x, s)), Some((y, t))) = (a.to_styled(), b.to_styled()) {
        return equal_content(x, y) && equal_styles(s, t);
    }
    if a.func() != b.func() {
        return false;
    }
    let left = a.fields_ref();
    let right = b.fields_ref();
    if left.len() != right.len() {
        assert(field_views(left@).len() == left@.len());
        assert(field_views(right@).len() == right@.len());
        return false;
    }
    let mut i: usize = 0;
    while i < left.len()
        invariant
            i <= left@.len(),
            left@.len() == right@.len(),
            !(a@.is_sequence() && b@.is_sequence()),
            !(a@.to_styled() is Some && b@.to_styled() is Some),
            field_views(left@) == a@.fields(),
            field_views(right@) == b@.fields(),
            forall|j: int|
                0 <= j < a@.fields().len() ==> value_height((#[trigger] a@.fields()[j]).1)
                    < height(a@),
            forall|j: int|
                0 <= j < i ==> (#[trigger] a@.fields()[j]).0 == b@.fields()[j].0 && value_eq(
                    a@.fields()[j].1,
                    b@.fields()[j].1,
                ),
        decreases left@.len() - i,
    {
        assert(a@.fields()[i as int] == (eco_chars(*left@[i as int].0), left@[i as int].1@));
        assert(b@.fields()[i as int] == (eco_chars(*right@[i as int].0), right@[i as int].1@));
        if !eco_eq(left[i].0, right[i].0) || !equal_values(left[i].1, right[i].1) {
            return false;
        }
        i += 1;
    }
    true
}

/// Whether values are equal.
fn equal_values(a: &Value, b: &Value) -> (r: bool)
    ensures
        r == value_eq(a@, b@),
    decreases value_height(a@),
{
    match (a, b) {
        (Value::Nothing, Value::Nothing) => true,
        (Value::Auto, Value::Auto) => true,
        (Value::Bool(x), Value::Bool(y)) => *x == *y,
        (Value::Int(x), Value::Int(y)) => *x == *y,
        (Value::Str(x), Value::Str(y)) => eco_eq(x, y),
        (Value::Label(x), Value::Label(y)) => eco_eq(&x.0, &y.0),
        (Value::Content(x), Value::Content(y)) => equal_content(x, y),
        (Value::Array(x), Value::Array(y)) => {
            let ghost xs = value_views(x@);
            let ghost ys = value_views(y@);
            proof {
                lemma_array_view(*x);
                lemma_array_view(*y);
                lemma_items_height(xs);
            }
            if x.len() != y.len() {
                return false;
            }
            let mut i: usize = 0;
            while i < x.len()
                invariant
                    i <= x@.len(),
                    x@.len() == y@.len(),
                    xs == value_views(x@),
                    ys == value_views(y@),
                    a@ == ValueView::Array(xs),
                    b@ == ValueView::Array(ys),
                    forall|j: int|
                        0 <= j < xs.len() ==> value_height(#[trigger] xs[j]) <= values_height(xs),
                    forall|j: int| 0 <= j < i ==> value_eq(#[trigger] xs[j], ys[j]),
                decreases x@.len() - i,
            {
                assert(xs[i as int] == x@[i as int]@);
                assert(ys[i as int] == y@[i as int]@);
                if !equal_values(&x[i], &y[i]) {
                    return false;
                }
                i += 1;
            }
            true
        },
        (Value::Dyn(x), Value::Dyn(y)) => *x == *y,
        _ => false,
    }
}

impl PartialEq for Content {
    fn eq(&self, other: &Self) -> (r: bool) {
        equal_content(self, other)
    }
}

impl vstd::std_specs::cmp::PartialEqSpecImpl for Content {
    open spec fn obeys_eq_spec() -> bool {
        true
    }

    open spec fn eq_spec(&self, other: &Self) -> bool {
        content_eq(self@, other@)
    }
}

impl PartialEq for Value {
    fn eq(&self, other: &Self) -> (r: bool) {
        equal_values(self, other)
    }
}

impl vstd::std_specs::cmp::PartialEqSpecImpl for Value {
    open spec fn obeys_eq_spec() -> bool {
        true
    }

    open spec fn eq_spec(&self, other: &Self) -> bool {
        value_eq(self@, other@)
    }
}

} // verus!
