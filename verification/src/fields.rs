//! How fields sit among the attributes of content.

use crate::model::{
    fields_of, is_field, is_named, linked, paired, value_if, AttrView, ContentView, ValueView,
};
use crate::seqs::{
    lemma_find_map_at, lemma_find_map_first, lemma_find_map_none, lemma_position, position,
};
use vstd::prelude::*;

verus! {

/// Replacing the value of a field keeps names and values paired.
pub(crate) proof fn lemma_paired_value_update(attrs: Seq<AttrView>, i: int, value: ValueView)
    requires
        paired(attrs),
        0 <= i < attrs.len(),
        attrs[i] is Field,
    ensures
        i + 1 < attrs.len(),
        attrs[i + 1] is Value,
        paired(attrs.update(i + 1, AttrView::Value(value))),
{
    assert(i + 1 < attrs.len());
    assert(linked(attrs, i));
    let after = attrs.update(i + 1, AttrView::Value(value));
    assert forall|j: int| 0 <= j < after.len() - 1 implies #[trigger] linked(after, j) by {
        assert(linked(attrs, j));
    }
}

/// A new field at the end keeps names and values paired.
pub(crate) proof fn lemma_paired_push_field(
    attrs: Seq<AttrView>,
    name: Seq<char>,
    value: ValueView,
)
    requires
        paired(attrs),
    ensures
        paired(attrs.push(AttrView::Field(name)).push(AttrView::Value(value))),
{
    let after = attrs.push(AttrView::Field(name)).push(AttrView::Value(value));
    assert forall|j: int| 0 <= j < after.len() - 1 implies #[trigger] linked(after, j) by {
        if j < attrs.len() - 1 {
            assert(linked(attrs, j));
        }
    }
}

/// An attribute that is neither a field name nor a value keeps names and values paired.
pub(crate) proof fn lemma_paired_push(attrs: Seq<AttrView>, attr: AttrView)
    requires
        paired(attrs),
        !(attr is Field),
        !(attr is Value),
    ensures
        paired(attrs.push(attr)),
{
    let after = attrs.push(attr);
    assert forall|j: int| 0 <= j < after.len() - 1 implies #[trigger] linked(after, j) by {
        if j < attrs.len() - 1 {
            assert(linked(attrs, j));
        }
    }
}

/// Two lists in which names and values are paired make one in which they are.
pub(crate) proof fn lemma_paired_add(left: Seq<AttrView>, right: Seq<AttrView>)
    requires
        paired(left),
        paired(right),
    ensures
        paired(left + right),
{
    let after = left + right;
    assert forall|j: int| 0 <= j < after.len() - 1 implies #[trigger] linked(after, j) by {
        if j < left.len() - 1 {
            assert(linked(left, j));
        } else if j >= left.len() {
            assert(linked(right, j - left.len()));
        }
    }
    if right.len() > 0 {
        assert(after.last() == right.last());
    } else {
        assert(after =~= left);
    }
}

/// Exchanging an attribute that is neither a field name nor a value for another such keeps
/// names and values paired.
pub(crate) proof fn lemma_paired_update(attrs: Seq<AttrView>, i: int, attr: AttrView)
    requires
        paired(attrs),
        0 <= i < attrs.len(),
        !(attrs[i] is Field),
        !(attrs[i] is Value),
        !(attr is Field),
        !(attr is Value),
    ensures
        paired(attrs.update(i, attr)),
{
    let after = attrs.update(i, attr);
    assert forall|j: int| 0 <= j < after.len() - 1 implies #[trigger] linked(after, j) by {
        assert(linked(attrs, j));
    }
}

/// What is left after the first field is paired.
pub(crate) proof fn lemma_paired_skip_field(attrs: Seq<AttrView>)
    requires
        paired(attrs),
        attrs.len() > 0,
        attrs[0] is Field,
    ensures
        attrs.len() > 1,
        attrs[1] is Value,
        paired(attrs.skip(2)),
{
    assert(linked(attrs, 0));
    let rest = attrs.skip(2);
    assert forall|j: int| 0 <= j < rest.len() - 1 implies #[trigger] linked(rest, j) by {
        assert(linked(attrs, j + 2));
    }
    if rest.len() > 0 {
        assert(linked(attrs, 1));
    }
}

/// What is left after a first attribute that is no field name is paired.
pub(crate) proof fn lemma_paired_drop_first(attrs: Seq<AttrView>)
    requires
        paired(attrs),
        attrs.len() > 0,
        !(attrs[0] is Field),
    ensures
        paired(attrs.drop_first()),
{
    let rest = attrs.drop_first();
    assert forall|j: int| 0 <= j < rest.len() - 1 implies #[trigger] linked(rest, j) by {
        assert(linked(attrs, j + 1));
    }
    if rest.len() > 0 {
        assert(linked(attrs, 0));
    }
}

/// Looking a name up among the fields is looking it up among the attributes.
pub(crate) proof fn lemma_field_ref(content: ContentView, name: Seq<char>)
    requires
        content.wf(),
    ensures
        0 <= content.field_index(name) <= content.attrs.len(),
        content.field_index(name) < content.attrs.len() ==> {
            &&& content.attrs[content.field_index(name)] == AttrView::Field(name)
            &&& content.field_index(name) + 1 < content.attrs.len()
            &&& content.attrs[content.field_index(name) + 1] is Value
            &&& content.field_ref(name) == Some(
                content.attrs[content.field_index(name) + 1]->Value_0,
            )
        },
        content.field_index(name) == content.attrs.len() ==> content.field_ref(name) is None,
    decreases content.attrs.len(),
{
    let attrs = content.attrs;
    let pred = is_field(name);
    let f = value_if(name);
    let p = position(attrs, pred);
    lemma_position(attrs, pred);
    if p < attrs.len() {
        assert(linked(attrs, p));
    }
    if attrs.len() > 0 {
        if attrs[0] is Field {
            lemma_paired_skip_field(attrs);
            let rest = ContentView { func: content.func, attrs: attrs.skip(2) };
            let first = (attrs[0]->Field_0, attrs[1]->Value_0);
            assert(content.fields() == seq![first] + rest.fields());
            assert(content.fields().drop_first() =~= rest.fields());
            if first.0 == name {
                lemma_find_map_at(content.fields(), f, 0);
                assert(pred(attrs[0]));
            } else {
                lemma_field_ref(rest, name);
                lemma_find_map_first(content.fields(), f);
                assert(attrs.drop_first().drop_first() =~= attrs.skip(2));
                assert(!pred(attrs[0]));
                assert(!pred(attrs.drop_first()[0]));
                assert(position(attrs.drop_first(), pred) == 1 + position(attrs.skip(2), pred));
            }
        } else {
            lemma_paired_drop_first(attrs);
            let rest = ContentView { func: content.func, attrs: attrs.drop_first() };
            lemma_field_ref(rest, name);
            assert(content.fields() == rest.fields());
            assert(!pred(attrs[0]));
        }
    } else {
        lemma_find_map_none(content.fields(), f);
    }
}

/// An attribute that is neither a field name nor a value does not change the fields.
pub(crate) proof fn lemma_fields_push(attrs: Seq<AttrView>, attr: AttrView)
    requires
        paired(attrs),
        !(attr is Field),
    ensures
        fields_of(attrs.push(attr)) == fields_of(attrs),
    decreases attrs.len(),
{
    let after = attrs.push(attr);
    if attrs.len() == 0 {
        assert(after.drop_first() =~= attrs);
    } else if attrs[0] is Field {
        lemma_paired_skip_field(attrs);
        lemma_fields_push(attrs.skip(2), attr);
        assert(after.skip(2) =~= attrs.skip(2).push(attr));
    } else {
        lemma_paired_drop_first(attrs);
        lemma_fields_push(attrs.drop_first(), attr);
        assert(after.drop_first() =~= attrs.drop_first().push(attr));
    }
}

/// Exchanging an attribute that is neither name nor value for another such leaves the fields as
/// they were.
pub(crate) proof fn lemma_fields_update_other(attrs: Seq<AttrView>, i: int, attr: AttrView)
    requires
        0 <= i < attrs.len(),
        !(attrs[i] is Field),
        !(attrs[i] is Value),
        !(attr is Field),
        !(attr is Value),
    ensures
        fields_of(attrs.update(i, attr)) == fields_of(attrs),
    decreases attrs.len(),
{
    let after = attrs.update(i, attr);
    if attrs[0] is Field {
        if attrs.len() > 1 && attrs[1] is Value {
            lemma_fields_update_other(attrs.skip(2), i - 2, attr);
            assert(after.skip(2) =~= attrs.skip(2).update(i - 2, attr));
        }
    } else if i == 0 {
        assert(after.drop_first() =~= attrs.drop_first());
    } else {
        lemma_fields_update_other(attrs.drop_first(), i - 1, attr);
        assert(after.drop_first() =~= attrs.drop_first().update(i - 1, attr));
    }
}

/// A new field at the end is the last field.
pub(crate) proof fn lemma_fields_push_field(
    attrs: Seq<AttrView>,
    name: Seq<char>,
    value: ValueView,
)
    requires
        paired(attrs),
    ensures
        fields_of(attrs.push(AttrView::Field(name)).push(AttrView::Value(value))) == fields_of(
            attrs,
        ).push((name, value)),
    decreases attrs.len(),
{
    let after = attrs.push(AttrView::Field(name)).push(AttrView::Value(value));
    if attrs.len() == 0 {
        assert(after.skip(2) =~= attrs);
        assert(fields_of(after) =~= fields_of(attrs).push((name, value)));
    } else if attrs[0] is Field {
        lemma_paired_skip_field(attrs);
        let rest = attrs.skip(2);
        lemma_fields_push_field(rest, name, value);
        assert(after.skip(2) =~= rest.push(AttrView::Field(name)).push(AttrView::Value(value)));
        assert(fields_of(after) =~= fields_of(attrs).push((name, value)));
    } else {
        lemma_paired_drop_first(attrs);
        let rest = attrs.drop_first();
        lemma_fields_push_field(rest, name, value);
        assert(after.drop_first() =~= rest.push(AttrView::Field(name)).push(
            AttrView::Value(value),
        ));
    }
}

/// A new value for the first field of a name changes that field and no other.
pub(crate) proof fn lemma_fields_update(attrs: Seq<AttrView>, name: Seq<char>, value: ValueView)
    requires
        paired(attrs),
        position(attrs, is_field(name)) < attrs.len(),
    ensures
        ({
            let i = position(attrs, is_field(name));
            let k = position(fields_of(attrs), is_named(name));
            &&& 0 <= k < fields_of(attrs).len()
            &&& fields_of(attrs.update(i + 1, AttrView::Value(value))) == fields_of(attrs).update(
                k,
                (name, value),
            )
        }),
    decreases attrs.len(),
{
    let pred = is_field(name);
    let named = is_named(name);
    let i = position(attrs, pred);
    lemma_position(attrs, pred);
    let after = attrs.update(i + 1, AttrView::Value(value));
    if attrs[0] is Field {
        lemma_paired_skip_field(attrs);
        let rest = attrs.skip(2);
        let first = (attrs[0]->Field_0, attrs[1]->Value_0);
        let fields = fields_of(attrs);
        assert(fields == seq![first] + fields_of(rest));
        assert(fields[0] == first);
        if first.0 == name {
            assert(pred(attrs[0]));
            assert(i == 0);
            assert(after.skip(2) =~= rest);
            assert(named(fields[0]));
            assert(position(fields, named) == 0);
            assert(fields_of(after) == seq![(name, value)] + fields_of(rest));
            assert(fields_of(after) =~= fields.update(0, (name, value)));
        } else {
            assert(!pred(attrs[0]));
            assert(!pred(attrs.drop_first()[0]));
            assert(attrs.drop_first().drop_first() =~= rest);
            assert(position(attrs.drop_first(), pred) == 1 + position(rest, pred));
            lemma_fields_update(rest, name, value);
            assert(after.skip(2) =~= rest.update(i - 1, AttrView::Value(value)));
            assert(fields.drop_first() =~= fields_of(rest));
            assert(!named(fields[0]));
            assert(fields_of(after) == seq![first] + fields_of(after.skip(2)));
            assert(fields_of(after) =~= fields.update(
                position(fields, named),
                (name, value),
            ));
        }
    } else {
        lemma_paired_drop_first(attrs);
        assert(!pred(attrs[0]));
        let rest = attrs.drop_first();
        lemma_fields_update(rest, name, value);
        assert(after.drop_first() =~= rest.update(i, AttrView::Value(value)));
    }
}

} // verus!
