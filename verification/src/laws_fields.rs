//! What holds of fields: how they are found, listed, cast and acted on.

use crate::cast::Cast;
use crate::content::Content;
use crate::eco::eco_chars;
use crate::elem::{ElemId, TypeId};
use crate::laws::{
    law_push_field_fields, law_push_field_keeps_the_rest, law_push_field_others,
    law_push_field_reads_back, law_sequence,
};
use crate::model::{is_named, value_if, ContentView, ValueView};
use crate::seqs::{lemma_find_map_at, lemma_find_map_cases, lemma_position_is};
use crate::value::{Label, Value};
use ecow::EcoString;
use vstd::prelude::*;

verus! {

/// A field is found exactly if the content lists a field of that name, and the first of them is
/// the one that is found.
pub proof fn law_field_ref(content: ContentView, name: Seq<char>)
    ensures
        content.field_ref(name) is Some <==> exists|i: int|
            0 <= i < content.fields().len() && (#[trigger] content.fields()[i]).0 == name,
        forall|i: int|
            0 <= i < content.fields().len() && (#[trigger] content.fields()[i]).0 == name && (
            forall|j: int| 0 <= j < i ==> (#[trigger] content.fields()[j]).0 != name)
                ==> content.field_ref(name) == Some(content.fields()[i].1),
{
    let fields = content.fields();
    let f = value_if(name);
    let k = lemma_find_map_cases(fields, f);
    assert forall|i: int|
        0 <= i < fields.len() && (#[trigger] fields[i]).0 == name && (forall|j: int|
            0 <= j < i ==> (#[trigger] fields[j]).0 != name) implies content.field_ref(name)
        == Some(fields[i].1) by {
        lemma_find_map_at(fields, f, i);
    }
    if k < fields.len() {
        assert(fields[k].0 == name);
    }
    if exists|i: int| 0 <= i < fields.len() && (#[trigger] fields[i]).0 == name {
        let i = choose|i: int| 0 <= i < fields.len() && (#[trigger] fields[i]).0 == name;
        assert(f(fields[i]) is Some);
        assert(k < fields.len());
    }
}

/// Attaching a field to content that lists none of that name adds it at the end of the list.
/// Otherwise it takes the place of the first of that name, and no other field changes or moves.
pub proof fn law_push_field_lists(content: ContentView, name: Seq<char>, value: ValueView)
    requires
        content.wf(),
    ensures
        (forall|i: int|
            0 <= i < content.fields().len() ==> (#[trigger] content.fields()[i]).0 != name)
            ==> content.push_field(name, value).fields() == content.fields().push((name, value)),
        forall|k: int|
            0 <= k < content.fields().len() && (#[trigger] content.fields()[k]).0 == name && (
            forall|j: int| 0 <= j < k ==> (#[trigger] content.fields()[j]).0 != name)
                ==> content.push_field(name, value).fields() == content.fields().update(
                k,
                (name, value),
            ),
{
    let fields = content.fields();
    let named = is_named(name);
    law_push_field_fields(content, name, value);
    if forall|i: int| 0 <= i < fields.len() ==> (#[trigger] fields[i]).0 != name {
        lemma_position_is(fields, named, fields.len() as int);
    }
    assert forall|k: int|
        0 <= k < fields.len() && (#[trigger] fields[k]).0 == name && (forall|j: int|
            0 <= j < k ==> (#[trigger] fields[j]).0 != name) implies content.push_field(
        name,
        value,
    ).fields() == fields.update(k, (name, value)) by {
        lemma_position_is(fields, named, k);
    }
}

/// The field `children` of a sequence is an array of just its children, as they are and in order.
pub proof fn law_children_field(content: ContentView)
    requires
        content.func.id == ElemId::Sequence,
    ensures
        content.field("children"@) matches Some(ValueView::Array(values)) && values.len()
            == content.children().len() && forall|i: int|
            0 <= i < values.len() ==> #[trigger] values[i] == ValueView::Content(
                content.children()[i],
            ),
{
}

/// The field `children` of content in a row is an array of just that content.
pub proof fn law_sequence_field(items: Seq<ContentView>)
    requires
        items.len() != 1,
    ensures
        ContentView::sequence(items).field("children"@) matches Some(ValueView::Array(values))
            && values.len() == items.len() && forall|i: int|
            0 <= i < values.len() ==> #[trigger] values[i] == ValueView::Content(items[i]),
{
    law_sequence(items);
    law_children_field(ContentView::sequence(items));
}

/// The field `child` of a styled element is its child, as it is.
pub proof fn law_child_field(content: ContentView)
    ensures
        content.to_styled() matches Some((child, _)) ==> content.field("child"@) == Some(
            ValueView::Content(child),
        ),
{
    reveal_strlit("child");
    reveal_strlit("children");
    assert("child"@.len() != "children"@.len());
}

/// Every other field access is answered by the attached field.
pub proof fn law_other_fields(content: ContentView, name: Seq<char>)
    requires
        content.func.id == ElemId::Sequence ==> name != "children"@,
        content.to_styled() is Some ==> name != "child"@,
    ensures
        content.field(name) == content.field_ref(name),
{
}

/// The list of all fields starts with the attached fields, all of them and in order. After them
/// comes `children` for a sequence, `child` for a styled element with its child and styles, and
/// nothing for other elements. The last one holds what a field access by its name gives.
pub proof fn law_all_fields(content: ContentView)
    ensures
        ({
            let all = content.all_fields();
            let own = content.fields();
            &&& own.is_prefix_of(all)
            &&& forall|i: int| 0 <= i < own.len() ==> #[trigger] all[i] == own[i]
            &&& content.func.id == ElemId::Sequence ==> all.len() == own.len() + 1
                && all.last().0 == "children"@
            &&& content.to_styled() is Some ==> all.len() == own.len() + 1 && all.last().0
                == "child"@
            &&& content.func.id != ElemId::Sequence && content.to_styled() is None ==> all == own
            &&& all.len() > own.len() ==> content.field(all.last().0) == Some(all.last().1)
        }),
{
    law_child_field(content);
}

/// Whatever a field access finds among the attached fields is in the list of all fields.
pub proof fn law_all_fields_complete(content: ContentView, name: Seq<char>)
    ensures
        content.field_ref(name) matches Some(value) ==> content.all_fields().contains(
            (name, value),
        ),
        content.field(name) matches Some(value) ==> content.all_fields().contains((name, value)),
{
    let all = content.all_fields();
    law_all_fields(content);
    let f = value_if(name);
    let k = lemma_find_map_cases(content.fields(), f);
    if k < content.fields().len() {
        assert(all[k] == (name, content.fields()[k].1));
    }
    if content.field(name) is Some && content.field(name) != content.field_ref(name) {
        assert(all[all.len() - 1] == (name, content.field(name)->0));
    }
}

/// The label is what the field `label` holds, if that is a label.
pub proof fn law_label(content: ContentView, label: Seq<char>)
    ensures
        content.label() == Some(label) <==> content.field_ref("label"@) == Some(
            ValueView::Label(label),
        ),
        content.label() is Some <==> content.field_ref("label"@) matches Some(
            ValueView::Label(_),
        ),
{
}

/// Content that is not prepared needs preparation if its element is locatable, if its element
/// synthesizes fields, and if it has a label: each alone is enough. Content with none of these
/// needs none, and neither does prepared content.
pub proof fn law_needs_preparation(content: ContentView)
    ensures
        !content.is_prepared() && content.func.can(TypeId::Locatable)
            ==> content.needs_preparation(),
        !content.is_prepared() && content.func.can(TypeId::Synthesize)
            ==> content.needs_preparation(),
        !content.is_prepared() && content.label() is Some ==> content.needs_preparation(),
        !content.func.can(TypeId::Locatable) && !content.func.can(TypeId::Synthesize)
            && content.label() is None ==> !content.needs_preparation(),
        content.is_prepared() ==> !content.needs_preparation(),
{
}

/// Attaching a label never ends the need for preparation: labelled content needs it exactly if
/// it is not prepared.
pub proof fn law_labelled_needs_preparation(content: ContentView, label: Seq<char>)
    requires
        content.wf(),
    ensures
        content.push_field("label"@, ValueView::Label(label)).needs_preparation()
            <==> !content.is_prepared(),
        content.needs_preparation() ==> content.push_field(
            "label"@,
            ValueView::Label(label),
        ).needs_preparation(),
{
    law_push_field_reads_back(content, "label"@, ValueView::Label(label));
    law_push_field_keeps_the_rest(content, "label"@, ValueView::Label(label));
}

/// A field other than `label` does not change whether content needs preparation.
pub proof fn law_fields_keep_need(content: ContentView, name: Seq<char>, value: ValueView)
    requires
        content.wf(),
        name != "label"@,
    ensures
        content.push_field(name, value).needs_preparation() == content.needs_preparation(),
{
    law_push_field_others(content, name, value, "label"@);
    law_push_field_keeps_the_rest(content, name, value);
}

/// A cast to a type takes the values of that kind as they are, and no others.
pub proof fn law_casts(value: ValueView)
    ensures
        <bool as Cast>::spec_cast(value) == (match value {
            ValueView::Bool(b) => Some(b),
            _ => None,
        }),
        <i64 as Cast>::spec_cast(value) == (match value {
            ValueView::Int(n) => Some(n),
            _ => None,
        }),
        <EcoString as Cast>::spec_cast(value) == (match value {
            ValueView::Str(s) => Some(s),
            _ => None,
        }),
        <Label as Cast>::spec_cast(value) == (match value {
            ValueView::Label(label) => Some(label),
            _ => None,
        }),
        <Content as Cast>::spec_cast(value) == (match value {
            ValueView::Content(content) => Some(content),
            _ => None,
        }),
        <Value as Cast>::spec_cast(value) == Some(value),
{
}

/// What was cast stands for what it stands for elsewhere.
pub proof fn law_cast_models(
    b: bool,
    n: i64,
    s: EcoString,
    label: Label,
    content: Content,
    value: Value,
)
    ensures
        Cast::model(&b) == b,
        Cast::model(&n) == n,
        Cast::model(&s) == eco_chars(s),
        Cast::model(&label) == label@,
        Cast::model(&content) == content@,
        Cast::model(&value) == value@,
{
}

} // verus!
