//! Values that fields of content hold.

use crate::content::Content;
use crate::eco::{eco_chars, eco_clone};
use crate::model::ValueView;
use ecow::EcoString;
use vstd::prelude::*;

verus! {

/// A label for an element.
#[derive(Hash)]
pub struct Label(pub EcoString);

impl View for Label {
    type V = Seq<char>;

    open spec fn view(&self) -> Seq<char> {
        eco_chars(self.0)
    }
}

impl Clone for Label {
    fn clone(&self) -> (r: Self)
        ensures
            r@ == self@,
    {
        Label(eco_clone(&self.0))
    }
}

/// A value of a field.
#[derive(Hash)]
pub enum Value {
    /// The absence of a value.
    Nothing,
    /// A default that depends on the context.
    Auto,
    /// A truth value.
    Bool(bool),
    /// A number.
    Int(i64),
    /// A string.
    Str(EcoString),
    /// A label.
    Label(Label),
    /// Content.
    Content(Content),
    /// Values in a row.
    Array(Vec<Value>),
    /// Any other value, by its hash: content never looks into it.
    Dyn(u128),
}

impl Value {
    /// What the value stands for.
    pub open spec fn model(self) -> ValueView
        decreases self,
    {
        match self {
            Value::Nothing => ValueView::Nothing,
            Value::Auto => ValueView::Auto,
            Value::Bool(b) => ValueView::Bool(b),
            Value::Int(n) => ValueView::Int(n as int),
            Value::Str(s) => ValueView::Str(eco_chars(s)),
            Value::Label(label) => ValueView::Label(label@),
            Value::Content(content) => ValueView::Content(content@),
            Value::Array(items) => ValueView::Array(
                Seq::new(
                    items@.len(),
                    |i: int|
                        if 0 <= i < items@.len() {
                            items@[i].model()
                        } else {
                            ValueView::Nothing
                        },
                ),
            ),
            Value::Dyn(hash) => ValueView::Dyn(hash),
        }
    }
}

impl View for Value {
    type V = ValueView;

    open spec fn view(&self) -> ValueView {
        self.model()
    }
}

/// What values in a row stand for.
pub open spec fn value_views(values: Seq<Value>) -> Seq<ValueView> {
    values.map_values(|value: Value| value@)
}

/// An array stands for the array of what its items stand for.
pub(crate) proof fn lemma_array_view(items: Vec<Value>)
    ensures
        Value::Array(items)@ == ValueView::Array(value_views(items@)),
{
    assert(Value::Array(items)@->Array_0 =~= value_views(items@));
}

impl Clone for Value {
    fn clone(&self) -> (r: Self)
        ensures
            r@ == self@,
        decreases self,
    {
        match self {
            Value::Nothing => Value::Nothing,
            Value::Auto => Value::Auto,
            Value::Bool(b) => Value::Bool(*b),
            Value::Int(n) => Value::Int(*n),
            Value::Str(s) => Value::Str(eco_clone(s)),
            Value::Label(label) => Value::Label(label.clone()),
            Value::Content(content) => Value::Content(content.clone()),
            Value::Array(items) => {
                let mut copy: Vec<Value> = Vec::new();
                let mut i: usize = 0;
                while i < items.len()
                    invariant
                        self matches Value::Array(all) && all == items,
                        i <= items@.len(),
                        copy@.len() == i,
                        forall|j: int| 0 <= j < i ==> (#[trigger] copy@[j])@ == items@[j]@,
                    decreases items@.len() - i,
                {
                    copy.push(items[i].clone());
                    i += 1;
                }
                proof {
                    assert(value_views(copy@) =~= value_views(items@));
                    lemma_array_view(copy);
                    lemma_array_view(*items);
                }
                Value::Array(copy)
            },
            Value::Dyn(hash) => Value::Dyn(*hash),
        }
    }
}

} // verus!
