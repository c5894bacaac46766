//! Casting values to types.

use crate::content::Content;
use crate::eco::eco_chars;
use crate::model::{ContentView, ValueView};
use crate::value::{Label, Value};
use ecow::EcoString;
use vstd::prelude::*;

verus! {

/// Types to which a value can be cast.
pub trait Cast: Sized {
    /// What values of the type stand for.
    type Model;

    /// What this value of the type stands for.
    spec fn model(&self) -> Self::Model;

    /// What a cast gives, if the value can be cast.
    spec fn spec_cast(value: ValueView) -> Option<Self::Model>;

    /// Casts the value.
    fn cast(value: Value) -> (r: Result<Self, Value>)
        ensures
            match (r, Self::spec_cast(value@)) {
                (Ok(cast), Some(model)) => cast.model() == model,
                (Err(back), None) => back == value,
                _ => false,
            },
    ;
}

impl Cast for Value {
    type Model = ValueView;

    open spec fn model(&self) -> ValueView {
        self@
    }

    open spec fn spec_cast(value: ValueView) -> Option<ValueView> {
        Some(value)
    }

    fn cast(value: Value) -> (r: Result<Self, Value>) {
        Ok(value)
    }
}

impl Cast for bool {
    type Model = bool;

    open spec fn model(&self) -> bool {
        *self
    }

    open spec fn spec_cast(value: ValueView) -> Option<bool> {
        match value {
            ValueView::Bool(b) => Some(b),
            _ => None,
        }
    }

    fn cast(value: Value) -> (r: Result<Self, Value>) {
        match value {
            Value::Bool(b) => Ok(b),
            other => Err(other),
        }
    }
}

impl Cast for i64 {
    type Model = int;

    open spec fn model(&self) -> int {
        *self as int
    }

    open spec fn spec_cast(value: ValueView) -> Option<int> {
        match value {
            ValueView::Int(n) => Some(n),
            _ => None,
        }
    }

    fn cast(value: Value) -> (r: Result<Self, Value>) {
        match value {
            Value::Int(n) => Ok(n),
            other => Err(other),
        }
    }
}

impl Cast for EcoString {
    type Model = Seq<char>;

    open spec fn model(&self) -> Seq<char> {
        eco_chars(*self)
    }

    open spec fn spec_cast(value: ValueView) -> Option<Seq<char>> {
        match value {
            ValueView::Str(s) => Some(s),
            _ => None,
        }
    }

    fn cast(value: Value) -> (r: Result<Self, Value>) {
        match value {
            Value::Str(s) => Ok(s),
            other => Err(other),
        }
    }
}

impl Cast for Label {
    type Model = Seq<char>;

    open spec fn model(&self) -> Seq<char> {
        self@
    }

    open spec fn spec_cast(value: ValueView) -> Option<Seq<char>> {
        match value {
            ValueView::Label(label) => Some(label),
            _ => None,
        }
    }

    fn cast(value: Value) -> (r: Result<Self, Value>) {
        match value {
            Value::Label(label) => Ok(label),
            other => Err(other),
        }
    }
}

impl Cast for Content {
    type Model = ContentView;

    open spec fn model(&self) -> ContentView {
        self@
    }

    open spec fn spec_cast(value: ValueView) -> Option<ContentView> {
        match value {
            ValueView::Content(content) => Some(content),
            _ => None,
        }
    }

    fn cast(value: Value) -> (r: Result<Self, Value>) {
        match value {
            Value::Content(content) => Ok(content),
            other => Err(other),
        }
    }
}

} // verus!
