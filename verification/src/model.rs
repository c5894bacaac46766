//! What content is, as a mathematical tree.

use crate::elem::{ElemId, Element, FuncView, SequenceElem, StyledElem, TypeId};
use crate::place::{Location, Span, DETACHED};
use crate::seqs::{find_map, position};
use vstd::prelude::*;

verus! {

/// What a guard stands for.
pub enum GuardView {
    /// The recipe with this number.
    Nth(int),
    /// The base recipe of the element with this identity, by which element functions are told
    /// apart.
    Base(ElemId),
}

/// What content stands for: an element with its attributes.
#[verifier::ext_equal]
pub struct ContentView {
    /// The function of the element.
    pub func: FuncView,
    /// The attributes, in the order in which they were attached.
    pub attrs: Seq<AttrView>,
}

/// What an attribute stands for.
#[verifier::ext_equal]
pub enum AttrView {
    /// Where the content comes from.
    Span(Span),
    /// The name of a field; its value comes next.
    Field(Seq<char>),
    /// The value of the field before it.
    Value(ValueView),
    /// A child of a sequence or of a styled element.
    Child(ContentView),
    /// The styles of a styled element.
    Styles(Seq<StyleView>),
    /// The content is prepared.
    Prepared,
    /// A show rule is disabled.
    Guard(GuardView),
    /// Where the content stands in the document.
    Location(Location),
}

/// What a value stands for.
#[verifier::ext_equal]
pub enum ValueView {
    /// The absence of a value.
    Nothing,
    /// A default that depends on the context.
    Auto,
    /// A truth value.
    Bool(bool),
    /// A number.
    Int(int),
    /// A string.
    Str(Seq<char>),
    /// A label.
    Label(Seq<char>),
    /// Content.
    Content(ContentView),
    /// Values in a row.
    Array(Seq<ValueView>),
    /// Any other value, by its hash.
    Dyn(u128),
}

/// What a style entry stands for.
#[verifier::ext_equal]
pub enum StyleView {
    /// A property, by its hash.
    Property(u128),
    /// A show rule.
    Recipe(RecipeView),
}

/// What a show rule stands for.
#[verifier::ext_equal]
pub struct RecipeView {
    /// The hash of the rule.
    pub hash: u128,
    /// Where the rule comes from.
    pub span: Span,
    /// What the rule applies to; everything that follows if there is none.
    pub selector: Option<SelectorView>,
}

/// What a selector stands for.
#[verifier::ext_equal]
pub enum SelectorView {
    /// Elements with this function, and with these values in their fields.
    Elem(FuncView, Seq<(Seq<char>, ValueView)>),
    /// Elements with this label.
    Label(Seq<char>),
    /// Elements with this capability.
    Can(TypeId),
    /// The element at this location.
    Location(Location),
    /// What at least one of these selects.
    Or(Seq<SelectorView>),
    /// What all of these select.
    And(Seq<SelectorView>),
}

impl StyleView {
    /// The hash by which style entries are told apart.
    pub open spec fn hash(self) -> u128 {
        match self {
            StyleView::Property(hash) => hash,
            StyleView::Recipe(recipe) => recipe.hash,
        }
    }
}

impl AttrView {
    /// The child, if this is one.
    pub open spec fn child(self) -> Option<ContentView> {
        match self {
            AttrView::Child(child) => Some(child),
            _ => None,
        }
    }

    /// The styles, if these are some.
    pub open spec fn styles(self) -> Option<Seq<StyleView>> {
        match self {
            AttrView::Styles(styles) => Some(styles),
            _ => None,
        }
    }

    /// The field name, if this is one.
    pub open spec fn field(self) -> Option<Seq<char>> {
        match self {
            AttrView::Field(name) => Some(name),
            _ => None,
        }
    }

    /// The value, if this is one.
    pub open spec fn value(self) -> Option<ValueView> {
        match self {
            AttrView::Value(value) => Some(value),
            _ => None,
        }
    }

    /// The span, if this is one.
    pub open spec fn span(self) -> Option<Span> {
        match self {
            AttrView::Span(span) => Some(span),
            _ => None,
        }
    }

    /// The location, if this is one.
    pub open spec fn location(self) -> Option<Location> {
        match self {
            AttrView::Location(location) => Some(location),
            _ => None,
        }
    }
}

/// Takes the value of a field with the given name.
pub open spec fn value_if(name: Seq<char>) -> spec_fn((Seq<char>, ValueView)) -> Option<ValueView> {
    |field: (Seq<char>, ValueView)|
        if field.0 == name {
            Some(field.1)
        } else {
            None
        }
}

/// Tells whether an attribute is the given field name.
pub open spec fn is_field(name: Seq<char>) -> spec_fn(AttrView) -> bool {
    |attr: AttrView| attr.field() == Some(name)
}

/// Tells whether a field has the given name.
pub open spec fn is_named(name: Seq<char>) -> spec_fn((Seq<char>, ValueView)) -> bool {
    |field: (Seq<char>, ValueView)| field.0 == name
}

/// Whether a field name stands at `i` exactly if a value stands after it.
pub open spec fn linked(attrs: Seq<AttrView>, i: int) -> bool {
    attrs[i] is Field <==> attrs[i + 1] is Value
}

/// Every field name is followed by a value, and every value follows a field name.
pub open spec fn paired(attrs: Seq<AttrView>) -> bool {
    &&& attrs.len() > 0 ==> !(attrs[0] is Value) && !(attrs.last() is Field)
    &&& forall|i: int| 0 <= i < attrs.len() - 1 ==> #[trigger] linked(attrs, i)
}

/// The fields that a list of attributes holds: each name with the value that comes next to it.
/// A name without a value ends the list.
pub open spec fn fields_of(attrs: Seq<AttrView>) -> Seq<(Seq<char>, ValueView)>
    decreases attrs.len(),
{
    if attrs.len() == 0 {
        seq![]
    } else if attrs[0] is Field {
        if attrs.len() > 1 && attrs[1] is Value {
            seq![(attrs[0]->Field_0, attrs[1]->Value_0)] + fields_of(attrs.skip(2))
        } else {
            seq![]
        }
    } else {
        fields_of(attrs.drop_first())
    }
}

impl ContentView {
    /// An element without attributes.
    pub open spec fn new(func: FuncView) -> Self {
        ContentView { func, attrs: seq![] }
    }

    /// The content with one more attribute.
    pub open spec fn with(self, attr: AttrView) -> Self {
        ContentView { func: self.func, attrs: self.attrs.push(attr) }
    }

    /// The content with one more attribute, before the others.
    pub open spec fn with_first(self, attr: AttrView) -> Self {
        ContentView { func: self.func, attrs: seq![attr] + self.attrs }
    }

    /// Every field name is followed by a value, and every value follows a field name.
    pub open spec fn wf(self) -> bool {
        paired(self.attrs)
    }

    /// Whether this is a sequence.
    pub open spec fn is_sequence(self) -> bool {
        self.func.id == ElemId::Sequence
    }

    /// Whether this is a styled element.
    pub open spec fn is_styled(self) -> bool {
        self.func.id == ElemId::Styled
    }

    /// The children among the attributes.
    pub open spec fn children(self) -> Seq<ContentView> {
        self.attrs.filter_map(|attr: AttrView| attr.child())
    }

    /// The first styles among the attributes.
    pub open spec fn styles(self) -> Option<Seq<StyleView>> {
        find_map(self.attrs, |attr: AttrView| attr.styles())
    }

    /// The first child and the first styles of a styled element.
    pub open spec fn to_styled(self) -> Option<(ContentView, Seq<StyleView>)> {
        if !self.is_styled() {
            None
        } else {
            match (find_map(self.attrs, |attr: AttrView| attr.child()), self.styles()) {
                (Some(child), Some(styles)) => Some((child, styles)),
                _ => None,
            }
        }
    }

    /// The first span among the attributes.
    pub open spec fn first_span(self) -> Option<Span> {
        find_map(self.attrs, |attr: AttrView| attr.span())
    }

    /// The first span among the attributes; the detached one if there is none.
    pub open spec fn span(self) -> Span {
        match self.first_span() {
            Some(span) => span,
            None => Span { number: DETACHED },
        }
    }

    /// The content with a span, if it has none that points somewhere. A detached span that is
    /// attached already stays behind the new one.
    pub open spec fn spanned(self, span: Span) -> Self {
        match self.first_span() {
            None => self.with(AttrView::Span(span)),
            Some(first) if first.number == DETACHED => self.with_first(AttrView::Span(span)),
            Some(_) => self,
        }
    }

    /// The first location that was attached.
    pub open spec fn location(self) -> Option<Location> {
        find_map(self.attrs, |attr: AttrView| attr.location())
    }

    /// The fields that are attached to the content.
    pub open spec fn fields(self) -> Seq<(Seq<char>, ValueView)> {
        fields_of(self.attrs)
    }

    /// The value of the first field with the given name.
    pub open spec fn field_ref(self, name: Seq<char>) -> Option<ValueView> {
        find_map(self.fields(), value_if(name))
    }

    /// Where the first field name with the given characters stands; the number of attributes if
    /// it stands nowhere.
    pub open spec fn field_index(self, name: Seq<char>) -> int {
        position(self.attrs, is_field(name))
    }

    /// The content with the given value in the given field: in place of the value that the first
    /// field of that name has, or else in a new field at the end.
    pub open spec fn push_field(self, name: Seq<char>, value: ValueView) -> Self {
        let i = self.field_index(name);
        if i < self.attrs.len() {
            ContentView {
                func: self.func,
                attrs: self.attrs.update(i + 1, AttrView::Value(value)),
            }
        } else {
            self.with(AttrView::Field(name)).with(AttrView::Value(value))
        }
    }

    /// The children as values.
    pub open spec fn child_values(self) -> Seq<ValueView> {
        self.children().map_values(|child: ContentView| ValueView::Content(child))
    }

    /// What a field access gives: the children of a sequence as its field `children`, the child
    /// of a styled element as its field `child`, and otherwise what the attached field holds.
    pub open spec fn field(self, name: Seq<char>) -> Option<ValueView> {
        if self.is_sequence() && name == "children"@ {
            Some(ValueView::Array(self.child_values()))
        } else {
            match self.to_styled() {
                Some((child, _)) if name == "child"@ => Some(ValueView::Content(child)),
                _ => self.field_ref(name),
            }
        }
    }

    /// The field that a sequence or a styled element has without its being attached.
    pub open spec fn synthesized(self) -> Option<(Seq<char>, ValueView)> {
        if self.is_sequence() {
            Some(("children"@, ValueView::Array(self.child_values())))
        } else {
            match self.to_styled() {
                Some((child, _)) => Some(("child"@, ValueView::Content(child))),
                None => None,
            }
        }
    }

    /// The label, if the field `label` holds one.
    pub open spec fn label(self) -> Option<Seq<char>> {
        match self.field_ref("label"@) {
            Some(ValueView::Label(label)) => Some(label),
            _ => None,
        }
    }

    /// Whether no show rule is disabled.
    pub open spec fn is_pristine(self) -> bool {
        forall|i: int| 0 <= i < self.attrs.len() ==> !(#[trigger] self.attrs[i] is Guard)
    }

    /// Whether the content was marked as prepared.
    pub open spec fn is_prepared(self) -> bool {
        self.attrs.contains(AttrView::Prepared)
    }

    /// Whether the content is locatable, synthesizes fields or has a label, and is not prepared.
    pub open spec fn needs_preparation(self) -> bool {
        &&& self.func.can(TypeId::Locatable) || self.func.can(TypeId::Synthesize)
            || self.label() is Some
        &&& !self.is_prepared()
    }

    /// A sequence without children.
    pub open spec fn empty() -> Self {
        ContentView::new(SequenceElem::func_view())
    }

    /// Content in a row: a single one stands for itself.
    pub open spec fn sequence(items: Seq<ContentView>) -> Self {
        if items.len() == 1 {
            items[0]
        } else {
            ContentView {
                func: SequenceElem::func_view(),
                attrs: items.map_values(|item: ContentView| AttrView::Child(item)),
            }
        }
    }

    /// One content after another.
    pub open spec fn concat(self, rhs: Self) -> Self {
        if self.is_sequence() && rhs.is_sequence() {
            ContentView { func: self.func, attrs: self.attrs + rhs.attrs }
        } else if self.is_sequence() {
            self.with(AttrView::Child(rhs))
        } else if rhs.is_sequence() {
            rhs.with_first(AttrView::Child(self))
        } else {
            ContentView::sequence(seq![self, rhs])
        }
    }

    /// The content with styles around it: they join those of a styled element as outer ones, and
    /// make a styled element of any other content.
    pub open spec fn wrapped(self, styles: Seq<StyleView>) -> Self {
        if self.is_styled() {
            let i = position(self.attrs, |attr: AttrView| attr.styles() is Some);
            ContentView {
                func: self.func,
                attrs: self.attrs.update(
                    i,
                    AttrView::Styles(styles + self.attrs[i]->Styles_0),
                ),
            }
        } else {
            ContentView {
                func: StyledElem::func_view(),
                attrs: seq![AttrView::Child(self), AttrView::Styles(styles)],
            }
        }
    }
}

} // verus!
