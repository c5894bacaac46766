//! Content.

use crate::attr::{attr_views, Attr, Attrs, Guard};
use crate::cast::Cast;
use crate::eco::{eco_chars, eco_eq, eco_eq_str, eco_from, str_eq};
use crate::elem::{
    Capability, ElemFunc, Element, Locatable, SequenceElem, StyledElem, Synthesize, TypeId, Vtable,
};
use crate::fields::{
    lemma_paired_add, lemma_paired_push, lemma_paired_push_field, lemma_paired_update,
    lemma_paired_value_update,
};
use crate::message::{debug_chars, missing_field, missing_field_chars, repeat_chars, repeat_message};
use crate::model::{
    fields_of, is_field, linked, paired, value_if, AttrView, ContentView, StyleView, ValueView,
};
use crate::place::{Location, Span};
use crate::seqs::{
    find_map, lemma_find_map_at, lemma_find_map_cases, lemma_find_map_none, lemma_position,
    lemma_position_is, position,
};
use crate::style::{Recipe, Style, Styles};
use crate::value::{lemma_array_view, value_views, Label, Value};
use ecow::EcoString;
use std::marker::PhantomData;
use vstd::prelude::*;

verus! {

/// Composable representation of styled content.
#[derive(Hash)]
pub struct Content {
    func: ElemFunc,
    attrs: Attrs,
}

impl View for Content {
    type V = ContentView;

    closed spec fn view(&self) -> ContentView {
        ContentView { func: self.func@, attrs: self.attrs@ }
    }
}

/// What content in a row stands for.
pub open spec fn content_views(contents: Seq<&Content>) -> Seq<ContentView> {
    contents.map_values(|content: &Content| content@)
}

/// What owned content in a row stands for.
pub open spec fn owned_views(contents: Seq<Content>) -> Seq<ContentView> {
    contents.map_values(|content: Content| content@)
}

/// What fields with owned values in a row stand for.
pub open spec fn owned_field_views(fields: Seq<(&EcoString, Value)>) -> Seq<
    (Seq<char>, ValueView),
> {
    fields.map_values(|field: (&EcoString, Value)| (eco_chars(*field.0), field.1@))
}

/// What fields in a row stand for.
pub open spec fn field_views(fields: Seq<(&EcoString, &Value)>) -> Seq<(Seq<char>, ValueView)> {
    fields.map_values(|field: (&EcoString, &Value)| (eco_chars(*field.0), field.1@))
}

impl Content {
    /// Every field name is followed by its value.
    #[verifier::type_invariant]
    spec fn fields_paired(self) -> bool {
        self@.wf()
    }

    /// Create an empty element.
    pub fn new(func: ElemFunc) -> (r: Self)
        ensures
            r@ == ContentView::new(func@),
            r@.wf(),
    {
        Content { func, attrs: Attrs::new() }
    }

    /// Create empty content.
    pub fn empty() -> (r: Self)
        ensures
            r@ == ContentView::empty(),
            r@.wf(),
    {
        Self::new(SequenceElem::func())
    }

    /// Create a new sequence element from multiples elements.
    pub fn sequence(items: Vec<Self>) -> (r: Self)
        ensures
            r@ == ContentView::sequence(owned_views(items@)),
            r@.wf(),
    {
        let ghost views = owned_views(items@);
        let ghost attr_of = |item: ContentView| AttrView::Child(item);
        if items.len() == 1 {
            let mut items = items;
            let only = items.remove(0);
            proof {
                use_type_invariant(&only);
            }
            return only;
        }
        let mut attrs = Attrs::new();
        for item in iter: items
            invariant
                iter.seq() == items@,
                views == owned_views(items@),
                attr_of == (|item: ContentView| AttrView::Child(item)),
                attrs@ =~= views.map_values(attr_of).take(iter.index() as int),
        {
            attrs.push(Attr::Child(item));
        }
        assert(attrs@ =~= views.map_values(attr_of));
        assert(paired(attrs@)) by {
            assert(forall|j: int| 0 <= j < attrs@.len() - 1 ==> #[trigger] linked(attrs@, j));
        }
        Content { func: SequenceElem::func(), attrs }
    }

    /// The element function of the contained content.
    pub fn func(&self) -> (r: ElemFunc)
        ensures
            r@ == self@.func,
    {
        self.func
    }

    /// Whether the content is an empty sequence.
    pub fn is_empty(&self) -> (r: bool)
        ensures
            r == (self@.is_sequence() && self@.attrs.len() == 0),
    {
        self.is::<SequenceElem>() && self.attrs().is_empty()
    }

    /// Whether the contained element is of type `T`.
    pub fn is<T: Element>(&self) -> (r: bool)
        ensures
            r == (self@.func.id == T::func_view().id),
    {
        self.func == T::func()
    }

    /// Cast to `T` if the contained element is of type `T`.
    pub fn to<T: Element>(&self) -> (r: Option<ElemRef<'_, T>>)
        ensures
            r is Some <==> self@.func.id == T::func_view().id,
            r matches Some(elem) ==> elem.content == self,
    {
        if self.is::<T>() {
            Some(ElemRef { content: self, kind: PhantomData })
        } else {
            None
        }
    }

    /// The attributes, in order.
    pub(crate) fn attrs(&self) -> (r: &[Attr])
        ensures
            attr_views(r@) == self@.attrs,
            self@.wf(),
    {
        proof {
            use_type_invariant(self);
        }
        self.attrs.as_slice()
    }

    /// Access the children if this is a sequence.
    pub fn to_sequence(&self) -> (r: Option<Vec<&Self>>)
        ensures
            r is Some <==> self@.is_sequence(),
            r matches Some(children) ==> content_views(children@) == self@.children(),
            r matches Some(children) ==> forall|i: int|
                0 <= i < children@.len() ==> (#[trigger] children@[i])@.wf(),
    {
        if !self.is::<SequenceElem>() {
            return None;
        }
        let attrs = self.attrs();
        let mut children: Vec<&Content> = Vec::new();
        let mut i: usize = 0;
        let ghost f = |attr: AttrView| attr.child();
        while i < attrs.len()
            invariant
                i <= attrs@.len(),
                attr_views(attrs@) == self@.attrs,
                f == (|attr: AttrView| attr.child()),
                content_views(children@) == self@.attrs.take(i as int).filter_map(f),
                forall|j: int| 0 <= j < children@.len() ==> (#[trigger] children@[j])@.wf(),
            decreases attrs@.len() - i,
        {
            proof {
                self@.attrs.lemma_filter_map_take_succ(f, i as int);
                assert(self@.attrs[i as int] == attrs@[i as int]@);
            }
            let ghost before = children@;
            if let Some(child) = attrs[i].child() {
                proof {
                    use_type_invariant(child);
                }
                children.push(child);
                assert(content_views(children@) =~= content_views(before).push(child@));
            }
            i += 1;
        }
        assert(self@.attrs.take(i as int) =~= self@.attrs);
        Some(children)
    }

    /// Access the child and styles.
    pub fn to_styled(&self) -> (r: Option<(&Content, &Styles)>)
        ensures
            r is Some <==> self@.to_styled() is Some,
            r matches Some((child, styles)) ==> self@.to_styled() == Some((child@, styles@))
                && child@.wf(),
    {
        if !self.is::<StyledElem>() {
            return None;
        }
        let attrs = self.attrs();
        match (find_child(attrs), find_styles(attrs)) {
            (Some(child), Some(styles)) => {
                proof {
                    use_type_invariant(child);
                }
                Some((child, styles))
            },
            _ => None,
        }
    }

    /// Whether the contained element has the given capability.
    pub fn can<C: ?Sized + Capability>(&self) -> (r: bool)
        ensures
            r == self@.func.can(C::spec_id()),
    {
        self.func.vtable_of(C::id()).is_some()
    }

    /// Whether the contained element has the given capability.
    /// Where the capability is given by a `TypeId`.
    pub fn can_type_id(&self, type_id: TypeId) -> (r: bool)
        ensures
            r == self@.func.can(type_id),
    {
        self.func.vtable_of(type_id).is_some()
    }

    /// Cast to the methods of a capability if the contained element has it.
    pub fn with<C: ?Sized + Capability>(&self) -> (r: Option<CapabilityRef<'_, C>>)
        ensures
            match self@.func.vtable_of(C::spec_id()) {
                Some(vtable) => r matches Some(c) && c.content == self && c.vtable == vtable,
                None => r is None,
            },
    {
        match self.func.vtable_of(C::id()) {
            Some(vtable) => Some(CapabilityRef { content: self, vtable, kind: PhantomData }),
            None => None,
        }
    }

    /// Cast to the methods of a capability, to change the content, if the contained element has
    /// it.
    pub fn with_mut<C: ?Sized + Capability>(&mut self) -> (r: Option<CapabilityMut<'_, C>>)
        ensures
            match old(self)@.func.vtable_of(C::spec_id()) {
                Some(vtable) => r matches Some(c) && *c.content == *old(self) && c.vtable
                    == vtable && *final(self) == *final(c.content),
                None => r is None && *final(self) == *old(self),
            },
    {
        match self.func.vtable_of(C::id()) {
            Some(vtable) => Some(CapabilityMut { content: self, vtable, kind: PhantomData }),
            None => None,
        }
    }

    /// The content's span.
    pub fn span(&self) -> (r: Span)
        ensures
            r == self@.span(),
    {
        match find_span(self.attrs()) {
            Some(span) => span,
            None => Span::detached(),
        }
    }

    /// Attach a span to the content if it doesn't already have one.
    ///
    /// A detached span counts for none.
    pub fn spanned(self, span: Span) -> (r: Self)
        ensures
            r@ == self@.spanned(span),
            r@.wf(),
    {
        proof {
            use_type_invariant(&self);
        }
        match find_span(self.attrs()) {
            None => self.with_attr(Attr::Span(span)),
            Some(first) => if first.is_detached() {
                self.with_first_attr(Attr::Span(span))
            } else {
                self
            },
        }
    }

    /// Attach a field to the content.
    pub fn with_field(self, name: EcoString, value: Value) -> (r: Self)
        ensures
            r@ == self@.push_field(eco_chars(name), value@),
            r@.wf(),
    {
        let mut content = self;
        content.push_field(name, value);
        content
    }

    /// Attach a field to the content.
    pub fn push_field(&mut self, name: EcoString, value: Value)
        ensures
            final(self)@ == old(self)@.push_field(eco_chars(name), value@),
            final(self)@.wf(),
    {
        proof {
            use_type_invariant(&*self);
        }
        let ghost before = self@;
        let mut attrs = Attrs::new();
        std::mem::swap(&mut attrs, &mut self.attrs);
        match field_position(attrs.as_slice(), &name) {
            Some(i) => {
                proof {
                    let pred = is_field(eco_chars(name));
                    lemma_position(before.attrs, pred);
                    assert(pred(before.attrs[i as int]));
                    lemma_paired_value_update(before.attrs, i as int, value@);
                }
                let slots = attrs.make_mut();
                assert(slots.len() == before.attrs.len());
                slots[i + 1] = Attr::Value(value);
                assert(attr_views(slots@) =~= before.attrs.update(i + 1, AttrView::Value(value@)));
            },
            None => {
                attrs.push(Attr::Field(name));
                attrs.push(Attr::Value(value));
                proof {
                    lemma_paired_push_field(before.attrs, eco_chars(name), value@);
                }
            },
        }
        self.attrs = attrs;
    }

    /// The children of a sequence, as the value of a field.
    pub(crate) fn child_array(&self) -> (r: Option<Value>)
        ensures
            r is Some <==> self@.is_sequence(),
            r matches Some(value) ==> value@ == ValueView::Array(self@.child_values()),
    {
        match self.to_sequence() {
            None => None,
            Some(children) => {
                let mut items: Vec<Value> = Vec::new();
                let mut i: usize = 0;
                while i < children.len()
                    invariant
                        i <= children@.len(),
                        content_views(children@) == self@.children(),
                        items@.len() == i,
                        forall|j: int|
                            0 <= j < i ==> (#[trigger] items@[j])@ == ValueView::Content(
                                self@.children()[j],
                            ),
                    decreases children@.len() - i,
                {
                    assert(content_views(children@)[i as int] == children@[i as int]@);
                    items.push(Value::Content(children[i].clone()));
                    i += 1;
                }
                proof {
                    assert(content_views(children@).len() == items@.len());
                    lemma_array_view(items);
                    assert(value_views(items@) =~= self@.child_values());
                }
                Some(Value::Array(items))
            },
        }
    }

    /// Access a field on the content.
    ///
    /// A sequence has its children in the field `children`, and a styled element has its child in
    /// the field `child`.
    pub fn field(&self, name: &str) -> (r: Option<Value>)
        ensures
            r is Some <==> self@.field(name@) is Some,
            r matches Some(value) ==> self@.field(name@) == Some(value@),
    {
        if str_eq(name, "children") {
            if let Some(children) = self.child_array() {
                return Some(children);
            }
        }
        if str_eq(name, "child") {
            if let Some((child, _)) = self.to_styled() {
                return Some(Value::Content(child.clone()));
            }
        }
        match self.field_ref(name) {
            Some(value) => Some(value.clone()),
            None => None,
        }
    }

    /// Access a field on the content by reference.
    ///
    /// Does not include synthesized fields for sequence and styled elements.
    pub fn field_ref(&self, name: &str) -> (r: Option<&Value>)
        ensures
            r is Some <==> self@.field_ref(name@) is Some,
            r matches Some(value) ==> self@.field_ref(name@) == Some(value@),
    {
        let fields = self.fields_ref();
        let ghost views = self@.fields();
        let ghost f = value_if(name@);
        let mut i: usize = 0;
        while i < fields.len()
            invariant
                i <= fields@.len(),
                views == field_views(fields@),
                views == self@.fields(),
                f == value_if(name@),
                forall|j: int| 0 <= j < i ==> f(#[trigger] views[j]) is None,
            decreases fields@.len() - i,
        {
            assert(views[i as int] == (eco_chars(*fields@[i as int].0), fields@[i as int].1@));
            if eco_eq_str(fields[i].0, name) {
                proof {
                    lemma_find_map_at(views, f, i as int);
                }
                return Some(fields[i].1);
            }
            i += 1;
        }
        proof {
            lemma_find_map_none(views, f);
        }
        None
    }

    /// Iter over all fields on the content.
    ///
    /// Does not include synthesized fields for sequence and styled elements; see
    /// [`all_fields`](Content::all_fields) for those.
    pub fn fields(&self) -> (r: Vec<(&EcoString, Value)>)
        ensures
            owned_field_views(r@) == self@.fields(),
    {
        let fields = self.fields_ref();
        let mut owned: Vec<(&EcoString, Value)> = Vec::new();
        let mut i: usize = 0;
        while i < fields.len()
            invariant
                i <= fields@.len(),
                owned@.len() == i,
                forall|j: int|
                    0 <= j < i ==> (#[trigger] owned@[j]).0 == fields@[j].0 && owned@[j].1@
                        == fields@[j].1@,
            decreases fields@.len() - i,
        {
            owned.push((fields[i].0, fields[i].1.clone()));
            i += 1;
        }
        assert(owned_field_views(owned@) =~= field_views(fields@));
        owned
    }

    /// Iter over all fields on the content.
    ///
    /// Does not include synthesized fields for sequence and styled elements.
    pub fn fields_ref(&self) -> (r: Vec<(&EcoString, &Value)>)
        ensures
            field_views(r@) == self@.fields(),
            self@.wf(),
    {
        let attrs = self.attrs();
        let ghost views = self@.attrs;
        let mut fields: Vec<(&EcoString, &Value)> = Vec::new();
        let mut i: usize = 0;
        assert(views.skip(0) =~= views);
        assert(field_views(fields@) + fields_of(views) =~= fields_of(views));
        while i < attrs.len()
            invariant
                i <= attrs@.len(),
                views == attr_views(attrs@),
                paired(views),
                field_views(fields@) + fields_of(views.skip(i as int)) == fields_of(views),
            decreases attrs@.len() - i,
        {
            assert(views[i as int] == attrs@[i as int]@);
            let ghost rest = views.skip(i as int);
            if let Some(field) = attrs[i].field() {
                assert(i + 1 < attrs@.len());
                assert(linked(views, i as int));
                assert(views[i + 1] == attrs@[i + 1]@);
                if let Some(value) = attrs[i + 1].value() {
                    let ghost before = fields@;
                    fields.push((field, value));
                    proof {
                        assert(rest.skip(2) =~= views.skip(i + 2));
                        assert(field_views(fields@) =~= field_views(before).push(
                            (eco_chars(*field), value@),
                        ));
                        assert(field_views(fields@) + fields_of(views.skip(i + 2))
                            =~= field_views(before) + fields_of(rest));
                    }
                }
                i += 2;
            } else {
                assert(rest.drop_first() =~= views.skip(i + 1));
                i += 1;
            }
        }
        assert(field_views(fields@) + fields_of(views.skip(i as int)) =~= field_views(fields@));
        fields
    }

    /// Try to access a field on the content as a specified type.
    pub fn cast_field<T: Cast>(&self, name: &str) -> (r: Option<T>)
        ensures
            match self@.field(name@) {
                Some(value) => match (r, T::spec_cast(value)) {
                    (Some(cast), Some(model)) => cast.model() == model,
                    (None, None) => true,
                    _ => false,
                },
                None => r is None,
            },
    {
        match self.field(name) {
            Some(value) => match T::cast(value) {
                Ok(cast) => Some(cast),
                Err(_) => None,
            },
            None => None,
        }
    }

    /// Expect a field on the content to exist as a specified type.
    pub fn expect_field<T: Cast>(&self, name: &str) -> (r: T)
        requires
            self@.field(name@) matches Some(value) && T::spec_cast(value) is Some,
        ensures
            self@.field(name@) matches Some(value) && T::spec_cast(value) == Some(r.model()),
    {
        match self.cast_field::<T>(name) {
            Some(cast) => cast,
            None => vstd::pervasive::unreached(),
        }
    }

    /// Whether the content has the specified field.
    pub fn has(&self, field: &str) -> (r: bool)
        ensures
            r == (self@.field(field@) is Some),
    {
        self.field(field).is_some()
    }

    /// Borrow the value of the given field.
    pub fn at(&self, field: &str) -> (r: Result<Value, EcoString>)
        ensures
            match self@.field(field@) {
                Some(value) => r matches Ok(found) && found@ == value,
                None => r matches Err(message) && eco_chars(message) == missing_field_chars(
                    debug_chars(field@),
                ),
            },
    {
        match self.field(field) {
            Some(value) => Ok(value),
            None => Err(missing_field(field)),
        }
    }

    /// The content's label.
    pub fn label(&self) -> (r: Option<&Label>)
        ensures
            r is Some <==> self@.label() is Some,
            r matches Some(label) ==> self@.label() == Some(label@),
    {
        match self.field_ref("label") {
            Some(Value::Label(label)) => Some(label),
            _ => None,
        }
    }

    /// Attach a label to the content.
    pub fn labelled(self, label: Label) -> (r: Self)
        ensures
            r@ == self@.push_field("label"@, ValueView::Label(label@)),
            r@.wf(),
    {
        self.with_field(eco_from("label"), Value::Label(label))
    }

    /// Style this content with a style entry.
    pub fn styled(self, style: Style) -> (r: Self)
        requires
            self@.is_styled() ==> self@.styles() is Some,
        ensures
            r@ == self@.wrapped(seq![style@]),
            r@.wf(),
    {
        self.styled_with_map(Styles::single(style))
    }

    /// Style this content with a full style map.
    pub fn styled_with_map(self, styles: Styles) -> (r: Self)
        requires
            self@.is_styled() && styles@.len() > 0 ==> self@.styles() is Some,
        ensures
            styles@.len() == 0 ==> r@ == self@,
            styles@.len() > 0 ==> r@ == self@.wrapped(styles@),
            r@.wf(),
    {
        proof {
            use_type_invariant(&self);
        }
        if styles.is_empty() {
            return self;
        }
        if self.is::<StyledElem>() {
            let ghost before = self@;
            let ghost i = lemma_find_map_cases(before.attrs, |attr: AttrView| attr.styles());
            let mut attrs = self.attrs;
            let index = styles_position(attrs.as_slice());
            let slots = attrs.make_mut();
            proof {
                lemma_position_is(before.attrs, |attr: AttrView| attr.styles() is Some, i);
                assert(attr_views(slots@)[i] == slots@[i]@);
            }
            if let Some(prev) = slots[index].styles_mut() {
                prev.apply(styles);
            }
            proof {
                let attr = AttrView::Styles(styles@ + before.attrs[i]->Styles_0);
                assert(slots@[i]@ == attr);
                assert(attr_views(slots@) =~= before.attrs.update(i, attr));
                lemma_paired_update(before.attrs, i, attr);
            }
            Content { func: self.func, attrs }
        } else {
            let mut attrs = Attrs::new();
            attrs.push(Attr::Child(self));
            attrs.push(Attr::Styles(styles));
            assert(attrs@ =~= seq![AttrView::Child(self@), AttrView::Styles(styles@)]);
            assert(linked(attrs@, 0));
            Content { func: StyledElem::func(), attrs }
        }
    }

    /// Style this content with a recipe, or hand it back to be eagerly applied if possible.
    pub fn styled_with_recipe(self, recipe: Recipe) -> (r: RecipeStep)
        requires
            self@.is_styled() && recipe.selector is Some ==> self@.styles() is Some,
        ensures
            match r {
                RecipeStep::Apply(rule, content) => recipe.selector is None && rule == recipe
                    && content@ == self@ && content@.wf(),
                RecipeStep::Done(content) => recipe.selector is Some && content@ == self@.wrapped(
                    seq![StyleView::Recipe(recipe@)],
                ) && content@.wf(),
            },
    {
        proof {
            use_type_invariant(&self);
        }
        if recipe.selector.is_none() {
            RecipeStep::Apply(recipe, self)
        } else {
            RecipeStep::Done(self.styled(Style::Recipe(recipe)))
        }
    }

    /// Repeat this content `n` times.
    ///
    /// The memory for the copies is taken for granted, as with every other allocation.
    pub fn repeat(&self, n: i64) -> (r: Result<Self, EcoString>)
        ensures
            if 0 <= n <= usize::MAX {
                r matches Ok(content) && content@ == ContentView::sequence(
                    Seq::new(n as nat, |i: int| self@),
                ) && content@.wf()
            } else {
                r matches Err(message) && eco_chars(message) == repeat_chars(n as int)
            },
    {
        match usize::try_from(n) {
            Ok(count) => {
                let items = vec![self.clone(); count];
                assert(owned_views(items@) =~= Seq::new(n as nat, |i: int| self@));
                Ok(Self::sequence(items))
            },
            Err(_) => Err(repeat_message(n)),
        }
    }

    /// Disable a show rule recipe.
    pub fn guarded(self, guard: Guard) -> (r: Self)
        ensures
            r@ == self@.with(AttrView::Guard(guard@)),
            r@.wf(),
    {
        self.with_attr(Attr::Guard(guard))
    }

    /// Check whether a show rule recipe is disabled.
    pub fn is_guarded(&self, guard: Guard) -> (r: bool)
        ensures
            r == self@.attrs.contains(AttrView::Guard(guard@)),
    {
        let attrs = self.attrs();
        let ghost views = self@.attrs;
        let mut i: usize = 0;
        while i < attrs.len()
            invariant
                i <= attrs@.len(),
                views == attr_views(attrs@),
                views == self@.attrs,
                forall|j: int| 0 <= j < i ==> #[trigger] views[j] != AttrView::Guard(guard@),
            decreases attrs@.len() - i,
        {
            assert(views[i as int] == attrs@[i as int]@);
            if let Attr::Guard(found) = &attrs[i] {
                if *found == guard {
                    return true;
                }
            }
            i += 1;
        }
        false
    }

    /// Whether no show rule was executed for this content so far.
    pub fn is_pristine(&self) -> (r: bool)
        ensures
            r == self@.is_pristine(),
    {
        let attrs = self.attrs();
        let ghost views = self@.attrs;
        let mut i: usize = 0;
        while i < attrs.len()
            invariant
                i <= attrs@.len(),
                views == attr_views(attrs@),
                views == self@.attrs,
                forall|j: int| 0 <= j < i ==> !(#[trigger] views[j] is Guard),
            decreases attrs@.len() - i,
        {
            assert(views[i as int] == attrs@[i as int]@);
            if let Attr::Guard(_) = &attrs[i] {
                return false;
            }
            i += 1;
        }
        true
    }

    /// Whether this content has already been prepared.
    pub fn is_prepared(&self) -> (r: bool)
        ensures
            r == self@.is_prepared(),
    {
        let attrs = self.attrs();
        let ghost views = self@.attrs;
        let mut i: usize = 0;
        while i < attrs.len()
            invariant
                i <= attrs@.len(),
                views == attr_views(attrs@),
                views == self@.attrs,
                forall|j: int| 0 <= j < i ==> #[trigger] views[j] != AttrView::Prepared,
            decreases attrs@.len() - i,
        {
            assert(views[i as int] == attrs@[i as int]@);
            if let Attr::Prepared = &attrs[i] {
                return true;
            }
            i += 1;
        }
        false
    }

    /// Mark this content as prepared.
    pub fn mark_prepared(&mut self)
        ensures
            final(self)@ == old(self)@.with(AttrView::Prepared),
            final(self)@.wf(),
    {
        self.push_attr(Attr::Prepared)
    }

    /// Whether the content needs to be realized specially.
    pub fn needs_preparation(&self) -> (r: bool)
        ensures
            r == self@.needs_preparation(),
    {
        (self.can::<dyn Locatable>() || self.can::<dyn Synthesize>() || self.label().is_some())
            && !self.is_prepared()
    }

    /// This content's location in the document flow.
    pub fn location(&self) -> (r: Option<Location>)
        ensures
            r == self@.location(),
    {
        let attrs = self.attrs();
        let ghost views = self@.attrs;
        let ghost f = |attr: AttrView| attr.location();
        let mut i: usize = 0;
        while i < attrs.len()
            invariant
                i <= attrs@.len(),
                views == attr_views(attrs@),
                views == self@.attrs,
                f == (|attr: AttrView| attr.location()),
                forall|j: int| 0 <= j < i ==> f(#[trigger] views[j]) is None,
            decreases attrs@.len() - i,
        {
            assert(views[i as int] == attrs@[i as int]@);
            if let Attr::Location(location) = &attrs[i] {
                proof {
                    lemma_find_map_at(views, f, i as int);
                }
                return Some(*location);
            }
            i += 1;
        }
        proof {
            lemma_find_map_none(views, f);
        }
        None
    }

    /// Attach a location to this content.
    pub fn set_location(&mut self, location: Location)
        ensures
            final(self)@ == old(self)@.with(AttrView::Location(location)),
            final(self)@.wf(),
    {
        self.push_attr(Attr::Location(location))
    }

    /// Add up content: the parts in a row.
    pub fn sum(items: Vec<Self>) -> (r: Self)
        ensures
            r@ == ContentView::sequence(owned_views(items@)),
            r@.wf(),
    {
        Self::sequence(items)
    }

    /// The content with one more attribute at the end.
    pub(crate) fn with_attr(self, attr: Attr) -> (r: Self)
        requires
            !(attr@ is Field),
            !(attr@ is Value),
        ensures
            r@ == self@.with(attr@),
            r@.wf(),
    {
        proof {
            use_type_invariant(&self);
            lemma_paired_push(self@.attrs, attr@);
        }
        let mut attrs = self.attrs;
        attrs.push(attr);
        Content { func: self.func, attrs }
    }

    /// Attaches one more attribute at the end.
    fn push_attr(&mut self, attr: Attr)
        requires
            !(attr@ is Field),
            !(attr@ is Value),
        ensures
            final(self)@ == old(self)@.with(attr@),
            final(self)@.wf(),
    {
        proof {
            use_type_invariant(&*self);
            lemma_paired_push(self@.attrs, attr@);
        }
        let mut attrs = Attrs::new();
        std::mem::swap(&mut attrs, &mut self.attrs);
        attrs.push(attr);
        self.attrs = attrs;
    }

    /// The content with the attributes of other content after its own.
    pub(crate) fn extended(self, other: Self) -> (r: Self)
        ensures
            r@ == (ContentView { func: self@.func, attrs: self@.attrs + other@.attrs }),
            r@.wf(),
    {
        proof {
            use_type_invariant(&self);
            use_type_invariant(&other);
            lemma_paired_add(self@.attrs, other@.attrs);
        }
        let mut attrs = self.attrs;
        attrs.extend(other.attrs);
        Content { func: self.func, attrs }
    }

    /// The content with one more attribute before the others.
    pub(crate) fn with_first_attr(self, attr: Attr) -> (r: Self)
        requires
            !(attr@ is Field),
            !(attr@ is Value),
        ensures
            r@ == self@.with_first(attr@),
            r@.wf(),
    {
        proof {
            use_type_invariant(&self);
            lemma_paired_add(seq![attr@], self@.attrs);
        }
        let ghost view = attr@;
        let ghost before = self@.attrs;
        let mut attrs = self.attrs;
        attrs.insert(0, attr);
        assert(attrs@ =~= seq![view] + before);
        Content { func: self.func, attrs }
    }
}

/// Content that is known to be an element of type `T`.
pub struct ElemRef<'a, T> {
    /// The content.
    pub content: &'a Content,
    /// The type of the element.
    pub kind: PhantomData<T>,
}

/// Content with the methods by which its element implements a capability.
pub struct CapabilityRef<'a, C: ?Sized> {
    /// The content.
    pub content: &'a Content,
    /// The methods.
    pub vtable: Vtable,
    /// The capability.
    pub kind: PhantomData<C>,
}

/// Content to be changed, with the methods by which its element implements a capability.
pub struct CapabilityMut<'a, C: ?Sized> {
    /// The content.
    pub content: &'a mut Content,
    /// The methods.
    pub vtable: Vtable,
    /// The capability.
    pub kind: PhantomData<C>,
}

/// What is left to do to style content with a recipe.
pub enum RecipeStep {
    /// The recipe is to be applied to the content right away.
    Apply(Recipe, Content),
    /// Nothing: the content is styled.
    Done(Content),
}

/// The first child among the attributes.
fn find_child(attrs: &[Attr]) -> (r: Option<&Content>)
    ensures
        r is Some <==> find_map(attr_views(attrs@), |attr: AttrView| attr.child()) is Some,
        r matches Some(child) ==> find_map(attr_views(attrs@), |attr: AttrView| attr.child())
            == Some(child@),
{
    let ghost views = attr_views(attrs@);
    let ghost f = |attr: AttrView| attr.child();
    let mut i: usize = 0;
    while i < attrs.len()
        invariant
            i <= attrs@.len(),
            views == attr_views(attrs@),
            f == (|attr: AttrView| attr.child()),
            forall|j: int| 0 <= j < i ==> f(#[trigger] views[j]) is None,
        decreases attrs@.len() - i,
    {
        assert(views[i as int] == attrs@[i as int]@);
        if let Some(child) = attrs[i].child() {
            proof {
                lemma_find_map_at(views, f, i as int);
            }
            return Some(child);
        }
        i += 1;
    }
    proof {
        lemma_find_map_none(views, f);
    }
    None
}

/// The first span among the attributes.
fn find_span(attrs: &[Attr]) -> (r: Option<Span>)
    ensures
        r == find_map(attr_views(attrs@), |attr: AttrView| attr.span()),
{
    let ghost views = attr_views(attrs@);
    let ghost f = |attr: AttrView| attr.span();
    let mut i: usize = 0;
    while i < attrs.len()
        invariant
            i <= attrs@.len(),
            views == attr_views(attrs@),
            f == (|attr: AttrView| attr.span()),
            forall|j: int| 0 <= j < i ==> f(#[trigger] views[j]) is None,
        decreases attrs@.len() - i,
    {
        assert(views[i as int] == attrs@[i as int]@);
        if let Some(span) = attrs[i].span() {
            proof {
                lemma_find_map_at(views, f, i as int);
            }
            return Some(span);
        }
        i += 1;
    }
    proof {
        lemma_find_map_none(views, f);
    }
    None
}

/// The first styles among the attributes.
fn find_styles(attrs: &[Attr]) -> (r: Option<&Styles>)
    ensures
        r is Some <==> find_map(attr_views(attrs@), |attr: AttrView| attr.styles()) is Some,
        r matches Some(styles) ==> find_map(attr_views(attrs@), |attr: AttrView| attr.styles())
            == Some(styles@),
{
    let ghost views = attr_views(attrs@);
    let ghost f = |attr: AttrView| attr.styles();
    let mut i: usize = 0;
    while i < attrs.len()
        invariant
            i <= attrs@.len(),
            views == attr_views(attrs@),
            f == (|attr: AttrView| attr.styles()),
            forall|j: int| 0 <= j < i ==> f(#[trigger] views[j]) is None,
        decreases attrs@.len() - i,
    {
        assert(views[i as int] == attrs@[i as int]@);
        if let Some(styles) = attrs[i].styles() {
            proof {
                lemma_find_map_at(views, f, i as int);
            }
            return Some(styles);
        }
        i += 1;
    }
    proof {
        lemma_find_map_none(views, f);
    }
    None
}

/// Where the first styles among the attributes stand.
fn styles_position(attrs: &[Attr]) -> (r: usize)
    requires
        exists|i: int| 0 <= i < attrs@.len() && (#[trigger] attr_views(attrs@)[i]).styles() is Some,
    ensures
        r < attrs@.len(),
        attr_views(attrs@)[r as int].styles() is Some,
        r == position(attr_views(attrs@), |attr: AttrView| attr.styles() is Some),
{
    let ghost views = attr_views(attrs@);
    let ghost pred = |attr: AttrView| attr.styles() is Some;
    let mut i: usize = 0;
    loop
        invariant
            i < attrs@.len(),
            views == attr_views(attrs@),
            pred == (|attr: AttrView| attr.styles() is Some),
            exists|k: int| i <= k < attrs@.len() && (#[trigger] views[k]).styles() is Some,
            forall|j: int| 0 <= j < i ==> !pred(#[trigger] views[j]),
        decreases attrs@.len() - i,
    {
        assert(views[i as int] == attrs@[i as int]@);
        if attrs[i].styles().is_some() {
            proof {
                lemma_position_is(views, pred, i as int);
            }
            return i;
        }
        i += 1;
    }
}

/// Where the first field name with the given characters stands.
fn field_position(attrs: &[Attr], name: &EcoString) -> (r: Option<usize>)
    ensures
        ({
            let p = position(attr_views(attrs@), is_field(eco_chars(*name)));
            match r {
                Some(i) => p == i && i < attrs@.len(),
                None => p == attrs@.len(),
            }
        }),
{
    let ghost views = attr_views(attrs@);
    let ghost pred = is_field(eco_chars(*name));
    let mut i: usize = 0;
    while i < attrs.len()
        invariant
            i <= attrs@.len(),
            views == attr_views(attrs@),
            pred == is_field(eco_chars(*name)),
            forall|j: int| 0 <= j < i ==> !pred(#[trigger] views[j]),
        decreases attrs@.len() - i,
    {
        assert(views[i as int] == attrs@[i as int]@);
        if let Some(field) = attrs[i].field() {
            if eco_eq(field, name) {
                proof {
                    lemma_position_is(views, pred, i as int);
                }
                return Some(i);
            }
        }
        i += 1;
    }
    proof {
        lemma_position_is(views, pred, views.len() as int);
    }
    None
}

impl Clone for Content {
    fn clone(&self) -> (r: Self)
        ensures
            r@ == self@,
            r@.wf(),
    {
        proof {
            use_type_invariant(self);
        }
        Content { func: self.func, attrs: self.attrs.clone() }
    }
}

} // verus!
