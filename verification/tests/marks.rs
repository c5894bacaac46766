use content::attr::Guard;
use content::content::Content;
use content::elem::{
    Behave, ElemFunc, Element, Locatable, SequenceElem, StyledElem, Synthesize, TypeId, Vtable,
};
use content::meta::MetaElem;
use content::place::{Location, Span};
use content::value::Label;
use ecow::EcoString;

fn heading() -> Content {
    Content::new(ElemFunc::native(
        1,
        "heading",
        &[(TypeId::Locatable, Vtable(7)), (TypeId::Other(3), Vtable(8))],
    ))
}

fn text() -> Content {
    Content::new(ElemFunc::native(2, "text", &[]))
}

fn location(hash: u128) -> Location {
    Location { hash, disambiguator: 0, variant: 0 }
}

#[test]
fn content_starts_detached() {
    assert!(text().span().is_detached());
    assert_eq!(text().span(), Span::detached());
}

#[test]
fn a_span_is_attached_once() {
    let content = text().spanned(Span { number: 5 });
    assert_eq!(content.span(), Span { number: 5 });
    assert_eq!(content.spanned(Span { number: 6 }).span(), Span { number: 5 });
}

#[test]
fn a_detached_span_counts_for_none() {
    let detached = text().spanned(Span::detached());
    assert!(detached.span().is_detached());
    let content = detached.spanned(Span { number: 6 });
    assert_eq!(content.span(), Span { number: 6 });
    assert_eq!(content.spanned(Span { number: 7 }).span(), Span { number: 6 });
}

#[test]
fn a_sum_takes_the_first_span() {
    let detached = Content::empty().spanned(Span::detached());
    let placed = Content::empty().spanned(Span { number: 7 });
    assert!((detached.clone() + placed.clone()).span().is_detached());
    assert_eq!((placed.clone() + detached.clone()).span(), Span { number: 7 });
    assert_eq!((Content::empty() + placed.clone()).span(), Span { number: 7 });
    let other = detached.clone().spanned(Span { number: 8 });
    assert_eq!((other + placed.clone()).span(), Span { number: 8 });
    assert_eq!((detached + placed).spanned(Span { number: 9 }).span(), Span { number: 9 });
    assert!((text().spanned(Span { number: 5 }) + text()).span().is_detached());
}

#[test]
fn a_span_in_front_leaves_the_rest_alone() {
    let content = text()
        .spanned(Span::detached())
        .labelled(Label(EcoString::from("a")))
        .guarded(Guard::Nth(1));
    let spanned = content.clone().spanned(Span { number: 3 });
    assert!(spanned == content);
    assert_eq!(spanned.span(), Span { number: 3 });
    assert!(spanned.has("label"));
    assert!(spanned.is_guarded(Guard::Nth(1)));
}

#[test]
fn fields_and_marks_leave_guards_alone() {
    let mut content = text().guarded(Guard::Nth(1)).spanned(Span { number: 4 });
    content.mark_prepared();
    content.set_location(location(3));
    let content = content.labelled(Label(EcoString::from("a")));
    let content = content.labelled(Label(EcoString::from("b")));
    assert!(content.is_guarded(Guard::Nth(1)));
    assert!(!content.is_guarded(Guard::Nth(2)));
    assert!(content.is_prepared());
    assert_eq!(content.span(), Span { number: 4 });
    assert_eq!(content.location(), Some(location(3)));
}

#[test]
fn a_guard_disables_one_recipe() {
    assert!(text().is_pristine());
    let content = text().guarded(Guard::Nth(1));
    assert!(!content.is_pristine());
    assert!(content.is_guarded(Guard::Nth(1)));
    assert!(!content.is_guarded(Guard::Nth(2)));
    let content = content.guarded(Guard::Base(text().func()));
    assert!(content.is_guarded(Guard::Base(text().func())));
    assert!(!content.is_guarded(Guard::Base(heading().func())));
    assert!(content.is_guarded(Guard::Nth(1)));
}

#[test]
fn preparation_is_needed_once() {
    let mut content = heading();
    assert!(content.needs_preparation());
    assert!(!content.is_prepared());
    content.mark_prepared();
    assert!(content.is_prepared());
    assert!(!content.needs_preparation());
}

#[test]
fn a_label_asks_for_preparation() {
    assert!(!text().needs_preparation());
    assert!(text().labelled(Label(EcoString::from("a"))).needs_preparation());
    let synthesized = ElemFunc::native(9, "figure", &[(TypeId::Synthesize, Vtable(1))]);
    assert!(Content::new(synthesized).needs_preparation());
}

#[test]
fn the_first_location_stays() {
    let mut content = text();
    assert_eq!(content.location(), None);
    content.set_location(location(1));
    assert_eq!(content.location(), Some(location(1)));
    content.set_location(location(2));
    assert_eq!(content.location(), Some(location(1)));
}

#[test]
fn capabilities_are_looked_up() {
    let content = heading();
    assert!(content.can::<dyn Locatable>());
    assert!(!content.can::<dyn Synthesize>());
    assert!(content.can_type_id(TypeId::Other(3)));
    assert!(!content.can_type_id(TypeId::Other(4)));
    let found = content.with::<dyn Locatable>();
    assert!(matches!(found, Some(ref c) if c.vtable == Vtable(7)));
    assert!(content.with::<dyn Behave>().is_none());
}

#[test]
fn content_is_changed_through_a_capability() {
    let mut content = heading();
    if let Some(found) = content.with_mut::<dyn Locatable>() {
        found.content.mark_prepared();
    }
    assert!(content.is_prepared());
    assert!(content.with_mut::<dyn Synthesize>().is_none());
}

#[test]
fn elements_are_told_apart() {
    assert!(Content::empty().is::<SequenceElem>());
    assert!(!Content::empty().is::<StyledElem>());
    assert!(Content::empty().to::<SequenceElem>().is_some());
    assert!(Content::empty().to::<StyledElem>().is_none());
    assert!(Content::new(MetaElem::func()).is::<MetaElem>());
    assert!(Content::new(MetaElem::func()).can::<dyn Behave>());
    assert_eq!(heading().func().name(), "heading");
    assert!(heading().func() == heading().func());
    assert!(heading().func() != text().func());
}
