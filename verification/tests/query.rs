use content::content::Content;
use content::elem::{ElemFunc, TypeId, Vtable};
use content::place::{Location, Span};
use content::selector::Selector;
use content::style::{Property, Style};
use content::value::{Label, Value};
use ecow::EcoString;

fn eco(s: &str) -> EcoString {
    EcoString::from(s)
}

fn text_func() -> ElemFunc {
    ElemFunc::native(2, "text", &[])
}

fn heading_func() -> ElemFunc {
    ElemFunc::native(1, "heading", &[(TypeId::Locatable, Vtable(1))])
}

fn text(body: &str) -> Content {
    Content::new(text_func()).with_field(eco("text"), Value::Str(eco(body)))
}

fn heading(body: Content) -> Content {
    Content::new(heading_func()).with_field(eco("body"), Value::Content(body))
}

fn texts(content: &Content) -> Vec<Content> {
    found(content, Selector::Elem(text_func(), vec![]))
}

fn found(content: &Content, selector: Selector) -> Vec<Content> {
    content.query(selector).into_iter().map(|c| c.clone()).collect()
}

#[test]
fn a_query_finds_children_in_order() {
    let content = text("a") + heading(text("b")) + text("c");
    assert!(texts(&content) == vec![text("a"), text("b"), text("c")]);
}

#[test]
fn a_query_finds_the_content_itself_first() {
    assert!(texts(&text("a")) == vec![text("a")]);
    let nested = Content::new(text_func()).with_field(eco("inner"), Value::Content(text("b")));
    let all = texts(&nested);
    assert_eq!(all.len(), 2);
    assert!(all[0] == nested);
    assert!(all[1] == text("b"));
}

#[test]
fn a_query_adds_to_earlier_results() {
    let first = text("a");
    let second = heading(text("b")) + text("c");
    let mut results = Vec::new();
    first.query_into(&Selector::Elem(text_func(), vec![]), &mut results);
    second.query_into(&Selector::Elem(text_func(), vec![]), &mut results);
    let all: Vec<Content> = results.into_iter().map(|c| c.clone()).collect();
    assert!(all == vec![text("a"), text("b"), text("c")]);
}

#[test]
fn a_query_goes_in_the_order_of_attachment() {
    let content = Content::sequence(vec![text("a"), text("b")])
        .with_field(eco("x"), Value::Array(vec![Value::Content(text("c")), Value::Int(1)]))
        + text("d");
    assert!(texts(&content) == vec![text("a"), text("b"), text("c"), text("d")]);
}

#[test]
fn a_query_walks_arrays() {
    let list = Value::Array(vec![
        Value::Content(text("a")),
        Value::Array(vec![Value::Int(1), Value::Content(heading(text("b")))]),
        Value::Content(text("c")),
    ]);
    let content = Content::new(ElemFunc::native(5, "list", &[])).with_field(eco("items"), list);
    assert!(texts(&content) == vec![text("a"), text("b"), text("c")]);
}

#[test]
fn a_query_looks_through_styles() {
    let content = (text("a") + text("b")).styled(Style::Property(Property { hash: 1 }));
    assert!(texts(&content) == vec![text("a"), text("b")]);
    let again = content.styled(Style::Property(Property { hash: 2 }));
    assert!(texts(&again) == vec![text("a"), text("b")]);
}

#[test]
fn a_query_finds_labels() {
    let labelled = text("b").labelled(Label(eco("here")));
    let content = text("a") + labelled.clone() + text("c");
    assert!(found(&content, Selector::Label(Label(eco("here")))) == vec![labelled]);
    assert!(found(&content, Selector::Label(Label(eco("there")))).is_empty());
}

#[test]
fn a_query_compares_fields() {
    let content = text("a") + text("b") + text("a");
    let selector = Selector::Elem(text_func(), vec![(eco("text"), Value::Str(eco("a")))]);
    assert!(found(&content, selector) == vec![text("a"), text("a")]);
    let selector = Selector::Elem(text_func(), vec![(eco("other"), Value::Str(eco("a")))]);
    assert!(found(&content, selector).is_empty());
}

#[test]
fn a_query_combines_selectors() {
    let content = text("a") + heading(text("b"));
    let both = Selector::Or(vec![
        Selector::Elem(text_func(), vec![]),
        Selector::Elem(heading_func(), vec![]),
    ]);
    assert!(found(&content, both) == vec![text("a"), heading(text("b")), text("b")]);
    let neither = Selector::And(vec![
        Selector::Elem(text_func(), vec![]),
        Selector::Elem(heading_func(), vec![]),
    ]);
    assert!(found(&content, neither).is_empty());
    assert!(found(&content, Selector::Or(vec![])).is_empty());
    assert_eq!(found(&content, Selector::And(vec![])).len(), 4);
}

#[test]
fn a_query_finds_capabilities_and_locations() {
    let mut located = text("x").spanned(Span { number: 2 });
    let location = Location { hash: 4, disambiguator: 0, variant: 1 };
    located.set_location(location);
    let content = located.clone() + heading(text("b"));
    assert!(found(&content, Selector::Location(location)) == vec![located]);
    assert!(found(&content, Selector::Can(TypeId::Locatable)) == vec![heading(text("b"))]);
    assert!(found(&content, Selector::Can(TypeId::Behave)).is_empty());
}

#[test]
fn selectors_are_cloned() {
    let selector = Selector::Or(vec![
        Selector::And(vec![Selector::Can(TypeId::Locatable)]),
        Selector::Elem(text_func(), vec![(eco("text"), Value::Str(eco("a")))]),
        Selector::Label(Label(eco("l"))),
    ]);
    let content = text("a") + heading(text("b")) + text("c").labelled(Label(eco("l")));
    assert!(found(&content, selector.clone()) == found(&content, selector));
}
