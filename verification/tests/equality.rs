use content::attr::Guard;
use content::content::Content;
use content::elem::{ElemFunc, Element, StyledElem};
use content::place::{Location, Span};
use content::style::{Property, Style};
use content::value::{Label, Value};
use ecow::EcoString;

fn eco(s: &str) -> EcoString {
    EcoString::from(s)
}

fn text(body: &str) -> Content {
    Content::new(ElemFunc::native(2, "text", &[])).with_field(eco("text"), Value::Str(eco(body)))
}

fn property(hash: u128) -> Style {
    Style::Property(Property { hash })
}

#[test]
fn content_equals_itself() {
    let content = (text("a") + text("b")).styled(property(1));
    assert!(content == content);
    assert!(content.clone() == content);
}

#[test]
fn fields_count() {
    assert!(text("a") != text("b"));
    let one = text("a").with_field(eco("x"), Value::Int(1));
    let two = text("a").with_field(eco("x"), Value::Int(2));
    assert!(one != two);
    assert!(one != text("a"));
    assert!(text("a") != one);
    let renamed = text("a").with_field(eco("y"), Value::Int(1));
    assert!(one != renamed);
}

#[test]
fn the_order_of_fields_counts() {
    let heading = || Content::new(ElemFunc::native(1, "heading", &[]));
    let xy = heading().with_field(eco("x"), Value::Auto).with_field(eco("y"), Value::Auto);
    let yx = heading().with_field(eco("y"), Value::Auto).with_field(eco("x"), Value::Auto);
    assert!(xy != yx);
}

#[test]
fn the_function_counts() {
    let one = Content::new(ElemFunc::native(1, "x", &[]));
    let two = Content::new(ElemFunc::native(2, "x", &[]));
    assert!(one != two);
    assert!(one != Content::empty());
    assert!(Content::empty() != one);
}

#[test]
fn marks_do_not_count() {
    let plain = text("a");
    let mut marked = text("a").spanned(Span { number: 3 }).guarded(Guard::Nth(1));
    marked.mark_prepared();
    marked.set_location(Location { hash: 1, disambiguator: 2, variant: 3 });
    assert!(plain == marked);
    assert!(marked == plain);
    assert!(marked != text("b"));
    assert!(text("b") != marked);
}

#[test]
fn sequences_compare_their_children_only() {
    let one = (text("a") + text("b")).with_field(eco("x"), Value::Int(1));
    let two = text("a") + text("b");
    assert!(one == two);
    assert!(two != text("a") + text("c"));
    assert!(two != text("a") + text("b") + text("c"));
    assert!(two != text("b") + text("a"));
}

#[test]
fn styled_elements_compare_child_and_styles() {
    assert!(text("a").styled(property(1)) == text("a").styled(property(1)));
    assert!(text("a").styled(property(1)) != text("a").styled(property(2)));
    assert!(text("a").styled(property(1)) != text("b").styled(property(1)));
    assert!(text("a").styled(property(1)) != text("a").styled(property(1)).styled(property(1)));
    assert!(text("a").styled(property(1)) != text("a"));
}

#[test]
fn a_bare_styled_element_breaks_the_chain() {
    let a = text("a").styled(property(1)).with_field(eco("x"), Value::Int(1));
    let b = text("a").styled(property(1));
    let c = Content::new(StyledElem::func());
    assert!(a == b);
    assert!(b == c);
    assert!(a != c);
}

#[test]
fn equality_of_sequences_looks_at_no_field() {
    let styled = text("a").styled(property(1));
    let bare = Content::new(StyledElem::func());
    let a = Content::empty().with_field(eco("x"), Value::Content(styled.clone()));
    let b = Content::empty().with_field(eco("x"), Value::Content(bare));
    let c = Content::empty().with_field(eco("x"), Value::Content(text("b").styled(property(2))));
    assert!(a == b);
    assert!(b == c);
    assert!(a == c);
}

#[test]
fn values_compare_by_kind() {
    assert!(Value::Nothing == Value::Nothing);
    assert!(Value::Nothing != Value::Auto);
    assert!(Value::Bool(true) != Value::Bool(false));
    assert!(Value::Int(1) != Value::Int(2));
    assert!(Value::Str(eco("a")) != Value::Label(Label(eco("a"))));
    assert!(Value::Label(Label(eco("a"))) == Value::Label(Label(eco("a"))));
    assert!(Value::Dyn(1) == Value::Dyn(1));
    assert!(Value::Dyn(1) != Value::Dyn(2));
    let spanned = Value::Content(text("a").spanned(Span { number: 2 }));
    assert!(Value::Array(vec![spanned]) == Value::Array(vec![Value::Content(text("a"))]));
    assert!(Value::Array(vec![]) != Value::Array(vec![Value::Auto]));
    assert!(Value::Array(vec![Value::Auto]) != Value::Array(vec![Value::Nothing]));
}

#[test]
fn sums_of_equal_content_are_equal() {
    let a = text("a").spanned(Span { number: 9 });
    assert!(a.clone() + text("b") == text("a") + text("b"));
    assert!(a.styled(property(3)) == text("a").styled(property(3)));
}
