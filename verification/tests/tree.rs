use content::content::{Content, RecipeStep};
use content::elem::{ElemFunc, Element, SequenceElem, StyledElem};
use content::place::Span;
use content::selector::Selector;
use content::style::{Property, Recipe, Style, Styles};
use content::value::Value;
use ecow::EcoString;

fn text(body: &str) -> Content {
    Content::new(ElemFunc::native(2, "text", &[]))
        .with_field(EcoString::from("text"), Value::Str(EcoString::from(body)))
}

fn property(hash: u128) -> Style {
    Style::Property(Property { hash })
}

fn styles(hashes: &[u128]) -> Styles {
    Styles { entries: hashes.iter().map(|&hash| property(hash)).collect() }
}

fn hashes(styles: &Styles) -> Vec<u128> {
    styles.entries.iter().map(|style| style.hash()).collect()
}

fn children(content: &Content) -> Vec<Content> {
    match content.to_sequence() {
        Some(children) => children.into_iter().map(|child| child.clone()).collect(),
        None => panic!("not a sequence"),
    }
}

#[test]
fn an_empty_sequence_is_empty() {
    assert!(Content::empty().is_empty());
    assert!(Content::default().is_empty());
    assert!(Content::sequence(vec![]).is_empty());
    assert!(!text("a").is_empty());
    assert!(!Content::empty().spanned(Span { number: 4 }).is_empty());
}

#[test]
fn a_sequence_of_one_is_that_one() {
    let content = Content::sequence(vec![text("a")]);
    assert!(content.to_sequence().is_none());
    assert!(content == text("a"));
}

#[test]
fn a_sequence_keeps_the_order() {
    let content = Content::sequence(vec![text("a"), text("b"), text("c")]);
    assert!(children(&content) == vec![text("a"), text("b"), text("c")]);
    assert!(Content::sum(vec![text("a"), text("b"), text("c")]) == content);
}

#[test]
fn sums_flatten_sequences() {
    let ab = text("a") + text("b");
    assert!(children(&ab) == vec![text("a"), text("b")]);
    let abc = ab.clone() + text("c");
    assert!(children(&abc) == vec![text("a"), text("b"), text("c")]);
    let cab = text("c") + ab.clone();
    assert!(children(&cab) == vec![text("c"), text("a"), text("b")]);
    let abab = ab.clone() + ab.clone();
    assert!(children(&abab) == vec![text("a"), text("b"), text("a"), text("b")]);
    assert!(children(&ab) == vec![text("a"), text("b")]);
}

#[test]
fn sums_are_associative() {
    let left = (text("a") + text("b")) + text("c");
    let right = text("a") + (text("b") + text("c"));
    assert!(left == right);
}

#[test]
fn empty_content_adds_nothing_to_a_sequence() {
    let ab = text("a") + text("b");
    assert!(Content::empty() + ab.clone() == ab);
    assert!(ab.clone() + Content::empty() == ab);
    assert!(children(&(Content::empty() + text("a"))) == vec![text("a")]);
}

#[test]
fn sums_are_assigned() {
    let mut content = text("a");
    content += text("b");
    content += text("c");
    assert!(children(&content) == vec![text("a"), text("b"), text("c")]);
}

#[test]
fn content_is_repeated() {
    assert!(text("a").repeat(0) == Ok(Content::empty()));
    assert!(text("a").repeat(1) == Ok(text("a")));
    assert!(text("a").repeat(3) == Ok(Content::sequence(vec![text("a"), text("a"), text("a")])));
}

#[test]
fn content_is_not_repeated_less_than_never() {
    match text("a").repeat(-1) {
        Err(message) => assert_eq!(message, "cannot repeat this content -1 times"),
        Ok(_) => panic!("there is no such repetition"),
    }
    match text("a").repeat(-9223372036854775808) {
        Err(message) => {
            assert_eq!(message, "cannot repeat this content -9223372036854775808 times")
        }
        Ok(_) => panic!("there is no such repetition"),
    }
}

#[test]
fn styling_wraps_content() {
    let content = text("a").styled(property(1));
    match content.to_styled() {
        Some((child, own)) => {
            assert!(*child == text("a"));
            assert_eq!(hashes(own), vec![1]);
        }
        None => panic!("the content is styled"),
    }
    assert!(text("a").to_styled().is_none());
    assert!(Content::new(StyledElem::func()).to_styled().is_none());
}

#[test]
fn later_styles_are_outer_ones() {
    let content = text("a").styled_with_map(styles(&[1, 2])).styled_with_map(styles(&[3, 4]));
    match content.to_styled() {
        Some((child, own)) => {
            assert!(*child == text("a"));
            assert_eq!(hashes(own), vec![3, 4, 1, 2]);
        }
        None => panic!("the content is styled"),
    }
    let content = content.styled(property(5));
    match content.to_styled() {
        Some((child, own)) => {
            assert!(*child == text("a"));
            assert_eq!(hashes(own), vec![5, 3, 4, 1, 2]);
        }
        None => panic!("the content is styled"),
    }
}

#[test]
fn styling_leaves_clones_alone() {
    let first = text("a").styled(property(1));
    let second = first.clone().styled(property(2));
    assert!(matches!(first.to_styled(), Some((_, own)) if hashes(own) == vec![1]));
    assert!(matches!(second.to_styled(), Some((_, own)) if hashes(own) == vec![2, 1]));
}

#[test]
fn no_styles_change_nothing() {
    let content = text("a").styled_with_map(styles(&[]));
    assert!(content.to_styled().is_none());
    assert!(content == text("a"));
    let bare = Content::new(StyledElem::func()).styled_with_map(styles(&[]));
    assert!(bare.to_styled().is_none());
}

#[test]
fn a_recipe_with_a_selector_is_a_style() {
    let recipe = Recipe {
        hash: 9,
        span: Span::detached(),
        selector: Some(Selector::Elem(text("a").func(), vec![])),
    };
    match text("a").styled_with_recipe(recipe) {
        RecipeStep::Done(content) => {
            assert!(matches!(content.to_styled(), Some((_, own)) if hashes(own) == vec![9]))
        }
        RecipeStep::Apply(..) => panic!("the recipe has a selector"),
    }
}

#[test]
fn a_recipe_without_a_selector_is_applied() {
    let recipe = Recipe { hash: 9, span: Span { number: 3 }, selector: None };
    match text("a").styled_with_recipe(recipe) {
        RecipeStep::Apply(recipe, content) => {
            assert_eq!(recipe.hash, 9);
            assert_eq!(recipe.span, Span { number: 3 });
            assert!(content == text("a"));
        }
        RecipeStep::Done(_) => panic!("the recipe has no selector"),
    }
}

#[test]
fn only_sequences_have_children() {
    assert!(text("a").to_sequence().is_none());
    let content = Content::new(SequenceElem::func()).with_field(
        EcoString::from("x"),
        Value::Content(text("a")),
    );
    assert!(children(&content).is_empty());
}

#[test]
fn styling_again_keeps_what_is_attached() {
    let content = text("a")
        .styled(property(1))
        .with_field(EcoString::from("x"), Value::Int(1))
        .spanned(Span { number: 3 });
    let again = content.clone().styled(property(2));
    assert!(again.field("x") == Some(Value::Int(1)));
    assert!(again.field("child") == Some(Value::Content(text("a"))));
    assert_eq!(again.span(), Span { number: 3 });
}

#[test]
fn adding_to_a_row_puts_content_at_its_end() {
    let row = Content::sequence(vec![text("a"), text("b")]);
    let longer = Content::sequence(vec![text("a"), text("b"), text("c")]);
    assert!(row.clone() + text("c") == longer);
    assert!(Content::sequence(vec![]) + row.clone() == Content::sequence(vec![row.clone()]));
    assert!(Content::sequence(vec![]) + text("a") != Content::sequence(vec![text("a")]));
}
