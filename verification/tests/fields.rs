use content::cast::Cast;
use content::content::Content;
use content::elem::{ElemFunc, Element, SequenceElem};
use content::style::{Property, Style};
use content::value::{Label, Value};
use ecow::EcoString;

fn heading() -> Content {
    Content::new(ElemFunc::native(1, "heading", &[]))
}

fn text(body: &str) -> Content {
    Content::new(ElemFunc::native(2, "text", &[]))
        .with_field(EcoString::from("text"), Value::Str(EcoString::from(body)))
}

fn eco(s: &str) -> EcoString {
    EcoString::from(s)
}

#[test]
fn an_attached_field_reads_back() {
    let mut content = heading();
    content.push_field(eco("level"), Value::Int(2));
    assert!(content.field("level") == Some(Value::Int(2)));
    assert!(content.field_ref("level") == Some(&Value::Int(2)));
    assert!(content.has("level"));
}

#[test]
fn a_field_is_replaced_in_place() {
    let content = heading()
        .with_field(eco("level"), Value::Int(1))
        .with_field(eco("body"), Value::Bool(true))
        .with_field(eco("level"), Value::Int(3));
    let fields = content.fields_ref();
    assert_eq!(fields.len(), 2);
    assert_eq!(fields[0].0.as_str(), "level");
    assert!(*fields[0].1 == Value::Int(3));
    assert_eq!(fields[1].0.as_str(), "body");
    assert!(*fields[1].1 == Value::Bool(true));
}

#[test]
fn replacing_a_field_leaves_clones_alone() {
    let first = heading().with_field(eco("level"), Value::Int(1));
    let second = first.clone().with_field(eco("level"), Value::Int(2));
    assert!(first.field("level") == Some(Value::Int(1)));
    assert!(second.field("level") == Some(Value::Int(2)));
}

#[test]
fn long_names_are_told_apart() {
    let content = heading()
        .with_field(eco("a name of more than fifteen bytes"), Value::Int(1))
        .with_field(eco("a name of more than fifteen bytez"), Value::Int(2));
    assert!(content.field("a name of more than fifteen bytes") == Some(Value::Int(1)));
    assert!(content.field("a name of more than fifteen bytez") == Some(Value::Int(2)));
    assert!(content.field("a name of more than fifteen") == None);
}

#[test]
fn a_missing_field_is_an_error() {
    let content = heading();
    assert!(!content.has("level"));
    match content.at("level") {
        Err(message) => assert_eq!(message, "content does not contain field \"level\""),
        Ok(_) => panic!("there is no such field"),
    }
    match content.at("a \"quoted\" name") {
        Err(message) => {
            assert_eq!(message, "content does not contain field \"a \\\"quoted\\\" name\"")
        }
        Ok(_) => panic!("there is no such field"),
    }
}

#[test]
fn a_present_field_is_no_error() {
    let content = heading().with_field(eco("level"), Value::Int(4));
    assert!(content.at("level") == Ok(Value::Int(4)));
}

#[test]
fn a_sequence_has_its_children_as_a_field() {
    let content = Content::sequence(vec![text("a"), text("b")]);
    let children = Value::Array(vec![Value::Content(text("a")), Value::Content(text("b"))]);
    assert!(content.field("children") == Some(children));
    assert!(content.field("child") == None);
    assert!(content.field_ref("children") == None);
    assert!(Content::empty().field("children") == Some(Value::Array(vec![])));
}

#[test]
fn a_styled_element_has_its_child_as_a_field() {
    let content = text("a").styled(Style::Property(Property { hash: 1 }));
    assert!(content.field("child") == Some(Value::Content(text("a"))));
    assert!(content.field("anything") == None);
    assert!(content.field("children") == None);
    assert!(content.field_ref("child") == None);
    assert!(content.has("child"));
    assert!(!content.has("anything"));
    assert!(!content.has("text"));
    assert!(content.at("text").is_err());
    assert!(content.at("child") == Ok(Value::Content(text("a"))));
    assert!(content.cast_field::<Content>("child") == Some(text("a")));
    assert!(content.cast_field::<Content>("body").is_none());
}

#[test]
fn a_styled_element_keeps_attached_fields() {
    let content = text("a")
        .styled(Style::Property(Property { hash: 1 }))
        .labelled(Label(eco("intro")))
        .with_field(eco("level"), Value::Int(2))
        .with_field(eco("child"), Value::Auto);
    assert!(content.field("label") == Some(Value::Label(Label(eco("intro")))));
    assert!(content.field("level") == Some(Value::Int(2)));
    assert!(content.field("child") == Some(Value::Content(text("a"))));
    assert!(content.field_ref("child") == Some(&Value::Auto));
    assert_eq!(content.expect_field::<i64>("level"), 2);
}

#[test]
fn fields_leave_out_what_is_synthesized() {
    let content = Content::sequence(vec![text("a"), text("b")]).with_field(eco("x"), Value::Auto);
    let fields = content.fields();
    assert_eq!(fields.len(), 1);
    assert_eq!(fields[0].0.as_str(), "x");
    assert!(fields[0].1 == Value::Auto);
}

#[test]
fn all_fields_end_with_what_is_synthesized() {
    let content = Content::sequence(vec![text("a"), text("b")]).with_field(eco("x"), Value::Auto);
    let fields = content.all_fields();
    assert_eq!(fields.len(), 2);
    assert_eq!(fields[0].0.as_str(), "x");
    assert_eq!(fields[1].0.as_str(), "children");
    let styled = text("a").styled(Style::Property(Property { hash: 1 }));
    let fields = styled.all_fields();
    assert_eq!(fields.len(), 1);
    assert_eq!(fields[0].0.as_str(), "child");
    assert!(fields[0].1 == Value::Content(text("a")));
    assert_eq!(text("a").all_fields().len(), 1);
}

#[test]
fn a_field_is_cast() {
    let content = heading()
        .with_field(eco("level"), Value::Int(2))
        .with_field(eco("body"), Value::Content(text("a")))
        .with_field(eco("name"), Value::Str(eco("n")))
        .with_field(eco("bold"), Value::Bool(true));
    assert_eq!(content.cast_field::<i64>("level"), Some(2));
    assert_eq!(content.cast_field::<bool>("level"), None);
    assert_eq!(content.cast_field::<i64>("missing"), None);
    assert!(content.cast_field::<Content>("body") == Some(text("a")));
    assert_eq!(content.cast_field::<EcoString>("name"), Some(eco("n")));
    assert_eq!(content.expect_field::<i64>("level"), 2);
    assert_eq!(content.expect_field::<bool>("bold"), true);
    assert!(content.cast_field::<Value>("level") == Some(Value::Int(2)));
}

#[test]
fn a_failed_cast_gives_the_value_back() {
    assert!(bool::cast(Value::Int(1)) == Err(Value::Int(1)));
    assert!(i64::cast(Value::Auto) == Err(Value::Auto));
    assert!(EcoString::cast(Value::Nothing) == Err(Value::Nothing));
    assert!(Content::cast(Value::Dyn(9)) == Err(Value::Dyn(9)));
    match Label::cast(Value::Label(Label(eco("l")))) {
        Ok(label) => assert_eq!(label.0, "l"),
        Err(_) => panic!("a label is a label"),
    }
}

#[test]
fn a_label_is_attached() {
    let content = heading().labelled(Label(eco("intro")));
    match content.label() {
        Some(label) => assert_eq!(label.0, "intro"),
        None => panic!("the label is attached"),
    }
    assert!(heading().label().is_none());
    assert!(heading().with_field(eco("label"), Value::Int(1)).label().is_none());
    let again = content.labelled(Label(eco("other")));
    match again.label() {
        Some(label) => assert_eq!(label.0, "other"),
        None => panic!("the label is attached"),
    }
}

#[test]
fn a_joined_field_keeps_the_first_value() {
    let left = Content::new(SequenceElem::func()).with_field(eco("x"), Value::Int(1));
    let right = Content::new(SequenceElem::func()).with_field(eco("x"), Value::Int(2));
    let mut sum = left + right;
    assert!(sum.field("x") == Some(Value::Int(1)));
    assert_eq!(sum.fields_ref().len(), 2);
    sum.push_field(eco("x"), Value::Int(3));
    assert!(sum.field("x") == Some(Value::Int(3)));
    assert_eq!(sum.fields_ref().len(), 2);
}
