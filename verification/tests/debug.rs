use content::content::Content;
use content::debug::{debug_pieces, DebugForm};
use content::elem::ElemFunc;
use content::message::{missing_field, missing_field_message};
use content::style::{Property, Style};
use content::value::Value;
use ecow::EcoString;

fn eco(s: &str) -> EcoString {
    EcoString::from(s)
}

fn text(body: &str) -> Content {
    Content::new(ElemFunc::native(2, "text", &[])).with_field(eco("text"), Value::Str(eco(body)))
}

#[test]
fn text_is_shown_in_brackets() {
    match text("hi").debug_form(Some("hi")) {
        DebugForm::Text(form) => assert_eq!(form, "[hi]"),
        DebugForm::Call { .. } => panic!("there is a text"),
    }
}

#[test]
fn a_space_is_shown_in_brackets() {
    match Content::new(ElemFunc::native(3, "space", &[])).debug_form(None) {
        DebugForm::Text(form) => assert_eq!(form, "[ ]"),
        DebugForm::Call { .. } => panic!("this is a space"),
    }
}

#[test]
fn other_content_is_shown_as_a_call() {
    match text("hi").debug_form(None) {
        DebugForm::Call { name, fields, styled } => {
            assert_eq!(name, "text");
            assert_eq!(fields.len(), 1);
            assert!(fields[0] == (eco("text"), Value::Str(eco("hi"))));
            assert!(!styled);
        }
        DebugForm::Text(_) => panic!("there is no text"),
    }
}

#[test]
fn a_styled_element_shows_its_child() {
    match text("hi").styled(Style::Property(Property { hash: 1 })).debug_form(None) {
        DebugForm::Call { name, fields, styled } => {
            assert_eq!(name, "styled");
            assert_eq!(fields.len(), 1);
            assert!(fields[0] == (eco("child"), Value::Content(text("hi"))));
            assert!(styled);
        }
        DebugForm::Text(_) => panic!("there is no text"),
    }
}

#[test]
fn a_sequence_shows_its_children() {
    match (text("a") + text("b")).debug_form(None) {
        DebugForm::Call { name, fields, styled } => {
            assert_eq!(name, "sequence");
            let items = vec![Value::Content(text("a")), Value::Content(text("b"))];
            assert!(fields == vec![(eco("children"), Value::Array(items))]);
            assert!(!styled);
        }
        DebugForm::Text(_) => panic!("there is no text"),
    }
}

#[test]
fn pieces_name_their_values() {
    let fields = vec![(eco("level"), "1".to_string()), (eco("body"), "[a]".to_string())];
    assert_eq!(debug_pieces(&fields, false), vec![eco("level: 1"), eco("body: [a]")]);
    assert_eq!(debug_pieces(&fields, true), vec![eco("level: 1"), eco("body: [a]"), eco("..")]);
    assert_eq!(debug_pieces(&vec![], true), vec![eco("..")]);
}

#[test]
fn messages_quote_the_key() {
    assert_eq!(missing_field("x"), "content does not contain field \"x\"");
    assert_eq!(missing_field_message("<x>"), "content does not contain field <x>");
}
