use content::content::Content;
use content::elem::{Behave, Behaviour};
use content::meta::{Fold, Meta, MetaElem};
use content::value::Value;
use ecow::EcoString;

fn kind(meta: &Meta) -> u8 {
    match meta {
        Meta::Hide => 0,
        Meta::Link(_) => 1,
        Meta::Elem(_) => 2,
        Meta::PageNumbering(_) => 3,
    }
}

#[test]
fn metadata_is_ignorant() {
    let elem = MetaElem { data: vec![Meta::Hide] };
    assert_eq!(elem.behaviour(), Behaviour::Ignorant);
}

#[test]
fn outer_metadata_comes_last() {
    let inner = vec![Meta::Hide, Meta::Link(EcoString::from("a"))];
    let outer = vec![Meta::Elem(Content::empty()), Meta::PageNumbering(Value::Nothing)];
    let folded = inner.fold(outer);
    assert_eq!(folded.iter().map(kind).collect::<Vec<_>>(), vec![0, 1, 2, 3]);
    assert_eq!(vec![].fold(vec![Meta::Hide]).iter().map(kind).collect::<Vec<_>>(), vec![0]);
}
