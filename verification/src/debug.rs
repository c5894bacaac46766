//! How content is shown for debugging.

use crate::content::{field_views, Content};
use crate::eco::{eco_chars, eco_clone, eco_from, eco_str, str_eq};
use crate::elem::StyledElem;
use crate::model::{ContentView, ValueView};
use crate::selector::pair_views;
use crate::value::Value;
use ecow::EcoString;
use vstd::prelude::*;
use vstd::string::StringExecFns;

verus! {

/// The debug form of content, as far as content itself settles it.
pub enum DebugForm {
    /// The whole form.
    Text(String),
    /// A call of the element function.
    Call {
        /// The name of the function.
        name: &'static str,
        /// The arguments: fields, the values of which are to be formatted.
        fields: Vec<(EcoString, Value)>,
        /// Whether there are styles that are not shown.
        styled: bool,
    },
}

impl ContentView {
    /// The attached fields, and then the one that the element has without its being attached.
    pub open spec fn all_fields(self) -> Seq<(Seq<char>, ValueView)> {
        match self.synthesized() {
            Some(field) => self.fields().push(field),
            None => self.fields(),
        }
    }
}

/// A field with its formatted value.
pub open spec fn field_piece(name: Seq<char>, value: Seq<char>) -> Seq<char> {
    name + ": "@ + value
}

/// What strings in a row hold.
pub open spec fn eco_views(strings: Seq<EcoString>) -> Seq<Seq<char>> {
    strings.map_values(|s: EcoString| eco_chars(s))
}

/// The arguments of a call: fields with their formatted values, and dots for styles.
pub open spec fn pieces(fields: Seq<(EcoString, String)>, styled: bool) -> Seq<Seq<char>> {
    let named = fields.map_values(
        |field: (EcoString, String)| field_piece(eco_chars(field.0), field.1@),
    );
    if styled {
        named.push(".."@)
    } else {
        named
    }
}

impl Content {
    /// All fields on the content, with the synthesized field of a sequence or styled element as
    /// the last.
    pub fn all_fields(&self) -> (r: Vec<(EcoString, Value)>)
        ensures
            pair_views(r@) == self@.all_fields(),
    {
        let attached = self.fields_ref();
        let mut fields: Vec<(EcoString, Value)> = Vec::new();
        let mut i: usize = 0;
        while i < attached.len()
            invariant
                i <= attached@.len(),
                fields@.len() == i,
                forall|j: int|
                    0 <= j < i ==> eco_chars((#[trigger] fields@[j]).0) == eco_chars(
                        *attached@[j].0,
                    ) && fields@[j].1@ == attached@[j].1@,
            decreases attached@.len() - i,
        {
            fields.push((eco_clone(attached[i].0), attached[i].1.clone()));
            i += 1;
        }
        assert(pair_views(fields@) =~= field_views(attached@));
        let ghost before = fields@;
        if let Some(children) = self.child_array() {
            fields.push((eco_from("children"), children));
            assert(pair_views(fields@) =~= pair_views(before).push(
                ("children"@, children@),
            ));
        } else if let Some((child, _)) = self.to_styled() {
            fields.push((eco_from("child"), Value::Content(child.clone())));
            assert(pair_views(fields@) =~= pair_views(before).push(
                ("child"@, ValueView::Content(child@)),
            ));
        }
        fields
    }

    /// The debug form of the content, given its text if it is a text element.
    pub fn debug_form(&self, text: Option<&str>) -> (r: DebugForm)
        ensures
            match (text, r) {
                (Some(text), DebugForm::Text(form)) => form@ == "["@ + text@ + "]"@,
                (None, DebugForm::Text(form)) => self@.func.name == "space"@ && form@ == "[ ]"@,
                (None, DebugForm::Call { name, fields, styled }) => {
                    &&& self@.func.name != "space"@
                    &&& name@ == self@.func.name
                    &&& pair_views(fields@) == self@.all_fields()
                    &&& styled == self@.is_styled()
                },
                (Some(_), DebugForm::Call { .. }) => false,
            },
    {
        let name = self.func().name();
        if let Some(text) = text {
            let mut form = String::new();
            form.append("[");
            form.append(text);
            form.append("]");
            assert(form@ =~= "["@ + text@ + "]"@);
            return DebugForm::Text(form);
        }
        if str_eq(name, "space") {
            let mut form = String::new();
            form.append("[ ]");
            assert(form@ =~= "[ ]"@);
            return DebugForm::Text(form);
        }
        DebugForm::Call { name, fields: self.all_fields(), styled: self.is::<StyledElem>() }
    }
}

/// The arguments of a call, given the fields with their formatted values.
pub fn debug_pieces(fields: &Vec<(EcoString, String)>, styled: bool) -> (r: Vec<EcoString>)
    ensures
        eco_views(r@) == pieces(fields@, styled),
{
    let mut list: Vec<EcoString> = Vec::new();
    let mut i: usize = 0;
    while i < fields.len()
        invariant
            i <= fields@.len(),
            list@.len() == i,
            forall|j: int|
                0 <= j < i ==> eco_chars(#[trigger] list@[j]) == field_piece(
                    eco_chars(fields@[j].0),
                    fields@[j].1@,
                ),
        decreases fields@.len() - i,
    {
        let mut piece = String::new();
        piece.append(eco_str(&fields[i].0));
        piece.append(": ");
        piece.append(fields[i].1.as_str());
        assert(piece@ =~= field_piece(eco_chars(fields@[i as int].0), fields@[i as int].1@));
        list.push(eco_from(piece.as_str()));
        i += 1;
    }
    if styled {
        list.push(eco_from(".."));
    }
    assert(eco_views(list@) =~= pieces(fields@, styled));
    list
}

} // verus!
