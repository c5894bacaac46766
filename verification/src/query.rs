//! Searching content for elements.

use crate::attr::{attr_views, Attr};
use crate::content::{content_views, Content};
use crate::model::{AttrView, ContentView, SelectorView, ValueView};
use crate::selector::Selector;
use crate::value::{lemma_array_view, value_views, Value};
use vstd::prelude::*;

verus! {

/// The content and all that is nested in it, each before what is nested in it: the children and
/// what the values of fields hold, in the order in which they were attached.
pub open spec fn nodes(content: ContentView) -> Seq<ContentView>
    decreases content,
{
    seq![content] + attrs_nodes(content.attrs)
}

/// All content that is nested in a list of attributes.
pub open spec fn attrs_nodes(attrs: Seq<AttrView>) -> Seq<ContentView>
    decreases attrs,
{
    if attrs.len() == 0 {
        seq![]
    } else {
        attrs_nodes(attrs.drop_last()) + attr_nodes(attrs.last())
    }
}

/// All content that is nested in an attribute.
pub open spec fn attr_nodes(attr: AttrView) -> Seq<ContentView>
    decreases attr,
{
    match attr {
        AttrView::Child(child) => nodes(child),
        AttrView::Value(value) => value_nodes(value),
        _ => seq![],
    }
}

/// All content that is nested in a value.
pub open spec fn value_nodes(value: ValueView) -> Seq<ContentView>
    decreases value,
{
    match value {
        ValueView::Content(content) => nodes(content),
        ValueView::Array(values) => values_nodes(values),
        _ => seq![],
    }
}

/// All content that is nested in values.
pub open spec fn values_nodes(values: Seq<ValueView>) -> Seq<ContentView>
    decreases values,
{
    if values.len() == 0 {
        seq![]
    } else {
        values_nodes(values.drop_last()) + value_nodes(values.last())
    }
}

/// What a selector picks from content in a row.
pub open spec fn selected(contents: Seq<ContentView>, selector: SelectorView) -> Seq<ContentView> {
    contents.filter(|content: ContentView| selector.selects(content))
}

/// Picking from two rows is picking from each.
pub proof fn lemma_selected_add(
    left: Seq<ContentView>,
    right: Seq<ContentView>,
    selector: SelectorView,
)
    ensures
        selected(left + right, selector) == selected(left, selector) + selected(right, selector),
{
    Seq::filter_distributes_over_add(
        left,
        right,
        |content: ContentView| selector.selects(content),
    );
}

impl Content {
    /// Queries the content tree for all elements that match the given selector.
    ///
    /// # Show rules
    /// Elements produced in `show` rules will not be included in the results.
    pub fn query(&self, selector: Selector) -> (r: Vec<&Content>)
        ensures
            content_views(r@) == selected(nodes(self@), selector@),
    {
        let mut results: Vec<&Content> = Vec::new();
        self.query_into(&selector, &mut results);
        assert(content_views(results@) =~= selected(nodes(self@), selector@));
        results
    }

    /// Queries the content tree for all elements that match the given selector
    /// and stores the results inside of the `results` vec.
    ///
    /// What `results` held before stays in front.
    pub fn query_into<'a>(&'a self, selector: &Selector, results: &mut Vec<&'a Content>)
        ensures
            content_views(final(results)@) == content_views(old(results)@) + selected(
                nodes(self@),
                selector@,
            ),
            old(results)@.is_prefix_of(final(results)@),
        decreases self@,
    {
        let ghost start = content_views(results@);
        let ghost views = self@.attrs;
        proof {
            reveal_with_fuel(Seq::filter, 2);
            assert(seq![self@].drop_last() =~= seq![]);
        }
        if selector.matches(self) {
            results.push(self);
            assert(content_views(results@) =~= start + selected(seq![self@], selector@));
        } else {
            assert(content_views(results@) =~= start + selected(seq![self@], selector@));
        }
        let attrs = self.attrs();
        let mut i: usize = 0;
        let ghost head = content_views(results@);
        assert(head + selected(attrs_nodes(views.take(0)), selector@) =~= head);
        while i < attrs.len()
            invariant
                i <= attrs@.len(),
                views == self@.attrs,
                views == attr_views(attrs@),
                content_views(results@) == head + selected(
                    attrs_nodes(views.take(i as int)),
                    selector@,
                ),
                old(results)@.is_prefix_of(results@),
            decreases attrs@.len() - i,
        {
            let ghost before = content_views(results@);
            assert(views[i as int] == attrs@[i as int]@);
            assert(decreases_to!(self@ => views));
            assert(decreases_to!(views => views[i as int]));
            match &attrs[i] {
                Attr::Child(child) => child.query_into(selector, results),
                Attr::Value(value) => walk_value(value, selector, results),
                _ => {
                    assert(selected(seq![], selector@) =~= seq![]);
                },
            }
            proof {
                assert(content_views(results@) =~= before + selected(
                    attr_nodes(views[i as int]),
                    selector@,
                ));
                assert(views.take(i + 1).drop_last() =~= views.take(i as int));
                lemma_selected_add(
                    attrs_nodes(views.take(i as int)),
                    attr_nodes(views[i as int]),
                    selector@,
                );
            }
            i += 1;
        }
        proof {
            assert(views.take(i as int) =~= views);
            lemma_selected_add(seq![self@], attrs_nodes(views), selector@);
        }
    }
}

/// Walks a given value to find any content that matches the selector.
fn walk_value<'a>(value: &'a Value, selector: &Selector, results: &mut Vec<&'a Content>)
    ensures
        content_views(final(results)@) == content_views(old(results)@) + selected(
            value_nodes(value@),
            selector@,
        ),
        old(results)@.is_prefix_of(final(results)@),
    decreases value@,
{
    let ghost start = content_views(results@);
    match value {
        Value::Content(content) => content.query_into(selector, results),
        Value::Array(array) => {
            let ghost views = value_views(array@);
            proof {
                lemma_array_view(*array);
            }
            let mut i: usize = 0;
            assert(start + selected(values_nodes(views.take(0)), selector@) =~= start);
            while i < array.len()
                invariant
                    i <= array@.len(),
                    views == value_views(array@),
                    value@ == ValueView::Array(views),
                    content_views(results@) == start + selected(
                        values_nodes(views.take(i as int)),
                        selector@,
                    ),
                    old(results)@.is_prefix_of(results@),
                decreases array@.len() - i,
            {
                assert(views[i as int] == array@[i as int]@);
                assert(decreases_to!(value@ => value@->Array_0));
                assert(decreases_to!(views => views[i as int]));
                walk_value(&array[i], selector, results);
                proof {
                    assert(views.take(i + 1).drop_last() =~= views.take(i as int));
                    lemma_selected_add(
                        values_nodes(views.take(i as int)),
                        value_nodes(views[i as int]),
                        selector@,
                    );
                }
                i += 1;
            }
            assert(views.take(i as int) =~= views);
        },
        _ => {
            assert(content_views(results@) =~= start + selected(seq![], selector@));
        },
    }
}

} // verus!
