//! Joining content.

use crate::attr::Attr;
use crate::content::{owned_views, Content};
use crate::elem::SequenceElem;
use crate::model::ContentView;
use std::ops::{Add, AddAssign};
use vstd::prelude::*;

verus! {

impl Default for Content {
    fn default() -> (r: Self)
        ensures
            r@ == ContentView::empty(),
            r@.wf(),
    {
        Self::empty()
    }
}

impl Add for Content {
    type Output = Self;

    fn add(self, rhs: Self) -> (r: Self)
        ensures
            r@ == self@.concat(rhs@),
            r@.wf(),
    {
        match (self.is::<SequenceElem>(), rhs.is::<SequenceElem>()) {
            (true, true) => self.extended(rhs),
            (true, false) => self.with_attr(Attr::Child(rhs)),
            (false, true) => rhs.with_first_attr(Attr::Child(self)),
            (false, false) => {
                let mut items: Vec<Content> = Vec::new();
                items.push(self);
                items.push(rhs);
                assert(owned_views(items@) =~= seq![self@, rhs@]);
                Self::sequence(items)
            },
        }
    }
}

/// The ensures clause of `add` says what the sum stands for, which settles it up to sharing; so
/// there is no exact value to state here.
impl vstd::std_specs::ops::AddSpecImpl for Content {
    open spec fn obeys_add_spec() -> bool {
        false
    }

    open spec fn add_req(self, rhs: Self) -> bool {
        true
    }

    open spec fn add_spec(self, rhs: Self) -> Self {
        arbitrary()
    }
}

impl AddAssign for Content {
    fn add_assign(&mut self, rhs: Self)
        ensures
            final(self)@ == old(self)@.concat(rhs@),
            final(self)@.wf(),
    {
        let mut lhs = Content::empty();
        std::mem::swap(&mut lhs, self);
        *self = lhs + rhs;
    }
}

} // verus!
