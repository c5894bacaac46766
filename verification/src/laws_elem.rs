//! What holds of element functions and their capabilities.

use crate::elem::{
    first_vtable, Behave, Behaviour, Capability, ElemFunc, ElemId, Element, FuncView, Locatable,
    SequenceElem, StyledElem, Synthesize, TypeId, Vtable,
};
use crate::meta::{Fold, Meta, MetaElem};
use vstd::prelude::*;

verus! {

/// An element has a capability exactly if its table lists it, and the first entry gives the
/// methods.
pub proof fn law_capabilities(func: FuncView, type_id: TypeId)
    ensures
        func.can(type_id) <==> exists|i: int|
            0 <= i < func.vtable.len() && (#[trigger] func.vtable[i]).0 == type_id,
        func.can(type_id) <==> func.vtable_of(type_id) is Some,
        forall|i: int|
            0 <= i < func.vtable.len() && (#[trigger] func.vtable[i]).0 == type_id && (forall|
                j: int,
            |
                0 <= j < i ==> (#[trigger] func.vtable[j]).0 != type_id) ==> func.vtable_of(type_id)
                == Some(func.vtable[i].1),
{
    let table = func.vtable;
    let k = lemma_first_entry(table, type_id);
    if k < table.len() {
        assert(table[k].0 == type_id);
    }
}

/// Where the first entry for a capability stands, or how many entries there are if there is none.
proof fn lemma_first_entry(table: Seq<(TypeId, Vtable)>, type_id: TypeId) -> (k: int)
    ensures
        0 <= k <= table.len(),
        forall|j: int| 0 <= j < k ==> (#[trigger] table[j]).0 != type_id,
        k < table.len() ==> table[k].0 == type_id && first_vtable(table, type_id) == Some(
            table[k].1,
        ),
        k == table.len() ==> first_vtable(table, type_id) is None,
    decreases table.len(),
{
    if table.len() == 0 || table[0].0 == type_id {
        0
    } else {
        let rest = table.drop_first();
        let k = lemma_first_entry(rest, type_id);
        assert forall|j: int| 0 <= j < k + 1 implies (#[trigger] table[j]).0 != type_id by {
            if j > 0 {
                assert(rest[j - 1] == table[j]);
            }
        }
        k + 1
    }
}

/// The capabilities that content asks for are told apart.
pub proof fn law_capability_ids()
    ensures
        <dyn Locatable as Capability>::spec_id() == TypeId::Locatable,
        <dyn Synthesize as Capability>::spec_id() == TypeId::Synthesize,
        <dyn Behave as Capability>::spec_id() == TypeId::Behave,
{
}

/// Sequences and styled elements have names of their own and no capabilities; the host of
/// metadata behaves, and can do nothing else.
pub proof fn law_elements(type_id: TypeId)
    ensures
        SequenceElem::func_view().id == ElemId::Sequence,
        SequenceElem::func_view().name == "sequence"@,
        !SequenceElem::func_view().can(type_id),
        StyledElem::func_view().id == ElemId::Styled,
        StyledElem::func_view().name == "styled"@,
        !StyledElem::func_view().can(type_id),
        MetaElem::func_view().id == ElemId::Meta,
        MetaElem::func_view().name == "meta"@,
        MetaElem::func_view().can(type_id) <==> type_id == TypeId::Behave,
{
    let func = MetaElem::func_view();
    law_capabilities(func, type_id);
    assert(func.vtable[0].0 == TypeId::Behave);
}

/// The host of metadata does not interact with its neighbours.
pub proof fn law_meta_behaviour(meta: MetaElem)
    ensures
        meta.spec_behaviour() == Behaviour::Ignorant,
{
}

/// Folding metadata keeps the inner entries, and puts the outer ones after them.
pub proof fn law_fold(inner: Vec<Meta>, outer: Vec<Meta>, r: Vec<Meta>)
    requires
        inner.folded(outer, r),
    ensures
        r@.len() == inner@.len() + outer@.len(),
        forall|i: int| 0 <= i < inner@.len() ==> #[trigger] r@[i] == inner@[i],
        forall|i: int| 0 <= i < outer@.len() ==> r@[inner@.len() + i] == #[trigger] outer@[i],
{
}

/// An element function stands for its identity, its name and its table.
pub proof fn law_func_view(func: ElemFunc)
    ensures
        func@.id == func.id,
        func@.name == func.name@,
        func@.vtable == func.vtable@,
{
}

} // verus!
