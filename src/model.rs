//! What the generated code means.
//!
//! A builder value is modelled by the contents of its slots, one
//! `Option<int>` per slot (`None`: the unset marker; `Some(v)`: the
//! one-element container holding the converted value `v`). Its type is the
//! sequence of slot shapes that those contents have. An impl declared on a
//! builder type accepts a builder whose shapes agree with it in every slot
//! that the impl does not leave free. A default expression is modelled by a
//! function of the field position and the values bound before it.

use vstd::prelude::*;
use crate::schema::{FieldInfo, StructInfo};
use crate::shape::{SlotShape, Assignment, slot_pos, setter_receiver, setter_target};

verus! {

/// The slot shapes of a builder whose slots hold `state`.
pub open spec fn shapes_of(slots: Seq<int>, state: Seq<Option<int>>) -> Seq<SlotShape> {
    Seq::new(
        state.len(),
        |j: int|
            match state[j] {
                Some(_) => SlotShape::Holds(slots[j] as usize),
                None => SlotShape::Unset,
            },
    )
}

/// Whether an impl declared on `pattern` applies to a builder of type `shapes`.
pub open spec fn admits(pattern: Seq<SlotShape>, shapes: Seq<SlotShape>) -> bool {
    &&& pattern.len() == shapes.len()
    &&& forall|j: int| 0 <= j < pattern.len() ==> (#[trigger] pattern[j] is Param || pattern[j] == shapes[j])
}

/// The builder that a setter returns: free slots are moved through, the set
/// slot holds the new value.
pub open spec fn apply_setter(target: Seq<SlotShape>, state: Seq<Option<int>>, v: int) -> Seq<Option<int>> {
    Seq::new(
        state.len(),
        |j: int|
            match target[j] {
                SlotShape::Param(_) => state[j],
                SlotShape::Holds(_) => Some(v),
                SlotShape::Unset => None,
            },
    )
}

/// The presence-resolution helper: a held value wins over the fallback.
pub open spec fn presence_resolve(slot: Option<int>, fallback: int) -> int {
    match slot {
        Some(v) => v,
        None => fallback,
    }
}

/// The values that the first `n` bindings of the finalizer produce.
pub open spec fn resolve_upto(
    asg: Seq<Assignment>,
    state: Seq<Option<int>>,
    eval: spec_fn(int, Seq<int>) -> int,
    n: nat,
) -> Seq<int>
    decreases n,
{
    if n == 0 {
        Seq::empty()
    } else {
        let prev = resolve_upto(asg, state, eval, (n - 1) as nat);
        let v = match asg[n - 1] {
            Assignment::Default(f) => eval(f as int, prev),
            Assignment::Resolve(f, k) => presence_resolve(state[k as int], eval(f as int, prev)),
            Assignment::Unwrap(_, k) => state[k as int]->Some_0,
        };
        prev.push(v)
    }
}

/// The field values of the record that the finalizer returns.
pub open spec fn finalize(asg: Seq<Assignment>, state: Seq<Option<int>>, eval: spec_fn(int, Seq<int>) -> int) -> Seq<int> {
    resolve_upto(asg, state, eval, asg.len())
}

/// What field `i` of the record should hold, given the values bound before it.
pub open spec fn expected_value(
    fields: Seq<FieldInfo>,
    state: Seq<Option<int>>,
    eval: spec_fn(int, Seq<int>) -> int,
    i: int,
    earlier: Seq<int>,
) -> int {
    if fields[i].builder_attr.exclude {
        eval(i, earlier)
    } else {
        presence_resolve(state[slot_pos(fields, i)], eval(i, earlier))
    }
}

/// The builder that the constructor returns.
pub open spec fn initial_state(n: nat) -> Seq<Option<int>> {
    Seq::new(n, |j: int| None)
}

/// The builder after the first `n` of `calls`, each a slot position and the
/// converted value handed to that slot's setter.
pub open spec fn run_upto(s: StructInfo, calls: Seq<(int, int)>, n: nat) -> Seq<Option<int>>
    decreases n,
{
    if n == 0 {
        initial_state(s.slots().len())
    } else {
        apply_setter(
            setter_target(s.slots(), calls[n - 1].0),
            run_upto(s, calls, (n - 1) as nat),
            calls[n - 1].1,
        )
    }
}

pub open spec fn run(s: StructInfo, calls: Seq<(int, int)>) -> Seq<Option<int>> {
    run_upto(s, calls, calls.len())
}

/// Every call names a slot whose setter applies to the builder at that point.
pub open spec fn chain_accepted(s: StructInfo, calls: Seq<(int, int)>) -> bool {
    forall|n: int|
        0 <= n < calls.len() ==> 0 <= (#[trigger] calls[n]).0 < s.slots().len() && admits(
            setter_receiver(s.slots(), calls[n].0),
            shapes_of(s.slots(), run_upto(s, calls, n as nat)),
        )
}

/// No two calls name the same slot, and each names one.
pub open spec fn distinct_slots(s: StructInfo, calls: Seq<(int, int)>) -> bool {
    &&& forall|t: int| 0 <= t < calls.len() ==> 0 <= (#[trigger] calls[t]).0 < s.slots().len()
    &&& forall|a: int, b: int|
        0 <= a < b < calls.len() ==> (#[trigger] calls[a]).0 != (#[trigger] calls[b]).0
}

} // verus!
