//! Slot shapes and the plans of the generated code fragments.

use vstd::prelude::*;
use crate::schema::{FieldInfo, GenericParam, has_default, slots_upto, slots_of};

verus! {

/// What stands in one slot position of a builder type's generic arguments.
#[derive(Clone, Copy, Debug, PartialEq, Eq, Structural)]
pub enum SlotShape {
    /// The unset marker `()`.
    Unset,
    /// The one-element container `(T,)` of the given field's declared type.
    Holds(usize),
    /// The given field's own generic identifier: any shape that the slot has.
    Param(usize),
}

/// One `let` binding of the finalizer, for the field at the given position.
#[derive(Clone, Copy, Debug, PartialEq, Eq, Structural)]
pub enum Assignment {
    /// An excluded field: its default expression, unconditionally.
    Default(usize),
    /// An optional field with its slot: the stored value, else the default.
    Resolve(usize, usize),
    /// A required field with its slot: the stored value.
    Unwrap(usize, usize),
}

/// The builder type declaration and its zero-state constructor.
#[derive(Clone, Debug)]
pub struct BuilderCreation {
    pub vis: String,
    pub name: String,
    pub builder_name: String,
    pub core: String,
    /// The record's own generic parameters, each held by a phantom carrier.
    pub generics: Vec<GenericParam>,
    /// The field behind each slot; a slot's storage is typed by that field's
    /// generic identifier, which is also a generic parameter of the builder.
    pub slots: Vec<usize>,
    /// The slot shapes of the builder that the constructor returns.
    pub initial: Vec<SlotShape>,
    pub builder_method_doc: String,
    /// `None`: the builder type is hidden from documentation.
    pub builder_type_doc: Option<String>,
}

/// The two-case presence-resolution helper trait and its one method.
#[derive(Clone, Debug)]
pub struct ConversionHelper {
    pub trait_name: String,
    pub method_name: String,
}

/// The setter of one field.
#[derive(Clone, Debug)]
pub struct SetterImpl {
    pub builder_name: String,
    pub core: String,
    pub field: usize,
    pub slot: usize,
    /// Fields whose generic identifiers are parameters of the setter's impl.
    pub impl_params: Vec<usize>,
    /// The builder type that the setter is declared on.
    pub receiver: Vec<SlotShape>,
    /// The builder type that the setter returns.
    pub target: Vec<SlotShape>,
    pub doc: Option<String>,
}

/// The finalizer.
#[derive(Clone, Debug)]
pub struct BuildMethod {
    pub name: String,
    pub builder_name: String,
    pub helper_trait_name: String,
    pub helper_method_name: String,
    /// Fields whose generic identifiers are impl parameters, each bounded by
    /// the helper trait over the field's declared type.
    pub bounded_params: Vec<usize>,
    /// The builder type that the finalizer is declared on.
    pub receiver: Vec<SlotShape>,
    /// One binding per field, in declaration order.
    pub assignments: Vec<Assignment>,
    pub doc: Option<String>,
}

/// The slot position of field `i`: how many included fields precede it.
pub open spec fn slot_pos(fields: Seq<FieldInfo>, i: int) -> int {
    slots_upto(fields, i as nat).len() as int
}

pub open spec fn unset_shapes(n: nat) -> Seq<SlotShape> {
    Seq::new(n, |j: int| SlotShape::Unset)
}

/// The setter of slot `k` is declared on builders whose slot `k` is unset
/// and whose other slots are free.
pub open spec fn setter_receiver(slots: Seq<int>, k: int) -> Seq<SlotShape> {
    Seq::new(
        slots.len(),
        |j: int|
            if j == k {
                SlotShape::Unset
            } else {
                SlotShape::Param(slots[j] as usize)
            },
    )
}

/// The setter of slot `k` returns the same builder with slot `k` set.
pub open spec fn setter_target(slots: Seq<int>, k: int) -> Seq<SlotShape> {
    Seq::new(
        slots.len(),
        |j: int|
            if j == k {
                SlotShape::Holds(slots[k] as usize)
            } else {
                SlotShape::Param(slots[j] as usize)
            },
    )
}

/// The finalizer pins each required slot to its set shape and leaves each
/// optional slot free.
pub open spec fn build_receiver(fields: Seq<FieldInfo>) -> Seq<SlotShape> {
    build_receiver_of(fields, slots_of(fields))
}

pub open spec fn build_receiver_of(fields: Seq<FieldInfo>, slots: Seq<int>) -> Seq<SlotShape> {
    Seq::new(
        slots.len(),
        |j: int|
            if has_default(fields[slots[j]]) {
                SlotShape::Param(slots[j] as usize)
            } else {
                SlotShape::Holds(slots[j] as usize)
            },
    )
}

pub open spec fn assignment_for(fields: Seq<FieldInfo>, i: int) -> Assignment {
    if has_default(fields[i]) {
        if fields[i].builder_attr.exclude {
            Assignment::Default(i as usize)
        } else {
            Assignment::Resolve(i as usize, slot_pos(fields, i) as usize)
        }
    } else {
        Assignment::Unwrap(i as usize, slot_pos(fields, i) as usize)
    }
}

pub open spec fn assignments_of(fields: Seq<FieldInfo>) -> Seq<Assignment> {
    Seq::new(fields.len(), |i: int| assignment_for(fields, i))
}

/// The optional included fields, in declaration order, among the first `n`.
pub open spec fn optional_upto(fields: Seq<FieldInfo>, n: nat) -> Seq<int>
    decreases n,
{
    if n == 0 {
        Seq::empty()
    } else {
        let prev = optional_upto(fields, (n - 1) as nat);
        if !fields[n - 1].builder_attr.exclude && has_default(fields[n - 1]) {
            prev.push(n - 1)
        } else {
            prev
        }
    }
}

pub open spec fn idx(v: Seq<usize>) -> Seq<int> {
    v.map_values(|i: usize| i as int)
}

// Facts about the slot sequence.

/// Slots are strictly increasing positions of included fields below `n`.
pub proof fn lemma_slots_sorted(fields: Seq<FieldInfo>, n: nat)
    requires
        n <= fields.len(),
    ensures
        forall|a: int|
            0 <= a < slots_upto(fields, n).len() ==> 0 <= #[trigger] slots_upto(fields, n)[a] < n
                && !fields[slots_upto(fields, n)[a]].builder_attr.exclude,
        forall|a: int, b: int|
            0 <= a < b < slots_upto(fields, n).len() ==> #[trigger] slots_upto(fields, n)[a]
                < #[trigger] slots_upto(fields, n)[b],
        slots_upto(fields, n).len() <= n,
    decreases n,
{
    if n > 0 {
        lemma_slots_sorted(fields, (n - 1) as nat);
    }
}

/// A shorter prefix of the fields gives a prefix of the slots.
pub proof fn lemma_slots_prefix(fields: Seq<FieldInfo>, m: nat, n: nat)
    requires
        m <= n <= fields.len(),
    ensures
        slots_upto(fields, m).len() <= slots_upto(fields, n).len(),
        slots_upto(fields, n).take(slots_upto(fields, m).len() as int) == slots_upto(fields, m),
    decreases n - m,
{
    if m < n {
        lemma_slots_prefix(fields, m, (n - 1) as nat);
        assert(slots_upto(fields, n).take(slots_upto(fields, m).len() as int)
            =~= slots_upto(fields, (n - 1) as nat).take(slots_upto(fields, m).len() as int));
    } else {
        assert(slots_upto(fields, n).take(slots_upto(fields, m).len() as int) =~= slots_upto(fields, m));
    }
}

/// An included field stands in the slot sequence at its slot position.
pub proof fn lemma_slot_pos(fields: Seq<FieldInfo>, i: int)
    requires
        0 <= i < fields.len(),
        !fields[i].builder_attr.exclude,
    ensures
        0 <= slot_pos(fields, i) < slots_of(fields).len(),
        slots_of(fields)[slot_pos(fields, i)] == i,
{
    lemma_slots_prefix(fields, (i + 1) as nat, fields.len());
    let s = slots_of(fields);
    let p = slots_upto(fields, (i + 1) as nat);
    assert(p == slots_upto(fields, i as nat).push(i));
    assert(s.take(p.len() as int)[slot_pos(fields, i)] == p[slot_pos(fields, i)]);
}

/// A slot position is the slot position of the field that stands there.
pub proof fn lemma_pos_of_slot(fields: Seq<FieldInfo>, k: int)
    requires
        0 <= k < slots_of(fields).len(),
    ensures
        0 <= slots_of(fields)[k] < fields.len(),
        !fields[slots_of(fields)[k]].builder_attr.exclude,
        slot_pos(fields, slots_of(fields)[k]) == k,
{
    lemma_slots_sorted(fields, fields.len());
    let i = slots_of(fields)[k];
    lemma_slot_pos(fields, i);
    let p = slot_pos(fields, i);
    if p < k {
        assert(slots_of(fields)[p] < slots_of(fields)[k]);
    } else if p > k {
        assert(slots_of(fields)[k] < slots_of(fields)[p]);
    }
}

} // verus!
