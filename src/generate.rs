//! The generators: one plan per emitted code fragment.

use vstd::prelude::*;
use vstd::string::StringExecFns;
use crate::schema::{StructInfo, same_generics, clone_generics, FieldInfo, opt_text, has_default, slots_upto, clone_text};
use crate::shape::{
    BuilderCreation, ConversionHelper, SetterImpl, BuildMethod, SlotShape, Assignment, unset_shapes,
    assignments_of, assignment_for, build_receiver, build_receiver_of, optional_upto, slot_pos,
    setter_receiver, setter_target, idx, lemma_slot_pos, lemma_slots_sorted,
};

verus! {

impl StructInfo {
    /// The setter of an included field: declared on builders whose slot for
    /// the field is unset, returning the builder with that slot set and every
    /// other slot passed through under its own generic identifier.
    pub fn field_impl(&self, field: usize) -> (r: SetterImpl)
        requires
            self.wf(),
            field < self.fields@.len(),
            !self.fields@[field as int].builder_attr.exclude,
        ensures
            r.field == field,
            r.slot == slot_pos(self.fields@, field as int),
            r.receiver@ == setter_receiver(self.slots(), r.slot as int),
            r.target@ == setter_target(self.slots(), r.slot as int),
            idx(r.impl_params@) == self.slots().remove(r.slot as int),
            r.builder_name@ == self.builder_name@,
            r.core@ == self.core@,
            opt_text(r.doc) == opt_text(self.fields@[field as int].builder_attr.doc),
    {
        let slots = self.included_fields();
        let ghost s = self.slots();
        let ghost pos = slot_pos(self.fields@, field as int);
        proof {
            lemma_slot_pos(self.fields@, field as int);
            lemma_slots_sorted(self.fields@, self.fields@.len());
        }
        let mut receiver: Vec<SlotShape> = Vec::new();
        let mut target: Vec<SlotShape> = Vec::new();
        let mut impl_params: Vec<usize> = Vec::new();
        let mut slot: usize = 0;
        let mut j: usize = 0;
        while j < slots.len()
            invariant
                j > pos ==> slot == pos,
                idx(slots@) == s,
                0 <= pos < s.len(),
                s[pos] == field,
                forall|a: int, b: int| 0 <= a < b < s.len() ==> #[trigger] s[a] < #[trigger] s[b],
                j <= slots@.len(),
                receiver@ == setter_receiver(s, pos).take(j as int),
                target@ == setter_target(s, pos).take(j as int),
                idx(impl_params@) == (if j <= pos { s.take(j as int) } else { s.take(j as int).remove(pos) }),
            decreases slots@.len() - j,
        {
            let f = slots[j];
            assert(f as int == s[j as int]);
            if f == field {
                slot = j;
                receiver.push(SlotShape::Unset);
                target.push(SlotShape::Holds(field));
                proof {
                    if j as int != pos {
                        if (j as int) < pos {
                            assert(s[j as int] < s[pos]);
                        } else {
                            assert(s[pos] < s[j as int]);
                        }
                    }
                    assert(idx(impl_params@) =~= s.take(j + 1).remove(pos));
                }
            } else {
                receiver.push(SlotShape::Param(f));
                target.push(SlotShape::Param(f));
                proof {
                    assert(j as int != pos);
                    assert(idx(impl_params@.push(f)) =~= idx(impl_params@).push(f as int));
                    if (j as int) < pos {
                        assert(idx(impl_params@.push(f)) =~= s.take(j + 1));
                    } else {
                        assert(idx(impl_params@.push(f)) =~= s.take(j + 1).remove(pos));
                    }
                }
                impl_params.push(f);
            }
            proof {
                assert(receiver@ =~= setter_receiver(s, pos).take(j + 1));
                assert(target@ =~= setter_target(s, pos).take(j + 1));
            }
            j = j + 1;
        }
        proof {
            assert(receiver@ =~= setter_receiver(s, pos));
            assert(target@ =~= setter_target(s, pos));
            assert(s.take(s.len() as int) =~= s);
        }
        SetterImpl {
            builder_name: self.builder_name.clone(),
            core: self.core.clone(),
            field,
            slot,
            impl_params,
            receiver,
            target,
            doc: clone_text(&self.fields[field].builder_attr.doc),
        }
    }
}

/// The finalizer's documentation: none when documentation is off, else the
/// override, else a sentence that links the record.
pub open spec fn build_doc(doc: bool, over: Option<Seq<char>>, name: Seq<char>) -> Option<Seq<char>> {
    if !doc {
        None
    } else {
        match over {
            Some(d) => Some(d),
            None => Some("Finalise the builder and create its [`"@ + name + "`] instance"@),
        }
    }
}

impl StructInfo {
    /// The finalizer: declared on builders whose required slots are set and
    /// whose optional slots are free (bounded by the helper trait); binds
    /// every field in declaration order, so that a default expression sees
    /// the fields bound before it.
    pub fn build_method_impl(&self) -> (r: BuildMethod)
        requires
            self.wf(),
        ensures
            r.receiver@ == build_receiver(self.fields@),
            r.assignments@ == assignments_of(self.fields@),
            idx(r.bounded_params@) == optional_upto(self.fields@, self.fields@.len()),
            r.name@ == self.name@,
            r.builder_name@ == self.builder_name@,
            r.helper_trait_name@ == self.conversion_helper_trait_name@,
            r.helper_method_name@ == self.conversion_helper_method_name@,
            opt_text(r.doc) == build_doc(self.builder_attr.doc, opt_text(self.builder_attr.build_method_doc), self.name@),
    {
        let ghost fs = self.fields@;
        let mut receiver: Vec<SlotShape> = Vec::new();
        let mut assignments: Vec<Assignment> = Vec::new();
        let mut bounded_params: Vec<usize> = Vec::new();
        let mut k: usize = 0;
        let mut i: usize = 0;
        while i < self.fields.len()
            invariant
                self.wf(),
                fs == self.fields@,
                i <= fs.len(),
                k as int == slots_upto(fs, i as nat).len(),
                receiver@ == build_receiver_of(fs, slots_upto(fs, i as nat)),
                assignments@ == assignments_of(fs).take(i as int),
                idx(bounded_params@) == optional_upto(fs, i as nat),
            decreases fs.len() - i,
        {
            proof {
                lemma_slots_sorted(fs, i as nat);
            }
            let f = &self.fields[i];
            let a = if f.builder_attr.default.is_some() {
                if f.builder_attr.exclude {
                    Assignment::Default(i)
                } else {
                    Assignment::Resolve(i, k)
                }
            } else {
                Assignment::Unwrap(i, k)
            };
            assert(a == assignment_for(fs, i as int));
            assignments.push(a);
            if !f.builder_attr.exclude {
                if f.builder_attr.default.is_some() {
                    receiver.push(SlotShape::Param(i));
                    proof {
                        assert(idx(bounded_params@.push(i)) =~= idx(bounded_params@).push(i as int));
                    }
                    bounded_params.push(i);
                } else {
                    receiver.push(SlotShape::Holds(i));
                }
                k = k + 1;
            }
            proof {
                assert(receiver@ =~= build_receiver_of(fs, slots_upto(fs, (i + 1) as nat)));
                assert(assignments@ =~= assignments_of(fs).take(i + 1));
            }
            i = i + 1;
        }
        proof {
            assert(assignments@ =~= assignments_of(fs));
        }
        let doc = if self.builder_attr.doc {
            match &self.builder_attr.build_method_doc {
                Some(d) => Some(d.clone()),
                None => {
                    let mut d = String::from_str("Finalise the builder and create its [`");
                    d.append(self.name.as_str());
                    d.append("`] instance");
                    Some(d)
                },
            }
        } else {
            None
        };
        BuildMethod {
            name: self.name.clone(),
            builder_name: self.builder_name.clone(),
            helper_trait_name: self.conversion_helper_trait_name.clone(),
            helper_method_name: self.conversion_helper_method_name.clone(),
            bounded_params,
            receiver,
            assignments,
            doc,
        }
    }
}

/// The setter calls listed in the builder method's documentation, optional
/// ones marked.
pub open spec fn setter_list(fields: Seq<FieldInfo>, slots: Seq<int>) -> Seq<char>
    decreases slots.len(),
{
    if slots.len() == 0 {
        Seq::empty()
    } else {
        let prev = setter_list(fields, slots.drop_last());
        let f = fields[slots.last()];
        let sep = if slots.len() == 1 { Seq::empty() } else { ", "@ };
        let opt = if has_default(f) { "(optional)"@ } else { Seq::empty() };
        prev + sep + "`."@ + f.name@ + "(...)`"@ + opt
    }
}

pub open spec fn builder_method_doc_text(over: Option<Seq<char>>, name: Seq<char>, list: Seq<char>) -> Seq<char> {
    match over {
        Some(d) => d,
        None => "Create a builder for building `"@ + name + "`.\nOn the builder, call "@ + list
            + " to set the values of the fields (they accept `Into` values).\nFinally, call `.build()` to create the instance of `"@
            + name + "`."@,
    }
}

pub open spec fn builder_type_doc_text(doc: bool, over: Option<Seq<char>>, name: Seq<char>) -> Option<Seq<char>> {
    if !doc {
        None
    } else {
        match over {
            Some(d) => Some(d),
            None => Some("Builder for [`"@ + name + "`] instances.\n\nSee [`"@ + name + "::builder()`] for more info."@),
        }
    }
}

impl StructInfo {
    /// The builder type (the record's generics plus one generic slot per
    /// included field) and the constructor, which returns the builder with
    /// every slot unset.
    pub fn builder_creation_impl(&self) -> (r: BuilderCreation)
        requires
            self.wf(),
        ensures
            idx(r.slots@) == self.slots(),
            r.initial@ == unset_shapes(self.slots().len()),
            same_generics(r.generics@, self.generics@),
            r.vis@ == self.vis@,
            r.name@ == self.name@,
            r.builder_name@ == self.builder_name@,
            r.core@ == self.core@,
            r.builder_method_doc@ == builder_method_doc_text(
                opt_text(self.builder_attr.builder_method_doc),
                self.name@,
                setter_list(self.fields@, self.slots()),
            ),
            opt_text(r.builder_type_doc) == builder_type_doc_text(
                self.builder_attr.doc,
                opt_text(self.builder_attr.builder_type_doc),
                self.name@,
            ),
    {
        let slots = self.included_fields();
        let ghost s = self.slots();
        proof {
            lemma_slots_sorted(self.fields@, self.fields@.len());
        }
        let mut initial: Vec<SlotShape> = Vec::new();
        let mut list = String::new();
        let mut j: usize = 0;
        while j < slots.len()
            invariant
                idx(slots@) == s,
                s == self.slots(),
                forall|a: int| 0 <= a < s.len() ==> 0 <= #[trigger] s[a] < self.fields@.len(),
                j <= slots@.len(),
                initial@ == unset_shapes(j as nat),
                list@ == setter_list(self.fields@, s.take(j as int)),
            decreases slots@.len() - j,
        {
            assert(slots@[j as int] as int == s[j as int]);
            let f = &self.fields[slots[j]];
            assert(s.take(j + 1).drop_last() =~= s.take(j as int));
            if j > 0 {
                list.append(", ");
            }
            list.append("`.");
            list.append(f.name.as_str());
            list.append("(...)`");
            if f.builder_attr.default.is_some() {
                list.append("(optional)");
            }
            initial.push(SlotShape::Unset);
            proof {
                assert(initial@ =~= unset_shapes((j + 1) as nat));
            }
            j = j + 1;
        }
        assert(s.take(s.len() as int) =~= s);
        let builder_method_doc = match &self.builder_attr.builder_method_doc {
            Some(d) => d.clone(),
            None => {
                let mut d = String::from_str("Create a builder for building `");
                d.append(self.name.as_str());
                d.append("`.\nOn the builder, call ");
                d.append(list.as_str());
                d.append(" to set the values of the fields (they accept `Into` values).\nFinally, call `.build()` to create the instance of `");
                d.append(self.name.as_str());
                d.append("`.");
                d
            },
        };
        let builder_type_doc = if self.builder_attr.doc {
            match &self.builder_attr.builder_type_doc {
                Some(d) => Some(d.clone()),
                None => {
                    let mut d = String::from_str("Builder for [`");
                    d.append(self.name.as_str());
                    d.append("`] instances.\n\nSee [`");
                    d.append(self.name.as_str());
                    d.append("::builder()`] for more info.");
                    Some(d)
                },
            }
        } else {
            None
        };
        BuilderCreation {
            vis: self.vis.clone(),
            name: self.name.clone(),
            builder_name: self.builder_name.clone(),
            core: self.core.clone(),
            generics: clone_generics(&self.generics),
            slots,
            initial,
            builder_method_doc,
            builder_type_doc,
        }
    }

    /// The presence-resolution helper: its trait and method names.
    pub fn conversion_helper_impl(&self) -> (r: ConversionHelper)
        ensures
            r.trait_name@ == self.conversion_helper_trait_name@,
            r.method_name@ == self.conversion_helper_method_name@,
    {
        ConversionHelper {
            trait_name: self.conversion_helper_trait_name.clone(),
            method_name: self.conversion_helper_method_name.clone(),
        }
    }
}

} // verus!
