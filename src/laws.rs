//! Properties of the generated code, over every schema.

use vstd::prelude::*;
use crate::schema::{StructInfo, FieldInfo, field_generic_ident, has_default, slots_of, slots_upto, opt_text};
use crate::shape::{
    Assignment, SlotShape, assignments_of, assignment_for, build_receiver,
    setter_receiver, setter_target, slot_pos, lemma_slot_pos, lemma_pos_of_slot,
};
use crate::model::{
    admits, apply_setter, chain_accepted, distinct_slots, expected_value, finalize, resolve_upto,
    run, run_upto, shapes_of,
};

verus! {

/// The finalizer's first `m` bindings do not depend on the later ones.
proof fn lemma_resolve_prefix(
    asg: Seq<Assignment>,
    state: Seq<Option<int>>,
    eval: spec_fn(int, Seq<int>) -> int,
    m: nat,
    n: nat,
)
    requires
        m <= n,
    ensures
        resolve_upto(asg, state, eval, n).len() == n,
        resolve_upto(asg, state, eval, n).take(m as int) == resolve_upto(asg, state, eval, m),
    decreases n,
{
    if n > 0 {
        lemma_resolve_prefix(asg, state, eval, if m == n { (n - 1) as nat } else { m }, (n - 1) as nat);
        if m < n {
            assert(resolve_upto(asg, state, eval, n).take(m as int)
                =~= resolve_upto(asg, state, eval, (n - 1) as nat).take(m as int));
        }
    }
    assert(resolve_upto(asg, state, eval, n).take(n as int) =~= resolve_upto(asg, state, eval, n));
}

/// The finalizer, applied to a builder that its declared type accepts,
/// binds every field in declaration order: an excluded field to its default,
/// a set field to the value it holds, an unset optional field to its default;
/// each default sees exactly the values bound before it.
pub proof fn lemma_finalize_resolves(s: StructInfo, state: Seq<Option<int>>, eval: spec_fn(int, Seq<int>) -> int)
    requires
        s.wf(),
        state.len() == s.slots().len(),
        admits(build_receiver(s.fields@), shapes_of(s.slots(), state)),
    ensures
        finalize(assignments_of(s.fields@), state, eval).len() == s.fields@.len(),
        forall|i: int|
            0 <= i < s.fields@.len() ==> #[trigger] finalize(assignments_of(s.fields@), state, eval)[i]
                == expected_value(
                s.fields@,
                state,
                eval,
                i,
                finalize(assignments_of(s.fields@), state, eval).take(i),
            ),
{
    let fs = s.fields@;
    let asg = assignments_of(fs);
    let n = fs.len();
    lemma_resolve_prefix(asg, state, eval, n, n);
    crate::shape::lemma_slots_sorted(fs, n);
    assert forall|i: int| 0 <= i < n implies #[trigger] finalize(asg, state, eval)[i] == expected_value(
        fs,
        state,
        eval,
        i,
        finalize(asg, state, eval).take(i),
    ) by {
        let r = finalize(asg, state, eval);
        lemma_resolve_prefix(asg, state, eval, (i + 1) as nat, n);
        lemma_resolve_prefix(asg, state, eval, i as nat, n);
        let prev = resolve_upto(asg, state, eval, i as nat);
        let r1 = resolve_upto(asg, state, eval, (i + 1) as nat);
        assert(r[i] == r1[i]);
        assert(prev == r.take(i));
        assert(asg[i] == assignment_for(fs, i));
        if fs[i].builder_attr.exclude {
            assert(has_default(fs[i]));
            assert(asg[i] == Assignment::Default(i as usize));
            assert(r1[i] == eval(i, prev));
        } else {
            lemma_slot_pos(fs, i);
            let k = slot_pos(fs, i);
            if has_default(fs[i]) {
                assert(asg[i] == Assignment::Resolve(i as usize, k as usize));
            } else {
                assert(asg[i] == Assignment::Unwrap(i as usize, k as usize));
                assert(build_receiver(fs)[k] == SlotShape::Holds(i as usize));
                assert(state[k] is Some);
            }
        }
    }
}

/// One setter call: its slot now holds the value, the others are unchanged.
proof fn lemma_setter_step(slots: Seq<int>, state: Seq<Option<int>>, c: int, v: int)
    requires
        0 <= c < slots.len(),
        state.len() == slots.len(),
    ensures
        apply_setter(setter_target(slots, c), state, v).len() == slots.len(),
        apply_setter(setter_target(slots, c), state, v)[c] == Some(v),
        forall|j: int|
            0 <= j < slots.len() && j != c ==> #[trigger] apply_setter(setter_target(slots, c), state, v)[j]
                == state[j],
{
}

/// A setter's receiver accepts a builder whose slot for it is unset.
proof fn lemma_setter_accepts(slots: Seq<int>, state: Seq<Option<int>>, c: int)
    requires
        0 <= c < slots.len(),
        state.len() == slots.len(),
        state[c] is None,
    ensures
        admits(setter_receiver(slots, c), shapes_of(slots, state)),
{
    let rc = setter_receiver(slots, c);
    let sh = shapes_of(slots, state);
    assert forall|j: int| 0 <= j < rc.len() implies (#[trigger] rc[j] is Param || rc[j] == sh[j]) by {}
}

/// The builder after a chain of setter calls on distinct slots holds
/// exactly the values passed, each call being accepted where it is made.
proof fn lemma_run_contents(s: StructInfo, calls: Seq<(int, int)>, n: nat)
    requires
        s.wf(),
        distinct_slots(s, calls),
        n <= calls.len(),
    ensures
        run_upto(s, calls, n).len() == s.slots().len(),
        forall|t: int| 0 <= t < n ==> run_upto(s, calls, n)[(#[trigger] calls[t]).0] == Some(calls[t].1),
        forall|j: int|
            0 <= j < s.slots().len() && (forall|t: int| 0 <= t < n ==> (#[trigger] calls[t]).0 != j)
                ==> run_upto(s, calls, n)[j] is None,
        forall|m: int|
            0 <= m < n ==> admits(
                setter_receiver(s.slots(), (#[trigger] calls[m]).0),
                shapes_of(s.slots(), run_upto(s, calls, m as nat)),
            ),
    decreases n,
{
    if n > 0 {
        let p = (n - 1) as nat;
        lemma_run_contents(s, calls, p);
        let c = calls[p as int].0;
        let prev = run_upto(s, calls, p);
        assert forall|t: int| 0 <= t < p implies (#[trigger] calls[t]).0 != c by {}
        assert(prev[c] is None);
        lemma_setter_step(s.slots(), prev, c, calls[p as int].1);
        lemma_setter_accepts(s.slots(), prev, c);
    }
}

/// Setting the same field twice does not type-check: once a setter has
/// been applied, its declared receiver no longer accepts the builder, while
/// the builder it returns has the type it declares.
pub proof fn lemma_setter_twice_rejected(s: StructInfo, state: Seq<Option<int>>, k: int, v: int, w: int)
    requires
        s.wf(),
        0 <= k < s.slots().len(),
        state.len() == s.slots().len(),
        admits(setter_receiver(s.slots(), k), shapes_of(s.slots(), state)),
    ensures
        admits(
            setter_target(s.slots(), k),
            shapes_of(s.slots(), apply_setter(setter_target(s.slots(), k), state, v)),
        ),
        !admits(
            setter_receiver(s.slots(), k),
            shapes_of(s.slots(), apply_setter(setter_target(s.slots(), k), state, v)),
        ),
{
    let next = apply_setter(setter_target(s.slots(), k), state, v);
    let tg = setter_target(s.slots(), k);
    let sh = shapes_of(s.slots(), next);
    assert(setter_receiver(s.slots(), k)[k] == SlotShape::Unset);
    assert(sh[k] == SlotShape::Holds(s.slots()[k] as usize));
    assert forall|j: int| 0 <= j < tg.len() implies (#[trigger] tg[j] is Param || tg[j] == sh[j]) by {}
}

/// A chain of setter calls that names a slot twice is rejected.
pub proof fn lemma_repeated_call_rejected(s: StructInfo, calls: Seq<(int, int)>, a: int, b: int)
    requires
        s.wf(),
        0 <= a < b < calls.len(),
        calls[a].0 == calls[b].0,
    ensures
        !chain_accepted(s, calls),
    decreases b,
{
    if chain_accepted(s, calls) {
        let pre = calls.take(b);
        assert forall|t: int| 0 <= t < pre.len() implies 0 <= (#[trigger] pre[t]).0 < s.slots().len() by {
            assert(calls[t] == pre[t]);
        }
        if distinct_slots(s, pre) {
            lemma_run_contents(s, pre, b as nat);
            assert(pre[a] == calls[a]);
            lemma_run_prefix(s, calls, b as nat);
            assert(run_upto(s, calls, b as nat)[calls[b].0] == Some(calls[a].1));
            assert(setter_receiver(s.slots(), calls[b].0)[calls[b].0] == SlotShape::Unset);
            assert(shapes_of(s.slots(), run_upto(s, calls, b as nat))[calls[b].0] != SlotShape::Unset);
        } else {
            let (x, y) = choose|x: int, y: int| 0 <= x < y < pre.len() && (#[trigger] pre[x]).0 == (#[trigger] pre[y]).0;
            assert(pre[x] == calls[x] && pre[y] == calls[y]);
            lemma_repeated_call_rejected(s, calls, x, y);
        }
    }
}

/// The builder after a prefix of a chain does not look at the later calls.
proof fn lemma_run_prefix(s: StructInfo, calls: Seq<(int, int)>, n: nat)
    requires
        n <= calls.len(),
    ensures
        run_upto(s, calls.take(n as int), n) == run_upto(s, calls, n),
    decreases n,
{
    if n > 0 {
        lemma_run_prefix_len(s, calls, (n - 1) as nat, n);
    }
}

proof fn lemma_run_prefix_len(s: StructInfo, calls: Seq<(int, int)>, m: nat, n: nat)
    requires
        m <= n <= calls.len(),
    ensures
        run_upto(s, calls.take(n as int), m) == run_upto(s, calls, m),
    decreases m,
{
    if m > 0 {
        lemma_run_prefix_len(s, calls, (m - 1) as nat, n);
        assert(calls.take(n as int)[m - 1] == calls[m - 1]);
    }
}

/// An accepted chain names each slot at most once.
proof fn lemma_accepted_distinct(s: StructInfo, calls: Seq<(int, int)>)
    requires
        s.wf(),
        chain_accepted(s, calls),
    ensures
        distinct_slots(s, calls),
{
    assert forall|a: int, b: int| 0 <= a < b < calls.len() implies (#[trigger] calls[a]).0 != (#[trigger] calls[b]).0 by {
        if calls[a].0 == calls[b].0 {
            lemma_repeated_call_rejected(s, calls, a, b);
        }
    }
}

/// Any chain of setter calls on distinct slots that sets every required
/// field is accepted call by call, the finalizer accepts the resulting
/// builder, and the record holds the value passed for each set field and
/// the default of every other field (evaluated after the fields before it).
pub proof fn lemma_complete_chain_builds(s: StructInfo, calls: Seq<(int, int)>, eval: spec_fn(int, Seq<int>) -> int)
    requires
        s.wf(),
        distinct_slots(s, calls),
        forall|k: int|
            0 <= k < s.slots().len() && !has_default(s.fields@[#[trigger] s.slots()[k]]) ==> exists|t: int|
                0 <= t < calls.len() && (#[trigger] calls[t]).0 == k,
    ensures
        chain_accepted(s, calls),
        admits(build_receiver(s.fields@), shapes_of(s.slots(), run(s, calls))),
        forall|t: int|
            0 <= t < calls.len() ==> finalize(assignments_of(s.fields@), run(s, calls), eval)[s.slots()[(
            #[trigger] calls[t]).0]] == calls[t].1,
        forall|i: int|
            0 <= i < s.fields@.len() && (forall|t: int| 0 <= t < calls.len() ==> s.slots()[(#[trigger] calls[t]).0] != i)
                ==> #[trigger] finalize(assignments_of(s.fields@), run(s, calls), eval)[i] == eval(
                i,
                finalize(assignments_of(s.fields@), run(s, calls), eval).take(i),
            ),
{
    let fs = s.fields@;
    let sl = s.slots();
    let st = run(s, calls);
    lemma_run_contents(s, calls, calls.len());
    let pat = build_receiver(fs);
    let sh = shapes_of(sl, st);
    assert forall|k: int| 0 <= k < pat.len() implies (#[trigger] pat[k] is Param || pat[k] == sh[k]) by {
        if !has_default(fs[sl[k]]) {
            let t = choose|t: int| 0 <= t < calls.len() && (#[trigger] calls[t]).0 == k;
            assert(st[k] == Some(calls[t].1));
        }
    }
    assert(admits(pat, sh));
    lemma_finalize_resolves(s, st, eval);
    let r = finalize(assignments_of(fs), st, eval);
    assert forall|t: int| 0 <= t < calls.len() implies r[sl[(#[trigger] calls[t]).0]] == calls[t].1 by {
        lemma_pos_of_slot(fs, calls[t].0);
        assert(expected_value(fs, st, eval, sl[calls[t].0], r.take(sl[calls[t].0])) == calls[t].1);
    }
    assert forall|i: int|
        0 <= i < fs.len() && (forall|t: int| 0 <= t < calls.len() ==> sl[(#[trigger] calls[t]).0] != i)
            implies #[trigger] r[i] == eval(i, r.take(i)) by {
        if !fs[i].builder_attr.exclude {
            lemma_slot_pos(fs, i);
            let k = slot_pos(fs, i);
            assert forall|t: int| 0 <= t < calls.len() implies (#[trigger] calls[t]).0 != k by {
                assert(sl[calls[t].0] != i);
            }
            assert(st[k] is None);
        }
        assert(r[i] == expected_value(fs, st, eval, i, r.take(i)));
    }
}

/// Finalizing without having set a required field does not type-check:
/// after any accepted chain that never names that field's slot, the
/// finalizer's declared receiver rejects the builder.
pub proof fn lemma_missing_required_rejected(s: StructInfo, calls: Seq<(int, int)>, k: int)
    requires
        s.wf(),
        chain_accepted(s, calls),
        0 <= k < s.slots().len(),
        !has_default(s.fields@[s.slots()[k]]),
        forall|t: int| 0 <= t < calls.len() ==> (#[trigger] calls[t]).0 != k,
    ensures
        !admits(build_receiver(s.fields@), shapes_of(s.slots(), run(s, calls))),
{
    lemma_accepted_distinct(s, calls);
    lemma_run_contents(s, calls, calls.len());
    assert(run(s, calls)[k] is None);
    assert(build_receiver(s.fields@)[k] == SlotShape::Holds(s.slots()[k] as usize));
    assert(shapes_of(s.slots(), run(s, calls))[k] == SlotShape::Unset);
}

/// The order of setter calls does not matter: two chains made of the same
/// calls, none naming a slot twice, leave the same builder and so produce
/// the same record.
pub proof fn lemma_setter_order_irrelevant(
    s: StructInfo,
    c1: Seq<(int, int)>,
    c2: Seq<(int, int)>,
    eval: spec_fn(int, Seq<int>) -> int,
)
    requires
        s.wf(),
        distinct_slots(s, c1),
        distinct_slots(s, c2),
        forall|x: (int, int)| c1.contains(x) <==> c2.contains(x),
    ensures
        run(s, c1) == run(s, c2),
        finalize(assignments_of(s.fields@), run(s, c1), eval) == finalize(
            assignments_of(s.fields@),
            run(s, c2),
            eval,
        ),
{
    lemma_run_contents(s, c1, c1.len());
    lemma_run_contents(s, c2, c2.len());
    let r1 = run(s, c1);
    let r2 = run(s, c2);
    assert forall|j: int| 0 <= j < r1.len() implies r1[j] == r2[j] by {
        if exists|t: int| 0 <= t < c1.len() && (#[trigger] c1[t]).0 == j {
            let t = choose|t: int| 0 <= t < c1.len() && (#[trigger] c1[t]).0 == j;
            assert(c1.contains(c1[t]));
            let u = choose|u: int| 0 <= u < c2.len() && c2[u] == c1[t];
            assert(r2[c2[u].0] == Some(c2[u].1));
        } else {
            assert forall|u: int| 0 <= u < c2.len() implies (#[trigger] c2[u]).0 != j by {
                assert(c2.contains(c2[u]));
                let t = choose|t: int| 0 <= t < c1.len() && c1[t] == c2[u];
                assert(c1[t].0 != j);
            }
        }
    }
    assert(r1 =~= r2);
}

/// An excluded field has no slot, so no setter, and the record always holds
/// its default, whatever the builder holds.
pub proof fn lemma_excluded_field_takes_default(
    s: StructInfo,
    state: Seq<Option<int>>,
    eval: spec_fn(int, Seq<int>) -> int,
    i: int,
)
    requires
        s.wf(),
        0 <= i < s.fields@.len(),
        s.fields@[i].builder_attr.exclude,
        state.len() == s.slots().len(),
        admits(build_receiver(s.fields@), shapes_of(s.slots(), state)),
    ensures
        forall|k: int| 0 <= k < s.slots().len() ==> #[trigger] s.slots()[k] != i,
        finalize(assignments_of(s.fields@), state, eval)[i] == eval(
            i,
            finalize(assignments_of(s.fields@), state, eval).take(i),
        ),
{
    crate::shape::lemma_slots_sorted(s.fields@, s.fields@.len());
    lemma_finalize_resolves(s, state, eval);
}

/// Two schemas that agree field by field (names, types, defaults,
/// exclusion, docs), and in the record's name and builder-name override.
pub open spec fn same_schema(a: StructInfo, b: StructInfo) -> bool {
    &&& a.name@ == b.name@
    &&& opt_text(a.builder_attr.name) == opt_text(b.builder_attr.name)
    &&& a.fields@.len() == b.fields@.len()
    &&& forall|i: int|
        0 <= i < a.fields@.len() ==> {
            let f = #[trigger] a.fields@[i];
            let g = b.fields@[i];
            &&& f.name@ == g.name@
            &&& f.ty@ == g.ty@
            &&& opt_text(f.builder_attr.default) == opt_text(g.builder_attr.default)
            &&& f.builder_attr.exclude == g.builder_attr.exclude
            &&& opt_text(f.builder_attr.doc) == opt_text(g.builder_attr.doc)
        }
}

proof fn lemma_same_slots(a: Seq<FieldInfo>, b: Seq<FieldInfo>, n: nat)
    requires
        n <= a.len() == b.len(),
        forall|i: int| 0 <= i < a.len() ==> (#[trigger] a[i]).builder_attr.exclude == b[i].builder_attr.exclude,
    ensures
        slots_upto(a, n) == slots_upto(b, n),
    decreases n,
{
    if n > 0 {
        lemma_same_slots(a, b, (n - 1) as nat);
    }
}

/// Generation is reproducible: the same schema yields the same minted
/// identifiers, the same slots, and the same setter, finalizer and
/// constructor shapes.
pub proof fn lemma_generation_deterministic(a: StructInfo, b: StructInfo)
    requires
        a.wf(),
        b.wf(),
        same_schema(a, b),
    ensures
        a.builder_name@ == b.builder_name@,
        a.conversion_helper_trait_name@ == b.conversion_helper_trait_name@,
        a.conversion_helper_method_name@ == b.conversion_helper_method_name@,
        a.core@ == b.core@,
        forall|i: int| 0 <= i < a.fields@.len() ==> (#[trigger] a.fields@[i]).generic_ident@ == b.fields@[i].generic_ident@,
        a.slots() == b.slots(),
        forall|k: int| 0 <= k < a.slots().len() ==> #[trigger] setter_receiver(a.slots(), k) == setter_receiver(b.slots(), k)
            && setter_target(a.slots(), k) == setter_target(b.slots(), k),
        build_receiver(a.fields@) == build_receiver(b.fields@),
        assignments_of(a.fields@) == assignments_of(b.fields@),
{
    let fa = a.fields@;
    let fb = b.fields@;
    assert forall|i: int| 0 <= i < fa.len() implies (#[trigger] fa[i]).builder_attr.exclude == fb[i].builder_attr.exclude
        && has_default(fa[i]) == has_default(fb[i]) by {}
    assert forall|i: int| 0 <= i < fa.len() implies (#[trigger] fa[i]).generic_ident@ == fb[i].generic_ident@ by {
        assert(fa[i].generic_ident@ == field_generic_ident(fa[i].name@));
        assert(fb[i].generic_ident@ == field_generic_ident(fb[i].name@));
    }
    lemma_same_slots(fa, fb, fa.len());
    assert forall|i: int| 0 <= i <= fa.len() implies slots_upto(fa, i as nat) == #[trigger] slots_upto(fb, i as nat) by {
        lemma_same_slots(fa, fb, i as nat);
    }
    crate::shape::lemma_slots_sorted(fa, fa.len());
    let sl = slots_of(fa);
    assert forall|j: int| 0 <= j < sl.len() implies #[trigger] build_receiver(fa)[j] == build_receiver(fb)[j] by {
        assert(has_default(fa[sl[j]]) == has_default(fb[sl[j]]));
    }
    assert(build_receiver(fa) =~= build_receiver(fb));
    assert forall|i: int| 0 <= i < fa.len() implies #[trigger] assignments_of(fa)[i] == assignments_of(fb)[i] by {
        assert(slots_upto(fa, i as nat) == slots_upto(fb, i as nat));
    }
    assert(assignments_of(fa) =~= assignments_of(fb));
}

} // verus!
