// Interprets the generated plans on concrete builders: a builder is one
// `Option<i64>` per slot, a default expression a function of the values
// bound before it.
use typed_builder::schema::{FieldBuilderAttr, FieldDecl, StructInfo, TypeBuilderAttr};
use typed_builder::shape::{Assignment, SlotShape};

fn field(name: &str, default: Option<&str>, exclude: bool) -> FieldDecl {
    FieldDecl {
        name: name.to_string(),
        ty: "i64".to_string(),
        builder_attr: FieldBuilderAttr { default: default.map(|d| d.to_string()), exclude, doc: None },
    }
}

fn info(fields: Vec<FieldDecl>) -> StructInfo {
    let attrs = TypeBuilderAttr {
        doc: false,
        name: None,
        builder_method_doc: None,
        builder_type_doc: None,
        build_method_doc: None,
    };
    StructInfo::new("pub".to_string(), "Rec".to_string(), Vec::new(), &fields, attrs).unwrap()
}

fn shapes(s: &StructInfo, state: &[Option<i64>]) -> Vec<SlotShape> {
    let slots = s.included_fields();
    state
        .iter()
        .enumerate()
        .map(|(j, v)| if v.is_some() { SlotShape::Holds(slots[j]) } else { SlotShape::Unset })
        .collect()
}

fn admits(pattern: &[SlotShape], shapes: &[SlotShape]) -> bool {
    pattern.len() == shapes.len()
        && pattern.iter().zip(shapes).all(|(p, s)| matches!(p, SlotShape::Param(_)) || p == s)
}

/// Calls the setters of the given fields in order; `None` if one does not type-check.
fn run(s: &StructInfo, calls: &[(usize, i64)]) -> Option<Vec<Option<i64>>> {
    let mut state = vec![None; s.included_fields().len()];
    for &(field, v) in calls {
        let setter = s.field_impl(field);
        if !admits(&setter.receiver, &shapes(s, &state)) {
            return None;
        }
        let next: Vec<Option<i64>> = setter
            .target
            .iter()
            .enumerate()
            .map(|(j, t)| match t {
                SlotShape::Param(_) => state[j],
                SlotShape::Holds(_) => Some(v),
                SlotShape::Unset => None,
            })
            .collect();
        state = next;
    }
    Some(state)
}

/// Finalizes; `None` if the finalizer does not type-check.
fn finalize(s: &StructInfo, state: &[Option<i64>], eval: &dyn Fn(usize, &[i64]) -> i64) -> Option<Vec<i64>> {
    let b = s.build_method_impl();
    if !admits(&b.receiver, &shapes(s, state)) {
        return None;
    }
    let mut out = Vec::new();
    for a in &b.assignments {
        let v = match *a {
            Assignment::Default(f) => eval(f, &out),
            Assignment::Resolve(f, k) => state[k].unwrap_or_else(|| eval(f, &out)),
            Assignment::Unwrap(_, k) => state[k].unwrap(),
        };
        out.push(v);
    }
    Some(out)
}

// a defaults to 1, b defaults to a + 1.
fn chained_defaults(f: usize, earlier: &[i64]) -> i64 {
    match f {
        0 => 1,
        _ => earlier[0] + 1,
    }
}

#[test]
fn default_sees_earlier_result_when_nothing_set() {
    let s = info(vec![field("a", Some("1"), false), field("b", Some("a + 1"), false)]);
    let st = run(&s, &[]).unwrap();
    assert_eq!(finalize(&s, &st, &chained_defaults), Some(vec![1, 2]));
}

#[test]
fn default_sees_earlier_result_when_a_set() {
    let s = info(vec![field("a", Some("1"), false), field("b", Some("a + 1"), false)]);
    let st = run(&s, &[(0, 5)]).unwrap();
    assert_eq!(finalize(&s, &st, &chained_defaults), Some(vec![5, 6]));
}

fn three() -> StructInfo {
    info(vec![field("x", None, false), field("y", Some("7"), false), field("z", Some("compute()"), true)])
}

fn three_defaults(f: usize, _: &[i64]) -> i64 {
    match f {
        1 => 7,
        _ => 42,
    }
}

#[test]
fn complete_chain_builds_with_given_values() {
    let s = three();
    let st = run(&s, &[(1, 3), (0, 9)]).unwrap();
    assert_eq!(finalize(&s, &st, &three_defaults), Some(vec![9, 3, 42]));
    let st = run(&s, &[(0, 9)]).unwrap();
    assert_eq!(finalize(&s, &st, &three_defaults), Some(vec![9, 7, 42]));
}

#[test]
fn missing_required_field_is_rejected() {
    let s = three();
    let st = run(&s, &[(1, 3)]).unwrap();
    assert_eq!(finalize(&s, &st, &three_defaults), None);
}

#[test]
fn repeated_setter_is_rejected() {
    let s = three();
    assert!(run(&s, &[(0, 1), (0, 2)]).is_none());
    assert!(run(&s, &[(0, 1), (1, 2), (1, 3)]).is_none());
}

#[test]
fn setter_order_does_not_matter() {
    let s = info(vec![field("p", None, false), field("q", None, false), field("r", Some("0"), false)]);
    let a = run(&s, &[(0, 1), (1, 2), (2, 3)]).unwrap();
    let b = run(&s, &[(2, 3), (0, 1), (1, 2)]).unwrap();
    assert_eq!(a, b);
    let eval = |_: usize, _: &[i64]| 0;
    assert_eq!(finalize(&s, &a, &eval), finalize(&s, &b, &eval));
    assert_eq!(finalize(&s, &a, &eval), Some(vec![1, 2, 3]));
}

#[test]
fn excluded_field_always_takes_default() {
    let s = three();
    for calls in [vec![(0, 1)], vec![(0, 1), (1, 2)], vec![(1, 5), (0, 8)]] {
        let st = run(&s, &calls).unwrap();
        assert_eq!(finalize(&s, &st, &three_defaults).unwrap()[2], 42);
    }
}
