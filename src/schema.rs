//! The normalized record schema handed to the generators.

use vstd::prelude::*;
use vstd::string::StringExecFns;

verus! {

/// The kind of one of the record's own generic parameters.
#[derive(Clone, Copy, Debug, PartialEq, Eq)]
pub enum GenericKind {
    Lifetime,
    Type,
    Const,
}

/// One of the record's own generic parameters, by kind and name
/// (a lifetime's name carries its leading apostrophe).
#[derive(Clone, Debug)]
pub struct GenericParam {
    pub kind: GenericKind,
    pub name: String,
}

/// Per-field modifiers.
#[derive(Clone, Debug)]
pub struct FieldBuilderAttr {
    /// Source text of the default expression, if the field has one.
    pub default: Option<String>,
    /// The field gets no slot and no setter; it always takes its default.
    pub exclude: bool,
    /// Doc text for the field's setter.
    pub doc: Option<String>,
}

/// Record-level modifiers.
#[derive(Clone, Debug)]
pub struct TypeBuilderAttr {
    /// Whether the builder type and the finalizer get documentation.
    pub doc: bool,
    /// A name for the builder type in place of the derived one.
    pub name: Option<String>,
    pub builder_method_doc: Option<String>,
    pub builder_type_doc: Option<String>,
    pub build_method_doc: Option<String>,
}

/// A field as the schema extractor hands it over.
#[derive(Clone, Debug)]
pub struct FieldDecl {
    pub name: String,
    /// Source text of the declared type.
    pub ty: String,
    pub builder_attr: FieldBuilderAttr,
}

/// A field with its position and its minted generic identifier.
#[derive(Clone, Debug)]
pub struct FieldInfo {
    /// Position in declaration order.
    pub ordinal: usize,
    pub name: String,
    pub ty: String,
    /// The generic parameter that stands for this field's slot in the builder.
    pub generic_ident: String,
    pub builder_attr: FieldBuilderAttr,
}

/// Why a schema cannot be turned into a builder.
#[derive(Clone, Copy, Debug, PartialEq, Eq)]
pub enum SchemaError {
    /// The field at this position is excluded but has no default expression.
    ExcludedWithoutDefault(usize),
}

/// The schema of one record together with the identifiers minted for it.
#[derive(Clone, Debug)]
pub struct StructInfo {
    pub vis: String,
    pub name: String,
    pub generics: Vec<GenericParam>,
    pub fields: Vec<FieldInfo>,
    pub builder_attr: TypeBuilderAttr,
    pub builder_name: String,
    pub conversion_helper_trait_name: String,
    pub conversion_helper_method_name: String,
    pub core: String,
}

pub open spec fn opt_text(o: Option<String>) -> Option<Seq<char>> {
    match o {
        Some(s) => Some(s@),
        None => None,
    }
}

pub open spec fn has_default(f: FieldInfo) -> bool {
    f.builder_attr.default is Some
}

pub open spec fn is_excluded(f: FieldInfo) -> bool {
    f.builder_attr.exclude
}

/// The identifier minted for a record: a fixed prefix, a kind, the record name.
pub open spec fn minted(kind: Seq<char>, name: Seq<char>) -> Seq<char> {
    "TypedBuilder_"@ + kind + "_"@ + name
}

pub open spec fn field_generic_ident(name: Seq<char>) -> Seq<char> {
    "__"@ + name
}

pub open spec fn derived_builder_name(name: Seq<char>, over: Option<Seq<char>>) -> Seq<char> {
    match over {
        Some(n) => n,
        None => name + "Builder"@,
    }
}

/// The field positions that have a builder slot, in declaration order,
/// among the first `n` fields.
pub open spec fn slots_upto(fields: Seq<FieldInfo>, n: nat) -> Seq<int>
    decreases n,
{
    if n == 0 {
        Seq::empty()
    } else {
        let prev = slots_upto(fields, (n - 1) as nat);
        if fields[n - 1].builder_attr.exclude {
            prev
        } else {
            prev.push(n - 1)
        }
    }
}

pub open spec fn slots_of(fields: Seq<FieldInfo>) -> Seq<int> {
    slots_upto(fields, fields.len())
}

/// The first excluded field without a default among the first `n`.
pub open spec fn first_bad_upto(decls: Seq<FieldDecl>, n: nat) -> Option<int>
    decreases n,
{
    if n == 0 {
        None
    } else {
        match first_bad_upto(decls, (n - 1) as nat) {
            Some(i) => Some(i),
            None => if decls[n - 1].builder_attr.exclude && decls[n - 1].builder_attr.default is None {
                Some(n - 1)
            } else {
                None
            },
        }
    }
}

/// What `StructInfo::new` makes of field `i` of the declarations.
pub open spec fn field_from_decl(d: FieldDecl, f: FieldInfo, i: int) -> bool {
    &&& f.ordinal == i
    &&& f.name@ == d.name@
    &&& f.ty@ == d.ty@
    &&& f.generic_ident@ == field_generic_ident(d.name@)
    &&& opt_text(f.builder_attr.default) == opt_text(d.builder_attr.default)
    &&& f.builder_attr.exclude == d.builder_attr.exclude
    &&& opt_text(f.builder_attr.doc) == opt_text(d.builder_attr.doc)
}

impl StructInfo {
    /// The positions of the fields that have a slot, in declaration order.
    pub open spec fn slots(self) -> Seq<int> {
        slots_of(self.fields@)
    }

    /// Every field knows its position, carries its minted generic
    /// identifier, and every excluded field has a default.
    pub open spec fn wf(self) -> bool {
        &&& self.fields@.len() <= usize::MAX
        &&& forall|i: int|
            0 <= i < self.fields@.len() ==> (#[trigger] self.fields@[i]).ordinal == i
        &&& forall|i: int|
            0 <= i < self.fields@.len() ==> (#[trigger] self.fields@[i]).generic_ident@
                == field_generic_ident(self.fields@[i].name@)
        &&& forall|i: int|
            0 <= i < self.fields@.len() && (#[trigger] self.fields@[i]).builder_attr.exclude
                ==> self.fields@[i].builder_attr.default is Some
        &&& self.builder_name@ == derived_builder_name(self.name@, opt_text(self.builder_attr.name))
        &&& self.conversion_helper_trait_name@ == minted("conversionHelperTrait"@, self.name@)
        &&& self.conversion_helper_method_name@ == minted("conversionHelperMethod"@, self.name@)
        &&& self.core@ == minted("core"@, self.name@)
    }
}

pub fn clone_text(o: &Option<String>) -> (r: Option<String>)
    ensures
        opt_text(r) == opt_text(*o),
{
    match o {
        Some(s) => Some(s.clone()),
        None => None,
    }
}

impl StructInfo {
    /// The positions of the fields that have a builder slot, in declaration order.
    pub fn included_fields(&self) -> (r: Vec<usize>)
        ensures
            r@.map_values(|i: usize| i as int) == self.slots(),
    {
        let mut r: Vec<usize> = Vec::new();
        let mut i: usize = 0;
        while i < self.fields.len()
            invariant
                i <= self.fields@.len(),
                r@.map_values(|i: usize| i as int) == slots_upto(self.fields@, i as nat),
            decreases self.fields@.len() - i,
        {
            if !self.fields[i].builder_attr.exclude {
                r.push(i);
            }
            proof {
                assert(r@.map_values(|i: usize| i as int) =~= slots_upto(self.fields@, (i + 1) as nat));
            }
            i = i + 1;
        }
        r
    }

    /// Normalizes a schema: numbers the fields, mints their generic
    /// identifiers and the record's auxiliary identifiers. Fails on the first
    /// excluded field that has no default expression.
    pub fn new(
        vis: String,
        name: String,
        generics: Vec<GenericParam>,
        decls: &Vec<FieldDecl>,
        builder_attr: TypeBuilderAttr,
    ) -> (r: Result<StructInfo, SchemaError>)
        ensures
            match first_bad_upto(decls@, decls@.len()) {
                Some(i) => r == Err::<StructInfo, SchemaError>(SchemaError::ExcludedWithoutDefault(i as usize)),
                None => r is Ok,
            },
            r is Ok ==> {
                let s = r->Ok_0;
                &&& s.wf()
                &&& s.vis@ == vis@
                &&& s.name@ == name@
                &&& s.generics@ == generics@
                &&& s.fields@.len() == decls@.len()
                &&& forall|i: int|
                    0 <= i < decls@.len() ==> field_from_decl(#[trigger] decls@[i], s.fields@[i], i)
                &&& s.builder_attr == builder_attr
            },
    {
        let mut fields: Vec<FieldInfo> = Vec::new();
        let mut i: usize = 0;
        while i < decls.len()
            invariant
                i <= decls@.len(),
                fields@.len() == i,
                first_bad_upto(decls@, i as nat) is None,
                forall|j: int| 0 <= j < i ==> field_from_decl(#[trigger] decls@[j], fields@[j], j),
                forall|j: int|
                    0 <= j < i && (#[trigger] fields@[j]).builder_attr.exclude
                        ==> fields@[j].builder_attr.default is Some,
            decreases decls@.len() - i,
        {
            let d = &decls[i];
            if d.builder_attr.exclude && d.builder_attr.default.is_none() {
                proof {
                    lemma_first_bad_stays(decls@, (i + 1) as nat, decls@.len());
                }
                return Err(SchemaError::ExcludedWithoutDefault(i));
            }
            let mut generic_ident = String::from_str("__");
            generic_ident.append(d.name.as_str());
            let f = FieldInfo {
                ordinal: i,
                name: d.name.clone(),
                ty: d.ty.clone(),
                generic_ident,
                builder_attr: FieldBuilderAttr {
                    default: clone_text(&d.builder_attr.default),
                    exclude: d.builder_attr.exclude,
                    doc: clone_text(&d.builder_attr.doc),
                },
            };
            fields.push(f);
            i = i + 1;
        }
        let builder_name = match &builder_attr.name {
            Some(n) => n.clone(),
            None => {
                let mut b = name.clone();
                b.append("Builder");
                b
            },
        };
        let conversion_helper_trait_name = make_identifier("conversionHelperTrait", &name);
        let conversion_helper_method_name = make_identifier("conversionHelperMethod", &name);
        let core = make_identifier("core", &name);
        let s = StructInfo {
            vis,
            name,
            generics,
            fields,
            builder_attr,
            builder_name,
            conversion_helper_trait_name,
            conversion_helper_method_name,
            core,
        };
        proof {
            assert forall|i: int| 0 <= i < s.fields@.len() implies (#[trigger] s.fields@[i]).generic_ident@
                == field_generic_ident(s.fields@[i].name@) && s.fields@[i].ordinal == i by {
                assert(field_from_decl(decls@[i], s.fields@[i], i));
            }
            assert(s.builder_name@ == derived_builder_name(s.name@, opt_text(s.builder_attr.name)));
            assert(s.wf());
        }
        Ok(s)
    }
}

/// Once an excluded field without a default is found, it stays the first one.
proof fn lemma_first_bad_stays(decls: Seq<FieldDecl>, m: nat, n: nat)
    requires
        1 <= m <= n <= decls.len(),
        first_bad_upto(decls, m) is Some,
    ensures
        first_bad_upto(decls, n) == first_bad_upto(decls, m),
    decreases n - m,
{
    if n > m {
        lemma_first_bad_stays(decls, m, (n - 1) as nat);
    }
}

pub open spec fn same_generics(a: Seq<GenericParam>, b: Seq<GenericParam>) -> bool {
    &&& a.len() == b.len()
    &&& forall|i: int| 0 <= i < a.len() ==> (#[trigger] a[i]).kind == b[i].kind && a[i].name@ == b[i].name@
}

pub fn clone_generics(g: &Vec<GenericParam>) -> (r: Vec<GenericParam>)
    ensures
        same_generics(r@, g@),
{
    let mut r: Vec<GenericParam> = Vec::new();
    let mut i: usize = 0;
    while i < g.len()
        invariant
            i <= g@.len(),
            same_generics(r@, g@.take(i as int)),
        decreases g@.len() - i,
    {
        r.push(GenericParam { kind: g[i].kind, name: g[i].name.clone() });
        i = i + 1;
    }
    r
}

/// `TypedBuilder_<kind>_<name>`. Distinct records get distinct identifiers;
/// a user item that happens to carry the same name is not detected.
pub fn make_identifier(kind: &str, name: &String) -> (r: String)
    ensures
        r@ == minted(kind@, name@),
{
    let mut r = String::from_str("TypedBuilder_");
    r.append(kind);
    r.append("_");
    r.append(name.as_str());
    r
}

} // verus!
