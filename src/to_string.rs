//! The string conversion of a sum type: one arm per enabled variant.
use vstd::prelude::*;
use crate::casing::CaseStyle;
use crate::predicates::{attrs_disable, is_disabled, Value};
use crate::template::{
    capture_format_string_idents, chars_eq, parse, parse_template, placeholders, render,
    render_pieces, toks_of, Piece, Tok,
};
use crate::variant::{
    get_preferred_name, get_variant_properties, has_default, lemma_preferred, preferred,
    overrides, Shape, TypeDescriptor, VariantAttr, VariantDescriptor,
};
use crate::text::{chars_of, views};
use crate::GenError;

verus! {

/// How the generated conversion renders one enabled variant.
#[derive(Clone, Debug)]
pub enum Arm {
    /// The string held in the variant's single field, as it stands.
    DefaultField,
    /// A display template, with the variant's field names and the indices
    /// of the fields that its placeholders refer to.
    Template { pieces: Vec<Piece>, fields: Vec<String>, bound: Vec<usize> },
}

/// The generated conversion: an arm per variant, `None` for a disabled
/// one, and whether a final arm aborts on disabled variants.
#[derive(Clone, Debug)]
pub struct ToStringPlan {
    pub arms: Vec<Option<Arm>>,
    pub catch_all: bool,
}

/// The model of an [`Arm`].
pub ghost enum ArmModel {
    DefaultField,
    Template(Seq<Tok>, Seq<Seq<char>>, Seq<int>),
}

impl View for Arm {
    type V = ArmModel;

    open spec fn view(&self) -> ArmModel {
        match self {
            Arm::DefaultField => ArmModel::DefaultField,
            Arm::Template { pieces, fields, bound } => ArmModel::Template(
                toks_of(pieces@),
                views(fields@),
                bound@.map_values(|b: usize| b as int),
            ),
        }
    }
}

/// The names of a variant's fields; none for unit and positional fields.
pub open spec fn field_names(s: Shape) -> Seq<Seq<char>> {
    match s {
        Shape::Named(ns) => views(ns@),
        _ => seq![],
    }
}

/// The indices of the fields among `ns` whose names are in `ps`, in order.
pub open spec fn bound_fields(ns: Seq<Seq<char>>, ps: Seq<Seq<char>>) -> Seq<int>
    decreases ns.len(),
{
    if ns.len() == 0 {
        seq![]
    } else if ps.contains(ns.last()) {
        bound_fields(ns.drop_last(), ps).push(ns.len() - 1)
    } else {
        bound_fields(ns.drop_last(), ps)
    }
}

/// The arm of the enabled variant `v`, at index `i` of a type whose case
/// convention is `style`, or why it cannot be generated.
pub open spec fn arm_of(v: VariantDescriptor, i: int, style: CaseStyle) -> Result<ArmModel, GenError> {
    if has_default(v.attrs@) && v.shape != Shape::Unnamed(1) {
        Err(GenError::MalformedDefault(i as usize))
    } else if has_default(v.attrs@) && overrides(v.attrs@).len() == 0 {
        Ok(ArmModel::DefaultField)
    } else {
        let t = preferred(v.attrs@, v.name@, style);
        let ns = field_names(v.shape);
        match placeholders(t) {
            Err(e) => Err(GenError::Template(i as usize, e)),
            Ok(ps) => if exists|k: int| 0 <= k < ps.len() && !ns.contains(#[trigger] ps[k]) {
                Err(GenError::UnboundPlaceholder(i as usize))
            } else {
                match parse(t) {
                    Ok(ts) => Ok(ArmModel::Template(ts, ns, bound_fields(ns, ps))),
                    Err(e) => Err(GenError::Template(i as usize, e)),
                }
            },
        }
    }
}

/// The arms that the variants `vs` produce are all generated and agree
/// with `arms`.
pub open spec fn arms_agree(vs: Seq<VariantDescriptor>, style: CaseStyle, arms: Seq<Option<Arm>>) -> bool {
    &&& arms.len() == vs.len()
    &&& forall|i: int| 0 <= i < vs.len() ==> match #[trigger] arms[i] {
        None => is_disabled(vs[i]),
        Some(a) => !is_disabled(vs[i]) && arm_of(vs[i], i, style) == Ok::<ArmModel, GenError>(a@),
    }
}

pub open spec fn any_disabled(vs: Seq<VariantDescriptor>) -> bool {
    exists|i: int| 0 <= i < vs.len() && is_disabled(#[trigger] vs[i])
}

/// `e` is what the first enabled variant of `vs` that fails fails with.
pub open spec fn first_failure(vs: Seq<VariantDescriptor>, style: CaseStyle, e: GenError) -> bool {
    exists|i: int| 0 <= i < vs.len() && !is_disabled(vs[i]) && #[trigger] arm_of(vs[i], i, style) == Err::<ArmModel, GenError>(e)
        && forall|j: int| 0 <= j < i && !is_disabled(vs[j]) ==> (#[trigger] arm_of(vs[j], j, style)) is Ok
}

fn names_have(ns: &Vec<String>, f: &String) -> (r: bool)
    ensures
        r == views(ns@).contains(f@),
{
    let fc = chars_of(f.as_str());
    let mut i: usize = 0;
    while i < ns.len()
        invariant
            i <= ns@.len(),
            fc@ == f@,
            forall|j: int| 0 <= j < i ==> views(ns@)[j] != f@,
        decreases ns@.len() - i,
    {
        let c = chars_of(ns[i].as_str());
        if chars_eq(&c, &fc) {
            assert(views(ns@)[i as int] == f@);
            return true;
        }
        i = i + 1;
    }
    false
}

fn shape_names(s: &Shape) -> (r: Vec<String>)
    ensures
        views(r@) == field_names(*s),
{
    match s {
        Shape::Named(ns) => ns.clone(),
        _ => Vec::new(),
    }
}

proof fn lemma_overrides_grow(a: Seq<VariantAttr>, n: int)
    requires
        0 <= n <= a.len(),
    ensures
        overrides(a.subrange(0, n)).len() <= overrides(a).len(),
    decreases a.len() - n,
{
    if n < a.len() {
        let cur = a.subrange(0, n + 1);
        assert(cur.drop_last() =~= a.subrange(0, n));
        lemma_overrides_grow(a, n + 1);
    } else {
        assert(a.subrange(0, n) =~= a);
    }
}

/// Whether any of the attributes is an explicit display template.
fn has_override(attrs: &Vec<VariantAttr>) -> (r: bool)
    ensures
        r == (overrides(attrs@).len() > 0),
{
    let mut i: usize = 0;
    while i < attrs.len()
        invariant
            i <= attrs@.len(),
            overrides(attrs@.subrange(0, i as int)).len() == 0,
        decreases attrs@.len() - i,
    {
        let ghost cur = attrs@.subrange(0, i + 1);
        assert(cur.drop_last() =~= attrs@.subrange(0, i as int));
        if let VariantAttr::ToStringOverride(_) = &attrs[i] {
            proof { lemma_overrides_grow(attrs@, i as int + 1); }
            return true;
        }
        i = i + 1;
    }
    assert(attrs@.subrange(0, attrs@.len() as int) =~= attrs@);
    false
}

/// Builds the arm of one enabled variant.
fn build_arm(v: &VariantDescriptor, i: usize, style: CaseStyle) -> (r: Result<Arm, GenError>)
    ensures
        match r {
            Ok(a) => arm_of(*v, i as int, style) == Ok::<ArmModel, GenError>(a@),
            Err(e) => arm_of(*v, i as int, style) == Err::<ArmModel, GenError>(e),
        },
{
    let props = get_variant_properties(&v.attrs);
    if props.default {
        let one_field = match &v.shape {
            Shape::Unnamed(n) => *n == 1,
            _ => false,
        };
        if !one_field {
            return Err(GenError::MalformedDefault(i));
        }
        if !has_override(&v.attrs) {
            return Ok(Arm::DefaultField);
        }
    }
    let t = get_preferred_name(&props, v.name.as_str(), style);
    proof { lemma_preferred(props, v.attrs@, v.name@, style); }
    let ps = match capture_format_string_idents(t.as_str()) {
        Ok(ps) => ps,
        Err(e) => return Err(GenError::Template(i, e)),
    };
    let ns = shape_names(&v.shape);
    let mut k: usize = 0;
    while k < ps.len()
        invariant
            k <= ps@.len(),
            views(ns@) == field_names(v.shape),
            !(has_default(v.attrs@) && v.shape != Shape::Unnamed(1)),
            !(has_default(v.attrs@) && overrides(v.attrs@).len() == 0),
            t@ == preferred(v.attrs@, v.name@, style),
            placeholders(t@) == Ok::<Seq<Seq<char>>, crate::template::TemplateError>(views(ps@)),
            forall|m: int| 0 <= m < k ==> views(ns@).contains(#[trigger] views(ps@)[m]),
        decreases ps@.len() - k,
    {
        if !names_have(&ns, &ps[k]) {
            proof {
                let pv = views(ps@);
                assert(!field_names(v.shape).contains(pv[k as int]));
                assert(exists|m: int| 0 <= m < pv.len() && !field_names(v.shape).contains(#[trigger] pv[m]));
            }
            return Err(GenError::UnboundPlaceholder(i));
        }
        k = k + 1;
    }
    let tc = chars_of(t.as_str());
    let pieces = match parse_template(&tc) {
        Ok(p) => p,
        Err(e) => return Err(GenError::Template(i, e)),
    };
    let ghost nv = views(ns@);
    let ghost pv = views(ps@);
    let mut bound: Vec<usize> = Vec::new();
    let mut j: usize = 0;
    while j < ns.len()
        invariant
            nv == views(ns@),
            pv == views(ps@),
            j <= ns@.len(),
            bound@.map_values(|b: usize| b as int) == bound_fields(nv.subrange(0, j as int), pv),
        decreases ns@.len() - j,
    {
        let ghost pre = nv.subrange(0, j as int);
        let ghost cur = nv.subrange(0, j + 1);
        assert(cur.drop_last() =~= pre);
        if names_have(&ps, &ns[j]) {
            let ghost b0 = bound@;
            bound.push(j);
            assert(bound@.map_values(|b: usize| b as int) =~= b0.map_values(|b: usize| b as int).push(j as int));
        }
        j = j + 1;
    }
    assert(nv.subrange(0, nv.len() as int) =~= nv);
    Ok(Arm::Template { pieces, fields: ns, bound })
}

/// The string conversion of a sum type: an arm per enabled variant in
/// declaration order, and a final aborting arm when any variant is
/// disabled. It fails with `NotASumType` for any other type, and else with
/// the failure of the first enabled variant whose arm cannot be generated.
pub fn to_string_inner(ast: &TypeDescriptor) -> (r: Result<ToStringPlan, GenError>)
    ensures
        !ast.is_enum ==> r == Err::<ToStringPlan, GenError>(GenError::NotASumType),
        ast.is_enum ==> match r {
            Ok(p) => arms_agree(ast.variants@, ast.case_style, p.arms@)
                && p.catch_all == any_disabled(ast.variants@),
            Err(e) => first_failure(ast.variants@, ast.case_style, e),
        },
{
    if !ast.is_enum {
        return Err(GenError::NotASumType);
    }
    let ghost vs = ast.variants@;
    let style = ast.case_style;
    let mut arms: Vec<Option<Arm>> = Vec::new();
    let mut catch_all = false;
    let mut i: usize = 0;
    while i < ast.variants.len()
        invariant
            ast.is_enum,
            vs == ast.variants@,
            style == ast.case_style,
            i <= vs.len(),
            arms@.len() == i,
            forall|j: int| 0 <= j < i ==> match #[trigger] arms@[j] {
                None => is_disabled(vs[j]),
                Some(a) => !is_disabled(vs[j]) && arm_of(vs[j], j, style) == Ok::<ArmModel, GenError>(a@),
            },
            catch_all == exists|j: int| 0 <= j < i && is_disabled(#[trigger] vs[j]),
        decreases vs.len() - i,
    {
        let v = &ast.variants[i];
        if attrs_disable(&v.attrs) {
            arms.push(None);
            catch_all = true;
        } else {
            match build_arm(v, i, style) {
                Ok(a) => {
                    arms.push(Some(a));
                },
                Err(e) => {
                    assert(arm_of(vs[i as int], i as int, style) == Err::<ArmModel, GenError>(e));
                    assert forall|j: int| 0 <= j < i && !is_disabled(vs[j]) implies (#[trigger] arm_of(vs[j], j, style)) is Ok by {
                        assert(arms@[j] is Some);
                    }
                    assert(first_failure(vs, style, e));
                    return Err(e);
                },
            }
        }
        i = i + 1;
    }
    Ok(ToStringPlan { arms, catch_all })
}

/// What the generated conversion returns for the value `v`: the string of
/// its single field for a default arm, its rendered template for a
/// template arm, and `None`, where the generated code aborts, for a
/// disabled variant. A placeholder with a format spec (`{age:>3}`) is
/// rendered here without it: the field's string is put in as it stands.
pub fn render_value(plan: &ToStringPlan, v: &Value) -> (r: Option<String>)
    requires
        v.variant < plan.arms@.len(),
    ensures
        match plan.arms@[v.variant as int] {
            None => r is None,
            Some(a) => r is Some && match a@ {
                ArmModel::DefaultField => r->Some_0@ == if v.fields@.len() > 0 {
                    v.fields@[0]@
                } else {
                    Seq::<char>::empty()
                },
                ArmModel::Template(ts, ns, _) => r->Some_0@ == render(ts, ns, views(v.fields@)),
            },
        },
{
    match &plan.arms[v.variant] {
        None => None,
        Some(Arm::DefaultField) => if v.fields.len() > 0 {
            Some(v.fields[0].clone())
        } else {
            Some(String::new())
        },
        Some(Arm::Template { pieces, fields, bound: _ }) => Some(render_pieces(pieces, fields, &v.fields)),
    }
}

} // verus!
