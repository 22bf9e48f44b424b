//! One tag predicate per enabled variant, named `is_<variant in snake case>`.
use vstd::prelude::*;
use crate::casing::{snake, snakify};
use crate::text::push_char;
use crate::variant::{has_disabled, TypeDescriptor, VariantAttr, VariantDescriptor};
use crate::GenError;

verus! {

/// A generated predicate: its method name and the index of the variant it
/// tests for.
#[derive(Clone, Debug)]
pub struct Predicate {
    pub method_name: String,
    pub variant: usize,
}

/// A value of a described type at run time: the index of its variant and
/// the string form of each of its fields, in order.
#[derive(Clone, Debug)]
pub struct Value {
    pub variant: usize,
    pub fields: Vec<String>,
}

pub open spec fn is_disabled(v: VariantDescriptor) -> bool {
    has_disabled(v.attrs@)
}

/// The name of the predicate for a variant called `name`.
pub open spec fn method_name(name: Seq<char>) -> Seq<char> {
    seq!['i', 's', '_'] + snake(name)
}

/// The predicates of the variants `vs`: name and variant index, in order.
pub open spec fn predicates(vs: Seq<VariantDescriptor>) -> Seq<(Seq<char>, int)>
    decreases vs.len(),
{
    if vs.len() == 0 {
        seq![]
    } else if is_disabled(vs.last()) {
        predicates(vs.drop_last())
    } else {
        predicates(vs.drop_last()).push((method_name(vs.last().name@), vs.len() - 1))
    }
}

pub open spec fn predicate_views(ps: Seq<Predicate>) -> Seq<(Seq<char>, int)> {
    ps.map_values(|p: Predicate| (p.method_name@, p.variant as int))
}

/// The predicates of a sum type, one per enabled variant in declaration
/// order; `NotASumType` for any other type.
pub fn enum_is_inner(ast: &TypeDescriptor) -> (r: Result<Vec<Predicate>, GenError>)
    ensures
        ast.is_enum <==> r is Ok,
        !ast.is_enum ==> r == Err::<Vec<Predicate>, GenError>(GenError::NotASumType),
        r is Ok ==> predicate_views(r->Ok_0@) == predicates(ast.variants@),
{
    if !ast.is_enum {
        return Err(GenError::NotASumType);
    }
    let ghost vs = ast.variants@;
    let mut out: Vec<Predicate> = Vec::new();
    let mut i: usize = 0;
    while i < ast.variants.len()
        invariant
            vs == ast.variants@,
            i <= vs.len(),
            predicate_views(out@) == predicates(vs.subrange(0, i as int)),
        decreases vs.len() - i,
    {
        let v = &ast.variants[i];
        let ghost cur = vs.subrange(0, i + 1);
        assert(cur.drop_last() =~= vs.subrange(0, i as int));
        if !attrs_disable(&v.attrs) {
            let mut name = String::new();
            push_char(&mut name, 'i');
            push_char(&mut name, 's');
            push_char(&mut name, '_');
            let s = snakify(v.name.as_str());
            name.append(s.as_str());
            assert(name@ =~= method_name(v.name@));
            let ghost o0 = out@;
            out.push(Predicate { method_name: name, variant: i });
            assert(predicate_views(out@) =~= predicate_views(o0).push((method_name(v.name@), i as int)));
        }
        i = i + 1;
    }
    assert(vs.subrange(0, vs.len() as int) =~= vs);
    Ok(out)
}

/// Whether any of the attributes disables its variant.
pub fn attrs_disable(attrs: &Vec<VariantAttr>) -> (r: bool)
    ensures
        r == has_disabled(attrs@),
{
    let mut i: usize = 0;
    while i < attrs.len()
        invariant
            i <= attrs@.len(),
            forall|j: int| 0 <= j < i ==> !(attrs@[j] is Disabled),
        decreases attrs@.len() - i,
    {
        if let VariantAttr::Disabled = &attrs[i] {
            return true;
        }
        i = i + 1;
    }
    false
}

/// What the generated predicate `p` returns for the value `v`: whether `v`
/// is of the variant it tests for, whatever its fields hold.
pub fn eval_predicate(p: &Predicate, v: &Value) -> (r: bool)
    ensures
        r == (v.variant == p.variant),
{
    v.variant == p.variant
}

proof fn lemma_predicates_shape(vs: Seq<VariantDescriptor>)
    ensures
        forall|k: int| 0 <= k < predicates(vs).len() ==> {
            let (n, i) = #[trigger] predicates(vs)[k];
            &&& 0 <= i < vs.len()
            &&& !is_disabled(vs[i])
            &&& n == method_name(vs[i].name@)
        },
        forall|i: int| 0 <= i < vs.len() && !is_disabled(vs[i]) ==> exists|k: int|
            0 <= k < predicates(vs).len() && (#[trigger] predicates(vs)[k]).1 == i,
    decreases vs.len(),
{
    if vs.len() > 0 {
        let pre = vs.drop_last();
        lemma_predicates_shape(pre);
        let ps = predicates(vs);
        let qs = predicates(pre);
        assert forall|i: int| 0 <= i < vs.len() && !is_disabled(vs[i]) implies exists|k: int|
            0 <= k < ps.len() && (#[trigger] ps[k]).1 == i by {
            if i < vs.len() - 1 {
                assert(pre[i] == vs[i]);
                let k = choose|k: int| 0 <= k < qs.len() && (#[trigger] qs[k]).1 == i;
                assert(ps[k] == qs[k]);
            } else {
                assert(ps[qs.len() as int].1 == i);
            }
        }
    }
}

/// For every enabled variant whose predicate name no other enabled variant
/// shares, exactly that variant's index stands behind its predicate, so
/// the predicate holds of a value exactly when the value is of that
/// variant; a disabled variant has no predicate at all.
pub proof fn lemma_predicate_matches_tag(vs: Seq<VariantDescriptor>, i: int)
    requires
        0 <= i < vs.len(),
        forall|j: int| 0 <= j < vs.len() && j != i && !is_disabled(vs[j]) ==>
            method_name(vs[j].name@) != method_name(vs[i].name@),
    ensures
        !is_disabled(vs[i]) ==> exists|k: int| 0 <= k < predicates(vs).len()
            && (#[trigger] predicates(vs)[k]).0 == method_name(vs[i].name@),
        forall|k: int| 0 <= k < predicates(vs).len()
            && (#[trigger] predicates(vs)[k]).0 == method_name(vs[i].name@)
            ==> predicates(vs)[k].1 == i,
        is_disabled(vs[i]) ==> forall|k: int| 0 <= k < predicates(vs).len()
            ==> (#[trigger] predicates(vs)[k]).1 != i,
{
    lemma_predicates_shape(vs);
    let ps = predicates(vs);
    if !is_disabled(vs[i]) {
        let k = choose|k: int| 0 <= k < ps.len() && (#[trigger] ps[k]).1 == i;
        assert(ps[k].0 == method_name(vs[i].name@));
    }
}

} // verus!
