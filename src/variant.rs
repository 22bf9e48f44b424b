//! The description of a sum type that generation starts from, and the
//! resolution of each variant's attributes into its display properties.
use vstd::prelude::*;
use crate::casing::{apply_case, cased, CaseStyle};
use crate::text::views;

verus! {

/// The fields a variant carries.
#[derive(Clone, Debug)]
pub enum Shape {
    Unit,
    /// Positional fields, by their number.
    Unnamed(usize),
    /// Named fields, in declaration order.
    Named(Vec<String>),
}

/// One attribute attached to a variant.
#[derive(Clone, Debug)]
pub enum VariantAttr {
    /// The variant takes no part in generation.
    Disabled,
    /// The variant displays as the string held in its single field.
    DefaultField,
    /// An alias for the variant's display name.
    Serialize(String),
    /// An explicit display template, preferred over every alias.
    ToStringOverride(String),
    /// The case convention of this variant's derived display name.
    CaseStyle(CaseStyle),
}

/// A variant: its name, its fields, and its attributes in order.
#[derive(Clone, Debug)]
pub struct VariantDescriptor {
    pub name: String,
    pub shape: Shape,
    pub attrs: Vec<VariantAttr>,
}

/// A type to generate for: its name, whether it is a sum type, the case
/// convention its variants' display names default to, and its variants in
/// declaration order.
#[derive(Clone, Debug)]
pub struct TypeDescriptor {
    pub name: String,
    pub is_enum: bool,
    pub case_style: CaseStyle,
    pub variants: Vec<VariantDescriptor>,
}

/// What the attributes of one variant say.
#[derive(Clone, Debug)]
pub struct VariantProperties {
    pub disabled: bool,
    pub default: bool,
    /// Display names, the preferred one first: explicit templates, then
    /// aliases, each in the order given.
    pub display_names: Vec<String>,
    pub case_style: Option<CaseStyle>,
}

pub open spec fn has_disabled(a: Seq<VariantAttr>) -> bool {
    exists|i: int| 0 <= i < a.len() && a[i] is Disabled
}

pub open spec fn has_default(a: Seq<VariantAttr>) -> bool {
    exists|i: int| 0 <= i < a.len() && a[i] is DefaultField
}

/// The explicit templates among the attributes, in order.
pub open spec fn overrides(a: Seq<VariantAttr>) -> Seq<Seq<char>>
    decreases a.len(),
{
    if a.len() == 0 {
        seq![]
    } else {
        match a.last() {
            VariantAttr::ToStringOverride(s) => overrides(a.drop_last()).push(s@),
            _ => overrides(a.drop_last()),
        }
    }
}

/// The aliases among the attributes, in order.
pub open spec fn aliases(a: Seq<VariantAttr>) -> Seq<Seq<char>>
    decreases a.len(),
{
    if a.len() == 0 {
        seq![]
    } else {
        match a.last() {
            VariantAttr::Serialize(s) => aliases(a.drop_last()).push(s@),
            _ => aliases(a.drop_last()),
        }
    }
}

/// The first case convention among the attributes.
pub open spec fn style_of(a: Seq<VariantAttr>) -> Option<CaseStyle>
    decreases a.len(),
{
    if a.len() == 0 {
        None
    } else {
        match style_of(a.drop_last()) {
            Some(c) => Some(c),
            None => match a.last() {
                VariantAttr::CaseStyle(c) => Some(c),
                _ => None,
            },
        }
    }
}

pub open spec fn display_names(a: Seq<VariantAttr>) -> Seq<Seq<char>> {
    overrides(a) + aliases(a)
}

/// The properties that the attributes `a` resolve to.
pub open spec fn properties_match(p: VariantProperties, a: Seq<VariantAttr>) -> bool {
    &&& p.disabled == has_disabled(a)
    &&& p.default == has_default(a)
    &&& views(p.display_names@) == display_names(a)
    &&& p.case_style == style_of(a)
}

/// The display template of a variant: its first display name, or else its
/// name under its own case convention, or that of its type.
pub open spec fn preferred(a: Seq<VariantAttr>, name: Seq<char>, type_style: CaseStyle) -> Seq<char> {
    let d = display_names(a);
    if d.len() > 0 {
        d[0]
    } else {
        match style_of(a) {
            Some(c) => cased(name, c),
            None => cased(name, type_style),
        }
    }
}

/// Resolves a variant's attributes into its properties.
pub fn get_variant_properties(attrs: &Vec<VariantAttr>) -> (r: VariantProperties)
    ensures
        properties_match(r, attrs@),
{
    let ghost a = attrs@;
    let mut disabled = false;
    let mut default = false;
    let mut over: Vec<String> = Vec::new();
    let mut alias: Vec<String> = Vec::new();
    let mut style: Option<CaseStyle> = None;
    let mut i: usize = 0;
    while i < attrs.len()
        invariant
            a == attrs@,
            i <= a.len(),
            disabled == has_disabled(a.subrange(0, i as int)),
            default == has_default(a.subrange(0, i as int)),
            views(over@) == overrides(a.subrange(0, i as int)),
            views(alias@) == aliases(a.subrange(0, i as int)),
            style == style_of(a.subrange(0, i as int)),
        decreases a.len() - i,
    {
        let ghost pre = a.subrange(0, i as int);
        let ghost cur = a.subrange(0, i + 1);
        assert(cur.drop_last() =~= pre);
        assert(cur.last() == a[i as int]);
        assert(forall|j: int| 0 <= j < i ==> cur[j] == pre[j]);
        match &attrs[i] {
            VariantAttr::Disabled => {
                disabled = true;
            },
            VariantAttr::DefaultField => {
                default = true;
            },
            VariantAttr::Serialize(s) => {
                let ghost a0 = alias@;
                alias.push(s.clone());
                assert(views(alias@) =~= views(a0).push(s@));
            },
            VariantAttr::ToStringOverride(s) => {
                let ghost o0 = over@;
                over.push(s.clone());
                assert(views(over@) =~= views(o0).push(s@));
            },
            VariantAttr::CaseStyle(c) => {
                if style.is_none() {
                    style = Some(*c);
                }
            },
        }
        assert(disabled == has_disabled(cur)) by {
            if cur[i as int] is Disabled {
            } else {
                assert(forall|j: int| 0 <= j < cur.len() && cur[j] is Disabled ==> j < i);
            }
        }
        assert(default == has_default(cur)) by {
            if cur[i as int] is DefaultField {
            } else {
                assert(forall|j: int| 0 <= j < cur.len() && cur[j] is DefaultField ==> j < i);
            }
        }
        i = i + 1;
    }
    assert(a.subrange(0, a.len() as int) =~= a);
    let mut names = over;
    let ghost o = names@;
    let mut k: usize = 0;
    while k < alias.len()
        invariant
            k <= alias@.len(),
            names@ == o + alias@.subrange(0, k as int),
        decreases alias@.len() - k,
    {
        names.push(alias[k].clone());
        assert(names@ =~= o + alias@.subrange(0, k + 1));
        k = k + 1;
    }
    assert(alias@.subrange(0, alias@.len() as int) =~= alias@);
    assert(views(names@) =~= views(o) + views(alias@));
    VariantProperties { disabled, default, display_names: names, case_style: style }
}

/// The display template that properties `p` give a variant called `name`
/// in a type whose case convention is `type_style`.
pub open spec fn preferred_of(p: VariantProperties, name: Seq<char>, type_style: CaseStyle) -> Seq<char> {
    if p.display_names@.len() > 0 {
        p.display_names@[0]@
    } else {
        match p.case_style {
            Some(c) => cased(name, c),
            None => cased(name, type_style),
        }
    }
}

pub proof fn lemma_preferred(p: VariantProperties, a: Seq<VariantAttr>, name: Seq<char>, type_style: CaseStyle)
    requires
        properties_match(p, a),
    ensures
        preferred_of(p, name, type_style) == preferred(a, name, type_style),
{
    if p.display_names@.len() > 0 {
        assert(views(p.display_names@)[0] == p.display_names@[0]@);
    }
}

/// The display template of a variant with properties `props` and name
/// `name`, in a type whose case convention is `type_style`.
pub fn get_preferred_name(props: &VariantProperties, name: &str, type_style: CaseStyle) -> (r: String)
    ensures
        r@ == preferred_of(*props, name@, type_style),
{
    if props.display_names.len() > 0 {
        props.display_names[0].clone()
    } else {
        match props.case_style {
            Some(c) => apply_case(name, c),
            None => apply_case(name, type_style),
        }
    }
}

} // verus!
