use enum_synth::casing::{apply_case, snakify, CaseStyle};
use enum_synth::predicates::{enum_is_inner, eval_predicate, Value};
use enum_synth::template::{capture_format_string_idents, parse_template, render_pieces, TemplateError};
use enum_synth::text::chars_of;
use enum_synth::to_string::{render_value, to_string_inner, Arm, ToStringPlan};
use enum_synth::variant::{
    get_preferred_name, get_variant_properties, Shape, TypeDescriptor, VariantAttr,
    VariantDescriptor,
};
use enum_synth::GenError;

fn variant(name: &str, shape: Shape, attrs: Vec<VariantAttr>) -> VariantDescriptor {
    VariantDescriptor { name: name.to_string(), shape, attrs }
}

fn enum_of(case_style: CaseStyle, variants: Vec<VariantDescriptor>) -> TypeDescriptor {
    TypeDescriptor { name: "T".to_string(), is_enum: true, case_style, variants }
}

fn value(variant: usize, fields: &[&str]) -> Value {
    Value { variant, fields: fields.iter().map(|s| s.to_string()).collect() }
}

fn render(plan: &ToStringPlan, v: &Value) -> Option<String> {
    render_value(plan, v)
}

fn idents(t: &str) -> Result<Vec<String>, TemplateError> {
    capture_format_string_idents(t)
}

#[test]
fn snakify_splits_words() {
    assert_eq!(snakify("HorseAndCart"), "horse_and_cart");
    assert_eq!(snakify("Cat"), "cat");
    assert_eq!(snakify("camelCase"), "camel_case");
    assert_eq!(snakify("Http2Server"), "http_2_server");
    assert_eq!(snakify("HTTP"), "http");
    assert_eq!(snakify(""), "");
}

#[test]
fn snakify_is_idempotent() {
    for s in ["HorseAndCart", "already_snake", "Http2Server", "a_B_c", "X1y"] {
        let once = snakify(s);
        assert_eq!(snakify(&once), once);
    }
}

#[test]
fn snakify_keeps_separators() {
    assert_eq!(snakify("a__b"), "a__b");
    assert_eq!(snakify("_Foo"), "_foo");
}

#[test]
fn unchanged_case_keeps_name() {
    assert_eq!(apply_case("HorseAndCart", CaseStyle::Unchanged), "HorseAndCart");
    assert_eq!(apply_case("HorseAndCart", CaseStyle::Snake), "horse_and_cart");
}

#[test]
fn animal_predicates_and_strings() {
    let ty = enum_of(
        CaseStyle::Snake,
        vec![variant("Cat", Shape::Unit, vec![]), variant("HorseAndCart", Shape::Unit, vec![])],
    );
    let preds = enum_is_inner(&ty).unwrap();
    let names: Vec<&str> = preds.iter().map(|p| p.method_name.as_str()).collect();
    assert_eq!(names, vec!["is_cat", "is_horse_and_cart"]);
    assert_eq!(preds[0].variant, 0);
    assert_eq!(preds[1].variant, 1);
    let plan = to_string_inner(&ty).unwrap();
    assert!(!plan.catch_all);
    assert_eq!(render(&plan, &value(0, &[])), Some("cat".to_string()));
    assert_eq!(render(&plan, &value(1, &[])), Some("horse_and_cart".to_string()));
}

#[test]
fn predicate_holds_only_for_its_variant() {
    let ty = enum_of(
        CaseStyle::Unchanged,
        vec![
            variant("A", Shape::Unit, vec![]),
            variant("B", Shape::Unnamed(2), vec![]),
            variant("C", Shape::Named(vec!["x".to_string()]), vec![]),
        ],
    );
    let preds = enum_is_inner(&ty).unwrap();
    assert_eq!(preds.len(), 3);
    let values = [value(0, &[]), value(1, &["1", "2"]), value(2, &["q"])];
    for p in &preds {
        for v in &values {
            assert_eq!(eval_predicate(p, v), p.variant == v.variant);
        }
    }
}

#[test]
fn escaped_braces_render_literally() {
    assert_eq!(idents("{{literal}}"), Ok(vec![]));
    let ty = enum_of(
        CaseStyle::Unchanged,
        vec![variant("Lit", Shape::Unit, vec![VariantAttr::ToStringOverride("{{literal}}".to_string())])],
    );
    let plan = to_string_inner(&ty).unwrap();
    assert_eq!(render(&plan, &value(0, &[])), Some("{literal}".to_string()));
}

#[test]
fn unclosed_bracket_aborts_whole_conversion() {
    assert_eq!(idents("{name"), Err(TemplateError::UnclosedBracket));
    let ty = enum_of(
        CaseStyle::Unchanged,
        vec![
            variant("Good", Shape::Unit, vec![]),
            variant(
                "Bad",
                Shape::Named(vec!["name".to_string()]),
                vec![VariantAttr::ToStringOverride("{name".to_string())],
            ),
            variant("AlsoGood", Shape::Unit, vec![]),
        ],
    );
    assert_eq!(to_string_inner(&ty).err(), Some(GenError::Template(1, TemplateError::UnclosedBracket)));
    assert_eq!(enum_is_inner(&ty).unwrap().len(), 3);
}

#[test]
fn default_field_displays_its_string() {
    let ty = enum_of(
        CaseStyle::Snake,
        vec![
            variant("Red", Shape::Unit, vec![]),
            variant("Green", Shape::Unnamed(1), vec![VariantAttr::DefaultField]),
        ],
    );
    let plan = to_string_inner(&ty).unwrap();
    assert!(matches!(plan.arms[1], Some(Arm::DefaultField)));
    assert_eq!(render(&plan, &value(1, &["lime"])), Some("lime".to_string()));
    assert_eq!(render(&plan, &value(0, &[])), Some("red".to_string()));
}

#[test]
fn disabled_variant_has_no_predicate_and_aborts() {
    let ty = enum_of(
        CaseStyle::Unchanged,
        vec![
            variant("On", Shape::Unit, vec![]),
            variant("Off", Shape::Unit, vec![VariantAttr::Disabled]),
        ],
    );
    let preds = enum_is_inner(&ty).unwrap();
    assert_eq!(preds.len(), 1);
    assert_eq!(preds[0].method_name, "is_on");
    let plan = to_string_inner(&ty).unwrap();
    assert!(plan.catch_all);
    assert!(plan.arms[1].is_none());
    assert_eq!(render(&plan, &value(1, &[])), None);
    assert_eq!(render(&plan, &value(0, &[])), Some("On".to_string()));
}

#[test]
fn not_a_sum_type() {
    let mut ty = enum_of(CaseStyle::Unchanged, vec![]);
    ty.is_enum = false;
    assert_eq!(enum_is_inner(&ty).err(), Some(GenError::NotASumType));
    assert_eq!(to_string_inner(&ty).err(), Some(GenError::NotASumType));
}

#[test]
fn malformed_default() {
    for shape in [Shape::Unit, Shape::Unnamed(2), Shape::Named(vec!["s".to_string()])] {
        let ty = enum_of(
            CaseStyle::Unchanged,
            vec![variant("Ok", Shape::Unit, vec![]), variant("V", shape, vec![VariantAttr::DefaultField])],
        );
        assert_eq!(to_string_inner(&ty).err(), Some(GenError::MalformedDefault(1)));
    }
}

#[test]
fn malformed_default_on_disabled_variant_is_skipped() {
    let ty = enum_of(
        CaseStyle::Unchanged,
        vec![variant("V", Shape::Unit, vec![VariantAttr::DefaultField, VariantAttr::Disabled])],
    );
    assert!(to_string_inner(&ty).is_ok());
}

#[test]
fn unbound_placeholder() {
    let ty = enum_of(
        CaseStyle::Unchanged,
        vec![variant("V", Shape::Unnamed(1), vec![VariantAttr::ToStringOverride("{x}".to_string())])],
    );
    assert_eq!(to_string_inner(&ty).err(), Some(GenError::UnboundPlaceholder(0)));
    let ty = enum_of(
        CaseStyle::Unchanged,
        vec![variant(
            "W",
            Shape::Named(vec!["a".to_string()]),
            vec![VariantAttr::ToStringOverride("{b}".to_string())],
        )],
    );
    assert_eq!(to_string_inner(&ty).err(), Some(GenError::UnboundPlaceholder(0)));
}

#[test]
fn first_failing_variant_is_reported() {
    let ty = enum_of(
        CaseStyle::Unchanged,
        vec![
            variant("A", Shape::Unit, vec![VariantAttr::Disabled, VariantAttr::ToStringOverride("{".to_string())]),
            variant("B", Shape::Unit, vec![VariantAttr::ToStringOverride("x}".to_string())]),
            variant("C", Shape::Unit, vec![VariantAttr::DefaultField]),
        ],
    );
    assert_eq!(
        to_string_inner(&ty).err(),
        Some(GenError::Template(1, TemplateError::UnmatchedClosingBracket))
    );
}

#[test]
fn template_errors() {
    assert_eq!(idents("{a{b}"), Err(TemplateError::UnbalancedOpenBracket));
    assert_eq!(idents("a}"), Err(TemplateError::UnmatchedClosingBracket));
    assert_eq!(idents("{1x}"), Err(TemplateError::InvalidIdentifier));
    assert_eq!(idents("{}"), Err(TemplateError::InvalidIdentifier));
    assert_eq!(idents("{fn}"), Err(TemplateError::InvalidIdentifier));
    assert_eq!(idents("{_}"), Err(TemplateError::InvalidIdentifier));
    assert_eq!(idents("{a b}"), Err(TemplateError::InvalidIdentifier));
}

#[test]
fn placeholder_set_is_ordered_and_unique() {
    assert_eq!(
        idents("{b} and {a:>5} then {b}"),
        Ok(vec!["b".to_string(), "a".to_string()])
    );
    assert_eq!(idents("{name}"), Ok(vec!["name".to_string()]));
    assert_eq!(idents("plain"), Ok(vec![]));
}

#[test]
fn named_fields_render_and_bind() {
    let ty = enum_of(
        CaseStyle::Unchanged,
        vec![variant(
            "Person",
            Shape::Named(vec!["name".to_string(), "age".to_string(), "id".to_string()]),
            vec![VariantAttr::ToStringOverride("{name} is {age:>3} {{ok}}".to_string())],
        )],
    );
    let plan = to_string_inner(&ty).unwrap();
    match &plan.arms[0] {
        Some(Arm::Template { bound, .. }) => assert_eq!(bound, &vec![0, 1]),
        _ => panic!("expected a template arm"),
    }
    assert_eq!(render(&plan, &value(0, &["Ann", "7", "x"])), Some("Ann is 7 {ok}".to_string()));
}

#[test]
fn render_pieces_substitutes() {
    let pieces = parse_template(&chars_of("<{x}|{y}>")).unwrap();
    let names = vec!["x".to_string(), "y".to_string()];
    let vals = vec!["1".to_string(), "2".to_string()];
    assert_eq!(render_pieces(&pieces, &names, &vals), "<1|2>");
}

#[test]
fn display_name_preference() {
    let attrs = vec![
        VariantAttr::Serialize("first".to_string()),
        VariantAttr::Serialize("second".to_string()),
    ];
    let props = get_variant_properties(&attrs);
    assert_eq!(props.display_names, vec!["first".to_string(), "second".to_string()]);
    assert_eq!(get_preferred_name(&props, "Var", CaseStyle::Snake), "first");
    let attrs = vec![
        VariantAttr::Serialize("alias".to_string()),
        VariantAttr::ToStringOverride("shown".to_string()),
    ];
    let props = get_variant_properties(&attrs);
    assert_eq!(get_preferred_name(&props, "Var", CaseStyle::Snake), "shown");
    let props = get_variant_properties(&vec![]);
    assert!(!props.disabled && !props.default);
    assert_eq!(get_preferred_name(&props, "MyVar", CaseStyle::Snake), "my_var");
    assert_eq!(get_preferred_name(&props, "MyVar", CaseStyle::Unchanged), "MyVar");
}

#[test]
fn variant_case_style_overrides_type() {
    let ty = enum_of(
        CaseStyle::Unchanged,
        vec![
            variant("BigCat", Shape::Unit, vec![VariantAttr::CaseStyle(CaseStyle::Snake)]),
            variant("BigDog", Shape::Unit, vec![]),
        ],
    );
    let plan = to_string_inner(&ty).unwrap();
    assert_eq!(render(&plan, &value(0, &[])), Some("big_cat".to_string()));
    assert_eq!(render(&plan, &value(1, &[])), Some("BigDog".to_string()));
    let props = get_variant_properties(&vec![
        VariantAttr::CaseStyle(CaseStyle::Snake),
        VariantAttr::CaseStyle(CaseStyle::Unchanged),
        VariantAttr::Disabled,
        VariantAttr::DefaultField,
    ]);
    assert_eq!(props.case_style, Some(CaseStyle::Snake));
    assert!(props.disabled && props.default);
}

#[test]
fn to_string_override_beats_default() {
    let ty = enum_of(
        CaseStyle::Snake,
        vec![variant(
            "Green",
            Shape::Unnamed(1),
            vec![VariantAttr::DefaultField, VariantAttr::ToStringOverride("x".to_string())],
        )],
    );
    let plan = to_string_inner(&ty).unwrap();
    assert!(matches!(plan.arms[0], Some(Arm::Template { .. })));
    assert_eq!(render(&plan, &value(0, &["lime"])), Some("x".to_string()));
}

#[test]
fn alias_does_not_beat_default() {
    let ty = enum_of(
        CaseStyle::Snake,
        vec![variant(
            "Green",
            Shape::Unnamed(1),
            vec![VariantAttr::DefaultField, VariantAttr::Serialize("alias".to_string())],
        )],
    );
    let plan = to_string_inner(&ty).unwrap();
    assert_eq!(render(&plan, &value(0, &["lime"])), Some("lime".to_string()));
}

#[test]
fn malformed_default_with_override() {
    let ty = enum_of(
        CaseStyle::Unchanged,
        vec![variant(
            "V",
            Shape::Unit,
            vec![VariantAttr::DefaultField, VariantAttr::ToStringOverride("x".to_string())],
        )],
    );
    assert_eq!(to_string_inner(&ty).err(), Some(GenError::MalformedDefault(0)));
}

#[test]
fn snakify_lowers_non_ascii_letters() {
    assert_eq!(snakify("\u{c9}"), "\u{e9}");
    assert_eq!(snakify("Caf\u{e9}\u{c9}clair"), "caf\u{e9}_\u{e9}clair");
    assert_eq!(snakify("\u{c9}t\u{e9}2"), "\u{e9}t\u{e9}_2");
    let ty = enum_of(CaseStyle::Snake, vec![variant("\u{c9}lan", Shape::Unit, vec![])]);
    assert_eq!(enum_is_inner(&ty).unwrap()[0].method_name, "is_\u{e9}lan");
    let plan = to_string_inner(&ty).unwrap();
    assert_eq!(render(&plan, &value(0, &[])), Some("\u{e9}lan".to_string()));
}
