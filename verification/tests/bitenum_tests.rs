use bitbybit::args::parse_args;
use bitbybit::expand::{bitenum, EnumInput, Expansion};
use bitbybit::model::{ArgToken, AttrInput, BitenumError, Exhaustiveness, VariantInput};
use bitbybit::numeral::parse_discriminant;
use bitbybit::width::{pow2_u128, resolve_width};

fn ident(s: &str) -> ArgToken {
    ArgToken::Ident(s.to_string())
}

fn lit(s: &str) -> ArgToken {
    ArgToken::Literal(s.to_string())
}

fn punct(c: char) -> ArgToken {
    ArgToken::Punct(c)
}

fn variant(name: &str, discr: &str) -> VariantInput {
    VariantInput {
        name: name.to_string(),
        discriminant: Some(discr.to_string()),
        attrs: Vec::new(),
    }
}

fn cfg_variant(name: &str, discr: &str, cfg: &str) -> VariantInput {
    VariantInput {
        name: name.to_string(),
        discriminant: Some(discr.to_string()),
        attrs: vec![AttrInput { path: "cfg".to_string(), tokens: cfg.to_string() }],
    }
}

fn enum_input(name: &str, variants: Vec<VariantInput>) -> EnumInput {
    EnumInput {
        name: name.to_string(),
        visibility: "pub".to_string(),
        attributes: Vec::new(),
        variants,
    }
}

fn width_args(w: &str, exhaustive: Option<&str>) -> Vec<ArgToken> {
    let mut args = vec![ident(w)];
    if let Some(value) = exhaustive {
        args.push(punct(','));
        args.push(ident("exhaustive"));
        args.push(punct(':'));
        args.push(ident(value));
    }
    args
}

fn expand_ok(w: &str, exhaustive: Option<&str>, variants: Vec<VariantInput>) -> Expansion {
    bitenum(&width_args(w, exhaustive), &enum_input("Sample", variants)).unwrap()
}

fn expand_err(w: &str, exhaustive: Option<&str>, variants: Vec<VariantInput>) -> BitenumError {
    bitenum(&width_args(w, exhaustive), &enum_input("Sample", variants)).unwrap_err()
}

#[test]
fn discriminant_parsing_accepts_every_radix() {
    assert_eq!(parse_discriminant("0x1F"), Some(31));
    assert_eq!(parse_discriminant("0b101"), Some(5));
    assert_eq!(parse_discriminant("0o17"), Some(15));
    assert_eq!(parse_discriminant("31"), Some(31));
    assert_eq!(parse_discriminant("1_000"), Some(1000));
    assert_eq!(parse_discriminant("0"), Some(0));
}

#[test]
fn discriminant_parsing_rejects_non_literals() {
    assert_eq!(parse_discriminant("OTHER_SYMBOL"), None);
    assert_eq!(parse_discriminant("A + B"), None);
    assert_eq!(parse_discriminant(""), None);
    assert_eq!(parse_discriminant("0x"), None);
    assert_eq!(parse_discriminant("0b102"), None);
    assert_eq!(parse_discriminant("0o8"), None);
}

#[test]
fn native_widths_stay_unwrapped() {
    for w in [8u8, 16, 32, 64] {
        let p = resolve_width(w);
        assert_eq!(p.storage_bits, w);
        assert!(!p.needs_bounding);
    }
}

#[test]
fn off_native_widths_take_the_bounded_wrapper() {
    for (w, storage) in [(7u8, 8u8), (15, 16), (31, 32), (63, 64), (1, 8), (3, 8), (33, 64)] {
        let p = resolve_width(w);
        assert_eq!(p.storage_bits, storage);
        assert!(p.needs_bounding);
    }
}

#[test]
fn powers_of_two_are_exact() {
    assert_eq!(pow2_u128(0), 1);
    assert_eq!(pow2_u128(3), 8);
    assert_eq!(pow2_u128(64), 1u128 << 64);
}

#[test]
fn args_width_and_exhaustive_parse() {
    let c = parse_args(&width_args("u3", Some("false"))).unwrap();
    assert_eq!(c.bit_width, 3);
    assert_eq!(c.exhaustiveness, Exhaustiveness::False);

    let c = parse_args(&width_args("u12", Some("true"))).unwrap();
    assert_eq!(c.bit_width, 12);
    assert_eq!(c.exhaustiveness, Exhaustiveness::True);

    let c = parse_args(&width_args("u4", Some("conditional"))).unwrap();
    assert_eq!(c.bit_width, 4);
    assert_eq!(c.exhaustiveness, Exhaustiveness::Conditional);
}

#[test]
fn args_without_exhaustive_default_to_not_exhaustive() {
    let c = parse_args(&vec![ident("u5")]).unwrap();
    assert_eq!(c.bit_width, 5);
    assert_eq!(c.exhaustiveness, Exhaustiveness::False);
}

#[test]
fn args_literal_value_is_captured() {
    let c = parse_args(&vec![
        ident("u2"),
        punct(','),
        ident("exhaustive"),
        punct(':'),
        lit("true"),
    ])
    .unwrap();
    assert_eq!(c.exhaustiveness, Exhaustiveness::True);
}

#[test]
fn awaited_value_keeps_the_last_token() {
    let r = parse_args(&vec![
        ident("u3"),
        punct(','),
        ident("exhaustive"),
        punct(':'),
        ident("true"),
        ident("conditional"),
    ]);
    assert_eq!(r.unwrap().exhaustiveness, Exhaustiveness::Conditional);
}

#[test]
fn args_last_width_wins() {
    let c = parse_args(&vec![ident("u3"), punct(','), ident("u5")]).unwrap();
    assert_eq!(c.bit_width, 5);
}

#[test]
fn args_missing_width_is_fatal() {
    let r = parse_args(&vec![ident("exhaustive"), punct(':'), ident("true")]);
    assert_eq!(r.unwrap_err(), BitenumError::MissingWidth);
}

#[test]
fn args_exhaustive_twice_is_fatal() {
    let r = parse_args(&vec![
        ident("u3"),
        punct(','),
        ident("exhaustive"),
        punct(':'),
        ident("true"),
        punct(','),
        ident("exhaustive"),
        punct(':'),
        ident("false"),
    ]);
    assert_eq!(r.unwrap_err(), BitenumError::ExhaustiveTwice);
}

#[test]
fn args_stray_value_is_fatal() {
    let r = parse_args(&vec![ident("u3"), punct(','), lit("7")]);
    assert_eq!(r.unwrap_err(), BitenumError::StrayValue("7".to_string()));
}

#[test]
fn args_unexpected_punctuation_is_fatal() {
    let r = parse_args(&vec![ident("u3"), punct(';')]);
    assert_eq!(r.unwrap_err(), BitenumError::UnexpectedPunct(';'));
}

#[test]
fn args_widths_outside_the_range_are_unrecognized() {
    for bad in ["u0", "u65", "u300", "flags", "i8"] {
        let r = parse_args(&vec![ident(bad)]);
        assert_eq!(r.unwrap_err(), BitenumError::UnexpectedArgument(bad.to_string()));
    }
}

#[test]
fn args_bad_exhaustive_value_is_fatal() {
    let r = parse_args(&width_args("u3", Some("maybe")));
    assert_eq!(r.unwrap_err(), BitenumError::BadExhaustiveValue("maybe".to_string()));
}

#[test]
fn raw_value_returns_each_literal_exactly() {
    let e = expand_ok(
        "u6",
        None,
        vec![variant("A", "0b101"), variant("B", "0x1F"), variant("C", "1_0")],
    );
    assert_eq!(e.raw_value(0), 5);
    assert_eq!(e.raw_value(1), 31);
    assert_eq!(e.raw_value(2), 10);
}

#[test]
fn one_past_maximum_fails_for_every_tested_width() {
    for (w, too_big) in [
        ("u1", "2"),
        ("u3", "8"),
        ("u8", "256"),
        ("u16", "65536"),
        ("u63", "9223372036854775808"),
        ("u64", "18446744073709551616"),
    ] {
        let err = expand_err(w, None, vec![variant("A", "0"), variant("B", too_big)]);
        assert_eq!(err, BitenumError::DiscriminantTooLarge("B".to_string()));
    }
}

#[test]
fn missing_discriminant_names_the_variant() {
    let input = enum_input(
        "Sample",
        vec![variant("A", "0"), VariantInput {
            name: "NoValue".to_string(),
            discriminant: None,
            attrs: Vec::new(),
        }],
    );
    let err = bitenum(&width_args("u3", None), &input).unwrap_err();
    assert_eq!(err, BitenumError::MissingDiscriminant("NoValue".to_string()));
}

#[test]
fn symbolic_discriminant_fails_analysis() {
    let err = expand_err("u3", None, vec![variant("A", "OTHER")]);
    assert_eq!(err, BitenumError::MalformedDiscriminant("OTHER".to_string()));
}

#[test]
fn exhaustive_enum_reconstructs_every_value() {
    let e = expand_ok(
        "u2",
        Some("true"),
        vec![variant("A", "0"), variant("B", "1"), variant("C", "2"), variant("D", "3")],
    );
    assert!(!e.fallible);
    for raw in 0..4u64 {
        assert_eq!(e.new_with_raw_value(raw), Ok(raw as usize));
        assert_eq!(e.raw_value(raw as usize), raw);
    }
}

#[test]
fn exhaustive_enum_missing_a_variant_fails() {
    let err = expand_err("u2", Some("true"), vec![
        variant("A", "0"),
        variant("B", "1"),
        variant("C", "2"),
    ]);
    assert_eq!(err, BitenumError::MissingVariants);
}

#[test]
fn full_coverage_without_the_flag_fails() {
    let err = expand_err("u1", None, vec![variant("A", "0"), variant("B", "1")]);
    assert_eq!(err, BitenumError::NotMarkedExhaustive);
}

#[test]
fn conditional_marker_requires_conditional_mode() {
    let err = expand_err("u3", Some("false"), vec![
        variant("A", "0"),
        cfg_variant("B", "1", "feature = \"extra\""),
    ]);
    assert_eq!(err, BitenumError::ConditionalNotMarked);
}

#[test]
fn conditional_mode_requires_a_marker() {
    let err = expand_err("u3", Some("conditional"), vec![variant("A", "0")]);
    assert_eq!(err, BitenumError::ConditionalNotUsed);
}

#[test]
fn conditional_mode_with_a_marker_is_accepted() {
    let e = expand_ok("u3", Some("conditional"), vec![
        variant("A", "0"),
        cfg_variant("B", "1", "feature = \"extra\""),
    ]);
    assert!(e.fallible);
    assert_eq!(e.variants[1].cfg_attrs.len(), 1);
    assert_eq!(e.variants[1].cfg_attrs[0].tokens, "feature = \"extra\"");
    assert_eq!(e.variants[0].cfg_attrs.len(), 0);
}

#[test]
fn three_bit_scenario_round_trips() {
    let e = expand_ok("u3", Some("false"), vec![
        variant("A", "0"),
        variant("B", "1"),
        variant("C", "7"),
    ]);
    assert!(e.fallible);
    assert_eq!(e.bit_count, 3);
    assert_eq!(e.storage_bits, 8);
    assert!(e.needs_bounding);
    assert_eq!(e.raw_value(2), 7);
    assert_eq!(e.new_with_raw_value(2), Err(2));
    assert_eq!(e.new_with_raw_value(7), Ok(2));
    assert_eq!(e.new_with_raw_value(0), Ok(0));
}

#[test]
fn declaration_shell_is_kept_verbatim() {
    let input = EnumInput {
        name: "Mode".to_string(),
        visibility: "pub(crate)".to_string(),
        attributes: vec!["#[derive(Debug)]".to_string()],
        variants: vec![variant("Off", "0"), variant("On", "1")],
    };
    let e = bitenum(&width_args("u2", None), &input).unwrap();
    assert_eq!(e.name, "Mode");
    assert_eq!(e.visibility, "pub(crate)");
    assert_eq!(e.attributes, vec!["#[derive(Debug)]".to_string()]);
    assert_eq!(e.variants[0].name, "Off");
    assert_eq!(e.variants[0].expression, "0");
    assert!(e.fallible);
}

#[test]
fn group_tokens_are_rejected() {
    let r = parse_args(&vec![ident("u3"), punct(','), ArgToken::Other]);
    assert_eq!(r.unwrap_err(), BitenumError::UnexpectedToken);
}

#[test]
fn empty_enum_reconstructs_nothing() {
    let e = expand_ok("u1", None, Vec::new());
    assert!(e.fallible);
    assert_eq!(e.new_with_raw_value(0), Err(0));
    assert_eq!(e.new_with_raw_value(1), Err(1));
}

#[test]
fn widest_value_is_accepted_at_full_width() {
    let e = expand_ok("u64", None, vec![variant("Max", "18446744073709551615")]);
    assert_eq!(e.raw_value(0), u64::MAX);
    assert_eq!(e.new_with_raw_value(u64::MAX), Ok(0));
    assert_eq!(e.storage_bits, 64);
    assert!(!e.needs_bounding);
}

#[test]
fn bounded_collaborator_round_trips_in_range_values() {
    let x = arbitrary_int::UInt::<u8, 3>::new(7);
    assert_eq!(x.value(), 7u8);
    let y = arbitrary_int::UInt::<u64, 63>::new((1u64 << 63) - 1);
    assert_eq!(y.value(), (1u64 << 63) - 1);
}
