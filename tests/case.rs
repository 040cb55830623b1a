use string_enum::RenameRule;
use string_enum::RenameRule::CamelCase;
use string_enum::RenameRule::KebabCase;
use string_enum::RenameRule::LowerCase;
use string_enum::RenameRule::NoRename;
use string_enum::RenameRule::PascalCase;
use string_enum::RenameRule::ScreamingKebabCase;
use string_enum::RenameRule::ScreamingSnakeCase;
use string_enum::RenameRule::SnakeCase;
use string_enum::RenameRule::UpperCase;

#[test]
fn rename_variants() {
    for &(declared, lower, upper, camel, snake, screaming, kebab, screaming_kebab) in &[
        (
            "Outcome", "outcome", "OUTCOME", "outcome", "outcome", "OUTCOME", "outcome", "OUTCOME",
        ),
        (
            "VeryTasty",
            "verytasty",
            "VERYTASTY",
            "veryTasty",
            "very_tasty",
            "VERY_TASTY",
            "very-tasty",
            "VERY-TASTY",
        ),
        ("A", "a", "A", "a", "a", "A", "a", "A"),
        ("Z42", "z42", "Z42", "z42", "z42", "Z42", "z42", "Z42"),
    ] {
        assert_eq!(NoRename.apply_to_variant(declared), declared);
        assert_eq!(LowerCase.apply_to_variant(declared), lower);
        assert_eq!(UpperCase.apply_to_variant(declared), upper);
        assert_eq!(PascalCase.apply_to_variant(declared), declared);
        assert_eq!(CamelCase.apply_to_variant(declared), camel);
        assert_eq!(SnakeCase.apply_to_variant(declared), snake);
        assert_eq!(ScreamingSnakeCase.apply_to_variant(declared), screaming);
        assert_eq!(KebabCase.apply_to_variant(declared), kebab);
        assert_eq!(
            ScreamingKebabCase.apply_to_variant(declared),
            screaming_kebab
        );
    }
}

const NAMES: [(&str, RenameRule); 8] = [
    ("lowercase", LowerCase),
    ("UPPERCASE", UpperCase),
    ("PascalCase", PascalCase),
    ("camelCase", CamelCase),
    ("snake_case", SnakeCase),
    ("SCREAMING_SNAKE_CASE", ScreamingSnakeCase),
    ("kebab-case", KebabCase),
    ("SCREAMING-KEBAB-CASE", ScreamingKebabCase),
];

#[test]
fn every_rule_name_resolves() {
    for (name, rule) in NAMES {
        assert_eq!(RenameRule::from_str(name), Ok(rule));
        assert_eq!(rule.name(), name);
    }
}

#[test]
fn unknown_rule_lists_all_names_in_order() {
    let err = RenameRule::from_str("Snake_Case").unwrap_err();
    assert_eq!(err.unknown(), "Snake_Case");
    assert_eq!(
        err.message(),
        "unknown rename rule `rename_all = \"Snake_Case\"`, expected one of \"lowercase\", \
         \"UPPERCASE\", \"PascalCase\", \"camelCase\", \"snake_case\", \"SCREAMING_SNAKE_CASE\", \
         \"kebab-case\", \"SCREAMING-KEBAB-CASE\""
    );
}

#[test]
fn unknown_rule_message_escapes_the_name() {
    let err = RenameRule::from_str("a\"b\n").unwrap_err();
    assert!(err.message().starts_with("unknown rename rule `rename_all = \"a\\\"b\\n\"`"));
}

#[test]
fn empty_rule_name_is_unknown() {
    assert!(RenameRule::from_str("").is_err());
    assert!(RenameRule::from_str("none").is_err());
}

#[test]
fn identity_rules_keep_names() {
    for x in ["VeryTasty", "A", "Z42", "already_snake"] {
        assert_eq!(NoRename.apply_to_variant(x), x);
        assert_eq!(PascalCase.apply_to_variant(x), x);
    }
}

#[test]
fn snake_case_is_idempotent_on_normalized_names() {
    let once = SnakeCase.apply_to_variant("VeryTasty");
    assert_eq!(once, "very_tasty");
    assert_eq!(SnakeCase.apply_to_variant(&once), "very_tasty");
    let kebab = KebabCase.apply_to_variant("VeryTasty");
    assert_eq!(KebabCase.apply_to_variant(&kebab), "very-tasty");
    let camel = CamelCase.apply_to_variant("VeryTasty");
    assert_eq!(CamelCase.apply_to_variant(&camel), "veryTasty");
}

#[test]
fn screaming_snake_case_is_not_idempotent() {
    let once = ScreamingSnakeCase.apply_to_variant("VeryTasty");
    assert_eq!(once, "VERY_TASTY");
    assert_eq!(
        ScreamingSnakeCase.apply_to_variant(&once),
        "V_E_R_Y__T_A_S_T_Y"
    );
}

#[test]
fn snake_case_breaks_before_non_ascii_uppercase() {
    assert_eq!(SnakeCase.apply_to_variant("AÉté"), "a_Été");
    assert_eq!(LowerCase.apply_to_variant("Été"), "Été");
}

#[test]
fn digits_do_not_start_words() {
    assert_eq!(SnakeCase.apply_to_variant("Z42"), "z42");
    assert_eq!(SnakeCase.apply_to_variant("Http2Server"), "http2_server");
    assert_eq!(KebabCase.apply_to_variant("VeryTasty"), "very-tasty");
    assert_eq!(ScreamingKebabCase.apply_to_variant("VeryTasty"), "VERY-TASTY");
}

#[test]
fn kebab_replaces_existing_underscores() {
    assert_eq!(KebabCase.apply_to_variant("Already_Split"), "already--split");
}
