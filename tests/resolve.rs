use string_enum::attrs::Attrs;
use string_enum::resolve::DeclBody;
use string_enum::resolve::DeriveError;
use string_enum::resolve::VariantDecl;
use string_enum::token::AttrError;
use string_enum::token::Delimiter;
use string_enum::Attribute;
use string_enum::Enum;
use string_enum::InvalidVariantError;
use string_enum::RenameAttr;
use string_enum::RenameRule;
use string_enum::Token;
use string_enum::TypeDecl;

fn ident(s: &str) -> Token {
    Token::Ident(s.to_string())
}

fn punct(c: char) -> Token {
    Token::Punct(c)
}

fn lit(s: &str) -> Token {
    Token::Literal(format!("{:?}", s))
}

fn open() -> Token {
    Token::Open(Delimiter::Parenthesis)
}

fn close() -> Token {
    Token::Close(Delimiter::Parenthesis)
}

fn attr(tokens: Vec<Token>) -> Attribute {
    Attribute { tokens }
}

/// `#[str = "value"]`
fn str_eq_attr(value: &str) -> Attribute {
    attr(vec![ident("str"), punct('='), lit(value)])
}

/// `#[serde(key = "value")]`
fn serde_eq_attr(key: &str, value: &str) -> Attribute {
    attr(vec![ident("serde"), open(), ident(key), punct('='), lit(value), close()])
}

/// `#[serde(key(k1 = "v1", ...))]`
fn serde_list_attr(key: &str, entries: &[(&str, &str)]) -> Attribute {
    let mut tokens = vec![ident("serde"), open(), ident(key), open()];
    for (i, (k, v)) in entries.iter().enumerate() {
        if i > 0 {
            tokens.push(punct(','));
        }
        tokens.push(ident(k));
        tokens.push(punct('='));
        tokens.push(lit(v));
    }
    tokens.push(close());
    tokens.push(close());
    attr(tokens)
}

fn variant(name: &str, attrs: Vec<Attribute>) -> VariantDecl {
    VariantDecl { ident: name.to_string(), attrs, is_unit: true }
}

fn decl(attrs: Vec<Attribute>, variants: Vec<VariantDecl>) -> TypeDecl {
    TypeDecl { ident: "Subject".to_string(), attrs, body: DeclBody::Enum(variants) }
}

/// Checks each variant's names, that each is read back from its reading
/// name, and the error for an unknown string.
fn check(e: &Enum, cases: &[(&str, &str)], error: &str) {
    assert_eq!(e.variants.len(), cases.len());
    for (i, (as_str, from_str)) in cases.iter().enumerate() {
        assert_eq!(e.serialize_name(i), *as_str);
        assert_eq!(e.deserialize_name(i), *from_str);
        assert_eq!(e.find_variant(from_str), Some(i));
    }
    assert_eq!(e.find_variant("invalid"), None);
    assert_eq!(e.invalid_variant_message(), error);
}

#[test]
fn test_empty_enum() {
    let e = Enum::parse(&decl(vec![], vec![])).unwrap();
    assert_eq!(e.variants.len(), 0);
    assert_eq!(e.find_variant("invalid"), None);
    assert_eq!(e.invalid_variant_message(), "invalid variant");
    assert_eq!(InvalidVariantError::new(&[]).message(), "invalid variant");
}

#[test]
fn test_non_exhaustive() {
    let e = Enum::parse(&decl(
        vec![attr(vec![ident("non_exhaustive")])],
        vec![variant("Alpha", vec![]), variant("Beta", vec![])],
    ))
    .unwrap();
    assert!(e.non_exhaustive);
    check(
        &e,
        &[("Alpha", "Alpha"), ("Beta", "Beta")],
        "invalid variant, expected one of: Alpha or Beta",
    );
}

#[test]
fn non_exhaustive_changes_no_name() {
    let variants = vec![variant("SelectOne", vec![]), variant("SelectTwo", vec![])];
    let plain = Enum::parse(&decl(vec![str_eq_attr("kebab-case")], variants.clone())).unwrap();
    let marked = Enum::parse(&decl(
        vec![str_eq_attr("kebab-case"), attr(vec![ident("non_exhaustive")])],
        variants,
    ))
    .unwrap();
    assert!(!plain.non_exhaustive);
    assert!(marked.non_exhaustive);
    assert_eq!(plain.serialize_names(), marked.serialize_names());
    assert_eq!(plain.deserialize_names(), marked.deserialize_names());
    assert_eq!(marked.serialize_names(), vec!["select-one", "select-two"]);
}

#[test]
fn test_with_rename_rule() {
    let e = Enum::parse(&decl(
        vec![str_eq_attr("camelCase")],
        vec![
            variant("SelectOne", vec![]),
            variant("SelectTwo", vec![]),
            variant("Override", vec![str_eq_attr("OVERRIDE")]),
        ],
    ))
    .unwrap();
    check(
        &e,
        &[
            ("selectOne", "selectOne"),
            ("selectTwo", "selectTwo"),
            ("OVERRIDE", "OVERRIDE"),
        ],
        "invalid variant, expected one of: selectOne, selectTwo or OVERRIDE",
    );
}

#[test]
fn test_with_serde_rules() {
    let e = Enum::parse(&decl(
        vec![serde_eq_attr("rename_all", "camelCase")],
        vec![
            variant("SelectOne", vec![]),
            variant("SelectTwo", vec![]),
            variant("Override", vec![serde_eq_attr("rename", "OVERRIDE")]),
        ],
    ))
    .unwrap();
    check(
        &e,
        &[
            ("selectOne", "selectOne"),
            ("selectTwo", "selectTwo"),
            ("OVERRIDE", "OVERRIDE"),
        ],
        "invalid variant, expected one of: selectOne, selectTwo or OVERRIDE",
    );
}

#[test]
fn test_with_mixed_serde_rules() {
    let e = Enum::parse(&decl(
        vec![serde_list_attr(
            "rename_all",
            &[("serialize", "camelCase"), ("deserialize", "snake_case")],
        )],
        vec![
            variant(
                "SelectOne",
                vec![serde_list_attr("rename", &[("deserialize", "select1")])],
            ),
            variant(
                "SelectTwo",
                vec![serde_list_attr("rename", &[("serialize", "select2")])],
            ),
            variant("Override", vec![serde_eq_attr("rename", "OVERRIDE")]),
        ],
    ))
    .unwrap();
    check(
        &e,
        &[
            ("selectOne", "select1"),
            ("select2", "select_two"),
            ("OVERRIDE", "OVERRIDE"),
        ],
        "invalid variant, expected one of: select1, select_two or OVERRIDE",
    );
}

#[test]
fn test_with_ignore_serde_rules() {
    let e = Enum::parse(&decl(
        vec![
            serde_list_attr(
                "rename_all",
                &[("serialize", "camelCase"), ("deserialize", "snake_case")],
            ),
            str_eq_attr("PascalCase"),
        ],
        vec![
            variant(
                "SelectOne",
                vec![
                    serde_list_attr("rename", &[("deserialize", "select1")]),
                    str_eq_attr("SelectOne"),
                ],
            ),
            variant(
                "SelectTwo",
                vec![
                    serde_list_attr("rename", &[("serialize", "select2")]),
                    str_eq_attr("SelectTwo"),
                ],
            ),
            variant(
                "Override",
                vec![serde_eq_attr("rename", "OVERRIDE"), str_eq_attr("Override")],
            ),
        ],
    ))
    .unwrap();
    check(
        &e,
        &[
            ("SelectOne", "SelectOne"),
            ("SelectTwo", "SelectTwo"),
            ("Override", "Override"),
        ],
        "invalid variant, expected one of: SelectOne, SelectTwo or Override",
    );
}

#[test]
fn native_override_wins_in_either_order() {
    for attrs in [
        vec![str_eq_attr("SelectOne"), serde_eq_attr("rename", "select1")],
        vec![serde_eq_attr("rename", "select1"), str_eq_attr("SelectOne")],
    ] {
        let e = Enum::parse(&decl(vec![], vec![variant("First", attrs)])).unwrap();
        assert_eq!(e.serialize_name(0), "SelectOne");
        assert_eq!(e.deserialize_name(0), "SelectOne");
    }
}

#[test]
fn first_serde_rename_wins() {
    let e = Enum::parse(&decl(
        vec![],
        vec![variant(
            "First",
            vec![serde_eq_attr("rename", "one"), serde_eq_attr("rename", "two")],
        )],
    ))
    .unwrap();
    assert_eq!(e.serialize_name(0), "one");
}

#[test]
fn other_serde_keys_are_ignored() {
    let a = attr(vec![
        ident("serde"),
        open(),
        ident("tag"),
        punct('='),
        lit("type"),
        punct(','),
        ident("bound"),
        open(),
        ident("serialize"),
        punct('='),
        lit("T: X"),
        punct(','),
        ident("rename_all"),
        punct('='),
        lit("x"),
        close(),
        punct(','),
        ident("rename_all"),
        punct('='),
        lit("UPPERCASE"),
        punct(','),
        ident("deny_unknown_fields"),
        close(),
    ]);
    let e = Enum::parse(&decl(vec![a], vec![variant("First", vec![])])).unwrap();
    assert_eq!(e.rename_all, Some(RenameAttr::Both(RenameRule::UpperCase)));
    assert_eq!(e.serialize_name(0), "FIRST");
}

#[test]
fn override_beats_type_rule() {
    let e = Enum::parse(&decl(
        vec![str_eq_attr("camelCase")],
        vec![variant("Override", vec![str_eq_attr("OVERRIDE")])],
    ))
    .unwrap();
    assert_eq!(e.serialize_name(0), "OVERRIDE");
}

#[test]
fn round_trip_without_renames() {
    let e = Enum::parse(&decl(
        vec![],
        vec![variant("A", vec![]), variant("B", vec![]), variant("C", vec![])],
    ))
    .unwrap();
    for i in 0..3 {
        assert_eq!(e.find_variant(&e.serialize_name(i)), Some(i));
    }
    assert_eq!(e.find_variant("D"), None);
    assert_eq!(e.find_variant("a"), None);
}

#[test]
fn single_expected_name() {
    let e = Enum::parse(&decl(vec![], vec![variant("Only", vec![])])).unwrap();
    assert_eq!(e.invalid_variant_message(), "invalid variant, expected Only");
    assert_eq!(
        InvalidVariantError::new(&["Only"]).message(),
        "invalid variant, expected Only"
    );
    assert_eq!(
        InvalidVariantError::new(&["a", "b", "c", "d"]).message(),
        "invalid variant, expected one of: a, b, c or d"
    );
}

#[test]
fn escaped_literal_is_decoded() {
    let t = Token::Literal("\"a\\u{42}\\n\"".to_string());
    assert_eq!(t.string_literal(), Some("aB\n".to_string()));
    assert_eq!(Token::Literal("42".to_string()).string_literal(), None);
    let e = Enum::parse(&decl(
        vec![],
        vec![variant(
            "First",
            vec![attr(vec![
                ident("str"),
                punct('='),
                Token::Literal("r\"x\\y\"".to_string()),
            ])],
        )],
    ))
    .unwrap();
    assert_eq!(e.serialize_name(0), "x\\y");
}

fn attr_error(a: Attribute) -> AttrError {
    match Attrs::parse_attrs(&vec![a], "rename") {
        Err(e) => e,
        Ok(_) => panic!("attribute accepted"),
    }
}

#[test]
fn attribute_errors() {
    assert_eq!(attr_error(attr(vec![ident("str")])), AttrError::ExpectedStrValue);
    assert_eq!(
        attr_error(attr(vec![ident("str"), lit("x")])),
        AttrError::ExpectedStrValue
    );
    assert_eq!(
        attr_error(attr(vec![
            ident("str"),
            Token::Open(Delimiter::Bracket),
            Token::Close(Delimiter::Bracket)
        ])),
        AttrError::ExpectedEqOrParen
    );
    assert_eq!(
        attr_error(attr(vec![ident("str"), punct('='), ident("x")])),
        AttrError::ExpectedStringLiteral
    );
    assert_eq!(
        attr_error(attr(vec![ident("str"), punct('='), lit("x"), lit("y")])),
        AttrError::UnexpectedToken
    );
    assert_eq!(
        attr_error(attr(vec![ident("str"), open(), lit("x"), close()])),
        AttrError::ExpectedIdent
    );
    assert_eq!(
        attr_error(attr(vec![ident("str"), open(), ident("serialize"), lit("x"), close()])),
        AttrError::ExpectedEq
    );
    assert_eq!(
        attr_error(attr(vec![
            ident("str"),
            open(),
            ident("other"),
            punct('='),
            lit("x"),
            close()
        ])),
        AttrError::ExpectedSerializeOrDeserialize
    );
    assert_eq!(
        attr_error(attr(vec![
            ident("str"),
            open(),
            ident("serialize"),
            punct('='),
            lit("x"),
            punct(';'),
            close()
        ])),
        AttrError::ExpectedComma
    );
    assert_eq!(
        attr_error(serde_list_attr("rename", &[("serialize", "a"), ("serialize", "b")])),
        AttrError::DuplicateSerialize
    );
    assert_eq!(
        attr_error(serde_list_attr("rename", &[("deserialize", "a"), ("deserialize", "b")])),
        AttrError::DuplicateDeserialize
    );
    assert_eq!(
        attr_error(serde_list_attr(
            "rename",
            &[("serialize", "a"), ("deserialize", "b"), ("serialize", "c")]
        )),
        AttrError::ExpectedSerializeOrDeserialize
    );
    assert_eq!(
        attr_error(attr(vec![
            ident("str"),
            open(),
            ident("serialize"),
            punct('='),
            lit("x"),
            close(),
            punct('=')
        ])),
        AttrError::UnexpectedToken
    );
    assert_eq!(
        AttrError::ExpectedStrValue.message(),
        "expected #[str = \"...\"]"
    );
}

#[test]
fn duplicate_native_attribute() {
    let r = Attrs::parse_attrs(&vec![str_eq_attr("a"), str_eq_attr("b")], "rename");
    assert_eq!(r, Err(AttrError::DuplicateStrAttribute));
}

#[test]
fn explicit_both_in_either_order() {
    let a = Attrs::parse_attrs(
        &vec![serde_list_attr("rename", &[("deserialize", "d"), ("serialize", "s")])],
        "rename",
    )
    .unwrap();
    let r = a.rename.unwrap();
    assert_eq!(
        r,
        RenameAttr::ExplicitBoth { serialize: "s".to_string(), deserialize: "d".to_string() }
    );
    assert_eq!(r.serialize_ref().map(|s| s.as_str()), Some("s"));
    assert_eq!(r.deserialize_ref().map(|s| s.as_str()), Some("d"));
    let only: RenameAttr<u8> = RenameAttr::SerializeOnly(1);
    assert_eq!(only.serialize_ref(), Some(&1));
    assert_eq!(only.deserialize_ref(), None);
}

#[test]
fn derive_errors() {
    let s = TypeDecl { ident: "S".to_string(), attrs: vec![], body: DeclBody::Struct };
    assert_eq!(Enum::parse(&s), Err(DeriveError::ExpectedEnum));
    let u = TypeDecl { ident: "U".to_string(), attrs: vec![], body: DeclBody::Union };
    assert_eq!(Enum::parse(&u), Err(DeriveError::ExpectedEnum));
    let mut v = variant("Tuple", vec![]);
    v.is_unit = false;
    assert_eq!(Enum::parse(&decl(vec![], vec![v])), Err(DeriveError::ExpectedUnitVariant));
    let bad = Enum::parse(&decl(vec![str_eq_attr("Snake")], vec![])).unwrap_err();
    match &bad {
        DeriveError::UnknownRenameRule(e) => assert_eq!(e.unknown(), "Snake"),
        _ => panic!("wrong error"),
    }
    assert!(bad.message().starts_with("unknown rename rule `rename_all = \"Snake\"`"));
    let attr_bad = Enum::parse(&decl(vec![attr(vec![ident("str")])], vec![])).unwrap_err();
    assert_eq!(attr_bad, DeriveError::Attr(AttrError::ExpectedStrValue));
    assert_eq!(DeriveError::ExpectedEnum.message(), "expected enum");
    assert_eq!(DeriveError::ExpectedUnitVariant.message(), "expected unit variant");
}

#[test]
fn path_attributes_are_skipped() {
    let e = Enum::parse(&decl(
        vec![
            attr(vec![ident("doc"), punct('='), lit("text")]),
            attr(vec![ident("serde"), punct(':'), punct(':'), ident("x")]),
            attr(vec![ident("derive"), open(), ident("Debug"), close()]),
        ],
        vec![variant("First", vec![])],
    ))
    .unwrap();
    assert_eq!(e.rename_all, None);
    assert!(!e.non_exhaustive);
}

#[test]
fn lookup_ignoring_ascii_case() {
    let e = Enum::parse(&decl(
        vec![str_eq_attr("snake_case")],
        vec![variant("SelectOne", vec![]), variant("SelectTwo", vec![])],
    ))
    .unwrap();
    assert_eq!(e.find_variant_ignore_ascii_case("SELECT_TWO"), Some(1));
    assert_eq!(e.find_variant_ignore_ascii_case("select_one"), Some(0));
    assert_eq!(e.find_variant("SELECT_TWO"), None);
    assert_eq!(e.find_variant_ignore_ascii_case("selectone"), None);
}
