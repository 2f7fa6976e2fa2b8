use get_set_core::directive::{Flag, FlagEntry};
use get_set_core::error::ErrorKind;
use get_set_core::grammar::{parse_flags, FlagSyntax, SettingSyntax};
use get_set_core::kinds::{AccessorKind, Inline, Visibility};
use get_set_core::lexer::{tokenize, CharClass, Token};
use get_set_core::options::Setting;
use get_set_core::text::{characters, same_text};
use get_set_core::vocabulary::parse_directive;

fn word(text: &str) -> Token {
    Token::Word(text.to_string())
}

fn quoted(text: &str) -> Token {
    Token::Text(text.to_string())
}

fn bare(flag: Flag) -> FlagEntry {
    FlagEntry { flag, settings: vec![] }
}

#[test]
fn characters_of_a_text() {
    assert_eq!(characters("a,é"), vec!['a', ',', 'é']);
    assert_eq!(characters(""), Vec::<char>::new());
}

#[test]
fn same_text_compares_spelling() {
    assert!(same_text("get", "get"));
    assert!(!same_text("get", "get_copy"));
    assert!(!same_text("get", "set"));
    assert!(same_text("", ""));
    assert!(!same_text("é", "e"));
}

#[test]
fn char_classes() {
    assert!(CharClass::Word.holds('a'));
    assert!(CharClass::Word.holds('Z'));
    assert!(CharClass::Word.holds('_'));
    assert!(CharClass::Word.holds('7'));
    assert!(!CharClass::Word.holds('-'));
    assert!(!CharClass::Word.holds('é'));
    assert!(CharClass::Text.holds('('));
    assert!(CharClass::Text.holds(' '));
    assert!(!CharClass::Text.holds('"'));
    assert!(!CharClass::Text.holds('\\'));
}

#[test]
fn tokenize_empty_and_blank() {
    assert_eq!(tokenize(""), Some(vec![]));
    assert_eq!(tokenize(" \t\r\n"), Some(vec![]));
}

#[test]
fn tokenize_flags_and_settings() {
    assert_eq!(
        tokenize("get, set(rename = \"draft\", inline_never)"),
        Some(vec![
            word("get"),
            Token::Comma,
            word("set"),
            Token::Open,
            word("rename"),
            Token::Equals,
            quoted("draft"),
            Token::Comma,
            word("inline_never"),
            Token::Close,
        ])
    );
}

#[test]
fn tokenize_needs_no_white_space() {
    assert_eq!(
        tokenize("a=\"b\"(c)"),
        Some(vec![
            word("a"),
            Token::Equals,
            quoted("b"),
            Token::Open,
            word("c"),
            Token::Close,
        ])
    );
}

#[test]
fn tokenize_keeps_quoted_text_as_written() {
    assert_eq!(tokenize("\"pub(in a::b)\""), Some(vec![quoted("pub(in a::b)")]));
    assert_eq!(tokenize("\"\""), Some(vec![quoted("")]));
    assert_eq!(tokenize("\" x \""), Some(vec![quoted(" x ")]));
}

#[test]
fn tokenize_word_runs_to_the_first_other_character() {
    assert_eq!(tokenize("get_copy2"), Some(vec![word("get_copy2")]));
    assert_eq!(tokenize("_x y"), Some(vec![word("_x"), word("y")]));
}

#[test]
fn tokenize_rejects_what_starts_no_token() {
    assert_eq!(tokenize("get;"), None);
    assert_eq!(tokenize("1get"), None);
    assert_eq!(tokenize("a::b"), None);
    assert_eq!(tokenize("gét"), None);
}

#[test]
fn tokenize_rejects_open_quote_and_backslash() {
    assert_eq!(tokenize("rename = \"draft"), None);
    assert_eq!(tokenize("\""), None);
    assert_eq!(tokenize("\"a\\\"b\""), None);
    assert_eq!(tokenize("\"a\\n\""), None);
}

#[test]
fn parse_flags_of_nothing() {
    assert_eq!(parse_flags(&vec![]), Some(vec![]));
}

#[test]
fn parse_flags_bare_and_bracketed() {
    let tokens = tokenize("get, set(), get_copy(inline, vis = \"pub\")").unwrap();
    assert_eq!(
        parse_flags(&tokens),
        Some(vec![
            FlagSyntax { name: "get".to_string(), settings: vec![] },
            FlagSyntax { name: "set".to_string(), settings: vec![] },
            FlagSyntax {
                name: "get_copy".to_string(),
                settings: vec![
                    SettingSyntax::Word("inline".to_string()),
                    SettingSyntax::Assignment("vis".to_string(), "pub".to_string()),
                ],
            },
        ])
    );
}

#[test]
fn parse_flags_accepts_trailing_commas() {
    let tokens = tokenize("get(inline,),").unwrap();
    assert_eq!(
        parse_flags(&tokens),
        Some(vec![FlagSyntax {
            name: "get".to_string(),
            settings: vec![SettingSyntax::Word("inline".to_string())],
        }])
    );
}

#[test]
fn parse_flags_knows_no_vocabulary() {
    let tokens = tokenize("anything(at = \"all\")").unwrap();
    assert_eq!(
        parse_flags(&tokens),
        Some(vec![FlagSyntax {
            name: "anything".to_string(),
            settings: vec![SettingSyntax::Assignment("at".to_string(), "all".to_string())],
        }])
    );
}

#[test]
fn parse_flags_rejects_bad_shapes() {
    let bad = [
        ",",
        "get,,set",
        "get set",
        "get(",
        "get)",
        "get(inline",
        "get(,)",
        "get(inline,,inline_never)",
        "get(inline inline_never)",
        "get(rename =)",
        "get(rename = draft)",
        "get(= \"draft\")",
        "get(\"draft\")",
        "get(set(inline))",
        "\"get\"",
        "= get",
        "get()()",
    ];
    for text in bad {
        let tokens = tokenize(text).unwrap();
        assert_eq!(parse_flags(&tokens), None, "{}", text);
    }
}

#[test]
fn parse_directive_empty_block() {
    assert_eq!(parse_directive(""), Ok(vec![]));
    assert_eq!(parse_directive("   "), Ok(vec![]));
}

#[test]
fn parse_directive_every_flag() {
    assert_eq!(
        parse_directive("get, get_copy, set, skip, default"),
        Ok(vec![
            bare(Flag::Accessor(AccessorKind::GetterByReference)),
            bare(Flag::Accessor(AccessorKind::GetterByValue)),
            bare(Flag::Accessor(AccessorKind::Setter)),
            bare(Flag::Skip),
            bare(Flag::Default),
        ])
    );
}

#[test]
fn parse_directive_keeps_the_order_written() {
    assert_eq!(
        parse_directive("set, get, set"),
        Ok(vec![
            bare(Flag::Accessor(AccessorKind::Setter)),
            bare(Flag::Accessor(AccessorKind::GetterByReference)),
            bare(Flag::Accessor(AccessorKind::Setter)),
        ])
    );
}

#[test]
fn parse_directive_every_inline_policy() {
    assert_eq!(
        parse_directive("default(inline, inline_always, inline_never, noinline)"),
        Ok(vec![FlagEntry {
            flag: Flag::Default,
            settings: vec![
                Setting::Inline(Inline::Sometimes),
                Setting::Inline(Inline::Always),
                Setting::Inline(Inline::Never),
                Setting::Inline(Inline::Unmarked),
            ],
        }])
    );
}

#[test]
fn parse_directive_rename_and_visibility() {
    assert_eq!(
        parse_directive("get_copy(rename = \"draft\", inline_never, vis = \"pub(crate)\")"),
        Ok(vec![FlagEntry {
            flag: Flag::Accessor(AccessorKind::GetterByValue),
            settings: vec![
                Setting::Rename("draft".to_string()),
                Setting::Inline(Inline::Never),
                Setting::Visibility(Visibility::Restricted {
                    scoped: false,
                    absolute: false,
                    segments: vec!["crate".to_string()],
                }),
            ],
        }])
    );
}

#[test]
fn rename_is_read_as_an_identifier() {
    assert_eq!(
        parse_directive("get(rename = \"  spaced \")"),
        Ok(vec![FlagEntry {
            flag: Flag::Accessor(AccessorKind::GetterByReference),
            settings: vec![Setting::Rename("spaced".to_string())],
        }])
    );
    assert_eq!(
        parse_directive("get(rename = \"r#type\")"),
        Ok(vec![FlagEntry {
            flag: Flag::Accessor(AccessorKind::GetterByReference),
            settings: vec![Setting::Rename("r#type".to_string())],
        }])
    );
}

#[test]
fn rename_rejects_what_is_no_identifier() {
    let bad = ["", "1abc", "a b", "a-b", "fn", "self", "_", "a::b", "\u{1F600}", "a,"];
    for value in bad {
        let text = format!("get(rename = \"{}\")", value);
        assert_eq!(parse_directive(&text), Err(ErrorKind::MalformedDirective), "{}", value);
    }
}

#[test]
fn visibility_is_read_as_a_visibility() {
    let read = |value: &str| {
        let text = format!("get(vis = \"{}\")", value);
        match parse_directive(&text) {
            Ok(mut entries) => match entries.remove(0).settings.remove(0) {
                Setting::Visibility(visibility) => visibility,
                other => panic!("no visibility: {:?}", other),
            },
            Err(kind) => panic!("{}: {:?}", value, kind),
        }
    };
    assert_eq!(read(""), Visibility::Inherited);
    assert_eq!(read("  "), Visibility::Inherited);
    assert_eq!(read("pub"), Visibility::Public);
    assert_eq!(
        read("pub(super)"),
        Visibility::Restricted {
            scoped: false,
            absolute: false,
            segments: vec!["super".to_string()],
        }
    );
    assert_eq!(
        read("pub(self)"),
        Visibility::Restricted { scoped: false, absolute: false, segments: vec!["self".to_string()] }
    );
    assert_eq!(
        read("pub(in crate::a::b)"),
        Visibility::Restricted {
            scoped: true,
            absolute: false,
            segments: vec!["crate".to_string(), "a".to_string(), "b".to_string()],
        }
    );
    assert_eq!(
        read("pub(in ::a)"),
        Visibility::Restricted { scoped: true, absolute: true, segments: vec!["a".to_string()] }
    );
}

#[test]
fn visibility_rejects_what_is_no_visibility() {
    let bad = ["public", "private", "pub(", "pub pub", "pub(in)", "pub(a)", "crate", "pub fn"];
    for value in bad {
        let text = format!("get(vis = \"{}\")", value);
        assert_eq!(parse_directive(&text), Err(ErrorKind::MalformedDirective), "{}", value);
    }
}

#[test]
fn parse_directive_rejects_unknown_words() {
    let bad = [
        "fetch",
        "Get",
        "getter",
        "get(fast)",
        "get(Inline)",
        "get(name = \"x\")",
        "get(visibility = \"pub\")",
        "get(rename)",
        "get(vis)",
        "get(inline = \"always\")",
        "get, put",
    ];
    for text in bad {
        assert_eq!(parse_directive(text), Err(ErrorKind::MalformedDirective), "{}", text);
    }
}

#[test]
fn parse_directive_rejects_bad_text() {
    let bad = ["get,,set", "get(", "get(rename = draft)", "get(rename = \"draft)", "get; set", "#"];
    for text in bad {
        assert_eq!(parse_directive(text), Err(ErrorKind::MalformedDirective), "{}", text);
    }
}

#[test]
fn skip_takes_no_settings() {
    assert_eq!(parse_directive("skip()"), Ok(vec![bare(Flag::Skip)]));
    assert_eq!(parse_directive("skip(inline)"), Err(ErrorKind::MalformedDirective));
    assert_eq!(parse_directive("skip(rename = \"x\")"), Err(ErrorKind::MalformedDirective));
}

#[test]
fn parse_directive_does_not_judge_duplicates() {
    assert_eq!(
        parse_directive("get, get(inline, inline)"),
        Ok(vec![
            bare(Flag::Accessor(AccessorKind::GetterByReference)),
            FlagEntry {
                flag: Flag::Accessor(AccessorKind::GetterByReference),
                settings: vec![Setting::Inline(Inline::Sometimes), Setting::Inline(Inline::Sometimes)],
            },
        ])
    );
}

#[test]
fn keywords_by_name() {
    assert_eq!(Inline::from_keyword("inline"), Some(Inline::Sometimes));
    assert_eq!(Inline::from_keyword("inline_always"), Some(Inline::Always));
    assert_eq!(Inline::from_keyword("inline_never"), Some(Inline::Never));
    assert_eq!(Inline::from_keyword("noinline"), Some(Inline::Unmarked));
    assert_eq!(Inline::from_keyword("never"), None);
    assert_eq!(AccessorKind::from_keyword("get"), Ok(AccessorKind::GetterByReference));
    assert_eq!(AccessorKind::from_keyword("get_copy"), Ok(AccessorKind::GetterByValue));
    assert_eq!(AccessorKind::from_keyword("set"), Ok(AccessorKind::Setter));
    assert_eq!(AccessorKind::from_keyword("skip"), Err(ErrorKind::MalformedDirective));
    assert_eq!(Flag::from_keyword("skip"), Ok(Flag::Skip));
    assert_eq!(Flag::from_keyword("default"), Ok(Flag::Default));
    assert_eq!(Flag::from_keyword("set"), Ok(Flag::Accessor(AccessorKind::Setter)));
    assert_eq!(Flag::from_keyword(""), Err(ErrorKind::MalformedDirective));
}

#[test]
fn settings_from_what_was_read() {
    assert_eq!(Setting::renamed(Some("x".to_string())), Ok(Setting::Rename("x".to_string())));
    assert_eq!(Setting::renamed(None), Err(ErrorKind::MalformedDirective));
    assert_eq!(
        Setting::visible(Some(Visibility::Public)),
        Ok(Setting::Visibility(Visibility::Public))
    );
    assert_eq!(Setting::visible(None), Err(ErrorKind::MalformedDirective));
}

#[test]
fn setting_from_syntax() {
    assert_eq!(
        Setting::from_syntax(&SettingSyntax::Word("inline_always".to_string())),
        Ok(Setting::Inline(Inline::Always))
    );
    assert_eq!(
        Setting::from_syntax(&SettingSyntax::Assignment("rename".to_string(), "x".to_string())),
        Ok(Setting::Rename("x".to_string()))
    );
    assert_eq!(
        Setting::from_syntax(&SettingSyntax::Assignment("vis".to_string(), "pub".to_string())),
        Ok(Setting::Visibility(Visibility::Public))
    );
    assert_eq!(
        Setting::from_syntax(&SettingSyntax::Word("rename".to_string())),
        Err(ErrorKind::MalformedDirective)
    );
    assert_eq!(
        Setting::from_syntax(&SettingSyntax::Assignment("inline".to_string(), "x".to_string())),
        Err(ErrorKind::MalformedDirective)
    );
}

#[test]
fn flag_entry_from_syntax() {
    assert_eq!(
        FlagEntry::from_syntax(&FlagSyntax {
            name: "default".to_string(),
            settings: vec![SettingSyntax::Word("noinline".to_string())],
        }),
        Ok(FlagEntry { flag: Flag::Default, settings: vec![Setting::Inline(Inline::Unmarked)] })
    );
    assert_eq!(
        FlagEntry::from_syntax(&FlagSyntax { name: "nope".to_string(), settings: vec![] }),
        Err(ErrorKind::MalformedDirective)
    );
}
