use get_set_core::accessor::{AccessorSpec, FieldDescriptor};
use get_set_core::directive::{DirectiveBlock, Flag, FlagEntry};
use get_set_core::error::ErrorKind;
use get_set_core::kinds::{AccessorKind, Inline, Visibility};
use get_set_core::options::{OptionKey, OptionSet, Setting};
use get_set_core::resolver::FieldAccessorSet;

fn set(rename: Option<&str>, inline: Option<Inline>, visibility: Option<Visibility>) -> OptionSet {
    OptionSet { rename: rename.map(|name| name.to_string()), inline, visibility }
}

fn entry(flag: Flag, settings: Vec<Setting>) -> FlagEntry {
    FlagEntry { flag, settings }
}

fn getter() -> Flag {
    Flag::Accessor(AccessorKind::GetterByReference)
}

#[test]
fn empty_set_defines_nothing() {
    let empty = OptionSet::empty();
    assert_eq!(empty, set(None, None, None));
    assert_eq!(OptionSet::default(), empty);
    assert!(!empty.defines(OptionKey::Rename));
    assert!(!empty.defines(OptionKey::Inline));
    assert!(!empty.defines(OptionKey::Visibility));
}

#[test]
fn set_from_one_setting() {
    assert_eq!(
        OptionSet::from_setting(Setting::Rename("x".to_string())),
        set(Some("x"), None, None)
    );
    assert_eq!(
        OptionSet::from_setting(Setting::Inline(Inline::Unmarked)),
        set(None, Some(Inline::Unmarked), None)
    );
    assert_eq!(
        OptionSet::from_setting(Setting::Visibility(Visibility::Inherited)),
        set(None, None, Some(Visibility::Inherited))
    );
    assert!(OptionSet::from_setting(Setting::Inline(Inline::Unmarked)).defines(OptionKey::Inline));
}

#[test]
fn setting_keys() {
    assert_eq!(Setting::Rename("x".to_string()).key(), OptionKey::Rename);
    assert_eq!(Setting::Inline(Inline::Always).key(), OptionKey::Inline);
    assert_eq!(Setting::Visibility(Visibility::Public).key(), OptionKey::Visibility);
}

#[test]
fn merge_primary_wins_ties() {
    let primary = set(Some("a"), Some(Inline::Never), Some(Visibility::Public));
    let fallback = set(Some("b"), Some(Inline::Always), Some(Visibility::Inherited));
    assert_eq!(
        primary.merge(fallback),
        set(Some("a"), Some(Inline::Never), Some(Visibility::Public))
    );
}

#[test]
fn merge_fallback_fills_the_gaps() {
    let primary = set(None, Some(Inline::Never), None);
    let fallback = set(Some("b"), Some(Inline::Always), Some(Visibility::Public));
    assert_eq!(
        primary.merge(fallback),
        set(Some("b"), Some(Inline::Never), Some(Visibility::Public))
    );
}

#[test]
fn merge_with_empty_changes_nothing() {
    let some = set(Some("a"), None, Some(Visibility::Public));
    assert_eq!(some.clone().merge(OptionSet::empty()), some);
    assert_eq!(OptionSet::empty().merge(some.clone()), some);
    assert_eq!(OptionSet::empty().merge(OptionSet::empty()), OptionSet::empty());
}

#[test]
fn merge_is_associative() {
    let a = set(None, Some(Inline::Never), None);
    let b = set(Some("b"), Some(Inline::Always), None);
    let c = set(Some("c"), None, Some(Visibility::Public));
    assert_eq!(
        a.clone().merge(b.clone()).merge(c.clone()),
        a.clone().merge(b.clone().merge(c.clone()))
    );
    assert_eq!(a.merge(b).merge(c), set(Some("b"), Some(Inline::Never), Some(Visibility::Public)));
}

#[test]
fn explicit_unmarked_is_a_value() {
    let primary = set(None, Some(Inline::Unmarked), None);
    let fallback = set(None, Some(Inline::Always), None);
    assert_eq!(primary.merge(fallback), set(None, Some(Inline::Unmarked), None));
}

#[test]
fn settings_collect_into_a_set() {
    assert_eq!(OptionSet::from_settings(&vec![]), Ok(OptionSet::empty()));
    assert_eq!(
        OptionSet::from_settings(&vec![
            Setting::Visibility(Visibility::Public),
            Setting::Rename("x".to_string()),
            Setting::Inline(Inline::Sometimes),
        ]),
        Ok(set(Some("x"), Some(Inline::Sometimes), Some(Visibility::Public)))
    );
}

#[test]
fn repeated_setting_key_is_a_duplicate() {
    assert_eq!(
        OptionSet::from_settings(&vec![
            Setting::Rename("x".to_string()),
            Setting::Inline(Inline::Sometimes),
            Setting::Rename("y".to_string()),
        ]),
        Err(ErrorKind::DuplicateDirective)
    );
    assert_eq!(
        OptionSet::from_settings(&vec![
            Setting::Inline(Inline::Sometimes),
            Setting::Inline(Inline::Sometimes),
        ]),
        Err(ErrorKind::DuplicateDirective)
    );
}

#[test]
fn entries_gather_into_a_block() {
    let block = DirectiveBlock::from_entries(&vec![
        entry(Flag::Accessor(AccessorKind::Setter), vec![Setting::Inline(Inline::Never)]),
        entry(Flag::Default, vec![Setting::Rename("d".to_string())]),
        entry(getter(), vec![]),
    ])
    .unwrap();
    assert_eq!(
        block,
        DirectiveBlock {
            skip: false,
            default: Some(set(Some("d"), None, None)),
            getter: Some(OptionSet::empty()),
            copier: None,
            setter: Some(set(None, Some(Inline::Never), None)),
        }
    );
    assert!(block.names(AccessorKind::GetterByReference));
    assert!(!block.names(AccessorKind::GetterByValue));
    assert!(block.names(AccessorKind::Setter));
    assert!(block.holds(Flag::Default));
    assert!(!block.holds(Flag::Skip));
    assert_eq!(block.defaults(), set(Some("d"), None, None));
    assert_eq!(block.settings_for(AccessorKind::Setter), set(None, Some(Inline::Never), None));
    assert_eq!(block.settings_for(AccessorKind::GetterByValue), OptionSet::empty());
}

#[test]
fn no_entries_are_the_empty_block() {
    assert_eq!(DirectiveBlock::from_entries(&vec![]), Ok(DirectiveBlock::empty()));
    assert_eq!(DirectiveBlock::empty().defaults(), OptionSet::empty());
    assert!(!DirectiveBlock::empty().skip);
}

#[test]
fn skip_entry_ends_the_block() {
    let skipped = DirectiveBlock::skipped();
    assert!(skipped.skip);
    assert_eq!(
        DirectiveBlock::from_entries(&vec![
            entry(getter(), vec![Setting::Inline(Inline::Never)]),
            entry(getter(), vec![]),
            entry(Flag::Skip, vec![]),
            entry(Flag::Default, vec![]),
        ]),
        Ok(DirectiveBlock::skipped())
    );
}

#[test]
fn repeated_flag_is_a_duplicate() {
    assert_eq!(
        DirectiveBlock::from_entries(&vec![entry(getter(), vec![]), entry(getter(), vec![])]),
        Err(ErrorKind::DuplicateDirective)
    );
    assert_eq!(
        DirectiveBlock::from_entries(&vec![
            entry(Flag::Default, vec![]),
            entry(getter(), vec![]),
            entry(Flag::Default, vec![]),
        ]),
        Err(ErrorKind::DuplicateDirective)
    );
    assert_eq!(
        DirectiveBlock::from_entries(&vec![entry(
            getter(),
            vec![Setting::Rename("a".to_string()), Setting::Rename("b".to_string())]
        )]),
        Err(ErrorKind::DuplicateDirective)
    );
}

#[test]
fn block_from_text() {
    assert_eq!(
        DirectiveBlock::parse("default(inline), get_copy(vis = \"pub\")"),
        Ok(DirectiveBlock {
            skip: false,
            default: Some(set(None, Some(Inline::Sometimes), None)),
            getter: None,
            copier: Some(set(None, None, Some(Visibility::Public))),
            setter: None,
        })
    );
    assert_eq!(DirectiveBlock::parse("get, skip, get"), Ok(DirectiveBlock::skipped()));
    assert_eq!(DirectiveBlock::parse("get, get"), Err(ErrorKind::DuplicateDirective));
    assert_eq!(DirectiveBlock::parse("get, got"), Err(ErrorKind::MalformedDirective));
    assert_eq!(DirectiveBlock::parse("get, get, got"), Err(ErrorKind::MalformedDirective));
}

#[test]
fn layers_in_their_order() {
    let local = DirectiveBlock::parse("default(inline), get(rename = \"own\")").unwrap();
    let global = DirectiveBlock::parse("default(vis = \"pub\", inline_never), get(inline_always)")
        .unwrap();
    assert_eq!(
        FieldAccessorSet::layered(AccessorKind::GetterByReference, &local, &global),
        set(Some("own"), Some(Inline::Sometimes), Some(Visibility::Public))
    );
    assert_eq!(
        FieldAccessorSet::layered(AccessorKind::Setter, &local, &global),
        set(None, Some(Inline::Sometimes), Some(Visibility::Public))
    );
    assert_eq!(
        FieldAccessorSet::layered(AccessorKind::GetterByReference, &DirectiveBlock::empty(), &global),
        set(None, Some(Inline::Always), Some(Visibility::Public))
    );
}

#[test]
fn resolve_from_blocks() {
    let local = DirectiveBlock::parse("set").unwrap();
    let global = DirectiveBlock::parse("get").unwrap();
    let resolved = FieldAccessorSet::resolve(FieldDescriptor::new("x", "u8", false), &local, &global)
        .unwrap();
    let names: Vec<&str> = resolved.specs.iter().map(|spec| spec.name.as_str()).collect();
    assert_eq!(names, vec!["set_x", "get_x"]);
    assert!(!resolved.skip);
    assert_eq!(
        FieldAccessorSet::resolve(
            FieldDescriptor::new("x", "u8", false),
            &DirectiveBlock::parse("get, get_copy").unwrap(),
            &DirectiveBlock::empty(),
        ),
        Err(ErrorKind::AccessorNameCollision)
    );
    let skipped = FieldAccessorSet::resolve(
        FieldDescriptor::new("x", "u8", false),
        &DirectiveBlock::skipped(),
        &global,
    )
    .unwrap();
    assert!(skipped.skip);
    assert!(skipped.specs.is_empty());
}

#[test]
fn synthesize_uses_rename_or_default_name() {
    let field = FieldDescriptor::new("age", "u32", false);
    let plain = AccessorSpec::synthesize(AccessorKind::Setter, OptionSet::empty(), &field);
    assert_eq!(plain.kind, AccessorKind::Setter);
    assert_eq!(plain.name, "set_age");
    assert_eq!(plain.inline, Inline::Unmarked);
    assert_eq!(plain.visibility, Visibility::Inherited);
    let full = AccessorSpec::synthesize(
        AccessorKind::GetterByValue,
        set(Some("years"), Some(Inline::Always), Some(Visibility::Public)),
        &field,
    );
    assert_eq!(full.kind, AccessorKind::GetterByValue);
    assert_eq!(full.name, "years");
    assert_eq!(full.inline, Inline::Always);
    assert_eq!(full.visibility, Visibility::Public);
}

#[test]
fn synthesize_with_default_name_ignores_the_rename() {
    let field = FieldDescriptor::new("age", "u32", false);
    let spec = AccessorSpec::synthesize_with_default_name(
        AccessorKind::GetterByValue,
        set(Some("years"), Some(Inline::Always), Some(Visibility::Public)),
        &field,
    );
    assert_eq!(spec.kind, AccessorKind::GetterByValue);
    assert_eq!(spec.name, "get_age");
    assert_eq!(spec.inline, Inline::Always);
    assert_eq!(spec.visibility, Visibility::Public);
}

#[test]
fn copies_keep_their_value() {
    let visibility = Visibility::Restricted {
        scoped: true,
        absolute: true,
        segments: vec!["a".to_string(), "b".to_string()],
    };
    assert_eq!(visibility.clone(), visibility);
    let setting = Setting::Visibility(visibility.clone());
    assert_eq!(setting.clone(), setting);
    let options = set(Some("n"), Some(Inline::Never), Some(visibility));
    assert_eq!(options.clone(), options);
    let field = FieldDescriptor::new("x", "&u8", true);
    assert_eq!(field.clone(), field);
    assert_eq!(field.name, "x");
    assert_eq!(field.ty.text, "&u8");
    assert!(field.ty.reference);
}
