//! The meaning of the words of a directive block.
//!
//! The flags are `get`, `get_copy`, `set`, `skip` and `default`. The settings are the inline
//! policies `inline`, `inline_always`, `inline_never` and `noinline`, and the two
//! assignments `rename = "identifier"` and `vis = "visibility"`. Anything else is a
//! malformed directive.

use vstd::prelude::*;

use crate::directive::{DirectiveBlock, DirectiveBlockView, Flag, FlagEntry, FlagEntryView};
use crate::error::ErrorKind;
use crate::grammar::{
    flags_of,
    parse_flags,
    FlagSyntax,
    FlagSyntaxView,
    SettingSyntax,
    SettingSyntaxView,
};
use crate::kinds::{AccessorKind, Inline, Visibility, VisibilityView};
use crate::lexer::{tokenize, tokens_of};
use crate::options::{Setting, SettingView};
use crate::syntax::{identifier_of, parse_identifier, parse_visibility, visibility_of};
use crate::text::same_text;

verus! {

/// The inline policy that `word` names, if it names one.
pub open spec fn inline_keyword(word: Seq<char>) -> Option<Inline> {
    if word == "inline"@ {
        Some(Inline::Sometimes)
    } else if word == "inline_always"@ {
        Some(Inline::Always)
    } else if word == "inline_never"@ {
        Some(Inline::Never)
    } else if word == "noinline"@ {
        Some(Inline::Unmarked)
    } else {
        None
    }
}

/// The accessor kind that `word` names, if it names one.
pub open spec fn kind_keyword(word: Seq<char>) -> Option<AccessorKind> {
    if word == "get"@ {
        Some(AccessorKind::GetterByReference)
    } else if word == "get_copy"@ {
        Some(AccessorKind::GetterByValue)
    } else if word == "set"@ {
        Some(AccessorKind::Setter)
    } else {
        None
    }
}

/// The flag that `word` names, if it names one.
pub open spec fn flag_keyword(word: Seq<char>) -> Option<Flag> {
    if word == "skip"@ {
        Some(Flag::Skip)
    } else if word == "default"@ {
        Some(Flag::Default)
    } else {
        match kind_keyword(word) {
            Some(kind) => Some(Flag::Accessor(kind)),
            None => None,
        }
    }
}

/// The rename that a value amounts to, once it has been read as an identifier.
pub open spec fn rename_of(identifier: Option<Seq<char>>) -> Option<SettingView> {
    match identifier {
        Some(name) => Some(SettingView::Rename(name)),
        None => None,
    }
}

/// The visibility setting that a value amounts to, once it has been read as a visibility.
pub open spec fn visibility_setting_of(visibility: Option<VisibilityView>) -> Option<SettingView> {
    match visibility {
        Some(visibility) => Some(SettingView::Visibility(visibility)),
        None => None,
    }
}

/// The setting that a written setting means, if it means one.
pub open spec fn setting_of(syntax: SettingSyntaxView) -> Option<SettingView> {
    match syntax {
        SettingSyntaxView::Word(word) => match inline_keyword(word) {
            Some(policy) => Some(SettingView::Inline(policy)),
            None => None,
        },
        SettingSyntaxView::Assignment(key, value) => if key == "rename"@ {
            rename_of(identifier_of(value))
        } else if key == "vis"@ {
            visibility_setting_of(visibility_of(value))
        } else {
            None
        },
    }
}

/// The settings that written settings mean, if every one of them means one.
pub open spec fn settings_of(list: Seq<SettingSyntaxView>) -> Option<Seq<SettingView>> {
    if forall|i: int| 0 <= i < list.len() ==> setting_of(#[trigger] list[i]) is Some {
        Some(list.map_values(|syntax: SettingSyntaxView| setting_of(syntax)->0))
    } else {
        None
    }
}

/// The entry that a written flag means, if it means one: its word is a flag, each of its
/// settings means one, and `skip` has none.
pub open spec fn entry_of(syntax: FlagSyntaxView) -> Option<FlagEntryView> {
    match (flag_keyword(syntax.name), settings_of(syntax.settings)) {
        (Some(flag), Some(settings)) => if flag == Flag::Skip && settings.len() > 0 {
            None
        } else {
            Some(FlagEntryView { flag, settings })
        },
        _ => None,
    }
}

/// The entries that written flags mean, if every one of them means one.
pub open spec fn entries_of(list: Seq<FlagSyntaxView>) -> Option<Seq<FlagEntryView>> {
    if forall|i: int| 0 <= i < list.len() ==> entry_of(#[trigger] list[i]) is Some {
        Some(list.map_values(|syntax: FlagSyntaxView| entry_of(syntax)->0))
    } else {
        None
    }
}

/// The entries that the text of a directive block spells; nothing where the text is no
/// directive block.
pub open spec fn parse(text: Seq<char>) -> Option<Seq<FlagEntryView>> {
    match tokens_of(text) {
        Some(tokens) => match flags_of(tokens) {
            Some(flags) => entries_of(flags),
            None => None,
        },
        None => None,
    }
}

/// The block that the text of a directive block amounts to.
pub open spec fn block_of(text: Seq<char>) -> Result<DirectiveBlockView, ErrorKind> {
    match parse(text) {
        Some(entries) => DirectiveBlockView::collect(entries),
        None => Err(ErrorKind::MalformedDirective),
    }
}

impl Inline {
    /// The inline policy that `word` names, if it names one.
    pub fn from_keyword(word: &str) -> (policy: Option<Inline>)
        ensures
            policy == inline_keyword(word@),
    {
        if same_text(word, "inline") {
            Some(Inline::Sometimes)
        } else if same_text(word, "inline_always") {
            Some(Inline::Always)
        } else if same_text(word, "inline_never") {
            Some(Inline::Never)
        } else if same_text(word, "noinline") {
            Some(Inline::Unmarked)
        } else {
            None
        }
    }
}

impl AccessorKind {
    /// The accessor kind that `word` names: `get`, `get_copy` or `set`. Any other word is a
    /// malformed directive.
    pub fn from_keyword(word: &str) -> (kind: Result<AccessorKind, ErrorKind>)
        ensures
            match kind_keyword(word@) {
                Some(named) => kind == Ok::<AccessorKind, ErrorKind>(named),
                None => kind == Err::<AccessorKind, ErrorKind>(ErrorKind::MalformedDirective),
            },
    {
        if same_text(word, "get") {
            Ok(AccessorKind::GetterByReference)
        } else if same_text(word, "get_copy") {
            Ok(AccessorKind::GetterByValue)
        } else if same_text(word, "set") {
            Ok(AccessorKind::Setter)
        } else {
            Err(ErrorKind::MalformedDirective)
        }
    }
}

impl Flag {
    /// The flag that `word` names: `skip`, `default` or an accessor kind. Any other word is
    /// a malformed directive.
    pub fn from_keyword(word: &str) -> (flag: Result<Flag, ErrorKind>)
        ensures
            match flag_keyword(word@) {
                Some(named) => flag == Ok::<Flag, ErrorKind>(named),
                None => flag == Err::<Flag, ErrorKind>(ErrorKind::MalformedDirective),
            },
    {
        if same_text(word, "skip") {
            Ok(Flag::Skip)
        } else if same_text(word, "default") {
            Ok(Flag::Default)
        } else {
            match AccessorKind::from_keyword(word) {
                Ok(kind) => Ok(Flag::Accessor(kind)),
                Err(kind) => Err(kind),
            }
        }
    }
}

/// A setting or a failure, as a mathematical value.
pub open spec fn outcome_view(outcome: Result<Setting, ErrorKind>) -> Result<
    SettingView,
    ErrorKind,
> {
    match outcome {
        Ok(setting) => Ok(setting@),
        Err(kind) => Err(kind),
    }
}

/// What reading a setting gives: the setting, or a malformed directive where there is none.
pub open spec fn or_malformed(setting: Option<SettingView>) -> Result<SettingView, ErrorKind> {
    match setting {
        Some(setting) => Ok(setting),
        None => Err(ErrorKind::MalformedDirective),
    }
}

impl Setting {
    /// The rename to `identifier`, the value of `rename = ".."` read as an identifier. A
    /// value that is no identifier is a malformed directive.
    pub fn renamed(identifier: Option<String>) -> (setting: Result<Setting, ErrorKind>)
        ensures
            outcome_view(setting) == or_malformed(rename_of(identifier.deep_view())),
    {
        match identifier {
            Some(name) => Ok(Setting::Rename(name)),
            None => Err(ErrorKind::MalformedDirective),
        }
    }

    /// The setting of `visibility`, the value of `vis = ".."` read as a visibility. A value
    /// that is no visibility is a malformed directive.
    pub fn visible(visibility: Option<Visibility>) -> (setting: Result<Setting, ErrorKind>)
        ensures
            outcome_view(setting) == or_malformed(visibility_setting_of(visibility.deep_view())),
    {
        match visibility {
            Some(visibility) => Ok(Setting::Visibility(visibility)),
            None => Err(ErrorKind::MalformedDirective),
        }
    }

    /// The setting that a written setting means.
    ///
    /// A bare word must name an inline policy. An assignment must be to `rename`, with an
    /// identifier as its value, or to `vis`, with a visibility as its value. Everything
    /// else is a malformed directive.
    pub fn from_syntax(syntax: &SettingSyntax) -> (setting: Result<Setting, ErrorKind>)
        ensures
            outcome_view(setting) == or_malformed(setting_of(syntax@)),
    {
        match syntax {
            SettingSyntax::Word(word) => match Inline::from_keyword(word.as_str()) {
                Some(policy) => Ok(Setting::Inline(policy)),
                None => Err(ErrorKind::MalformedDirective),
            },
            SettingSyntax::Assignment(key, value) => {
                if same_text(key.as_str(), "rename") {
                    Setting::renamed(parse_identifier(value.as_str()))
                } else if same_text(key.as_str(), "vis") {
                    Setting::visible(parse_visibility(value.as_str()))
                } else {
                    Err(ErrorKind::MalformedDirective)
                }
            },
        }
    }

    /// The settings that written settings mean, in their order; a malformed directive
    /// where one of them means none.
    pub fn all_from_syntax(list: &Vec<SettingSyntax>) -> (settings: Result<Vec<Setting>, ErrorKind>)
        ensures
            match settings {
                Ok(settings) => settings_of(list.deep_view()) == Some(settings.deep_view()),
                Err(kind) => kind == ErrorKind::MalformedDirective && settings_of(list.deep_view())
                    is None,
            },
    {
        let ghost all = list.deep_view();
        let mut settings: Vec<Setting> = Vec::new();
        let mut i: usize = 0;
        while i < list.len()
            invariant
                i <= list.len(),
                all == list.deep_view(),
                settings.len() == i,
                forall|k: int| 0 <= k < i ==> setting_of(#[trigger] all[k]) == Some(settings[k]@),
            decreases list.len() - i,
        {
            assert(all[i as int] == list[i as int]@);
            match Setting::from_syntax(&list[i]) {
                Ok(setting) => {
                    settings.push(setting);
                },
                Err(kind) => {
                    assert(setting_of(all[i as int]) is None);
                    return Err(kind);
                },
            }
            i += 1;
        }
        assert(settings.deep_view() =~= all.map_values(
            |syntax: SettingSyntaxView| setting_of(syntax)->0,
        ));
        Ok(settings)
    }
}

impl FlagEntry {
    /// The entry that a written flag means.
    ///
    /// The word must name a flag, each setting must mean one, and `skip` takes no
    /// settings. Everything else is a malformed directive.
    pub fn from_syntax(syntax: &FlagSyntax) -> (entry: Result<FlagEntry, ErrorKind>)
        ensures
            match entry {
                Ok(entry) => entry_of(syntax@) == Some(entry@),
                Err(kind) => kind == ErrorKind::MalformedDirective && entry_of(syntax@) is None,
            },
    {
        let flag = match Flag::from_keyword(syntax.name.as_str()) {
            Ok(flag) => flag,
            Err(kind) => {
                return Err(kind);
            },
        };
        let settings = match Setting::all_from_syntax(&syntax.settings) {
            Ok(settings) => settings,
            Err(kind) => {
                return Err(kind);
            },
        };
        if let Flag::Skip = flag {
            if settings.len() > 0 {
                return Err(ErrorKind::MalformedDirective);
            }
        }
        Ok(FlagEntry { flag, settings })
    }
}

/// Parses the text of one directive block into its flag entries, in the order written.
///
/// Fails, with a malformed directive, exactly where the text is no directive block: where
/// it does not split into tokens, the tokens are no list of flags, a word is no flag or no
/// setting, `skip` carries settings, or a value is no identifier or no visibility.
pub fn parse_directive(text: &str) -> (entries: Result<Vec<FlagEntry>, ErrorKind>)
    ensures
        match entries {
            Ok(entries) => parse(text@) == Some(entries.deep_view()),
            Err(kind) => kind == ErrorKind::MalformedDirective && parse(text@) is None,
        },
{
    let tokens = match tokenize(text) {
        Some(tokens) => tokens,
        None => {
            return Err(ErrorKind::MalformedDirective);
        },
    };
    let flags = match parse_flags(&tokens) {
        Some(flags) => flags,
        None => {
            return Err(ErrorKind::MalformedDirective);
        },
    };
    let ghost all = flags.deep_view();
    let mut entries: Vec<FlagEntry> = Vec::new();
    let mut i: usize = 0;
    while i < flags.len()
        invariant
            i <= flags.len(),
            all == flags.deep_view(),
            parse(text@) == entries_of(all),
            entries.len() == i,
            forall|k: int| 0 <= k < i ==> entry_of(#[trigger] all[k]) == Some(entries[k]@),
        decreases flags.len() - i,
    {
        assert(all[i as int] == flags[i as int]@);
        match FlagEntry::from_syntax(&flags[i]) {
            Ok(entry) => {
                entries.push(entry);
            },
            Err(kind) => {
                assert(entry_of(all[i as int]) is None);
                return Err(kind);
            },
        }
        i += 1;
    }
    assert(entries.deep_view() =~= all.map_values(|syntax: FlagSyntaxView| entry_of(syntax)->0));
    Ok(entries)
}

impl DirectiveBlock {
    /// Parses the text of one directive block and gathers its entries into a block.
    ///
    /// Fails with a malformed directive where the text is no directive block; otherwise,
    /// unless the block holds `skip`, with a duplicate directive where a flag or a setting
    /// key stands twice.
    pub fn parse(text: &str) -> (block: Result<DirectiveBlock, ErrorKind>)
        ensures
            match block {
                Ok(block) => block_of(text@) == Ok::<DirectiveBlockView, ErrorKind>(block@)
                    && block@.well_formed(),
                Err(kind) => block_of(text@) == Err::<DirectiveBlockView, ErrorKind>(kind),
            },
    {
        match parse_directive(text) {
            Ok(entries) => DirectiveBlock::from_entries(&entries),
            Err(kind) => Err(kind),
        }
    }
}

} // verus!
