//! The shape of a directive block, before any word of it is given a meaning.
//!
//! A block is a list of flags, separated by commas. A flag is a word, optionally followed
//! by a list of settings in round brackets. A setting is a word, or a word, an equals sign
//! and a quoted text. Either list may be empty and may end in a comma.

use vstd::prelude::*;

use crate::lexer::{Token, TokenView};

verus! {

/// A setting as written.
#[derive(Debug, PartialEq, Eq)]
pub enum SettingSyntax {
    /// A bare word.
    Word(String),
    /// `key = "value"`
    Assignment(String, String),
}

/// A written setting as a mathematical value.
pub enum SettingSyntaxView {
    Word(Seq<char>),
    Assignment(Seq<char>, Seq<char>),
}

impl View for SettingSyntax {
    type V = SettingSyntaxView;

    open spec fn view(&self) -> SettingSyntaxView {
        match *self {
            SettingSyntax::Word(word) => SettingSyntaxView::Word(word@),
            SettingSyntax::Assignment(key, value) => SettingSyntaxView::Assignment(key@, value@),
        }
    }
}

impl DeepView for SettingSyntax {
    type V = SettingSyntaxView;

    open spec fn deep_view(&self) -> SettingSyntaxView {
        self.view()
    }
}

/// A flag as written: its word, and its settings in the order written.
#[derive(Debug, PartialEq, Eq)]
pub struct FlagSyntax {
    pub name: String,
    pub settings: Vec<SettingSyntax>,
}

/// A written flag as a mathematical value.
pub struct FlagSyntaxView {
    pub name: Seq<char>,
    pub settings: Seq<SettingSyntaxView>,
}

impl View for FlagSyntax {
    type V = FlagSyntaxView;

    open spec fn view(&self) -> FlagSyntaxView {
        FlagSyntaxView { name: self.name@, settings: self.settings.deep_view() }
    }
}

impl DeepView for FlagSyntax {
    type V = FlagSyntaxView;

    open spec fn deep_view(&self) -> FlagSyntaxView {
        self.view()
    }
}

/// The setting that starts at token `i`, and the place after it. A word followed by an
/// equals sign must be followed by a quoted text.
pub open spec fn setting_at(t: Seq<TokenView>, i: int) -> Option<(SettingSyntaxView, int)> {
    if 0 <= i < t.len() && t[i] is Word {
        if i + 1 < t.len() && t[i + 1] is Equals {
            if i + 2 < t.len() && t[i + 2] is Text {
                Some((SettingSyntaxView::Assignment(t[i]->Word_0, t[i + 2]->Text_0), i + 3))
            } else {
                None
            }
        } else {
            Some((SettingSyntaxView::Word(t[i]->Word_0), i + 1))
        }
    } else {
        None
    }
}

/// `setting` in front of the settings of `rest`, where there is a rest.
pub open spec fn with_setting(
    setting: SettingSyntaxView,
    rest: Option<(Seq<SettingSyntaxView>, int)>,
) -> Option<(Seq<SettingSyntaxView>, int)> {
    match rest {
        Some((settings, end)) => Some((seq![setting] + settings, end)),
        None => None,
    }
}

/// The settings from token `i` up to the closing bracket, and the place after that
/// bracket. Token `i` is the first after the opening bracket or after a comma.
pub open spec fn settings_from(t: Seq<TokenView>, i: int) -> Option<(Seq<SettingSyntaxView>, int)>
    decreases t.len() - i,
{
    if !(0 <= i < t.len()) {
        None
    } else if t[i] is Close {
        Some((seq![], i + 1))
    } else {
        match setting_at(t, i) {
            Some((setting, next)) => if next < t.len() && t[next] is Close {
                Some((seq![setting], next + 1))
            } else if next < t.len() && t[next] is Comma {
                with_setting(setting, settings_from(t, next + 1))
            } else {
                None
            },
            None => None,
        }
    }
}

/// The flag that starts at token `i`, and the place after it.
pub open spec fn flag_at(t: Seq<TokenView>, i: int) -> Option<(FlagSyntaxView, int)> {
    if 0 <= i < t.len() && t[i] is Word {
        if i + 1 < t.len() && t[i + 1] is Open {
            match settings_from(t, i + 2) {
                Some((settings, end)) => Some((FlagSyntaxView { name: t[i]->Word_0, settings }, end)),
                None => None,
            }
        } else {
            Some((FlagSyntaxView { name: t[i]->Word_0, settings: seq![] }, i + 1))
        }
    } else {
        None
    }
}

/// `flag` in front of `rest`, where there is a rest.
pub open spec fn with_flag(flag: FlagSyntaxView, rest: Option<Seq<FlagSyntaxView>>) -> Option<
    Seq<FlagSyntaxView>,
> {
    match rest {
        Some(flags) => Some(seq![flag] + flags),
        None => None,
    }
}

/// The flags from token `i` to the end. Token `i` is the first of the block or the first
/// after a comma.
pub open spec fn flags_from(t: Seq<TokenView>, i: int) -> Option<Seq<FlagSyntaxView>>
    decreases t.len() - i,
    via flags_from_terminates
{
    if !(0 <= i < t.len()) {
        Some(seq![])
    } else {
        match flag_at(t, i) {
            Some((flag, next)) => if next >= t.len() {
                Some(seq![flag])
            } else if t[next] is Comma {
                with_flag(flag, flags_from(t, next + 1))
            } else {
                None
            },
            None => None,
        }
    }
}

#[via_fn]
proof fn flags_from_terminates(t: Seq<TokenView>, i: int) {
    if 0 <= i < t.len() {
        lemma_flag_advances(t, i);
    }
}

/// The flags that the tokens of a block spell.
pub open spec fn flags_of(t: Seq<TokenView>) -> Option<Seq<FlagSyntaxView>> {
    flags_from(t, 0)
}

/// A list of settings ends after where it starts, and within the tokens.
pub proof fn lemma_settings_advance(t: Seq<TokenView>, i: int)
    requires
        0 <= i,
    ensures
        settings_from(t, i) matches Some((_, end)) ==> i < end <= t.len(),
    decreases t.len() - i,
{
    if 0 <= i < t.len() && !(t[i] is Close) {
        match setting_at(t, i) {
            Some((_, next)) => {
                if next < t.len() && t[next] is Comma {
                    lemma_settings_advance(t, next + 1);
                }
            },
            None => {},
        }
    }
}

/// A flag ends after where it starts, and within the tokens.
pub proof fn lemma_flag_advances(t: Seq<TokenView>, i: int)
    requires
        0 <= i,
    ensures
        flag_at(t, i) matches Some((_, end)) ==> i < end <= t.len(),
{
    lemma_settings_advance(t, i + 2);
}

/// `rest` behind `settings`, where there is a rest.
pub open spec fn settings_then(
    settings: Seq<SettingSyntaxView>,
    rest: Option<(Seq<SettingSyntaxView>, int)>,
) -> Option<(Seq<SettingSyntaxView>, int)> {
    match rest {
        Some((more, end)) => Some((settings + more, end)),
        None => None,
    }
}

/// `rest` behind `flags`, where there is a rest.
pub open spec fn flags_then(flags: Seq<FlagSyntaxView>, rest: Option<Seq<FlagSyntaxView>>) -> Option<
    Seq<FlagSyntaxView>,
> {
    match rest {
        Some(more) => Some(flags + more),
        None => None,
    }
}

proof fn lemma_settings_then(
    settings: Seq<SettingSyntaxView>,
    setting: SettingSyntaxView,
    rest: Option<(Seq<SettingSyntaxView>, int)>,
)
    ensures
        settings_then(settings, with_setting(setting, rest)) == settings_then(
            settings.push(setting),
            rest,
        ),
{
    if let Some((more, _)) = rest {
        assert(settings + (seq![setting] + more) =~= settings.push(setting) + more);
    }
}

proof fn lemma_flags_then(
    flags: Seq<FlagSyntaxView>,
    flag: FlagSyntaxView,
    rest: Option<Seq<FlagSyntaxView>>,
)
    ensures
        flags_then(flags, with_flag(flag, rest)) == flags_then(flags.push(flag), rest),
{
    if rest is Some {
        assert(flags + (seq![flag] + rest->0) =~= flags.push(flag) + rest->0);
    }
}

/// Reads the setting that starts at token `i`.
fn read_setting(tokens: &Vec<Token>, i: usize) -> (read: Option<(SettingSyntax, usize)>)
    ensures
        match read {
            Some((setting, next)) => setting_at(tokens.deep_view(), i as int) == Some(
                (setting@, next as int),
            ) && i < next <= tokens.len(),
            None => setting_at(tokens.deep_view(), i as int) is None,
        },
{
    let ghost t = tokens.deep_view();
    if i >= tokens.len() {
        return None;
    }
    assert(t[i as int] == tokens[i as int]@);
    let word = match &tokens[i] {
        Token::Word(word) => word.clone(),
        _ => {
            return None;
        },
    };
    let assigned = if tokens.len() - i > 1 {
        assert(t[i + 1] == tokens[i + 1]@);
        match &tokens[i + 1] {
            Token::Equals => true,
            _ => false,
        }
    } else {
        false
    };
    if !assigned {
        return Some((SettingSyntax::Word(word), i + 1));
    }
    if tokens.len() - i > 2 {
        assert(t[i + 2] == tokens[i + 2]@);
        match &tokens[i + 2] {
            Token::Text(value) => Some((SettingSyntax::Assignment(word, value.clone()), i + 3)),
            _ => None,
        }
    } else {
        None
    }
}

/// Reads the settings from token `start` up to the closing bracket.
fn read_settings(tokens: &Vec<Token>, start: usize) -> (read: Option<(Vec<SettingSyntax>, usize)>)
    ensures
        match read {
            Some((settings, end)) => settings_from(tokens.deep_view(), start as int) == Some(
                (settings.deep_view(), end as int),
            ) && start < end <= tokens.len(),
            None => settings_from(tokens.deep_view(), start as int) is None,
        },
{
    let ghost t = tokens.deep_view();
    let mut settings: Vec<SettingSyntax> = Vec::new();
    let mut i: usize = start;
    assert(settings.deep_view() =~= Seq::<SettingSyntaxView>::empty());
    assert(settings_then(Seq::empty(), settings_from(t, i as int)) == settings_from(t, i as int))
        by {
        if let Some((more, _)) = settings_from(t, i as int) {
            assert(Seq::<SettingSyntaxView>::empty() + more =~= more);
        }
    }
    while i < tokens.len()
        invariant
            t == tokens.deep_view(),
            start <= i,
            settings_from(t, start as int) == settings_then(
                settings.deep_view(),
                settings_from(t, i as int),
            ),
        decreases tokens.len() - i,
    {
        let ghost before = settings.deep_view();
        assert(t[i as int] == tokens[i as int]@);
        if let Token::Close = &tokens[i] {
            assert(before + Seq::<SettingSyntaxView>::empty() =~= before);
            return Some((settings, i + 1));
        }
        let (setting, next) = match read_setting(tokens, i) {
            Some(read) => read,
            None => {
                return None;
            },
        };
        if next >= tokens.len() {
            return None;
        }
        assert(t[next as int] == tokens[next as int]@);
        match &tokens[next] {
            Token::Close => {
                settings.push(setting);
                assert(settings.deep_view() =~= before + seq![setting@]);
                return Some((settings, next + 1));
            },
            Token::Comma => {
                proof {
                    lemma_settings_then(before, setting@, settings_from(t, next + 1));
                }
                settings.push(setting);
                assert(settings.deep_view() =~= before.push(setting@));
                i = next + 1;
            },
            _ => {
                return None;
            },
        }
    }
    None
}

/// Reads the flag that starts at token `i`.
fn read_flag(tokens: &Vec<Token>, i: usize) -> (read: Option<(FlagSyntax, usize)>)
    ensures
        match read {
            Some((flag, next)) => flag_at(tokens.deep_view(), i as int) == Some(
                (flag@, next as int),
            ) && i < next <= tokens.len(),
            None => flag_at(tokens.deep_view(), i as int) is None,
        },
{
    let ghost t = tokens.deep_view();
    if i >= tokens.len() {
        return None;
    }
    assert(t[i as int] == tokens[i as int]@);
    let name = match &tokens[i] {
        Token::Word(word) => word.clone(),
        _ => {
            return None;
        },
    };
    let bracketed = if tokens.len() - i > 1 {
        assert(t[i + 1] == tokens[i + 1]@);
        match &tokens[i + 1] {
            Token::Open => true,
            _ => false,
        }
    } else {
        false
    };
    if !bracketed {
        let settings: Vec<SettingSyntax> = Vec::new();
        assert(settings.deep_view() =~= Seq::<SettingSyntaxView>::empty());
        return Some((FlagSyntax { name, settings }, i + 1));
    }
    match read_settings(tokens, i + 2) {
        Some((settings, end)) => Some((FlagSyntax { name, settings }, end)),
        None => None,
    }
}

/// Reads the flags that the tokens of a block spell.
///
/// Gives nothing exactly where the tokens are not a list of flags as the grammar has it.
pub fn parse_flags(tokens: &Vec<Token>) -> (flags: Option<Vec<FlagSyntax>>)
    ensures
        flags.deep_view() == flags_of(tokens.deep_view()),
{
    let ghost t = tokens.deep_view();
    let mut flags: Vec<FlagSyntax> = Vec::new();
    let mut i: usize = 0;
    assert(flags.deep_view() =~= Seq::<FlagSyntaxView>::empty());
    assert(flags_then(Seq::empty(), flags_from(t, 0)) == flags_from(t, 0)) by {
        if flags_from(t, 0) is Some {
            assert(Seq::<FlagSyntaxView>::empty() + flags_from(t, 0)->0 =~= flags_from(t, 0)->0);
        }
    }
    while i < tokens.len()
        invariant
            t == tokens.deep_view(),
            flags_from(t, 0) == flags_then(flags.deep_view(), flags_from(t, i as int)),
        decreases tokens.len() - i,
    {
        let ghost before = flags.deep_view();
        let (flag, next) = match read_flag(tokens, i) {
            Some(read) => read,
            None => {
                return None;
            },
        };
        if next >= tokens.len() {
            flags.push(flag);
            assert(flags.deep_view() =~= before + seq![flag@]);
            return Some(flags);
        }
        assert(t[next as int] == tokens[next as int]@);
        match &tokens[next] {
            Token::Comma => {
                proof {
                    lemma_flags_then(before, flag@, flags_from(t, next + 1));
                }
                flags.push(flag);
                assert(flags.deep_view() =~= before.push(flag@));
                i = next + 1;
            },
            _ => {
                return None;
            },
        }
    }
    assert(flags.deep_view() + Seq::<FlagSyntaxView>::empty() =~= flags.deep_view());
    Some(flags)
}

} // verus!
