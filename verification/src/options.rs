//! Settings and the partial record they fill.
//!
//! An [`OptionSet`] holds at most one value for each overridable property of a method. Layers
//! of such sets are combined with [`OptionSet::merge`], in which the first set that defines a
//! property decides it; every precedence rule of the resolver is a chain of merges.

use vstd::prelude::*;

use crate::error::ErrorKind;
use crate::kinds::{Inline, Visibility, VisibilityView};

verus! {

/// One overridable property of a method, with its value.
#[derive(Debug, PartialEq, Eq)]
pub enum Setting {
    /// The method's name.
    Rename(String),
    /// The method's inline hint.
    Inline(Inline),
    /// The method's visibility.
    Visibility(Visibility),
}

/// A setting as a mathematical value.
pub enum SettingView {
    Rename(Seq<char>),
    Inline(Inline),
    Visibility(VisibilityView),
}

/// The property that a setting decides.
#[derive(Clone, Copy, Debug, PartialEq, Eq, Structural)]
pub enum OptionKey {
    Rename,
    Inline,
    Visibility,
}

impl SettingView {
    /// The property that this setting decides.
    pub open spec fn key(self) -> OptionKey {
        match self {
            SettingView::Rename(_) => OptionKey::Rename,
            SettingView::Inline(_) => OptionKey::Inline,
            SettingView::Visibility(_) => OptionKey::Visibility,
        }
    }
}

impl View for Setting {
    type V = SettingView;

    open spec fn view(&self) -> SettingView {
        match *self {
            Setting::Rename(name) => SettingView::Rename(name@),
            Setting::Inline(policy) => SettingView::Inline(policy),
            Setting::Visibility(visibility) => SettingView::Visibility(visibility@),
        }
    }
}

impl DeepView for Setting {
    type V = SettingView;

    open spec fn deep_view(&self) -> SettingView {
        self.view()
    }
}

impl Clone for Setting {
    fn clone(&self) -> (copy: Setting)
        ensures
            copy@ == self@,
    {
        match self {
            Setting::Rename(name) => Setting::Rename(name.clone()),
            Setting::Inline(policy) => Setting::Inline(*policy),
            Setting::Visibility(visibility) => Setting::Visibility(visibility.clone()),
        }
    }
}

impl Setting {
    /// The property that this setting decides.
    pub fn key(&self) -> (key: OptionKey)
        ensures
            key == self@.key(),
    {
        match self {
            Setting::Rename(_) => OptionKey::Rename,
            Setting::Inline(_) => OptionKey::Inline,
            Setting::Visibility(_) => OptionKey::Visibility,
        }
    }
}

/// A partial record of the overridable properties of a method.
#[derive(Debug, PartialEq, Eq)]
pub struct OptionSet {
    pub rename: Option<String>,
    pub inline: Option<Inline>,
    pub visibility: Option<Visibility>,
}

/// An option set as a mathematical value.
pub struct OptionSetView {
    pub rename: Option<Seq<char>>,
    pub inline: Option<Inline>,
    pub visibility: Option<VisibilityView>,
}

impl OptionSetView {
    /// The set that defines nothing.
    pub open spec fn empty() -> OptionSetView {
        OptionSetView { rename: None, inline: None, visibility: None }
    }

    /// The set that defines exactly what `setting` says.
    pub open spec fn of(setting: SettingView) -> OptionSetView {
        match setting {
            SettingView::Rename(name) => OptionSetView {
                rename: Some(name),
                inline: None,
                visibility: None,
            },
            SettingView::Inline(policy) => OptionSetView {
                rename: None,
                inline: Some(policy),
                visibility: None,
            },
            SettingView::Visibility(visibility) => OptionSetView {
                rename: None,
                inline: None,
                visibility: Some(visibility),
            },
        }
    }

    /// Whether this set holds a value for `key`.
    pub open spec fn defines(self, key: OptionKey) -> bool {
        match key {
            OptionKey::Rename => self.rename is Some,
            OptionKey::Inline => self.inline is Some,
            OptionKey::Visibility => self.visibility is Some,
        }
    }

    /// Property by property, the value of `self` where it has one, else that of `fallback`.
    pub open spec fn merge(self, fallback: OptionSetView) -> OptionSetView {
        OptionSetView {
            rename: if self.rename is Some {
                self.rename
            } else {
                fallback.rename
            },
            inline: if self.inline is Some {
                self.inline
            } else {
                fallback.inline
            },
            visibility: if self.visibility is Some {
                self.visibility
            } else {
                fallback.visibility
            },
        }
    }

    /// Whether no two of `settings` decide the same property.
    pub open spec fn distinct_keys(settings: Seq<SettingView>) -> bool {
        forall|i: int, j: int|
            0 <= i < j < settings.len() ==> (#[trigger] settings[i]).key() != (
            #[trigger] settings[j]).key()
    }

    /// The set that the settings of one flag amount to, taken from left to right; nothing
    /// where two of them decide the same property.
    pub open spec fn collect(settings: Seq<SettingView>) -> Option<OptionSetView>
        decreases settings.len(),
    {
        if settings.len() == 0 {
            Some(OptionSetView::empty())
        } else {
            match OptionSetView::collect(settings.drop_last()) {
                Some(earlier) => if earlier.defines(settings.last().key()) {
                    None
                } else {
                    Some(earlier.merge(OptionSetView::of(settings.last())))
                },
                None => None,
            }
        }
    }
}

impl View for OptionSet {
    type V = OptionSetView;

    open spec fn view(&self) -> OptionSetView {
        OptionSetView {
            rename: self.rename.deep_view(),
            inline: self.inline,
            visibility: self.visibility.deep_view(),
        }
    }
}

impl DeepView for OptionSet {
    type V = OptionSetView;

    open spec fn deep_view(&self) -> OptionSetView {
        self.view()
    }
}

impl Clone for OptionSet {
    fn clone(&self) -> (copy: OptionSet)
        ensures
            copy@ == self@,
    {
        OptionSet {
            rename: match &self.rename {
                Some(name) => Some(name.clone()),
                None => None,
            },
            inline: self.inline,
            visibility: match &self.visibility {
                Some(visibility) => Some(visibility.clone()),
                None => None,
            },
        }
    }
}

impl Default for OptionSet {
    fn default() -> (set: OptionSet)
        ensures
            set@ == OptionSetView::empty(),
    {
        OptionSet::empty()
    }
}

impl OptionSet {
    /// The set that defines nothing.
    pub fn empty() -> (set: OptionSet)
        ensures
            set@ == OptionSetView::empty(),
    {
        OptionSet { rename: None, inline: None, visibility: None }
    }

    /// The set that defines exactly what `setting` says.
    pub fn from_setting(setting: Setting) -> (set: OptionSet)
        ensures
            set@ == OptionSetView::of(setting@),
    {
        match setting {
            Setting::Rename(name) => OptionSet { rename: Some(name), inline: None, visibility: None },
            Setting::Inline(policy) => OptionSet {
                rename: None,
                inline: Some(policy),
                visibility: None,
            },
            Setting::Visibility(visibility) => OptionSet {
                rename: None,
                inline: None,
                visibility: Some(visibility),
            },
        }
    }

    /// Whether this set holds a value for `key`.
    pub fn defines(&self, key: OptionKey) -> (held: bool)
        ensures
            held == self@.defines(key),
    {
        match key {
            OptionKey::Rename => self.rename.is_some(),
            OptionKey::Inline => self.inline.is_some(),
            OptionKey::Visibility => self.visibility.is_some(),
        }
    }

    /// Property by property, the value of `self` where it has one, else that of `fallback`.
    pub fn merge(self, fallback: OptionSet) -> (merged: OptionSet)
        ensures
            merged@ == self@.merge(fallback@),
    {
        OptionSet {
            rename: match self.rename {
                Some(name) => Some(name),
                None => fallback.rename,
            },
            inline: match self.inline {
                Some(policy) => Some(policy),
                None => fallback.inline,
            },
            visibility: match self.visibility {
                Some(visibility) => Some(visibility),
                None => fallback.visibility,
            },
        }
    }

    /// The set that the settings of one flag amount to. Two settings for the same property
    /// are a duplicate directive, never a silent overwrite.
    pub fn from_settings(settings: &Vec<Setting>) -> (gathered: Result<OptionSet, ErrorKind>)
        ensures
            match gathered {
                Ok(set) => OptionSetView::collect(settings.deep_view()) == Some(set@),
                Err(kind) => kind == ErrorKind::DuplicateDirective && OptionSetView::collect(
                    settings.deep_view(),
                ) is None,
            },
    {
        let ghost all = settings.deep_view();
        let mut set = OptionSet::empty();
        let mut i: usize = 0;
        assert(all.take(0) =~= Seq::empty());
        while i < settings.len()
            invariant
                i <= settings.len(),
                all == settings.deep_view(),
                OptionSetView::collect(all.take(i as int)) == Some(set@),
            decreases settings.len() - i,
        {
            let setting = settings[i].clone();
            proof {
                let next = all.take(i + 1);
                assert(next.drop_last() =~= all.take(i as int));
                assert(next.last() == setting@);
                if set@.defines(setting@.key()) {
                    lemma_collect_fails_on(all, i + 1);
                }
            }
            if set.defines(setting.key()) {
                return Err(ErrorKind::DuplicateDirective);
            }
            set = set.merge(OptionSet::from_setting(setting));
            i += 1;
        }
        assert(all.take(i as int) =~= all);
        Ok(set)
    }
}

/// Once a prefix of the settings holds a duplicate, so does the whole list.
pub proof fn lemma_collect_fails_on(settings: Seq<SettingView>, n: int)
    requires
        0 <= n <= settings.len(),
        OptionSetView::collect(settings.take(n)) is None,
    ensures
        OptionSetView::collect(settings) is None,
    decreases settings.len() - n,
{
    if n < settings.len() {
        let next = settings.take(n + 1);
        assert(next.drop_last() =~= settings.take(n));
        lemma_collect_fails_on(settings, n + 1);
    } else {
        assert(settings.take(n) =~= settings);
    }
}

/// What a collected set defines is what some setting decided.
pub proof fn lemma_collect_defines(settings: Seq<SettingView>, key: OptionKey)
    requires
        OptionSetView::collect(settings) is Some,
    ensures
        OptionSetView::collect(settings).unwrap().defines(key) <==> exists|i: int|
            0 <= i < settings.len() && (#[trigger] settings[i]).key() == key,
    decreases settings.len(),
{
    if settings.len() > 0 {
        let earlier = settings.drop_last();
        lemma_collect_defines(earlier, key);
        if OptionSetView::collect(settings).unwrap().defines(key) {
            if OptionSetView::collect(earlier).unwrap().defines(key) {
                let i = choose|i: int| 0 <= i < earlier.len() && (#[trigger] earlier[i]).key() == key;
                assert(settings[i].key() == key);
            } else {
                assert(settings[settings.len() - 1].key() == key);
            }
        } else {
            assert forall|i: int| 0 <= i < settings.len() implies (#[trigger] settings[i]).key()
                != key by {
                if i < earlier.len() {
                    assert(earlier[i].key() != key);
                }
            }
        }
    }
}

/// Merging with the empty set changes nothing, on either side.
pub proof fn law_merge_empty(set: OptionSetView)
    ensures
        set.merge(OptionSetView::empty()) == set,
        OptionSetView::empty().merge(set) == set,
{
}

/// Merging is associative: a chain of layers needs no brackets.
pub proof fn law_merge_associative(a: OptionSetView, b: OptionSetView, c: OptionSetView)
    ensures
        a.merge(b).merge(c) == a.merge(b.merge(c)),
{
}

/// In a merge the primary set wins every tie, and the fallback fills only what the primary
/// leaves open.
pub proof fn law_merge_primary_wins(primary: OptionSetView, fallback: OptionSetView)
    ensures
        primary.rename is Some ==> primary.merge(fallback).rename == primary.rename,
        primary.inline is Some ==> primary.merge(fallback).inline == primary.inline,
        primary.visibility is Some ==> primary.merge(fallback).visibility == primary.visibility,
        primary.rename is None ==> primary.merge(fallback).rename == fallback.rename,
        primary.inline is None ==> primary.merge(fallback).inline == fallback.inline,
        primary.visibility is None ==> primary.merge(fallback).visibility == fallback.visibility,
{
}

/// Settings collect to a set exactly when no two of them decide the same property: a repeated
/// key is never merged silently.
pub proof fn law_settings_reject_duplicates(settings: Seq<SettingView>)
    ensures
        OptionSetView::collect(settings) is Some <==> OptionSetView::distinct_keys(settings),
    decreases settings.len(),
{
    if settings.len() > 0 {
        let earlier = settings.drop_last();
        let last = settings.last();
        law_settings_reject_duplicates(earlier);
        if OptionSetView::collect(earlier) is Some {
            lemma_collect_defines(earlier, last.key());
            if OptionSetView::collect(earlier).unwrap().defines(last.key()) {
                let i = choose|i: int| 0 <= i < earlier.len() && (#[trigger] earlier[i]).key()
                    == last.key();
                assert(settings[i].key() == settings[settings.len() - 1].key());
            } else {
                assert forall|i: int, j: int| 0 <= i < j < settings.len() implies (
                #[trigger] settings[i]).key() != (#[trigger] settings[j]).key() by {
                    if j < earlier.len() {
                        assert(earlier[i].key() != earlier[j].key());
                    } else {
                        assert(earlier[i].key() != last.key());
                    }
                }
            }
        } else {
            let (i, j) = choose|i: int, j: int|
                0 <= i < j < earlier.len() && (#[trigger] earlier[i]).key() == (
                #[trigger] earlier[j]).key();
            assert(settings[i].key() == settings[j].key());
        }
    }
}

} // verus!
