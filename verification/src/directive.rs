//! Flag entries, and the directive block that they amount to.
//!
//! A block is what one annotation says, entry by entry. Within a block every flag may stand
//! at most once, so a block without duplicates is a small record: whether the field is
//! skipped, the block's own defaults, and for every accessor kind the settings of its flag,
//! if the block names it.

use vstd::prelude::*;

use crate::error::ErrorKind;
use crate::kinds::AccessorKind;
use crate::options::{
    law_settings_reject_duplicates,
    OptionSet,
    OptionSetView,
    Setting,
    SettingView,
};

verus! {

/// The keyword of a flag entry.
#[derive(Clone, Copy, Debug, PartialEq, Eq, Structural)]
pub enum Flag {
    /// `get`, `get_copy` or `set`: generate an accessor of this kind.
    Accessor(AccessorKind),
    /// `skip`: generate nothing for this field.
    Skip,
    /// `default(..)`: settings for every accessor that the block governs.
    Default,
}

/// One entry of a directive block: a flag and its settings, in the order written.
#[derive(Debug, PartialEq, Eq)]
pub struct FlagEntry {
    pub flag: Flag,
    pub settings: Vec<Setting>,
}

/// A flag entry as a mathematical value.
pub struct FlagEntryView {
    pub flag: Flag,
    pub settings: Seq<SettingView>,
}

impl View for FlagEntry {
    type V = FlagEntryView;

    open spec fn view(&self) -> FlagEntryView {
        FlagEntryView { flag: self.flag, settings: self.settings.deep_view() }
    }
}

impl DeepView for FlagEntry {
    type V = FlagEntryView;

    open spec fn deep_view(&self) -> FlagEntryView {
        self.view()
    }
}

/// What one directive block says, duplicates ruled out.
#[derive(Debug, PartialEq, Eq)]
pub struct DirectiveBlock {
    /// The block holds `skip`. Such a block holds nothing else.
    pub skip: bool,
    /// The settings of `default(..)`, if the block has one.
    pub default: Option<OptionSet>,
    /// The settings of `get`, if the block names it.
    pub getter: Option<OptionSet>,
    /// The settings of `get_copy`, if the block names it.
    pub copier: Option<OptionSet>,
    /// The settings of `set`, if the block names it.
    pub setter: Option<OptionSet>,
}

/// A directive block as a mathematical value.
pub struct DirectiveBlockView {
    pub skip: bool,
    pub default: Option<OptionSetView>,
    pub getter: Option<OptionSetView>,
    pub copier: Option<OptionSetView>,
    pub setter: Option<OptionSetView>,
}

impl View for DirectiveBlock {
    type V = DirectiveBlockView;

    open spec fn view(&self) -> DirectiveBlockView {
        DirectiveBlockView {
            skip: self.skip,
            default: self.default.deep_view(),
            getter: self.getter.deep_view(),
            copier: self.copier.deep_view(),
            setter: self.setter.deep_view(),
        }
    }
}

impl DirectiveBlockView {
    /// The block that says nothing.
    pub open spec fn empty() -> DirectiveBlockView {
        DirectiveBlockView { skip: false, default: None, getter: None, copier: None, setter: None }
    }

    /// The block of a skipped field.
    pub open spec fn skipped() -> DirectiveBlockView {
        DirectiveBlockView { skip: true, default: None, getter: None, copier: None, setter: None }
    }

    /// A block is well formed when a `skip` in it leaves room for nothing else.
    pub open spec fn well_formed(self) -> bool {
        self.skip ==> self == DirectiveBlockView::skipped()
    }

    /// The settings of the flag for `kind`, if the block names that kind.
    pub open spec fn flag(self, kind: AccessorKind) -> Option<OptionSetView> {
        match kind {
            AccessorKind::GetterByReference => self.getter,
            AccessorKind::GetterByValue => self.copier,
            AccessorKind::Setter => self.setter,
        }
    }

    /// The settings of the flag for `kind`; none where the block does not name that kind.
    pub open spec fn settings_for(self, kind: AccessorKind) -> OptionSetView {
        match self.flag(kind) {
            Some(options) => options,
            None => OptionSetView::empty(),
        }
    }

    /// The block's own defaults; none where it has no `default(..)`.
    pub open spec fn defaults(self) -> OptionSetView {
        match self.default {
            Some(options) => options,
            None => OptionSetView::empty(),
        }
    }

    /// What the block holds for `flag`; for `skip`, nothing.
    pub open spec fn slot(self, flag: Flag) -> Option<OptionSetView> {
        match flag {
            Flag::Accessor(kind) => self.flag(kind),
            Flag::Default => self.default,
            Flag::Skip => None,
        }
    }

    /// The block with `options` for `flag`; unchanged for `skip`.
    pub open spec fn with(self, flag: Flag, options: OptionSetView) -> DirectiveBlockView {
        match flag {
            Flag::Accessor(AccessorKind::GetterByReference) => DirectiveBlockView {
                getter: Some(options),
                ..self
            },
            Flag::Accessor(AccessorKind::GetterByValue) => DirectiveBlockView {
                copier: Some(options),
                ..self
            },
            Flag::Accessor(AccessorKind::Setter) => DirectiveBlockView {
                setter: Some(options),
                ..self
            },
            Flag::Default => DirectiveBlockView { default: Some(options), ..self },
            Flag::Skip => self,
        }
    }

    /// Whether one of the entries is `skip`.
    pub open spec fn has_skip(entries: Seq<FlagEntryView>) -> bool {
        exists|i: int| 0 <= i < entries.len() && (#[trigger] entries[i]).flag == Flag::Skip
    }

    /// Whether no flag stands twice among the entries.
    pub open spec fn distinct_flags(entries: Seq<FlagEntryView>) -> bool {
        forall|i: int, j: int|
            0 <= i < j < entries.len() ==> (#[trigger] entries[i]).flag != (
            #[trigger] entries[j]).flag
    }

    /// Whether no entry holds two settings for the same property.
    pub open spec fn distinct_settings(entries: Seq<FlagEntryView>) -> bool {
        forall|i: int|
            0 <= i < entries.len() ==> OptionSetView::distinct_keys(
                (#[trigger] entries[i]).settings,
            )
    }

    /// The block that entries without `skip` amount to, taken from left to right; a
    /// duplicate directive where a flag or a setting key stands twice.
    pub open spec fn gather(entries: Seq<FlagEntryView>) -> Result<DirectiveBlockView, ErrorKind>
        decreases entries.len(),
    {
        if entries.len() == 0 {
            Ok(DirectiveBlockView::empty())
        } else {
            match DirectiveBlockView::gather(entries.drop_last()) {
                Ok(earlier) => match OptionSetView::collect(entries.last().settings) {
                    Some(options) => if earlier.slot(entries.last().flag) is Some {
                        Err(ErrorKind::DuplicateDirective)
                    } else {
                        Ok(earlier.with(entries.last().flag, options))
                    },
                    None => Err(ErrorKind::DuplicateDirective),
                },
                Err(kind) => Err(kind),
            }
        }
    }

    /// The block that the entries amount to. A `skip` anywhere among them ends all
    /// processing: the block is that of a skipped field, whatever else the entries hold.
    pub open spec fn collect(entries: Seq<FlagEntryView>) -> Result<DirectiveBlockView, ErrorKind> {
        if DirectiveBlockView::has_skip(entries) {
            Ok(DirectiveBlockView::skipped())
        } else {
            DirectiveBlockView::gather(entries)
        }
    }
}

impl DirectiveBlock {
    /// The block that says nothing.
    pub fn empty() -> (block: DirectiveBlock)
        ensures
            block@ == DirectiveBlockView::empty(),
    {
        DirectiveBlock { skip: false, default: None, getter: None, copier: None, setter: None }
    }

    /// The block of a skipped field.
    pub fn skipped() -> (block: DirectiveBlock)
        ensures
            block@ == DirectiveBlockView::skipped(),
    {
        DirectiveBlock { skip: true, default: None, getter: None, copier: None, setter: None }
    }

    /// Whether the block holds anything for `flag`.
    pub fn holds(&self, flag: Flag) -> (held: bool)
        ensures
            held == (self@.slot(flag) is Some),
    {
        match flag {
            Flag::Accessor(AccessorKind::GetterByReference) => self.getter.is_some(),
            Flag::Accessor(AccessorKind::GetterByValue) => self.copier.is_some(),
            Flag::Accessor(AccessorKind::Setter) => self.setter.is_some(),
            Flag::Default => self.default.is_some(),
            Flag::Skip => false,
        }
    }

    /// Whether the block names the accessor kind `kind`.
    pub fn names(&self, kind: AccessorKind) -> (named: bool)
        ensures
            named == (self@.flag(kind) is Some),
    {
        self.holds(Flag::Accessor(kind))
    }

    /// The settings of the flag for `kind`; none where the block does not name that kind.
    pub fn settings_for(&self, kind: AccessorKind) -> (options: OptionSet)
        ensures
            options@ == self@.settings_for(kind),
    {
        let slot = match kind {
            AccessorKind::GetterByReference => &self.getter,
            AccessorKind::GetterByValue => &self.copier,
            AccessorKind::Setter => &self.setter,
        };
        match slot {
            Some(options) => options.clone(),
            None => OptionSet::empty(),
        }
    }

    /// The block's own defaults; none where it has no `default(..)`.
    pub fn defaults(&self) -> (options: OptionSet)
        ensures
            options@ == self@.defaults(),
    {
        match &self.default {
            Some(options) => options.clone(),
            None => OptionSet::empty(),
        }
    }

    /// The block with `options` for `flag`.
    fn with(self, flag: Flag, options: OptionSet) -> (block: DirectiveBlock)
        ensures
            block@ == self@.with(flag, options@),
    {
        let mut block = self;
        match flag {
            Flag::Accessor(AccessorKind::GetterByReference) => {
                block.getter = Some(options);
            },
            Flag::Accessor(AccessorKind::GetterByValue) => {
                block.copier = Some(options);
            },
            Flag::Accessor(AccessorKind::Setter) => {
                block.setter = Some(options);
            },
            Flag::Default => {
                block.default = Some(options);
            },
            Flag::Skip => {},
        }
        block
    }

    /// The block that the entries amount to.
    ///
    /// A `skip` anywhere among the entries gives the block of a skipped field. Otherwise
    /// every flag, and within a flag every setting key, may stand once: a second one is a
    /// duplicate directive.
    pub fn from_entries(entries: &Vec<FlagEntry>) -> (collected: Result<DirectiveBlock, ErrorKind>)
        ensures
            match collected {
                Ok(block) => DirectiveBlockView::collect(entries.deep_view()) == Ok::<
                    DirectiveBlockView,
                    ErrorKind,
                >(block@) && block@.well_formed(),
                Err(kind) => DirectiveBlockView::collect(entries.deep_view()) == Err::<
                    DirectiveBlockView,
                    ErrorKind,
                >(kind),
            },
    {
        let ghost all = entries.deep_view();
        let mut i: usize = 0;
        while i < entries.len()
            invariant
                i <= entries.len(),
                all == entries.deep_view(),
                forall|k: int| 0 <= k < i ==> (#[trigger] all[k]).flag != Flag::Skip,
            decreases entries.len() - i,
        {
            if let Flag::Skip = entries[i].flag {
                assert(all[i as int].flag == Flag::Skip);
                return Ok(DirectiveBlock::skipped());
            }
            i += 1;
        }
        let mut block = DirectiveBlock::empty();
        let mut j: usize = 0;
        assert(all.take(0) =~= Seq::empty());
        while j < entries.len()
            invariant
                j <= entries.len(),
                all == entries.deep_view(),
                !DirectiveBlockView::has_skip(all),
                !block.skip,
                DirectiveBlockView::gather(all.take(j as int)) == Ok::<
                    DirectiveBlockView,
                    ErrorKind,
                >(block@),
            decreases entries.len() - j,
        {
            let entry = &entries[j];
            proof {
                let next = all.take(j + 1);
                assert(next.drop_last() =~= all.take(j as int));
                assert(next.last() == entry@);
            }
            let options = match OptionSet::from_settings(&entry.settings) {
                Ok(options) => options,
                Err(kind) => {
                    proof {
                        lemma_gather_fails_on(all, j + 1);
                    }
                    return Err(kind);
                },
            };
            if block.holds(entry.flag) {
                proof {
                    lemma_gather_fails_on(all, j + 1);
                }
                return Err(ErrorKind::DuplicateDirective);
            }
            block = block.with(entry.flag, options);
            j += 1;
        }
        assert(all.take(j as int) =~= all);
        Ok(block)
    }
}

/// Gathering fails with nothing but a duplicate directive.
pub proof fn lemma_gather_error(entries: Seq<FlagEntryView>)
    ensures
        DirectiveBlockView::gather(entries) matches Err(kind) ==> kind
            == ErrorKind::DuplicateDirective,
    decreases entries.len(),
{
    if entries.len() > 0 {
        lemma_gather_error(entries.drop_last());
    }
}

/// Once gathering has failed on a prefix of the entries, it fails on all of them.
pub proof fn lemma_gather_fails_on(entries: Seq<FlagEntryView>, n: int)
    requires
        0 <= n <= entries.len(),
        DirectiveBlockView::gather(entries.take(n)) is Err,
    ensures
        DirectiveBlockView::gather(entries) == Err::<DirectiveBlockView, ErrorKind>(
            ErrorKind::DuplicateDirective,
        ),
    decreases entries.len() - n,
{
    if n < entries.len() {
        let next = entries.take(n + 1);
        assert(next.drop_last() =~= entries.take(n));
        lemma_gather_fails_on(entries, n + 1);
    } else {
        assert(entries.take(n) =~= entries);
        lemma_gather_error(entries);
    }
}

/// A gathered block never skips, and holds something for a flag exactly when an entry
/// carries that flag.
pub proof fn lemma_gather_slots(entries: Seq<FlagEntryView>, flag: Flag)
    requires
        DirectiveBlockView::gather(entries) is Ok,
        !DirectiveBlockView::has_skip(entries),
    ensures
        !DirectiveBlockView::gather(entries).unwrap().skip,
        DirectiveBlockView::gather(entries).unwrap().slot(flag) is Some <==> exists|i: int|
            0 <= i < entries.len() && (#[trigger] entries[i]).flag == flag,
    decreases entries.len(),
{
    if entries.len() > 0 {
        let earlier = entries.drop_last();
        let last = entries.last();
        assert(!DirectiveBlockView::has_skip(earlier)) by {
            if DirectiveBlockView::has_skip(earlier) {
                let i = choose|i: int| 0 <= i < earlier.len() && (#[trigger] earlier[i]).flag
                    == Flag::Skip;
                assert(entries[i].flag == Flag::Skip);
            }
        }
        assert(entries[entries.len() - 1].flag != Flag::Skip);
        lemma_gather_slots(earlier, flag);
        let block = DirectiveBlockView::gather(entries).unwrap();
        if block.slot(flag) is Some {
            if DirectiveBlockView::gather(earlier).unwrap().slot(flag) is Some {
                let i = choose|i: int| 0 <= i < earlier.len() && (#[trigger] earlier[i]).flag
                    == flag;
                assert(entries[i].flag == flag);
            } else {
                assert(entries[entries.len() - 1].flag == flag);
            }
        } else {
            assert forall|i: int| 0 <= i < entries.len() implies (#[trigger] entries[i]).flag
                != flag by {
                if i < earlier.len() {
                    assert(earlier[i].flag != flag);
                }
            }
        }
    }
}

/// Where an entry is `skip`, the block is that of a skipped field, whatever else the
/// entries hold: no flag beside it is read, and none can fail.
pub proof fn law_skip_ends_block(entries: Seq<FlagEntryView>, i: int)
    requires
        0 <= i < entries.len(),
        entries[i].flag == Flag::Skip,
    ensures
        DirectiveBlockView::collect(entries) == Ok::<DirectiveBlockView, ErrorKind>(
            DirectiveBlockView::skipped(),
        ),
{
}

/// Entries without `skip` amount to a block exactly when no flag stands twice and no entry
/// holds two settings for one property. Otherwise they are a duplicate directive: a
/// repetition is never merged silently.
pub proof fn law_entries_reject_duplicates(entries: Seq<FlagEntryView>)
    requires
        !DirectiveBlockView::has_skip(entries),
    ensures
        DirectiveBlockView::collect(entries) is Ok <==> DirectiveBlockView::distinct_flags(entries)
            && DirectiveBlockView::distinct_settings(entries),
        DirectiveBlockView::collect(entries) is Err ==> DirectiveBlockView::collect(entries)
            == Err::<DirectiveBlockView, ErrorKind>(ErrorKind::DuplicateDirective),
    decreases entries.len(),
{
    lemma_gather_error(entries);
    if entries.len() > 0 {
        let earlier = entries.drop_last();
        let last = entries.last();
        assert(!DirectiveBlockView::has_skip(earlier)) by {
            if DirectiveBlockView::has_skip(earlier) {
                let i = choose|i: int| 0 <= i < earlier.len() && (#[trigger] earlier[i]).flag
                    == Flag::Skip;
                assert(entries[i].flag == Flag::Skip);
            }
        }
        law_entries_reject_duplicates(earlier);
        law_settings_reject_duplicates(last.settings);
        if DirectiveBlockView::gather(earlier) is Ok {
            lemma_gather_slots(earlier, last.flag);
            if OptionSetView::collect(last.settings) is None {
                assert(!OptionSetView::distinct_keys(entries[entries.len() - 1].settings));
            } else if DirectiveBlockView::gather(earlier).unwrap().slot(last.flag) is Some {
                let i = choose|i: int| 0 <= i < earlier.len() && (#[trigger] earlier[i]).flag
                    == last.flag;
                assert(entries[i].flag == entries[entries.len() - 1].flag);
            } else {
                assert forall|i: int, j: int| 0 <= i < j < entries.len() implies (
                #[trigger] entries[i]).flag != (#[trigger] entries[j]).flag by {
                    if j < earlier.len() {
                        assert(earlier[i].flag != earlier[j].flag);
                    } else {
                        assert(earlier[i].flag != last.flag);
                    }
                }
                assert forall|i: int| 0 <= i < entries.len() implies OptionSetView::distinct_keys(
                    (#[trigger] entries[i]).settings,
                ) by {
                    if i < earlier.len() {
                        assert(OptionSetView::distinct_keys(earlier[i].settings));
                    }
                }
            }
        } else {
            if !DirectiveBlockView::distinct_flags(earlier) {
                let (i, j) = choose|i: int, j: int|
                    0 <= i < j < earlier.len() && (#[trigger] earlier[i]).flag == (
                    #[trigger] earlier[j]).flag;
                assert(entries[i].flag == entries[j].flag);
            } else {
                let i = choose|i: int|
                    0 <= i < earlier.len() && !OptionSetView::distinct_keys(
                        (#[trigger] earlier[i]).settings,
                    );
                assert(!OptionSetView::distinct_keys(entries[i].settings));
            }
        }
    }
}

} // verus!
