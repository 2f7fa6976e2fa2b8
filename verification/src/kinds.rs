//! The closed vocabularies of an accessor: its kind, its inline policy and its visibility.

use vstd::prelude::*;
use vstd::string::StringExecFns;

verus! {

/// The inline hint that a generated method carries.
#[derive(Clone, Copy, PartialEq, Eq, Hash, Debug, Structural)]
pub enum Inline {
    /// No inline attribute at all.
    Unmarked,
    /// `#[inline(never)]`
    Never,
    /// `#[inline(always)]`
    Always,
    /// `#[inline]`
    Sometimes,
}

impl Default for Inline {
    fn default() -> (policy: Inline)
        ensures
            policy == Inline::Unmarked,
    {
        Inline::Unmarked
    }
}

impl Inline {
    /// The attribute that renders this policy; empty when there is none.
    pub open spec fn spec_attribute(self) -> Seq<char> {
        match self {
            Inline::Unmarked => ""@,
            Inline::Never => "#[inline(never)]"@,
            Inline::Always => "#[inline(always)]"@,
            Inline::Sometimes => "#[inline]"@,
        }
    }

    /// The attribute that renders this policy; empty when there is none.
    pub fn attribute(self) -> (text: &'static str)
        ensures
            text@ == self.spec_attribute(),
    {
        match self {
            Inline::Unmarked => "",
            Inline::Never => "#[inline(never)]",
            Inline::Always => "#[inline(always)]",
            Inline::Sometimes => "#[inline]",
        }
    }
}

/// What a generated method does with its field.
#[derive(Clone, Copy, PartialEq, Eq, Hash, Debug, Structural)]
pub enum AccessorKind {
    /// Overwrites the field with a new value.
    Setter,
    /// Hands out the field by reference.
    GetterByReference,
    /// Hands out the field's value.
    GetterByValue,
}

impl AccessorKind {
    /// The word that starts the default name of an accessor of this kind.
    pub open spec fn spec_prefix(self) -> Seq<char> {
        match self {
            AccessorKind::Setter => seq!['s', 'e', 't'],
            AccessorKind::GetterByReference | AccessorKind::GetterByValue => seq!['g', 'e', 't'],
        }
    }

    /// The name an accessor of this kind gets on `field` when nothing renames it:
    /// the prefix, an underscore, and the field's name.
    pub open spec fn spec_default_name(self, field: Seq<char>) -> Seq<char> {
        self.spec_prefix() + seq!['_'] + field
    }

    /// The word that starts the default name of an accessor of this kind.
    pub fn prefix(self) -> (word: &'static str)
        ensures
            word@ == self.spec_prefix(),
    {
        proof {
            reveal_strlit("set");
            reveal_strlit("get");
        }
        match self {
            AccessorKind::Setter => "set",
            AccessorKind::GetterByReference | AccessorKind::GetterByValue => "get",
        }
    }

    /// The name an accessor of this kind gets on `field` when nothing renames it.
    pub fn default_name(self, field: &str) -> (name: String)
        ensures
            name@ == self.spec_default_name(field@),
    {
        proof {
            reveal_strlit("_");
        }
        let mut name = String::from_str(self.prefix());
        name.append("_");
        name.append(field);
        name
    }
}

/// Who may call a generated method.
#[derive(Debug, PartialEq, Eq)]
pub enum Visibility {
    /// No visibility keyword: private to the enclosing module.
    Inherited,
    /// `pub`
    Public,
    /// `pub(..)`: visible within the module that the path names. `scoped` tells whether the
    /// path was introduced by `in`, `absolute` whether it starts with `::`.
    Restricted { scoped: bool, absolute: bool, segments: Vec<String> },
}

/// A visibility as a mathematical value.
pub enum VisibilityView {
    Inherited,
    Public,
    Restricted { scoped: bool, absolute: bool, segments: Seq<Seq<char>> },
}

impl View for Visibility {
    type V = VisibilityView;

    open spec fn view(&self) -> VisibilityView {
        match *self {
            Visibility::Inherited => VisibilityView::Inherited,
            Visibility::Public => VisibilityView::Public,
            Visibility::Restricted { scoped, absolute, segments } => VisibilityView::Restricted {
                scoped,
                absolute,
                segments: segments.deep_view(),
            },
        }
    }
}

impl DeepView for Visibility {
    type V = VisibilityView;

    open spec fn deep_view(&self) -> VisibilityView {
        self.view()
    }
}

impl Clone for Visibility {
    fn clone(&self) -> (copy: Visibility)
        ensures
            copy@ == self@,
    {
        match self {
            Visibility::Inherited => Visibility::Inherited,
            Visibility::Public => Visibility::Public,
            Visibility::Restricted { scoped, absolute, segments } => {
                let mut copied: Vec<String> = Vec::new();
                let mut i: usize = 0;
                while i < segments.len()
                    invariant
                        i <= segments.len(),
                        copied.len() == i,
                        forall|k: int| 0 <= k < i ==> copied[k]@ == segments[k]@,
                    decreases segments.len() - i,
                {
                    copied.push(segments[i].clone());
                    i += 1;
                }
                assert(copied.deep_view() =~= segments.deep_view());
                Visibility::Restricted { scoped: *scoped, absolute: *absolute, segments: copied }
            },
        }
    }
}

impl Default for Visibility {
    fn default() -> (visibility: Visibility)
        ensures
            visibility@ == VisibilityView::Inherited,
    {
        Visibility::Inherited
    }
}

} // verus!
