//! Fields, and the accessors synthesized for them.

use vstd::prelude::*;
use vstd::std_specs::cmp::PartialEqSpecImpl;
use vstd::string::StringExecFns;

use crate::kinds::{AccessorKind, Inline, Visibility, VisibilityView};
use crate::options::{OptionSet, OptionSetView};

verus! {

/// The declared type of a field: its text, and whether it is already a reference.
#[derive(Debug, PartialEq, Eq)]
pub struct TypeDescriptor {
    pub text: String,
    pub reference: bool,
}

/// A type descriptor as a mathematical value.
pub struct TypeDescriptorView {
    pub text: Seq<char>,
    pub reference: bool,
}

impl View for TypeDescriptor {
    type V = TypeDescriptorView;

    open spec fn view(&self) -> TypeDescriptorView {
        TypeDescriptorView { text: self.text@, reference: self.reference }
    }
}

/// A field of the schema: its name and its type.
#[derive(Debug, PartialEq, Eq)]
pub struct FieldDescriptor {
    pub name: String,
    pub ty: TypeDescriptor,
}

/// A field descriptor as a mathematical value.
pub struct FieldDescriptorView {
    pub name: Seq<char>,
    pub ty: TypeDescriptorView,
}

impl View for FieldDescriptor {
    type V = FieldDescriptorView;

    open spec fn view(&self) -> FieldDescriptorView {
        FieldDescriptorView { name: self.name@, ty: self.ty@ }
    }
}

impl DeepView for FieldDescriptor {
    type V = FieldDescriptorView;

    open spec fn deep_view(&self) -> FieldDescriptorView {
        self.view()
    }
}

impl Clone for TypeDescriptor {
    fn clone(&self) -> (copy: TypeDescriptor)
        ensures
            copy@ == self@,
    {
        TypeDescriptor { text: self.text.clone(), reference: self.reference }
    }
}

impl Clone for FieldDescriptor {
    fn clone(&self) -> (copy: FieldDescriptor)
        ensures
            copy@ == self@,
    {
        FieldDescriptor { name: self.name.clone(), ty: self.ty.clone() }
    }
}

impl FieldDescriptor {
    /// The field `name` of the type written as `ty`; `reference` says whether that type is a
    /// reference.
    pub fn new(name: &str, ty: &str, reference: bool) -> (field: FieldDescriptor)
        ensures
            field@.name == name@,
            field@.ty.text == ty@,
            field@.ty.reference == reference,
    {
        FieldDescriptor {
            name: String::from_str(name),
            ty: TypeDescriptor { text: String::from_str(ty), reference },
        }
    }
}

/// How a method takes `self`.
#[derive(Clone, Copy, Debug, PartialEq, Eq, Structural)]
pub enum Receiver {
    /// `&self`
    Shared,
    /// `&mut self`
    Exclusive,
}

/// What a method returns, relative to the type of its field.
#[derive(Clone, Copy, Debug, PartialEq, Eq, Structural)]
pub enum ReturnShape {
    /// Nothing.
    Unit,
    /// The field's type as declared.
    FieldType,
    /// A reference to the field's type.
    ReferenceToFieldType,
}

/// The signature and body of a generated method, as far as they depend on kind and field.
#[derive(Debug, PartialEq, Eq)]
pub struct MethodShape {
    pub receiver: Receiver,
    /// The name of the parameter that carries the new value, for a setter.
    pub parameter: Option<String>,
    pub returns: ReturnShape,
}

/// A method shape as a mathematical value.
pub struct MethodShapeView {
    pub receiver: Receiver,
    pub parameter: Option<Seq<char>>,
    pub returns: ReturnShape,
}

impl View for MethodShape {
    type V = MethodShapeView;

    open spec fn view(&self) -> MethodShapeView {
        MethodShapeView {
            receiver: self.receiver,
            parameter: self.parameter.deep_view(),
            returns: self.returns,
        }
    }
}

impl AccessorKind {
    /// What an accessor of this kind returns for a field whose type is, or is not, a
    /// reference. Only a getter by reference adds a reference, and only where there is none.
    pub open spec fn spec_return_shape(self, reference: bool) -> ReturnShape {
        match self {
            AccessorKind::Setter => ReturnShape::Unit,
            AccessorKind::GetterByValue => ReturnShape::FieldType,
            AccessorKind::GetterByReference => if reference {
                ReturnShape::FieldType
            } else {
                ReturnShape::ReferenceToFieldType
            },
        }
    }

    /// The shape of the method that an accessor of this kind is on `field`.
    pub open spec fn spec_shape(self, field: FieldDescriptorView) -> MethodShapeView {
        match self {
            AccessorKind::Setter => MethodShapeView {
                receiver: Receiver::Exclusive,
                parameter: Some(seq!['n', 'e', 'w', '_'] + field.name),
                returns: ReturnShape::Unit,
            },
            _ => MethodShapeView {
                receiver: Receiver::Shared,
                parameter: None,
                returns: self.spec_return_shape(field.ty.reference),
            },
        }
    }

    /// What an accessor of this kind returns for a field whose type is, or is not, a
    /// reference.
    pub fn return_shape(self, reference: bool) -> (shape: ReturnShape)
        ensures
            shape == self.spec_return_shape(reference),
    {
        match self {
            AccessorKind::Setter => ReturnShape::Unit,
            AccessorKind::GetterByValue => ReturnShape::FieldType,
            AccessorKind::GetterByReference => if reference {
                ReturnShape::FieldType
            } else {
                ReturnShape::ReferenceToFieldType
            },
        }
    }

    /// The shape of the method that an accessor of this kind is on `field`: a setter takes
    /// `&mut self` and the new value and overwrites the field; a getter takes `&self` and
    /// hands the field out, by reference or by value.
    pub fn shape(self, field: &FieldDescriptor) -> (shape: MethodShape)
        ensures
            shape@ == self.spec_shape(field@),
    {
        match self {
            AccessorKind::Setter => {
                proof {
                    reveal_strlit("new_");
                }
                assert("new_"@ =~= seq!['n', 'e', 'w', '_']);
                let mut parameter = String::from_str("new_");
                parameter.append(field.name.as_str());
                MethodShape {
                    receiver: Receiver::Exclusive,
                    parameter: Some(parameter),
                    returns: ReturnShape::Unit,
                }
            },
            _ => MethodShape {
                receiver: Receiver::Shared,
                parameter: None,
                returns: self.return_shape(field.ty.reference),
            },
        }
    }
}

/// One method to generate: its kind, its final name, its inline hint and its visibility.
///
/// Two specifications are equal, and hash alike, when their names are: within one field a
/// name identifies the accessor, whatever its kind or its other properties.
#[derive(Debug)]
pub struct AccessorSpec {
    pub kind: AccessorKind,
    pub name: String,
    pub inline: Inline,
    pub visibility: Visibility,
}

/// An accessor specification as a mathematical value.
pub struct AccessorSpecView {
    pub kind: AccessorKind,
    pub name: Seq<char>,
    pub inline: Inline,
    pub visibility: VisibilityView,
}

impl View for AccessorSpec {
    type V = AccessorSpecView;

    open spec fn view(&self) -> AccessorSpecView {
        AccessorSpecView {
            kind: self.kind,
            name: self.name@,
            inline: self.inline,
            visibility: self.visibility@,
        }
    }
}

impl DeepView for AccessorSpec {
    type V = AccessorSpecView;

    open spec fn deep_view(&self) -> AccessorSpecView {
        self.view()
    }
}

impl Clone for AccessorSpec {
    fn clone(&self) -> (copy: AccessorSpec)
        ensures
            copy@ == self@,
    {
        AccessorSpec {
            kind: self.kind,
            name: self.name.clone(),
            inline: self.inline,
            visibility: self.visibility.clone(),
        }
    }
}

impl PartialEq for AccessorSpec {
    fn eq(&self, other: &AccessorSpec) -> (same: bool) {
        self.name == other.name
    }
}

impl Eq for AccessorSpec {

}

impl core::hash::Hash for AccessorSpec {
    fn hash<H: core::hash::Hasher>(&self, state: &mut H) {
        self.name.hash(state)
    }
}

impl PartialEqSpecImpl for AccessorSpec {
    open spec fn obeys_eq_spec() -> bool {
        true
    }

    open spec fn eq_spec(&self, other: &AccessorSpec) -> bool {
        self.name@ == other.name@
    }
}

impl AccessorSpecView {
    /// The accessor of `kind` on the field named `field` under the resolved `options`: the
    /// name is the rename if there is one, else the default name of the kind; the inline
    /// hint and the visibility fall back to none and to inherited.
    pub open spec fn synthesize(
        kind: AccessorKind,
        options: OptionSetView,
        field: Seq<char>,
    ) -> AccessorSpecView {
        AccessorSpecView {
            kind,
            name: match options.rename {
                Some(name) => name,
                None => kind.spec_default_name(field),
            },
            inline: match options.inline {
                Some(policy) => policy,
                None => Inline::Unmarked,
            },
            visibility: match options.visibility {
                Some(visibility) => visibility,
                None => VisibilityView::Inherited,
            },
        }
    }

    /// As [`synthesize`](Self::synthesize), but the name is the default name of the kind
    /// whatever the options say.
    pub open spec fn synthesize_with_default_name(
        kind: AccessorKind,
        options: OptionSetView,
        field: Seq<char>,
    ) -> AccessorSpecView {
        AccessorSpecView {
            name: kind.spec_default_name(field),
            ..AccessorSpecView::synthesize(kind, options, field)
        }
    }
}

impl AccessorSpec {
    /// The accessor of `kind` on `field` under the resolved `options`.
    pub fn synthesize(kind: AccessorKind, options: OptionSet, field: &FieldDescriptor) -> (spec:
        AccessorSpec)
        ensures
            spec@ == AccessorSpecView::synthesize(kind, options@, field@.name),
    {
        AccessorSpec {
            kind,
            name: match options.rename {
                Some(name) => name,
                None => kind.default_name(field.name.as_str()),
            },
            inline: match options.inline {
                Some(policy) => policy,
                None => Inline::Unmarked,
            },
            visibility: match options.visibility {
                Some(visibility) => visibility,
                None => Visibility::Inherited,
            },
        }
    }

    /// The accessor of `kind` on `field` under `options`, under the default name of the kind
    /// even where the options rename it.
    pub fn synthesize_with_default_name(
        kind: AccessorKind,
        options: OptionSet,
        field: &FieldDescriptor,
    ) -> (spec: AccessorSpec)
        ensures
            spec@ == AccessorSpecView::synthesize_with_default_name(kind, options@, field@.name),
    {
        let named = AccessorSpec::synthesize(kind, options, field);
        AccessorSpec {
            kind,
            name: kind.default_name(field.name.as_str()),
            inline: named.inline,
            visibility: named.visibility,
        }
    }

    /// The shape of the method to generate for this accessor on `field`.
    pub fn shape(&self, field: &FieldDescriptor) -> (shape: MethodShape)
        ensures
            shape@ == self.kind.spec_shape(field@),
    {
        self.kind.shape(field)
    }
}

/// Without a rename the name of an accessor is fixed by its kind and its field: `get_` and
/// the field's name for both getters, `set_` and the field's name for a setter.
pub proof fn law_default_name(kind: AccessorKind, options: OptionSetView, field: Seq<char>)
    requires
        options.rename is None,
    ensures
        kind == AccessorKind::Setter ==> AccessorSpecView::synthesize(kind, options, field).name
            == seq!['s', 'e', 't', '_'] + field,
        kind != AccessorKind::Setter ==> AccessorSpecView::synthesize(kind, options, field).name
            == seq!['g', 'e', 't', '_'] + field,
{
}

/// A getter by reference never doubles a reference: over a field that is a reference it
/// returns the field's type unchanged, over any other field a reference to it. A getter by
/// value returns the field's type, a setter nothing.
pub proof fn law_reference_shape(kind: AccessorKind, field: FieldDescriptorView)
    ensures
        kind == AccessorKind::GetterByReference && field.ty.reference ==> kind.spec_shape(
            field,
        ).returns == ReturnShape::FieldType,
        kind == AccessorKind::GetterByReference && !field.ty.reference ==> kind.spec_shape(
            field,
        ).returns == ReturnShape::ReferenceToFieldType,
        kind == AccessorKind::GetterByValue ==> kind.spec_shape(field).returns
            == ReturnShape::FieldType,
        kind == AccessorKind::Setter ==> kind.spec_shape(field).returns == ReturnShape::Unit,
{
}

} // verus!
