//! Resolution of a whole schema.
//!
//! The schema's own directive block is read first, then every field in the order declared.
//! The first failure ends the resolution: nothing is produced for a schema that holds an
//! error anywhere.

use vstd::prelude::*;

use crate::accessor::{FieldDescriptor, FieldDescriptorView};
use crate::directive::{
    law_entries_reject_duplicates,
    law_skip_ends_block,
    DirectiveBlock,
    DirectiveBlockView,
    Flag,
};
use crate::error::{ErrorKind, ResolveError, Site};
use crate::resolver::{FieldAccessorSet, FieldAccessorSetView};
use crate::vocabulary::{block_of, parse};

verus! {

/// A field as declared: what it is, and the directive blocks attached to it, as written.
#[derive(Debug, PartialEq, Eq)]
pub struct FieldDecl {
    pub field: FieldDescriptor,
    pub directives: Vec<String>,
}

/// A declared field as a mathematical value.
pub struct FieldDeclView {
    pub field: FieldDescriptorView,
    pub directives: Seq<Seq<char>>,
}

impl View for FieldDecl {
    type V = FieldDeclView;

    open spec fn view(&self) -> FieldDeclView {
        FieldDeclView { field: self.field@, directives: self.directives.deep_view() }
    }
}

impl DeepView for FieldDecl {
    type V = FieldDeclView;

    open spec fn deep_view(&self) -> FieldDeclView {
        self.view()
    }
}

/// The fields of a schema, by the way they are declared.
#[derive(Debug, PartialEq, Eq)]
pub enum Fields {
    /// Fields with names.
    Named(Vec<FieldDecl>),
    /// Fields known by their position only.
    Positional,
    /// No fields at all.
    Unit,
}

/// The fields of a schema as a mathematical value.
pub enum FieldsView {
    Named(Seq<FieldDeclView>),
    Positional,
    Unit,
}

impl View for Fields {
    type V = FieldsView;

    open spec fn view(&self) -> FieldsView {
        match *self {
            Fields::Named(fields) => FieldsView::Named(fields.deep_view()),
            Fields::Positional => FieldsView::Positional,
            Fields::Unit => FieldsView::Unit,
        }
    }
}

/// A record type: its name and its fields.
#[derive(Debug, PartialEq, Eq)]
pub struct Schema {
    pub name: String,
    pub fields: Fields,
}

/// A schema as a mathematical value.
pub struct SchemaView {
    pub name: Seq<char>,
    pub fields: FieldsView,
}

impl View for Schema {
    type V = SchemaView;

    open spec fn view(&self) -> SchemaView {
        SchemaView { name: self.name@, fields: self.fields@ }
    }
}

/// What a resolved schema amounts to: its name and, for every field in the order declared,
/// the field without its directives together with the accessors to generate for it.
#[derive(Debug, PartialEq, Eq)]
pub struct Expansion {
    pub name: String,
    pub fields: Vec<FieldAccessorSet>,
}

/// An expansion as a mathematical value.
pub struct ExpansionView {
    pub name: Seq<char>,
    pub fields: Seq<FieldAccessorSetView>,
}

impl View for Expansion {
    type V = ExpansionView;

    open spec fn view(&self) -> ExpansionView {
        ExpansionView { name: self.name@, fields: self.fields.deep_view() }
    }
}

/// The block of the schema itself: empty where the schema carries no directives. A `skip`
/// names a field to leave out, so on the schema it is malformed.
pub open spec fn global_block(gs_attrs: Option<Seq<char>>) -> Result<DirectiveBlockView, ErrorKind> {
    match gs_attrs {
        Some(text) => match block_of(text) {
            Ok(block) => if block.skip {
                Err(ErrorKind::MalformedDirective)
            } else {
                Ok(block)
            },
            Err(kind) => Err(kind),
        },
        None => Ok(DirectiveBlockView::empty()),
    }
}

/// The block of a field: empty where the field carries no directives; a duplicate directive
/// where it carries more than one block.
pub open spec fn local_block(directives: Seq<Seq<char>>) -> Result<DirectiveBlockView, ErrorKind> {
    if directives.len() == 0 {
        Ok(DirectiveBlockView::empty())
    } else if directives.len() > 1 {
        Err(ErrorKind::DuplicateDirective)
    } else {
        block_of(directives[0])
    }
}

/// The accessor set of one declared field under the schema's block.
pub open spec fn field_outcome(decl: FieldDeclView, global: DirectiveBlockView) -> Result<
    FieldAccessorSetView,
    ErrorKind,
> {
    match local_block(decl.directives) {
        Ok(local) => FieldAccessorSetView::resolve(decl.field, local, global),
        Err(kind) => Err(kind),
    }
}

/// The place of the first field from `i` on that fails to resolve; the number of fields
/// where none does.
pub open spec fn first_failure(decls: Seq<FieldDeclView>, global: DirectiveBlockView, i: int) -> int
    decreases decls.len() - i,
{
    if 0 <= i < decls.len() && field_outcome(decls[i], global) is Ok {
        first_failure(decls, global, i + 1)
    } else {
        i
    }
}

/// The accessor sets of all fields, in the order declared; the failure of the first field
/// that has one.
pub open spec fn fields_outcome(decls: Seq<FieldDeclView>, global: DirectiveBlockView) -> Result<
    Seq<FieldAccessorSetView>,
    ResolveError,
> {
    let failed = first_failure(decls, global, 0);
    if failed < decls.len() {
        Err(
            ResolveError {
                kind: field_outcome(decls[failed], global)->Err_0,
                site: Site::Field(failed as usize),
            },
        )
    } else {
        Ok(decls.map_values(|decl: FieldDeclView| field_outcome(decl, global)->Ok_0))
    }
}

/// What a schema with the directive text `gs_attrs` expands to.
///
/// An error in the schema's own block comes first, then a schema without named fields,
/// then the fields in their order.
pub open spec fn expansion(gs_attrs: Option<Seq<char>>, input: SchemaView) -> Result<
    ExpansionView,
    ResolveError,
> {
    match global_block(gs_attrs) {
        Ok(global) => match input.fields {
            FieldsView::Named(decls) => match fields_outcome(decls, global) {
                Ok(fields) => Ok(ExpansionView { name: input.name, fields }),
                Err(error) => Err(error),
            },
            _ => Err(ResolveError { kind: ErrorKind::UnsupportedSchemaShape, site: Site::Schema }),
        },
        Err(kind) => Err(ResolveError { kind, site: Site::Global }),
    }
}

/// The first failure lies within the fields, at or after the start; every field before it
/// resolves, and the field at it, if there is one, does not.
pub proof fn lemma_first_failure(decls: Seq<FieldDeclView>, global: DirectiveBlockView, i: int)
    requires
        0 <= i <= decls.len(),
    ensures
        i <= first_failure(decls, global, i) <= decls.len(),
        forall|k: int|
            i <= k < first_failure(decls, global, i) ==> field_outcome(
                #[trigger] decls[k],
                global,
            ) is Ok,
        first_failure(decls, global, i) < decls.len() ==> field_outcome(
            decls[first_failure(decls, global, i)],
            global,
        ) is Err,
    decreases decls.len() - i,
{
    if i < decls.len() && field_outcome(decls[i], global) is Ok {
        lemma_first_failure(decls, global, i + 1);
    }
}

/// Reads the block of the schema itself.
fn read_global(gs_attrs: Option<&str>) -> (block: Result<DirectiveBlock, ErrorKind>)
    ensures
        match block {
            Ok(block) => global_block(gs_attrs.deep_view()) == Ok::<DirectiveBlockView, ErrorKind>(
                block@,
            ),
            Err(kind) => global_block(gs_attrs.deep_view()) == Err::<DirectiveBlockView, ErrorKind>(
                kind,
            ),
        },
{
    match gs_attrs {
        Some(text) => {
            let block = DirectiveBlock::parse(text)?;
            if block.skip {
                Err(ErrorKind::MalformedDirective)
            } else {
                Ok(block)
            }
        },
        None => Ok(DirectiveBlock::empty()),
    }
}

/// Reads the block of a field.
fn read_local(directives: &Vec<String>) -> (block: Result<DirectiveBlock, ErrorKind>)
    ensures
        match block {
            Ok(block) => local_block(directives.deep_view()) == Ok::<DirectiveBlockView, ErrorKind>(
                block@,
            ),
            Err(kind) => local_block(directives.deep_view()) == Err::<DirectiveBlockView, ErrorKind>(
                kind,
            ),
        },
{
    if directives.len() == 0 {
        Ok(DirectiveBlock::empty())
    } else if directives.len() > 1 {
        Err(ErrorKind::DuplicateDirective)
    } else {
        assert(directives.deep_view()[0] == directives[0]@);
        DirectiveBlock::parse(directives[0].as_str())
    }
}

impl FieldDecl {
    /// Resolves the accessors of this field under the schema's block.
    pub fn resolve(&self, global: &DirectiveBlock) -> (resolved: Result<FieldAccessorSet, ErrorKind>)
        ensures
            match resolved {
                Ok(set) => field_outcome(self@, global@) == Ok::<FieldAccessorSetView, ErrorKind>(
                    set@,
                ) && set@.well_formed(),
                Err(kind) => field_outcome(self@, global@) == Err::<FieldAccessorSetView, ErrorKind>(
                    kind,
                ),
            },
    {
        let local = read_local(&self.directives)?;
        FieldAccessorSet::resolve(self.field.clone(), &local, global)
    }
}

/// Resolves a schema: its name and, for every field in the order declared, the field as it
/// is and the accessors to generate for it.
///
/// `gs_attrs` is the text of the directive block attached to the schema, if there is one;
/// each field of `input` carries the text of its own.
///
/// Succeeds exactly when the schema's block is a directive block without duplicates and
/// without `skip`, the schema has named fields, and every field resolves. Otherwise the
/// error is the first in that order, with the directive it arose at.
pub fn expand_get_set(gs_attrs: Option<&str>, input: &Schema) -> (expanded: Result<
    Expansion,
    ResolveError,
>)
    ensures
        match expanded {
            Ok(output) => {
                &&& expansion(gs_attrs.deep_view(), input@) == Ok::<ExpansionView, ResolveError>(
                    output@,
                )
                &&& forall|i: int|
                    0 <= i < output.fields.len() ==> (#[trigger] output.fields[i])@.well_formed()
            },
            Err(error) => expansion(gs_attrs.deep_view(), input@) == Err::<
                ExpansionView,
                ResolveError,
            >(error),
        },
{
    let global = match read_global(gs_attrs) {
        Ok(global) => global,
        Err(kind) => {
            return Err(ResolveError { kind, site: Site::Global });
        },
    };
    let decls = match &input.fields {
        Fields::Named(decls) => decls,
        _ => {
            return Err(
                ResolveError { kind: ErrorKind::UnsupportedSchemaShape, site: Site::Schema },
            );
        },
    };
    let ghost all = decls.deep_view();
    let mut sets: Vec<FieldAccessorSet> = Vec::new();
    let mut i: usize = 0;
    while i < decls.len()
        invariant
            i <= decls.len(),
            all == decls.deep_view(),
            input@.fields == FieldsView::Named(all),
            global_block(gs_attrs.deep_view()) == Ok::<DirectiveBlockView, ErrorKind>(global@),
            sets.len() == i,
            first_failure(all, global@, 0) == first_failure(all, global@, i as int),
            forall|k: int|
                0 <= k < i ==> field_outcome(#[trigger] all[k], global@) == Ok::<
                    FieldAccessorSetView,
                    ErrorKind,
                >(sets[k]@),
            forall|k: int| 0 <= k < i ==> (#[trigger] sets[k])@.well_formed(),
        decreases decls.len() - i,
    {
        assert(all[i as int] == decls[i as int]@);
        match decls[i].resolve(&global) {
            Ok(set) => {
                sets.push(set);
            },
            Err(kind) => {
                return Err(ResolveError { kind, site: Site::Field(i) });
            },
        }
        i += 1;
    }
    assert(sets.deep_view() =~= all.map_values(
        |decl: FieldDeclView| field_outcome(decl, global@)->Ok_0,
    ));
    Ok(Expansion { name: input.name.clone(), fields: sets })
}

/// Skip is absolute at every level: a field whose block holds `skip` gets the empty set,
/// whatever the schema's block says and whatever else its own block holds.
pub proof fn law_skipped_field(decl: FieldDeclView, global: DirectiveBlockView, i: int)
    requires
        decl.directives.len() == 1,
        parse(decl.directives[0]) is Some,
        0 <= i < parse(decl.directives[0])->0.len(),
        parse(decl.directives[0])->0[i].flag == Flag::Skip,
    ensures
        field_outcome(decl, global) == Ok::<FieldAccessorSetView, ErrorKind>(
            FieldAccessorSetView { field: decl.field, skip: true, specs: seq![] },
        ),
{
    law_skip_ends_block(parse(decl.directives[0])->0, i);
}

/// A repetition in the block of a field always fails: where no entry is `skip` and a flag
/// stands twice, or one flag holds two settings for the same property, the field is a
/// duplicate directive under every schema block. Nothing is merged silently.
pub proof fn law_repetition_fails(decl: FieldDeclView, global: DirectiveBlockView)
    requires
        decl.directives.len() == 1,
        parse(decl.directives[0]) is Some,
        !DirectiveBlockView::has_skip(parse(decl.directives[0])->0),
        !DirectiveBlockView::distinct_flags(parse(decl.directives[0])->0)
            || !DirectiveBlockView::distinct_settings(parse(decl.directives[0])->0),
    ensures
        field_outcome(decl, global) == Err::<FieldAccessorSetView, ErrorKind>(
            ErrorKind::DuplicateDirective,
        ),
{
    law_entries_reject_duplicates(parse(decl.directives[0])->0);
}

/// A resolution is all or nothing: it succeeds exactly when the schema's block is sound,
/// the fields are named and every single field resolves. It then hands on the schema
/// unchanged but for its directives: the same name and, in the order declared, every field
/// as it is, with the set resolved for it.
pub proof fn law_all_or_nothing(gs_attrs: Option<Seq<char>>, input: SchemaView)
    ensures
        expansion(gs_attrs, input) is Ok <==> {
            &&& global_block(gs_attrs) is Ok
            &&& input.fields is Named
            &&& forall|i: int|
                0 <= i < input.fields->Named_0.len() ==> field_outcome(
                    #[trigger] input.fields->Named_0[i],
                    global_block(gs_attrs)->Ok_0,
                ) is Ok
        },
        expansion(gs_attrs, input) matches Ok(output) ==> {
            &&& output.name == input.name
            &&& output.fields.len() == input.fields->Named_0.len()
            &&& forall|i: int|
                0 <= i < output.fields.len() ==> {
                    &&& field_outcome(input.fields->Named_0[i], global_block(gs_attrs)->Ok_0)
                        == Ok::<FieldAccessorSetView, ErrorKind>(#[trigger] output.fields[i])
                    &&& output.fields[i].field == input.fields->Named_0[i].field
                }
        },
{
    if global_block(gs_attrs) is Ok && input.fields is Named {
        lemma_first_failure(input.fields->Named_0, global_block(gs_attrs)->Ok_0, 0);
    }
}

} // verus!
