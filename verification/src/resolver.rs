//! Resolution of one field: from its block and the schema's block to its accessors.
//!
//! For every accessor kind the options come from up to four layers, highest first: the
//! settings of the field's own flag for the kind, the field's `default(..)`, the settings of
//! the schema's flag for the kind, and the schema's `default(..)`. What no layer defines
//! falls back to the built-in defaults when the accessor is synthesized.
//!
//! A kind that the field names is explicit; a kind that only the schema names is inherited.
//! An explicit accessor silently displaces an inherited one of the same name. Two explicit
//! accessors of one name, or two inherited ones that are left, are a collision.

use vstd::prelude::*;

use crate::accessor::{AccessorSpec, AccessorSpecView, FieldDescriptor, FieldDescriptorView};
use crate::directive::{DirectiveBlock, DirectiveBlockView};
use crate::error::ErrorKind;
use crate::kinds::{AccessorKind, Inline, VisibilityView};
use crate::options::{OptionSet, OptionSetView};

verus! {

/// The accessors resolved for one field.
#[derive(Debug, PartialEq, Eq)]
pub struct FieldAccessorSet {
    pub field: FieldDescriptor,
    /// The field is skipped: nothing is generated for it.
    pub skip: bool,
    pub specs: Vec<AccessorSpec>,
}

/// A field's accessor set as a mathematical value.
pub struct FieldAccessorSetView {
    pub field: FieldDescriptorView,
    pub skip: bool,
    pub specs: Seq<AccessorSpecView>,
}

impl View for FieldAccessorSet {
    type V = FieldAccessorSetView;

    open spec fn view(&self) -> FieldAccessorSetView {
        FieldAccessorSetView {
            field: self.field@,
            skip: self.skip,
            specs: self.specs.deep_view(),
        }
    }
}

impl DeepView for FieldAccessorSet {
    type V = FieldAccessorSetView;

    open spec fn deep_view(&self) -> FieldAccessorSetView {
        self.view()
    }
}

/// Whether no two of the specifications share a name.
pub open spec fn distinct_names(specs: Seq<AccessorSpecView>) -> bool {
    forall|i: int, j: int|
        0 <= i < j < specs.len() ==> (#[trigger] specs[i]).name != (#[trigger] specs[j]).name
}

/// Whether one of the specifications bears `name`.
pub open spec fn bears_name(specs: Seq<AccessorSpecView>, name: Seq<char>) -> bool {
    exists|i: int| 0 <= i < specs.len() && (#[trigger] specs[i]).name == name
}

impl FieldAccessorSetView {
    /// A set is well formed when its names are distinct and, if the field is skipped, it
    /// holds nothing.
    pub open spec fn well_formed(self) -> bool {
        &&& distinct_names(self.specs)
        &&& self.skip ==> self.specs.len() == 0
    }

    /// The options of the accessor of `kind`, all layers merged, highest first.
    pub open spec fn layered(
        kind: AccessorKind,
        local: DirectiveBlockView,
        global: DirectiveBlockView,
    ) -> OptionSetView {
        local.settings_for(kind).merge(local.defaults()).merge(global.settings_for(kind)).merge(
            global.defaults(),
        )
    }

    /// The accessor of `kind` on the field, as the layers resolve it.
    pub open spec fn candidate(
        kind: AccessorKind,
        field: FieldDescriptorView,
        local: DirectiveBlockView,
        global: DirectiveBlockView,
    ) -> AccessorSpecView {
        AccessorSpecView::synthesize(
            kind,
            FieldAccessorSetView::layered(kind, local, global),
            field.name,
        )
    }

    /// The accessor of `kind` if the field's own block names that kind, else nothing.
    pub open spec fn explicit(
        kind: AccessorKind,
        field: FieldDescriptorView,
        local: DirectiveBlockView,
        global: DirectiveBlockView,
    ) -> Seq<AccessorSpecView> {
        if local.flag(kind) is Some {
            seq![FieldAccessorSetView::candidate(kind, field, local, global)]
        } else {
            seq![]
        }
    }

    /// The accessors that the field's own block asks for: getter, copying getter, setter.
    pub open spec fn explicit_specs(
        field: FieldDescriptorView,
        local: DirectiveBlockView,
        global: DirectiveBlockView,
    ) -> Seq<AccessorSpecView> {
        FieldAccessorSetView::explicit(AccessorKind::GetterByReference, field, local, global)
            + FieldAccessorSetView::explicit(AccessorKind::GetterByValue, field, local, global)
            + FieldAccessorSetView::explicit(AccessorKind::Setter, field, local, global)
    }

    /// The accessor of `kind` if only the schema's block names that kind and no explicit
    /// accessor bears its name, else nothing.
    pub open spec fn inherited(
        kind: AccessorKind,
        field: FieldDescriptorView,
        local: DirectiveBlockView,
        global: DirectiveBlockView,
    ) -> Seq<AccessorSpecView> {
        if local.flag(kind) is None && global.flag(kind) is Some && !bears_name(
            FieldAccessorSetView::explicit_specs(field, local, global),
            FieldAccessorSetView::candidate(kind, field, local, global).name,
        ) {
            seq![FieldAccessorSetView::candidate(kind, field, local, global)]
        } else {
            seq![]
        }
    }

    /// The accessors that the field takes over from the schema's block, in the same order.
    pub open spec fn inherited_specs(
        field: FieldDescriptorView,
        local: DirectiveBlockView,
        global: DirectiveBlockView,
    ) -> Seq<AccessorSpecView> {
        FieldAccessorSetView::inherited(AccessorKind::GetterByReference, field, local, global)
            + FieldAccessorSetView::inherited(AccessorKind::GetterByValue, field, local, global)
            + FieldAccessorSetView::inherited(AccessorKind::Setter, field, local, global)
    }

    /// The accessor set of the field under its own block and the schema's.
    ///
    /// A skipped field gets nothing and cannot fail. Otherwise the explicit accessors come
    /// first, then the inherited ones; names that repeat among either are a collision.
    pub open spec fn resolve(
        field: FieldDescriptorView,
        local: DirectiveBlockView,
        global: DirectiveBlockView,
    ) -> Result<FieldAccessorSetView, ErrorKind> {
        if local.skip {
            Ok(FieldAccessorSetView { field, skip: true, specs: seq![] })
        } else if !distinct_names(FieldAccessorSetView::explicit_specs(field, local, global))
            || !distinct_names(FieldAccessorSetView::inherited_specs(field, local, global)) {
            Err(ErrorKind::AccessorNameCollision)
        } else {
            Ok(
                FieldAccessorSetView {
                    field,
                    skip: false,
                    specs: FieldAccessorSetView::explicit_specs(field, local, global)
                        + FieldAccessorSetView::inherited_specs(field, local, global),
                },
            )
        }
    }
}

/// Whether one of `specs` bears `name`.
fn any_named(specs: &Vec<AccessorSpec>, name: &String) -> (found: bool)
    ensures
        found == bears_name(specs.deep_view(), name@),
{
    let ghost all = specs.deep_view();
    let mut i: usize = 0;
    while i < specs.len()
        invariant
            i <= specs.len(),
            all == specs.deep_view(),
            forall|k: int| 0 <= k < i ==> (#[trigger] all[k]).name != name@,
        decreases specs.len() - i,
    {
        if specs[i].name == *name {
            assert(all[i as int].name == name@);
            return true;
        }
        i += 1;
    }
    false
}

/// Whether no two of `specs` share a name.
fn all_names_distinct(specs: &Vec<AccessorSpec>) -> (distinct: bool)
    ensures
        distinct == distinct_names(specs.deep_view()),
{
    let ghost all = specs.deep_view();
    let mut j: usize = 0;
    while j < specs.len()
        invariant
            j <= specs.len(),
            all == specs.deep_view(),
            forall|a: int, b: int|
                0 <= a < b < j ==> (#[trigger] all[a]).name != (#[trigger] all[b]).name,
        decreases specs.len() - j,
    {
        let mut i: usize = 0;
        while i < j
            invariant
                i <= j < specs.len(),
                all == specs.deep_view(),
                forall|a: int| 0 <= a < i ==> (#[trigger] all[a]).name != all[j as int].name,
            decreases j - i,
        {
            if specs[i].name == specs[j].name {
                assert(all[i as int].name == all[j as int].name);
                return false;
            }
            i += 1;
        }
        j += 1;
    }
    true
}

impl FieldAccessorSet {
    /// The options of the accessor of `kind`, all layers merged, highest first.
    pub fn layered(kind: AccessorKind, local: &DirectiveBlock, global: &DirectiveBlock) -> (options:
        OptionSet)
        ensures
            options@ == FieldAccessorSetView::layered(kind, local@, global@),
    {
        local.settings_for(kind).merge(local.defaults()).merge(global.settings_for(kind)).merge(
            global.defaults(),
        )
    }

    /// The accessor of `kind` on `field`, as the layers resolve it.
    fn candidate(
        kind: AccessorKind,
        field: &FieldDescriptor,
        local: &DirectiveBlock,
        global: &DirectiveBlock,
    ) -> (spec: AccessorSpec)
        ensures
            spec@ == FieldAccessorSetView::candidate(kind, field@, local@, global@),
    {
        AccessorSpec::synthesize(kind, FieldAccessorSet::layered(kind, local, global), field)
    }

    /// Appends the accessor of `kind` if the field's own block names that kind.
    fn push_explicit(
        specs: &mut Vec<AccessorSpec>,
        kind: AccessorKind,
        field: &FieldDescriptor,
        local: &DirectiveBlock,
        global: &DirectiveBlock,
    )
        ensures
            final(specs).deep_view() == old(specs).deep_view() + FieldAccessorSetView::explicit(
                kind,
                field@,
                local@,
                global@,
            ),
    {
        let ghost before = specs.deep_view();
        if local.names(kind) {
            let spec = FieldAccessorSet::candidate(kind, field, local, global);
            specs.push(spec);
            assert(specs.deep_view() =~= before + seq![spec@]);
        } else {
            assert(specs.deep_view() =~= before + Seq::<AccessorSpecView>::empty());
        }
    }

    /// Appends the accessor of `kind` if only the schema's block names that kind and none of
    /// `explicit` bears its name.
    fn push_inherited(
        specs: &mut Vec<AccessorSpec>,
        explicit: &Vec<AccessorSpec>,
        kind: AccessorKind,
        field: &FieldDescriptor,
        local: &DirectiveBlock,
        global: &DirectiveBlock,
    )
        requires
            explicit.deep_view() == FieldAccessorSetView::explicit_specs(field@, local@, global@),
        ensures
            final(specs).deep_view() == old(specs).deep_view() + FieldAccessorSetView::inherited(
                kind,
                field@,
                local@,
                global@,
            ),
    {
        let ghost before = specs.deep_view();
        if !local.names(kind) && global.names(kind) {
            let spec = FieldAccessorSet::candidate(kind, field, local, global);
            if !any_named(explicit, &spec.name) {
                specs.push(spec);
                assert(specs.deep_view() =~= before + seq![spec@]);
                return ;
            }
        }
        assert(specs.deep_view() =~= before + Seq::<AccessorSpecView>::empty());
    }

    /// Resolves the accessors of `field` from its own block and the schema's.
    ///
    /// Fails, with a name collision, exactly when two explicit accessors share a name or two
    /// of the inherited accessors that no explicit one displaces do.
    pub fn resolve(field: FieldDescriptor, local: &DirectiveBlock, global: &DirectiveBlock) -> (resolved:
        Result<FieldAccessorSet, ErrorKind>)
        ensures
            match resolved {
                Ok(set) => FieldAccessorSetView::resolve(field@, local@, global@) == Ok::<
                    FieldAccessorSetView,
                    ErrorKind,
                >(set@) && set@.well_formed(),
                Err(kind) => FieldAccessorSetView::resolve(field@, local@, global@) == Err::<
                    FieldAccessorSetView,
                    ErrorKind,
                >(kind),
            },
    {
        if local.skip {
            let specs: Vec<AccessorSpec> = Vec::new();
            assert(specs.deep_view() =~= Seq::<AccessorSpecView>::empty());
            return Ok(FieldAccessorSet { field, skip: true, specs });
        }
        let mut explicit: Vec<AccessorSpec> = Vec::new();
        assert(explicit.deep_view() =~= Seq::<AccessorSpecView>::empty());
        FieldAccessorSet::push_explicit(
            &mut explicit,
            AccessorKind::GetterByReference,
            &field,
            local,
            global,
        );
        FieldAccessorSet::push_explicit(
            &mut explicit,
            AccessorKind::GetterByValue,
            &field,
            local,
            global,
        );
        FieldAccessorSet::push_explicit(&mut explicit, AccessorKind::Setter, &field, local, global);
        assert(explicit.deep_view() =~= FieldAccessorSetView::explicit_specs(
            field@,
            local@,
            global@,
        ));
        if !all_names_distinct(&explicit) {
            return Err(ErrorKind::AccessorNameCollision);
        }
        let mut inherited: Vec<AccessorSpec> = Vec::new();
        assert(inherited.deep_view() =~= Seq::<AccessorSpecView>::empty());
        FieldAccessorSet::push_inherited(
            &mut inherited,
            &explicit,
            AccessorKind::GetterByReference,
            &field,
            local,
            global,
        );
        FieldAccessorSet::push_inherited(
            &mut inherited,
            &explicit,
            AccessorKind::GetterByValue,
            &field,
            local,
            global,
        );
        FieldAccessorSet::push_inherited(
            &mut inherited,
            &explicit,
            AccessorKind::Setter,
            &field,
            local,
            global,
        );
        assert(inherited.deep_view() =~= FieldAccessorSetView::inherited_specs(
            field@,
            local@,
            global@,
        ));
        if !all_names_distinct(&inherited) {
            return Err(ErrorKind::AccessorNameCollision);
        }
        let ghost own = explicit.deep_view();
        let ghost taken = inherited.deep_view();
        let mut specs = explicit;
        specs.append(&mut inherited);
        assert(specs.deep_view() =~= own + taken);
        proof {
            lemma_resolved_names_distinct(field@, local@, global@);
        }
        Ok(FieldAccessorSet { field, skip: false, specs })
    }
}

/// Every inherited accessor bears a name that no explicit accessor bears.
pub proof fn lemma_inherited_names_are_free(
    field: FieldDescriptorView,
    local: DirectiveBlockView,
    global: DirectiveBlockView,
)
    ensures
        forall|i: int|
            0 <= i < FieldAccessorSetView::inherited_specs(field, local, global).len()
                ==> !bears_name(
                FieldAccessorSetView::explicit_specs(field, local, global),
                (#[trigger] FieldAccessorSetView::inherited_specs(field, local, global)[i]).name,
            ),
{
}

/// Where neither the explicit nor the inherited accessors repeat a name, their union does
/// not either.
pub proof fn lemma_resolved_names_distinct(
    field: FieldDescriptorView,
    local: DirectiveBlockView,
    global: DirectiveBlockView,
)
    requires
        distinct_names(FieldAccessorSetView::explicit_specs(field, local, global)),
        distinct_names(FieldAccessorSetView::inherited_specs(field, local, global)),
    ensures
        distinct_names(
            FieldAccessorSetView::explicit_specs(field, local, global)
                + FieldAccessorSetView::inherited_specs(field, local, global),
        ),
{
    let own = FieldAccessorSetView::explicit_specs(field, local, global);
    let taken = FieldAccessorSetView::inherited_specs(field, local, global);
    let all = own + taken;
    lemma_inherited_names_are_free(field, local, global);
    assert forall|i: int, j: int| 0 <= i < j < all.len() implies (#[trigger] all[i]).name != (
    #[trigger] all[j]).name by {
        if j < own.len() {
            assert(own[i].name != own[j].name);
        } else if i >= own.len() {
            assert(taken[i - own.len()].name != taken[j - own.len()].name);
        } else {
            assert(!bears_name(own, taken[j - own.len()].name));
            assert(own[i].name != taken[j - own.len()].name);
        }
    }
}

/// Every resolved accessor set is well formed: no name occurs twice in it, and the set of a
/// skipped field is empty.
pub proof fn law_resolved_sets_are_well_formed(
    field: FieldDescriptorView,
    local: DirectiveBlockView,
    global: DirectiveBlockView,
)
    ensures
        FieldAccessorSetView::resolve(field, local, global) matches Ok(set) ==> set.well_formed(),
{
    if FieldAccessorSetView::resolve(field, local, global) is Ok && !local.skip {
        lemma_resolved_names_distinct(field, local, global);
    }
}

/// Precedence runs one way: for each property, the field's own flag decides if it sets the
/// property; else the field's `default(..)`; else the schema's flag for the kind; else the
/// schema's `default(..)`; and only where none of the four sets it, the built-in default.
pub proof fn law_precedence(
    kind: AccessorKind,
    field: FieldDescriptorView,
    local: DirectiveBlockView,
    global: DirectiveBlockView,
)
    ensures
        ({
            let flag = local.settings_for(kind);
            let own = local.defaults();
            let shared = global.settings_for(kind);
            let common = global.defaults();
            let spec = FieldAccessorSetView::candidate(kind, field, local, global);
            &&& spec.kind == kind
            &&& spec.name == if flag.rename is Some {
                flag.rename->0
            } else if own.rename is Some {
                own.rename->0
            } else if shared.rename is Some {
                shared.rename->0
            } else if common.rename is Some {
                common.rename->0
            } else {
                kind.spec_default_name(field.name)
            }
            &&& spec.inline == if flag.inline is Some {
                flag.inline->0
            } else if own.inline is Some {
                own.inline->0
            } else if shared.inline is Some {
                shared.inline->0
            } else if common.inline is Some {
                common.inline->0
            } else {
                Inline::Unmarked
            }
            &&& spec.visibility == if flag.visibility is Some {
                flag.visibility->0
            } else if own.visibility is Some {
                own.visibility->0
            } else if shared.visibility is Some {
                shared.visibility->0
            } else if common.visibility is Some {
                common.visibility->0
            } else {
                VisibilityView::Inherited
            }
        }),
{
}

/// Skip is absolute: a skipped field resolves to the empty set, whatever the schema's block
/// and the rest of its own block hold, and never fails.
pub proof fn law_skip_is_absolute(
    field: FieldDescriptorView,
    local: DirectiveBlockView,
    global: DirectiveBlockView,
)
    requires
        local.skip,
    ensures
        FieldAccessorSetView::resolve(field, local, global) == Ok::<
            FieldAccessorSetView,
            ErrorKind,
        >(FieldAccessorSetView { field, skip: true, specs: seq![] }),
{
}

/// A kind that the field names itself is never inherited as well: the resolved set holds
/// exactly one accessor of that kind, the field's own, whether or not the schema names the
/// kind too. Where the field's flag renames it, that accessor bears the field's rename.
pub proof fn law_local_overrides_global(
    kind: AccessorKind,
    field: FieldDescriptorView,
    local: DirectiveBlockView,
    global: DirectiveBlockView,
)
    requires
        !local.skip,
        local.flag(kind) is Some,
    ensures
        FieldAccessorSetView::resolve(field, local, global) matches Ok(set) ==> exists|i: int|
            {
                &&& 0 <= i < set.specs.len()
                &&& #[trigger] set.specs[i] == FieldAccessorSetView::candidate(
                    kind,
                    field,
                    local,
                    global,
                )
                &&& forall|j: int|
                    0 <= j < set.specs.len() && (#[trigger] set.specs[j]).kind == kind ==> j == i
            },
        local.flag(kind)->0.rename is Some ==> FieldAccessorSetView::candidate(
            kind,
            field,
            local,
            global,
        ).name == local.flag(kind)->0.rename->0,
{
    if FieldAccessorSetView::resolve(field, local, global) is Ok {
        let set = FieldAccessorSetView::resolve(field, local, global)->Ok_0;
        let getters = FieldAccessorSetView::explicit(
            AccessorKind::GetterByReference,
            field,
            local,
            global,
        );
        let copiers = FieldAccessorSetView::explicit(
            AccessorKind::GetterByValue,
            field,
            local,
            global,
        );
        let i: int = match kind {
            AccessorKind::GetterByReference => 0,
            AccessorKind::GetterByValue => getters.len() as int,
            AccessorKind::Setter => (getters.len() + copiers.len()) as int,
        };
        assert(set.specs[i] == FieldAccessorSetView::candidate(kind, field, local, global));
        assert forall|j: int| 0 <= j < set.specs.len() && (#[trigger] set.specs[j]).kind
            == kind implies j == i by {
            lemma_kinds_in_order(field, local, global, j);
        }
    }
}

/// The accessor at each place of a resolved set, by the place: explicit ones first, in the
/// order getter, copying getter, setter, then the inherited ones in that order.
proof fn lemma_kinds_in_order(
    field: FieldDescriptorView,
    local: DirectiveBlockView,
    global: DirectiveBlockView,
    j: int,
)
    requires
        FieldAccessorSetView::resolve(field, local, global) is Ok,
        !local.skip,
        0 <= j < FieldAccessorSetView::resolve(field, local, global)->Ok_0.specs.len(),
    ensures
        ({
            let set = FieldAccessorSetView::resolve(field, local, global)->Ok_0;
            let kind = set.specs[j].kind;
            let a = FieldAccessorSetView::explicit(
                AccessorKind::GetterByReference,
                field,
                local,
                global,
            ).len();
            let b = FieldAccessorSetView::explicit(
                AccessorKind::GetterByValue,
                field,
                local,
                global,
            ).len();
            local.flag(kind) is Some ==> j == match kind {
                AccessorKind::GetterByReference => 0,
                AccessorKind::GetterByValue => a as int,
                AccessorKind::Setter => (a + b) as int,
            }
        }),
{
}

} // verus!
