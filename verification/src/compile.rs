//! The declaration parser: compiling a declaration into a schema tree, or
//! rejecting it with a construction-time diagnostic.
//!
//! The whole semantics is stated first as spec functions; the executable
//! parser is proved to return exactly what they describe.  A declaration is
//! rejected fail-fast: the first offence, in declaration order, names the
//! error.
//!
//! Convention: an option is optional unless its annotation carries the bare
//! marker word `required`.

use vstd::prelude::*;

use crate::common::{
    AttrOption, ensure_tuple_variant, get_lit_string, str_eq, trim_spec, trim_str,
};
use crate::declaration::{
    Annotation, AnnotationView, CommandDeclaration, CommandDeclarationView, CommandsDeclaration,
    CommandsDeclarationView, DataDeclaration, DataDeclarationView, Declaration, DeclarationView,
    FieldDeclaration, FieldDeclarationView, GroupDeclaration, GroupDeclarationView, LitView,
    MetaItem, MetaItemView, VariantDeclaration, VariantDeclarationView, annotations_view,
    fields_view, lemma_payloads_view, lemma_variant_declarations_view, meta_items_view,
    variant_declarations_view,
};
use crate::error::{SchemaError, SchemaErrorView};
use crate::schema::{
    Command, CommandData, CommandDataView, CommandOption, CommandOptionKind, CommandOptionView,
    CommandView, Commands, CommandsEntry, CommandsEntryView, CommandsView, Group, GroupEntry,
    GroupEntryView, GroupView, SubCommand, SubCommandData, SubCommandDataView, SubCommandKind,
    SubCommandView, child_name, command_option_wf, command_wf, commands_wf, group_entry_wf,
    group_wf, kind_from_name, options_view, sub_command_wf, sub_commands_view, sub_kind_from_name,
    unique_child_names, unique_commands_entry_names, unique_group_entry_names,
    unique_option_names, valid_description, valid_name,
};

verus! {

// ---------------------------------------------------------------------------
// The compiler's semantics, as spec functions.
// ---------------------------------------------------------------------------

/// Scanning state while reading a name parameter and a description line.
#[verifier::ext_equal]
pub struct HeaderView {
    pub name: Option<Seq<char>>,
    pub description: Option<Seq<char>>,
}

pub open spec fn empty_header() -> HeaderView {
    HeaderView { name: None, description: None }
}

/// What scanning the entries of one relevant annotation list does to the
/// header state.
pub open spec fn scan_header_items(items: Seq<MetaItemView>, h: HeaderView) -> Result<
    HeaderView,
    SchemaErrorView,
>
    decreases items.len(),
{
    if items.len() == 0 {
        Ok(h)
    } else {
        match items[0] {
            MetaItemView::NameValue(key, lit) => {
                if key == "name"@ {
                    match lit {
                        LitView::Str(s) => {
                            if h.name is Some {
                                Err(SchemaErrorView::DuplicateParameter("name"@))
                            } else {
                                scan_header_items(
                                    items.drop_first(),
                                    HeaderView { name: Some(s), ..h },
                                )
                            }
                        },
                        _ => Err(SchemaErrorView::ExpectedString),
                    }
                } else {
                    Err(SchemaErrorView::UnknownMeta)
                }
            },
            _ => Err(SchemaErrorView::UnknownMeta),
        }
    }
}

/// What scanning a declaration's annotations under the given path does to
/// the header state.
pub open spec fn scan_header(
    anns: Seq<AnnotationView>,
    path: Seq<char>,
    h: HeaderView,
) -> Result<HeaderView, SchemaErrorView>
    decreases anns.len(),
{
    if anns.len() == 0 {
        Ok(h)
    } else {
        let rest = anns.drop_first();
        match anns[0] {
            AnnotationView::Doc(s) => {
                if h.description is Some {
                    Err(SchemaErrorView::DuplicateDescription)
                } else {
                    scan_header(rest, path, HeaderView { description: Some(trim_spec(s)), ..h })
                }
            },
            AnnotationView::List(p, items) => {
                if p == path {
                    match scan_header_items(items, h) {
                        Ok(h2) => scan_header(rest, path, h2),
                        Err(e) => Err(e),
                    }
                } else {
                    scan_header(rest, path, h)
                }
            },
            AnnotationView::Bare(p) => {
                if p == path {
                    Err(SchemaErrorView::ExpectedList(p))
                } else {
                    scan_header(rest, path, h)
                }
            },
        }
    }
}

/// The mandatory name and description a scanned header resolves to.
pub open spec fn resolve_header(h: HeaderView) -> Result<(Seq<char>, Seq<char>), SchemaErrorView> {
    match h.name {
        None => Err(SchemaErrorView::MissingName),
        Some(n) => match h.description {
            None => Err(SchemaErrorView::MissingDescription),
            Some(d) => {
                if !valid_name(n) {
                    Err(SchemaErrorView::InvalidName(n))
                } else if !valid_description(d) {
                    Err(SchemaErrorView::InvalidDescription(d))
                } else {
                    Ok((n, d))
                }
            },
        },
    }
}

/// Scanning state for one declared option.
#[verifier::ext_equal]
pub struct OptionScanView {
    pub name: Option<Seq<char>>,
    pub description: Option<Seq<char>>,
    pub kind: Option<CommandOptionKind>,
    pub required: Option<bool>,
}

pub open spec fn empty_option_scan() -> OptionScanView {
    OptionScanView { name: None, description: None, kind: None, required: None }
}

/// What scanning the entries of one option annotation list does to the
/// option state.
pub open spec fn scan_option_items(items: Seq<MetaItemView>, st: OptionScanView) -> Result<
    OptionScanView,
    SchemaErrorView,
>
    decreases items.len(),
{
    if items.len() == 0 {
        Ok(st)
    } else {
        let rest = items.drop_first();
        match items[0] {
            MetaItemView::Literal(_) => Err(SchemaErrorView::UnexpectedLiteral),
            MetaItemView::NameValue(key, lit) => {
                if key == "name"@ {
                    match lit {
                        LitView::Str(s) => {
                            if st.name is Some {
                                Err(SchemaErrorView::DuplicateParameter("name"@))
                            } else {
                                scan_option_items(rest, OptionScanView { name: Some(s), ..st })
                            }
                        },
                        _ => Err(SchemaErrorView::ExpectedString),
                    }
                } else {
                    Err(SchemaErrorView::UnknownMeta)
                }
            },
            MetaItemView::Word(w) => {
                if w == "required"@ {
                    if st.required is Some {
                        Err(SchemaErrorView::DuplicateParameter("required"@))
                    } else {
                        scan_option_items(rest, OptionScanView { required: Some(true), ..st })
                    }
                } else if st.kind is Some {
                    Err(SchemaErrorView::DuplicateKind)
                } else {
                    scan_option_items(rest, OptionScanView { kind: kind_from_name(w), ..st })
                }
            },
        }
    }
}

/// What scanning a field's annotations does to the option state.
pub open spec fn scan_option(anns: Seq<AnnotationView>, st: OptionScanView) -> Result<
    OptionScanView,
    SchemaErrorView,
>
    decreases anns.len(),
{
    if anns.len() == 0 {
        Ok(st)
    } else {
        let rest = anns.drop_first();
        match anns[0] {
            AnnotationView::Doc(s) => {
                if st.description is Some {
                    Err(SchemaErrorView::DuplicateDescription)
                } else {
                    scan_option(rest, OptionScanView { description: Some(trim_spec(s)), ..st })
                }
            },
            AnnotationView::List(p, items) => {
                if p == "option"@ {
                    match scan_option_items(items, st) {
                        Ok(st2) => scan_option(rest, st2),
                        Err(e) => Err(e),
                    }
                } else {
                    scan_option(rest, st)
                }
            },
            AnnotationView::Bare(p) => {
                if p == "option"@ {
                    Err(SchemaErrorView::ExpectedList(p))
                } else {
                    scan_option(rest, st)
                }
            },
        }
    }
}

/// The option a declared field compiles to.  Its name defaults to the field
/// identifier; it is required exactly when the `required` marker appears.
pub open spec fn compile_option(f: FieldDeclarationView) -> Result<
    CommandOptionView,
    SchemaErrorView,
> {
    match scan_option(f.annotations, empty_option_scan()) {
        Err(e) => Err(e),
        Ok(st) => {
            let name = match st.name {
                Some(n) => n,
                None => f.ident,
            };
            match st.description {
                None => Err(SchemaErrorView::MissingDescription),
                Some(d) => match st.kind {
                    None => Err(SchemaErrorView::MissingKind),
                    Some(k) => {
                        if !valid_name(name) {
                            Err(SchemaErrorView::InvalidName(name))
                        } else if !valid_description(d) {
                            Err(SchemaErrorView::InvalidDescription(d))
                        } else {
                            Ok(
                                CommandOptionView {
                                    name,
                                    description: d,
                                    kind: k,
                                    required: st.required == Some(true),
                                },
                            )
                        }
                    },
                },
            }
        },
    }
}

pub open spec fn has_option_named(os: Seq<CommandOptionView>, n: Seq<char>) -> bool {
    exists|i: int| 0 <= i < os.len() && os[i].name == n
}

/// The options a field list compiles to, fail-fast and in order.
pub open spec fn compile_options(
    fs: Seq<FieldDeclarationView>,
    acc: Seq<CommandOptionView>,
) -> Result<Seq<CommandOptionView>, SchemaErrorView>
    decreases fs.len(),
{
    if fs.len() == 0 {
        Ok(acc)
    } else {
        match compile_option(fs[0]) {
            Err(e) => Err(e),
            Ok(o) => {
                if has_option_named(acc, o.name) {
                    Err(SchemaErrorView::DuplicateName(o.name))
                } else {
                    compile_options(fs.drop_first(), acc.push(o))
                }
            },
        }
    }
}

/// The body a leaf declaration compiles to.
pub open spec fn compile_struct(fs: Seq<FieldDeclarationView>) -> Result<
    CommandDataView,
    SchemaErrorView,
> {
    if fs.len() > 25 {
        Err(SchemaErrorView::TooManyOptions)
    } else {
        match compile_options(fs, Seq::empty()) {
            Ok(os) => Ok(CommandDataView::Options(os)),
            Err(e) => Err(e),
        }
    }
}

/// What scanning the entries of one variant annotation list does to the
/// child-kind marker.
pub open spec fn scan_variant_items(
    items: Seq<MetaItemView>,
    kind: Option<SubCommandKind>,
) -> Result<Option<SubCommandKind>, SchemaErrorView>
    decreases items.len(),
{
    if items.len() == 0 {
        Ok(kind)
    } else {
        let rest = items.drop_first();
        match items[0] {
            MetaItemView::Literal(_) => Err(SchemaErrorView::UnexpectedLiteral),
            MetaItemView::Word(w) => {
                if kind is Some {
                    Err(SchemaErrorView::DuplicateKind)
                } else {
                    scan_variant_items(rest, sub_kind_from_name(w))
                }
            },
            _ => Err(SchemaErrorView::UnknownMeta),
        }
    }
}

/// What scanning a container variant's annotations yields: its child-kind
/// marker, if any.  Documentation lines on variants are ignored.
pub open spec fn scan_variant(
    anns: Seq<AnnotationView>,
    kind: Option<SubCommandKind>,
) -> Result<Option<SubCommandKind>, SchemaErrorView>
    decreases anns.len(),
{
    if anns.len() == 0 {
        Ok(kind)
    } else {
        let rest = anns.drop_first();
        match anns[0] {
            AnnotationView::List(p, items) => {
                if p == "option"@ {
                    match scan_variant_items(items, kind) {
                        Ok(k2) => scan_variant(rest, k2),
                        Err(e) => Err(e),
                    }
                } else {
                    scan_variant(rest, kind)
                }
            },
            AnnotationView::Bare(p) => {
                if p == "option"@ {
                    Err(SchemaErrorView::ExpectedList(p))
                } else {
                    scan_variant(rest, kind)
                }
            },
            _ => scan_variant(rest, kind),
        }
    }
}

/// The container child a variant compiles to: its marker must agree with
/// the single declaration it wraps, and a nested command must be a leaf.
pub open spec fn compile_sub_command(v: VariantDeclarationView) -> Result<
    SubCommandView,
    SchemaErrorView,
>
    decreases v, 3int,
{
    if v.payloads.len() != 1 {
        Err(SchemaErrorView::ExpectedSingleSubCommand(v.ident))
    } else {
        match scan_variant(v.annotations, None) {
            Err(e) => Err(e),
            Ok(kopt) => match kopt {
                None => Err(SchemaErrorView::MissingKind),
                Some(SubCommandKind::SubCommand) => match v.payloads[0] {
                    DeclarationView::Command(cd) => match compile_command(cd) {
                        Err(e) => Err(e),
                        Ok(c) => {
                            if c.data is SubCommands {
                                Err(SchemaErrorView::NestingTooDeep(v.ident))
                            } else {
                                Ok(
                                    SubCommandView {
                                        variant: v.ident,
                                        data: SubCommandDataView::SubCommand(c),
                                    },
                                )
                            }
                        },
                    },
                    DeclarationView::Group(_) => Err(SchemaErrorView::KindMismatch(v.ident)),
                },
                Some(SubCommandKind::Group) => match v.payloads[0] {
                    DeclarationView::Group(gd) => match compile_group(gd) {
                        Err(e) => Err(e),
                        Ok(g) => Ok(
                            SubCommandView { variant: v.ident, data: SubCommandDataView::Group(g) },
                        ),
                    },
                    DeclarationView::Command(_) => Err(SchemaErrorView::KindMismatch(v.ident)),
                },
            },
        }
    }
}

pub open spec fn has_child_named(ss: Seq<SubCommandView>, n: Seq<char>) -> bool {
    exists|i: int| 0 <= i < ss.len() && child_name(ss[i]) == n
}

/// The children a container's variant list compiles to, fail-fast and in
/// order, with sibling names kept unique.
pub open spec fn compile_sub_commands(
    vs: Seq<VariantDeclarationView>,
    acc: Seq<SubCommandView>,
) -> Result<Seq<SubCommandView>, SchemaErrorView>
    decreases vs, 0int,
{
    if vs.len() == 0 {
        Ok(acc)
    } else {
        match compile_sub_command(vs[0]) {
            Err(e) => Err(e),
            Ok(s) => {
                if has_child_named(acc, child_name(s)) {
                    Err(SchemaErrorView::DuplicateName(child_name(s)))
                } else {
                    compile_sub_commands(vs.subrange(1, vs.len() as int), acc.push(s))
                }
            },
        }
    }
}

/// The body a container declaration compiles to.
pub open spec fn compile_enum(vs: Seq<VariantDeclarationView>) -> Result<
    CommandDataView,
    SchemaErrorView,
>
    decreases vs, 1int,
{
    if vs.len() > 25 {
        Err(SchemaErrorView::TooManySubCommands)
    } else {
        match compile_sub_commands(vs, Seq::empty()) {
            Ok(ss) => Ok(CommandDataView::SubCommands(ss)),
            Err(e) => Err(e),
        }
    }
}

/// The command a declaration compiles to.
pub open spec fn compile_command(d: CommandDeclarationView) -> Result<CommandView, SchemaErrorView>
    decreases d, 2int,
{
    match scan_header(d.annotations, "command"@, empty_header()) {
        Err(e) => Err(e),
        Ok(h) => match resolve_header(h) {
            Err(e) => Err(e),
            Ok(nd) => match d.data {
                DataDeclarationView::Struct(fs) => match compile_struct(fs) {
                    Err(e) => Err(e),
                    Ok(data) => Ok(CommandView { name: nd.0, description: nd.1, data }),
                },
                DataDeclarationView::Enum(vs) => match compile_enum(vs) {
                    Err(e) => Err(e),
                    Ok(data) => Ok(CommandView { name: nd.0, description: nd.1, data }),
                },
            },
        },
    }
}

/// The leaf command a group variant compiles to.
pub open spec fn compile_group_entry(v: VariantDeclarationView) -> Result<
    GroupEntryView,
    SchemaErrorView,
>
    decreases v, 1int,
{
    if v.payloads.len() != 1 {
        Err(SchemaErrorView::ExpectedSingleSubCommand(v.ident))
    } else {
        match v.payloads[0] {
            DeclarationView::Command(cd) => match compile_command(cd) {
                Err(e) => Err(e),
                Ok(c) => {
                    if c.data is SubCommands {
                        Err(SchemaErrorView::NestingTooDeep(v.ident))
                    } else {
                        Ok(GroupEntryView { variant: v.ident, command: c })
                    }
                },
            },
            DeclarationView::Group(_) => Err(SchemaErrorView::NestingTooDeep(v.ident)),
        }
    }
}

pub open spec fn has_group_entry_named(es: Seq<GroupEntryView>, n: Seq<char>) -> bool {
    exists|i: int| 0 <= i < es.len() && es[i].command.name == n
}

/// The entries a group's variant list compiles to.
pub open spec fn compile_group_entries(
    vs: Seq<VariantDeclarationView>,
    acc: Seq<GroupEntryView>,
) -> Result<Seq<GroupEntryView>, SchemaErrorView>
    decreases vs, 0int,
{
    if vs.len() == 0 {
        Ok(acc)
    } else {
        match compile_group_entry(vs[0]) {
            Err(e) => Err(e),
            Ok(en) => {
                if has_group_entry_named(acc, en.command.name) {
                    Err(SchemaErrorView::DuplicateName(en.command.name))
                } else {
                    compile_group_entries(vs.subrange(1, vs.len() as int), acc.push(en))
                }
            },
        }
    }
}

/// The group a group declaration compiles to.
pub open spec fn compile_group(d: GroupDeclarationView) -> Result<GroupView, SchemaErrorView>
    decreases d, 2int,
{
    match scan_header(d.annotations, "group"@, empty_header()) {
        Err(e) => Err(e),
        Ok(h) => {
            if d.variants.len() > 25 {
                Err(SchemaErrorView::TooManySubCommands)
            } else {
                match compile_group_entries(d.variants, Seq::empty()) {
                    Err(e) => Err(e),
                    Ok(es) => match resolve_header(h) {
                        Err(e) => Err(e),
                        Ok(nd) => Ok(
                            GroupView { name: nd.0, description: nd.1, subcommands: es },
                        ),
                    },
                }
            }
        },
    }
}

/// The top-level command a registry variant compiles to; groups may not
/// stand at the top level.
pub open spec fn compile_commands_entry(v: VariantDeclarationView) -> Result<
    CommandsEntryView,
    SchemaErrorView,
>
    decreases v,
{
    if v.payloads.len() != 1 {
        Err(SchemaErrorView::ExpectedSingleSubCommand(v.ident))
    } else {
        match v.payloads[0] {
            DeclarationView::Command(cd) => match compile_command(cd) {
                Err(e) => Err(e),
                Ok(c) => Ok(CommandsEntryView { variant: v.ident, command: c }),
            },
            DeclarationView::Group(_) => Err(SchemaErrorView::GroupAtTopLevel(v.ident)),
        }
    }
}

pub open spec fn has_commands_entry_named(es: Seq<CommandsEntryView>, n: Seq<char>) -> bool {
    exists|i: int| 0 <= i < es.len() && es[i].command.name == n
}

/// The entries a registry's variant list compiles to.
pub open spec fn compile_commands_entries(
    vs: Seq<VariantDeclarationView>,
    acc: Seq<CommandsEntryView>,
) -> Result<Seq<CommandsEntryView>, SchemaErrorView>
    decreases vs,
{
    if vs.len() == 0 {
        Ok(acc)
    } else {
        match compile_commands_entry(vs[0]) {
            Err(e) => Err(e),
            Ok(en) => {
                if has_commands_entry_named(acc, en.command.name) {
                    Err(SchemaErrorView::DuplicateName(en.command.name))
                } else {
                    compile_commands_entries(vs.subrange(1, vs.len() as int), acc.push(en))
                }
            },
        }
    }
}

/// The registry a top-level declaration compiles to.
pub open spec fn compile_commands(d: CommandsDeclarationView) -> Result<
    CommandsView,
    SchemaErrorView,
> {
    match compile_commands_entries(d.variants, Seq::empty()) {
        Ok(es) => Ok(CommandsView { commands: es }),
        Err(e) => Err(e),
    }
}

// ---------------------------------------------------------------------------
// Compilation establishes the schema invariants.
// ---------------------------------------------------------------------------

pub proof fn lemma_compile_option_wf(f: FieldDeclarationView)
    ensures
        compile_option(f) matches Ok(o) ==> command_option_wf(o),
{
}

pub proof fn lemma_compile_options_wf(fs: Seq<FieldDeclarationView>, acc: Seq<CommandOptionView>)
    requires
        forall|i: int| 0 <= i < acc.len() ==> command_option_wf(#[trigger] acc[i]),
        unique_option_names(acc),
    ensures
        compile_options(fs, acc) matches Ok(os) ==> {
            &&& os.len() == acc.len() + fs.len()
            &&& forall|i: int| 0 <= i < os.len() ==> command_option_wf(#[trigger] os[i])
            &&& unique_option_names(os)
        },
    decreases fs.len(),
{
    if fs.len() > 0 {
        match compile_option(fs[0]) {
            Ok(o) => {
                lemma_compile_option_wf(fs[0]);
                if !has_option_named(acc, o.name) {
                    assert forall|i: int, j: int| 0 <= i < j < acc.push(o).len() implies acc.push(
                        o,
                    )[i].name != acc.push(o)[j].name by {
                        if j < acc.len() {
                        } else {
                            assert(acc.push(o)[i] == acc[i]);
                            assert(!(exists|t: int| 0 <= t < acc.len() && acc[t].name == o.name));
                        }
                    }
                    lemma_compile_options_wf(fs.drop_first(), acc.push(o));
                }
            },
            Err(_) => {},
        }
    }
}

pub proof fn lemma_compile_command_wf(d: CommandDeclarationView)
    ensures
        compile_command(d) matches Ok(c) ==> command_wf(c),
    decreases d, 2int,
{
    match scan_header(d.annotations, "command"@, empty_header()) {
        Ok(h) => match resolve_header(h) {
            Ok(nd) => match d.data {
                DataDeclarationView::Struct(fs) => {
                    if fs.len() <= 25 {
                        lemma_compile_options_wf(fs, Seq::empty());
                    }
                },
                DataDeclarationView::Enum(vs) => {
                    if vs.len() <= 25 {
                        lemma_compile_sub_commands_wf(vs, Seq::empty());
                        match compile_sub_commands(vs, Seq::empty()) {
                            Ok(ss) => {
                                crate::schema::lemma_sub_commands_wf(ss);
                            },
                            Err(_) => {},
                        }
                    }
                },
            },
            Err(_) => {},
        },
        Err(_) => {},
    }
}

pub proof fn lemma_compile_sub_command_wf(v: VariantDeclarationView)
    ensures
        compile_sub_command(v) matches Ok(s) ==> sub_command_wf(s),
    decreases v, 3int,
{
    if v.payloads.len() == 1 {
        match scan_variant(v.annotations, None) {
            Ok(kopt) => match kopt {
                Some(SubCommandKind::SubCommand) => match v.payloads[0] {
                    DeclarationView::Command(cd) => {
                        lemma_compile_command_wf(cd);
                    },
                    _ => {},
                },
                Some(SubCommandKind::Group) => match v.payloads[0] {
                    DeclarationView::Group(gd) => {
                        lemma_compile_group_wf(gd);
                    },
                    _ => {},
                },
                None => {},
            },
            Err(_) => {},
        }
    }
}

pub proof fn lemma_compile_sub_commands_wf(
    vs: Seq<VariantDeclarationView>,
    acc: Seq<SubCommandView>,
)
    requires
        forall|i: int| 0 <= i < acc.len() ==> sub_command_wf(#[trigger] acc[i]),
        unique_child_names(acc),
    ensures
        compile_sub_commands(vs, acc) matches Ok(ss) ==> {
            &&& ss.len() == acc.len() + vs.len()
            &&& forall|i: int| 0 <= i < ss.len() ==> sub_command_wf(#[trigger] ss[i])
            &&& unique_child_names(ss)
        },
    decreases vs, 0int,
{
    if vs.len() > 0 {
        match compile_sub_command(vs[0]) {
            Ok(s) => {
                lemma_compile_sub_command_wf(vs[0]);
                if !has_child_named(acc, child_name(s)) {
                    assert forall|i: int, j: int| 0 <= i < j < acc.push(s).len() implies child_name(
                        acc.push(s)[i],
                    ) != child_name(acc.push(s)[j]) by {
                        if j < acc.len() {
                        } else {
                            assert(acc.push(s)[i] == acc[i]);
                            assert(!(exists|t: int|
                                0 <= t < acc.len() && child_name(acc[t]) == child_name(s)));
                        }
                    }
                    lemma_compile_sub_commands_wf(vs.subrange(1, vs.len() as int), acc.push(s));
                }
            },
            Err(_) => {},
        }
    }
}

pub proof fn lemma_compile_group_entry_wf(v: VariantDeclarationView)
    ensures
        compile_group_entry(v) matches Ok(en) ==> group_entry_wf(en),
    decreases v, 1int,
{
    if v.payloads.len() == 1 {
        match v.payloads[0] {
            DeclarationView::Command(cd) => {
                lemma_compile_command_wf(cd);
            },
            _ => {},
        }
    }
}

pub proof fn lemma_compile_group_entries_wf(
    vs: Seq<VariantDeclarationView>,
    acc: Seq<GroupEntryView>,
)
    requires
        forall|i: int| 0 <= i < acc.len() ==> group_entry_wf(#[trigger] acc[i]),
        unique_group_entry_names(acc),
    ensures
        compile_group_entries(vs, acc) matches Ok(es) ==> {
            &&& es.len() == acc.len() + vs.len()
            &&& forall|i: int| 0 <= i < es.len() ==> group_entry_wf(#[trigger] es[i])
            &&& unique_group_entry_names(es)
        },
    decreases vs, 0int,
{
    if vs.len() > 0 {
        match compile_group_entry(vs[0]) {
            Ok(en) => {
                lemma_compile_group_entry_wf(vs[0]);
                if !has_group_entry_named(acc, en.command.name) {
                    assert forall|i: int, j: int| 0 <= i < j < acc.push(en).len() implies acc.push(
                        en,
                    )[i].command.name != acc.push(en)[j].command.name by {
                        if j < acc.len() {
                        } else {
                            assert(acc.push(en)[i] == acc[i]);
                            assert(!(exists|t: int|
                                0 <= t < acc.len() && acc[t].command.name == en.command.name));
                        }
                    }
                    lemma_compile_group_entries_wf(vs.subrange(1, vs.len() as int), acc.push(en));
                }
            },
            Err(_) => {},
        }
    }
}

pub proof fn lemma_compile_group_wf(d: GroupDeclarationView)
    ensures
        compile_group(d) matches Ok(g) ==> group_wf(g),
    decreases d, 2int,
{
    match scan_header(d.annotations, "group"@, empty_header()) {
        Ok(h) => {
            if d.variants.len() <= 25 {
                lemma_compile_group_entries_wf(d.variants, Seq::empty());
                match compile_group_entries(d.variants, Seq::empty()) {
                    Ok(es) => {
                        crate::schema::lemma_group_entries_wf(es);
                    },
                    Err(_) => {},
                }
            }
        },
        Err(_) => {},
    }
}

pub proof fn lemma_compile_commands_entries_wf(
    vs: Seq<VariantDeclarationView>,
    acc: Seq<CommandsEntryView>,
)
    requires
        forall|i: int| 0 <= i < acc.len() ==> command_wf(#[trigger] acc[i].command),
        unique_commands_entry_names(acc),
    ensures
        compile_commands_entries(vs, acc) matches Ok(es) ==> {
            &&& es.len() == acc.len() + vs.len()
            &&& forall|i: int| 0 <= i < es.len() ==> command_wf(#[trigger] es[i].command)
            &&& unique_commands_entry_names(es)
        },
    decreases vs,
{
    if vs.len() > 0 {
        match compile_commands_entry(vs[0]) {
            Ok(en) => {
                if vs[0].payloads.len() == 1 {
                    match vs[0].payloads[0] {
                        DeclarationView::Command(cd) => {
                            lemma_compile_command_wf(cd);
                        },
                        _ => {},
                    }
                }
                if !has_commands_entry_named(acc, en.command.name) {
                    assert forall|i: int, j: int| 0 <= i < j < acc.push(en).len() implies acc.push(
                        en,
                    )[i].command.name != acc.push(en)[j].command.name by {
                        if j < acc.len() {
                        } else {
                            assert(acc.push(en)[i] == acc[i]);
                            assert(!(exists|t: int|
                                0 <= t < acc.len() && acc[t].command.name == en.command.name));
                        }
                    }
                    lemma_compile_commands_entries_wf(
                        vs.subrange(1, vs.len() as int),
                        acc.push(en),
                    );
                }
            },
            Err(_) => {},
        }
    }
}

pub proof fn lemma_compile_commands_wf(d: CommandsDeclarationView)
    ensures
        compile_commands(d) matches Ok(cs) ==> commands_wf(cs),
{
    lemma_compile_commands_entries_wf(d.variants, Seq::empty());
    match compile_commands_entries(d.variants, Seq::empty()) {
        Ok(es) => {
            crate::schema::lemma_commands_entries_wf(es);
        },
        Err(_) => {},
    }
}

// ---------------------------------------------------------------------------
// The executable compiler.
// ---------------------------------------------------------------------------

/// The view of an optional string.
pub open spec fn opt_string_view(o: Option<String>) -> Option<Seq<char>> {
    match o {
        Some(s) => Some(s@),
        None => None,
    }
}

proof fn lemma_skip_step<A>(s: Seq<A>, i: int)
    requires
        0 <= i < s.len(),
    ensures
        s.skip(i).len() == s.len() - i,
        s.skip(i)[0] == s[i],
        s.skip(i).drop_first() == s.skip(i + 1),
{
    assert(s.skip(i).drop_first() =~= s.skip(i + 1));
}

#[verifier::loop_isolation(false)]
fn do_scan_header(anns: &Vec<Annotation>, path: &str) -> (r: Result<
    (Option<String>, Option<String>),
    SchemaError,
>)
    ensures
        match r {
            Ok(nd) => scan_header(annotations_view(anns@), path@, empty_header()) == Ok::<
                HeaderView,
                SchemaErrorView,
            >(HeaderView { name: opt_string_view(nd.0), description: opt_string_view(nd.1) }),
            Err(e) => scan_header(annotations_view(anns@), path@, empty_header()) == Err::<
                HeaderView,
                SchemaErrorView,
            >(e@),
        },
{
    let ghost full: Seq<AnnotationView> = annotations_view(anns@);
    let mut name: AttrOption<String> = AttrOption::new("name");
    let mut description: Option<String> = None;
    let mut i: usize = 0;
    proof {
        assert(full.skip(0) =~= full);
    }
    while i < anns.len()
        invariant
            i <= anns.len(),
            full == annotations_view(anns@),
            full.len() == anns@.len(),
            name.spec_name() == "name"@,
            scan_header(full, path@, empty_header()) == scan_header(
                full.skip(i as int),
                path@,
                HeaderView {
                    name: opt_string_view(name.spec_value()),
                    description: opt_string_view(description),
                },
            ),
        decreases anns.len() - i,
    {
        proof {
            lemma_skip_step(full, i as int);
        }
        let ghost h_entry = HeaderView {
            name: opt_string_view(name.spec_value()),
            description: opt_string_view(description),
        };
        match &anns[i] {
            Annotation::Doc(s) => {
                if description.is_some() {
                    return Err(SchemaError::DuplicateDescription);
                }
                description = Some(trim_str(s.as_str()));
            },
            Annotation::List(p, items) => {
                if str_eq(p.as_str(), path) {
                    let ghost items_full = meta_items_view(items@);
                    let mut j: usize = 0;
                    proof {
                        assert(items_full.skip(0) =~= items_full);
                    }
                    while j < items.len()
                        invariant
                            j <= items.len(),
                            items_full == meta_items_view(items@),
                            items_full.len() == items@.len(),
                            name.spec_name() == "name"@,
                            opt_string_view(description) == h_entry.description,
                            scan_header_items(items_full, h_entry) == scan_header_items(
                                items_full.skip(j as int),
                                HeaderView {
                                    name: opt_string_view(name.spec_value()),
                                    description: h_entry.description,
                                },
                            ),
                        decreases items.len() - j,
                    {
                        proof {
                            lemma_skip_step(items_full, j as int);
                        }
                        match &items[j] {
                            MetaItem::NameValue(key, lit) => {
                                if str_eq(key.as_str(), "name") {
                                    match get_lit_string(lit) {
                                        Ok(s) => {
                                            match name.set(s) {
                                                Ok(_) => {},
                                                Err(e) => {
                                                    return Err(e);
                                                },
                                            }
                                        },
                                        Err(e) => {
                                            return Err(e);
                                        },
                                    }
                                } else {
                                    return Err(SchemaError::UnknownMeta);
                                }
                            },
                            _ => {
                                return Err(SchemaError::UnknownMeta);
                            },
                        }
                        j += 1;
                    }
                    proof {
                        assert(items_full.skip(items@.len() as int) =~= Seq::<
                            MetaItemView,
                        >::empty());
                    }
                }
            },
            Annotation::Bare(p) => {
                if str_eq(p.as_str(), path) {
                    return Err(SchemaError::ExpectedList(p.clone()));
                }
            },
        }
        i += 1;
    }
    proof {
        assert(full.skip(anns@.len() as int) =~= Seq::<AnnotationView>::empty());
    }
    Ok((name.value(), description))
}

#[verifier::loop_isolation(false)]
fn do_scan_option(anns: &Vec<Annotation>) -> (r: Result<
    (Option<String>, Option<String>, Option<CommandOptionKind>, Option<bool>),
    SchemaError,
>)
    ensures
        match r {
            Ok(st) => scan_option(annotations_view(anns@), empty_option_scan()) == Ok::<
                OptionScanView,
                SchemaErrorView,
            >(
                OptionScanView {
                    name: opt_string_view(st.0),
                    description: opt_string_view(st.1),
                    kind: st.2,
                    required: st.3,
                },
            ),
            Err(e) => scan_option(annotations_view(anns@), empty_option_scan()) == Err::<
                OptionScanView,
                SchemaErrorView,
            >(e@),
        },
{
    let ghost full: Seq<AnnotationView> = annotations_view(anns@);
    let mut name: AttrOption<String> = AttrOption::new("name");
    let mut required: AttrOption<bool> = AttrOption::new("required");
    let mut description: Option<String> = None;
    let mut kind: Option<CommandOptionKind> = None;
    let mut i: usize = 0;
    proof {
        assert(full.skip(0) =~= full);
    }
    while i < anns.len()
        invariant
            i <= anns.len(),
            full.len() == anns@.len(),
            name.spec_name() == "name"@,
            required.spec_name() == "required"@,
            scan_option(full, empty_option_scan()) == scan_option(
                full.skip(i as int),
                OptionScanView {
                    name: opt_string_view(name.spec_value()),
                    description: opt_string_view(description),
                    kind: kind,
                    required: required.spec_value(),
                },
            ),
        decreases anns.len() - i,
    {
        proof {
            lemma_skip_step(full, i as int);
        }
        let ghost st_entry = OptionScanView {
            name: opt_string_view(name.spec_value()),
            description: opt_string_view(description),
            kind: kind,
            required: required.spec_value(),
        };
        match &anns[i] {
            Annotation::Doc(s) => {
                if description.is_some() {
                    return Err(SchemaError::DuplicateDescription);
                }
                description = Some(trim_str(s.as_str()));
            },
            Annotation::List(p, items) => {
                if str_eq(p.as_str(), "option") {
                    let ghost items_full = meta_items_view(items@);
                    let mut j: usize = 0;
                    proof {
                        assert(items_full.skip(0) =~= items_full);
                    }
                    while j < items.len()
                        invariant
                            j <= items.len(),
                            items_full.len() == items@.len(),
                            name.spec_name() == "name"@,
                            required.spec_name() == "required"@,
                            opt_string_view(description) == st_entry.description,
                            scan_option_items(items_full, st_entry) == scan_option_items(
                                items_full.skip(j as int),
                                OptionScanView {
                                    name: opt_string_view(name.spec_value()),
                                    description: st_entry.description,
                                    kind: kind,
                                    required: required.spec_value(),
                                },
                            ),
                        decreases items.len() - j,
                    {
                        proof {
                            lemma_skip_step(items_full, j as int);
                        }
                        match &items[j] {
                            MetaItem::Literal(_) => {
                                return Err(SchemaError::UnexpectedLiteral);
                            },
                            MetaItem::NameValue(key, lit) => {
                                if str_eq(key.as_str(), "name") {
                                    match get_lit_string(lit) {
                                        Ok(s) => {
                                            match name.set(s) {
                                                Ok(_) => {},
                                                Err(e) => {
                                                    return Err(e);
                                                },
                                            }
                                        },
                                        Err(e) => {
                                            return Err(e);
                                        },
                                    }
                                } else {
                                    return Err(SchemaError::UnknownMeta);
                                }
                            },
                            MetaItem::Word(w) => {
                                if str_eq(w.as_str(), "required") {
                                    match required.set(true) {
                                        Ok(_) => {},
                                        Err(e) => {
                                            return Err(e);
                                        },
                                    }
                                } else if kind.is_some() {
                                    return Err(SchemaError::DuplicateKind);
                                } else {
                                    kind = CommandOptionKind::new(w.as_str());
                                }
                            },
                        }
                        j += 1;
                    }
                    proof {
                        assert(items_full.skip(items@.len() as int) =~= Seq::<
                            MetaItemView,
                        >::empty());
                    }
                }
            },
            Annotation::Bare(p) => {
                if str_eq(p.as_str(), "option") {
                    return Err(SchemaError::ExpectedList(p.clone()));
                }
            },
        }
        i += 1;
    }
    proof {
        assert(full.skip(anns@.len() as int) =~= Seq::<AnnotationView>::empty());
    }
    Ok((name.value(), description, kind, required.value()))
}

#[verifier::loop_isolation(false)]
fn do_scan_variant(anns: &Vec<Annotation>) -> (r: Result<Option<SubCommandKind>, SchemaError>)
    ensures
        match r {
            Ok(k) => scan_variant(annotations_view(anns@), None) == Ok::<
                Option<SubCommandKind>,
                SchemaErrorView,
            >(k),
            Err(e) => scan_variant(annotations_view(anns@), None) == Err::<
                Option<SubCommandKind>,
                SchemaErrorView,
            >(e@),
        },
{
    let ghost full: Seq<AnnotationView> = annotations_view(anns@);
    let mut kind: Option<SubCommandKind> = None;
    let mut i: usize = 0;
    proof {
        assert(full.skip(0) =~= full);
    }
    while i < anns.len()
        invariant
            i <= anns.len(),
            full.len() == anns@.len(),
            scan_variant(full, None) == scan_variant(full.skip(i as int), kind),
        decreases anns.len() - i,
    {
        proof {
            lemma_skip_step(full, i as int);
        }
        let ghost k_entry = kind;
        match &anns[i] {
            Annotation::List(p, items) => {
                if str_eq(p.as_str(), "option") {
                    let ghost items_full = meta_items_view(items@);
                    let mut j: usize = 0;
                    proof {
                        assert(items_full.skip(0) =~= items_full);
                    }
                    while j < items.len()
                        invariant
                            j <= items.len(),
                            items_full.len() == items@.len(),
                            scan_variant_items(items_full, k_entry) == scan_variant_items(
                                items_full.skip(j as int),
                                kind,
                            ),
                        decreases items.len() - j,
                    {
                        proof {
                            lemma_skip_step(items_full, j as int);
                        }
                        match &items[j] {
                            MetaItem::Literal(_) => {
                                return Err(SchemaError::UnexpectedLiteral);
                            },
                            MetaItem::Word(w) => {
                                if kind.is_some() {
                                    return Err(SchemaError::DuplicateKind);
                                }
                                kind = SubCommandKind::new(w.as_str());
                            },
                            _ => {
                                return Err(SchemaError::UnknownMeta);
                            },
                        }
                        j += 1;
                    }
                    proof {
                        assert(items_full.skip(items@.len() as int) =~= Seq::<
                            MetaItemView,
                        >::empty());
                    }
                }
            },
            Annotation::Bare(p) => {
                if str_eq(p.as_str(), "option") {
                    return Err(SchemaError::ExpectedList(p.clone()));
                }
            },
            _ => {},
        }
        i += 1;
    }
    proof {
        assert(full.skip(anns@.len() as int) =~= Seq::<AnnotationView>::empty());
    }
    Ok(kind)
}

impl CommandOption {
    /// Compile one declared field into a typed option.
    pub fn new(field: &FieldDeclaration) -> (r: Result<CommandOption, SchemaError>)
        ensures
            match r {
                Ok(o) => compile_option(field@) == Ok::<CommandOptionView, SchemaErrorView>(o@)
                    && command_option_wf(o@),
                Err(e) => compile_option(field@) == Err::<CommandOptionView, SchemaErrorView>(e@),
            },
    {
        proof {
            lemma_compile_option_wf(field@);
        }
        let st = match do_scan_option(&field.annotations) {
            Ok(st) => st,
            Err(e) => {
                return Err(e);
            },
        };
        let (name_o, desc_o, kind_o, req_o) = st;
        let name = match name_o {
            Some(n) => n,
            None => field.ident.clone(),
        };
        let description = match desc_o {
            Some(d) => d,
            None => {
                return Err(SchemaError::MissingDescription);
            },
        };
        let kind = match kind_o {
            Some(k) => k,
            None => {
                return Err(SchemaError::MissingKind);
            },
        };
        let name_len = name.as_str().unicode_len();
        if name_len < 1 || name_len > 32 {
            return Err(SchemaError::InvalidName(name));
        }
        let desc_len = description.as_str().unicode_len();
        if desc_len < 1 || desc_len > 100 {
            return Err(SchemaError::InvalidDescription(description));
        }
        let required = match req_o {
            Some(b) => b,
            None => false,
        };
        Ok(CommandOption { name, description, kind, required })
    }
}

fn contains_option_named(os: &Vec<CommandOption>, n: &String) -> (r: bool)
    ensures
        r == has_option_named(options_view(os@), n@),
{
    let mut k: usize = 0;
    while k < os.len()
        invariant
            k <= os.len(),
            forall|t: int| 0 <= t < k ==> options_view(os@)[t].name != n@,
        decreases os.len() - k,
    {
        if str_eq(os[k].name.as_str(), n.as_str()) {
            proof {
                assert(options_view(os@)[k as int].name == n@);
            }
            return true;
        }
        k += 1;
    }
    false
}

/// Compile the named fields of a leaf declaration.
#[verifier::loop_isolation(false)]
fn parse_struct(fs: &Vec<FieldDeclaration>) -> (r: Result<CommandData, SchemaError>)
    ensures
        match r {
            Ok(d) => compile_struct(fields_view(fs@)) == Ok::<CommandDataView, SchemaErrorView>(
                d@,
            ),
            Err(e) => compile_struct(fields_view(fs@)) == Err::<CommandDataView, SchemaErrorView>(
                e@,
            ),
        },
{
    let ghost full: Seq<FieldDeclarationView> = fields_view(fs@);
    if fs.len() > 25 {
        return Err(SchemaError::TooManyOptions);
    }
    let mut options: Vec<CommandOption> = Vec::new();
    let mut i: usize = 0;
    proof {
        assert(full.skip(0) =~= full);
        assert(options_view(options@) =~= Seq::<CommandOptionView>::empty());
    }
    while i < fs.len()
        invariant
            i <= fs.len(),
            full.len() == fs@.len(),
            compile_options(full, Seq::empty()) == compile_options(
                full.skip(i as int),
                options_view(options@),
            ),
        decreases fs.len() - i,
    {
        proof {
            lemma_skip_step(full, i as int);
        }
        let o = match CommandOption::new(&fs[i]) {
            Ok(o) => o,
            Err(e) => {
                return Err(e);
            },
        };
        if contains_option_named(&options, &o.name) {
            return Err(SchemaError::DuplicateName(o.name));
        }
        let ghost old_options = options@;
        let ghost o_view = o@;
        options.push(o);
        proof {
            assert(options_view(options@) =~= options_view(old_options).push(o_view));
        }
        i += 1;
    }
    proof {
        assert(full.skip(fs@.len() as int) =~= Seq::<FieldDeclarationView>::empty());
    }
    Ok(CommandData::Options(options))
}

fn contains_child_named(ss: &Vec<SubCommand>, n: &String) -> (r: bool)
    ensures
        r == has_child_named(sub_commands_view(ss@), n@),
{
    proof {
        crate::schema::lemma_sub_commands_view(ss@);
    }
    let mut k: usize = 0;
    while k < ss.len()
        invariant
            k <= ss.len(),
            sub_commands_view(ss@).len() == ss@.len(),
            forall|t: int|
                0 <= t < ss@.len() ==> sub_commands_view(ss@)[t] == crate::schema::sub_command_view(
                    ss@[t],
                ),
            forall|t: int| 0 <= t < k ==> child_name(sub_commands_view(ss@)[t]) != n@,
        decreases ss.len() - k,
    {
        if str_eq(ss[k].name().as_str(), n.as_str()) {
            proof {
                assert(child_name(sub_commands_view(ss@)[k as int]) == n@);
            }
            return true;
        }
        k += 1;
    }
    false
}

impl SubCommand {
    /// Compile one container variant into a child node.
    pub fn new(v: &VariantDeclaration) -> (r: Result<SubCommand, SchemaError>)
        ensures
            match r {
                Ok(s) => compile_sub_command(v@) == Ok::<SubCommandView, SchemaErrorView>(s@)
                    && sub_command_wf(s@),
                Err(e) => compile_sub_command(v@) == Err::<SubCommandView, SchemaErrorView>(e@),
            },
        decreases *v,
    {
        proof {
            lemma_payloads_view(v.payloads@);
            lemma_compile_sub_command_wf(v@);
        }
        match ensure_tuple_variant(v) {
            Ok(_) => {},
            Err(e) => {
                return Err(e);
            },
        }
        let kind = match do_scan_variant(&v.annotations) {
            Ok(k) => k,
            Err(e) => {
                return Err(e);
            },
        };
        let kind = match kind {
            Some(k) => k,
            None => {
                return Err(SchemaError::MissingKind);
            },
        };
        match kind {
            SubCommandKind::SubCommand => match &v.payloads[0] {
                Declaration::Command(cd) => {
                    let c = match Command::new(cd) {
                        Ok(c) => c,
                        Err(e) => {
                            return Err(e);
                        },
                    };
                    match &c.data {
                        CommandData::SubCommands(_) => Err(
                            SchemaError::NestingTooDeep(v.ident.clone()),
                        ),
                        CommandData::Options(_) => Ok(
                            SubCommand {
                                variant: v.ident.clone(),
                                data: SubCommandData::SubCommand(c),
                            },
                        ),
                    }
                },
                Declaration::Group(_) => Err(SchemaError::KindMismatch(v.ident.clone())),
            },
            SubCommandKind::Group => match &v.payloads[0] {
                Declaration::Group(gd) => {
                    let g = match parse_group(gd) {
                        Ok(g) => g,
                        Err(e) => {
                            return Err(e);
                        },
                    };
                    Ok(SubCommand { variant: v.ident.clone(), data: SubCommandData::Group(g) })
                },
                Declaration::Command(_) => Err(SchemaError::KindMismatch(v.ident.clone())),
            },
        }
    }
}

/// Compile the variants of a container declaration.
#[verifier::loop_isolation(false)]
fn parse_enum(vs: &Vec<VariantDeclaration>) -> (r: Result<CommandData, SchemaError>)
    ensures
        match r {
            Ok(d) => compile_enum(variant_declarations_view(vs@)) == Ok::<
                CommandDataView,
                SchemaErrorView,
            >(d@),
            Err(e) => compile_enum(variant_declarations_view(vs@)) == Err::<
                CommandDataView,
                SchemaErrorView,
            >(e@),
        },
    decreases vs@,
{
    let ghost full: Seq<VariantDeclarationView> = variant_declarations_view(vs@);
    proof {
        lemma_variant_declarations_view(vs@);
    }
    if vs.len() > 25 {
        return Err(SchemaError::TooManySubCommands);
    }
    let mut subs: Vec<SubCommand> = Vec::new();
    let mut i: usize = 0;
    proof {
        assert(full.skip(0) =~= full);
        assert(sub_commands_view(subs@) =~= Seq::<SubCommandView>::empty());
    }
    while i < vs.len()
        invariant
            i <= vs.len(),
            full.len() == vs@.len(),
            compile_sub_commands(full, Seq::empty()) == compile_sub_commands(
                full.skip(i as int),
                sub_commands_view(subs@),
            ),
        decreases vs.len() - i,
    {
        proof {
            lemma_skip_step(full, i as int);
        }
        let s = match SubCommand::new(&vs[i]) {
            Ok(s) => s,
            Err(e) => {
                return Err(e);
            },
        };
        if contains_child_named(&subs, s.name()) {
            return Err(SchemaError::DuplicateName(s.name().clone()));
        }
        let ghost old_subs = subs@;
        let ghost s_view = s@;
        subs.push(s);
        proof {
            crate::schema::lemma_sub_commands_view_push(old_subs, subs@[old_subs.len() as int]);
        }
        i += 1;
    }
    proof {
        assert(full.skip(vs@.len() as int) =~= Seq::<VariantDeclarationView>::empty());
    }
    Ok(CommandData::SubCommands(subs))
}

impl Command {
    /// Compile a command declaration into a schema node.
    pub fn new(decl: &CommandDeclaration) -> (r: Result<Command, SchemaError>)
        ensures
            match r {
                Ok(c) => compile_command(decl@) == Ok::<CommandView, SchemaErrorView>(c@)
                    && command_wf(c@),
                Err(e) => compile_command(decl@) == Err::<CommandView, SchemaErrorView>(e@),
            },
        decreases *decl,
    {
        proof {
            lemma_compile_command_wf(decl@);
        }
        let nd = match do_scan_header(&decl.annotations, "command") {
            Ok(nd) => nd,
            Err(e) => {
                return Err(e);
            },
        };
        let (name_o, desc_o) = nd;
        let name = match name_o {
            Some(n) => n,
            None => {
                return Err(SchemaError::MissingName);
            },
        };
        let description = match desc_o {
            Some(d) => d,
            None => {
                return Err(SchemaError::MissingDescription);
            },
        };
        let name_len = name.as_str().unicode_len();
        if name_len < 1 || name_len > 32 {
            return Err(SchemaError::InvalidName(name));
        }
        let desc_len = description.as_str().unicode_len();
        if desc_len < 1 || desc_len > 100 {
            return Err(SchemaError::InvalidDescription(description));
        }
        let data = match &decl.data {
            DataDeclaration::Struct(fs) => match parse_struct(fs) {
                Ok(d) => d,
                Err(e) => {
                    return Err(e);
                },
            },
            DataDeclaration::Enum(vs) => match parse_enum(vs) {
                Ok(d) => d,
                Err(e) => {
                    return Err(e);
                },
            },
        };
        Ok(Command { name, description, data })
    }
}

fn group_entry_new(v: &VariantDeclaration) -> (r: Result<GroupEntry, SchemaError>)
    ensures
        match r {
            Ok(en) => compile_group_entry(v@) == Ok::<GroupEntryView, SchemaErrorView>(en@),
            Err(e) => compile_group_entry(v@) == Err::<GroupEntryView, SchemaErrorView>(e@),
        },
    decreases *v,
{
    proof {
        lemma_payloads_view(v.payloads@);
    }
    match ensure_tuple_variant(v) {
        Ok(_) => {},
        Err(e) => {
            return Err(e);
        },
    }
    match &v.payloads[0] {
        Declaration::Command(cd) => {
            let c = match Command::new(cd) {
                Ok(c) => c,
                Err(e) => {
                    return Err(e);
                },
            };
            match &c.data {
                CommandData::SubCommands(_) => Err(SchemaError::NestingTooDeep(v.ident.clone())),
                CommandData::Options(_) => Ok(GroupEntry { variant: v.ident.clone(), command: c }),
            }
        },
        Declaration::Group(_) => Err(SchemaError::NestingTooDeep(v.ident.clone())),
    }
}

fn contains_group_entry_named(es: &Vec<GroupEntry>, n: &String) -> (r: bool)
    ensures
        r == has_group_entry_named(crate::schema::group_entries_view(es@), n@),
{
    proof {
        crate::schema::lemma_group_entries_view(es@);
    }
    let mut k: usize = 0;
    while k < es.len()
        invariant
            k <= es.len(),
            crate::schema::group_entries_view(es@).len() == es@.len(),
            forall|t: int|
                0 <= t < es@.len() ==> crate::schema::group_entries_view(es@)[t]
                    == crate::schema::group_entry_view(es@[t]),
            forall|t: int|
                0 <= t < k ==> crate::schema::group_entries_view(es@)[t].command.name != n@,
        decreases es.len() - k,
    {
        if str_eq(es[k].command.name.as_str(), n.as_str()) {
            proof {
                assert(crate::schema::group_entries_view(es@)[k as int].command.name == n@);
            }
            return true;
        }
        k += 1;
    }
    false
}

/// Compile a group declaration into a group node.
#[verifier::loop_isolation(false)]
pub fn parse_group(decl: &GroupDeclaration) -> (r: Result<Group, SchemaError>)
    ensures
        match r {
            Ok(g) => compile_group(decl@) == Ok::<GroupView, SchemaErrorView>(g@) && group_wf(g@),
            Err(e) => compile_group(decl@) == Err::<GroupView, SchemaErrorView>(e@),
        },
    decreases *decl,
{
    proof {
        lemma_compile_group_wf(decl@);
    }
    let nd = match do_scan_header(&decl.annotations, "group") {
        Ok(nd) => nd,
        Err(e) => {
            return Err(e);
        },
    };
    let (name_o, desc_o) = nd;
    let ghost full: Seq<VariantDeclarationView> = variant_declarations_view(decl.variants@);
    proof {
        lemma_variant_declarations_view(decl.variants@);
    }
    if decl.variants.len() > 25 {
        return Err(SchemaError::TooManySubCommands);
    }
    let mut entries: Vec<GroupEntry> = Vec::new();
    let mut i: usize = 0;
    proof {
        assert(full.skip(0) =~= full);
        assert(crate::schema::group_entries_view(entries@) =~= Seq::<GroupEntryView>::empty());
    }
    while i < decl.variants.len()
        invariant
            i <= decl.variants.len(),
            full.len() == decl.variants@.len(),
            compile_group_entries(full, Seq::empty()) == compile_group_entries(
                full.skip(i as int),
                crate::schema::group_entries_view(entries@),
            ),
        decreases decl.variants.len() - i,
    {
        proof {
            lemma_skip_step(full, i as int);
        }
        let en = match group_entry_new(&decl.variants[i]) {
            Ok(en) => en,
            Err(e) => {
                return Err(e);
            },
        };
        if contains_group_entry_named(&entries, &en.command.name) {
            return Err(SchemaError::DuplicateName(en.command.name.clone()));
        }
        let ghost old_entries = entries@;
        entries.push(en);
        proof {
            crate::schema::lemma_group_entries_view_push(
                old_entries,
                entries@[old_entries.len() as int],
            );
        }
        i += 1;
    }
    proof {
        assert(full.skip(decl.variants@.len() as int) =~= Seq::<VariantDeclarationView>::empty());
    }
    let name = match name_o {
        Some(n) => n,
        None => {
            return Err(SchemaError::MissingName);
        },
    };
    let description = match desc_o {
        Some(d) => d,
        None => {
            return Err(SchemaError::MissingDescription);
        },
    };
    let name_len = name.as_str().unicode_len();
    if name_len < 1 || name_len > 32 {
        return Err(SchemaError::InvalidName(name));
    }
    let desc_len = description.as_str().unicode_len();
    if desc_len < 1 || desc_len > 100 {
        return Err(SchemaError::InvalidDescription(description));
    }
    Ok(Group { name, description, subcommands: entries })
}

fn commands_entry_new(v: &VariantDeclaration) -> (r: Result<CommandsEntry, SchemaError>)
    ensures
        match r {
            Ok(en) => compile_commands_entry(v@) == Ok::<CommandsEntryView, SchemaErrorView>(en@),
            Err(e) => compile_commands_entry(v@) == Err::<CommandsEntryView, SchemaErrorView>(e@),
        },
{
    proof {
        lemma_payloads_view(v.payloads@);
    }
    match ensure_tuple_variant(v) {
        Ok(_) => {},
        Err(e) => {
            return Err(e);
        },
    }
    match &v.payloads[0] {
        Declaration::Command(cd) => {
            let c = match Command::new(cd) {
                Ok(c) => c,
                Err(e) => {
                    return Err(e);
                },
            };
            Ok(CommandsEntry { variant: v.ident.clone(), command: c })
        },
        Declaration::Group(_) => Err(SchemaError::GroupAtTopLevel(v.ident.clone())),
    }
}

fn contains_commands_entry_named(es: &Vec<CommandsEntry>, n: &String) -> (r: bool)
    ensures
        r == has_commands_entry_named(crate::schema::commands_entries_view(es@), n@),
{
    proof {
        crate::schema::lemma_commands_entries_view(es@);
    }
    let mut k: usize = 0;
    while k < es.len()
        invariant
            k <= es.len(),
            crate::schema::commands_entries_view(es@).len() == es@.len(),
            forall|t: int|
                0 <= t < es@.len() ==> crate::schema::commands_entries_view(es@)[t]
                    == crate::schema::commands_entry_view(es@[t]),
            forall|t: int|
                0 <= t < k ==> crate::schema::commands_entries_view(es@)[t].command.name != n@,
        decreases es.len() - k,
    {
        if str_eq(es[k].command.name.as_str(), n.as_str()) {
            proof {
                assert(crate::schema::commands_entries_view(es@)[k as int].command.name == n@);
            }
            return true;
        }
        k += 1;
    }
    false
}

/// Compile the top-level command-set declaration into a registry.
#[verifier::loop_isolation(false)]
pub fn parse_commands(decl: &CommandsDeclaration) -> (r: Result<Commands, SchemaError>)
    ensures
        match r {
            Ok(cs) => compile_commands(decl@) == Ok::<CommandsView, SchemaErrorView>(cs@)
                && commands_wf(cs@),
            Err(e) => compile_commands(decl@) == Err::<CommandsView, SchemaErrorView>(e@),
        },
{
    proof {
        lemma_compile_commands_wf(decl@);
    }
    let ghost full: Seq<VariantDeclarationView> = variant_declarations_view(decl.variants@);
    proof {
        lemma_variant_declarations_view(decl.variants@);
    }
    let mut entries: Vec<CommandsEntry> = Vec::new();
    let mut i: usize = 0;
    proof {
        assert(full.skip(0) =~= full);
        assert(crate::schema::commands_entries_view(entries@) =~= Seq::<
            CommandsEntryView,
        >::empty());
    }
    while i < decl.variants.len()
        invariant
            i <= decl.variants.len(),
            full.len() == decl.variants@.len(),
            compile_commands_entries(full, Seq::empty()) == compile_commands_entries(
                full.skip(i as int),
                crate::schema::commands_entries_view(entries@),
            ),
        decreases decl.variants.len() - i,
    {
        proof {
            lemma_skip_step(full, i as int);
        }
        let en = match commands_entry_new(&decl.variants[i]) {
            Ok(en) => en,
            Err(e) => {
                return Err(e);
            },
        };
        if contains_commands_entry_named(&entries, &en.command.name) {
            return Err(SchemaError::DuplicateName(en.command.name.clone()));
        }
        let ghost old_entries = entries@;
        entries.push(en);
        proof {
            crate::schema::lemma_commands_entries_view_push(
                old_entries,
                entries@[old_entries.len() as int],
            );
        }
        i += 1;
    }
    proof {
        assert(full.skip(decl.variants@.len() as int) =~= Seq::<VariantDeclarationView>::empty());
    }
    Ok(Commands { commands: entries })
}

} // verus!
