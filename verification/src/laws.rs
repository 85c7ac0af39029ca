//! Global properties of the schema compiler and the interaction parser,
//! proved over the spec-level semantics that every executable function is
//! bound to by its contract.

use vstd::prelude::*;

use crate::compile::{compile_command, compile_group, empty_header, resolve_header, scan_header};
use crate::descriptor::{command_descriptor, kind_descriptor};
use crate::declaration::{CommandDeclarationView, DataDeclarationView, GroupDeclarationView};
use crate::error::{ParseErrorView, SchemaErrorView};
use crate::interaction::{
    DataOptionView, InteractionDataView, TypedValueView, ValueView, apply_entries, find_child,
    find_option, first_missing, lemma_find_option, lemma_first_missing, parse_command_spec,
    parse_options_spec, parse_subcommand_group_spec, parse_subcommand_spec, prepend_path,
    value_kind,
};
use crate::schema::{
    CommandOptionView, CommandView, GroupView, SubCommandDataView, child_name,
    unique_option_names,
};

verus! {

/// Whether some payload entry carries the given name.
pub open spec fn entry_named(entries: Seq<DataOptionView>, n: Seq<char>) -> bool {
    exists|k: int| 0 <= k < entries.len() && entries[k].name == n
}

/// Whether a payload entry names a declared option and, if it carries a
/// value, carries one of the declared kind.
pub open spec fn entry_clean(os: Seq<CommandOptionView>, e: DataOptionView) -> bool {
    &&& find_option(os, e.name) >= 0
    &&& (e.resolved matches Some(v) ==> value_kind(v) == os[find_option(os, e.name)].kind)
}

proof fn lemma_apply_entries_len(
    os: Seq<CommandOptionView>,
    entries: Seq<DataOptionView>,
    vals: Seq<Option<ValueView>>,
)
    requires
        vals.len() == os.len(),
    ensures
        apply_entries(os, entries, vals) matches Ok(v2) ==> v2.len() == os.len(),
    decreases entries.len(),
{
    if entries.len() > 0 {
        let e = entries[0];
        let idx = find_option(os, e.name);
        if idx >= 0 {
            match e.resolved {
                None => {
                    lemma_apply_entries_len(os, entries.drop_first(), vals);
                },
                Some(v) => {
                    if value_kind(v) == os[idx].kind {
                        lemma_find_option(os, e.name);
                        lemma_apply_entries_len(
                            os,
                            entries.drop_first(),
                            vals.update(idx, Some(v)),
                        );
                    }
                },
            }
        }
    }
}

/// Parsing a leaf neither invents nor drops slots, and on success every
/// required slot is filled.
pub proof fn lemma_parse_ok_required_present(
    os: Seq<CommandOptionView>,
    entries: Seq<DataOptionView>,
)
    ensures
        parse_options_spec(os, entries) matches Ok(vals) ==> {
            &&& vals.len() == os.len()
            &&& forall|i: int| 0 <= i < os.len() && #[trigger] os[i].required ==> vals[i] is Some
        },
{
    let init = Seq::new(os.len(), |i: int| None::<ValueView>);
    lemma_apply_entries_len(os, entries, init);
    match apply_entries(os, entries, init) {
        Ok(vals) => {
            lemma_first_missing(os, vals);
        },
        Err(_) => {},
    }
}

proof fn lemma_apply_entries_stores(
    os: Seq<CommandOptionView>,
    entries: Seq<DataOptionView>,
    vals: Seq<Option<ValueView>>,
)
    requires
        unique_option_names(os),
        vals.len() == os.len(),
        forall|k: int| 0 <= k < entries.len() ==> entry_clean(os, #[trigger] entries[k]),
        forall|k: int| 0 <= k < entries.len() ==> (#[trigger] entries[k]).resolved is Some,
    ensures
        apply_entries(os, entries, vals) matches Ok(v2) && v2.len() == os.len() && (forall|i: int|
            0 <= i < os.len() ==> ((#[trigger] v2[i]) is Some <==> (vals[i] is Some || entry_named(
                entries,
                os[i].name,
            )))),
    decreases entries.len(),
{
    if entries.len() == 0 {
        assert(forall|i: int|
            0 <= i < os.len() ==> !entry_named(entries, (#[trigger] os[i]).name));
    } else {
        let e = entries[0];
        assert(entry_clean(os, entries[0]));
        assert(entries[0].resolved is Some);
        let idx = find_option(os, e.name);
        lemma_find_option(os, e.name);
        let v = e.resolved->0;
        let vals2 = vals.update(idx, Some(v));
        let rest = entries.drop_first();
        assert(forall|k: int| 0 <= k < rest.len() ==> rest[k] == entries[k + 1]);
        lemma_apply_entries_stores(os, rest, vals2);
        match apply_entries(os, rest, vals2) {
            Ok(v2) => {
                assert forall|i: int| 0 <= i < os.len() implies ((#[trigger] v2[i]) is Some <==> (
                vals[i] is Some || entry_named(entries, os[i].name))) by {
                    if i == idx {
                        assert(vals2[i] is Some);
                        assert(entries[0].name == os[i].name);
                        assert(entry_named(entries, os[i].name));
                    } else {
                        assert(vals2[i] == vals[i]);
                        // distinct sibling names: only the slot at idx is
                        // named by this entry
                        if os[i].name == e.name {
                            if i < idx {
                                assert(os[i].name != e.name);
                            } else {
                                assert(os[idx].name == os[i].name);
                                assert(false);
                            }
                        }
                        if entry_named(entries, os[i].name) {
                            let k = choose|k: int|
                                0 <= k < entries.len() && (#[trigger] entries[k]).name
                                    == os[i].name;
                            if k > 0 {
                                assert(rest[k - 1].name == os[i].name);
                                assert(entry_named(rest, os[i].name));
                            }
                        }
                        if entry_named(rest, os[i].name) {
                            let k = choose|k: int|
                                0 <= k < rest.len() && (#[trigger] rest[k]).name == os[i].name;
                            assert(entries[k + 1].name == os[i].name);
                            assert(entry_named(entries, os[i].name));
                        }
                    }
                }
            },
            Err(_) => {},
        }
    }
}

/// For a payload whose entries all name declared options and carry values
/// of the declared kinds, omitting some required option makes the parse
/// fail with `MissingOption` naming the first omitted required option —
/// so when exactly one is omitted, naming exactly that option.
pub proof fn lemma_missing_required_option(
    os: Seq<CommandOptionView>,
    entries: Seq<DataOptionView>,
)
    requires
        unique_option_names(os),
        forall|k: int| 0 <= k < entries.len() ==> entry_clean(os, #[trigger] entries[k]),
        forall|k: int| 0 <= k < entries.len() ==> (#[trigger] entries[k]).resolved is Some,
        exists|i: int|
            0 <= i < os.len() && (#[trigger] os[i]).required && !entry_named(entries, os[i].name),
    ensures
        exists|m: int|
            {
                &&& 0 <= m < os.len()
                &&& (#[trigger] os[m]).required
                &&& !entry_named(entries, os[m].name)
                &&& (forall|j: int|
                    0 <= j < m ==> !((#[trigger] os[j]).required && !entry_named(
                        entries,
                        os[j].name,
                    )))
                &&& parse_options_spec(os, entries) == Err::<
                    Seq<Option<ValueView>>,
                    ParseErrorView,
                >(ParseErrorView::MissingOption(os[m].name))
            },
{
    let init = Seq::new(os.len(), |i: int| None::<ValueView>);
    lemma_apply_entries_stores(os, entries, init);
    match apply_entries(os, entries, init) {
        Ok(vals) => {
            lemma_first_missing(os, vals);
            let w = choose|i: int|
                0 <= i < os.len() && (#[trigger] os[i]).required && !entry_named(
                    entries,
                    os[i].name,
                );
            assert(vals[w] is None);
            assert(first_missing(os, vals) != -1);
            let m = first_missing(os, vals);
            assert(os[m].required && vals[m] is None);
            assert(!entry_named(entries, os[m].name));
            assert forall|j: int| 0 <= j < m implies !((#[trigger] os[j]).required && !entry_named(
                entries,
                os[j].name,
            )) by {
                if os[j].required && !entry_named(entries, os[j].name) {
                    assert(vals[j] is None);
                    assert(false);
                }
            }
            assert({
                &&& 0 <= m < os.len()
                &&& os[m].required
                &&& !entry_named(entries, os[m].name)
                &&& (forall|j: int|
                    0 <= j < m ==> !((#[trigger] os[j]).required && !entry_named(
                        entries,
                        os[j].name,
                    )))
                &&& parse_options_spec(os, entries) == Err::<
                    Seq<Option<ValueView>>,
                    ParseErrorView,
                >(ParseErrorView::MissingOption(os[m].name))
            });
        },
        Err(_) => {
            assert(false);
        },
    }
}

/// A payload containing any entry whose name is absent from the schema
/// never parses successfully, regardless of the other entries' validity.
pub proof fn lemma_unknown_option_fails(os: Seq<CommandOptionView>, entries: Seq<DataOptionView>)
    requires
        exists|k: int| 0 <= k < entries.len() && find_option(os, (#[trigger] entries[k]).name) == -1,
    ensures
        parse_options_spec(os, entries) is Err,
{
    lemma_unknown_option_fails_apply(
        os,
        entries,
        Seq::new(os.len(), |i: int| None::<ValueView>),
    );
}

proof fn lemma_unknown_option_fails_apply(
    os: Seq<CommandOptionView>,
    entries: Seq<DataOptionView>,
    vals: Seq<Option<ValueView>>,
)
    requires
        exists|k: int| 0 <= k < entries.len() && find_option(os, (#[trigger] entries[k]).name) == -1,
    ensures
        apply_entries(os, entries, vals) is Err,
    decreases entries.len(),
{
    let k = choose|k: int|
        0 <= k < entries.len() && find_option(os, (#[trigger] entries[k]).name) == -1;
    if k == 0 {
    } else {
        let e = entries[0];
        let idx = find_option(os, e.name);
        if idx >= 0 {
            let rest = entries.drop_first();
            assert(rest[k - 1] == entries[k]);
            assert(find_option(os, rest[k - 1].name) == -1);
            match e.resolved {
                None => {
                    lemma_unknown_option_fails_apply(os, rest, vals);
                },
                Some(v) => {
                    if value_kind(v) == os[idx].kind {
                        lemma_unknown_option_fails_apply(os, rest, vals.update(idx, Some(v)));
                    }
                },
            }
        }
    }
}

/// When the first offending entry of a payload names an option absent from
/// the schema, the parse fails with `UnknownOption` naming exactly that
/// entry.
pub proof fn lemma_unknown_option_exact(
    os: Seq<CommandOptionView>,
    entries: Seq<DataOptionView>,
    k: int,
)
    requires
        0 <= k < entries.len(),
        forall|j: int| 0 <= j < k ==> entry_clean(os, #[trigger] entries[j]),
        find_option(os, entries[k].name) == -1,
    ensures
        parse_options_spec(os, entries) == Err::<Seq<Option<ValueView>>, ParseErrorView>(
            ParseErrorView::UnknownOption(entries[k].name),
        ),
{
    lemma_unknown_option_exact_rec(
        os,
        entries,
        k,
        Seq::new(os.len(), |i: int| None::<ValueView>),
    );
}

proof fn lemma_unknown_option_exact_rec(
    os: Seq<CommandOptionView>,
    entries: Seq<DataOptionView>,
    k: int,
    vals: Seq<Option<ValueView>>,
)
    requires
        0 <= k < entries.len(),
        vals.len() == os.len(),
        forall|j: int| 0 <= j < k ==> entry_clean(os, #[trigger] entries[j]),
        find_option(os, entries[k].name) == -1,
    ensures
        apply_entries(os, entries, vals) == Err::<Seq<Option<ValueView>>, ParseErrorView>(
            ParseErrorView::UnknownOption(entries[k].name),
        ),
    decreases entries.len(),
{
    if k == 0 {
    } else {
        let e = entries[0];
        assert(entry_clean(os, entries[0]));
        let idx = find_option(os, e.name);
        let rest = entries.drop_first();
        assert(forall|j: int| 0 <= j < rest.len() ==> rest[j] == entries[j + 1]);
        lemma_find_option(os, e.name);
        match e.resolved {
            None => {
                lemma_unknown_option_exact_rec(os, rest, k - 1, vals);
            },
            Some(v) => {
                lemma_unknown_option_exact_rec(os, rest, k - 1, vals.update(idx, Some(v)));
            },
        }
    }
}

/// When the first offending entry of a payload carries a value whose
/// runtime kind differs from the declared kind — an `integer` option
/// receiving a `string`, say — the parse fails with `InvalidType` carrying
/// the declared kind.
pub proof fn lemma_invalid_type(os: Seq<CommandOptionView>, entries: Seq<DataOptionView>, k: int)
    requires
        0 <= k < entries.len(),
        forall|j: int| 0 <= j < k ==> entry_clean(os, #[trigger] entries[j]),
        find_option(os, entries[k].name) >= 0,
        entries[k].resolved is Some,
        value_kind(entries[k].resolved->0) != os[find_option(os, entries[k].name)].kind,
    ensures
        parse_options_spec(os, entries) == Err::<Seq<Option<ValueView>>, ParseErrorView>(
            ParseErrorView::InvalidType(os[find_option(os, entries[k].name)].kind),
        ),
{
    lemma_invalid_type_rec(os, entries, k, Seq::new(os.len(), |i: int| None::<ValueView>));
}

proof fn lemma_invalid_type_rec(
    os: Seq<CommandOptionView>,
    entries: Seq<DataOptionView>,
    k: int,
    vals: Seq<Option<ValueView>>,
)
    requires
        0 <= k < entries.len(),
        vals.len() == os.len(),
        forall|j: int| 0 <= j < k ==> entry_clean(os, #[trigger] entries[j]),
        find_option(os, entries[k].name) >= 0,
        entries[k].resolved is Some,
        value_kind(entries[k].resolved->0) != os[find_option(os, entries[k].name)].kind,
    ensures
        apply_entries(os, entries, vals) == Err::<Seq<Option<ValueView>>, ParseErrorView>(
            ParseErrorView::InvalidType(os[find_option(os, entries[k].name)].kind),
        ),
    decreases entries.len(),
{
    if k == 0 {
    } else {
        let e = entries[0];
        assert(entry_clean(os, entries[0]));
        let idx = find_option(os, e.name);
        let rest = entries.drop_first();
        assert(forall|j: int| 0 <= j < rest.len() ==> rest[j] == entries[j + 1]);
        lemma_find_option(os, e.name);
        match e.resolved {
            None => {
                lemma_invalid_type_rec(os, rest, k - 1, vals);
            },
            Some(v) => {
                lemma_invalid_type_rec(os, rest, k - 1, vals.update(idx, Some(v)));
            },
        }
    }
}

/// A container payload selecting a declared child name recurses into that
/// child and wraps its result in the matching variant tag; selecting an
/// undeclared name fails with `UnknownSubCommand` naming it.
pub proof fn lemma_container_selection(c: CommandView, data: InteractionDataView)
    requires
        data.name == c.name,
        c.data is SubCommands,
        data.options.len() > 0,
    ensures
        ({
            let ss = c.data->SubCommands_0;
            let sel = data.options[0];
            let idx = find_child(ss, sel.name);
            &&& (idx == -1 ==> parse_command_spec(c, data) == Err::<
                TypedValueView,
                ParseErrorView,
            >(ParseErrorView::UnknownSubCommand(sel.name)))
            &&& (idx >= 0 ==> parse_command_spec(c, data) == prepend_path(
                ss[idx].variant,
                match ss[idx].data {
                    SubCommandDataView::SubCommand(child) => parse_subcommand_spec(child, sel),
                    SubCommandDataView::Group(g) => parse_subcommand_group_spec(g, sel),
                },
            ))
            &&& (idx >= 0 ==> (parse_command_spec(c, data) matches Ok(t) ==> t.path.len() >= 1
                && t.path[0] == ss[idx].variant))
        }),
{
}

/// A group payload selecting a declared child name recurses into that leaf
/// and wraps its result in the matching variant tag; an undeclared name
/// fails with `UnknownSubCommand`, and an entry that does not carry the
/// group's own name fails with `UnknownSubCommandGroup`.
pub proof fn lemma_group_selection(g: GroupView, opt: DataOptionView)
    ensures
        opt.name != g.name ==> parse_subcommand_group_spec(g, opt) == Err::<
            TypedValueView,
            ParseErrorView,
        >(ParseErrorView::UnknownSubCommandGroup(opt.name)),
        opt.name == g.name && opt.options.len() > 0 ==> ({
            let sel = opt.options[0];
            let idx = crate::interaction::find_group_entry(g.subcommands, sel.name);
            &&& (idx == -1 ==> parse_subcommand_group_spec(g, opt) == Err::<
                TypedValueView,
                ParseErrorView,
            >(ParseErrorView::UnknownSubCommand(sel.name)))
            &&& (idx >= 0 ==> parse_subcommand_group_spec(g, opt) == prepend_path(
                g.subcommands[idx].variant,
                parse_subcommand_spec(g.subcommands[idx].command, sel),
            ))
        }),
{
}

/// Parsing is a function of the schema and the payload alone: repeated
/// parses of one payload reproduce the same typed value or the same error.
pub proof fn lemma_parse_deterministic(
    c: CommandView,
    data: InteractionDataView,
    r1: Result<TypedValueView, ParseErrorView>,
    r2: Result<TypedValueView, ParseErrorView>,
)
    requires
        r1 == parse_command_spec(c, data),
        r2 == parse_command_spec(c, data),
    ensures
        r1 == r2,
{
}

/// The two back ends read one tree and stay consistent: a leaf command's
/// descriptor lists exactly one entry per declared option, in declaration
/// order, with the same name, kind and required flag that the parser
/// matches payload entries against.
pub proof fn lemma_descriptor_parser_consistent(c: CommandView)
    requires
        c.data is Options,
    ensures
        ({
            let os = c.data->Options_0;
            let d = command_descriptor(c);
            &&& d.entries.len() == os.len()
            &&& forall|i: int|
                0 <= i < os.len() ==> {
                    &&& (#[trigger] d.entries[i]).name == os[i].name
                    &&& d.entries[i].kind == kind_descriptor(os[i].kind)
                    &&& d.entries[i].required == os[i].required
                }
        }),
{
}

/// The same consistency one level up: a container command's descriptor
/// lists exactly one entry per declared child, in declaration order, under
/// the same name the parser resolves a selection by.
pub proof fn lemma_descriptor_children_consistent(c: CommandView)
    requires
        c.data is SubCommands,
    ensures
        ({
            let ss = c.data->SubCommands_0;
            let d = command_descriptor(c);
            &&& d.entries.len() == ss.len()
            &&& forall|i: int|
                0 <= i < ss.len() ==> (#[trigger] d.entries[i]).name == child_name(ss[i])
        }),
{
}

/// A leaf declaration with more than 25 options fails schema construction;
/// when its header is well formed the diagnosis is `TooManyOptions`.
pub proof fn lemma_too_many_options(d: CommandDeclarationView)
    requires
        d.data matches DataDeclarationView::Struct(fs) && fs.len() > 25,
    ensures
        compile_command(d) is Err,
        (match scan_header(d.annotations, "command"@, empty_header()) {
            Ok(h) => resolve_header(h) is Ok ==> compile_command(d) == Err::<
                CommandView,
                SchemaErrorView,
            >(SchemaErrorView::TooManyOptions),
            Err(_) => true,
        }),
{
}

/// A container declaration with more than 25 children fails schema
/// construction; when its header is well formed the diagnosis is
/// `TooManySubCommands`.
pub proof fn lemma_too_many_sub_commands(d: CommandDeclarationView)
    requires
        d.data matches DataDeclarationView::Enum(vs) && vs.len() > 25,
    ensures
        compile_command(d) is Err,
        (match scan_header(d.annotations, "command"@, empty_header()) {
            Ok(h) => resolve_header(h) is Ok ==> compile_command(d) == Err::<
                CommandView,
                SchemaErrorView,
            >(SchemaErrorView::TooManySubCommands),
            Err(_) => true,
        }),
{
}

/// A group declaration with more than 25 children fails schema
/// construction; when its annotations scan the diagnosis is
/// `TooManySubCommands`.
pub proof fn lemma_too_many_group_children(d: GroupDeclarationView)
    requires
        d.variants.len() > 25,
    ensures
        compile_group(d) is Err,
        scan_header(d.annotations, "group"@, empty_header()) is Ok ==> compile_group(d) == Err::<
            GroupView,
            SchemaErrorView,
        >(SchemaErrorView::TooManySubCommands),
{
}

} // verus!
