//! The interaction parser: walking the schema tree against an incoming
//! untyped payload, producing a typed value or a precise parse error.
//!
//! The semantics is stated first as spec functions; the executable parser
//! is proved to return exactly what they describe.  Matching is strictly by
//! name; declaration order only determines which missing-required error
//! surfaces first.

use vstd::prelude::*;

use crate::error::{ParseError, ParseErrorView};
use crate::schema::{
    Command, CommandDataView, CommandOption, CommandOptionKind, CommandOptionView, CommandView,
    Commands, CommandsEntryView, Group, GroupEntryView, GroupView, SubCommandDataView,
    SubCommandView, child_name,
};

verus! {

/// A runtime-kind-tagged argument value.  A `Number` carries the raw bit
/// pattern of the platform's floating-point value; this library never
/// interprets it.  `Mention`, `User`, `Channel` and `Role` carry the
/// referenced entity's numeric id.
#[derive(Clone, Debug, PartialEq, Eq)]
pub enum Value {
    Boolean(bool),
    String(String),
    Integer(i64),
    Number(u64),
    Mention(u64),
    User(u64),
    Channel(u64),
    Role(u64),
}

/// One named entry of an interaction payload: a leaf argument carrying a
/// resolved value, or a selected child carrying nested entries.
#[derive(Debug, PartialEq, Eq)]
pub struct DataOption {
    pub name: String,
    pub resolved: Option<Value>,
    pub options: Vec<DataOption>,
}

/// A received interaction: the invoked command's name and its entries.
#[derive(Debug, PartialEq, Eq)]
pub struct InteractionData {
    pub name: String,
    pub options: Vec<DataOption>,
}

/// A successfully parsed interaction, shaped like the declaration:
/// `path` holds the variant tags of the selected children, outermost
/// first — empty for a flat command, one tag per nesting level otherwise —
/// and `values` holds one slot per declared option of the reached leaf, in
/// declaration order, with required slots always filled.
#[derive(Debug, PartialEq, Eq)]
pub struct TypedValue {
    pub path: Vec<String>,
    pub values: Vec<Option<Value>>,
}

// ---------------------------------------------------------------------------
// Views.
// ---------------------------------------------------------------------------

#[verifier::ext_equal]
pub enum ValueView {
    Boolean(bool),
    String(Seq<char>),
    Integer(i64),
    Number(u64),
    Mention(u64),
    User(u64),
    Channel(u64),
    Role(u64),
}

#[verifier::ext_equal]
pub struct DataOptionView {
    pub name: Seq<char>,
    pub resolved: Option<ValueView>,
    pub options: Seq<DataOptionView>,
}

#[verifier::ext_equal]
pub struct InteractionDataView {
    pub name: Seq<char>,
    pub options: Seq<DataOptionView>,
}

#[verifier::ext_equal]
pub struct TypedValueView {
    pub path: Seq<Seq<char>>,
    pub values: Seq<Option<ValueView>>,
}

pub open spec fn value_view(v: Value) -> ValueView {
    match v {
        Value::Boolean(b) => ValueView::Boolean(b),
        Value::String(s) => ValueView::String(s@),
        Value::Integer(n) => ValueView::Integer(n),
        Value::Number(bits) => ValueView::Number(bits),
        Value::Mention(id) => ValueView::Mention(id),
        Value::User(id) => ValueView::User(id),
        Value::Channel(id) => ValueView::Channel(id),
        Value::Role(id) => ValueView::Role(id),
    }
}

impl View for Value {
    type V = ValueView;

    open spec fn view(&self) -> ValueView {
        value_view(*self)
    }
}

pub open spec fn opt_value_view(o: Option<Value>) -> Option<ValueView> {
    match o {
        Some(v) => Some(value_view(v)),
        None => None,
    }
}

pub open spec fn data_option_view(d: DataOption) -> DataOptionView
    decreases d,
{
    DataOptionView {
        name: d.name@,
        resolved: opt_value_view(d.resolved),
        options: data_options_view(d.options@),
    }
}

pub open spec fn data_options_view(ds: Seq<DataOption>) -> Seq<DataOptionView>
    decreases ds,
{
    if ds.len() == 0 {
        Seq::empty()
    } else {
        seq![data_option_view(ds[0])] + data_options_view(ds.subrange(1, ds.len() as int))
    }
}

impl View for DataOption {
    type V = DataOptionView;

    open spec fn view(&self) -> DataOptionView {
        data_option_view(*self)
    }
}

impl View for InteractionData {
    type V = InteractionDataView;

    open spec fn view(&self) -> InteractionDataView {
        InteractionDataView { name: self.name@, options: data_options_view(self.options@) }
    }
}

/// The view of a path of variant tags.
pub open spec fn path_view(s: Seq<String>) -> Seq<Seq<char>> {
    s.map_values(|x: String| x@)
}

/// The view of a slot assignment.
pub open spec fn values_view(s: Seq<Option<Value>>) -> Seq<Option<ValueView>> {
    s.map_values(|o: Option<Value>| opt_value_view(o))
}

impl View for TypedValue {
    type V = TypedValueView;

    open spec fn view(&self) -> TypedValueView {
        TypedValueView { path: path_view(self.path@), values: values_view(self.values@) }
    }
}

pub proof fn lemma_data_options_view(ds: Seq<DataOption>)
    ensures
        data_options_view(ds).len() == ds.len(),
        forall|i: int| 0 <= i < ds.len() ==> data_options_view(ds)[i] == data_option_view(ds[i]),
    decreases ds,
{
    if ds.len() > 0 {
        lemma_data_options_view(ds.subrange(1, ds.len() as int));
    }
}

pub proof fn lemma_data_options_view_drop_first(ds: Seq<DataOption>)
    requires
        ds.len() > 0,
    ensures
        data_options_view(ds.remove(0)) == data_options_view(ds).drop_first(),
{
    assert(ds.remove(0) =~= ds.subrange(1, ds.len() as int));
    assert(data_options_view(ds).drop_first() =~= data_options_view(
        ds.subrange(1, ds.len() as int),
    ));
}

// ---------------------------------------------------------------------------
// The parser's semantics, as spec functions.
// ---------------------------------------------------------------------------

/// The kind tag a runtime value carries.
pub open spec fn value_kind(v: ValueView) -> CommandOptionKind {
    match v {
        ValueView::Boolean(_) => CommandOptionKind::Boolean,
        ValueView::String(_) => CommandOptionKind::String,
        ValueView::Integer(_) => CommandOptionKind::Integer,
        ValueView::Number(_) => CommandOptionKind::Number,
        ValueView::Mention(_) => CommandOptionKind::Mention,
        ValueView::User(_) => CommandOptionKind::User,
        ValueView::Channel(_) => CommandOptionKind::Channel,
        ValueView::Role(_) => CommandOptionKind::Role,
    }
}

/// The first declared option with the given name, or -1.
pub open spec fn find_option(os: Seq<CommandOptionView>, n: Seq<char>) -> int
    decreases os.len(),
{
    if os.len() == 0 {
        -1
    } else if os[0].name == n {
        0
    } else {
        let r = find_option(os.drop_first(), n);
        if r < 0 {
            -1
        } else {
            r + 1
        }
    }
}

pub proof fn lemma_find_option(os: Seq<CommandOptionView>, n: Seq<char>)
    ensures
        find_option(os, n) == -1 <==> (forall|i: int| 0 <= i < os.len() ==> os[i].name != n),
        find_option(os, n) != -1 ==> {
            let r = find_option(os, n);
            &&& 0 <= r < os.len()
            &&& os[r].name == n
            &&& forall|i: int| 0 <= i < r ==> os[i].name != n
        },
    decreases os.len(),
{
    if os.len() > 0 && os[0].name != n {
        lemma_find_option(os.drop_first(), n);
        assert(forall|i: int| 1 <= i < os.len() ==> os.drop_first()[i - 1] == os[i]);
    }
}

/// The first still-absent required option, or -1.
pub open spec fn first_missing(os: Seq<CommandOptionView>, vals: Seq<Option<ValueView>>) -> int
    decreases os.len(),
{
    if os.len() == 0 {
        -1
    } else if os[0].required && vals[0] is None {
        0
    } else {
        let r = first_missing(os.drop_first(), vals.drop_first());
        if r < 0 {
            -1
        } else {
            r + 1
        }
    }
}

pub proof fn lemma_first_missing(os: Seq<CommandOptionView>, vals: Seq<Option<ValueView>>)
    requires
        os.len() == vals.len(),
    ensures
        first_missing(os, vals) == -1 <==> (forall|i: int|
            0 <= i < os.len() ==> !(os[i].required && vals[i] is None)),
        first_missing(os, vals) != -1 ==> {
            let r = first_missing(os, vals);
            &&& 0 <= r < os.len()
            &&& os[r].required && vals[r] is None
            &&& forall|i: int| 0 <= i < r ==> !(os[i].required && vals[i] is None)
        },
    decreases os.len(),
{
    if os.len() > 0 && !(os[0].required && vals[0] is None) {
        lemma_first_missing(os.drop_first(), vals.drop_first());
        assert(forall|i: int| 1 <= i < os.len() ==> os.drop_first()[i - 1] == os[i]);
        assert(forall|i: int| 1 <= i < vals.len() ==> vals.drop_first()[i - 1] == vals[i]);
    }
}

/// What consuming the payload entries, in order, does to the slot
/// assignment: an unknown name fails at once; a matched name with a value
/// of the declared kind stores it; a matched name without a resolved value
/// leaves the slot as it was; a kind mismatch fails with the declared kind.
pub open spec fn apply_entries(
    os: Seq<CommandOptionView>,
    entries: Seq<DataOptionView>,
    vals: Seq<Option<ValueView>>,
) -> Result<Seq<Option<ValueView>>, ParseErrorView>
    decreases entries.len(),
{
    if entries.len() == 0 {
        Ok(vals)
    } else {
        let e = entries[0];
        let idx = find_option(os, e.name);
        if idx < 0 {
            Err(ParseErrorView::UnknownOption(e.name))
        } else {
            match e.resolved {
                None => apply_entries(os, entries.drop_first(), vals),
                Some(v) => {
                    if value_kind(v) == os[idx].kind {
                        apply_entries(os, entries.drop_first(), vals.update(idx, Some(v)))
                    } else {
                        Err(ParseErrorView::InvalidType(os[idx].kind))
                    }
                },
            }
        }
    }
}

/// The slot assignment a leaf parse produces: all slots start absent, the
/// entries are consumed in order, and the first still-absent required
/// option fails.
pub open spec fn parse_options_spec(
    os: Seq<CommandOptionView>,
    entries: Seq<DataOptionView>,
) -> Result<Seq<Option<ValueView>>, ParseErrorView> {
    match apply_entries(os, entries, Seq::new(os.len(), |i: int| None::<ValueView>)) {
        Err(e) => Err(e),
        Ok(vals) => {
            let m = first_missing(os, vals);
            if m >= 0 {
                Err(ParseErrorView::MissingOption(os[m].name))
            } else {
                Ok(vals)
            }
        },
    }
}

/// The typed value a leaf command parse produces from its entries.
pub open spec fn parse_spec(c: CommandView, entries: Seq<DataOptionView>) -> Result<
    TypedValueView,
    ParseErrorView,
>
    recommends
        c.data is Options,
{
    match c.data {
        CommandDataView::Options(os) => match parse_options_spec(os, entries) {
            Ok(vals) => Ok(TypedValueView { path: Seq::empty(), values: vals }),
            Err(e) => Err(e),
        },
        CommandDataView::SubCommands(_) => Err(ParseErrorView::MissingOption(c.name)),
    }
}

/// Wrapping a result in the matching variant tag.
pub open spec fn prepend_path(variant: Seq<char>, r: Result<TypedValueView, ParseErrorView>) -> Result<
    TypedValueView,
    ParseErrorView,
> {
    match r {
        Ok(t) => Ok(TypedValueView { path: seq![variant] + t.path, values: t.values }),
        Err(e) => Err(e),
    }
}

/// What a leaf command does with a selected entry: the name must be its
/// own, then its entries parse as options.
pub open spec fn parse_subcommand_spec(c: CommandView, opt: DataOptionView) -> Result<
    TypedValueView,
    ParseErrorView,
>
    recommends
        c.data is Options,
{
    if opt.name != c.name {
        Err(ParseErrorView::UnknownSubCommand(opt.name))
    } else {
        parse_spec(c, opt.options)
    }
}

/// The first group child with the given name, or -1.
pub open spec fn find_group_entry(es: Seq<GroupEntryView>, n: Seq<char>) -> int
    decreases es.len(),
{
    if es.len() == 0 {
        -1
    } else if es[0].command.name == n {
        0
    } else {
        let r = find_group_entry(es.drop_first(), n);
        if r < 0 {
            -1
        } else {
            r + 1
        }
    }
}

pub proof fn lemma_find_group_entry(es: Seq<GroupEntryView>, n: Seq<char>)
    ensures
        find_group_entry(es, n) == -1 <==> (forall|i: int|
            0 <= i < es.len() ==> es[i].command.name != n),
        find_group_entry(es, n) != -1 ==> {
            let r = find_group_entry(es, n);
            &&& 0 <= r < es.len()
            &&& es[r].command.name == n
            &&& forall|i: int| 0 <= i < r ==> es[i].command.name != n
        },
    decreases es.len(),
{
    if es.len() > 0 && es[0].command.name != n {
        lemma_find_group_entry(es.drop_first(), n);
        assert(forall|i: int| 1 <= i < es.len() ==> es.drop_first()[i - 1] == es[i]);
    }
}

/// What a group does with a selected entry: the name must be its own;
/// the entry must itself select exactly one declared child, which then
/// parses as a subcommand wrapped in its variant tag.  An empty selection
/// is rejected defensively with the group's own name.
pub open spec fn parse_subcommand_group_spec(g: GroupView, opt: DataOptionView) -> Result<
    TypedValueView,
    ParseErrorView,
> {
    if opt.name != g.name {
        Err(ParseErrorView::UnknownSubCommandGroup(opt.name))
    } else if opt.options.len() == 0 {
        Err(ParseErrorView::MissingOption(g.name))
    } else {
        let sel = opt.options[0];
        let idx = find_group_entry(g.subcommands, sel.name);
        if idx < 0 {
            Err(ParseErrorView::UnknownSubCommand(sel.name))
        } else {
            prepend_path(
                g.subcommands[idx].variant,
                parse_subcommand_spec(g.subcommands[idx].command, sel),
            )
        }
    }
}

/// The first container child with the given name, or -1.
pub open spec fn find_child(ss: Seq<SubCommandView>, n: Seq<char>) -> int
    decreases ss.len(),
{
    if ss.len() == 0 {
        -1
    } else if child_name(ss[0]) == n {
        0
    } else {
        let r = find_child(ss.drop_first(), n);
        if r < 0 {
            -1
        } else {
            r + 1
        }
    }
}

pub proof fn lemma_find_child(ss: Seq<SubCommandView>, n: Seq<char>)
    ensures
        find_child(ss, n) == -1 <==> (forall|i: int|
            0 <= i < ss.len() ==> child_name(ss[i]) != n),
        find_child(ss, n) != -1 ==> {
            let r = find_child(ss, n);
            &&& 0 <= r < ss.len()
            &&& child_name(ss[r]) == n
            &&& forall|i: int| 0 <= i < r ==> child_name(ss[i]) != n
        },
    decreases ss.len(),
{
    if ss.len() > 0 && child_name(ss[0]) != n {
        lemma_find_child(ss.drop_first(), n);
        assert(forall|i: int| 1 <= i < ss.len() ==> ss.drop_first()[i - 1] == ss[i]);
    }
}

/// What a command does with a whole interaction: the name must be its own;
/// a leaf parses its entries as options, and a container requires a
/// selection naming a declared child, recursing and wrapping in the
/// matching variant tag.  An empty selection is rejected defensively with
/// the command's own name.
pub open spec fn parse_command_spec(c: CommandView, data: InteractionDataView) -> Result<
    TypedValueView,
    ParseErrorView,
> {
    if data.name != c.name {
        Err(ParseErrorView::UnknownCommand(data.name))
    } else {
        match c.data {
            CommandDataView::Options(os) => match parse_options_spec(os, data.options) {
                Ok(vals) => Ok(TypedValueView { path: Seq::empty(), values: vals }),
                Err(e) => Err(e),
            },
            CommandDataView::SubCommands(ss) => {
                if data.options.len() == 0 {
                    Err(ParseErrorView::MissingOption(c.name))
                } else {
                    let sel = data.options[0];
                    let idx = find_child(ss, sel.name);
                    if idx < 0 {
                        Err(ParseErrorView::UnknownSubCommand(sel.name))
                    } else {
                        match ss[idx].data {
                            SubCommandDataView::SubCommand(child) => prepend_path(
                                ss[idx].variant,
                                parse_subcommand_spec(child, sel),
                            ),
                            SubCommandDataView::Group(g) => prepend_path(
                                ss[idx].variant,
                                parse_subcommand_group_spec(g, sel),
                            ),
                        }
                    }
                }
            },
        }
    }
}

/// The first registered command with the given name, or -1.
pub open spec fn find_commands_entry(es: Seq<CommandsEntryView>, n: Seq<char>) -> int
    decreases es.len(),
{
    if es.len() == 0 {
        -1
    } else if es[0].command.name == n {
        0
    } else {
        let r = find_commands_entry(es.drop_first(), n);
        if r < 0 {
            -1
        } else {
            r + 1
        }
    }
}

pub proof fn lemma_find_commands_entry(es: Seq<CommandsEntryView>, n: Seq<char>)
    ensures
        find_commands_entry(es, n) == -1 <==> (forall|i: int|
            0 <= i < es.len() ==> es[i].command.name != n),
        find_commands_entry(es, n) != -1 ==> {
            let r = find_commands_entry(es, n);
            &&& 0 <= r < es.len()
            &&& es[r].command.name == n
            &&& forall|i: int| 0 <= i < r ==> es[i].command.name != n
        },
    decreases es.len(),
{
    if es.len() > 0 && es[0].command.name != n {
        lemma_find_commands_entry(es.drop_first(), n);
        assert(forall|i: int| 1 <= i < es.len() ==> es.drop_first()[i - 1] == es[i]);
    }
}

/// What the registry does with a whole interaction: the command is looked
/// up by name, parses the interaction, and the result is wrapped in its
/// variant tag.
pub open spec fn parse_interaction_spec(
    cs: crate::schema::CommandsView,
    data: InteractionDataView,
) -> Result<TypedValueView, ParseErrorView> {
    let idx = find_commands_entry(cs.commands, data.name);
    if idx < 0 {
        Err(ParseErrorView::UnknownCommand(data.name))
    } else {
        prepend_path(
            cs.commands[idx].variant,
            parse_command_spec(cs.commands[idx].command, data),
        )
    }
}

// ---------------------------------------------------------------------------
// The executable parser.
// ---------------------------------------------------------------------------

impl Value {
    /// The kind tag this runtime value carries.
    pub fn kind(&self) -> (r: CommandOptionKind)
        ensures
            r == value_kind(self@),
    {
        match self {
            Value::Boolean(_) => CommandOptionKind::Boolean,
            Value::String(_) => CommandOptionKind::String,
            Value::Integer(_) => CommandOptionKind::Integer,
            Value::Number(_) => CommandOptionKind::Number,
            Value::Mention(_) => CommandOptionKind::Mention,
            Value::User(_) => CommandOptionKind::User,
            Value::Channel(_) => CommandOptionKind::Channel,
            Value::Role(_) => CommandOptionKind::Role,
        }
    }
}

#[verifier::loop_isolation(false)]
fn find_option_exec(os: &Vec<CommandOption>, n: &String) -> (r: Option<usize>)
    ensures
        match r {
            Some(i) => i < os@.len() && find_option(crate::schema::options_view(os@), n@)
                == i as int,
            None => find_option(crate::schema::options_view(os@), n@) == -1,
        },
{
    let ghost os_v = crate::schema::options_view(os@);
    proof {
        lemma_find_option(os_v, n@);
    }
    let mut k: usize = 0;
    while k < os.len()
        invariant
            k <= os.len(),
            forall|t: int| 0 <= t < k ==> os_v[t].name != n@,
        decreases os.len() - k,
    {
        if crate::common::str_eq(os[k].name.as_str(), n.as_str()) {
            proof {
                let r = find_option(os_v, n@);
                assert(os_v[k as int].name == n@);
                assert(r != -1);
                if r < k as int {
                    assert(os_v[r].name != n@);
                    assert(false);
                }
                if r > k as int {
                    assert(os_v[k as int].name != n@);
                    assert(false);
                }
            }
            return Some(k);
        }
        k += 1;
    }
    None
}

#[verifier::loop_isolation(false)]
fn find_child_exec(ss: &Vec<crate::schema::SubCommand>, n: &String) -> (r: Option<usize>)
    ensures
        match r {
            Some(i) => i < ss@.len() && find_child(crate::schema::sub_commands_view(ss@), n@)
                == i as int,
            None => find_child(crate::schema::sub_commands_view(ss@), n@) == -1,
        },
{
    let ghost ss_v = crate::schema::sub_commands_view(ss@);
    proof {
        crate::schema::lemma_sub_commands_view(ss@);
        lemma_find_child(ss_v, n@);
    }
    let mut k: usize = 0;
    while k < ss.len()
        invariant
            k <= ss.len(),
            forall|t: int| 0 <= t < k ==> child_name(ss_v[t]) != n@,
        decreases ss.len() - k,
    {
        if crate::common::str_eq(ss[k].name().as_str(), n.as_str()) {
            proof {
                let r = find_child(ss_v, n@);
                assert(child_name(ss_v[k as int]) == n@);
                assert(r != -1);
                if r < k as int {
                    assert(child_name(ss_v[r]) != n@);
                    assert(false);
                }
                if r > k as int {
                    assert(child_name(ss_v[k as int]) != n@);
                    assert(false);
                }
            }
            return Some(k);
        }
        k += 1;
    }
    None
}

#[verifier::loop_isolation(false)]
fn find_group_entry_exec(es: &Vec<crate::schema::GroupEntry>, n: &String) -> (r: Option<usize>)
    ensures
        match r {
            Some(i) => i < es@.len() && find_group_entry(
                crate::schema::group_entries_view(es@),
                n@,
            ) == i as int,
            None => find_group_entry(crate::schema::group_entries_view(es@), n@) == -1,
        },
{
    let ghost es_v = crate::schema::group_entries_view(es@);
    proof {
        crate::schema::lemma_group_entries_view(es@);
        lemma_find_group_entry(es_v, n@);
    }
    let mut k: usize = 0;
    while k < es.len()
        invariant
            k <= es.len(),
            forall|t: int| 0 <= t < k ==> es_v[t].command.name != n@,
        decreases es.len() - k,
    {
        if crate::common::str_eq(es[k].command.name.as_str(), n.as_str()) {
            proof {
                let r = find_group_entry(es_v, n@);
                assert(es_v[k as int].command.name == n@);
                assert(r != -1);
                if r < k as int {
                    assert(es_v[r].command.name != n@);
                    assert(false);
                }
                if r > k as int {
                    assert(es_v[k as int].command.name != n@);
                    assert(false);
                }
            }
            return Some(k);
        }
        k += 1;
    }
    None
}

#[verifier::loop_isolation(false)]
fn find_commands_entry_exec(es: &Vec<crate::schema::CommandsEntry>, n: &String) -> (r: Option<
    usize,
>)
    ensures
        match r {
            Some(i) => i < es@.len() && find_commands_entry(
                crate::schema::commands_entries_view(es@),
                n@,
            ) == i as int,
            None => find_commands_entry(crate::schema::commands_entries_view(es@), n@) == -1,
        },
{
    let ghost es_v = crate::schema::commands_entries_view(es@);
    proof {
        crate::schema::lemma_commands_entries_view(es@);
        lemma_find_commands_entry(es_v, n@);
    }
    let mut k: usize = 0;
    while k < es.len()
        invariant
            k <= es.len(),
            forall|t: int| 0 <= t < k ==> es_v[t].command.name != n@,
        decreases es.len() - k,
    {
        if crate::common::str_eq(es[k].command.name.as_str(), n.as_str()) {
            proof {
                let r = find_commands_entry(es_v, n@);
                assert(es_v[k as int].command.name == n@);
                assert(r != -1);
                if r < k as int {
                    assert(es_v[r].command.name != n@);
                    assert(false);
                }
                if r > k as int {
                    assert(es_v[k as int].command.name != n@);
                    assert(false);
                }
            }
            return Some(k);
        }
        k += 1;
    }
    None
}

/// Consume the payload entries of a leaf command against its declared
/// options.
#[verifier::loop_isolation(false)]
fn parse_options_exec(os: &Vec<CommandOption>, entries: Vec<DataOption>) -> (r: Result<
    Vec<Option<Value>>,
    ParseError,
>)
    ensures
        match r {
            Ok(vals) => parse_options_spec(
                crate::schema::options_view(os@),
                data_options_view(entries@),
            ) == Ok::<Seq<Option<ValueView>>, ParseErrorView>(values_view(vals@)),
            Err(e) => parse_options_spec(
                crate::schema::options_view(os@),
                data_options_view(entries@),
            ) == Err::<Seq<Option<ValueView>>, ParseErrorView>(e@),
        },
{
    let ghost os_v = crate::schema::options_view(os@);
    let ghost full_e = data_options_view(entries@);
    let ghost init = Seq::new(os_v.len(), |i: int| None::<ValueView>);
    let mut vals: Vec<Option<Value>> = Vec::new();
    let mut t: usize = 0;
    while t < os.len()
        invariant
            t <= os.len(),
            vals@.len() == t,
            forall|q: int| 0 <= q < t ==> vals@[q] is None,
        decreases os.len() - t,
    {
        vals.push(None);
        t += 1;
    }
    proof {
        assert(values_view(vals@) =~= init);
    }
    let mut entries = entries;
    while entries.len() > 0
        invariant
            vals@.len() == os@.len(),
            apply_entries(os_v, full_e, init) == apply_entries(
                os_v,
                data_options_view(entries@),
                values_view(vals@),
            ),
        decreases entries@.len(),
    {
        proof {
            lemma_data_options_view(entries@);
        }
        let ghost pre = entries@;
        let e = entries.remove(0);
        proof {
            lemma_data_options_view_drop_first(pre);
        }
        let DataOption { name: e_name, resolved: e_resolved, options: _ } = e;
        match find_option_exec(os, &e_name) {
            None => {
                return Err(ParseError::UnknownOption(e_name));
            },
            Some(idx) => {
                match e_resolved {
                    None => {},
                    Some(v) => {
                        let vk = v.kind();
                        if vk == os[idx].kind {
                            let ghost old_vals = vals@;
                            let ghost v_view = v@;
                            vals.set(idx, Some(v));
                            proof {
                                assert(values_view(vals@) =~= values_view(old_vals).update(
                                    idx as int,
                                    Some(v_view),
                                ));
                            }
                        } else {
                            return Err(ParseError::InvalidType(os[idx].kind));
                        }
                    },
                }
            },
        }
    }
    proof {
        assert(data_options_view(entries@) =~= Seq::<DataOptionView>::empty());
        lemma_first_missing(os_v, values_view(vals@));
    }
    let mut m: usize = 0;
    while m < os.len()
        invariant
            m <= os.len(),
            forall|q: int| 0 <= q < m ==> !(os_v[q].required && values_view(vals@)[q] is None),
        decreases os.len() - m,
    {
        if os[m].required && vals[m].is_none() {
            proof {
                let r = first_missing(os_v, values_view(vals@));
                assert(os_v[m as int].required && values_view(vals@)[m as int] is None);
                assert(r != -1);
                if r < m as int {
                    assert(!(os_v[r].required && values_view(vals@)[r] is None));
                    assert(false);
                }
                if r > m as int {
                    assert(!(os_v[m as int].required && values_view(vals@)[m as int] is None));
                    assert(false);
                }
            }
            return Err(ParseError::MissingOption(os[m].name.clone()));
        }
        m += 1;
    }
    Ok(vals)
}

impl Command {
    /// Parse the entries of a leaf command into a typed value.  A container
    /// command has no flat options; handing it entries is rejected
    /// defensively with its own name.
    pub fn parse(&self, options: Vec<DataOption>) -> (r: Result<TypedValue, ParseError>)
        ensures
            match r {
                Ok(t) => parse_spec(self@, data_options_view(options@)) == Ok::<
                    TypedValueView,
                    ParseErrorView,
                >(t@),
                Err(e) => parse_spec(self@, data_options_view(options@)) == Err::<
                    TypedValueView,
                    ParseErrorView,
                >(e@),
            },
    {
        match &self.data {
            crate::schema::CommandData::Options(os) => match parse_options_exec(os, options) {
                Ok(vals) => {
                    let t = TypedValue { path: Vec::new(), values: vals };
                    proof {
                        assert(path_view(t.path@) =~= Seq::<Seq<char>>::empty());
                    }
                    Ok(t)
                },
                Err(e) => Err(e),
            },
            crate::schema::CommandData::SubCommands(_) => Err(
                ParseError::MissingOption(self.name.clone()),
            ),
        }
    }

    /// Parse a selected subcommand entry: the name must be this leaf's own.
    pub fn parse_subcommand(&self, option: DataOption) -> (r: Result<TypedValue, ParseError>)
        ensures
            match r {
                Ok(t) => parse_subcommand_spec(self@, option@) == Ok::<
                    TypedValueView,
                    ParseErrorView,
                >(t@),
                Err(e) => parse_subcommand_spec(self@, option@) == Err::<
                    TypedValueView,
                    ParseErrorView,
                >(e@),
            },
    {
        let DataOption { name, resolved: _, options } = option;
        if !crate::common::str_eq(name.as_str(), self.name.as_str()) {
            return Err(ParseError::UnknownSubCommand(name));
        }
        self.parse(options)
    }

    /// Parse a whole interaction against this command: the name must match,
    /// a leaf consumes its entries as options, and a container requires a
    /// selection naming a declared child.
    pub fn parse_command(&self, data: InteractionData) -> (r: Result<TypedValue, ParseError>)
        ensures
            match r {
                Ok(t) => parse_command_spec(self@, data@) == Ok::<
                    TypedValueView,
                    ParseErrorView,
                >(t@),
                Err(e) => parse_command_spec(self@, data@) == Err::<
                    TypedValueView,
                    ParseErrorView,
                >(e@),
            },
    {
        let InteractionData { name: d_name, options: d_options } = data;
        if !crate::common::str_eq(d_name.as_str(), self.name.as_str()) {
            return Err(ParseError::UnknownCommand(d_name));
        }
        match &self.data {
            crate::schema::CommandData::Options(os) => match parse_options_exec(os, d_options) {
                Ok(vals) => {
                    let t = TypedValue { path: Vec::new(), values: vals };
                    proof {
                        assert(path_view(t.path@) =~= Seq::<Seq<char>>::empty());
                    }
                    Ok(t)
                },
                Err(e) => Err(e),
            },
            crate::schema::CommandData::SubCommands(ss) => {
                proof {
                    crate::schema::lemma_sub_commands_view(ss@);
                }
                let mut opts = d_options;
                proof {
                    lemma_data_options_view(opts@);
                }
                if opts.len() == 0 {
                    return Err(ParseError::MissingOption(self.name.clone()));
                }
                let sel = opts.remove(0);
                match find_child_exec(ss, &sel.name) {
                    None => {
                        let DataOption { name: sel_name, resolved: _, options: _ } = sel;
                        Err(ParseError::UnknownSubCommand(sel_name))
                    },
                    Some(idx) => {
                        let variant = ss[idx].variant.clone();
                        let ghost variant_v = variant@;
                        let inner = match &ss[idx].data {
                            crate::schema::SubCommandData::SubCommand(child) => {
                                child.parse_subcommand(sel)
                            },
                            crate::schema::SubCommandData::Group(g) => {
                                g.parse_subcommand_group(sel)
                            },
                        };
                        match inner {
                            Ok(mut t) => {
                                let ghost old_path = t.path@;
                                t.path.insert(0, variant);
                                proof {
                                    assert(path_view(t.path@) =~= seq![variant_v] + path_view(
                                        old_path,
                                    ));
                                }
                                Ok(t)
                            },
                            Err(e) => Err(e),
                        }
                    },
                }
            },
        }
    }
}

impl Group {
    /// Parse a selected subcommand-group entry: the name must be this
    /// group's own, and the entry must select exactly one declared child.
    pub fn parse_subcommand_group(&self, option: DataOption) -> (r: Result<
        TypedValue,
        ParseError,
    >)
        ensures
            match r {
                Ok(t) => parse_subcommand_group_spec(self@, option@) == Ok::<
                    TypedValueView,
                    ParseErrorView,
                >(t@),
                Err(e) => parse_subcommand_group_spec(self@, option@) == Err::<
                    TypedValueView,
                    ParseErrorView,
                >(e@),
            },
    {
        proof {
            crate::schema::lemma_group_entries_view(self.subcommands@);
        }
        let DataOption { name, resolved: _, options } = option;
        if !crate::common::str_eq(name.as_str(), self.name.as_str()) {
            return Err(ParseError::UnknownSubCommandGroup(name));
        }
        let mut opts = options;
        proof {
            lemma_data_options_view(opts@);
        }
        if opts.len() == 0 {
            return Err(ParseError::MissingOption(self.name.clone()));
        }
        let sel = opts.remove(0);
        match find_group_entry_exec(&self.subcommands, &sel.name) {
            None => {
                let DataOption { name: sel_name, resolved: _, options: _ } = sel;
                Err(ParseError::UnknownSubCommand(sel_name))
            },
            Some(idx) => {
                let variant = self.subcommands[idx].variant.clone();
                let ghost variant_v = variant@;
                match self.subcommands[idx].command.parse_subcommand(sel) {
                    Ok(mut t) => {
                        let ghost old_path = t.path@;
                        t.path.insert(0, variant);
                        proof {
                            assert(path_view(t.path@) =~= seq![variant_v] + path_view(old_path));
                        }
                        Ok(t)
                    },
                    Err(e) => Err(e),
                }
            },
        }
    }
}

impl Commands {
    /// Parse a whole interaction against the registry: the command is
    /// looked up by name and its result wrapped in its variant tag.
    pub fn parse(&self, data: InteractionData) -> (r: Result<TypedValue, ParseError>)
        ensures
            match r {
                Ok(t) => parse_interaction_spec(self@, data@) == Ok::<
                    TypedValueView,
                    ParseErrorView,
                >(t@),
                Err(e) => parse_interaction_spec(self@, data@) == Err::<
                    TypedValueView,
                    ParseErrorView,
                >(e@),
            },
    {
        proof {
            crate::schema::lemma_commands_entries_view(self.commands@);
        }
        match find_commands_entry_exec(&self.commands, &data.name) {
            None => {
                let InteractionData { name, options: _ } = data;
                Err(ParseError::UnknownCommand(name))
            },
            Some(idx) => {
                let variant = self.commands[idx].variant.clone();
                let ghost variant_v = variant@;
                match self.commands[idx].command.parse_command(data) {
                    Ok(mut t) => {
                        let ghost old_path = t.path@;
                        t.path.insert(0, variant);
                        proof {
                            assert(path_view(t.path@) =~= seq![variant_v] + path_view(old_path));
                        }
                        Ok(t)
                    },
                    Err(e) => Err(e),
                }
            },
        }
    }
}

} // verus!
