//! The schema model: the immutable tree that a declaration compiles to and
//! that both the descriptor builder and the interaction parser walk.

use vstd::prelude::*;

use crate::common::str_eq;

verus! {

/// The closed set of value kinds a leaf option can declare.
#[derive(Clone, Copy, Debug, PartialEq, Eq, Structural)]
pub enum CommandOptionKind {
    Boolean,
    String,
    Integer,
    Number,
    Mention,
    User,
    Channel,
    Role,
}

/// Which flavour of child a container command declares: a directly nested
/// subcommand, or a subcommand group one level deeper.
#[derive(Clone, Copy, Debug, PartialEq, Eq, Structural)]
pub enum SubCommandKind {
    SubCommand,
    Group,
}

/// A typed leaf argument of a command.
#[derive(Clone, Debug, PartialEq, Eq)]
pub struct CommandOption {
    pub name: String,
    pub description: String,
    pub kind: CommandOptionKind,
    pub required: bool,
}

/// The body of a command: either a flat list of typed options, or a list of
/// nested children — never both.
#[derive(Debug, PartialEq, Eq)]
pub enum CommandData {
    Options(Vec<CommandOption>),
    SubCommands(Vec<SubCommand>),
}

/// A command node: a name, a description, and a body.
#[derive(Debug, PartialEq, Eq)]
pub struct Command {
    pub name: String,
    pub description: String,
    pub data: CommandData,
}

/// One child of a container command: the variant tag the typed result is
/// wrapped in, and the nested node itself.
#[derive(Debug, PartialEq, Eq)]
pub struct SubCommand {
    pub variant: String,
    pub data: SubCommandData,
}

/// The nested node a container child resolves to.
#[derive(Debug, PartialEq, Eq)]
pub enum SubCommandData {
    SubCommand(Command),
    Group(Group),
}

/// A subcommand group: exactly one level of nesting, so every child is a
/// leaf command.
#[derive(Debug, PartialEq, Eq)]
pub struct Group {
    pub name: String,
    pub description: String,
    pub subcommands: Vec<GroupEntry>,
}

/// One child of a group: the variant tag and the leaf command it wraps.
#[derive(Debug, PartialEq, Eq)]
pub struct GroupEntry {
    pub variant: String,
    pub command: Command,
}

/// The set of top-level commands an integration registers.
#[derive(Debug, PartialEq, Eq)]
pub struct Commands {
    pub commands: Vec<CommandsEntry>,
}

/// One top-level command: the variant tag and the command node.
#[derive(Debug, PartialEq, Eq)]
pub struct CommandsEntry {
    pub variant: String,
    pub command: Command,
}

// ---------------------------------------------------------------------------
// Mathematical views of the schema tree.
// ---------------------------------------------------------------------------

#[verifier::ext_equal]
pub struct CommandOptionView {
    pub name: Seq<char>,
    pub description: Seq<char>,
    pub kind: CommandOptionKind,
    pub required: bool,
}

#[verifier::ext_equal]
pub enum CommandDataView {
    Options(Seq<CommandOptionView>),
    SubCommands(Seq<SubCommandView>),
}

#[verifier::ext_equal]
pub struct CommandView {
    pub name: Seq<char>,
    pub description: Seq<char>,
    pub data: CommandDataView,
}

#[verifier::ext_equal]
pub struct SubCommandView {
    pub variant: Seq<char>,
    pub data: SubCommandDataView,
}

#[verifier::ext_equal]
pub enum SubCommandDataView {
    SubCommand(CommandView),
    Group(GroupView),
}

#[verifier::ext_equal]
pub struct GroupView {
    pub name: Seq<char>,
    pub description: Seq<char>,
    pub subcommands: Seq<GroupEntryView>,
}

#[verifier::ext_equal]
pub struct GroupEntryView {
    pub variant: Seq<char>,
    pub command: CommandView,
}

#[verifier::ext_equal]
pub struct CommandsView {
    pub commands: Seq<CommandsEntryView>,
}

#[verifier::ext_equal]
pub struct CommandsEntryView {
    pub variant: Seq<char>,
    pub command: CommandView,
}

pub open spec fn command_option_view(o: CommandOption) -> CommandOptionView {
    CommandOptionView {
        name: o.name@,
        description: o.description@,
        kind: o.kind,
        required: o.required,
    }
}

pub open spec fn command_view(c: Command) -> CommandView
    decreases c,
{
    CommandView { name: c.name@, description: c.description@, data: command_data_view(c.data) }
}

/// The view of a sequence of options.
pub open spec fn options_view(os: Seq<CommandOption>) -> Seq<CommandOptionView> {
    os.map_values(|o: CommandOption| command_option_view(o))
}

pub open spec fn command_data_view(d: CommandData) -> CommandDataView
    decreases d,
{
    match d {
        CommandData::Options(os) => CommandDataView::Options(options_view(os@)),
        CommandData::SubCommands(ss) => CommandDataView::SubCommands(sub_commands_view(ss@)),
    }
}

pub open spec fn sub_commands_view(ss: Seq<SubCommand>) -> Seq<SubCommandView>
    decreases ss,
{
    if ss.len() == 0 {
        Seq::empty()
    } else {
        seq![sub_command_view(ss[0])] + sub_commands_view(ss.subrange(1, ss.len() as int))
    }
}

pub open spec fn sub_command_view(s: SubCommand) -> SubCommandView
    decreases s,
{
    SubCommandView { variant: s.variant@, data: sub_command_data_view(s.data) }
}

pub open spec fn sub_command_data_view(d: SubCommandData) -> SubCommandDataView
    decreases d,
{
    match d {
        SubCommandData::SubCommand(c) => SubCommandDataView::SubCommand(command_view(c)),
        SubCommandData::Group(g) => SubCommandDataView::Group(group_view(g)),
    }
}

pub open spec fn group_view(g: Group) -> GroupView
    decreases g,
{
    GroupView {
        name: g.name@,
        description: g.description@,
        subcommands: group_entries_view(g.subcommands@),
    }
}

pub open spec fn group_entries_view(es: Seq<GroupEntry>) -> Seq<GroupEntryView>
    decreases es,
{
    if es.len() == 0 {
        Seq::empty()
    } else {
        seq![group_entry_view(es[0])] + group_entries_view(es.subrange(1, es.len() as int))
    }
}

pub open spec fn group_entry_view(e: GroupEntry) -> GroupEntryView
    decreases e,
{
    GroupEntryView { variant: e.variant@, command: command_view(e.command) }
}

pub open spec fn commands_view(cs: Commands) -> CommandsView
    decreases cs,
{
    CommandsView { commands: commands_entries_view(cs.commands@) }
}

pub open spec fn commands_entries_view(es: Seq<CommandsEntry>) -> Seq<CommandsEntryView>
    decreases es,
{
    if es.len() == 0 {
        Seq::empty()
    } else {
        seq![commands_entry_view(es[0])] + commands_entries_view(es.subrange(1, es.len() as int))
    }
}

pub open spec fn commands_entry_view(e: CommandsEntry) -> CommandsEntryView
    decreases e,
{
    CommandsEntryView { variant: e.variant@, command: command_view(e.command) }
}

impl View for CommandOption {
    type V = CommandOptionView;

    open spec fn view(&self) -> CommandOptionView {
        command_option_view(*self)
    }
}

impl View for Command {
    type V = CommandView;

    open spec fn view(&self) -> CommandView {
        command_view(*self)
    }
}

impl View for CommandData {
    type V = CommandDataView;

    open spec fn view(&self) -> CommandDataView {
        command_data_view(*self)
    }
}

impl View for SubCommandData {
    type V = SubCommandDataView;

    open spec fn view(&self) -> SubCommandDataView {
        sub_command_data_view(*self)
    }
}

impl View for SubCommand {
    type V = SubCommandView;

    open spec fn view(&self) -> SubCommandView {
        sub_command_view(*self)
    }
}

impl View for Group {
    type V = GroupView;

    open spec fn view(&self) -> GroupView {
        group_view(*self)
    }
}

impl View for GroupEntry {
    type V = GroupEntryView;

    open spec fn view(&self) -> GroupEntryView {
        group_entry_view(*self)
    }
}

impl View for Commands {
    type V = CommandsView;

    open spec fn view(&self) -> CommandsView {
        commands_view(*self)
    }
}

impl View for CommandsEntry {
    type V = CommandsEntryView;

    open spec fn view(&self) -> CommandsEntryView {
        commands_entry_view(*self)
    }
}

// ---------------------------------------------------------------------------
// Kind markers.
// ---------------------------------------------------------------------------

/// Which option kind, if any, a marker word denotes.
pub open spec fn kind_from_name(s: Seq<char>) -> Option<CommandOptionKind> {
    if s == "boolean"@ {
        Some(CommandOptionKind::Boolean)
    } else if s == "string"@ {
        Some(CommandOptionKind::String)
    } else if s == "integer"@ {
        Some(CommandOptionKind::Integer)
    } else if s == "number"@ {
        Some(CommandOptionKind::Number)
    } else if s == "mention"@ {
        Some(CommandOptionKind::Mention)
    } else if s == "user"@ {
        Some(CommandOptionKind::User)
    } else if s == "channel"@ {
        Some(CommandOptionKind::Channel)
    } else if s == "role"@ {
        Some(CommandOptionKind::Role)
    } else {
        None
    }
}

impl CommandOptionKind {
    /// Parse a kind marker word from the closed enumeration.
    pub fn new(s: &str) -> (r: Option<Self>)
        ensures
            r == kind_from_name(s@),
    {
        if str_eq(s, "boolean") {
            Some(CommandOptionKind::Boolean)
        } else if str_eq(s, "string") {
            Some(CommandOptionKind::String)
        } else if str_eq(s, "integer") {
            Some(CommandOptionKind::Integer)
        } else if str_eq(s, "number") {
            Some(CommandOptionKind::Number)
        } else if str_eq(s, "mention") {
            Some(CommandOptionKind::Mention)
        } else if str_eq(s, "user") {
            Some(CommandOptionKind::User)
        } else if str_eq(s, "channel") {
            Some(CommandOptionKind::Channel)
        } else if str_eq(s, "role") {
            Some(CommandOptionKind::Role)
        } else {
            None
        }
    }
}

/// The name of an option kind, as a diagnostic prints it.
pub open spec fn kind_name(k: CommandOptionKind) -> Seq<char> {
    match k {
        CommandOptionKind::Boolean => "Boolean"@,
        CommandOptionKind::String => "String"@,
        CommandOptionKind::Integer => "Integer"@,
        CommandOptionKind::Number => "Number"@,
        CommandOptionKind::Mention => "Mention"@,
        CommandOptionKind::User => "User"@,
        CommandOptionKind::Channel => "Channel"@,
        CommandOptionKind::Role => "Role"@,
    }
}

impl CommandOptionKind {
    /// This kind's name, as a diagnostic prints it.
    pub fn name(&self) -> (r: &'static str)
        ensures
            r@ == kind_name(*self),
    {
        match self {
            CommandOptionKind::Boolean => "Boolean",
            CommandOptionKind::String => "String",
            CommandOptionKind::Integer => "Integer",
            CommandOptionKind::Number => "Number",
            CommandOptionKind::Mention => "Mention",
            CommandOptionKind::User => "User",
            CommandOptionKind::Channel => "Channel",
            CommandOptionKind::Role => "Role",
        }
    }
}

/// Which container-child kind, if any, a marker word denotes.
pub open spec fn sub_kind_from_name(s: Seq<char>) -> Option<SubCommandKind> {
    if s == "subcommand"@ {
        Some(SubCommandKind::SubCommand)
    } else if s == "group"@ {
        Some(SubCommandKind::Group)
    } else {
        None
    }
}

impl SubCommandKind {
    /// Parse a container-child marker word.
    pub fn new(s: &str) -> (r: Option<Self>)
        ensures
            r == sub_kind_from_name(s@),
    {
        if str_eq(s, "subcommand") {
            Some(SubCommandKind::SubCommand)
        } else if str_eq(s, "group") {
            Some(SubCommandKind::Group)
        } else {
            None
        }
    }
}

// ---------------------------------------------------------------------------
// Well-formedness: the invariants the compiler establishes at construction.
// ---------------------------------------------------------------------------

/// Names are 1 to 32 characters.
pub open spec fn valid_name(s: Seq<char>) -> bool {
    1 <= s.len() <= 32
}

/// Descriptions are 1 to 100 characters once trimmed.
pub open spec fn valid_description(s: Seq<char>) -> bool {
    1 <= s.len() <= 100
}

pub open spec fn command_option_wf(o: CommandOptionView) -> bool {
    valid_name(o.name) && valid_description(o.description)
}

pub open spec fn unique_option_names(os: Seq<CommandOptionView>) -> bool {
    forall|i: int, j: int| 0 <= i < j < os.len() ==> os[i].name != os[j].name
}

pub open spec fn options_wf(os: Seq<CommandOptionView>) -> bool {
    &&& os.len() <= 25
    &&& forall|i: int| 0 <= i < os.len() ==> command_option_wf(#[trigger] os[i])
    &&& unique_option_names(os)
}

/// The name a container child is selected by.
pub open spec fn child_name(s: SubCommandView) -> Seq<char> {
    match s.data {
        SubCommandDataView::SubCommand(c) => c.name,
        SubCommandDataView::Group(g) => g.name,
    }
}

pub open spec fn unique_child_names(ss: Seq<SubCommandView>) -> bool {
    forall|i: int, j: int| 0 <= i < j < ss.len() ==> child_name(ss[i]) != child_name(ss[j])
}

pub open spec fn command_wf(c: CommandView) -> bool
    decreases c,
{
    &&& valid_name(c.name)
    &&& valid_description(c.description)
    &&& match c.data {
        CommandDataView::Options(os) => options_wf(os),
        CommandDataView::SubCommands(ss) => {
            &&& ss.len() <= 25
            &&& sub_commands_wf(ss)
            &&& unique_child_names(ss)
        },
    }
}

pub open spec fn sub_commands_wf(ss: Seq<SubCommandView>) -> bool
    decreases ss,
{
    if ss.len() == 0 {
        true
    } else {
        sub_command_wf(ss[0]) && sub_commands_wf(ss.subrange(1, ss.len() as int))
    }
}

pub open spec fn sub_command_wf(s: SubCommandView) -> bool
    decreases s,
{
    match s.data {
        SubCommandDataView::SubCommand(c) => command_wf(c) && c.data is Options,
        SubCommandDataView::Group(g) => group_wf(g),
    }
}

pub open spec fn group_wf(g: GroupView) -> bool
    decreases g,
{
    &&& valid_name(g.name)
    &&& valid_description(g.description)
    &&& g.subcommands.len() <= 25
    &&& group_entries_wf(g.subcommands)
    &&& unique_group_entry_names(g.subcommands)
}

pub open spec fn group_entries_wf(es: Seq<GroupEntryView>) -> bool
    decreases es,
{
    if es.len() == 0 {
        true
    } else {
        group_entry_wf(es[0]) && group_entries_wf(es.subrange(1, es.len() as int))
    }
}

pub open spec fn group_entry_wf(e: GroupEntryView) -> bool
    decreases e,
{
    command_wf(e.command) && e.command.data is Options
}

pub open spec fn unique_group_entry_names(es: Seq<GroupEntryView>) -> bool {
    forall|i: int, j: int| 0 <= i < j < es.len() ==> es[i].command.name != es[j].command.name
}

pub open spec fn commands_wf(cs: CommandsView) -> bool {
    commands_entries_wf(cs.commands) && unique_commands_entry_names(cs.commands)
}

pub open spec fn commands_entries_wf(es: Seq<CommandsEntryView>) -> bool
    decreases es,
{
    if es.len() == 0 {
        true
    } else {
        command_wf(es[0].command) && commands_entries_wf(es.subrange(1, es.len() as int))
    }
}

pub open spec fn unique_commands_entry_names(es: Seq<CommandsEntryView>) -> bool {
    forall|i: int, j: int| 0 <= i < j < es.len() ==> es[i].command.name != es[j].command.name
}

pub proof fn lemma_sub_commands_wf(ss: Seq<SubCommandView>)
    ensures
        sub_commands_wf(ss) <==> (forall|i: int|
            0 <= i < ss.len() ==> sub_command_wf(#[trigger] ss[i])),
    decreases ss,
{
    if ss.len() > 0 {
        lemma_sub_commands_wf(ss.subrange(1, ss.len() as int));
        assert forall|i: int| 1 <= i < ss.len() implies ss.subrange(1, ss.len() as int)[i - 1]
            == ss[i] by {}
    }
}

pub proof fn lemma_group_entries_wf(es: Seq<GroupEntryView>)
    ensures
        group_entries_wf(es) <==> (forall|i: int|
            0 <= i < es.len() ==> group_entry_wf(#[trigger] es[i])),
    decreases es,
{
    if es.len() > 0 {
        lemma_group_entries_wf(es.subrange(1, es.len() as int));
        assert forall|i: int| 1 <= i < es.len() implies es.subrange(1, es.len() as int)[i - 1]
            == es[i] by {}
    }
}

pub proof fn lemma_commands_entries_wf(es: Seq<CommandsEntryView>)
    ensures
        commands_entries_wf(es) <==> (forall|i: int|
            0 <= i < es.len() ==> command_wf(#[trigger] es[i].command)),
    decreases es,
{
    if es.len() > 0 {
        lemma_commands_entries_wf(es.subrange(1, es.len() as int));
        assert forall|i: int| 1 <= i < es.len() implies es.subrange(1, es.len() as int)[i - 1]
            == es[i] by {}
    }
}

impl Command {
    /// The name this command is invoked by.
    pub fn name(&self) -> (r: &String)
        ensures
            r@ == self@.name,
    {
        &self.name
    }

    /// The description registered for this command.
    pub fn description(&self) -> (r: &String)
        ensures
            r@ == self@.description,
    {
        &self.description
    }
}

impl Group {
    /// The name this group is selected by.
    pub fn name(&self) -> (r: &String)
        ensures
            r@ == self@.name,
    {
        &self.name
    }

    /// The description registered for this group.
    pub fn description(&self) -> (r: &String)
        ensures
            r@ == self@.description,
    {
        &self.description
    }
}

impl SubCommand {
    /// The name this child is selected by: that of the command or group it
    /// wraps.
    pub fn name(&self) -> (r: &String)
        ensures
            r@ == child_name(self@),
    {
        match &self.data {
            SubCommandData::SubCommand(c) => &c.name,
            SubCommandData::Group(g) => &g.name,
        }
    }
}

pub proof fn lemma_sub_commands_view(ss: Seq<SubCommand>)
    ensures
        sub_commands_view(ss).len() == ss.len(),
        forall|i: int|
            0 <= i < ss.len() ==> sub_commands_view(ss)[i] == sub_command_view(ss[i]),
    decreases ss,
{
    if ss.len() > 0 {
        lemma_sub_commands_view(ss.subrange(1, ss.len() as int));
    }
}

pub proof fn lemma_group_entries_view(es: Seq<GroupEntry>)
    ensures
        group_entries_view(es).len() == es.len(),
        forall|i: int|
            0 <= i < es.len() ==> group_entries_view(es)[i] == group_entry_view(es[i]),
    decreases es,
{
    if es.len() > 0 {
        lemma_group_entries_view(es.subrange(1, es.len() as int));
    }
}

pub proof fn lemma_commands_entries_view(es: Seq<CommandsEntry>)
    ensures
        commands_entries_view(es).len() == es.len(),
        forall|i: int|
            0 <= i < es.len() ==> commands_entries_view(es)[i] == commands_entry_view(es[i]),
    decreases es,
{
    if es.len() > 0 {
        lemma_commands_entries_view(es.subrange(1, es.len() as int));
    }
}

pub proof fn lemma_sub_commands_view_push(ss: Seq<SubCommand>, s: SubCommand)
    ensures
        sub_commands_view(ss.push(s)) == sub_commands_view(ss).push(sub_command_view(s)),
{
    lemma_sub_commands_view(ss.push(s));
    lemma_sub_commands_view(ss);
    assert(sub_commands_view(ss.push(s)) =~= sub_commands_view(ss).push(sub_command_view(s)));
}

pub proof fn lemma_group_entries_view_push(es: Seq<GroupEntry>, e: GroupEntry)
    ensures
        group_entries_view(es.push(e)) == group_entries_view(es).push(group_entry_view(e)),
{
    lemma_group_entries_view(es.push(e));
    lemma_group_entries_view(es);
    assert(group_entries_view(es.push(e)) =~= group_entries_view(es).push(group_entry_view(e)));
}

pub proof fn lemma_commands_entries_view_push(es: Seq<CommandsEntry>, e: CommandsEntry)
    ensures
        commands_entries_view(es.push(e)) == commands_entries_view(es).push(
            commands_entry_view(e),
        ),
{
    lemma_commands_entries_view(es.push(e));
    lemma_commands_entries_view(es);
    assert(commands_entries_view(es.push(e)) =~= commands_entries_view(es).push(
        commands_entry_view(e),
    ));
}

} // verus!
