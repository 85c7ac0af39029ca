//! The descriptor builder: the registration descriptor a schema emits.
//!
//! Building is pure and deterministic — the descriptor is a function of the
//! schema tree alone, so repeated builds yield identical output.

use vstd::prelude::*;

use crate::schema::{
    Command, CommandDataView, CommandOption, CommandOptionKind, CommandOptionView, CommandView,
    Commands, Group, GroupEntryView, GroupView, SubCommandDataView, SubCommandView,
    lemma_commands_entries_view, lemma_group_entries_view, lemma_sub_commands_view,
};

verus! {

/// The node type a descriptor entry declares to the platform: a top-level
/// command, one of the two container child flavours, or an option kind.
#[derive(Clone, Copy, Debug, PartialEq, Eq, Structural)]
pub enum DescriptorKind {
    Command,
    SubCommand,
    SubCommandGroup,
    Boolean,
    String,
    Integer,
    Number,
    Mention,
    User,
    Channel,
    Role,
}

/// One node of a registration descriptor: a tree mirroring the schema.
/// `required` is meaningful only on option entries and false elsewhere.
#[derive(Debug, PartialEq, Eq)]
pub struct Descriptor {
    pub name: String,
    pub description: String,
    pub kind: DescriptorKind,
    pub required: bool,
    pub entries: Vec<Descriptor>,
}

#[verifier::ext_equal]
pub struct DescriptorView {
    pub name: Seq<char>,
    pub description: Seq<char>,
    pub kind: DescriptorKind,
    pub required: bool,
    pub entries: Seq<DescriptorView>,
}

pub open spec fn descriptor_view(d: Descriptor) -> DescriptorView
    decreases d,
{
    DescriptorView {
        name: d.name@,
        description: d.description@,
        kind: d.kind,
        required: d.required,
        entries: descriptors_view(d.entries@),
    }
}

pub open spec fn descriptors_view(ds: Seq<Descriptor>) -> Seq<DescriptorView>
    decreases ds,
{
    if ds.len() == 0 {
        Seq::empty()
    } else {
        seq![descriptor_view(ds[0])] + descriptors_view(ds.subrange(1, ds.len() as int))
    }
}

impl View for Descriptor {
    type V = DescriptorView;

    open spec fn view(&self) -> DescriptorView {
        descriptor_view(*self)
    }
}

pub proof fn lemma_descriptors_view(ds: Seq<Descriptor>)
    ensures
        descriptors_view(ds).len() == ds.len(),
        forall|i: int| 0 <= i < ds.len() ==> descriptors_view(ds)[i] == descriptor_view(ds[i]),
    decreases ds,
{
    if ds.len() > 0 {
        lemma_descriptors_view(ds.subrange(1, ds.len() as int));
    }
}

pub proof fn lemma_descriptors_view_push(ds: Seq<Descriptor>, d: Descriptor)
    ensures
        descriptors_view(ds.push(d)) == descriptors_view(ds).push(descriptor_view(d)),
{
    lemma_descriptors_view(ds.push(d));
    lemma_descriptors_view(ds);
    assert(descriptors_view(ds.push(d)) =~= descriptors_view(ds).push(descriptor_view(d)));
}

// ---------------------------------------------------------------------------
// What the builder emits, as spec functions.
// ---------------------------------------------------------------------------

/// The descriptor kind an option kind registers as.
pub open spec fn kind_descriptor(k: CommandOptionKind) -> DescriptorKind {
    match k {
        CommandOptionKind::Boolean => DescriptorKind::Boolean,
        CommandOptionKind::String => DescriptorKind::String,
        CommandOptionKind::Integer => DescriptorKind::Integer,
        CommandOptionKind::Number => DescriptorKind::Number,
        CommandOptionKind::Mention => DescriptorKind::Mention,
        CommandOptionKind::User => DescriptorKind::User,
        CommandOptionKind::Channel => DescriptorKind::Channel,
        CommandOptionKind::Role => DescriptorKind::Role,
    }
}

/// The entry one option emits: kind and required flag, no nesting.
pub open spec fn option_descriptor(o: CommandOptionView) -> DescriptorView {
    DescriptorView {
        name: o.name,
        description: o.description,
        kind: kind_descriptor(o.kind),
        required: o.required,
        entries: Seq::empty(),
    }
}

pub open spec fn option_entries(os: Seq<CommandOptionView>) -> Seq<DescriptorView> {
    os.map_values(|o: CommandOptionView| option_descriptor(o))
}

/// The entry a leaf command emits when nested as a subcommand.
pub open spec fn subcommand_descriptor(c: CommandView) -> DescriptorView {
    DescriptorView {
        name: c.name,
        description: c.description,
        kind: DescriptorKind::SubCommand,
        required: false,
        entries: match c.data {
            CommandDataView::Options(os) => option_entries(os),
            CommandDataView::SubCommands(_) => Seq::empty(),
        },
    }
}

/// The entry a group emits: one nested subcommand entry per child.
pub open spec fn group_descriptor(g: GroupView) -> DescriptorView {
    DescriptorView {
        name: g.name,
        description: g.description,
        kind: DescriptorKind::SubCommandGroup,
        required: false,
        entries: g.subcommands.map_values(
            |e: GroupEntryView| subcommand_descriptor(e.command),
        ),
    }
}

/// The entry one container child emits.
pub open spec fn sub_entry_descriptor(s: SubCommandView) -> DescriptorView {
    match s.data {
        SubCommandDataView::SubCommand(c) => subcommand_descriptor(c),
        SubCommandDataView::Group(g) => group_descriptor(g),
    }
}

/// The full descriptor a command emits at the top level.
pub open spec fn command_descriptor(c: CommandView) -> DescriptorView {
    DescriptorView {
        name: c.name,
        description: c.description,
        kind: DescriptorKind::Command,
        required: false,
        entries: match c.data {
            CommandDataView::Options(os) => option_entries(os),
            CommandDataView::SubCommands(ss) => ss.map_values(
                |s: SubCommandView| sub_entry_descriptor(s),
            ),
        },
    }
}

/// The descriptors a registry emits, one per command, in declaration order.
pub open spec fn commands_descriptors(cs: crate::schema::CommandsView) -> Seq<DescriptorView> {
    cs.commands.map_values(
        |e: crate::schema::CommandsEntryView| command_descriptor(e.command),
    )
}

/// Building the registration descriptor is deterministic: two builds from
/// the same schema yield identical output.
pub proof fn lemma_descriptor_deterministic(
    c: CommandView,
    d1: DescriptorView,
    d2: DescriptorView,
)
    requires
        d1 == command_descriptor(c),
        d2 == command_descriptor(c),
    ensures
        d1 == d2,
{
}

// ---------------------------------------------------------------------------
// The executable builder.
// ---------------------------------------------------------------------------

impl CommandOptionKind {
    /// The descriptor kind this option kind registers as.
    pub fn descriptor_kind(&self) -> (r: DescriptorKind)
        ensures
            r == kind_descriptor(*self),
    {
        match self {
            CommandOptionKind::Boolean => DescriptorKind::Boolean,
            CommandOptionKind::String => DescriptorKind::String,
            CommandOptionKind::Integer => DescriptorKind::Integer,
            CommandOptionKind::Number => DescriptorKind::Number,
            CommandOptionKind::Mention => DescriptorKind::Mention,
            CommandOptionKind::User => DescriptorKind::User,
            CommandOptionKind::Channel => DescriptorKind::Channel,
            CommandOptionKind::Role => DescriptorKind::Role,
        }
    }
}

impl CommandOption {
    /// The registration entry for this option.
    pub fn descriptor(&self) -> (r: Descriptor)
        ensures
            r@ == option_descriptor(self@),
    {
        let r = Descriptor {
            name: self.name.clone(),
            description: self.description.clone(),
            kind: self.kind.descriptor_kind(),
            required: self.required,
            entries: Vec::new(),
        };
        proof {
            assert(r@.entries =~= Seq::<DescriptorView>::empty());
        }
        r
    }
}

#[verifier::loop_isolation(false)]
fn option_entries_exec(os: &Vec<CommandOption>) -> (r: Vec<Descriptor>)
    ensures
        descriptors_view(r@) == option_entries(crate::schema::options_view(os@)),
{
    let ghost target: Seq<DescriptorView> = option_entries(crate::schema::options_view(os@));
    let mut entries: Vec<Descriptor> = Vec::new();
    let mut i: usize = 0;
    proof {
        assert(descriptors_view(entries@) =~= target.take(0));
    }
    while i < os.len()
        invariant
            i <= os.len(),
            target.len() == os@.len(),
            descriptors_view(entries@) == target.take(i as int),
        decreases os.len() - i,
    {
        let d = os[i].descriptor();
        let ghost old_entries = entries@;
        let ghost d_view = d@;
        entries.push(d);
        proof {
            lemma_descriptors_view_push(old_entries, entries@[old_entries.len() as int]);
            assert(target.take(i + 1) =~= target.take(i as int).push(target[i as int]));
        }
        i += 1;
    }
    proof {
        assert(target.take(os@.len() as int) =~= target);
    }
    entries
}

impl Command {
    /// The registration entry this leaf command emits when nested as a
    /// subcommand.
    pub fn subcommand_descriptor(&self) -> (r: Descriptor)
        ensures
            r@ == subcommand_descriptor(self@),
    {
        let entries = match &self.data {
            crate::schema::CommandData::Options(os) => option_entries_exec(os),
            crate::schema::CommandData::SubCommands(_) => Vec::new(),
        };
        proof {
            assert(descriptors_view(Seq::<Descriptor>::empty()) =~= Seq::<
                DescriptorView,
            >::empty());
        }
        Descriptor {
            name: self.name.clone(),
            description: self.description.clone(),
            kind: DescriptorKind::SubCommand,
            required: false,
            entries,
        }
    }

    /// The full registration descriptor this command emits.
    pub fn descriptor(&self) -> (r: Descriptor)
        ensures
            r@ == command_descriptor(self@),
    {
        let entries = match &self.data {
            crate::schema::CommandData::Options(os) => option_entries_exec(os),
            crate::schema::CommandData::SubCommands(ss) => sub_entries_exec(ss),
        };
        Descriptor {
            name: self.name.clone(),
            description: self.description.clone(),
            kind: DescriptorKind::Command,
            required: false,
            entries,
        }
    }
}

impl Group {
    /// The registration entry this group emits: a subcommand-group node with
    /// one nested entry per child.
    #[verifier::loop_isolation(false)]
    pub fn descriptor(&self) -> (r: Descriptor)
        ensures
            r@ == group_descriptor(self@),
    {
        let ghost target: Seq<DescriptorView> = crate::schema::group_entries_view(
            self.subcommands@,
        ).map_values(|e: GroupEntryView| subcommand_descriptor(e.command));
        proof {
            lemma_group_entries_view(self.subcommands@);
        }
        let mut entries: Vec<Descriptor> = Vec::new();
        let mut i: usize = 0;
        proof {
            assert(descriptors_view(entries@) =~= target.take(0));
        }
        while i < self.subcommands.len()
            invariant
                i <= self.subcommands.len(),
                target.len() == self.subcommands@.len(),
                descriptors_view(entries@) == target.take(i as int),
            decreases self.subcommands.len() - i,
        {
            let d = self.subcommands[i].command.subcommand_descriptor();
            let ghost old_entries = entries@;
            entries.push(d);
            proof {
                lemma_descriptors_view_push(old_entries, entries@[old_entries.len() as int]);
                assert(target.take(i + 1) =~= target.take(i as int).push(target[i as int]));
            }
            i += 1;
        }
        proof {
            assert(target.take(self.subcommands@.len() as int) =~= target);
        }
        Descriptor {
            name: self.name.clone(),
            description: self.description.clone(),
            kind: DescriptorKind::SubCommandGroup,
            required: false,
            entries,
        }
    }
}

#[verifier::loop_isolation(false)]
fn sub_entries_exec(ss: &Vec<crate::schema::SubCommand>) -> (r: Vec<Descriptor>)
    ensures
        descriptors_view(r@) == crate::schema::sub_commands_view(ss@).map_values(
            |s: SubCommandView| sub_entry_descriptor(s),
        ),
{
    let ghost target: Seq<DescriptorView> = crate::schema::sub_commands_view(ss@).map_values(
        |s: SubCommandView| sub_entry_descriptor(s),
    );
    proof {
        lemma_sub_commands_view(ss@);
    }
    let mut entries: Vec<Descriptor> = Vec::new();
    let mut i: usize = 0;
    proof {
        assert(descriptors_view(entries@) =~= target.take(0));
    }
    while i < ss.len()
        invariant
            i <= ss.len(),
            target.len() == ss@.len(),
            descriptors_view(entries@) == target.take(i as int),
        decreases ss.len() - i,
    {
        let d = match &ss[i].data {
            crate::schema::SubCommandData::SubCommand(c) => c.subcommand_descriptor(),
            crate::schema::SubCommandData::Group(g) => g.descriptor(),
        };
        let ghost old_entries = entries@;
        entries.push(d);
        proof {
            lemma_descriptors_view_push(old_entries, entries@[old_entries.len() as int]);
            assert(target.take(i + 1) =~= target.take(i as int).push(target[i as int]));
        }
        i += 1;
    }
    proof {
        assert(target.take(ss@.len() as int) =~= target);
    }
    entries
}

impl Commands {
    /// The registration descriptors this registry emits, one per command,
    /// in declaration order.
    #[verifier::loop_isolation(false)]
    pub fn descriptors(&self) -> (r: Vec<Descriptor>)
        ensures
            descriptors_view(r@) == commands_descriptors(self@),
    {
        let ghost target: Seq<DescriptorView> = commands_descriptors(self@);
        proof {
            lemma_commands_entries_view(self.commands@);
        }
        let mut out: Vec<Descriptor> = Vec::new();
        let mut i: usize = 0;
        proof {
            assert(descriptors_view(out@) =~= target.take(0));
        }
        while i < self.commands.len()
            invariant
                i <= self.commands.len(),
                target.len() == self.commands@.len(),
                descriptors_view(out@) == target.take(i as int),
            decreases self.commands.len() - i,
        {
            let d = self.commands[i].command.descriptor();
            let ghost old_out = out@;
            out.push(d);
            proof {
                lemma_descriptors_view_push(old_out, out@[old_out.len() as int]);
                assert(target.take(i + 1) =~= target.take(i as int).push(target[i as int]));
            }
            i += 1;
        }
        proof {
            assert(target.take(self.commands@.len() as int) =~= target);
        }
        out
    }
}

} // verus!
