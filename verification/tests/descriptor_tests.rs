//! Descriptor building: the exact registration tree and its determinism.

use serenity_commands::compile::parse_commands;
use serenity_commands::declaration::{
    Annotation, CommandDeclaration, CommandsDeclaration, DataDeclaration, Declaration,
    FieldDeclaration, GroupDeclaration, Lit, MetaItem, VariantDeclaration,
};
use serenity_commands::descriptor::{Descriptor, DescriptorKind};
use serenity_commands::schema::Command;

fn doc(s: &str) -> Annotation {
    Annotation::Doc(s.to_string())
}

fn name_attr(path: &str, name: &str) -> Annotation {
    Annotation::List(
        path.to_string(),
        vec![MetaItem::NameValue("name".to_string(), Lit::Str(name.to_string()))],
    )
}

fn word(path: &str, w: &str) -> Annotation {
    Annotation::List(path.to_string(), vec![MetaItem::Word(w.to_string())])
}

fn field(ident: &str, kind: &str, required: bool) -> FieldDeclaration {
    let mut items = vec![MetaItem::Word(kind.to_string())];
    if required {
        items.push(MetaItem::Word("required".to_string()));
    }
    FieldDeclaration {
        ident: ident.to_string(),
        annotations: vec![doc("An argument."), Annotation::List("option".to_string(), items)],
    }
}

fn ping() -> Command {
    Command::new(&CommandDeclaration {
        annotations: vec![doc("Play a little game!"), name_attr("command", "ping")],
        data: DataDeclaration::Struct(vec![
            field("n", "integer", true),
            field("loud", "boolean", false),
        ]),
    })
    .unwrap()
}

#[test]
fn leaf_descriptor_lists_one_entry_per_option() {
    let d = ping().descriptor();
    assert_eq!(
        d,
        Descriptor {
            name: "ping".to_string(),
            description: "Play a little game!".to_string(),
            kind: DescriptorKind::Command,
            required: false,
            entries: vec![
                Descriptor {
                    name: "n".to_string(),
                    description: "An argument.".to_string(),
                    kind: DescriptorKind::Integer,
                    required: true,
                    entries: vec![],
                },
                Descriptor {
                    name: "loud".to_string(),
                    description: "An argument.".to_string(),
                    kind: DescriptorKind::Boolean,
                    required: false,
                    entries: vec![],
                },
            ],
        }
    );
}

#[test]
fn building_twice_yields_identical_output() {
    let cmd = ping();
    assert_eq!(cmd.descriptor(), cmd.descriptor());
}

fn container() -> Command {
    let kick = CommandDeclaration {
        annotations: vec![doc("Kick a user."), name_attr("command", "kick")],
        data: DataDeclaration::Struct(vec![field("user", "user", true)]),
    };
    let admin = GroupDeclaration {
        annotations: vec![doc("Admin things."), name_attr("group", "admin")],
        variants: vec![VariantDeclaration {
            ident: "Kick".to_string(),
            annotations: vec![],
            payloads: vec![Declaration::Command(kick)],
        }],
    };
    let ping_leaf = CommandDeclaration {
        annotations: vec![doc("Play a little game!"), name_attr("command", "ping")],
        data: DataDeclaration::Struct(vec![field("n", "integer", true)]),
    };
    Command::new(&CommandDeclaration {
        annotations: vec![doc("Do a thing."), name_attr("command", "do")],
        data: DataDeclaration::Enum(vec![
            VariantDeclaration {
                ident: "Ping".to_string(),
                annotations: vec![word("option", "subcommand")],
                payloads: vec![Declaration::Command(ping_leaf)],
            },
            VariantDeclaration {
                ident: "Admin".to_string(),
                annotations: vec![word("option", "group")],
                payloads: vec![Declaration::Group(admin)],
            },
        ]),
    })
    .unwrap()
}

#[test]
fn container_descriptor_nests_subcommands_and_groups() {
    let d = container().descriptor();
    assert_eq!(d.name, "do");
    assert_eq!(d.kind, DescriptorKind::Command);
    assert_eq!(d.entries.len(), 2);

    let ping_entry = &d.entries[0];
    assert_eq!(ping_entry.name, "ping");
    assert_eq!(ping_entry.kind, DescriptorKind::SubCommand);
    assert!(!ping_entry.required);
    assert_eq!(ping_entry.entries.len(), 1);
    assert_eq!(ping_entry.entries[0].kind, DescriptorKind::Integer);
    assert!(ping_entry.entries[0].required);

    let admin_entry = &d.entries[1];
    assert_eq!(admin_entry.name, "admin");
    assert_eq!(admin_entry.kind, DescriptorKind::SubCommandGroup);
    assert_eq!(admin_entry.entries.len(), 1);
    let kick_entry = &admin_entry.entries[0];
    assert_eq!(kick_entry.name, "kick");
    assert_eq!(kick_entry.kind, DescriptorKind::SubCommand);
    assert_eq!(kick_entry.entries.len(), 1);
    assert_eq!(kick_entry.entries[0].kind, DescriptorKind::User);
}

#[test]
fn container_descriptor_is_deterministic() {
    let cmd = container();
    assert_eq!(cmd.descriptor(), cmd.descriptor());
}

#[test]
fn registry_emits_one_descriptor_per_command_in_order() {
    let d = CommandsDeclaration {
        variants: vec![
            VariantDeclaration {
                ident: "A".to_string(),
                annotations: vec![],
                payloads: vec![Declaration::Command(CommandDeclaration {
                    annotations: vec![doc("First."), name_attr("command", "alpha")],
                    data: DataDeclaration::Struct(vec![]),
                })],
            },
            VariantDeclaration {
                ident: "B".to_string(),
                annotations: vec![],
                payloads: vec![Declaration::Command(CommandDeclaration {
                    annotations: vec![doc("Second."), name_attr("command", "beta")],
                    data: DataDeclaration::Struct(vec![]),
                })],
            },
        ],
    };
    let cs = parse_commands(&d).unwrap();
    let ds = cs.descriptors();
    assert_eq!(ds.len(), 2);
    assert_eq!(ds[0].name, "alpha");
    assert_eq!(ds[1].name, "beta");
    assert_eq!(ds, cs.descriptors());
}

#[test]
fn unit_leaf_descriptor_has_no_entries() {
    let cmd = Command::new(&CommandDeclaration {
        annotations: vec![doc("Nothing to it."), name_attr("command", "noop")],
        data: DataDeclaration::Struct(vec![]),
    })
    .unwrap();
    let d = cmd.descriptor();
    assert_eq!(d.entries, Vec::<Descriptor>::new());
    assert_eq!(cmd.name(), "noop");
    assert_eq!(cmd.description(), "Nothing to it.");
}
