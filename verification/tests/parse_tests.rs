//! Runtime interaction parsing: the typed results and every parse error.

use serenity_commands::compile::parse_commands;
use serenity_commands::declaration::{
    Annotation, CommandDeclaration, CommandsDeclaration, DataDeclaration, Declaration,
    FieldDeclaration, GroupDeclaration, Lit, MetaItem, VariantDeclaration,
};
use serenity_commands::error::ParseError;
use serenity_commands::interaction::{DataOption, InteractionData, TypedValue, Value};
use serenity_commands::schema::{Command, CommandOptionKind, Group};

fn doc(s: &str) -> Annotation {
    Annotation::Doc(s.to_string())
}

fn name_attr(path: &str, name: &str) -> Annotation {
    Annotation::List(
        path.to_string(),
        vec![MetaItem::NameValue("name".to_string(), Lit::Str(name.to_string()))],
    )
}

fn word(path: &str, w: &str) -> Annotation {
    Annotation::List(path.to_string(), vec![MetaItem::Word(w.to_string())])
}

fn field(ident: &str, kind: &str, required: bool) -> FieldDeclaration {
    let mut items = vec![MetaItem::Word(kind.to_string())];
    if required {
        items.push(MetaItem::Word("required".to_string()));
    }
    FieldDeclaration {
        ident: ident.to_string(),
        annotations: vec![doc("An argument."), Annotation::List("option".to_string(), items)],
    }
}

/// The schema `Ping { n: integer, required }`.
fn ping() -> Command {
    Command::new(&CommandDeclaration {
        annotations: vec![doc("Play a little game!"), name_attr("command", "ping")],
        data: DataDeclaration::Struct(vec![field("n", "integer", true)]),
    })
    .unwrap()
}

fn arg(name: &str, v: Value) -> DataOption {
    DataOption { name: name.to_string(), resolved: Some(v), options: vec![] }
}

fn interaction(name: &str, options: Vec<DataOption>) -> InteractionData {
    InteractionData { name: name.to_string(), options }
}

#[test]
fn ping_with_integer_parses() {
    let t = ping().parse_command(interaction("ping", vec![arg("n", Value::Integer(3))])).unwrap();
    assert_eq!(
        t,
        TypedValue { path: vec![], values: vec![Some(Value::Integer(3))] }
    );
}

#[test]
fn ping_without_arguments_misses_n() {
    let e = ping().parse_command(interaction("ping", vec![])).unwrap_err();
    assert_eq!(e, ParseError::MissingOption("n".to_string()));
}

#[test]
fn ping_with_string_tagged_value_fails_with_invalid_type() {
    let e = ping()
        .parse_command(interaction("ping", vec![arg("n", Value::String("x".to_string()))]))
        .unwrap_err();
    assert_eq!(e, ParseError::InvalidType(CommandOptionKind::Integer));
}

#[test]
fn ping_with_undeclared_name_fails_with_unknown_option() {
    let e = ping()
        .parse_command(interaction("ping", vec![arg("x", Value::Integer(1))]))
        .unwrap_err();
    assert_eq!(e, ParseError::UnknownOption("x".to_string()));
}

#[test]
fn wrong_command_name_fails_with_unknown_command() {
    let e = ping().parse_command(interaction("pong", vec![])).unwrap_err();
    assert_eq!(e, ParseError::UnknownCommand("pong".to_string()));
}

#[test]
fn unknown_name_fails_even_beside_valid_arguments() {
    let cmd = Command::new(&CommandDeclaration {
        annotations: vec![doc("d"), name_attr("command", "c")],
        data: DataDeclaration::Struct(vec![
            field("a", "integer", true),
            field("b", "string", false),
        ]),
    })
    .unwrap();
    let e = cmd
        .parse_command(interaction(
            "c",
            vec![arg("a", Value::Integer(1)), arg("zz", Value::Integer(2))],
        ))
        .unwrap_err();
    assert_eq!(e, ParseError::UnknownOption("zz".to_string()));
}

#[test]
fn optional_option_may_be_absent() {
    let cmd = Command::new(&CommandDeclaration {
        annotations: vec![doc("d"), name_attr("command", "c")],
        data: DataDeclaration::Struct(vec![
            field("a", "integer", true),
            field("b", "string", false),
        ]),
    })
    .unwrap();
    let t = cmd.parse_command(interaction("c", vec![arg("a", Value::Integer(7))])).unwrap();
    assert_eq!(
        t,
        TypedValue { path: vec![], values: vec![Some(Value::Integer(7)), None] }
    );
}

#[test]
fn entry_without_resolved_value_leaves_the_slot_absent() {
    let cmd = Command::new(&CommandDeclaration {
        annotations: vec![doc("d"), name_attr("command", "c")],
        data: DataDeclaration::Struct(vec![field("b", "string", false)]),
    })
    .unwrap();
    let unresolved = DataOption { name: "b".to_string(), resolved: None, options: vec![] };
    let t = cmd.parse_command(interaction("c", vec![unresolved])).unwrap();
    assert_eq!(t, TypedValue { path: vec![], values: vec![None] });
}

#[test]
fn first_missing_required_option_in_declaration_order_is_named() {
    let cmd = Command::new(&CommandDeclaration {
        annotations: vec![doc("d"), name_attr("command", "c")],
        data: DataDeclaration::Struct(vec![
            field("a", "integer", true),
            field("b", "integer", true),
        ]),
    })
    .unwrap();
    let e = cmd.parse_command(interaction("c", vec![])).unwrap_err();
    assert_eq!(e, ParseError::MissingOption("a".to_string()));
}

#[test]
fn later_entry_overwrites_an_earlier_one_of_the_same_name() {
    let t = ping()
        .parse_command(interaction(
            "ping",
            vec![arg("n", Value::Integer(1)), arg("n", Value::Integer(2))],
        ))
        .unwrap();
    assert_eq!(
        t,
        TypedValue { path: vec![], values: vec![Some(Value::Integer(2))] }
    );
}

#[test]
fn every_kind_of_value_round_trips_into_its_slot() {
    let cmd = Command::new(&CommandDeclaration {
        annotations: vec![doc("d"), name_attr("command", "c")],
        data: DataDeclaration::Struct(vec![
            field("f1", "boolean", true),
            field("f2", "string", true),
            field("f3", "number", true),
            field("f4", "mention", true),
            field("f5", "user", true),
            field("f6", "channel", true),
            field("f7", "role", true),
        ]),
    })
    .unwrap();
    let t = cmd
        .parse_command(interaction(
            "c",
            vec![
                arg("f1", Value::Boolean(true)),
                arg("f2", Value::String("hi".to_string())),
                arg("f3", Value::Number(4614256656552045848)),
                arg("f4", Value::Mention(11)),
                arg("f5", Value::User(22)),
                arg("f6", Value::Channel(33)),
                arg("f7", Value::Role(44)),
            ],
        ))
        .unwrap();
    assert_eq!(
        t.values,
        vec![
            Some(Value::Boolean(true)),
            Some(Value::String("hi".to_string())),
            Some(Value::Number(4614256656552045848)),
            Some(Value::Mention(11)),
            Some(Value::User(22)),
            Some(Value::Channel(33)),
            Some(Value::Role(44)),
        ]
    );
}

/// A container command `do` with a subcommand `ping` (variant `Ping`) and
/// a group `admin` (variant `Admin`) holding a leaf `kick` (variant
/// `Kick`) with a required `user` option.
fn container() -> Command {
    let kick = CommandDeclaration {
        annotations: vec![doc("Kick a user."), name_attr("command", "kick")],
        data: DataDeclaration::Struct(vec![field("user", "user", true)]),
    };
    let admin = GroupDeclaration {
        annotations: vec![doc("Admin things."), name_attr("group", "admin")],
        variants: vec![VariantDeclaration {
            ident: "Kick".to_string(),
            annotations: vec![],
            payloads: vec![Declaration::Command(kick)],
        }],
    };
    let ping_leaf = CommandDeclaration {
        annotations: vec![doc("Play a little game!"), name_attr("command", "ping")],
        data: DataDeclaration::Struct(vec![field("n", "integer", true)]),
    };
    Command::new(&CommandDeclaration {
        annotations: vec![doc("Do a thing."), name_attr("command", "do")],
        data: DataDeclaration::Enum(vec![
            VariantDeclaration {
                ident: "Ping".to_string(),
                annotations: vec![word("option", "subcommand")],
                payloads: vec![Declaration::Command(ping_leaf)],
            },
            VariantDeclaration {
                ident: "Admin".to_string(),
                annotations: vec![word("option", "group")],
                payloads: vec![Declaration::Group(admin)],
            },
        ]),
    })
    .unwrap()
}

fn select(name: &str, options: Vec<DataOption>) -> DataOption {
    DataOption { name: name.to_string(), resolved: None, options }
}

#[test]
fn selecting_a_declared_subcommand_recurses_and_tags_the_variant() {
    let t = container()
        .parse_command(interaction(
            "do",
            vec![select("ping", vec![arg("n", Value::Integer(5))])],
        ))
        .unwrap();
    assert_eq!(
        t,
        TypedValue {
            path: vec!["Ping".to_string()],
            values: vec![Some(Value::Integer(5))],
        }
    );
}

#[test]
fn selecting_through_a_group_tags_both_variants() {
    let t = container()
        .parse_command(interaction(
            "do",
            vec![select("admin", vec![select("kick", vec![arg("user", Value::User(9))])])],
        ))
        .unwrap();
    assert_eq!(
        t,
        TypedValue {
            path: vec!["Admin".to_string(), "Kick".to_string()],
            values: vec![Some(Value::User(9))],
        }
    );
}

#[test]
fn selecting_an_undeclared_child_fails_with_unknown_subcommand() {
    let e = container()
        .parse_command(interaction("do", vec![select("pong", vec![])]))
        .unwrap_err();
    assert_eq!(e, ParseError::UnknownSubCommand("pong".to_string()));
}

#[test]
fn selecting_an_undeclared_group_child_fails_with_unknown_subcommand() {
    let e = container()
        .parse_command(interaction("do", vec![select("admin", vec![select("ban", vec![])])]))
        .unwrap_err();
    assert_eq!(e, ParseError::UnknownSubCommand("ban".to_string()));
}

#[test]
fn group_entry_with_foreign_name_fails_with_unknown_subcommand_group() {
    let kick = CommandDeclaration {
        annotations: vec![doc("Kick a user."), name_attr("command", "kick")],
        data: DataDeclaration::Struct(vec![field("user", "user", true)]),
    };
    let group: Group = serenity_commands::compile::parse_group(&GroupDeclaration {
        annotations: vec![doc("Admin things."), name_attr("group", "admin")],
        variants: vec![VariantDeclaration {
            ident: "Kick".to_string(),
            annotations: vec![],
            payloads: vec![Declaration::Command(kick)],
        }],
    })
    .unwrap();
    let e = group.parse_subcommand_group(select("other", vec![])).unwrap_err();
    assert_eq!(e, ParseError::UnknownSubCommandGroup("other".to_string()));
}

#[test]
fn empty_selection_is_rejected_defensively() {
    let e = container().parse_command(interaction("do", vec![])).unwrap_err();
    assert_eq!(e, ParseError::MissingOption("do".to_string()));
}

#[test]
fn empty_group_selection_is_rejected_defensively() {
    let e = container()
        .parse_command(interaction("do", vec![select("admin", vec![])]))
        .unwrap_err();
    assert_eq!(e, ParseError::MissingOption("admin".to_string()));
}

#[test]
fn registry_dispatches_by_command_name() {
    let d = CommandsDeclaration {
        variants: vec![VariantDeclaration {
            ident: "Ping".to_string(),
            annotations: vec![],
            payloads: vec![Declaration::Command(CommandDeclaration {
                annotations: vec![doc("Play a little game!"), name_attr("command", "ping")],
                data: DataDeclaration::Struct(vec![field("n", "integer", true)]),
            })],
        }],
    };
    let cs = parse_commands(&d).unwrap();
    let t = cs.parse(interaction("ping", vec![arg("n", Value::Integer(3))])).unwrap();
    assert_eq!(
        t,
        TypedValue {
            path: vec!["Ping".to_string()],
            values: vec![Some(Value::Integer(3))],
        }
    );
    let e = cs.parse(interaction("pong", vec![])).unwrap_err();
    assert_eq!(e, ParseError::UnknownCommand("pong".to_string()));
}

#[test]
fn parsing_is_repeatable_on_the_same_schema() {
    let cmd = ping();
    let a = cmd.parse_command(interaction("ping", vec![arg("n", Value::Integer(3))])).unwrap();
    let b = cmd.parse_command(interaction("ping", vec![arg("n", Value::Integer(3))])).unwrap();
    assert_eq!(a, b);
}

#[test]
fn parse_errors_print_actionable_messages() {
    assert_eq!(
        ParseError::InvalidType(CommandOptionKind::Integer).message(),
        "invalid option type, expected Integer"
    );
    assert_eq!(
        ParseError::UnknownCommand("pong".to_string()).message(),
        "unknown command \"pong\""
    );
    assert_eq!(
        ParseError::UnknownSubCommand("kick".to_string()).message(),
        "unknown subcommand \"kick\""
    );
    assert_eq!(
        ParseError::UnknownSubCommandGroup("admin".to_string()).message(),
        "unknown subcommand group \"admin\""
    );
    assert_eq!(
        ParseError::UnknownOption("x".to_string()).message(),
        "unknown option \"x\""
    );
    assert_eq!(
        ParseError::MissingOption("n".to_string()).message(),
        "missing option \"n\""
    );
}

#[test]
fn value_kinds_match_their_tags() {
    assert_eq!(Value::Boolean(true).kind(), CommandOptionKind::Boolean);
    assert_eq!(Value::String("s".to_string()).kind(), CommandOptionKind::String);
    assert_eq!(Value::Integer(1).kind(), CommandOptionKind::Integer);
    assert_eq!(Value::Number(0).kind(), CommandOptionKind::Number);
    assert_eq!(Value::Mention(1).kind(), CommandOptionKind::Mention);
    assert_eq!(Value::User(1).kind(), CommandOptionKind::User);
    assert_eq!(Value::Channel(1).kind(), CommandOptionKind::Channel);
    assert_eq!(Value::Role(1).kind(), CommandOptionKind::Role);
}
