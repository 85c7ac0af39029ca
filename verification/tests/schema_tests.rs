//! Schema construction: accepted declarations and every construction-time
//! diagnostic.

use serenity_commands::common::{
    AttrOption, ensure_tuple_variant, get_lit_boolean, get_lit_string, trim_str,
};
use serenity_commands::compile::{parse_commands, parse_group};
use serenity_commands::declaration::{
    Annotation, CommandDeclaration, CommandsDeclaration, DataDeclaration, Declaration,
    FieldDeclaration, GroupDeclaration, Lit, MetaItem, VariantDeclaration,
};
use serenity_commands::error::SchemaError;
use serenity_commands::schema::{
    Command, CommandData, CommandOption, CommandOptionKind, SubCommandData, SubCommandKind,
};

fn doc(s: &str) -> Annotation {
    Annotation::Doc(s.to_string())
}

fn name_attr(path: &str, name: &str) -> Annotation {
    Annotation::List(
        path.to_string(),
        vec![MetaItem::NameValue("name".to_string(), Lit::Str(name.to_string()))],
    )
}

fn word(path: &str, w: &str) -> Annotation {
    Annotation::List(path.to_string(), vec![MetaItem::Word(w.to_string())])
}

fn int_field(ident: &str, required: bool) -> FieldDeclaration {
    let mut items = vec![MetaItem::Word("integer".to_string())];
    if required {
        items.push(MetaItem::Word("required".to_string()));
    }
    FieldDeclaration {
        ident: ident.to_string(),
        annotations: vec![
            doc("An integer argument."),
            Annotation::List("option".to_string(), items),
        ],
    }
}

fn ping_decl() -> CommandDeclaration {
    CommandDeclaration {
        annotations: vec![doc("Play a little game!"), name_attr("command", "ping")],
        data: DataDeclaration::Struct(vec![int_field("n", true)]),
    }
}

#[test]
fn compiles_leaf_command() {
    let c = Command::new(&ping_decl()).unwrap();
    assert_eq!(c.name, "ping");
    assert_eq!(c.description, "Play a little game!");
    match &c.data {
        CommandData::Options(os) => {
            assert_eq!(
                os,
                &vec![CommandOption {
                    name: "n".to_string(),
                    description: "An integer argument.".to_string(),
                    kind: CommandOptionKind::Integer,
                    required: true,
                }]
            );
        }
        CommandData::SubCommands(_) => panic!("expected options"),
    }
}

#[test]
fn description_is_trimmed() {
    let mut d = ping_decl();
    d.annotations[0] = doc("  padded description \t ");
    let c = Command::new(&d).unwrap();
    assert_eq!(c.description, "padded description");
}

#[test]
fn option_name_defaults_to_field_ident_and_can_be_overridden() {
    let mut d = ping_decl();
    if let DataDeclaration::Struct(fs) = &mut d.data {
        fs[0].annotations.push(name_attr("option", "count"));
    }
    let c = Command::new(&d).unwrap();
    match &c.data {
        CommandData::Options(os) => assert_eq!(os[0].name, "count"),
        _ => panic!(),
    }
}

#[test]
fn option_without_required_marker_is_optional() {
    let d = CommandDeclaration {
        annotations: vec![doc("d"), name_attr("command", "c")],
        data: DataDeclaration::Struct(vec![int_field("n", false)]),
    };
    let c = Command::new(&d).unwrap();
    match &c.data {
        CommandData::Options(os) => assert!(!os[0].required),
        _ => panic!(),
    }
}

#[test]
fn missing_name_is_rejected() {
    let d = CommandDeclaration {
        annotations: vec![doc("described")],
        data: DataDeclaration::Struct(vec![]),
    };
    assert_eq!(Command::new(&d).unwrap_err(), SchemaError::MissingName);
}

#[test]
fn missing_description_is_rejected() {
    let d = CommandDeclaration {
        annotations: vec![name_attr("command", "c")],
        data: DataDeclaration::Struct(vec![]),
    };
    assert_eq!(Command::new(&d).unwrap_err(), SchemaError::MissingDescription);
}

#[test]
fn second_doc_line_is_rejected() {
    let d = CommandDeclaration {
        annotations: vec![doc("one"), doc("two"), name_attr("command", "c")],
        data: DataDeclaration::Struct(vec![]),
    };
    assert_eq!(Command::new(&d).unwrap_err(), SchemaError::DuplicateDescription);
}

#[test]
fn second_name_parameter_is_rejected() {
    let d = CommandDeclaration {
        annotations: vec![doc("d"), name_attr("command", "a"), name_attr("command", "b")],
        data: DataDeclaration::Struct(vec![]),
    };
    assert_eq!(
        Command::new(&d).unwrap_err(),
        SchemaError::DuplicateParameter("name".to_string())
    );
}

#[test]
fn non_string_name_is_rejected() {
    let d = CommandDeclaration {
        annotations: vec![
            doc("d"),
            Annotation::List(
                "command".to_string(),
                vec![MetaItem::NameValue("name".to_string(), Lit::Bool(true))],
            ),
        ],
        data: DataDeclaration::Struct(vec![]),
    };
    assert_eq!(Command::new(&d).unwrap_err(), SchemaError::ExpectedString);
}

#[test]
fn unknown_meta_in_command_annotation_is_rejected() {
    let d = CommandDeclaration {
        annotations: vec![doc("d"), word("command", "stray")],
        data: DataDeclaration::Struct(vec![]),
    };
    assert_eq!(Command::new(&d).unwrap_err(), SchemaError::UnknownMeta);
}

#[test]
fn bare_relevant_annotation_is_rejected() {
    let d = CommandDeclaration {
        annotations: vec![doc("d"), Annotation::Bare("command".to_string())],
        data: DataDeclaration::Struct(vec![]),
    };
    assert_eq!(
        Command::new(&d).unwrap_err(),
        SchemaError::ExpectedList("command".to_string())
    );
}

#[test]
fn irrelevant_annotations_are_skipped() {
    let d = CommandDeclaration {
        annotations: vec![
            Annotation::Bare("derive".to_string()),
            word("serde", "skip"),
            doc("d"),
            name_attr("command", "c"),
        ],
        data: DataDeclaration::Struct(vec![]),
    };
    assert!(Command::new(&d).is_ok());
}

#[test]
fn empty_name_is_rejected() {
    let d = CommandDeclaration {
        annotations: vec![doc("d"), name_attr("command", "")],
        data: DataDeclaration::Struct(vec![]),
    };
    assert_eq!(Command::new(&d).unwrap_err(), SchemaError::InvalidName(String::new()));
}

#[test]
fn overlong_name_is_rejected() {
    let long = "x".repeat(33);
    let d = CommandDeclaration {
        annotations: vec![doc("d"), name_attr("command", &long)],
        data: DataDeclaration::Struct(vec![]),
    };
    assert_eq!(Command::new(&d).unwrap_err(), SchemaError::InvalidName(long));
}

#[test]
fn whitespace_only_description_is_rejected() {
    let d = CommandDeclaration {
        annotations: vec![doc("   \t "), name_attr("command", "c")],
        data: DataDeclaration::Struct(vec![]),
    };
    assert_eq!(
        Command::new(&d).unwrap_err(),
        SchemaError::InvalidDescription(String::new())
    );
}

#[test]
fn overlong_description_is_rejected() {
    let long = "y".repeat(101);
    let d = CommandDeclaration {
        annotations: vec![doc(&long), name_attr("command", "c")],
        data: DataDeclaration::Struct(vec![]),
    };
    assert_eq!(Command::new(&d).unwrap_err(), SchemaError::InvalidDescription(long));
}

#[test]
fn stray_literal_in_option_annotation_is_rejected() {
    let d = CommandDeclaration {
        annotations: vec![doc("d"), name_attr("command", "c")],
        data: DataDeclaration::Struct(vec![FieldDeclaration {
            ident: "n".to_string(),
            annotations: vec![
                doc("o"),
                Annotation::List(
                    "option".to_string(),
                    vec![MetaItem::Literal(Lit::Str("loose".to_string()))],
                ),
            ],
        }]),
    };
    assert_eq!(Command::new(&d).unwrap_err(), SchemaError::UnexpectedLiteral);
}

#[test]
fn second_kind_marker_is_rejected() {
    let d = CommandDeclaration {
        annotations: vec![doc("d"), name_attr("command", "c")],
        data: DataDeclaration::Struct(vec![FieldDeclaration {
            ident: "n".to_string(),
            annotations: vec![
                doc("o"),
                Annotation::List(
                    "option".to_string(),
                    vec![
                        MetaItem::Word("integer".to_string()),
                        MetaItem::Word("string".to_string()),
                    ],
                ),
            ],
        }]),
    };
    assert_eq!(Command::new(&d).unwrap_err(), SchemaError::DuplicateKind);
}

#[test]
fn missing_kind_marker_is_rejected() {
    let d = CommandDeclaration {
        annotations: vec![doc("d"), name_attr("command", "c")],
        data: DataDeclaration::Struct(vec![FieldDeclaration {
            ident: "n".to_string(),
            annotations: vec![doc("o")],
        }]),
    };
    assert_eq!(Command::new(&d).unwrap_err(), SchemaError::MissingKind);
}

#[test]
fn second_required_marker_is_rejected() {
    let d = CommandDeclaration {
        annotations: vec![doc("d"), name_attr("command", "c")],
        data: DataDeclaration::Struct(vec![FieldDeclaration {
            ident: "n".to_string(),
            annotations: vec![
                doc("o"),
                Annotation::List(
                    "option".to_string(),
                    vec![
                        MetaItem::Word("required".to_string()),
                        MetaItem::Word("required".to_string()),
                    ],
                ),
            ],
        }]),
    };
    assert_eq!(
        Command::new(&d).unwrap_err(),
        SchemaError::DuplicateParameter("required".to_string())
    );
}

#[test]
fn duplicate_option_names_are_rejected() {
    let d = CommandDeclaration {
        annotations: vec![doc("d"), name_attr("command", "c")],
        data: DataDeclaration::Struct(vec![int_field("n", true), int_field("n", false)]),
    };
    assert_eq!(Command::new(&d).unwrap_err(), SchemaError::DuplicateName("n".to_string()));
}

#[test]
fn twenty_six_options_are_rejected_before_any_parsing() {
    let fields: Vec<FieldDeclaration> =
        (0..26).map(|i| int_field(&format!("f{i}"), false)).collect();
    let d = CommandDeclaration {
        annotations: vec![doc("d"), name_attr("command", "c")],
        data: DataDeclaration::Struct(fields),
    };
    assert_eq!(Command::new(&d).unwrap_err(), SchemaError::TooManyOptions);
}

#[test]
fn twenty_five_options_are_accepted() {
    let fields: Vec<FieldDeclaration> =
        (0..25).map(|i| int_field(&format!("f{i}"), false)).collect();
    let d = CommandDeclaration {
        annotations: vec![doc("d"), name_attr("command", "c")],
        data: DataDeclaration::Struct(fields),
    };
    assert!(Command::new(&d).is_ok());
}

fn sub_variant(ident: &str, marker: &str, payload: Declaration) -> VariantDeclaration {
    VariantDeclaration {
        ident: ident.to_string(),
        annotations: vec![word("option", marker)],
        payloads: vec![payload],
    }
}

fn leaf_decl(name: &str) -> CommandDeclaration {
    CommandDeclaration {
        annotations: vec![doc("A leaf."), name_attr("command", name)],
        data: DataDeclaration::Struct(vec![]),
    }
}

fn group_decl(name: &str) -> GroupDeclaration {
    GroupDeclaration {
        annotations: vec![doc("A group."), name_attr("group", name)],
        variants: vec![VariantDeclaration {
            ident: "Kick".to_string(),
            annotations: vec![],
            payloads: vec![Declaration::Command(leaf_decl("kick"))],
        }],
    }
}

#[test]
fn compiles_container_command() {
    let d = CommandDeclaration {
        annotations: vec![doc("Top."), name_attr("command", "do")],
        data: DataDeclaration::Enum(vec![
            sub_variant("Ping", "subcommand", Declaration::Command(leaf_decl("ping"))),
            sub_variant("Admin", "group", Declaration::Group(group_decl("admin"))),
        ]),
    };
    let c = Command::new(&d).unwrap();
    match &c.data {
        CommandData::SubCommands(ss) => {
            assert_eq!(ss.len(), 2);
            assert_eq!(ss[0].variant, "Ping");
            assert_eq!(ss[0].name(), "ping");
            assert!(matches!(ss[0].data, SubCommandData::SubCommand(_)));
            assert_eq!(ss[1].variant, "Admin");
            assert_eq!(ss[1].name(), "admin");
            assert!(matches!(ss[1].data, SubCommandData::Group(_)));
        }
        _ => panic!("expected subcommands"),
    }
}

#[test]
fn variant_without_kind_marker_is_rejected() {
    let d = CommandDeclaration {
        annotations: vec![doc("Top."), name_attr("command", "do")],
        data: DataDeclaration::Enum(vec![VariantDeclaration {
            ident: "Ping".to_string(),
            annotations: vec![],
            payloads: vec![Declaration::Command(leaf_decl("ping"))],
        }]),
    };
    assert_eq!(Command::new(&d).unwrap_err(), SchemaError::MissingKind);
}

#[test]
fn variant_with_two_payloads_is_rejected() {
    let d = CommandDeclaration {
        annotations: vec![doc("Top."), name_attr("command", "do")],
        data: DataDeclaration::Enum(vec![VariantDeclaration {
            ident: "Ping".to_string(),
            annotations: vec![word("option", "subcommand")],
            payloads: vec![
                Declaration::Command(leaf_decl("a")),
                Declaration::Command(leaf_decl("b")),
            ],
        }]),
    };
    assert_eq!(
        Command::new(&d).unwrap_err(),
        SchemaError::ExpectedSingleSubCommand("Ping".to_string())
    );
}

#[test]
fn subcommand_marker_on_group_payload_is_rejected() {
    let d = CommandDeclaration {
        annotations: vec![doc("Top."), name_attr("command", "do")],
        data: DataDeclaration::Enum(vec![sub_variant(
            "Admin",
            "subcommand",
            Declaration::Group(group_decl("admin")),
        )]),
    };
    assert_eq!(
        Command::new(&d).unwrap_err(),
        SchemaError::KindMismatch("Admin".to_string())
    );
}

#[test]
fn group_marker_on_command_payload_is_rejected() {
    let d = CommandDeclaration {
        annotations: vec![doc("Top."), name_attr("command", "do")],
        data: DataDeclaration::Enum(vec![sub_variant(
            "Ping",
            "group",
            Declaration::Command(leaf_decl("ping")),
        )]),
    };
    assert_eq!(
        Command::new(&d).unwrap_err(),
        SchemaError::KindMismatch("Ping".to_string())
    );
}

#[test]
fn bare_option_annotation_on_field_is_rejected() {
    let d = CommandDeclaration {
        annotations: vec![doc("d"), name_attr("command", "c")],
        data: DataDeclaration::Struct(vec![FieldDeclaration {
            ident: "n".to_string(),
            annotations: vec![doc("o"), Annotation::Bare("option".to_string())],
        }]),
    };
    assert_eq!(
        Command::new(&d).unwrap_err(),
        SchemaError::ExpectedList("option".to_string())
    );
}

#[test]
fn container_nested_as_subcommand_is_rejected() {
    let inner = CommandDeclaration {
        annotations: vec![doc("Inner."), name_attr("command", "inner")],
        data: DataDeclaration::Enum(vec![sub_variant(
            "Leaf",
            "subcommand",
            Declaration::Command(leaf_decl("leaf")),
        )]),
    };
    let d = CommandDeclaration {
        annotations: vec![doc("Top."), name_attr("command", "do")],
        data: DataDeclaration::Enum(vec![sub_variant(
            "Inner",
            "subcommand",
            Declaration::Command(inner),
        )]),
    };
    assert_eq!(
        Command::new(&d).unwrap_err(),
        SchemaError::NestingTooDeep("Inner".to_string())
    );
}

#[test]
fn duplicate_child_names_are_rejected() {
    let d = CommandDeclaration {
        annotations: vec![doc("Top."), name_attr("command", "do")],
        data: DataDeclaration::Enum(vec![
            sub_variant("A", "subcommand", Declaration::Command(leaf_decl("same"))),
            sub_variant("B", "subcommand", Declaration::Command(leaf_decl("same"))),
        ]),
    };
    assert_eq!(Command::new(&d).unwrap_err(), SchemaError::DuplicateName("same".to_string()));
}

#[test]
fn twenty_six_children_are_rejected_before_any_parsing() {
    let vs: Vec<VariantDeclaration> = (0..26)
        .map(|i| {
            sub_variant(
                &format!("V{i}"),
                "subcommand",
                Declaration::Command(leaf_decl(&format!("c{i}"))),
            )
        })
        .collect();
    let d = CommandDeclaration {
        annotations: vec![doc("Top."), name_attr("command", "do")],
        data: DataDeclaration::Enum(vs),
    };
    assert_eq!(Command::new(&d).unwrap_err(), SchemaError::TooManySubCommands);
}

#[test]
fn compiles_group() {
    let g = parse_group(&group_decl("admin")).unwrap();
    assert_eq!(g.name, "admin");
    assert_eq!(g.description, "A group.");
    assert_eq!(g.subcommands.len(), 1);
    assert_eq!(g.subcommands[0].variant, "Kick");
    assert_eq!(g.subcommands[0].command.name, "kick");
}

#[test]
fn group_with_twenty_six_children_is_rejected() {
    let vs: Vec<VariantDeclaration> = (0..26)
        .map(|i| VariantDeclaration {
            ident: format!("V{i}"),
            annotations: vec![],
            payloads: vec![Declaration::Command(leaf_decl(&format!("c{i}")))],
        })
        .collect();
    let d = GroupDeclaration {
        annotations: vec![doc("A group."), name_attr("group", "admin")],
        variants: vs,
    };
    assert_eq!(parse_group(&d).unwrap_err(), SchemaError::TooManySubCommands);
}

#[test]
fn group_wrapping_group_is_rejected() {
    let d = GroupDeclaration {
        annotations: vec![doc("A group."), name_attr("group", "outer")],
        variants: vec![VariantDeclaration {
            ident: "Inner".to_string(),
            annotations: vec![],
            payloads: vec![Declaration::Group(group_decl("inner"))],
        }],
    };
    assert_eq!(parse_group(&d).unwrap_err(), SchemaError::NestingTooDeep("Inner".to_string()));
}

#[test]
fn group_wrapping_container_is_rejected() {
    let inner = CommandDeclaration {
        annotations: vec![doc("Inner."), name_attr("command", "inner")],
        data: DataDeclaration::Enum(vec![sub_variant(
            "Leaf",
            "subcommand",
            Declaration::Command(leaf_decl("leaf")),
        )]),
    };
    let d = GroupDeclaration {
        annotations: vec![doc("A group."), name_attr("group", "outer")],
        variants: vec![VariantDeclaration {
            ident: "Inner".to_string(),
            annotations: vec![],
            payloads: vec![Declaration::Command(inner)],
        }],
    };
    assert_eq!(parse_group(&d).unwrap_err(), SchemaError::NestingTooDeep("Inner".to_string()));
}

#[test]
fn compiles_command_registry() {
    let d = CommandsDeclaration {
        variants: vec![VariantDeclaration {
            ident: "Ping".to_string(),
            annotations: vec![],
            payloads: vec![Declaration::Command(ping_decl())],
        }],
    };
    let cs = parse_commands(&d).unwrap();
    assert_eq!(cs.commands.len(), 1);
    assert_eq!(cs.commands[0].variant, "Ping");
    assert_eq!(cs.commands[0].command.name, "ping");
}

#[test]
fn group_at_top_level_is_rejected() {
    let d = CommandsDeclaration {
        variants: vec![VariantDeclaration {
            ident: "Admin".to_string(),
            annotations: vec![],
            payloads: vec![Declaration::Group(group_decl("admin"))],
        }],
    };
    assert_eq!(
        parse_commands(&d).unwrap_err(),
        SchemaError::GroupAtTopLevel("Admin".to_string())
    );
}

#[test]
fn duplicate_top_level_names_are_rejected() {
    let d = CommandsDeclaration {
        variants: vec![
            VariantDeclaration {
                ident: "A".to_string(),
                annotations: vec![],
                payloads: vec![Declaration::Command(leaf_decl("same"))],
            },
            VariantDeclaration {
                ident: "B".to_string(),
                annotations: vec![],
                payloads: vec![Declaration::Command(leaf_decl("same"))],
            },
        ],
    };
    assert_eq!(parse_commands(&d).unwrap_err(), SchemaError::DuplicateName("same".to_string()));
}

#[test]
fn kind_marker_words_parse_to_the_closed_set() {
    assert_eq!(CommandOptionKind::new("boolean"), Some(CommandOptionKind::Boolean));
    assert_eq!(CommandOptionKind::new("string"), Some(CommandOptionKind::String));
    assert_eq!(CommandOptionKind::new("integer"), Some(CommandOptionKind::Integer));
    assert_eq!(CommandOptionKind::new("number"), Some(CommandOptionKind::Number));
    assert_eq!(CommandOptionKind::new("mention"), Some(CommandOptionKind::Mention));
    assert_eq!(CommandOptionKind::new("user"), Some(CommandOptionKind::User));
    assert_eq!(CommandOptionKind::new("channel"), Some(CommandOptionKind::Channel));
    assert_eq!(CommandOptionKind::new("role"), Some(CommandOptionKind::Role));
    assert_eq!(CommandOptionKind::new("float"), None);
    assert_eq!(SubCommandKind::new("subcommand"), Some(SubCommandKind::SubCommand));
    assert_eq!(SubCommandKind::new("group"), Some(SubCommandKind::Group));
    assert_eq!(SubCommandKind::new("leaf"), None);
}

#[test]
fn attr_option_accepts_one_value() {
    let mut opt: AttrOption<String> = AttrOption::new("name");
    assert!(opt.set("first".to_string()).is_ok());
    assert_eq!(
        opt.set("second".to_string()).unwrap_err(),
        SchemaError::DuplicateParameter("name".to_string())
    );
    assert_eq!(opt.value(), Some("first".to_string()));
}

#[test]
fn fresh_attr_option_is_empty() {
    let opt: AttrOption<bool> = AttrOption::new("required");
    assert_eq!(opt.value(), None);
}

#[test]
fn lit_readers_check_the_literal_kind() {
    assert_eq!(get_lit_string(&Lit::Str("s".to_string())).unwrap(), "s");
    assert_eq!(get_lit_string(&Lit::Bool(true)).unwrap_err(), SchemaError::ExpectedString);
    assert_eq!(get_lit_boolean(&Lit::Bool(true)).unwrap(), true);
    assert_eq!(
        get_lit_boolean(&Lit::Str("s".to_string())).unwrap_err(),
        SchemaError::ExpectedBoolean
    );
}

#[test]
fn tuple_variant_check_requires_exactly_one_payload() {
    let none = VariantDeclaration {
        ident: "V".to_string(),
        annotations: vec![],
        payloads: vec![],
    };
    assert_eq!(
        ensure_tuple_variant(&none).unwrap_err(),
        SchemaError::ExpectedSingleSubCommand("V".to_string())
    );
    let one = VariantDeclaration {
        ident: "V".to_string(),
        annotations: vec![],
        payloads: vec![Declaration::Command(leaf_decl("c"))],
    };
    assert!(ensure_tuple_variant(&one).is_ok());
}

#[test]
fn trim_removes_ascii_whitespace_at_both_ends() {
    assert_eq!(trim_str(" \t hello world \n"), "hello world");
    assert_eq!(trim_str("bare"), "bare");
    assert_eq!(trim_str("   "), "");
    assert_eq!(trim_str(""), "");
}
