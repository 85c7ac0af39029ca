//! The two error families: schema-construction errors, raised once when a
//! declaration is compiled, and runtime parse errors, raised per interaction.

use vstd::prelude::*;
use vstd::string::StringExecFns;

use crate::schema::{CommandOptionKind, kind_name};

verus! {

/// A runtime parse failure.  This set is closed: every failed interaction
/// parse yields exactly one of these, carrying the offending name or the
/// expected kind.
#[derive(Clone, Debug, PartialEq, Eq)]
pub enum ParseError {
    InvalidType(CommandOptionKind),
    UnknownCommand(String),
    UnknownSubCommand(String),
    UnknownSubCommandGroup(String),
    UnknownOption(String),
    MissingOption(String),
}

#[verifier::ext_equal]
pub enum ParseErrorView {
    InvalidType(CommandOptionKind),
    UnknownCommand(Seq<char>),
    UnknownSubCommand(Seq<char>),
    UnknownSubCommandGroup(Seq<char>),
    UnknownOption(Seq<char>),
    MissingOption(Seq<char>),
}

impl View for ParseError {
    type V = ParseErrorView;

    open spec fn view(&self) -> ParseErrorView {
        match self {
            ParseError::InvalidType(k) => ParseErrorView::InvalidType(*k),
            ParseError::UnknownCommand(s) => ParseErrorView::UnknownCommand(s@),
            ParseError::UnknownSubCommand(s) => ParseErrorView::UnknownSubCommand(s@),
            ParseError::UnknownSubCommandGroup(s) => ParseErrorView::UnknownSubCommandGroup(s@),
            ParseError::UnknownOption(s) => ParseErrorView::UnknownOption(s@),
            ParseError::MissingOption(s) => ParseErrorView::MissingOption(s@),
        }
    }
}

/// The diagnostic line a parse error prints as.
pub open spec fn message_spec(e: ParseErrorView) -> Seq<char> {
    match e {
        ParseErrorView::InvalidType(k) => "invalid option type, expected "@ + kind_name(k),
        ParseErrorView::UnknownCommand(s) => "unknown command \""@ + s + "\""@,
        ParseErrorView::UnknownSubCommand(s) => "unknown subcommand \""@ + s + "\""@,
        ParseErrorView::UnknownSubCommandGroup(s) => "unknown subcommand group \""@ + s + "\""@,
        ParseErrorView::UnknownOption(s) => "unknown option \""@ + s + "\""@,
        ParseErrorView::MissingOption(s) => "missing option \""@ + s + "\""@,
    }
}

fn quoted(prefix: &str, name: &String) -> (r: String)
    ensures
        r@ == prefix@ + name@ + "\""@,
{
    let mut s = prefix.to_owned();
    s.append(name.as_str());
    s.append("\"");
    proof {
        assert(s@ =~= prefix@ + name@ + "\""@);
    }
    s
}

impl ParseError {
    /// The diagnostic line for this error.
    pub fn message(&self) -> (r: String)
        ensures
            r@ == message_spec(self@),
    {
        match self {
            ParseError::InvalidType(k) => {
                let mut s = "invalid option type, expected ".to_owned();
                s.append(k.name());
                s
            },
            ParseError::UnknownCommand(c) => quoted("unknown command \"", c),
            ParseError::UnknownSubCommand(c) => quoted("unknown subcommand \"", c),
            ParseError::UnknownSubCommandGroup(c) => quoted("unknown subcommand group \"", c),
            ParseError::UnknownOption(o) => quoted("unknown option \"", o),
            ParseError::MissingOption(o) => quoted("missing option \"", o),
        }
    }
}

/// A declaration that cannot be compiled into a schema.  Raised before any
/// registration or parsing, carrying the offending element where one exists.
#[derive(Clone, Debug, PartialEq, Eq)]
pub enum SchemaError {
    /// No name parameter was provided where one is mandatory.
    MissingName,
    /// A name is empty or longer than the platform's limit.
    InvalidName(String),
    /// No documentation line provides the mandatory description.
    MissingDescription,
    /// More than one documentation line was provided.
    DuplicateDescription,
    /// A description is empty after trimming, or longer than the limit.
    InvalidDescription(String),
    /// An annotation parameter was provided twice.
    DuplicateParameter(String),
    /// A relevant annotation does not carry a parenthesised list.
    ExpectedList(String),
    /// A string literal was expected.
    ExpectedString,
    /// A boolean literal was expected.
    ExpectedBoolean,
    /// An annotation entry is not one of the recognised forms.
    UnknownMeta,
    /// A bare literal stood where a parameter was expected.
    UnexpectedLiteral,
    /// A kind marker was provided twice.
    DuplicateKind,
    /// No kind marker was provided where one is mandatory.
    MissingKind,
    /// A leaf command declares more than 25 options.
    TooManyOptions,
    /// A container or group declares more than 25 children.
    TooManySubCommands,
    /// Two siblings share a name.
    DuplicateName(String),
    /// A variant must wrap exactly one nested declaration.
    ExpectedSingleSubCommand(String),
    /// A variant's kind marker disagrees with the declaration it wraps.
    KindMismatch(String),
    /// A nested declaration exceeds the one permitted level of nesting.
    NestingTooDeep(String),
    /// A group stands where only commands may: at the top level.
    GroupAtTopLevel(String),
}

#[verifier::ext_equal]
pub enum SchemaErrorView {
    MissingName,
    InvalidName(Seq<char>),
    MissingDescription,
    DuplicateDescription,
    InvalidDescription(Seq<char>),
    DuplicateParameter(Seq<char>),
    ExpectedList(Seq<char>),
    ExpectedString,
    ExpectedBoolean,
    UnknownMeta,
    UnexpectedLiteral,
    DuplicateKind,
    MissingKind,
    TooManyOptions,
    TooManySubCommands,
    DuplicateName(Seq<char>),
    ExpectedSingleSubCommand(Seq<char>),
    KindMismatch(Seq<char>),
    NestingTooDeep(Seq<char>),
    GroupAtTopLevel(Seq<char>),
}

impl View for SchemaError {
    type V = SchemaErrorView;

    open spec fn view(&self) -> SchemaErrorView {
        match self {
            SchemaError::MissingName => SchemaErrorView::MissingName,
            SchemaError::InvalidName(s) => SchemaErrorView::InvalidName(s@),
            SchemaError::MissingDescription => SchemaErrorView::MissingDescription,
            SchemaError::DuplicateDescription => SchemaErrorView::DuplicateDescription,
            SchemaError::InvalidDescription(s) => SchemaErrorView::InvalidDescription(s@),
            SchemaError::DuplicateParameter(s) => SchemaErrorView::DuplicateParameter(s@),
            SchemaError::ExpectedList(s) => SchemaErrorView::ExpectedList(s@),
            SchemaError::ExpectedString => SchemaErrorView::ExpectedString,
            SchemaError::ExpectedBoolean => SchemaErrorView::ExpectedBoolean,
            SchemaError::UnknownMeta => SchemaErrorView::UnknownMeta,
            SchemaError::UnexpectedLiteral => SchemaErrorView::UnexpectedLiteral,
            SchemaError::DuplicateKind => SchemaErrorView::DuplicateKind,
            SchemaError::MissingKind => SchemaErrorView::MissingKind,
            SchemaError::TooManyOptions => SchemaErrorView::TooManyOptions,
            SchemaError::TooManySubCommands => SchemaErrorView::TooManySubCommands,
            SchemaError::DuplicateName(s) => SchemaErrorView::DuplicateName(s@),
            SchemaError::ExpectedSingleSubCommand(s) => SchemaErrorView::ExpectedSingleSubCommand(
                s@,
            ),
            SchemaError::KindMismatch(s) => SchemaErrorView::KindMismatch(s@),
            SchemaError::NestingTooDeep(s) => SchemaErrorView::NestingTooDeep(s@),
            SchemaError::GroupAtTopLevel(s) => SchemaErrorView::GroupAtTopLevel(s@),
        }
    }
}

} // verus!
