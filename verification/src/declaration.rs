//! The declaration model: the host-independent form of an annotated type
//! definition.  Whatever authoring surface produced it — attribute macros,
//! a configuration file, builder calls — is reduced to this plain data
//! before the schema compiler reads it.

use vstd::prelude::*;

verus! {

/// A literal value carried by an annotation parameter.
#[derive(Clone, Debug, PartialEq, Eq)]
pub enum Lit {
    Str(String),
    Bool(bool),
}

/// One entry inside a parenthesised annotation list.
#[derive(Clone, Debug, PartialEq, Eq)]
pub enum MetaItem {
    /// `key = literal`.
    NameValue(String, Lit),
    /// A bare marker word, such as a kind.
    Word(String),
    /// A stray literal with no key.
    Literal(Lit),
}

/// One annotation attached to a declaration element.
#[derive(Clone, Debug, PartialEq, Eq)]
pub enum Annotation {
    /// A documentation line; its trimmed text is the description.
    Doc(String),
    /// A parenthesised list, `#[path(items)]`.
    List(String, Vec<MetaItem>),
    /// An annotation of some other shape under the given path.
    Bare(String),
}

/// A named field of a leaf command declaration.
#[derive(Clone, Debug, PartialEq, Eq)]
pub struct FieldDeclaration {
    pub ident: String,
    pub annotations: Vec<Annotation>,
}

/// A variant of a container declaration, wrapping nested declarations.
/// A well-formed variant wraps exactly one; the compiler enforces that.
#[derive(Debug, PartialEq, Eq)]
pub struct VariantDeclaration {
    pub ident: String,
    pub annotations: Vec<Annotation>,
    pub payloads: Vec<Declaration>,
}

/// The body of a command declaration: named fields (a leaf) or variants
/// (a container).
#[derive(Debug, PartialEq, Eq)]
pub enum DataDeclaration {
    Struct(Vec<FieldDeclaration>),
    Enum(Vec<VariantDeclaration>),
}

/// An annotated command declaration.
#[derive(Debug, PartialEq, Eq)]
pub struct CommandDeclaration {
    pub annotations: Vec<Annotation>,
    pub data: DataDeclaration,
}

/// An annotated subcommand-group declaration; every variant wraps one leaf
/// command declaration.
#[derive(Debug, PartialEq, Eq)]
pub struct GroupDeclaration {
    pub annotations: Vec<Annotation>,
    pub variants: Vec<VariantDeclaration>,
}

/// A nested declaration: a command or a group.
#[derive(Debug, PartialEq, Eq)]
pub enum Declaration {
    Command(CommandDeclaration),
    Group(GroupDeclaration),
}

/// The declaration of the top-level command set; every variant wraps one
/// command declaration.
#[derive(Debug, PartialEq, Eq)]
pub struct CommandsDeclaration {
    pub variants: Vec<VariantDeclaration>,
}

// ---------------------------------------------------------------------------
// Mathematical views of declarations.
// ---------------------------------------------------------------------------

#[verifier::ext_equal]
pub enum LitView {
    Str(Seq<char>),
    Bool(bool),
}

#[verifier::ext_equal]
pub enum MetaItemView {
    NameValue(Seq<char>, LitView),
    Word(Seq<char>),
    Literal(LitView),
}

#[verifier::ext_equal]
pub enum AnnotationView {
    Doc(Seq<char>),
    List(Seq<char>, Seq<MetaItemView>),
    Bare(Seq<char>),
}

#[verifier::ext_equal]
pub struct FieldDeclarationView {
    pub ident: Seq<char>,
    pub annotations: Seq<AnnotationView>,
}

#[verifier::ext_equal]
pub struct VariantDeclarationView {
    pub ident: Seq<char>,
    pub annotations: Seq<AnnotationView>,
    pub payloads: Seq<DeclarationView>,
}

#[verifier::ext_equal]
pub enum DataDeclarationView {
    Struct(Seq<FieldDeclarationView>),
    Enum(Seq<VariantDeclarationView>),
}

#[verifier::ext_equal]
pub struct CommandDeclarationView {
    pub annotations: Seq<AnnotationView>,
    pub data: DataDeclarationView,
}

#[verifier::ext_equal]
pub struct GroupDeclarationView {
    pub annotations: Seq<AnnotationView>,
    pub variants: Seq<VariantDeclarationView>,
}

#[verifier::ext_equal]
pub enum DeclarationView {
    Command(CommandDeclarationView),
    Group(GroupDeclarationView),
}

#[verifier::ext_equal]
pub struct CommandsDeclarationView {
    pub variants: Seq<VariantDeclarationView>,
}

impl View for Lit {
    type V = LitView;

    open spec fn view(&self) -> LitView {
        match self {
            Lit::Str(s) => LitView::Str(s@),
            Lit::Bool(b) => LitView::Bool(*b),
        }
    }
}

impl View for MetaItem {
    type V = MetaItemView;

    open spec fn view(&self) -> MetaItemView {
        match self {
            MetaItem::NameValue(k, l) => MetaItemView::NameValue(k@, l@),
            MetaItem::Word(w) => MetaItemView::Word(w@),
            MetaItem::Literal(l) => MetaItemView::Literal(l@),
        }
    }
}

/// The view of a sequence of annotation entries.
pub open spec fn meta_items_view(s: Seq<MetaItem>) -> Seq<MetaItemView> {
    s.map_values(|m: MetaItem| m@)
}

impl View for Annotation {
    type V = AnnotationView;

    open spec fn view(&self) -> AnnotationView {
        match self {
            Annotation::Doc(s) => AnnotationView::Doc(s@),
            Annotation::List(p, items) => AnnotationView::List(p@, meta_items_view(items@)),
            Annotation::Bare(p) => AnnotationView::Bare(p@),
        }
    }
}

/// The view of a sequence of annotations.
pub open spec fn annotations_view(s: Seq<Annotation>) -> Seq<AnnotationView> {
    s.map_values(|a: Annotation| a@)
}

/// The view of a sequence of field declarations.
pub open spec fn fields_view(s: Seq<FieldDeclaration>) -> Seq<FieldDeclarationView> {
    s.map_values(|f: FieldDeclaration| f@)
}

impl View for FieldDeclaration {
    type V = FieldDeclarationView;

    open spec fn view(&self) -> FieldDeclarationView {
        FieldDeclarationView { ident: self.ident@, annotations: annotations_view(self.annotations@) }
    }
}

pub open spec fn declaration_view(d: Declaration) -> DeclarationView
    decreases d,
{
    match d {
        Declaration::Command(cd) => DeclarationView::Command(command_declaration_view(cd)),
        Declaration::Group(gd) => DeclarationView::Group(group_declaration_view(gd)),
    }
}

pub open spec fn command_declaration_view(d: CommandDeclaration) -> CommandDeclarationView
    decreases d,
{
    CommandDeclarationView {
        annotations: annotations_view(d.annotations@),
        data: data_declaration_view(d.data),
    }
}

pub open spec fn data_declaration_view(d: DataDeclaration) -> DataDeclarationView
    decreases d,
{
    match d {
        DataDeclaration::Struct(fs) => DataDeclarationView::Struct(fields_view(fs@)),
        DataDeclaration::Enum(vs) => DataDeclarationView::Enum(variant_declarations_view(vs@)),
    }
}

pub open spec fn variant_declarations_view(vs: Seq<VariantDeclaration>) -> Seq<
    VariantDeclarationView,
>
    decreases vs,
{
    if vs.len() == 0 {
        Seq::empty()
    } else {
        seq![variant_declaration_view(vs[0])] + variant_declarations_view(
            vs.subrange(1, vs.len() as int),
        )
    }
}

pub open spec fn variant_declaration_view(v: VariantDeclaration) -> VariantDeclarationView
    decreases v,
{
    VariantDeclarationView {
        ident: v.ident@,
        annotations: annotations_view(v.annotations@),
        payloads: payloads_view(v.payloads@),
    }
}

pub open spec fn payloads_view(ds: Seq<Declaration>) -> Seq<DeclarationView>
    decreases ds,
{
    if ds.len() == 0 {
        Seq::empty()
    } else {
        seq![declaration_view(ds[0])] + payloads_view(ds.subrange(1, ds.len() as int))
    }
}

pub open spec fn group_declaration_view(d: GroupDeclaration) -> GroupDeclarationView
    decreases d,
{
    GroupDeclarationView {
        annotations: annotations_view(d.annotations@),
        variants: variant_declarations_view(d.variants@),
    }
}

impl View for VariantDeclaration {
    type V = VariantDeclarationView;

    open spec fn view(&self) -> VariantDeclarationView {
        variant_declaration_view(*self)
    }
}

impl View for DataDeclaration {
    type V = DataDeclarationView;

    open spec fn view(&self) -> DataDeclarationView {
        data_declaration_view(*self)
    }
}

impl View for CommandDeclaration {
    type V = CommandDeclarationView;

    open spec fn view(&self) -> CommandDeclarationView {
        command_declaration_view(*self)
    }
}

impl View for GroupDeclaration {
    type V = GroupDeclarationView;

    open spec fn view(&self) -> GroupDeclarationView {
        group_declaration_view(*self)
    }
}

impl View for Declaration {
    type V = DeclarationView;

    open spec fn view(&self) -> DeclarationView {
        declaration_view(*self)
    }
}

impl View for CommandsDeclaration {
    type V = CommandsDeclarationView;

    open spec fn view(&self) -> CommandsDeclarationView {
        CommandsDeclarationView { variants: variant_declarations_view(self.variants@) }
    }
}

pub proof fn lemma_variant_declarations_view(vs: Seq<VariantDeclaration>)
    ensures
        variant_declarations_view(vs).len() == vs.len(),
        forall|i: int|
            0 <= i < vs.len() ==> variant_declarations_view(vs)[i] == variant_declaration_view(
                vs[i],
            ),
    decreases vs,
{
    if vs.len() > 0 {
        lemma_variant_declarations_view(vs.subrange(1, vs.len() as int));
    }
}

pub proof fn lemma_payloads_view(ds: Seq<Declaration>)
    ensures
        payloads_view(ds).len() == ds.len(),
        forall|i: int|
            0 <= i < ds.len() ==> payloads_view(ds)[i] == declaration_view(ds[i]),
    decreases ds,
{
    if ds.len() > 0 {
        lemma_payloads_view(ds.subrange(1, ds.len() as int));
    }
}

} // verus!
