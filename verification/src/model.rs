//! The data the transformer works on, held as plain values: the argument
//! tokens of the configuration grammar, the declaration's variants as the
//! analyzer reads them, and the errors that abort an expansion.

use vstd::prelude::*;

verus! {

/// One token of the configuration argument list, as the host tokenizer hands
/// it over: punctuation, an identifier, a literal, or anything else (which the
/// grammar rejects).
#[derive(Debug)]
pub enum ArgToken {
    Punct(char),
    Ident(String),
    Literal(String),
    Other,
}

/// Mathematical image of an [`ArgToken`]: text becomes a sequence of characters.
pub enum ArgTokenView {
    Punct(char),
    Ident(Seq<char>),
    Literal(Seq<char>),
    Other,
}

impl View for ArgToken {
    type V = ArgTokenView;

    open spec fn view(&self) -> ArgTokenView {
        match self {
            ArgToken::Punct(c) => ArgTokenView::Punct(*c),
            ArgToken::Ident(s) => ArgTokenView::Ident(s@),
            ArgToken::Literal(s) => ArgTokenView::Literal(s@),
            ArgToken::Other => ArgTokenView::Other,
        }
    }
}

impl DeepView for ArgToken {
    type V = ArgTokenView;

    open spec fn deep_view(&self) -> ArgTokenView {
        self.view()
    }
}

/// Whether every representable integer of the width maps to a variant.
#[derive(Clone, Copy, Debug, PartialEq, Eq, Structural)]
pub enum Exhaustiveness {
    True,
    False,
    Conditional,
}

/// The configuration record the argument parser produces.
#[derive(Clone, Copy, Debug, PartialEq, Eq, Structural)]
pub struct Config {
    /// Number of bits of the packed representation, in `[1, 64]`.
    pub bit_width: u8,
    /// The declared exhaustiveness mode.
    pub exhaustiveness: Exhaustiveness,
}

/// One attribute of a variant, kept verbatim for re-emission: its path (such
/// as `cfg`) and its remaining text.
#[derive(Debug, PartialEq, Eq)]
pub struct AttrInput {
    pub path: String,
    pub tokens: String,
}

/// Mathematical image of an [`AttrInput`].
pub struct AttrView {
    pub path: Seq<char>,
    pub tokens: Seq<char>,
}

impl View for AttrInput {
    type V = AttrView;

    open spec fn view(&self) -> AttrView {
        AttrView { path: self.path@, tokens: self.tokens@ }
    }
}

impl DeepView for AttrInput {
    type V = AttrView;

    open spec fn deep_view(&self) -> AttrView {
        self.view()
    }
}

/// One variant of the declaration, as the analyzer reads it: its name, the
/// text of its discriminant expression if it has one, and its attributes.
#[derive(Debug)]
pub struct VariantInput {
    pub name: String,
    pub discriminant: Option<String>,
    pub attrs: Vec<AttrInput>,
}

/// Mathematical image of a [`VariantInput`].
pub struct VariantView {
    pub name: Seq<char>,
    pub discriminant: Option<Seq<char>>,
    pub attrs: Seq<AttrView>,
}

impl View for VariantInput {
    type V = VariantView;

    open spec fn view(&self) -> VariantView {
        VariantView {
            name: self.name@,
            discriminant: match self.discriminant {
                Some(ref s) => Some(s@),
                None => None,
            },
            attrs: self.attrs.deep_view(),
        }
    }
}

impl DeepView for VariantInput {
    type V = VariantView;

    open spec fn deep_view(&self) -> VariantView {
        self.view()
    }
}

/// The reasons an expansion aborts. Every one is static and fatal; the payload
/// names the offending element.
#[derive(Debug, PartialEq, Eq)]
pub enum BitenumError {
    /// A punctuation token other than `,` or `:` in the argument list.
    UnexpectedPunct(char),
    /// An argument token that is neither punctuation, an identifier nor a literal.
    UnexpectedToken,
    /// A top-level argument that is neither a width specifier nor `exhaustive`.
    UnexpectedArgument(String),
    /// `exhaustive` seen again after a value for it was already captured.
    ExhaustiveTwice,
    /// A value-shaped token seen while no argument was awaiting a value.
    StrayValue(String),
    /// No width specifier among the arguments.
    MissingWidth,
    /// The `exhaustive` value is not `true`, `false` or `conditional`.
    BadExhaustiveValue(String),
    /// The named variant carries no discriminant.
    MissingDiscriminant(String),
    /// The discriminant text is not a literal integer.
    MalformedDiscriminant(String),
    /// The named variant's discriminant does not fit in the declared width.
    DiscriminantTooLarge(String),
    /// A conditional marker is present but the declaration is not marked
    /// `exhaustive: conditional`.
    ConditionalNotMarked,
    /// The declaration is marked `exhaustive: conditional` but no variant
    /// carries a conditional marker.
    ConditionalNotUsed,
    /// Marked exhaustive but the variant count is not the full range.
    MissingVariants,
    /// Covers the full range but is not marked exhaustive.
    NotMarkedExhaustive,
}

/// Mathematical image of a [`BitenumError`].
pub enum ErrorView {
    UnexpectedPunct(char),
    UnexpectedToken,
    UnexpectedArgument(Seq<char>),
    ExhaustiveTwice,
    StrayValue(Seq<char>),
    MissingWidth,
    BadExhaustiveValue(Seq<char>),
    MissingDiscriminant(Seq<char>),
    MalformedDiscriminant(Seq<char>),
    DiscriminantTooLarge(Seq<char>),
    ConditionalNotMarked,
    ConditionalNotUsed,
    MissingVariants,
    NotMarkedExhaustive,
}

impl View for BitenumError {
    type V = ErrorView;

    open spec fn view(&self) -> ErrorView {
        match self {
            BitenumError::UnexpectedPunct(c) => ErrorView::UnexpectedPunct(*c),
            BitenumError::UnexpectedToken => ErrorView::UnexpectedToken,
            BitenumError::UnexpectedArgument(s) => ErrorView::UnexpectedArgument(s@),
            BitenumError::ExhaustiveTwice => ErrorView::ExhaustiveTwice,
            BitenumError::StrayValue(s) => ErrorView::StrayValue(s@),
            BitenumError::MissingWidth => ErrorView::MissingWidth,
            BitenumError::BadExhaustiveValue(s) => ErrorView::BadExhaustiveValue(s@),
            BitenumError::MissingDiscriminant(s) => ErrorView::MissingDiscriminant(s@),
            BitenumError::MalformedDiscriminant(s) => ErrorView::MalformedDiscriminant(s@),
            BitenumError::DiscriminantTooLarge(s) => ErrorView::DiscriminantTooLarge(s@),
            BitenumError::ConditionalNotMarked => ErrorView::ConditionalNotMarked,
            BitenumError::ConditionalNotUsed => ErrorView::ConditionalNotUsed,
            BitenumError::MissingVariants => ErrorView::MissingVariants,
            BitenumError::NotMarkedExhaustive => ErrorView::NotMarkedExhaustive,
        }
    }
}

impl DeepView for BitenumError {
    type V = ErrorView;

    open spec fn deep_view(&self) -> ErrorView {
        self.view()
    }
}

} // verus!
