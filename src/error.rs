use vstd::prelude::*;

verus! {

/// Why a record could not be decoded.
#[derive(Clone, Copy, Debug, PartialEq, Eq, Structural)]
pub enum ErrorKind {
    /// The record does not start with an XML declaration.
    MissingDecl,
    /// The declaration is not followed by a doctype.
    MissingDocType,
    /// The tokenizer could not read the input.
    Lexical,
    /// The input ended inside the record.
    UnterminatedRecord,
    /// The input ended inside a text block.
    UnterminatedTextBlock,
    /// Element text could not be unescaped.
    UndecodableText,
    /// A text block is not valid UTF-8.
    InvalidUtf8,
    /// Another element stands where `container` was expected.
    UnexpectedElement,
    /// Something other than a start tag stands where `container` was expected.
    NotStartElement,
    /// `element` is not part of the schema of `container`.
    UnrecognizedElement,
}

/// A per-record decoding error: its kind, the element and the container it
/// concerns (empty where none), and the tokenizer's message for lexical
/// errors.
#[derive(Clone, Debug, PartialEq, Eq)]
pub struct DeserError {
    pub kind: ErrorKind,
    pub element: Vec<u8>,
    pub container: Vec<u8>,
    pub detail: Vec<u8>,
}

pub struct DeserErrorView {
    pub kind: ErrorKind,
    pub element: Seq<u8>,
    pub container: Seq<u8>,
    pub detail: Seq<u8>,
}

impl View for DeserError {
    type V = DeserErrorView;

    open spec fn view(&self) -> DeserErrorView {
        DeserErrorView {
            kind: self.kind,
            element: self.element@,
            container: self.container@,
            detail: self.detail@,
        }
    }
}

pub open spec fn error_view(kind: ErrorKind, element: Seq<u8>, container: Seq<u8>, detail: Seq<u8>) -> DeserErrorView {
    DeserErrorView { kind, element, container, detail }
}

/// An error of the given kind that names nothing.
pub open spec fn plain_error(kind: ErrorKind) -> DeserErrorView {
    error_view(kind, Seq::empty(), Seq::empty(), Seq::empty())
}

impl DeserError {
    pub fn new(kind: ErrorKind, element: Vec<u8>, container: Vec<u8>, detail: Vec<u8>) -> (r: DeserError)
        ensures
            r@ == error_view(kind, element@, container@, detail@),
    {
        DeserError { kind, element, container, detail }
    }

    pub fn plain(kind: ErrorKind) -> (r: DeserError)
        ensures
            r@ == plain_error(kind),
    {
        DeserError { kind, element: Vec::new(), container: Vec::new(), detail: Vec::new() }
    }
}

} // verus!
