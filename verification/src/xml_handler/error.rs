//! Errors of the XML handling.
use vstd::prelude::*;

use crate::text::{chars_of, extend_vec, string_of};

verus! {

/// Errors that originate from the XML handling.
#[derive(Debug)]
pub enum XMLHandlerError {
    /// An IO error occurred.
    IOError { message: String },
    /// An error occurred when parsing attributes.
    AttributeError { message: String },
    /// An error occurred when parsing XML (`quick_xml`'s message).
    ParseError { message: String },
    /// The include path names no known resource.
    UnknownXMLFileError { file_name: String },
    /// Error parsing a string to a float.
    ParseFloatError,
    /// The document ended inside the named element.
    UnexpectedEof { element: String },
    /// An include that cannot stand where it stands: variables inside a
    /// composite, a snippet directly inside a group, or a resource that
    /// includes itself.
    UnsupportedInclude { file_name: String },
}

/// The view of an error.
pub enum ErrV {
    Io(Seq<char>),
    Attribute(Seq<char>),
    Parse(Seq<char>),
    UnknownFile(Seq<char>),
    ParseFloat,
    Eof(Seq<char>),
    Unsupported(Seq<char>),
}

impl View for XMLHandlerError {
    type V = ErrV;

    open spec fn view(&self) -> ErrV {
        match self {
            XMLHandlerError::IOError { message } => ErrV::Io(message@),
            XMLHandlerError::AttributeError { message } => ErrV::Attribute(message@),
            XMLHandlerError::ParseError { message } => ErrV::Parse(message@),
            XMLHandlerError::UnknownXMLFileError { file_name } => ErrV::UnknownFile(file_name@),
            XMLHandlerError::ParseFloatError => ErrV::ParseFloat,
            XMLHandlerError::UnexpectedEof { element } => ErrV::Eof(element@),
            XMLHandlerError::UnsupportedInclude { file_name } => ErrV::Unsupported(file_name@),
        }
    }
}

/// The message of an error.
pub open spec fn err_message(e: ErrV) -> Seq<char> {
    match e {
        ErrV::Io(m) => "IO error occurred: "@ + m,
        ErrV::Attribute(m) => "Attribute parsing error: "@ + m,
        ErrV::Parse(m) => "XML parsing error: "@ + m,
        ErrV::UnknownFile(f) => "Unknown XML file error: "@ + f,
        ErrV::ParseFloat => "error converting to a float from a string"@,
        ErrV::Eof(n) => "XML parsing error: the document ends inside <"@ + n + ">"@,
        ErrV::Unsupported(f) => "Unsupported include: "@ + f,
    }
}

/// `a` followed by `b`.
fn joined(a: &str, b: &String) -> (r: String)
    ensures
        r@ == a@ + b@,
{
    let mut v = chars_of(a);
    extend_vec(&mut v, &chars_of(b.as_str()));
    string_of(v.as_slice())
}

impl XMLHandlerError {
    /// The error's message.
    pub fn message(&self) -> (r: String)
        ensures
            r@ == err_message(self@),
    {
        match self {
            XMLHandlerError::IOError { message } => joined("IO error occurred: ", message),
            XMLHandlerError::AttributeError { message } => joined("Attribute parsing error: ", message),
            XMLHandlerError::ParseError { message } => joined("XML parsing error: ", message),
            XMLHandlerError::UnknownXMLFileError { file_name } => joined(
                "Unknown XML file error: ",
                file_name,
            ),
            XMLHandlerError::ParseFloatError => crate::text::owned(
                "error converting to a float from a string",
            ),
            XMLHandlerError::UnexpectedEof { element } => {
                let mut v = chars_of("XML parsing error: the document ends inside <");
                extend_vec(&mut v, &chars_of(element.as_str()));
                extend_vec(&mut v, &chars_of(">"));
                string_of(v.as_slice())
            },
            XMLHandlerError::UnsupportedInclude { file_name } => joined(
                "Unsupported include: ",
                file_name,
            ),
        }
    }
}

} // verus!
