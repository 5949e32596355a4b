//! Why a package could not be read.

use vstd::prelude::*;
use vstd::string::StringExecFns;

verus! {

/// The first fatal problem met while reading a package.
#[derive(Debug, PartialEq, Eq)]
pub enum Error {
    /// The archive cannot be opened, or a member of it cannot be read.
    Container,
    /// The archive has no member of this name.
    MemberNotFound(String),
    /// The member of this name is not text, or its text is not well-formed
    /// XML.
    Decode(String),
    /// An element lacks a child element of this tag, or that child has no
    /// text.
    MissingField(String),
    /// An element lacks the attribute of this name.
    MissingAttribute(String),
    /// The text found under this tag or attribute name does not denote a
    /// value of the type expected there; the second field is that text.
    InvalidValue(String, String),
    /// This text is none of the file type tokens.
    UnknownFileType(String),
    /// A package declares no license.
    EmptyLicenseList,
    /// The file list is empty or holds something that is not a file record.
    InvalidStructure,
}

/// The mathematical value of an [`Error`].
pub ghost enum ErrorView {
    Container,
    MemberNotFound(Seq<char>),
    Decode(Seq<char>),
    MissingField(Seq<char>),
    MissingAttribute(Seq<char>),
    InvalidValue(Seq<char>, Seq<char>),
    UnknownFileType(Seq<char>),
    EmptyLicenseList,
    InvalidStructure,
}

impl View for Error {
    type V = ErrorView;

    open spec fn view(&self) -> ErrorView {
        match *self {
            Error::Container => ErrorView::Container,
            Error::MemberNotFound(name) => ErrorView::MemberNotFound(name@),
            Error::Decode(name) => ErrorView::Decode(name@),
            Error::MissingField(tag) => ErrorView::MissingField(tag@),
            Error::MissingAttribute(name) => ErrorView::MissingAttribute(name@),
            Error::InvalidValue(tag, raw) => ErrorView::InvalidValue(tag@, raw@),
            Error::UnknownFileType(raw) => ErrorView::UnknownFileType(raw@),
            Error::EmptyLicenseList => ErrorView::EmptyLicenseList,
            Error::InvalidStructure => ErrorView::InvalidStructure,
        }
    }
}

/// The mathematical value of a result: the view of what it holds.
pub open spec fn result_view<T: View>(r: Result<T, Error>) -> Result<T::V, ErrorView> {
    match r {
        Ok(v) => Ok(v@),
        Err(e) => Err(e@),
    }
}

impl ErrorView {
    /// The error in words.
    pub open spec fn message(self) -> Seq<char> {
        match self {
            ErrorView::Container => "the archive cannot be read"@,
            ErrorView::MemberNotFound(name) => "member not found: "@ + name,
            ErrorView::Decode(name) => "not a well-formed document: "@ + name,
            ErrorView::MissingField(tag) => tag + " node not found"@,
            ErrorView::MissingAttribute(name) => "missing attribute "@ + name,
            ErrorView::InvalidValue(tag, raw) => "invalid "@ + tag + ": "@ + raw,
            ErrorView::UnknownFileType(raw) => "Unknown file type "@ + raw,
            ErrorView::EmptyLicenseList => "License node not found"@,
            ErrorView::InvalidStructure => "Files node not found"@,
        }
    }
}

impl Error {
    /// The error in words, for a reader.
    pub fn message(&self) -> (r: String)
        ensures
            r@ == self@.message(),
    {
        match self {
            Error::Container => String::from_str("the archive cannot be read"),
            Error::MemberNotFound(name) => String::from_str("member not found: ").concat(
                name.as_str(),
            ),
            Error::Decode(name) => String::from_str("not a well-formed document: ").concat(
                name.as_str(),
            ),
            Error::MissingField(tag) => String::from_str(tag.as_str()).concat(" node not found"),
            Error::MissingAttribute(name) => String::from_str("missing attribute ").concat(
                name.as_str(),
            ),
            Error::InvalidValue(tag, raw) => String::from_str("invalid ").concat(
                tag.as_str(),
            ).concat(": ").concat(raw.as_str()),
            Error::UnknownFileType(raw) => String::from_str("Unknown file type ").concat(
                raw.as_str(),
            ),
            Error::EmptyLicenseList => String::from_str("License node not found"),
            Error::InvalidStructure => String::from_str("Files node not found"),
        }
    }

    /// The error for a child element of tag `tag` that is absent or empty.
    pub fn missing_field(tag: &str) -> (e: Error)
        ensures
            e@ == ErrorView::MissingField(tag@),
    {
        Error::MissingField(tag.to_owned())
    }

    /// The error for an attribute of name `name` that is absent.
    pub fn missing_attribute(name: &str) -> (e: Error)
        ensures
            e@ == ErrorView::MissingAttribute(name@),
    {
        Error::MissingAttribute(name.to_owned())
    }

    /// The error for the text `raw`, found under `tag`, that denotes no value.
    pub fn invalid_value(tag: &str, raw: &str) -> (e: Error)
        ensures
            e@ == ErrorView::InvalidValue(tag@, raw@),
    {
        Error::InvalidValue(tag.to_owned(), raw.to_owned())
    }
}

} // verus!
