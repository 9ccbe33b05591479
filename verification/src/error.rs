//! Why a file was not created.

use vstd::prelude::*;

verus! {

/// Why a file was not created.
#[derive(Debug, PartialEq, Eq)]
pub enum CreateError {
    /// Reading or writing failed. Holds the wording of the cause.
    IO(String),
    /// There is something at the place of the new file already. Holds the
    /// file's name with its extension.
    FileExists(String),
    /// No template is stored for this file extension.
    TemplateDoesntExist(String),
    /// What is stored for this file extension is no text.
    InvalidValueType(String),
}

/// A `CreateError` as contracts see it.
pub enum CreateErrorView {
    IO(Seq<char>),
    FileExists(Seq<char>),
    TemplateDoesntExist(Seq<char>),
    InvalidValueType(Seq<char>),
}

impl View for CreateError {
    type V = CreateErrorView;

    open spec fn view(&self) -> CreateErrorView {
        match self {
            CreateError::IO(cause) => CreateErrorView::IO(cause@),
            CreateError::FileExists(name) => CreateErrorView::FileExists(name@),
            CreateError::TemplateDoesntExist(extention) => CreateErrorView::TemplateDoesntExist(
                extention@,
            ),
            CreateError::InvalidValueType(extention) => CreateErrorView::InvalidValueType(
                extention@,
            ),
        }
    }
}

impl CreateErrorView {
    /// The sentence that tells a user of this error.
    pub open spec fn message(self) -> Seq<char> {
        match self {
            CreateErrorView::IO(_) => "An IO error accured"@,
            CreateErrorView::FileExists(name) => "The file `"@ + name + "` already exists"@,
            CreateErrorView::TemplateDoesntExist(extention) => "Template for file extention `"@
                + extention + "` doesn’t exist"@,
            CreateErrorView::InvalidValueType(extention) => "Template for file extention `"@
                + extention + "` has an invalid type, should be a string"@,
        }
    }
}

impl CreateError {
    /// The sentence that tells a user of this error.
    pub fn to_string(&self) -> (message: String)
        ensures
            message@ == self@.message(),
    {
        match self {
            CreateError::IO(_) => String::from_str("An IO error accured"),
            CreateError::FileExists(name) => {
                let mut message = String::from_str("The file `");
                message.append(name.as_str());
                message.append("` already exists");
                message
            },
            CreateError::TemplateDoesntExist(extention) => {
                let mut message = String::from_str("Template for file extention `");
                message.append(extention.as_str());
                message.append("` doesn’t exist");
                message
            },
            CreateError::InvalidValueType(extention) => {
                let mut message = String::from_str("Template for file extention `");
                message.append(extention.as_str());
                message.append("` has an invalid type, should be a string");
                message
            },
        }
    }
}

} // verus!
