//! The failures of a generation.  Every failure ends the generation at
//! once; nothing is retried and nothing is rolled back.

use vstd::prelude::*;
use vstd::string::*;

use crate::fields::{TypeNotFound, TypeNotFoundModel};
use crate::outcome::{RenderError, RenderErrorModel};
use crate::pipeline::{PipelineError, PipelineErrorModel};

verus! {

#[derive(Debug, PartialEq, Eq)]
pub enum Error {
    /// A field names a type that the type mapping table does not know.
    TypeNotFound(TypeNotFound),
    /// The rendering engine could not produce an artifact.
    Render(RenderError),
    /// A build step failed after the artifacts were written.
    Pipeline(PipelineError),
}

pub enum ErrorModel {
    TypeNotFound(TypeNotFoundModel),
    Render(RenderErrorModel),
    Pipeline(PipelineErrorModel),
}

impl View for Error {
    type V = ErrorModel;

    open spec fn view(&self) -> ErrorModel {
        match self {
            Error::TypeNotFound(e) => ErrorModel::TypeNotFound(e@),
            Error::Render(e) => ErrorModel::Render(e@),
            Error::Pipeline(e) => ErrorModel::Pipeline(e@),
        }
    }
}

/// How std prints a list of strings for debugging: in square brackets,
/// separated by commas, each string quoted and escaped.
pub uninterp spec fn debug_list(items: Seq<Seq<char>>) -> Seq<char>;

/// Formats `items` with the `{:?}` of `format!`, which goes through std's
/// `Debug` for `Vec<String>`.
///
/// Not proved: the text is a function of the strings alone.  What it looks
/// like is left to std.
#[verifier::external_body]
fn debug_text(items: &Vec<String>) -> (text: String)
    ensures
        text@ == debug_list(items.deep_view()),
{
    format!("{:?}", items)
}

/// What is said of a token that the table does not know, where `known` is
/// the table's tokens as they are shown.
pub open spec fn type_not_found_text(token: Seq<char>, known: Seq<char>) -> Seq<char> {
    "type: "@ + token + " not found. try any of: "@ + known
}

/// What is said of a failed build step.
pub open spec fn pipeline_text(e: PipelineErrorModel) -> Seq<char> {
    "failed to run "@ + e.step_name + ". error details: `"@ + e.details + "`"@
}

/// What `Error::message` says.
pub open spec fn message_of(e: ErrorModel) -> Seq<char> {
    match e {
        ErrorModel::TypeNotFound(e) => type_not_found_text(e.token, debug_list(e.valid_tokens)),
        ErrorModel::Render(e) => e.details,
        ErrorModel::Pipeline(e) => pipeline_text(e),
    }
}

/// Words the complaint about an unknown type token.  `known` is shown as it
/// is given.
pub fn type_not_found_message(token: &str, known: &str) -> (text: String)
    ensures
        text@ == type_not_found_text(token@, known@),
{
    let mut text = "type: ".to_owned();
    text.append(token);
    text.append(" not found. try any of: ");
    text.append(known);
    text
}

/// Words the complaint about a failed build step.
pub fn pipeline_message(error: &PipelineError) -> (text: String)
    ensures
        text@ == pipeline_text(error@),
{
    let mut text = "failed to run ".to_owned();
    text.append(error.step_name.as_str());
    text.append(". error details: `");
    text.append(error.details.as_str());
    text.append("`");
    text
}

impl Error {
    /// The failure in words, for display.  A rendering failure is passed on
    /// word for word.
    pub fn message(&self) -> (text: String)
        ensures
            text@ == message_of(self@),
    {
        match self {
            Error::TypeNotFound(e) => {
                let known = debug_text(&e.valid_tokens);
                type_not_found_message(e.token.as_str(), known.as_str())
            },
            Error::Render(e) => e.details.clone(),
            Error::Pipeline(e) => pipeline_message(e),
        }
    }
}

} // verus!
