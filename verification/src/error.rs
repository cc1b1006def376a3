//! The error of the library.

use vstd::prelude::*;

verus! {

/// An error of the JSON serialiser. Nothing is read of it but its message.
#[verifier::external_type_specification]
#[verifier::external_body]
pub struct ExJsonError(serde_json::Error);

/// An error, told by its message.
#[derive(Debug, Clone, PartialEq, Eq)]
pub struct DifftasticError(String);

impl View for DifftasticError {
    type V = Seq<char>;

    closed spec fn view(&self) -> Seq<char> {
        self.0@
    }
}

impl DifftasticError {
    /// The string that holds the message.
    pub closed spec fn message(&self) -> String {
        self.0
    }

    /// Makes an error of its message.
    pub fn new(message: String) -> (r: Self)
        ensures
            r@ == message@,
            r.message() == message,
    {
        DifftasticError(message)
    }

    /// The message of the error.
    pub fn to_string(&self) -> (r: String)
        ensures
            r@ == self@,
            r == self.message(),
    {
        self.0.clone()
    }
}

/// What serialising a diff gives: the text, or an error with the message of the
/// serialiser's error.
pub fn json_text(serialized: Result<String, serde_json::Error>) -> (r: Result<
    String,
    DifftasticError,
>)
    ensures
        match serialized {
            Ok(text) => r == Ok::<String, DifftasticError>(text),
            Err(error) => r matches Err(own)
                && vstd::string::to_string_from_display_ensures::<serde_json::Error>(
                &error,
                own.message(),
            ),
        },
{
    match serialized {
        Ok(text) => Ok(text),
        Err(error) => Err(DifftasticError::from(error)),
    }
}

impl From<serde_json::Error> for DifftasticError {
    /// The error that carries the message of a serialiser's error.
    fn from(value: serde_json::Error) -> (r: Self)
        ensures
            vstd::string::to_string_from_display_ensures::<serde_json::Error>(&value, r.message()),
    {
        DifftasticError(value.to_string())
    }
}

impl vstd::std_specs::convert::FromSpecImpl<serde_json::Error> for DifftasticError {
    open spec fn obeys_from_spec() -> bool {
        false
    }

    open spec fn from_spec(v: serde_json::Error) -> Self {
        arbitrary()
    }
}

} // verus!
