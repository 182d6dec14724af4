//! The error type of the server.

use vstd::prelude::*;
use crate::text;

verus! {

/// What went wrong while serving a request.
#[derive(Debug, Clone)]
pub enum WebDriverError {
    /// The WebDriver client reported an error (its message).
    Client(String),
    Session(String),
    ElementNotFound { selector: String },
    Timeout { selector: String },
    Generic(String),
    FileSystem(String),
    NotFound(String),
    Serialization(String),
    InvalidRecipe(String),
    Execution(String),
}

/// The message of an error.
pub open spec fn error_message(e: WebDriverError) -> Seq<char> {
    match e {
        WebDriverError::Client(m) => "WebDriver client error: "@ + m@,
        WebDriverError::Session(m) => "Session error: "@ + m@,
        WebDriverError::ElementNotFound { selector } => "Element not found: "@ + selector@,
        WebDriverError::Timeout { selector } => "Timeout waiting for element: "@ + selector@,
        WebDriverError::Generic(m) => "Generic error: "@ + m@,
        WebDriverError::FileSystem(m) => "File system error: "@ + m@,
        WebDriverError::NotFound(m) => "Not found: "@ + m@,
        WebDriverError::Serialization(m) => "Serialization error: "@ + m@,
        WebDriverError::InvalidRecipe(m) => "Invalid recipe: "@ + m@,
        WebDriverError::Execution(m) => "Execution error: "@ + m@,
    }
}

impl WebDriverError {
    /// The human-readable message.
    pub fn message(&self) -> (r: String)
        ensures
            r@ == error_message(*self),
    {
        match self {
            WebDriverError::Client(m) => text::concat2("WebDriver client error: ", m.as_str()),
            WebDriverError::Session(m) => text::concat2("Session error: ", m.as_str()),
            WebDriverError::ElementNotFound { selector } => text::concat2("Element not found: ", selector.as_str()),
            WebDriverError::Timeout { selector } => text::concat2("Timeout waiting for element: ", selector.as_str()),
            WebDriverError::Generic(m) => text::concat2("Generic error: ", m.as_str()),
            WebDriverError::FileSystem(m) => text::concat2("File system error: ", m.as_str()),
            WebDriverError::NotFound(m) => text::concat2("Not found: ", m.as_str()),
            WebDriverError::Serialization(m) => text::concat2("Serialization error: ", m.as_str()),
            WebDriverError::InvalidRecipe(m) => text::concat2("Invalid recipe: ", m.as_str()),
            WebDriverError::Execution(m) => text::concat2("Execution error: ", m.as_str()),
        }
    }
}

} // verus!
