use vstd::prelude::*;

verus! {

/// Errors reported by the tool: invalid user input, or a failed request.
#[derive(Debug)]
pub enum CliError {
    ValidationError(String),
    ConnectionError(String),
}

impl CliError {
    /// The message carried by the error, whatever its kind.
    pub open spec fn message_view(&self) -> Seq<char> {
        match self {
            CliError::ValidationError(m) => m@,
            CliError::ConnectionError(m) => m@,
        }
    }

    /// The text shown to the user for this error: its message alone.
    pub fn message(&self) -> (res: &str)
        ensures
            res@ == self.message_view(),
    {
        match self {
            CliError::ValidationError(m) => m.as_str(),
            CliError::ConnectionError(m) => m.as_str(),
        }
    }

    /// An error raised by the HTTP layer, carrying its rendered text.
    pub fn connection(message: String) -> (res: CliError)
        ensures
            res == CliError::ConnectionError(message),
    {
        CliError::ConnectionError(message)
    }
}

impl From<String> for CliError {
    fn from(err: String) -> (res: CliError) {
        CliError::ValidationError(err)
    }
}

impl vstd::std_specs::convert::FromSpecImpl<String> for CliError {
    open spec fn obeys_from_spec() -> bool {
        true
    }

    open spec fn from_spec(v: String) -> CliError {
        CliError::ValidationError(v)
    }
}

} // verus!
