use vstd::prelude::*;

verus! {

/// Failures of the engine, its transports and its configuration.
#[derive(Clone, Debug, PartialEq, Eq)]
pub enum Error {
    /// A configuration variable is not set; holds its name.
    MissingVariable(String),
    /// A configuration variable does not hold a value of the expected kind;
    /// holds its name.
    InvalidVariable(String),
    /// The ingestion source URL names an unsupported scheme; holds the scheme.
    UnsupportedScheme(String),
    /// A required measurement channel is absent; holds its key.
    ChannelMissing(String),
    /// A value or a response body is malformed.
    Parse,
    /// The upstream answered with a non-success status; holds its reason.
    UpstreamStatus(String),
    /// The streaming connection failed or was closed.
    Transport,
}

/// The text that reports `e` to a person.
pub open spec fn error_message(e: Error) -> Seq<char> {
    match e {
        Error::MissingVariable(k) => "no such environment variable: "@ + k@,
        Error::InvalidVariable(k) => "failed to parse environment variable: "@ + k@,
        Error::UnsupportedScheme(s) => "unsupported scheme: "@ + s@,
        Error::ChannelMissing(k) => "failed to get datastream: "@ + k@,
        Error::Parse => "malformed value"@,
        Error::UpstreamStatus(reason) => reason@,
        Error::Transport => "connection closed"@,
    }
}

fn prefixed(prefix: &str, rest: &String) -> (r: String)
    ensures
        r@ == prefix@ + rest@,
{
    let mut r = String::from_str(prefix);
    r.append(rest.as_str());
    r
}

impl Error {
    /// The text that reports this error to a person; a failed upstream answer
    /// is reported by its status's reason alone.
    pub fn message(&self) -> (r: String)
        ensures
            r@ == error_message(*self),
    {
        match self {
            Error::MissingVariable(k) => prefixed("no such environment variable: ", k),
            Error::InvalidVariable(k) => prefixed("failed to parse environment variable: ", k),
            Error::UnsupportedScheme(s) => prefixed("unsupported scheme: ", s),
            Error::ChannelMissing(k) => prefixed("failed to get datastream: ", k),
            Error::Parse => String::from_str("malformed value"),
            Error::UpstreamStatus(reason) => reason.clone(),
            Error::Transport => String::from_str("connection closed"),
        }
    }
}

} // verus!
