use vstd::prelude::*;

verus! {

/// Errors raised while talking to git or interpreting what it printed.
pub enum Error {
    /// An input/output failure, with its description.
    Io(String),
    /// Output that was not valid UTF-8, with its description.
    FromUtf8(String),
    /// A git command that failed, with a message.
    Command(String),
    /// A log line that does not have the shape of a commit line.
    LogParse(String),
}

impl Error {
    /// The message shown for the error.
    pub fn to_string(&self) -> (r: String)
        ensures
            r@ == match self {
                Error::Io(e) => e@,
                Error::FromUtf8(e) => e@,
                Error::Command(e) => e@,
                Error::LogParse(e) => "Could not parse \""@ + e@ + "\""@,
            },
    {
        match self {
            Error::Io(e) => e.clone(),
            Error::FromUtf8(e) => e.clone(),
            Error::Command(e) => e.clone(),
            Error::LogParse(e) => {
                let mut r = String::from_str("Could not parse \"");
                r.append(e.as_str());
                r.append("\"");
                r
            },
        }
    }
}

} // verus!
