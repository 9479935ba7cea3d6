use vstd::prelude::*;

verus! {

/// Every way in which an invocation can fail.
#[derive(Debug)]
pub enum Error {
    /// The environment does not name the user.
    NoUserEnv,
    /// The socket of the window manager could not be opened.
    UnixConn,
    /// Writing to the socket failed.
    UnixWrite,
    /// Reading from the socket failed.
    UnixRead,
    /// The window manager answered with a failure, in these words.
    Yabai(String),
    /// A text was not the JSON that was expected.
    Json,
    /// The state file is there and could not be read.
    StateRead,
    /// The state file could not be written.
    StateWrite,
}

impl Error {
    /// The line that tells the user of the error.
    pub open spec fn text(self) -> Seq<char> {
        match self {
            Error::NoUserEnv => "Missing `$USER` env var"@,
            Error::UnixConn => "Failed to connect to yabai socket `/tmp/yabai_$USER.socket`"@,
            Error::UnixWrite => "Failed to write to yabai socket"@,
            Error::UnixRead => "Failed to read from yabai socket"@,
            Error::Yabai(msg) => "Yabai command failed: `"@ + msg@ + "'"@,
            Error::Json => "Failed to deserialize json"@,
            Error::StateRead => "Failed to read `$HOME/.danke.json`"@,
            Error::StateWrite => "Failed to write `$HOME/.danke.json`"@,
        }
    }

    /// Whether two errors are of one kind. A failed read and a failed write on
    /// the socket are of one kind, and so are two failures that the window
    /// manager reported, whatever their words.
    pub open spec fn same_kind(self, other: Error) -> bool {
        match self {
            Error::NoUserEnv => other is NoUserEnv,
            Error::UnixConn => other is UnixConn,
            Error::UnixWrite | Error::UnixRead => other is UnixWrite || other is UnixRead,
            Error::Yabai(_) => other is Yabai,
            Error::Json => other is Json,
            Error::StateRead => other is StateRead,
            Error::StateWrite => other is StateWrite,
        }
    }

    /// The exit status that stands for the error. Each kind of failure has a
    /// status of its own, by which a calling script can tell it; a failed read
    /// and a failed write on the socket are of one kind.
    pub open spec fn status(self) -> int {
        match self {
            Error::StateRead => 66,
            Error::UnixConn => 68,
            Error::Yabai(_) => 69,
            Error::UnixRead | Error::UnixWrite => 74,
            Error::Json => 76,
            Error::StateWrite => 77,
            Error::NoUserEnv => 78,
        }
    }

    /// Gets the error message text.
    pub fn msg(&self) -> (text: String)
        ensures
            text@ == self.text(),
    {
        match self {
            Error::NoUserEnv => String::from_str("Missing `$USER` env var"),
            Error::UnixConn => String::from_str(
                "Failed to connect to yabai socket `/tmp/yabai_$USER.socket`",
            ),
            Error::UnixWrite => String::from_str("Failed to write to yabai socket"),
            Error::UnixRead => String::from_str("Failed to read from yabai socket"),
            Error::Yabai(msg) => {
                let mut text = String::from_str("Yabai command failed: `");
                text.append(msg.as_str());
                text.append("'");
                text
            },
            Error::Json => String::from_str("Failed to deserialize json"),
            Error::StateRead => String::from_str("Failed to read `$HOME/.danke.json`"),
            Error::StateWrite => String::from_str("Failed to write `$HOME/.danke.json`"),
        }
    }

    /// Gets the exit code for the error.
    pub fn exit_code(&self) -> (code: i32)
        ensures
            code == self.status(),
            code != 0,
    {
        match self {
            Error::StateRead => 66,
            Error::UnixConn => 68,
            Error::Yabai(_) => 69,
            Error::UnixRead | Error::UnixWrite => 74,
            Error::Json => 76,
            Error::StateWrite => 77,
            Error::NoUserEnv => 78,
        }
    }
}

/// No error exits with the status of success, and two errors exit with one
/// status where they are of one kind and nowhere else.
pub proof fn lemma_status_tells_apart(a: Error, b: Error)
    ensures
        a.status() != 0,
        a.status() == b.status() <==> a.same_kind(b),
{
}

/// Replaces whatever error a result holds.
pub trait ResultExt<T>: Sized {
    /// The value that the result holds, if it holds one.
    spec fn value(self) -> Option<T>;

    /// Keeps a value, and puts `err` in the place of any error.
    fn ok_or(self, err: Error) -> (result: Result<T, Error>)
        ensures
            result == match self.value() {
                Some(value) => Ok::<T, Error>(value),
                None => Err(err),
            },
    ;
}

impl<T, E> ResultExt<T> for Result<T, E> {
    open spec fn value(self) -> Option<T> {
        match self {
            Ok(value) => Some(value),
            Err(_) => None,
        }
    }

    fn ok_or(self, err: Error) -> (result: Result<T, Error>) {
        match self {
            Ok(value) => Ok(value),
            Err(_) => Err(err),
        }
    }
}

} // verus!
