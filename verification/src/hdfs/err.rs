//! What can go wrong while talking to HDFS.

use vstd::prelude::*;

verus! {

#[derive(Debug)]
pub enum Error {
    /// The client gave no result and no message to go with it.
    Unknown,
    /// No file stands at the path that was to be opened.
    FileNotFound(String),
    /// The configuration directory does not exist.
    DirectoryNotFound(String),
    /// A configuration file is not well-formed; the text says which.
    InvalidXmlFile(String),
    /// The client reported a failure; the text is its message.
    HdfsError(String),
    /// A local I/O operation failed.
    Io(std::io::Error),
    /// A setting that is needed is in no configuration file.
    MissingConfig(String),
    /// The client could not make a connection builder.
    ErrorCreatingBuilder,
    /// An OS-native path has no UTF-8 form; the text is its lossy rendering.
    PathConversionError(String),
    /// The client's last operation succeeded. Never handed to a caller.
    NoError(),
    /// The path cannot be handed to the client.
    InvalidPath(String),
}

impl From<std::io::Error> for Error {
    fn from(err: std::io::Error) -> (e: Error) {
        Error::Io(err)
    }
}

impl vstd::std_specs::convert::FromSpecImpl<std::io::Error> for Error {
    open spec fn obeys_from_spec() -> bool {
        true
    }

    open spec fn from_spec(err: std::io::Error) -> Error {
        Error::Io(err)
    }
}

/// What the client's error slot holds when nothing went wrong.
pub open spec fn success_text() -> Seq<char> {
    "Success"@
}

impl Error {
    /// Reads the text of the client's error slot: `Success` stands for no
    /// error, any other text is the message of a failure.
    pub fn get_last_hdfs_error(raw: &str) -> (e: Error)
        ensures
            raw@ == success_text() ==> e is NoError,
            raw@ != success_text() ==> (e matches Error::HdfsError(msg) && msg@ == raw@),
    {
        let text = raw.to_owned();
        if text == "Success".to_owned() {
            Error::NoError()
        } else {
            Error::HdfsError(text)
        }
    }
}

} // verus!
