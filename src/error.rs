use vstd::prelude::*;

verus! {

/// The failures that the store, its protocol and its clients report.
#[derive(Debug, Clone, PartialEq, Eq)]
pub enum KvsError {
    /// A removal named a key that the store does not hold.
    KeyNotFound,
    /// The storage engine failed for a reason of its own.
    Engine(String),
    /// The server answered a request with an error message.
    Server(String),
    /// A request names an empty key.
    EmptyKey,
    /// A message does not fit in one frame.
    FrameTooLarge,
    /// A frame's payload is not a well-formed message.
    Malformed,
}

impl KvsError {
    /// The words that describe this error to a client.
    pub open spec fn text(&self) -> Seq<char> {
        match self {
            KvsError::KeyNotFound => "Key not found"@,
            KvsError::Engine(m) => m@,
            KvsError::Server(m) => m@,
            KvsError::EmptyKey => "Key is empty"@,
            KvsError::FrameTooLarge => "Message too large"@,
            KvsError::Malformed => "Malformed message"@,
        }
    }

    /// The words that describe this error to a client.
    pub fn message(&self) -> (r: String)
        ensures
            r@ == self.text(),
    {
        match self {
            KvsError::KeyNotFound => "Key not found".to_owned(),
            KvsError::Engine(m) => m.clone(),
            KvsError::Server(m) => m.clone(),
            KvsError::EmptyKey => "Key is empty".to_owned(),
            KvsError::FrameTooLarge => "Message too large".to_owned(),
            KvsError::Malformed => "Malformed message".to_owned(),
        }
    }
}

} // verus!
