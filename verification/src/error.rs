//! The errors of the adapters.
use vstd::prelude::*;

verus! {

/// What went wrong, by area, with a message.
#[derive(Debug)]
pub enum KubeletError {
    Config(String),
    Resource(String),
    Runtime(String),
    Network(String),
    Storage(String),
    Lifecycle(String),
    NodeStatus(String),
    PodStatus(String),
    Checkpoint(String),
    Image(String),
    Auth(String),
    Tls(String),
    Timeout(String),
}

impl KubeletError {
    /// The message of the error.
    pub open spec fn text(self) -> Seq<char> {
        match self {
            KubeletError::Config(m) => m@,
            KubeletError::Resource(m) => m@,
            KubeletError::Runtime(m) => m@,
            KubeletError::Network(m) => m@,
            KubeletError::Storage(m) => m@,
            KubeletError::Lifecycle(m) => m@,
            KubeletError::NodeStatus(m) => m@,
            KubeletError::PodStatus(m) => m@,
            KubeletError::Checkpoint(m) => m@,
            KubeletError::Image(m) => m@,
            KubeletError::Auth(m) => m@,
            KubeletError::Tls(m) => m@,
            KubeletError::Timeout(m) => m@,
        }
    }

    /// The message of the error.
    pub fn message(&self) -> (r: &String)
        ensures
            r@ == self.text(),
    {
        match self {
            KubeletError::Config(m) => m,
            KubeletError::Resource(m) => m,
            KubeletError::Runtime(m) => m,
            KubeletError::Network(m) => m,
            KubeletError::Storage(m) => m,
            KubeletError::Lifecycle(m) => m,
            KubeletError::NodeStatus(m) => m,
            KubeletError::PodStatus(m) => m,
            KubeletError::Checkpoint(m) => m,
            KubeletError::Image(m) => m,
            KubeletError::Auth(m) => m,
            KubeletError::Tls(m) => m,
            KubeletError::Timeout(m) => m,
        }
    }
}

} // verus!
