//! The client's side: where to connect.

use vstd::prelude::*;

verus! {

/// A client of the command server. It holds the path of the server's
/// socket; each write through it is a connection of its own.
pub struct CommandClient {
    socket_path: String,
}

impl View for CommandClient {
    type V = Seq<char>;

    /// The socket's path.
    closed spec fn view(&self) -> Seq<char> {
        self.socket_path@
    }
}

impl CommandClient {
    /// A client for the server that listens at `path`.
    pub fn new(path: &str) -> (client: Self)
        ensures
            client@ == path@,
    {
        CommandClient { socket_path: path.to_owned() }
    }

    /// The path of the server's socket.
    pub fn socket_path(&self) -> (path: &str)
        ensures
            path@ == self@,
    {
        self.socket_path.as_str()
    }
}

} // verus!
