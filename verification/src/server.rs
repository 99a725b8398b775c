//! The server's configuration.

use vstd::prelude::*;

verus! {

/// A server and the size of its worker pool.
pub struct Server {
    threads_size: usize,
}

impl Server {
    /// The pool size that this server asks for.
    pub closed spec fn workers(&self) -> nat {
        self.threads_size as nat
    }

    /// A server with a pool of `threads_size` workers, or of four where no
    /// size is given.
    pub fn new(threads_size: Option<usize>) -> (server: Server)
        ensures
            server.workers() == match threads_size {
                Some(n) => n as nat,
                None => 4,
            },
    {
        match threads_size {
            Some(n) => Server { threads_size: n },
            None => Server { threads_size: 4 },
        }
    }

    /// The pool size that this server asks for.
    pub fn threads_size(&self) -> (n: usize)
        ensures
            n == self.workers(),
    {
        self.threads_size
    }
}

} // verus!
