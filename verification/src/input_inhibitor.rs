//! Exclusive input: while one client holds it, only its windows take input.

use vstd::prelude::*;

verus! {

/// Which client, if any, holds the input exclusively.
///
/// The window manager does not consult it: who feeds it events asks
/// `is_inhibited` and `is_allowed` first and withholds the key presses,
/// pointer events and gesture requests of the clients that are not allowed.
#[derive(Debug)]
pub struct InputInhibitor {
    pub exclusive_client: Option<u64>,
}

impl InputInhibitor {
    /// An inhibitor that lets every client take input.
    pub fn new() -> (inhibitor: InputInhibitor)
        ensures
            inhibitor.exclusive_client.is_none(),
    {
        InputInhibitor { exclusive_client: None }
    }

    /// Gives the input to `client` alone.
    pub fn set(&mut self, client: u64)
        ensures
            final(self).exclusive_client == Some(client),
    {
        self.exclusive_client = Some(client);
    }

    /// Lets every client take input again.
    pub fn clear(&mut self)
        ensures
            final(self).exclusive_client.is_none(),
    {
        self.exclusive_client = None;
    }

    pub fn is_inhibited(&self) -> (inhibited: bool)
        ensures
            inhibited == self.exclusive_client.is_some(),
    {
        self.exclusive_client.is_some()
    }

    /// Whether a window of the client `owner` takes input: any window while
    /// no client holds the input, else only those of the client that does.
    pub fn is_allowed(&self, owner: u64) -> (allowed: bool)
        ensures
            allowed == (self.exclusive_client.is_none() || self.exclusive_client == Some(owner)),
    {
        match self.exclusive_client {
            Some(exclusive_client) => exclusive_client == owner,
            None => true,
        }
    }

    /// Whether the client `owner` holds the input exclusively.
    pub fn is_excluse(&self, owner: u64) -> (exclusive: bool)
        ensures
            exclusive == (self.exclusive_client == Some(owner)),
    {
        match self.exclusive_client {
            Some(exclusive_client) => exclusive_client == owner,
            None => false,
        }
    }
}

} // verus!
