//! The server's configuration.
use vstd::prelude::*;

verus! {

/// What the server list shows of the server.
pub struct Status {
    pub motd: String,
    pub max_players: u32,
}

impl Clone for Status {
    fn clone(&self) -> (s: Self)
        ensures
            s.motd@ == self.motd@,
            s.max_players == self.max_players,
    {
        Status { motd: self.motd.clone(), max_players: self.max_players }
    }
}

/// The server's configuration.
pub struct Config {
    pub status: Status,
}

impl Clone for Config {
    fn clone(&self) -> (c: Self)
        ensures
            c.status.motd@ == self.status.motd@,
            c.status.max_players == self.status.max_players,
    {
        Config { status: self.status.clone() }
    }
}

} // verus!
