//! The servers that are started together and share one repository.

use vstd::prelude::*;
use crate::server::Server;

verus! {

/// The servers of one launch, in the order in which they are started.
pub struct ServerLauncher {
    server_list: Vec<Server>,
}

impl ServerLauncher {
    /// The servers of the launch.
    pub closed spec fn servers(&self) -> Seq<Server> {
        self.server_list@
    }

    /// A launch of the given servers.
    pub fn new(server_list: Vec<Server>) -> (launcher: ServerLauncher)
        ensures
            launcher.servers() == server_list@,
    {
        ServerLauncher { server_list }
    }

    /// A launch of one server.
    pub fn new_one_server(server: Server) -> (launcher: ServerLauncher)
        ensures
            launcher.servers() == seq![server],
    {
        let mut server_list: Vec<Server> = Vec::new();
        server_list.push(server);
        assert(server_list@ =~= seq![server]);
        ServerLauncher { server_list }
    }

    /// The servers of the launch.
    pub fn server_list(&self) -> (list: &Vec<Server>)
        ensures
            list@ == self.servers(),
    {
        &self.server_list
    }
}

} // verus!
