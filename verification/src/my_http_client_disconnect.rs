//! The handle that the owner of an upgraded stream uses to end the
//! connection the stream came from.

use vstd::prelude::*;

verus! {

/// Ends one connection, named by its number, from outside the client.
pub trait MyHttpClientDisconnect {
    /// Ends the connection.
    fn disconnect(&self);

    /// Ends the connection after its web socket has closed.
    fn web_socket_disconnect(&self);

    /// The number of the connection that this handle ends.
    fn get_connection_id(&self) -> u64;
}

} // verus!
