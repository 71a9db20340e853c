//! The fixed layout of the cluster: where the servers and the client
//! middlewares listen, and the numbers that the protocol is tuned with.

use vstd::prelude::*;

verus! {

/// How many servers the cluster has; server ids run from 0 below this.
pub const NUMBER_SERVERS: usize = 3;

/// How many client middlewares listen for announcements.
pub const NUMBER_CLIENTS: usize = 2;

/// The size of the buffer that a datagram is received into.
pub const BUFFER_SIZE: usize = 256;

/// The address of server `i`.
pub open spec fn server_address_spec(i: int) -> Seq<char> {
    if i == 0 {
        "10.7.57.90:8080"@
    } else if i == 1 {
        "10.7.57.90:8081"@
    } else {
        "10.7.57.90:8082"@
    }
}

/// The address of client middleware `i`.
pub open spec fn client_address_spec(i: int) -> Seq<char> {
    if i == 0 {
        "10.7.57.41:8080"@
    } else {
        "10.7.57.41:8081"@
    }
}

/// The address of server `i`.
pub fn server_address(i: usize) -> (addr: String)
    requires
        i < NUMBER_SERVERS,
    ensures
        addr@ == server_address_spec(i as int),
{
    if i == 0 {
        "10.7.57.90:8080".to_owned()
    } else if i == 1 {
        "10.7.57.90:8081".to_owned()
    } else {
        "10.7.57.90:8082".to_owned()
    }
}

/// The address of client middleware `i`.
pub fn client_address(i: usize) -> (addr: String)
    requires
        i < NUMBER_CLIENTS,
    ensures
        addr@ == client_address_spec(i as int),
{
    if i == 0 {
        "10.7.57.41:8080".to_owned()
    } else {
        "10.7.57.41:8081".to_owned()
    }
}

/// The server after `i` on the election ring.
pub open spec fn successor_spec(i: int) -> int {
    (i + 1) % (NUMBER_SERVERS as int)
}

/// The server after `id` on the election ring.
pub fn successor(id: u8) -> (next: usize)
    ensures
        next == successor_spec(id as int),
        next < NUMBER_SERVERS,
{
    ((id as usize) + 1) % NUMBER_SERVERS
}

/// The servers have different addresses.
pub proof fn lemma_server_addresses_distinct(i: int, j: int)
    requires
        0 <= i < NUMBER_SERVERS,
        0 <= j < NUMBER_SERVERS,
        i != j,
    ensures
        server_address_spec(i) != server_address_spec(j),
{
    reveal_strlit("10.7.57.90:8080");
    reveal_strlit("10.7.57.90:8081");
    reveal_strlit("10.7.57.90:8082");
    assert(server_address_spec(i)[14] != server_address_spec(j)[14]);
}

} // verus!
