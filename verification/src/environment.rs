//! What the library asks of the machine it runs on: random numbers, the
//! clock and the local network address. Nothing is known of their results.

use vstd::prelude::*;

verus! {

/// `rand::thread_rng().gen::<u32>()`: a random `u32` from the thread's
/// generator. Any value may come back. (rand draws a random `u8` as the low
/// byte of such a `u32`.)
#[verifier::external_body]
pub(crate) fn random_u32() -> (r: u32) {
    rand::Rng::gen::<u32>(&mut rand::thread_rng())
}

/// `chrono::Utc::now()`, written out by its `Display`: the current time in
/// UTC. Any text may come back.
#[verifier::external_body]
pub(crate) fn utc_now_text() -> (s: String) {
    chrono::Utc::now().to_string()
}

/// `local_ip_address::local_ip()`, written out by `Display`: the address of
/// this machine on its network, or `None` where the crate finds none. Any
/// text may come back.
#[verifier::external_body]
pub(crate) fn local_ip_text() -> (r: Option<String>) {
    match local_ip_address::local_ip() {
        Ok(ip) => Some(ip.to_string()),
        Err(_) => None,
    }
}

} // verus!
