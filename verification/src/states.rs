//! Which servers are up, as a server or a client middleware believes it.

use vstd::prelude::*;

use crate::config::{
    lemma_server_addresses_distinct, server_address, server_address_spec, NUMBER_SERVERS,
};
use crate::election::addresses_view;

verus! {

/// One flag per server: `true` while the server is believed up.
pub struct ServerStates {
    up: Vec<bool>,
}

impl View for ServerStates {
    type V = Seq<bool>;

    closed spec fn view(&self) -> Seq<bool> {
        self.up@
    }
}

/// The addresses of the first `n` servers that are up in `up`, in order.
pub open spec fn up_addresses(up: Seq<bool>, n: int) -> Seq<Seq<char>>
    decreases n,
{
    if n <= 0 {
        Seq::empty()
    } else if up[n - 1] {
        up_addresses(up, n - 1).push(server_address_spec(n - 1))
    } else {
        up_addresses(up, n - 1)
    }
}

impl ServerStates {
    #[verifier::type_invariant]
    spec fn one_flag_per_server(&self) -> bool {
        self.up@.len() == NUMBER_SERVERS
    }

    /// Every server up.
    pub fn all_up() -> (s: ServerStates)
        ensures
            s@.len() == NUMBER_SERVERS,
            forall|i: int| 0 <= i < NUMBER_SERVERS ==> #[trigger] s@[i],
    {
        let s = ServerStates { up: vec![true, true, true] };
        s
    }

    /// Whether server `i` is up.
    pub fn is_up(&self, i: usize) -> (r: bool)
        requires
            i < NUMBER_SERVERS,
        ensures
            r == self@[i as int],
    {
        proof {
            use_type_invariant(self);
        }
        self.up[i]
    }

    /// Marks server `i` up or down.
    pub fn set(&mut self, i: usize, up: bool)
        requires
            i < NUMBER_SERVERS,
        ensures
            final(self)@ == old(self)@.update(i as int, up),
    {
        proof {
            use_type_invariant(&*self);
        }
        let mut flags = self.up.clone();
        proof {
            assert(flags@ =~= self.up@);
        }
        flags.set(i, up);
        self.up = flags;
    }

    /// Marks every server up again.
    pub fn reset(&mut self)
        ensures
            final(self)@.len() == NUMBER_SERVERS,
            forall|i: int| 0 <= i < NUMBER_SERVERS ==> #[trigger] final(self)@[i],
    {
        self.up = vec![true, true, true];
    }

    /// The addresses of the servers that are up, in order: where a load
    /// report goes.
    pub fn up_server_addresses(&self) -> (dests: Vec<String>)
        ensures
            addresses_view(dests@) == up_addresses(self@, NUMBER_SERVERS as int),
            forall|i: int|
                0 <= i < NUMBER_SERVERS ==> (addresses_view(dests@).contains(
                    #[trigger] server_address_spec(i),
                ) <==> self@[i]),
    {
        proof {
            use_type_invariant(self);
        }
        let mut dests: Vec<String> = Vec::new();
        let mut i: usize = 0;
        while i < NUMBER_SERVERS
            invariant
                0 <= i <= NUMBER_SERVERS,
                self.up@.len() == NUMBER_SERVERS,
                addresses_view(dests@) == up_addresses(self@, i as int),
            decreases NUMBER_SERVERS - i,
        {
            if self.up[i] {
                let ghost before = dests@;
                dests.push(server_address(i));
                assert(addresses_view(dests@) =~= addresses_view(before).push(
                    server_address_spec(i as int),
                ));
            }
            i = i + 1;
        }
        proof {
            assert forall|k: int| 0 <= k < NUMBER_SERVERS implies (addresses_view(dests@).contains(
                #[trigger] server_address_spec(k),
            ) <==> self@[k]) by {
                lemma_up_addresses(self@, NUMBER_SERVERS as int, k);
            }
        }
        dests
    }
}

/// The address of a server is among the first `n` servers' up addresses
/// exactly when it is one of them and it is up; they come in the order of
/// the servers, each once.
pub proof fn lemma_up_addresses(up: Seq<bool>, n: int, i: int)
    requires
        up.len() == NUMBER_SERVERS,
        0 <= n <= NUMBER_SERVERS,
        0 <= i < NUMBER_SERVERS,
    ensures
        up_addresses(up, n).contains(server_address_spec(i)) <==> (i < n && up[i]),
        up_addresses(up, n).len() <= n,
    decreases n,
{
    if n > 0 {
        lemma_up_addresses(up, n - 1, i);
        let prev = up_addresses(up, n - 1);
        if up[n - 1] {
            let cur = prev.push(server_address_spec(n - 1));
            if i == n - 1 {
                assert(cur[cur.len() - 1] == server_address_spec(i));
            } else {
                lemma_server_addresses_distinct(i, n - 1);
                if cur.contains(server_address_spec(i)) {
                    let k = choose|k: int| 0 <= k < cur.len() && cur[k] == server_address_spec(i);
                    if k < prev.len() {
                        assert(prev[k] == server_address_spec(i));
                    }
                }
                if prev.contains(server_address_spec(i)) {
                    let k = choose|k: int| 0 <= k < prev.len() && prev[k] == server_address_spec(i);
                    assert(cur[k] == server_address_spec(i));
                }
            }
        }
    }
}

} // verus!
