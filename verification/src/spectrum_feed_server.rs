//! The list of clients to which spectrum snapshots are broadcast.
//!
//! Every snapshot is written to every client; a client to which a write
//! fails is dropped from the list.

use vstd::prelude::*;

verus! {

/// Why the feed could not be offered.
#[derive(Debug, PartialEq, Eq, Clone)]
pub enum Error {
    /// The listening socket could not be bound; the text says why.
    BindSocketFailed(String),
}

impl Error {
    /// What the error says.
    pub fn message(&self) -> (s: String)
        ensures
            s@ == "Failed to bind listening socket"@,
    {
        "Failed to bind listening socket".to_owned()
    }

    /// What lies behind the error.
    pub fn source(&self) -> (cause: &String)
        ensures
            *self == Error::BindSocketFailed(*cause),
    {
        match self {
            Error::BindSocketFailed(cause) => cause,
        }
    }
}

/// Those of the first `upto` clients to which the write succeeded, in the
/// same order.
pub open spec fn retained<T>(clients: Seq<T>, delivered: Seq<bool>, upto: int) -> Seq<T>
    decreases upto,
{
    if upto <= 0 {
        Seq::empty()
    } else if delivered[upto - 1] {
        retained(clients, delivered, upto - 1).push(clients[upto - 1])
    } else {
        retained(clients, delivered, upto - 1)
    }
}

/// The connected clients, in the order in which they connected.
pub struct SpectrumFeedServer<T> {
    clients: Vec<T>,
}

impl<T> SpectrumFeedServer<T> {
    /// The connected clients.
    pub closed spec fn connected(&self) -> Seq<T> {
        self.clients@
    }

    /// A feed without clients.
    pub fn new() -> (server: Self)
        ensures
            server.connected().len() == 0,
    {
        Self { clients: Vec::new() }
    }

    /// The number of connected clients.
    pub fn client_count(&self) -> (n: usize)
        ensures
            n == self.connected().len(),
    {
        self.clients.len()
    }

    /// Takes a new client in, behind those already connected.
    pub fn add_client(&mut self, client: T)
        ensures
            final(self).connected() == old(self).connected().push(client),
    {
        self.clients.push(client);
    }

    /// Hands out the clients for a broadcast; the list is empty until they
    /// are given back.
    pub fn take_clients(&mut self) -> (clients: Vec<T>)
        ensures
            clients@ == old(self).connected(),
            final(self).connected().len() == 0,
    {
        let mut out: Vec<T> = Vec::new();
        std::mem::swap(&mut self.clients, &mut out);
        out
    }

    /// Takes the clients back after a broadcast: those to which the write
    /// succeeded, in their order, in front of any that connected meanwhile.
    pub fn finish_broadcast(&mut self, clients: Vec<T>, delivered: &Vec<bool>)
        requires
            delivered@.len() == clients@.len(),
        ensures
            final(self).connected() == retained(clients@, delivered@, clients@.len() as int) + old(
                self,
            ).connected(),
    {
        let mut kept = retain_delivered(clients, delivered);
        kept.append(&mut self.clients);
        self.clients = kept;
    }
}

/// Keeps the clients to which the write succeeded, in their order.
pub fn retain_delivered<T>(clients: Vec<T>, delivered: &Vec<bool>) -> (kept: Vec<T>)
    requires
        delivered@.len() == clients@.len(),
    ensures
        kept@ == retained(clients@, delivered@, clients@.len() as int),
{
    let ghost all = clients@;
    let n = clients.len();
    // From the back: what is kept comes out in reverse.
    let mut rest = clients;
    let mut backwards: Vec<T> = Vec::new();
    let mut left: usize = n;
    while left > 0
        invariant
            left <= n,
            n == all.len(),
            delivered@.len() == n,
            rest@ == all.take(left as int),
            retained(all, delivered@, left as int) + backwards@.reverse() == retained(
                all,
                delivered@,
                n as int,
            ),
        decreases left,
    {
        let client = rest.pop().unwrap();
        left -= 1;
        proof {
            assert(rest@ =~= all.take(left as int));
            assert(client == all[left as int]);
        }
        let ghost before = backwards@;
        if delivered[left] {
            backwards.push(client);
            proof {
                assert(backwards@.reverse() =~= seq![client] + before.reverse());
                assert(retained(all, delivered@, left as int + 1) == retained(
                    all,
                    delivered@,
                    left as int,
                ).push(client));
                assert(retained(all, delivered@, left as int) + backwards@.reverse() =~= retained(
                    all,
                    delivered@,
                    left as int + 1,
                ) + before.reverse());
            }
        }
    }
    proof {
        assert(retained(all, delivered@, 0) =~= Seq::<T>::empty());
        assert(backwards@.reverse() =~= retained(all, delivered@, n as int));
    }
    // Turn the kept around.
    let ghost turned = backwards@;
    let mut kept: Vec<T> = Vec::new();
    while backwards.len() > 0
        invariant
            kept@ + backwards@.reverse() == turned.reverse(),
        decreases backwards@.len(),
    {
        let ghost b = backwards@;
        let ghost k = kept@;
        let client = backwards.pop().unwrap();
        kept.push(client);
        proof {
            assert(b.reverse() =~= seq![client] + backwards@.reverse());
            assert(kept@ + backwards@.reverse() =~= k + b.reverse());
        }
    }
    proof {
        assert(backwards@.reverse() =~= Seq::<T>::empty());
        assert(kept@ =~= kept@ + backwards@.reverse());
    }
    kept
}

} // verus!
