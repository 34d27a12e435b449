//! The reconciliation state machine.
//!
//! The reconciler owns the only piece of long-lived state, the last address
//! it believes published, and decides when the DNS provider must be called:
//! once after the initial authoritative read, and then once per accepted
//! address-change event whose address differs from that cache. The waiting,
//! the provider transport and the event loop live outside the library; they
//! feed plain values into the decision functions here and perform the
//! actions those functions return.

use vstd::prelude::*;

use crate::addr::Ipv4Address;
use crate::netlink::{AddressQueryError, ChangeType, IpAddrChange};

verus! {

/// The state the reconciler carries across events: the address it last saw
/// confirmed as published, if any.
pub struct ReconcilerState {
    pub last_known_published: Option<Ipv4Address>,
}

/// The provider call the initial synchronisation asks for.
#[derive(Clone, Copy, Debug, PartialEq, Eq, Structural)]
pub enum SyncAction {
    /// No record exists: create one with this address.
    Create(Ipv4Address),
    /// A record exists but differs: update it to this address.
    Update(Ipv4Address),
    /// The record already matches the local address: call nothing.
    Keep,
}

/// What initial synchronisation does, given the local address and the
/// currently published one: create when no record exists, update when it
/// differs, nothing when it already matches.
pub open spec fn initial_sync_spec(local: Ipv4Address, published: Option<Ipv4Address>) -> SyncAction {
    match published {
        Option::None => SyncAction::Create(local),
        Option::Some(p) => if p == local {
            SyncAction::Keep
        } else {
            SyncAction::Update(local)
        },
    }
}

/// The address to publish in reaction to one event, if any: an added
/// address that differs from the cached published one. Removals and
/// duplicate additions never ask for a call.
pub open spec fn streaming_update_spec(cache: Option<Ipv4Address>, ev: IpAddrChange) -> Option<
    Ipv4Address,
> {
    match ev.ctype {
        ChangeType::Add => if cache == Some(ev.addr) {
            None
        } else {
            Some(ev.addr)
        },
        ChangeType::Del => None,
    }
}

/// The addresses sent to the provider while consuming `events` in order,
/// starting from `cache`, when every provider call succeeds: each accepted
/// addition contributes one call and becomes the new cache.
pub open spec fn published_updates(cache: Option<Ipv4Address>, events: Seq<IpAddrChange>) -> Seq<
    Ipv4Address,
>
    decreases events.len(),
{
    if events.len() == 0 {
        Seq::empty()
    } else {
        match streaming_update_spec(cache, events[0]) {
            Some(ip) => seq![ip] + published_updates(Some(ip), events.drop_first()),
            None => published_updates(cache, events.drop_first()),
        }
    }
}

impl ReconcilerState {
    /// A fresh reconciler knows of nothing published: the cache is rebuilt
    /// from an authoritative read on every start.
    pub fn new() -> (r: ReconcilerState)
        ensures
            r.last_known_published is None,
    {
        ReconcilerState { last_known_published: None }
    }

    /// Note that `addr` is now published, after a provider call succeeded or
    /// after the initial synchronisation.
    pub fn record_published(&mut self, addr: Ipv4Address)
        ensures
            final(self).last_known_published == Some(addr),
    {
        self.last_known_published = Some(addr);
    }

    /// Decide the initial provider call and move to streaming: the returned
    /// action follows [`initial_sync_spec`], and in every case the local
    /// address becomes the cached published one.
    pub fn initial_sync(&mut self, local: Ipv4Address, published: Option<Ipv4Address>) -> (r:
        SyncAction)
        ensures
            r == initial_sync_spec(local, published),
            final(self).last_known_published == Some(local),
    {
        self.last_known_published = Some(local);
        match published {
            None => SyncAction::Create(local),
            Some(p) => {
                if p == local {
                    SyncAction::Keep
                } else {
                    SyncAction::Update(local)
                }
            },
        }
    }

    /// Decide whether one event calls for a provider update: the address to
    /// publish per [`streaming_update_spec`], or nothing. The cache is only
    /// changed by [`ReconcilerState::record_published`], once the call
    /// succeeded.
    pub fn streaming_decision(&self, ev: &IpAddrChange) -> (r: Option<Ipv4Address>)
        ensures
            r == streaming_update_spec(self.last_known_published, *ev),
    {
        match ev.ctype {
            ChangeType::Add => {
                match self.last_known_published {
                    Some(cached) => {
                        if cached == ev.addr {
                            None
                        } else {
                            Some(ev.addr)
                        }
                    },
                    None => Some(ev.addr),
                }
            },
            ChangeType::Del => None,
        }
    }
}

/// Consume a whole event sequence, assuming every provider call succeeds,
/// and return the addresses that were sent, in order. This is the streaming
/// phase as one pure function: the event loop outside the library performs
/// one [`ReconcilerState::streaming_decision`] /
/// [`ReconcilerState::record_published`] pair per event instead.
pub fn process_events(state: &mut ReconcilerState, events: &Vec<IpAddrChange>) -> (calls: Vec<
    Ipv4Address,
>)
    ensures
        calls@ == published_updates(old(state).last_known_published, events@),
        final(state).last_known_published == (if calls@.len() == 0 {
            old(state).last_known_published
        } else {
            Some(calls@.last())
        }),
{
    let cache0 = state.last_known_published;
    let ghost full = published_updates(cache0, events@);
    let mut calls: Vec<Ipv4Address> = Vec::new();
    let n = events.len();
    let mut i: usize = 0;
    proof {
        assert(events@.skip(0) =~= events@);
    }
    while i < n
        invariant
            n == events@.len(),
            0 <= i <= n,
            full == published_updates(cache0, events@),
            full =~= calls@ + published_updates(
                state.last_known_published,
                events@.skip(i as int),
            ),
            state.last_known_published == (if calls@.len() == 0 {
                cache0
            } else {
                Some(calls@.last())
            }),
        decreases n - i,
    {
        proof {
            let rest = events@.skip(i as int);
            assert(rest[0] == events@[i as int]);
            assert(rest.drop_first() =~= events@.skip(i as int + 1));
        }
        match state.streaming_decision(&events[i]) {
            Some(ip) => {
                calls.push(ip);
                state.record_published(ip);
            },
            None => {},
        }
        i += 1;
    }
    proof {
        assert(events@.skip(n as int) =~= Seq::<IpAddrChange>::empty());
        assert(calls@ + Seq::<Ipv4Address>::empty() =~= calls@);
    }
    calls
}

/// What one interface address query came back with: the single address,
/// none assigned yet, or a failure.
pub type QueryResult = Result<Option<Ipv4Address>, AddressQueryError>;

/// The address a query outcome lets bootstrapping proceed with, if any:
/// only a concrete address does; "none assigned" and every failure mean
/// another wait and retry.
pub open spec fn query_success(outcome: QueryResult) -> Option<Ipv4Address> {
    match outcome {
        Ok(Some(ip)) => Some(ip),
        _ => None,
    }
}

/// What bootstrapping does on a sequence of query outcomes: the number of
/// retry-delay waits taken (one per outcome without an address) and the
/// address of the first successful query, or nothing if no query in the
/// sequence succeeds.
pub open spec fn bootstrap_result(outcomes: Seq<QueryResult>) -> Option<(int, Ipv4Address)>
    decreases outcomes.len(),
{
    if outcomes.len() == 0 {
        None
    } else {
        match query_success(outcomes[0]) {
            Some(ip) => Some((0int, ip)),
            None => match bootstrap_result(outcomes.drop_first()) {
                Some(r) => Some((r.0 + 1, r.1)),
                None => None,
            },
        }
    }
}

/// How bootstrapping ended: after `waits` retry delays the query returned
/// `address`, and the reconciler moves on to initial synchronisation.
#[derive(Clone, Copy, Debug, PartialEq, Eq, Structural)]
pub struct BootstrapOutcome {
    pub waits: usize,
    pub address: Ipv4Address,
}

/// Decide one bootstrapping round: proceed with the address when the query
/// produced one, otherwise wait the fixed delay and query again.
pub fn bootstrap_step(outcome: &QueryResult) -> (r: Option<Ipv4Address>)
    ensures
        r == query_success(*outcome),
{
    match outcome {
        Ok(Some(ip)) => Some(*ip),
        _ => None,
    }
}

proof fn lemma_bootstrap_skip(outcomes: Seq<QueryResult>, i: int)
    requires
        0 <= i <= outcomes.len(),
        forall|j: int| 0 <= j < i ==> query_success(outcomes[j]) is None,
    ensures
        bootstrap_result(outcomes) == (match bootstrap_result(outcomes.skip(i)) {
            Some(r) => Some((r.0 + i, r.1)),
            None => None::<(int, Ipv4Address)>,
        }),
    decreases i,
{
    if i == 0 {
        assert(outcomes.skip(0) =~= outcomes);
    } else {
        lemma_bootstrap_skip(outcomes, i - 1);
        let s = outcomes.skip(i - 1);
        assert(s[0] == outcomes[i - 1]);
        assert(s.drop_first() =~= outcomes.skip(i));
    }
}

/// Run bootstrapping over a whole sequence of query outcomes: wait and
/// retry on every outcome without an address, stop at the first success.
/// The daemon itself queries without bound instead; a finite sequence here
/// stands for any prefix of that unbounded retry loop.
pub fn run_bootstrap(outcomes: &Vec<QueryResult>) -> (r: Option<BootstrapOutcome>)
    ensures
        match r {
            Some(b) => bootstrap_result(outcomes@) == Some((b.waits as int, b.address)),
            None => bootstrap_result(outcomes@) is None,
        },
{
    let n = outcomes.len();
    let mut i: usize = 0;
    while i < n
        invariant
            n == outcomes@.len(),
            0 <= i <= n,
            forall|j: int| 0 <= j < i ==> query_success(outcomes@[j]) is None,
        decreases n - i,
    {
        match bootstrap_step(&outcomes[i]) {
            Some(ip) => {
                proof {
                    lemma_bootstrap_skip(outcomes@, i as int);
                    assert(outcomes@.skip(i as int)[0] == outcomes@[i as int]);
                }
                return Some(BootstrapOutcome { waits: i, address: ip });
            },
            None => {},
        }
        i += 1;
    }
    proof {
        lemma_bootstrap_skip(outcomes@, n as int);
        assert(outcomes@.skip(n as int) =~= Seq::<QueryResult>::empty());
    }
    None
}

/// A query that fails or finds no address `n` times and then returns an
/// address lets bootstrapping proceed exactly once, with `n` retry-delay
/// waits taken and that address in hand.
pub proof fn lemma_bootstrap_retries_then_succeeds(
    outcomes: Seq<QueryResult>,
    n: int,
    ip: Ipv4Address,
)
    requires
        0 <= n < outcomes.len(),
        forall|j: int| 0 <= j < n ==> query_success(outcomes[j]) is None,
        outcomes[n] == Ok::<Option<Ipv4Address>, AddressQueryError>(Some(ip)),
    ensures
        bootstrap_result(outcomes) == Some((n, ip)),
{
    lemma_bootstrap_skip(outcomes, n);
    assert(outcomes.skip(n)[0] == outcomes[n]);
}

/// Two consecutive additions of the same address ask for at most one
/// provider call: exactly one when the address was not already cached as
/// published, none when it was.
pub proof fn lemma_added_twice_updates_once(
    cache: Option<Ipv4Address>,
    ev1: IpAddrChange,
    ev2: IpAddrChange,
)
    requires
        ev1.ctype is Add,
        ev2.ctype is Add,
        ev1.addr == ev2.addr,
    ensures
        cache != Some(ev1.addr) ==> published_updates(cache, seq![ev1, ev2]) =~= seq![ev1.addr],
        cache == Some(ev1.addr) ==> published_updates(cache, seq![ev1, ev2]) =~= Seq::<
            Ipv4Address,
        >::empty(),
{
    let evs = seq![ev1, ev2];
    let tail = seq![ev2];
    assert(evs.drop_first() =~= tail);
    assert(tail.drop_first() =~= Seq::<IpAddrChange>::empty());
    assert(published_updates(cache, Seq::<IpAddrChange>::empty()) =~= Seq::<Ipv4Address>::empty());
    if cache == Some(ev1.addr) {
        assert(streaming_update_spec(cache, ev1) is None);
        assert(published_updates(cache, evs) == published_updates(cache, tail));
        assert(streaming_update_spec(cache, ev2) is None);
        assert(published_updates(cache, tail) == published_updates(
            cache,
            Seq::<IpAddrChange>::empty(),
        ));
    } else {
        assert(streaming_update_spec(cache, ev1) == Some(ev1.addr));
        assert(published_updates(cache, evs) == seq![ev1.addr] + published_updates(
            Some(ev1.addr),
            tail,
        ));
        assert(streaming_update_spec(Some(ev1.addr), ev2) is None);
        assert(published_updates(Some(ev1.addr), tail) == published_updates(
            Some(ev1.addr),
            Seq::<IpAddrChange>::empty(),
        ));
        assert(seq![ev1.addr] + Seq::<Ipv4Address>::empty() =~= seq![ev1.addr]);
    }
}

/// A removal never asks for a provider call, whatever the cache holds: a
/// sequence of removal events sends nothing.
pub proof fn lemma_removed_never_updates(cache: Option<Ipv4Address>, events: Seq<IpAddrChange>)
    requires
        forall|i: int| 0 <= i < events.len() ==> events[i].ctype is Del,
    ensures
        published_updates(cache, events) =~= Seq::<Ipv4Address>::empty(),
    decreases events.len(),
{
    if events.len() > 0 {
        lemma_removed_never_updates(cache, events.drop_first());
    }
}

} // verus!
