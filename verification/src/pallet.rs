//! The metering ledger and its transitions.
//!
//! `Pallet` owns the whole ledger state: the stream registry, the
//! escrow reservations, the funds ledger, and the event log. The three
//! transitions — `create_stream`, `join_stream`, `tick` — run one at a
//! time and are all-or-nothing: a transition that fails leaves the
//! state exactly as it was.
//!
//! Two ghost meters record, per stream, the cumulative escrow ever
//! placed and the cumulative funds ever settled to the creator. The
//! well-formedness invariant ties them together: what a stream has
//! settled plus what is still reserved against it never exceeds what
//! was ever reserved for it, so settlement can never outrun escrow.

use vstd::prelude::*;
use crate::funds::{AccountBalance, FundsLedger};
use crate::store::{prior_amount, ReservationStore, StreamStore};
use crate::types::{AccountId, Balance, Error, Event, Stream};

verus! {

/// The ledger: all state of the metering system.
pub struct Pallet {
    streams: StreamStore,
    reservations: ReservationStore,
    funds: FundsLedger,
    events: Vec<Event>,
    /// Per stream, the total escrow ever placed by joins.
    reserved_meter: Ghost<Map<u128, nat>>,
    /// Per stream, the total funds ever settled to the creator by ticks.
    transferred_meter: Ghost<Map<u128, nat>>,
}

impl Pallet {
    /// The stream record held for an id, if any.
    pub closed spec fn spec_stream(self, stream_id: u128) -> Option<Stream> {
        self.streams.spec_get(stream_id)
    }

    /// The escrow still reserved by a viewer on a stream, if any.
    pub closed spec fn spec_reservation(self, stream_id: u128, viewer: AccountId) -> Option<
        Balance,
    > {
        self.reservations.spec_get(stream_id, viewer)
    }

    /// The funds-ledger position of an account, if any.
    pub closed spec fn spec_account(self, account: AccountId) -> Option<AccountBalance> {
        self.funds.spec_get(account)
    }

    /// An account's spendable funds; zero where no account exists.
    pub open spec fn free_of(self, account: AccountId) -> nat {
        match self.spec_account(account) {
            Some(b) => b.free as nat,
            None => 0,
        }
    }

    /// An account's held funds; zero where no account exists.
    pub open spec fn reserved_of(self, account: AccountId) -> nat {
        match self.spec_account(account) {
            Some(b) => b.reserved as nat,
            None => 0,
        }
    }

    /// The escrow currently reserved against one stream, all viewers.
    pub closed spec fn stream_escrow(self, stream_id: u128) -> nat {
        self.reservations.sum_stream(stream_id)
    }

    /// The escrow one viewer currently has reserved, all streams.
    pub closed spec fn viewer_escrow(self, viewer: AccountId) -> nat {
        self.reservations.sum_viewer(viewer)
    }

    /// The events emitted so far, oldest first.
    pub closed spec fn spec_events(self) -> Seq<Event> {
        self.events@
    }

    /// Cumulative escrow ever placed on a stream by joins.
    pub closed spec fn reserved_total(self, stream_id: u128) -> nat {
        self.reserved_meter@[stream_id]
    }

    /// Cumulative funds ever settled to a stream's creator by ticks.
    pub closed spec fn transferred_total(self, stream_id: u128) -> nat {
        self.transferred_meter@[stream_id]
    }

    /// The accounting invariant, maintained by every transition.
    pub closed spec fn wf(self) -> bool {
        &&& self.streams.wf()
        &&& self.reservations.wf()
        &&& self.funds.wf()
        // A viewer's held funds cover everything the viewer has reserved.
        &&& forall|v: AccountId|
            #[trigger] self.reservations.sum_viewer(v) <= self.funds.reserved_of(v)
        // A reservation is always backed by a funds account.
        &&& forall|sid: u128, v: AccountId|
            #[trigger] self.reservations.spec_get(sid, v) is Some ==> self.funds.spec_get(v)
                is Some
        // Settled plus still-reserved never exceeds ever-reserved.
        &&& forall|sid: u128|
            #[trigger] self.transferred_meter@[sid] + self.reservations.sum_stream(sid)
                <= self.reserved_meter@[sid]
        &&& forall|sid: u128| self.reserved_meter@.dom().contains(sid)
        &&& forall|sid: u128| self.transferred_meter@.dom().contains(sid)
    }

    /// An empty ledger: no streams, no reservations, no accounts, no
    /// events, both meters at zero.
    pub fn new() -> (p: Pallet)
        ensures
            p.wf(),
            forall|sid: u128| p.spec_stream(sid) is None,
            forall|sid: u128, v: AccountId| p.spec_reservation(sid, v) is None,
            forall|a: AccountId| p.spec_account(a) is None,
            p.spec_events() == Seq::<Event>::empty(),
            forall|sid: u128| p.reserved_total(sid) == 0 && p.transferred_total(sid) == 0,
            forall|sid: u128| p.stream_escrow(sid) == 0,
            forall|v: AccountId| p.viewer_escrow(v) == 0,
    {
        let p = Pallet {
            streams: StreamStore::new(),
            reservations: ReservationStore::new(),
            funds: FundsLedger::new(),
            events: Vec::new(),
            reserved_meter: Ghost(Map::new(|sid: u128| true, |sid: u128| 0nat)),
            transferred_meter: Ghost(Map::new(|sid: u128| true, |sid: u128| 0nat)),
        };
        p
    }

    /// Credits spendable funds to an account, creating it if absent.
    /// Models the host endowing accounts (genesis balances, faucets).
    /// Fails closed with `ArithmeticOverflow` where the account's total
    /// position would no longer fit the balance type.
    pub fn endow(&mut self, who: AccountId, amount: Balance) -> (r: Result<(), Error>)
        requires
            old(self).wf(),
        ensures
            final(self).wf(),
            r is Ok <==> old(self).free_of(who) + old(self).reserved_of(who) + amount
                <= u128::MAX,
            r is Err ==> *final(self) == *old(self) && r->Err_0 == Error::ArithmeticOverflow,
            r is Ok ==> {
                &&& final(self).spec_account(who) == Some(
                    AccountBalance {
                        free: (old(self).free_of(who) + amount) as u128,
                        reserved: old(self).reserved_of(who) as u128,
                    },
                )
                &&& forall|a: AccountId|
                    a != who ==> final(self).spec_account(a) == old(self).spec_account(a)
                &&& same_streams(*final(self), *old(self))
                &&& same_reservations(*final(self), *old(self))
                &&& same_meters(*final(self), *old(self))
                &&& final(self).spec_events() == old(self).spec_events()
            },
    {
        let r = self.funds.endow(who, amount);
        if r.is_ok() {
            proof {
                assert forall|v: AccountId|
                    #[trigger] self.reservations.sum_viewer(v) <= self.funds.reserved_of(
                        v,
                    ) by {
                    if v != who {
                        assert(self.funds.spec_get(v) == old(self).funds.spec_get(v));
                    }
                }
            }
        }
        r
    }

    /// Pure lookup of a stream record.
    pub fn get_stream(&self, stream_id: u128) -> (r: Option<Stream>)
        requires
            self.wf(),
        ensures
            r == self.spec_stream(stream_id),
    {
        self.streams.get(stream_id)
    }

    /// The escrow a viewer still has reserved on a stream, if any.
    pub fn balances(&self, stream_id: u128, viewer: AccountId) -> (r: Option<Balance>)
        requires
            self.wf(),
        ensures
            r == self.spec_reservation(stream_id, viewer),
    {
        self.reservations.get(stream_id, viewer)
    }

    /// The cumulative ticks processed for a stream; zero where the
    /// stream does not exist.
    pub fn get_tick_count(&self, stream_id: u128) -> (r: u32)
        requires
            self.wf(),
        ensures
            r == match self.spec_stream(stream_id) {
                Some(s) => s.last_tick,
                None => 0u32,
            },
    {
        match self.streams.get(stream_id) {
            Some(s) => s.last_tick,
            None => 0,
        }
    }

    /// The funds-ledger position of an account, if any.
    pub fn account_balance(&self, who: AccountId) -> (r: Option<AccountBalance>)
        requires
            self.wf(),
        ensures
            r == self.spec_account(who),
    {
        self.funds.get(who)
    }

    /// The events emitted so far, oldest first.
    pub fn events(&self) -> (r: &Vec<Event>)
        ensures
            r@ == self.spec_events(),
    {
        &self.events
    }

    /// Registers a new stream owned by the caller, with its price fixed
    /// and its tick counter at zero. Fails with `StreamExists`, and
    /// changes nothing, exactly where the id is already taken: a prior
    /// record is never overwritten.
    pub fn create_stream(
        &mut self,
        caller: AccountId,
        stream_id: u128,
        price_per_second: Balance,
    ) -> (r: Result<(), Error>)
        requires
            old(self).wf(),
        ensures
            final(self).wf(),
            r is Ok <==> old(self).spec_stream(stream_id) is None,
            r is Err ==> *final(self) == *old(self) && r->Err_0 == Error::StreamExists,
            r is Ok ==> {
                &&& final(self).spec_stream(stream_id) == Some(
                    Stream { creator: caller, price_per_second, last_tick: 0 },
                )
                &&& forall|s2: u128|
                    s2 != stream_id ==> final(self).spec_stream(s2) == old(self).spec_stream(s2)
                &&& same_reservations(*final(self), *old(self))
                &&& same_funds(*final(self), *old(self))
                &&& same_meters(*final(self), *old(self))
                &&& final(self).spec_events() == old(self).spec_events().push(
                    Event::StreamCreated { stream_id, creator: caller, price: price_per_second },
                )
            },
    {
        if self.streams.contains_key(stream_id) {
            return Err(Error::StreamExists);
        }
        self.streams.insert(
            stream_id,
            Stream { creator: caller, price_per_second, last_tick: 0 },
        );
        self.events.push(
            Event::StreamCreated { stream_id, creator: caller, price: price_per_second },
        );
        Ok(())
    }
    /// Escrows funds for watching a stream: holds
    /// `price_per_second * max_seconds` of the caller's spendable funds
    /// and records it as the caller's reservation on the stream,
    /// overwriting any earlier reservation under the same key. The
    /// multiplication fails closed on overflow. All-or-nothing: on
    /// failure the state is exactly as it was.
    pub fn join_stream(&mut self, caller: AccountId, stream_id: u128, max_seconds: u32) -> (r:
        Result<(), Error>)
        requires
            old(self).wf(),
        ensures
            final(self).wf(),
            r == join_result(*old(self), caller, stream_id, max_seconds),
            r is Err ==> *final(self) == *old(self),
            r is Ok ==> {
                let price = old(self).spec_stream(stream_id)->0.price_per_second;
                let amount = price * max_seconds;
                &&& final(self).spec_reservation(stream_id, caller) == Some(amount as u128)
                &&& forall|s2: u128, v2: AccountId|
                    !(s2 == stream_id && v2 == caller) ==> final(self).spec_reservation(s2, v2)
                        == old(self).spec_reservation(s2, v2)
                &&& final(self).stream_escrow(stream_id) + prior_amount(
                    old(self).spec_reservation(stream_id, caller),
                ) == old(self).stream_escrow(stream_id) + amount
                &&& forall|s2: u128|
                    s2 != stream_id ==> final(self).stream_escrow(s2) == old(self).stream_escrow(
                        s2,
                    )
                &&& final(self).viewer_escrow(caller) + prior_amount(
                    old(self).spec_reservation(stream_id, caller),
                ) == old(self).viewer_escrow(caller) + amount
                &&& forall|v2: AccountId|
                    v2 != caller ==> final(self).viewer_escrow(v2) == old(self).viewer_escrow(v2)
                &&& final(self).spec_account(caller) == Some(
                    AccountBalance {
                        free: (old(self).free_of(caller) - amount) as u128,
                        reserved: (old(self).reserved_of(caller) + amount) as u128,
                    },
                )
                &&& forall|a: AccountId|
                    a != caller ==> final(self).spec_account(a) == old(self).spec_account(a)
                &&& final(self).reserved_total(stream_id) == old(self).reserved_total(stream_id)
                    + amount
                &&& forall|s2: u128|
                    s2 != stream_id ==> final(self).reserved_total(s2) == old(
                        self,
                    ).reserved_total(s2)
                &&& forall|s2: u128|
                    final(self).transferred_total(s2) == old(self).transferred_total(s2)
                &&& same_streams(*final(self), *old(self))
                &&& final(self).spec_events() == old(self).spec_events()
            },
    {
        let stream = match self.streams.get(stream_id) {
            None => {
                return Err(Error::StreamNotFound);
            },
            Some(s) => s,
        };
        let amount = match stream.price_per_second.checked_mul(max_seconds as u128) {
            None => {
                return Err(Error::ArithmeticOverflow);
            },
            Some(a) => a,
        };
        match self.funds.reserve(caller, amount) {
            Err(e) => {
                return Err(e);
            },
            Ok(()) => {},
        }
        self.reservations.upsert(stream_id, caller, amount);
        proof {
            self.reserved_meter@ = self.reserved_meter@.insert(
                stream_id,
                (self.reserved_meter@[stream_id] + amount) as nat,
            );
        }
        proof {
            old(self).funds.lemma_position_bounded(caller);
            assert forall|v: AccountId|
                #[trigger] self.reservations.sum_viewer(v) <= self.funds.reserved_of(v) by {
                assert(old(self).reservations.sum_viewer(v) <= old(self).funds.reserved_of(v));
                if v != caller {
                    assert(self.reservations.sum_viewer(v) == old(self).reservations.sum_viewer(
                        v,
                    ));
                    assert(self.funds.spec_get(v) == old(self).funds.spec_get(v));
                }
            }
            assert forall|sid2: u128, v2: AccountId|
                #[trigger] self.reservations.spec_get(sid2, v2) is Some implies self.funds.spec_get(
                v2,
            ) is Some by {
                if !(sid2 == stream_id && v2 == caller) {
                    assert(old(self).reservations.spec_get(sid2, v2) is Some);
                }
                if v2 != caller {
                    assert(self.funds.spec_get(v2) == old(self).funds.spec_get(v2));
                }
            }
            assert forall|sid2: u128|
                #[trigger] self.transferred_meter@[sid2] + self.reservations.sum_stream(sid2)
                    <= self.reserved_meter@[sid2] by {
                if sid2 != stream_id {
                    assert(self.reservations.sum_stream(sid2) == old(
                        self,
                    ).reservations.sum_stream(sid2));
                }
            }
        }
        Ok(())
    }

    /// Applies a tick: debits the viewer's reservation by
    /// `price_per_second * ticks`, settles that cost to the creator's
    /// spendable funds, advances the stream's tick counter by `ticks`,
    /// and emits `TickProcessed`. All checks precede all effects, so a
    /// failed tick leaves the state exactly as it was; no partial
    /// settlement is ever applied.
    pub fn tick(&mut self, stream_id: u128, viewer: AccountId, ticks: u32) -> (r: Result<
        (),
        Error,
    >)
        requires
            old(self).wf(),
        ensures
            final(self).wf(),
            r == tick_result(*old(self), stream_id, viewer, ticks),
            r is Err ==> *final(self) == *old(self),
            r is Ok && ticks > 0 ==> final(self).spec_stream(stream_id)->0.last_tick > old(
                self,
            ).spec_stream(stream_id)->0.last_tick,
            r is Ok ==> {
                let stream = old(self).spec_stream(stream_id)->0;
                let cost = stream.price_per_second * ticks;
                let reserved = old(self).spec_reservation(stream_id, viewer)->0;
                &&& final(self).spec_stream(stream_id) == Some(
                    Stream {
                        creator: stream.creator,
                        price_per_second: stream.price_per_second,
                        last_tick: (stream.last_tick + ticks) as u32,
                    },
                )
                &&& forall|s2: u128|
                    s2 != stream_id ==> final(self).spec_stream(s2) == old(self).spec_stream(s2)
                &&& final(self).spec_reservation(stream_id, viewer) == Some(
                    (reserved - cost) as u128,
                )
                &&& forall|s2: u128, v2: AccountId|
                    !(s2 == stream_id && v2 == viewer) ==> final(self).spec_reservation(s2, v2)
                        == old(self).spec_reservation(s2, v2)
                &&& final(self).stream_escrow(stream_id) + cost == old(self).stream_escrow(
                    stream_id,
                )
                &&& forall|s2: u128|
                    s2 != stream_id ==> final(self).stream_escrow(s2) == old(self).stream_escrow(
                        s2,
                    )
                &&& final(self).viewer_escrow(viewer) + cost == old(self).viewer_escrow(viewer)
                &&& forall|v2: AccountId|
                    v2 != viewer ==> final(self).viewer_escrow(v2) == old(self).viewer_escrow(v2)
                &&& (viewer == stream.creator ==> {
                    &&& final(self).spec_account(viewer) == Some(
                        AccountBalance {
                            free: (old(self).free_of(viewer) + cost) as u128,
                            reserved: (old(self).reserved_of(viewer) - cost) as u128,
                        },
                    )
                    &&& forall|a: AccountId|
                        a != viewer ==> final(self).spec_account(a) == old(self).spec_account(a)
                })
                &&& (viewer != stream.creator ==> {
                    &&& final(self).spec_account(viewer) == Some(
                        AccountBalance {
                            free: old(self).free_of(viewer) as u128,
                            reserved: (old(self).reserved_of(viewer) - cost) as u128,
                        },
                    )
                    &&& final(self).spec_account(stream.creator) == Some(
                        AccountBalance {
                            free: (old(self).free_of(stream.creator) + cost) as u128,
                            reserved: old(self).reserved_of(stream.creator) as u128,
                        },
                    )
                    &&& forall|a: AccountId|
                        a != viewer && a != stream.creator ==> final(self).spec_account(a) == old(
                            self,
                        ).spec_account(a)
                })
                &&& final(self).transferred_total(stream_id) == old(self).transferred_total(
                    stream_id,
                ) + cost
                &&& forall|s2: u128|
                    s2 != stream_id ==> final(self).transferred_total(s2) == old(
                        self,
                    ).transferred_total(s2)
                &&& forall|s2: u128|
                    final(self).reserved_total(s2) == old(self).reserved_total(s2)
                &&& final(self).spec_events() == old(self).spec_events().push(
                    Event::TickProcessed { stream_id, viewer, ticks },
                )
            },
    {
        let stream = match self.streams.get(stream_id) {
            None => {
                return Err(Error::StreamNotFound);
            },
            Some(s) => s,
        };
        let reserved = match self.reservations.get(stream_id, viewer) {
            None => {
                return Err(Error::InsufficientBalance);
            },
            Some(a) => a,
        };
        let cost = match stream.price_per_second.checked_mul(ticks as u128) {
            None => {
                return Err(Error::ArithmeticOverflow);
            },
            Some(c) => c,
        };
        if reserved < cost {
            return Err(Error::InsufficientBalance);
        }
        let new_tick = match stream.last_tick.checked_add(ticks) {
            None => {
                return Err(Error::ArithmeticOverflow);
            },
            Some(t) => t,
        };
        proof {
            // The invariant backs the debit: the viewer's held funds
            // cover the reservation, so the settlement cannot fail for
            // want of held funds.
            self.reservations.lemma_sums_cover_entry(stream_id, viewer);
        }
        match self.funds.transfer(viewer, stream.creator, cost) {
            Err(_) => {
                return Err(Error::ArithmeticOverflow);
            },
            Ok(()) => {},
        }
        self.reservations.upsert(stream_id, viewer, reserved - cost);
        self.streams.insert(
            stream_id,
            Stream {
                creator: stream.creator,
                price_per_second: stream.price_per_second,
                last_tick: new_tick,
            },
        );
        self.events.push(Event::TickProcessed { stream_id, viewer, ticks });
        proof {
            self.transferred_meter@ = self.transferred_meter@.insert(
                stream_id,
                (self.transferred_meter@[stream_id] + cost) as nat,
            );
        }
        proof {
            assert forall|v: AccountId|
                #[trigger] self.reservations.sum_viewer(v) <= self.funds.reserved_of(v) by {
                if v != viewer && v != stream.creator {
                    assert(self.funds.spec_get(v) == old(self).funds.spec_get(v));
                }
            }
            assert forall|sid2: u128, v2: AccountId|
                #[trigger] self.reservations.spec_get(sid2, v2) is Some implies self.funds.spec_get(
                v2,
            ) is Some by {
                if !(sid2 == stream_id && v2 == viewer) {
                    assert(old(self).reservations.spec_get(sid2, v2) is Some);
                }
                if v2 != viewer && v2 != stream.creator {
                    assert(self.funds.spec_get(v2) == old(self).funds.spec_get(v2));
                }
            }
            assert forall|sid2: u128|
                #[trigger] self.transferred_meter@[sid2] + self.reservations.sum_stream(sid2)
                    <= self.reserved_meter@[sid2] by {
                if sid2 != stream_id {
                    assert(self.reservations.sum_stream(sid2) == old(
                        self,
                    ).reservations.sum_stream(sid2));
                }
            }
        }
        Ok(())
    }
}

/// The exact outcome `join_stream` owes on a given pre-state.
pub open spec fn join_result(
    p: Pallet,
    caller: AccountId,
    stream_id: u128,
    max_seconds: u32,
) -> Result<(), Error> {
    if p.spec_stream(stream_id) is None {
        Err(Error::StreamNotFound)
    } else if p.spec_stream(stream_id)->0.price_per_second * max_seconds > u128::MAX {
        Err(Error::ArithmeticOverflow)
    } else if !(p.spec_account(caller) is Some && p.spec_stream(stream_id)->0.price_per_second
        * max_seconds <= p.free_of(caller)) {
        Err(Error::InsufficientFunds)
    } else {
        Ok(())
    }
}

/// The exact outcome `tick` owes on a given pre-state. A missing
/// reservation counts as a zero balance, and any balance computation
/// that would overflow fails closed.
pub open spec fn tick_result(
    p: Pallet,
    stream_id: u128,
    viewer: AccountId,
    ticks: u32,
) -> Result<(), Error> {
    if p.spec_stream(stream_id) is None {
        Err(Error::StreamNotFound)
    } else if p.spec_reservation(stream_id, viewer) is None {
        Err(Error::InsufficientBalance)
    } else {
        let stream = p.spec_stream(stream_id)->0;
        let cost = stream.price_per_second * ticks;
        if cost > u128::MAX {
            Err(Error::ArithmeticOverflow)
        } else if p.spec_reservation(stream_id, viewer)->0 < cost {
            Err(Error::InsufficientBalance)
        } else if stream.last_tick + ticks > u32::MAX {
            Err(Error::ArithmeticOverflow)
        } else if viewer != stream.creator && p.free_of(stream.creator) + p.reserved_of(
            stream.creator,
        ) + cost > u128::MAX {
            Err(Error::ArithmeticOverflow)
        } else {
            Ok(())
        }
    }
}

/// No negative escrow, in every reachable state: escrow amounts are
/// unsigned by construction, a reservation never exceeds the viewer's
/// escrow across streams, and that escrow is fully covered by funds the
/// ledger actually holds on reserve for the viewer — so no sequence of
/// `join_stream` and `tick` calls can charge a viewer more than the
/// viewer escrowed.
pub proof fn lemma_no_negative_escrow(p: Pallet, stream_id: u128, viewer: AccountId)
    requires
        p.wf(),
        p.spec_reservation(stream_id, viewer) is Some,
    ensures
        p.spec_reservation(stream_id, viewer)->0 <= p.viewer_escrow(viewer),
        p.viewer_escrow(viewer) <= p.reserved_of(viewer),
{
    p.reservations.lemma_sums_cover_entry(stream_id, viewer);
}

/// Conservation, in every reachable state: what a stream's ticks have
/// settled to its creator, plus what its viewers still hold in escrow,
/// never exceeds the escrow ever reserved for that stream. In
/// particular, cumulative settlement never exceeds cumulative escrow.
pub proof fn lemma_conservation(p: Pallet, stream_id: u128)
    requires
        p.wf(),
    ensures
        p.transferred_total(stream_id) + p.stream_escrow(stream_id) <= p.reserved_total(
            stream_id,
        ),
        p.transferred_total(stream_id) <= p.reserved_total(stream_id),
{
    assert(p.transferred_meter@[stream_id] + p.reservations.sum_stream(stream_id)
        <= p.reserved_meter@[stream_id]);
}

/// Both states register the same streams.
pub open spec fn same_streams(a: Pallet, b: Pallet) -> bool {
    forall|sid: u128| a.spec_stream(sid) == b.spec_stream(sid)
}

/// Both states hold the same reservations, entry by entry and in their
/// per-stream and per-viewer totals.
pub open spec fn same_reservations(a: Pallet, b: Pallet) -> bool {
    &&& forall|sid: u128, v: AccountId| a.spec_reservation(sid, v) == b.spec_reservation(sid, v)
    &&& forall|sid: u128| a.stream_escrow(sid) == b.stream_escrow(sid)
    &&& forall|v: AccountId| a.viewer_escrow(v) == b.viewer_escrow(v)
}

/// Both states hold the same funds-ledger positions.
pub open spec fn same_funds(a: Pallet, b: Pallet) -> bool {
    forall|acct: AccountId| a.spec_account(acct) == b.spec_account(acct)
}

/// Both states have the same cumulative meters.
pub open spec fn same_meters(a: Pallet, b: Pallet) -> bool {
    forall|sid: u128|
        a.reserved_total(sid) == b.reserved_total(sid) && a.transferred_total(sid)
            == b.transferred_total(sid)
}

} // verus!
