//! The race for the name, played out among several contenders.
//!
//! Nothing here runs: this is the reasoning that shows why the decisions
//! of [`crate::resolve`] leave at most one listener. It stands on what
//! the platform has to guarantee of the channel: a connect reaches the
//! listener where there is one and fails with "not found" where there is
//! none; a bind succeeds on a free name only, so that a name has one owner
//! at most; and a listener, once bound, stays for the length of the race.

use crate::resolve::{Binding, ConnectError, ConnectErrorKind, Endpoint, Next, Resolver};
use vstd::prelude::*;

verus! {

/// Why the channel refused a contender.
pub enum Fault {
    /// The connect found no listener.
    NobodyHome,
    /// The bind found the name taken.
    NameTaken,
}

/// How far a contender has come. A listener is known by the number of the
/// contender that owns it, a stream by the number of the contender that it
/// leads to.
pub enum Contender {
    /// It has yet to connect.
    Fresh(Resolver),
    /// It found nobody home, and has yet to bind.
    Binding(Binding),
    /// Its attempt is over.
    Ended(Result<Endpoint<nat, nat>, Fault>),
}

/// A race: the name and those who contend for it.
pub struct Race {
    /// The contender that listens on the name, if any does.
    pub owner: Option<nat>,
    /// The contenders, each under its number.
    pub contenders: Seq<Contender>,
}

impl Contender {
    /// Whether the contender has become the new instance.
    pub open spec fn is_new(self) -> bool {
        self matches Contender::Ended(Ok(Endpoint::New(_)))
    }

    /// Whether the contender has found the instance `host` and is
    /// connected to it.
    pub open spec fn is_guest_of(self, host: nat) -> bool {
        self == Contender::Ended(Ok(Endpoint::Existing(host)))
    }

    /// Whether the contender's attempt has failed.
    pub open spec fn has_failed(self) -> bool {
        self matches Contender::Ended(Err(_))
    }
}

impl Race {
    /// The race before anyone has moved: the name is free.
    pub open spec fn start(resolvers: Seq<Resolver>) -> Race {
        Race {
            owner: None,
            contenders: Seq::new(resolvers.len(), |p: int| Contender::Fresh(resolvers[p])),
        }
    }

    /// How the channel answers a connect.
    pub open spec fn connect(self) -> Result<nat, ConnectError<Fault>> {
        match self.owner {
            Some(host) => Ok(host),
            None => Err(ConnectError { kind: ConnectErrorKind::NotFound, error: Fault::NobodyHome }),
        }
    }

    /// How the channel answers a bind by contender `who`.
    pub open spec fn bind(self, who: nat) -> Result<nat, Fault> {
        match self.owner {
            Some(_) => Err(Fault::NameTaken),
            None => Ok(who),
        }
    }

    /// The race after the next move of contender `who`: its connect where
    /// it is fresh, its bind where it has decided to bind. Both are single
    /// calls on the channel, and nothing can come between a call and its
    /// answer.
    pub open spec fn step(self, who: int) -> Race {
        if 0 <= who < self.contenders.len() {
            match self.contenders[who] {
                Contender::Fresh(resolver) => {
                    let then = match resolver.spec_on_connect::<nat, nat, Fault>(self.connect()) {
                        Next::Bind(binding) => Contender::Binding(binding),
                        Next::Done(end) => Contender::Ended(end),
                    };
                    Race { owner: self.owner, contenders: self.contenders.update(who, then) }
                },
                Contender::Binding(binding) => {
                    let bound = self.bind(who as nat);
                    Race {
                        owner: if bound is Ok {
                            Some(who as nat)
                        } else {
                            self.owner
                        },
                        contenders: self.contenders.update(
                            who,
                            Contender::Ended(binding.spec_on_bind(bound)),
                        ),
                    }
                },
                Contender::Ended(_) => self,
            }
        } else {
            self
        }
    }

    /// The race after the moves of `schedule`, which names the contender
    /// that moves at each turn.
    pub open spec fn run(self, schedule: Seq<int>) -> Race
        decreases schedule.len(),
    {
        if schedule.len() == 0 {
            self
        } else {
            self.run(schedule.drop_last()).step(schedule.last())
        }
    }

    /// Whether every contender's attempt is over.
    pub open spec fn over(self) -> bool {
        forall|p: int| 0 <= p < self.contenders.len() ==> #[trigger] self.contenders[p] is Ended
    }

    /// Mutual exclusion, as it holds at every moment of a race:
    ///
    /// * the new instance is the owner of the name, and nobody else: so
    ///   there is one at most;
    /// * whoever found an existing instance is connected to that owner;
    /// * whoever failed lost the name to that owner;
    /// * while the name is free, nobody's attempt is over.
    pub open spec fn exclusive(self) -> bool {
        let n = self.contenders.len();
        &&& self.owner matches Some(host) ==> host < n
        &&& forall|p: int|
            0 <= p < n ==> ((#[trigger] self.contenders[p]).is_new() <==> self.owner == Some(
                p as nat,
            ))
        &&& forall|p: int|
            0 <= p < n ==> ((#[trigger] self.contenders[p]) matches Contender::Ended(
                Ok(Endpoint::New(listener)),
            ) ==> listener == p)
        &&& forall|p: int, host: nat|
            0 <= p < n && (#[trigger] self.contenders[p].is_guest_of(host)) ==> self.owner == Some(
                host,
            )
        &&& forall|p: int|
            0 <= p < n && (#[trigger] self.contenders[p]).has_failed() ==> self.owner is Some
                && self.contenders[p] == Contender::Ended(
                Err::<Endpoint<nat, nat>, Fault>(Fault::NameTaken),
            )
        &&& self.owner is None ==> forall|p: int|
            0 <= p < n ==> !(#[trigger] self.contenders[p] is Ended)
    }
}

/// A move keeps the race exclusive.
proof fn lemma_step_exclusive(race: Race, who: int)
    requires
        race.exclusive(),
    ensures
        race.step(who).exclusive(),
        race.step(who).contenders.len() == race.contenders.len(),
{
    let next = race.step(who);
    if 0 <= who < race.contenders.len() {
        assert forall|p: int, host: nat|
            0 <= p < next.contenders.len() && (#[trigger] next.contenders[p].is_guest_of(
                host,
            )) implies next.owner == Some(host) by {
            if p != who {
                assert(race.contenders[p].is_guest_of(host));
            }
        }
    }
}

/// Mutual exclusion: however the moves of the contenders interleave, from a
/// free name the race is exclusive at every moment.
pub proof fn lemma_mutual_exclusion(resolvers: Seq<Resolver>, schedule: Seq<int>)
    ensures
        Race::start(resolvers).run(schedule).exclusive(),
        Race::start(resolvers).run(schedule).contenders.len() == resolvers.len(),
    decreases schedule.len(),
{
    if schedule.len() > 0 {
        lemma_mutual_exclusion(resolvers, schedule.drop_last());
        lemma_step_exclusive(Race::start(resolvers).run(schedule.drop_last()), schedule.last());
    }
}

/// Once every attempt is over, exactly one contender is the new instance,
/// and each of the others either is connected to it or lost the bind to
/// it.
pub proof fn lemma_one_listener(resolvers: Seq<Resolver>, schedule: Seq<int>)
    requires
        resolvers.len() > 0,
        Race::start(resolvers).run(schedule).over(),
    ensures
        ({
            let race = Race::start(resolvers).run(schedule);
            exists|host: int|
                {
                    &&& 0 <= host < resolvers.len()
                    &&& (#[trigger] race.contenders[host]).is_new()
                    &&& forall|p: int|
                        0 <= p < resolvers.len() && p != host ==> !(
                        #[trigger] race.contenders[p]).is_new() && (race.contenders[p].is_guest_of(
                            host as nat,
                        ) || race.contenders[p].has_failed())
                }
        }),
{
    lemma_mutual_exclusion(resolvers, schedule);
    let race = Race::start(resolvers).run(schedule);
    assert(race.contenders[0] is Ended);
    let host = race.owner->Some_0 as int;
    assert(race.contenders[host].is_new());
    assert forall|p: int| 0 <= p < resolvers.len() && p != host implies !(
    #[trigger] race.contenders[p]).is_new() && (race.contenders[p].is_guest_of(host as nat)
        || race.contenders[p].has_failed()) by {
        assert(race.contenders[p] is Ended);
        match race.contenders[p] {
            Contender::Ended(Ok(Endpoint::Existing(found))) => {
                assert(race.contenders[p].is_guest_of(found));
            },
            _ => {},
        }
    }
}

/// The schedule in which the contenders of `order` make their attempts one
/// after the other: each makes both its moves before the next makes any.
pub open spec fn in_turn(order: Seq<int>) -> Seq<int>
    decreases order.len(),
{
    if order.len() == 0 {
        Seq::empty()
    } else {
        in_turn(order.drop_last()).push(order.last()).push(order.last())
    }
}

/// Where the attempts do not overlap, the first contender becomes the new
/// instance and every later one finds it and is connected to it; nobody
/// fails.
pub proof fn lemma_in_turn(resolvers: Seq<Resolver>, order: Seq<int>)
    requires
        order.len() > 0,
        order.no_duplicates(),
        forall|k: int| 0 <= k < order.len() ==> 0 <= #[trigger] order[k] < resolvers.len(),
    ensures
        ({
            let race = Race::start(resolvers).run(in_turn(order));
            &&& race.owner == Some(order[0] as nat)
            &&& race.contenders.len() == resolvers.len()
            &&& race.contenders[order[0]] == Contender::Ended(
                Ok::<_, Fault>(Endpoint::New(order[0] as nat)),
            )
            &&& forall|k: int|
                1 <= k < order.len() ==> race.contenders[#[trigger] order[k]].is_guest_of(
                    order[0] as nat,
                )
            &&& forall|p: int|
                0 <= p < resolvers.len() && !order.contains(p) ==> #[trigger] race.contenders[p]
                    == Contender::Fresh(resolvers[p])
        }),
    decreases order.len(),
{
    let start = Race::start(resolvers);
    let who = order.last();
    let before = in_turn(order.drop_last());
    let once = before.push(who);
    assert(once.drop_last() == before);
    assert(in_turn(order).drop_last() == once);
    let met = start.run(before);
    let race = start.run(in_turn(order));
    assert(start.run(once) == met.step(who));
    assert(race == start.run(once).step(who));
    if order.len() == 1 {
        assert(met == start);
        assert(order[0] == who);
        assert forall|p: int|
            0 <= p < resolvers.len() && !order.contains(p) implies #[trigger] race.contenders[p]
            == Contender::Fresh(resolvers[p]) by {}
    } else {
        let earlier = order.drop_last();
        assert forall|k: int| 0 <= k < earlier.len() implies 0 <= #[trigger] earlier[k]
            < resolvers.len() by {
            assert(earlier[k] == order[k]);
        }
        lemma_in_turn(resolvers, earlier);
        assert(earlier[0] == order[0]);
        assert(!earlier.contains(who)) by {
            if earlier.contains(who) {
                let k = choose|k: int| 0 <= k < earlier.len() && earlier[k] == who;
                assert(order[k] == order[order.len() - 1]);
            }
        }
        assert forall|k: int| 1 <= k < order.len() implies race.contenders[#[trigger] order[k]]
            .is_guest_of(order[0] as nat) by {
            if k < order.len() - 1 {
                assert(order[k] == earlier[k]);
                assert(earlier.contains(order[k]));
            }
        }
        assert forall|p: int|
            0 <= p < resolvers.len() && !order.contains(p) implies #[trigger] race.contenders[p]
            == Contender::Fresh(resolvers[p]) by {
            if earlier.contains(p) {
                let k = choose|k: int| 0 <= k < earlier.len() && earlier[k] == p;
                assert(order[k] == p);
            }
        }
    }
}

/// Where two attempts overlap, so that both connect before either binds,
/// both find nobody home, and the one that binds second fails: it is
/// neither the new instance nor connected to it.
pub proof fn lemma_overlap_fails(first: Resolver, second: Resolver)
    ensures
        ({
            let race = Race::start(seq![first, second]).run(seq![0, 1, 0, 1]);
            &&& race.contenders[0].is_new()
            &&& race.contenders[1].has_failed()
        }),
{
    let start = Race::start(seq![first, second]);
    let s1 = seq![0int];
    let s2 = seq![0int, 1];
    let s3 = seq![0int, 1, 0];
    let s4 = seq![0int, 1, 0, 1];
    assert(s1.drop_last() == Seq::<int>::empty());
    assert(s2.drop_last() == s1);
    assert(s3.drop_last() == s2);
    assert(s4.drop_last() == s3);
    reveal_with_fuel(Race::run, 5);
}

} // verus!
