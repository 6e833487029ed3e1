//! The registry of profile holds.

use crate::types::{PowerProfileHold, PowerProfileHoldView};
use std::collections::HashMap;
use vstd::prelude::*;

verus! {

/// What a `HoldRegistry` holds: the holds in force, each under its cookie,
/// and the number of cookies issued so far.
pub struct HoldRegistryView {
    pub holds: Map<u32, PowerProfileHoldView>,
    pub issued: nat,
}

/// A call on the registry.
pub enum Request {
    /// Take a hold.
    Hold(PowerProfileHoldView),
    /// Release the hold under a cookie.
    Release(u32),
    /// A call that was turned away before it reached the holds.
    Nothing,
}

impl HoldRegistryView {
    /// The registry's invariant: the holds in force are finitely many, and
    /// the cookie of each was issued.
    pub open spec fn wf(self) -> bool {
        &&& self.issued <= u32::MAX + 1
        &&& self.holds.dom().finite()
        &&& forall|cookie: u32| self.holds.contains_key(cookie) ==> cookie < self.issued
    }

    /// Whether a hold is in force under `cookie`.
    pub open spec fn contains(self, cookie: u32) -> bool {
        self.holds.contains_key(cookie)
    }

    /// The hold in force under `cookie`.
    pub open spec fn get(self, cookie: u32) -> Option<PowerProfileHoldView> {
        if self.contains(cookie) {
            Some(self.holds[cookie])
        } else {
            None
        }
    }

    /// The registry after a hold was asked for, and the cookie issued for
    /// it. Once every cookie has been issued, none is, and nothing changes.
    pub open spec fn hold(self, hold: PowerProfileHoldView) -> (HoldRegistryView, Option<u32>) {
        if self.issued <= u32::MAX {
            (
                HoldRegistryView {
                    holds: self.holds.insert(self.issued as u32, hold),
                    issued: self.issued + 1,
                },
                Some(self.issued as u32),
            )
        } else {
            (self, None)
        }
    }

    /// The registry after the release of `cookie`: without the hold under
    /// it, or unchanged where there is none.
    pub open spec fn release(self, cookie: u32) -> HoldRegistryView {
        if self.contains(cookie) {
            HoldRegistryView { holds: self.holds.remove(cookie), ..self }
        } else {
            self
        }
    }

    /// The registry after one call, and the cookie that the call issued.
    pub open spec fn step(self, request: Request) -> (HoldRegistryView, Option<u32>) {
        match request {
            Request::Hold(hold) => self.hold(hold),
            Request::Release(cookie) => (self.release(cookie), None),
            Request::Nothing => (self, None),
        }
    }

    /// The registry after a series of calls, and the cookie that each call
    /// issued.
    pub open spec fn run(self, requests: Seq<Request>) -> (HoldRegistryView, Seq<Option<u32>>)
        decreases requests.len(),
    {
        if requests.len() == 0 {
            (self, Seq::empty())
        } else {
            let before = self.run(requests.drop_last());
            let after = before.0.step(requests.last());
            (after.0, before.1.push(after.1))
        }
    }

    /// Whether `listed` lists the holds in force, each once under its
    /// cookie, by rising cookie: in the order in which they were taken.
    pub open spec fn is_listed_by(self, listed: Seq<(u32, PowerProfileHoldView)>) -> bool {
        &&& listed.len() == self.holds.dom().len()
        &&& forall|i: int|
            0 <= i < listed.len() ==> self.get((#[trigger] listed[i]).0) == Some(listed[i].1)
        &&& forall|i: int, j: int|
            0 <= i < j < listed.len() ==> (#[trigger] listed[i]).0 < (#[trigger] listed[j]).0
    }

    /// The holds in force, each with its cookie, by rising cookie: in the
    /// order in which they were taken.
    pub open spec fn listing(self) -> Seq<(u32, PowerProfileHoldView)> {
        choose|listed: Seq<(u32, PowerProfileHoldView)>| self.is_listed_by(listed)
    }
}

/// A call keeps the registry's invariant, and takes back no cookie: one that
/// it issues was not issued before.
pub proof fn lemma_step(state: HoldRegistryView, request: Request)
    requires
        state.wf(),
    ensures
        state.step(request).0.wf(),
        state.step(request).0.issued >= state.issued,
        match state.step(request).1 {
            Some(cookie) => cookie == state.issued && state.step(request).0.issued == cookie + 1,
            None => state.step(request).0.issued == state.issued,
        },
{
}

/// A series of calls keeps the registry's invariant, and every cookie that
/// it issues is below the number of cookies issued at its end.
pub proof fn lemma_run(state: HoldRegistryView, requests: Seq<Request>)
    requires
        state.wf(),
    ensures
        state.run(requests).0.wf(),
        state.run(requests).0.issued >= state.issued,
        state.run(requests).1.len() == requests.len(),
        forall|i: int|
            0 <= i < requests.len() ==> match (#[trigger] state.run(requests).1[i]) {
                Some(cookie) => state.issued <= cookie < state.run(requests).0.issued,
                None => true,
            },
    decreases requests.len(),
{
    if requests.len() > 0 {
        let before = state.run(requests.drop_last());
        lemma_run(state, requests.drop_last());
        lemma_step(before.0, requests.last());
        assert forall|i: int| 0 <= i < requests.len() implies match (#[trigger] state.run(
            requests,
        ).1[i]) {
            Some(cookie) => state.issued <= cookie < state.run(requests).0.issued,
            None => true,
        } by {
            if i < requests.len() - 1 {
                assert(state.run(requests).1[i] == before.1[i]);
            }
        }
    }
}

/// Holds taken by different calls of one series have different cookies,
/// whatever was released or turned away in between: the later call gets the
/// greater cookie.
pub proof fn lemma_cookies_distinct(
    state: HoldRegistryView,
    requests: Seq<Request>,
    i: int,
    j: int,
)
    requires
        state.wf(),
        0 <= i < j < requests.len(),
        state.run(requests).1[i] is Some,
        state.run(requests).1[j] is Some,
    ensures
        state.run(requests).1[i]->0 < state.run(requests).1[j]->0,
    decreases requests.len(),
{
    let before = state.run(requests.drop_last());
    lemma_run(state, requests.drop_last());
    assert(state.run(requests).1[i] == before.1[i]);
    if j < requests.len() - 1 {
        assert(state.run(requests).1[j] == before.1[j]);
        lemma_cookies_distinct(state, requests.drop_last(), i, j);
    } else {
        lemma_step(before.0, requests.last());
    }
}

/// A cookie that a call issues belongs to no hold that was in force before
/// the call, and to the hold taken after it.
pub proof fn lemma_cookie_fresh(state: HoldRegistryView, hold: PowerProfileHoldView)
    requires
        state.wf(),
    ensures
        match state.hold(hold).1 {
            Some(cookie) => !state.contains(cookie) && state.hold(hold).0.get(cookie) == Some(
                hold,
            ),
            None => true,
        },
{
}

/// The release of a cookie under which no hold is in force changes nothing;
/// any release leaves the holds under other cookies as they were, and no
/// hold under the cookie released.
pub proof fn lemma_release(state: HoldRegistryView, cookie: u32, other: u32)
    ensures
        !state.contains(cookie) ==> state.release(cookie) == state,
        state.release(cookie).get(cookie) is None,
        other != cookie ==> state.release(cookie).get(other) == state.get(other),
{
}

/// What the holds of a registry hold, cookie by cookie.
pub open spec fn views_of(holds: Map<u32, PowerProfileHold>) -> Map<u32, PowerProfileHoldView> {
    holds.map_values(|hold: PowerProfileHold| hold@)
}

/// The views of holds stand under the cookies of the holds.
proof fn lemma_views_of(holds: Map<u32, PowerProfileHold>)
    ensures
        views_of(holds).dom() == holds.dom(),
{
    assert(views_of(holds).dom() =~= holds.dom());
}

/// The holds in force, each under the cookie that was issued for it.
#[derive(Debug)]
pub struct HoldRegistry {
    holds: HashMap<u32, PowerProfileHold>,
    issued: u64,
}

impl View for HoldRegistry {
    type V = HoldRegistryView;

    closed spec fn view(&self) -> HoldRegistryView {
        HoldRegistryView { holds: views_of(self.holds@), issued: self.issued as nat }
    }
}

impl HoldRegistry {
    /// The invariant that every registry keeps.
    #[verifier::type_invariant]
    pub open spec fn inv(self) -> bool {
        self@.wf()
    }

    /// A registry without holds, which has issued no cookie.
    pub fn new() -> (registry: Self)
        ensures
            registry@.holds == Map::<u32, PowerProfileHoldView>::empty(),
            registry@.issued == 0,
            registry@.wf(),
    {
        Self::starting_at(0)
    }

    /// A registry without holds, which takes the cookies below `first_cookie`
    /// for issued: the first that it issues is `first_cookie`.
    pub fn starting_at(first_cookie: u32) -> (registry: Self)
        ensures
            registry@.holds == Map::<u32, PowerProfileHoldView>::empty(),
            registry@.issued == first_cookie,
            registry@.wf(),
    {
        let holds: HashMap<u32, PowerProfileHold> = HashMap::new();
        proof {
            lemma_views_of(holds@);
            assert(views_of(holds@) =~= Map::<u32, PowerProfileHoldView>::empty());
        }
        HoldRegistry { holds: holds, issued: first_cookie as u64 }
    }

    /// Takes a hold and issues its cookie: one that this registry has never
    /// issued before. Once every cookie has been issued, none is, and nothing
    /// changes.
    pub fn insert(&mut self, hold: PowerProfileHold) -> (cookie: Option<u32>)
        ensures
            old(self)@.wf(),
            final(self)@.wf(),
            (final(self)@, cookie) == old(self)@.hold(hold@),
    {
        proof {
            use_type_invariant(&*self);
        }
        if self.issued > 0xffff_ffff {
            return None;
        }
        let cookie = self.issued as u32;
        let ghost before = self@;
        // The map leaves the registry while it changes, so that the registry
        // is valid at every step.
        let mut holds: HashMap<u32, PowerProfileHold> = HashMap::new();
        proof {
            lemma_views_of(holds@);
        }
        core::mem::swap(&mut holds, &mut self.holds);
        holds.insert(cookie, hold);
        self.issued = self.issued + 1;
        proof {
            lemma_views_of(holds@);
            assert(views_of(holds@) =~= before.holds.insert(cookie, hold@));
        }
        core::mem::swap(&mut holds, &mut self.holds);
        Some(cookie)
    }

    /// Releases the hold under `cookie` and returns it. Where no hold is in
    /// force under `cookie`, nothing changes.
    pub fn remove(&mut self, cookie: u32) -> (released: Option<PowerProfileHold>)
        ensures
            old(self)@.wf(),
            final(self)@.wf(),
            final(self)@ == old(self)@.release(cookie),
            match released {
                Some(hold) => old(self)@.get(cookie) == Some(hold@),
                None => !old(self)@.contains(cookie),
            },
    {
        proof {
            use_type_invariant(&*self);
        }
        let ghost before = self@;
        let mut holds: HashMap<u32, PowerProfileHold> = HashMap::new();
        proof {
            lemma_views_of(holds@);
        }
        core::mem::swap(&mut holds, &mut self.holds);
        let released = holds.remove(&cookie);
        proof {
            lemma_views_of(holds@);
            assert(views_of(holds@) =~= before.release(cookie).holds);
        }
        core::mem::swap(&mut holds, &mut self.holds);
        released
    }

    /// Whether a hold is in force under `cookie`.
    pub fn contains(&self, cookie: u32) -> (found: bool)
        ensures
            found == self@.contains(cookie),
    {
        self.holds.contains_key(&cookie)
    }

    /// The number of holds in force.
    pub fn len(&self) -> (count: usize)
        ensures
            count == self@.holds.dom().len(),
    {
        proof {
            lemma_views_of(self.holds@);
        }
        self.holds.len()
    }

    /// The holds in force, each with its cookie, by rising cookie: in the
    /// order in which they were taken.
    pub fn list(&self) -> (listed: Vec<(u32, PowerProfileHold)>)
        ensures
            self@.is_listed_by(entries_of(listed@)),
            entries_of(listed@) == self@.listing(),
    {
        let mut listed: Vec<(u32, PowerProfileHold)> = Vec::new();
        // Where each entry of the listing stands in the map's own order.
        let ghost mut origin: Seq<int> = Seq::empty();
        proof {
            lemma_views_of(self.holds@);
        }
        for entry in it: self.holds.iter()
            invariant
                it.seq().len() == self.holds@.dom().len(),
                it.seq().no_duplicates(),
                forall|i: int|
                    0 <= i < it.seq().len() ==> self.holds@.contains_key(
                        *(#[trigger] it.seq()[i]).0,
                    ) && self.holds@[*it.seq()[i].0] == *it.seq()[i].1,
                listed.len() == it.index(),
                forall|i: int, j: int|
                    0 <= i < j < listed.len() ==> (#[trigger] listed[i]).0 < (#[trigger] listed[j]).0,
                origin.len() == listed.len(),
                forall|i: int|
                    0 <= i < listed.len() ==> 0 <= #[trigger] origin[i] < listed.len()
                        && listed[i].0 == *it.seq()[origin[i]].0,
                forall|i: int|
                    0 <= i < listed.len() ==> self.holds@.contains_key((#[trigger] listed[i]).0)
                        && self.holds@[listed[i].0]@ == listed[i].1@,
        {
            let (cookie, hold) = entry;
            let ghost before = listed@;
            let ghost seen = it.index();
            let ghost entries = it.seq();
            let at = place_of(&listed, *cookie);
            proof {
                assert(entries[seen] == (cookie, hold));
                assert forall|i: int| 0 <= i < before.len() implies (#[trigger] before[i]).0
                    != *cookie by {
                    let j = origin[i];
                    if before[i].0 == *cookie {
                        assert(self.holds@[*entries[j].0] == *entries[j].1);
                        assert(self.holds@[*entries[seen].0] == *entries[seen].1);
                        assert(entries[j] == entries[seen]);
                    }
                }
            }
            listed.insert(at, (*cookie, hold.clone()));
            proof {
                let ghost was = origin;
                origin = origin.insert(at as int, seen);
                assert forall|i: int| 0 <= i < listed.len() implies 0 <= #[trigger] origin[i]
                    < listed.len() && listed[i].0 == *entries[origin[i]].0 by {
                    if i < at {
                        assert(listed[i] == before[i]);
                        assert(origin[i] == was[i]);
                    } else if i > at {
                        assert(listed[i] == before[i - 1]);
                        assert(origin[i] == was[i - 1]);
                    }
                }
                assert forall|i: int, j: int| 0 <= i < j < listed.len() implies (
                #[trigger] listed[i]).0 < (#[trigger] listed[j]).0 by {
                    let a = if i < at {
                        i
                    } else {
                        i - 1
                    };
                    let b = if j < at {
                        j
                    } else {
                        j - 1
                    };
                    if i != at {
                        assert(listed[i] == before[a]);
                    }
                    if j != at {
                        assert(listed[j] == before[b]);
                    }
                }
                assert forall|i: int| 0 <= i < listed.len() implies self.holds@.contains_key(
                    (#[trigger] listed[i]).0,
                ) && self.holds@[listed[i].0]@ == listed[i].1@ by {
                    if i < at {
                        assert(listed[i] == before[i]);
                    } else if i > at {
                        assert(listed[i] == before[i - 1]);
                    }
                }
            }
        }
        proof {
            let views = entries_of(listed@);
            assert forall|i: int| 0 <= i < views.len() implies self@.get((#[trigger] views[i]).0)
                == Some(views[i].1) by {
                assert(views[i] == (listed[i].0, listed[i].1@));
            }
            assert forall|i: int, j: int| 0 <= i < j < views.len() implies (#[trigger] views[i]).0
                < (#[trigger] views[j]).0 by {
                assert(views[i].0 == listed[i].0);
                assert(views[j].0 == listed[j].0);
            }
            assert(self@.is_listed_by(views));
            use_type_invariant(self);
            lemma_listing_unique(self@, views, self@.listing());
        }
        listed
    }
}

/// What the entries of a listing hold, one by one.
pub open spec fn entries_of(listed: Seq<(u32, PowerProfileHold)>) -> Seq<
    (u32, PowerProfileHoldView),
> {
    listed.map_values(|entry: (u32, PowerProfileHold)| (entry.0, entry.1@))
}

fn place_of(listed: &Vec<(u32, PowerProfileHold)>, cookie: u32) -> (at: usize)
    ensures
        at <= listed.len(),
        forall|i: int| 0 <= i < at ==> (#[trigger] listed[i]).0 <= cookie,
        at < listed.len() ==> listed[at as int].0 > cookie,
{
    let mut at: usize = 0;
    while at < listed.len() && listed[at].0 <= cookie
        invariant
            at <= listed.len(),
            forall|i: int| 0 <= i < at ==> (#[trigger] listed[i]).0 <= cookie,
        decreases listed.len() - at,
    {
        at += 1;
    }
    at
}

/// A listing of the holds in force is the only one: the holds by rising
/// cookie.
pub proof fn lemma_listing_unique(
    state: HoldRegistryView,
    a: Seq<(u32, PowerProfileHoldView)>,
    b: Seq<(u32, PowerProfileHoldView)>,
)
    requires
        state.wf(),
        state.is_listed_by(a),
        state.is_listed_by(b),
    ensures
        a == b,
{
    let cookies_a = a.map_values(|entry: (u32, PowerProfileHoldView)| entry.0);
    let cookies_b = b.map_values(|entry: (u32, PowerProfileHoldView)| entry.0);
    lemma_listing_covers(state, a);
    lemma_listing_covers(state, b);
    lemma_rising_equal(cookies_a, cookies_b);
    assert forall|i: int| 0 <= i < a.len() implies a[i] == b[i] by {
        assert(cookies_a[i] == a[i].0);
        assert(cookies_b[i] == b[i].0);
    }
    assert(a =~= b);
}

/// A listing names the cookie of every hold in force.
proof fn lemma_listing_covers(state: HoldRegistryView, listed: Seq<(u32, PowerProfileHoldView)>)
    requires
        state.wf(),
        state.is_listed_by(listed),
    ensures
        listed.map_values(|entry: (u32, PowerProfileHoldView)| entry.0).to_set()
            == state.holds.dom(),
{
    let cookies = listed.map_values(|entry: (u32, PowerProfileHoldView)| entry.0);
    assert forall|i: int, j: int| 0 <= i < cookies.len() && 0 <= j < cookies.len() && i
        != j implies cookies[i] != cookies[j] by {
        assert(cookies[i] == listed[i].0);
        assert(cookies[j] == listed[j].0);
    }
    cookies.unique_seq_to_set();
    assert forall|cookie: u32| cookies.to_set().contains(cookie) implies state.holds.dom().contains(
        cookie,
    ) by {
        let i = choose|i: int| 0 <= i < cookies.len() && cookies[i] == cookie;
        assert(cookies[i] == listed[i].0);
    }
    assert(cookies.to_set().subset_of(state.holds.dom()));
    vstd::set_lib::lemma_subset_equality(cookies.to_set(), state.holds.dom());
}

/// Two rising sequences of the same numbers are the same.
proof fn lemma_rising_equal(a: Seq<u32>, b: Seq<u32>)
    requires
        forall|i: int, j: int| 0 <= i < j < a.len() ==> a[i] < a[j],
        forall|i: int, j: int| 0 <= i < j < b.len() ==> b[i] < b[j],
        a.to_set() == b.to_set(),
        a.len() == b.len(),
    ensures
        a == b,
    decreases a.len(),
{
    if a.len() > 0 {
        let n = a.len() - 1;
        // The greatest of both is the last of each.
        assert(a.to_set().contains(a[n]));
        assert(b.to_set().contains(a[n]));
        let i = choose|i: int| 0 <= i < b.len() && b[i] == a[n];
        assert(b.to_set().contains(b[n]));
        assert(a.to_set().contains(b[n]));
        let j = choose|j: int| 0 <= j < a.len() && a[j] == b[n];
        assert(a[n] == b[n]);
        let front_a = a.drop_last();
        let front_b = b.drop_last();
        assert forall|x: u32| front_a.to_set().contains(x) <==> front_b.to_set().contains(x) by {
            if front_a.to_set().contains(x) {
                let k = choose|k: int| 0 <= k < front_a.len() && front_a[k] == x;
                assert(a[k] == x);
                assert(a.to_set().contains(x));
                assert(b.to_set().contains(x));
                let m = choose|m: int| 0 <= m < b.len() && b[m] == x;
                assert(m < n);
                assert(front_b[m] == x);
            }
            if front_b.to_set().contains(x) {
                let k = choose|k: int| 0 <= k < front_b.len() && front_b[k] == x;
                assert(b[k] == x);
                assert(b.to_set().contains(x));
                assert(a.to_set().contains(x));
                let m = choose|m: int| 0 <= m < a.len() && a[m] == x;
                assert(m < n);
                assert(front_a[m] == x);
            }
        }
        assert(front_a.to_set() =~= front_b.to_set());
        lemma_rising_equal(front_a, front_b);
        assert(a =~= front_a.push(a[n]));
        assert(b =~= front_b.push(b[n]));
    } else {
        assert(a =~= b);
    }
}

} // verus!
