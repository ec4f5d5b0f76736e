use vstd::prelude::*;

verus! {

broadcast use vstd::seq_lib::group_filter_ensures;

/// Where a cell stands in its lifecycle.
#[derive(PartialEq, Eq, Structural, Clone, Copy, Debug)]
pub enum Phase {
    /// The initializer is held and has not been advanced yet.
    Uninitialized,
    /// A driver has taken up the initializer, which has not finished.
    Initializing,
    /// The value is published; the initializer is gone.
    Ready,
}

/// What a requester is told to do after asking for the value.
#[derive(PartialEq, Eq, Structural, Clone, Copy, Debug)]
pub enum Action {
    /// The value is published: read it with [`OnceState::value`].
    Resolved,
    /// The requester now holds the driver ticket: advance the initializer once and
    /// report the outcome with [`OnceState::step`].
    Drive,
    /// Another requester is driving: suspend until woken, then ask again.
    Park,
}

/// The abstract state of a cell.
pub struct CellModel<T> {
    /// The published value, once there is one.
    pub value: Option<T>,
    /// Whether the initializer has been handed to a driver.
    pub started: bool,
    /// The requester that holds the driver ticket right now.
    pub driver: Option<u64>,
    /// The requester that advanced the initializer last and was told to suspend;
    /// the initializer wakes it when it can make progress.
    pub lead: Option<u64>,
    /// The suspended requesters, in the order in which they parked.
    pub parked: Seq<u64>,
    /// How many times the initializer has run to completion.
    pub runs: nat,
}

/// The state of a cell that nobody has asked yet.
pub open spec fn fresh<T>() -> CellModel<T> {
    CellModel { value: None, started: false, driver: None, lead: None, parked: Seq::empty(), runs: 0 }
}

/// `s` with every occurrence of `id` taken out.
pub open spec fn without(s: Seq<u64>, id: u64) -> Seq<u64> {
    s.filter(other_than(id))
}

/// Holds of every identifier but `id`.
pub open spec fn other_than(id: u64) -> spec_fn(u64) -> bool {
    |x: u64| x != id
}

impl<T> CellModel<T> {
    pub open spec fn is_ready(self) -> bool {
        self.value is Some
    }

    pub open spec fn phase(self) -> Phase {
        if self.value is Some {
            Phase::Ready
        } else if self.started {
            Phase::Initializing
        } else {
            Phase::Uninitialized
        }
    }

    /// The invariant that every reachable state keeps.
    pub open spec fn well_formed(self) -> bool {
        &&& self.runs == (if self.value is Some { 1nat } else { 0nat })
        &&& self.value is Some ==> {
            &&& self.started
            &&& self.driver is None
            &&& self.lead is None
            &&& self.parked.len() == 0
        }
        &&& (self.driver is Some || self.lead is Some) ==> self.started
        &&& self.driver matches Some(d) ==> !self.parked.contains(d)
        &&& self.lead matches Some(l) ==> self.driver is None && self.parked.contains(l)
        &&& (self.value is None && self.parked.len() > 0) ==> (self.driver is Some || self.lead is Some)
    }

    /// A request by `id`: the next state and what `id` is told to do.
    pub open spec fn after_request(self, id: u64) -> (CellModel<T>, Action) {
        if self.value is Some {
            (self, Action::Resolved)
        } else if self.driver is None {
            (CellModel {
                started: true,
                driver: Some(id),
                lead: None,
                parked: without(self.parked, id),
                ..self
            }, Action::Drive)
        } else if self.parked.contains(id) {
            (self, Action::Park)
        } else {
            (CellModel { parked: self.parked.push(id), ..self }, Action::Park)
        }
    }

    /// The driver `id` reports what one advance of the initializer gave: the value,
    /// or `None` where the initializer must wait. The next state and the
    /// requesters to wake.
    pub open spec fn after_step(self, id: u64, outcome: Option<T>) -> (CellModel<T>, Seq<u64>) {
        match outcome {
            Some(v) => (CellModel {
                value: Some(v),
                driver: None,
                lead: None,
                parked: Seq::empty(),
                runs: self.runs + 1,
                ..self
            }, self.parked),
            None => (CellModel {
                driver: None,
                lead: Some(id),
                parked: self.parked.push(id),
                ..self
            }, Seq::empty()),
        }
    }

    /// The requester `id` gives up waiting: the next state and the requesters to
    /// wake. Where `id` was the one the initializer would wake, every remaining
    /// parked requester is woken, and so no longer parked, so that one of them
    /// takes over driving when it asks again.
    pub open spec fn after_withdraw(self, id: u64) -> (CellModel<T>, Seq<u64>) {
        let rest = without(self.parked, id);
        if self.lead == Some(id) {
            (CellModel { lead: None, parked: Seq::empty(), ..self }, rest)
        } else {
            (CellModel { parked: rest, ..self }, Seq::empty())
        }
    }
}

/// The arbitration state of an asynchronous lazy-initialization cell.
///
/// Requesters are named by `u64` identifiers that the caller hands out, one per
/// pending request.
pub struct OnceState<T> {
    value: Option<T>,
    started: bool,
    driver: Option<u64>,
    lead: Option<u64>,
    parked: Vec<u64>,
    runs: Ghost<nat>,
}

impl<T> View for OnceState<T> {
    type V = CellModel<T>;

    closed spec fn view(&self) -> CellModel<T> {
        CellModel {
            value: self.value,
            started: self.started,
            driver: self.driver,
            lead: self.lead,
            parked: self.parked@,
            runs: self.runs@,
        }
    }
}

/// A copy of `s` without `id`.
fn remove_id(s: &Vec<u64>, id: u64) -> (r: Vec<u64>)
    ensures
        r@ == without(s@, id),
{
    let mut r: Vec<u64> = Vec::new();
    let n = s.len();
    for i in 0..n
        invariant
            n == s@.len(),
            r@ == without(s@.subrange(0, i as int), id),
    {
        proof {
            let pre = s@.subrange(0, i as int + 1);
            assert(pre.drop_last() =~= s@.subrange(0, i as int));
            assert(pre.last() == s@[i as int]);
            reveal_with_fuel(Seq::filter, 1);
        }
        if s[i] != id {
            r.push(s[i]);
        }
    }
    assert(s@.subrange(0, n as int) =~= s@);
    r
}

impl<T> OnceState<T> {
    pub closed spec fn wf(&self) -> bool {
        self@.well_formed()
    }

    /// A cell that holds its initializer and has not started it.
    pub fn new() -> (r: OnceState<T>)
        ensures
            r.wf(),
            r@ == fresh::<T>(),
    {
        let r = OnceState {
            value: None,
            started: false,
            driver: None,
            lead: None,
            parked: Vec::new(),
            runs: Ghost(0nat),
        };
        assert(r@.parked =~= Seq::<u64>::empty());
        r
    }

    /// A request for the value by `id`, who does not hold the driver ticket.
    pub fn request(&mut self, id: u64) -> (a: Action)
        requires
            old(self).wf(),
            old(self)@.driver != Some(id),
        ensures
            final(self).wf(),
            (final(self)@, a) == old(self)@.after_request(id),
    {
        if self.value.is_some() {
            return Action::Resolved;
        }
        if self.driver.is_none() {
            self.parked = remove_id(&self.parked, id);
            self.started = true;
            self.driver = Some(id);
            self.lead = None;
            return Action::Drive;
        }
        if !contains(&self.parked, id) {
            self.parked.push(id);
        }
        Action::Park
    }

    /// The driver `id` reports one advance of the initializer: `Some(v)` where it
    /// produced `v`, `None` where it must wait. Returns the requesters to wake.
    pub fn step(&mut self, id: u64, outcome: Option<T>) -> (wake: Vec<u64>)
        requires
            old(self).wf(),
            old(self)@.driver == Some(id),
        ensures
            final(self).wf(),
            (final(self)@, wake@) == old(self)@.after_step(id, outcome),
    {
        self.driver = None;
        match outcome {
            Some(v) => {
                self.value = Some(v);
                self.lead = None;
                self.runs = Ghost(self.runs@ + 1);
                let wake = self.parked.clone();
                self.parked = Vec::new();
                assert(self.parked@ =~= Seq::<u64>::empty());
                assert(self@.runs == 1nat);
                assert(self@.started);
                assert(self@.value is Some);
                wake
            },
            None => {
                self.lead = Some(id);
                self.parked.push(id);
                assert(self.parked@[self.parked@.len() - 1] == id);
                Vec::new()
            },
        }
    }

    /// The requester `id`, who does not hold the driver ticket, stops waiting.
    /// Returns the requesters to wake.
    pub fn withdraw(&mut self, id: u64) -> (wake: Vec<u64>)
        requires
            old(self).wf(),
            old(self)@.driver != Some(id),
        ensures
            final(self).wf(),
            (final(self)@, wake@) == old(self)@.after_withdraw(id),
    {
        let ghost before = self.parked@;
        self.parked = remove_id(&self.parked, id);
        proof {
            if let Some(d) = self.driver {
                if self.parked@.contains(d) {
                    before.lemma_filter_contains_rev(other_than(id), d);
                }
            }
            if let Some(l) = self.lead {
                if l != id {
                    let i = before.index_of(l);
                    before.lemma_filter_contains(other_than(id), i);
                }
            }
        }
        if self.lead == Some(id) {
            self.lead = None;
            let wake = self.parked.clone();
            self.parked = Vec::new();
            assert(self.parked@ =~= Seq::<u64>::empty());
            wake
        } else {
            Vec::new()
        }
    }

    /// The published value, if there is one.
    pub fn value(&self) -> (r: Option<&T>)
        ensures
            match r {
                Some(v) => self@.value == Some(*v),
                None => self@.value is None,
            },
    {
        match &self.value {
            Some(v) => Some(v),
            None => None,
        }
    }

    pub fn phase(&self) -> (r: Phase)
        ensures
            r == self@.phase(),
    {
        if self.value.is_some() {
            Phase::Ready
        } else if self.started {
            Phase::Initializing
        } else {
            Phase::Uninitialized
        }
    }

    pub fn is_ready(&self) -> (r: bool)
        ensures
            r == self@.is_ready(),
    {
        self.value.is_some()
    }

    /// The requester that holds the driver ticket, if any.
    pub fn driver(&self) -> (r: Option<u64>)
        ensures
            r == self@.driver,
    {
        self.driver
    }

    /// The suspended requesters, in the order in which they parked.
    pub fn parked(&self) -> (r: Vec<u64>)
        ensures
            r@ == self@.parked,
    {
        self.parked.clone()
    }
}

/// Whether `id` occurs in `s`.
fn contains(s: &Vec<u64>, id: u64) -> (r: bool)
    ensures
        r == s@.contains(id),
{
    let n = s.len();
    for i in 0..n
        invariant
            n == s@.len(),
            forall|j: int| 0 <= j < i ==> s@[j] != id,
    {
        if s[i] == id {
            return true;
        }
    }
    false
}

} // verus!
