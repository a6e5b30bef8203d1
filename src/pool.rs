//! A bounded pool of reusable connections, kept as a state machine.
//!
//! The pool itself never waits and never reads a clock: every operation
//! takes the current time (milliseconds on a monotonic clock of the
//! caller's choosing) and returns at once. A caller that must wait for a
//! slot receives `AcquireStep::Wait` and tries again later; a caller that
//! must open a new connection receives a `CreateTicket`, opens it, and
//! settles the ticket with `finish_create`.
use vstd::prelude::*;

verus! {

/// Settings of a pool. The two timeouts are in milliseconds.
#[derive(Debug, Clone)]
pub struct PoolConfig {
    /// Address that new connections are opened to.
    pub base_url: String,
    /// Number of connections opened when the pool is built.
    pub min_connections: usize,
    /// Largest number of connections that may exist at once.
    pub max_connections: usize,
    /// How long `acquire` may wait for a free slot.
    pub acquire_timeout: u64,
    /// How long a returned connection stays fit for reuse.
    pub idle_timeout: u64,
}

impl PoolConfig {
    /// At least one connection may exist, and the warm set fits under the bound.
    pub open spec fn valid(&self) -> bool {
        1 <= self.max_connections && self.min_connections <= self.max_connections
    }

    pub fn is_valid(&self) -> (r: bool)
        ensures
            r == self.valid(),
    {
        1 <= self.max_connections && self.min_connections <= self.max_connections
    }
}

impl Default for PoolConfig {
    fn default() -> (r: Self)
        ensures
            r.base_url@ == "http://localhost:8080"@,
            r.min_connections == 2,
            r.max_connections == 10,
            r.acquire_timeout == 30_000,
            r.idle_timeout == 60_000,
    {
        PoolConfig {
            base_url: String::from_str("http://localhost:8080"),
            min_connections: 2,
            max_connections: 10,
            acquire_timeout: 30_000,
            idle_timeout: 60_000,
        }
    }
}

/// A snapshot of a pool's counts.
#[derive(Debug, Clone, Copy, PartialEq, Eq, Structural)]
pub struct PoolStatus {
    /// Connections waiting in the idle registry.
    pub available: usize,
    /// Leases registered as checked out.
    pub used: usize,
    /// Configured number of warm connections.
    pub min: usize,
    /// Configured bound on live connections.
    pub max: usize,
}

/// Why a pool operation did not succeed.
#[derive(Debug, Clone, PartialEq, Eq)]
pub enum PoolError {
    /// The pool was closed.
    PoolClosed,
    /// No slot became free within the acquire timeout.
    AcquireTimeout,
    /// Opening a new connection failed; the message says why.
    ConnectionCreateError(String),
    /// A lease or ticket was used after it had been settled.
    UseAfterRelease,
}

/// A connection checked out of a pool. Releasing it hands the connection
/// back; after that the lease holds nothing.
pub struct PooledConnection<C> {
    connection: Option<C>,
    connection_id: u64,
}

impl<C> View for PooledConnection<C> {
    /// The connection still held, and the lease identifier.
    type V = (Option<C>, u64);

    closed spec fn view(&self) -> (Option<C>, u64) {
        (self.connection, self.connection_id)
    }
}

impl<C> PooledConnection<C> {
    /// The connection, while the lease still holds it.
    pub fn inner(&self) -> (r: Result<&C, PoolError>)
        ensures
            match self@.0 {
                Some(c) => r matches Ok(x) && *x == c,
                None => r matches Err(PoolError::UseAfterRelease),
            },
    {
        match &self.connection {
            Some(c) => Ok(c),
            None => Err(PoolError::UseAfterRelease),
        }
    }

    /// The connection, mutably, while the lease still holds it.
    pub fn inner_mut(&mut self) -> (r: Result<&mut C, PoolError>)
        ensures
            match old(self)@.0 {
                Some(c) => r matches Ok(x) && *x == c && final(self)@ == (Some(*final(x)), old(self)@.1),
                None => r matches Err(PoolError::UseAfterRelease) && final(self)@ == old(self)@,
            },
    {
        match &mut self.connection {
            Some(c) => Ok(c),
            None => Err(PoolError::UseAfterRelease),
        }
    }

    /// The lease identifier that the pool issued.
    pub fn id(&self) -> (r: u64)
        ensures
            r == self@.1,
    {
        self.connection_id
    }

    /// Whether the connection was already handed back.
    pub fn is_released(&self) -> (r: bool)
        ensures
            r == self@.0.is_none(),
    {
        self.connection.is_none()
    }
}

/// The right to open one new connection, holding a slot of the pool.
pub struct CreateTicket {
    id: u64,
}

impl View for CreateTicket {
    /// The lease identifier reserved for the new connection.
    type V = u64;

    closed spec fn view(&self) -> u64 {
        self.id
    }
}

impl CreateTicket {
    pub fn id(&self) -> (r: u64)
        ensures
            r == self@,
    {
        self.id
    }
}

/// What the caller of `try_acquire` is to do next.
pub enum AcquireStep<C> {
    /// A fresh idle connection was checked out.
    Ready(PooledConnection<C>),
    /// A slot was reserved: open a connection and call `finish_create`.
    Create(CreateTicket),
    /// No slot is free yet and the timeout has not run out: try again later.
    Wait,
}

/// The abstract state of a pool.
pub ghost struct PoolState<C> {
    pub base_url: Seq<char>,
    pub min: nat,
    pub max: nat,
    pub acquire_timeout: nat,
    pub idle_timeout: nat,
    /// Idle connections with the time each was returned; the last was returned most recently.
    pub idle: Seq<(C, u64)>,
    /// Identifiers of the leases checked out.
    pub active: Seq<u64>,
    /// Identifiers reserved for connections being opened.
    pub pending: Seq<u64>,
    /// Slots of the admission gate in use.
    pub held: nat,
    pub closed: bool,
    /// The identifier that the next lease receives.
    pub next_id: nat,
}

/// What `try_acquire` decides.
pub ghost enum AcquireModel<C> {
    Closed,
    TimedOut,
    Wait,
    Reused(C),
    Create,
}

/// Milliseconds from `from` to `to`; none if the clock did not advance.
pub open spec fn elapsed(from: u64, to: u64) -> nat {
    if to >= from {
        (to - from) as nat
    } else {
        0
    }
}

/// An idle connection returned at `stamp` may still be used at `now`.
pub open spec fn fresh(stamp: u64, now: u64, idle_timeout: nat) -> bool {
    elapsed(stamp, now) < idle_timeout
}

/// Pops idle entries from the most recently returned end, dropping stale
/// ones, until a fresh one comes: what stays idle, and the connection found.
pub open spec fn scan_idle<C>(idle: Seq<(C, u64)>, now: u64, idle_timeout: nat) -> (Seq<(C, u64)>, Option<C>)
    decreases idle.len(),
{
    if idle.len() == 0 {
        (idle, None)
    } else if fresh(idle.last().1, now, idle_timeout) {
        (idle.drop_last(), Some(idle.last().0))
    } else {
        scan_idle(idle.drop_last(), now, idle_timeout)
    }
}

/// Each connection of `conns`, stamped with `now`.
pub open spec fn stamped<C>(conns: Seq<C>, now: u64) -> Seq<(C, u64)> {
    Seq::new(conns.len(), |i: int| (conns[i], now))
}

impl<C> PoolState<C> {
    /// The bookkeeping is consistent: lease identifiers are unique and below
    /// the next one to be issued, and idle plus checked-out connections never
    /// exceed the bound.
    pub open spec fn inv(self) -> bool {
        &&& 1 <= self.max
        &&& self.min <= self.max
        &&& self.held <= self.max
        &&& self.next_id <= u64::MAX
        &&& self.active.no_duplicates()
        &&& self.pending.no_duplicates()
        &&& forall|x: u64| #[trigger] self.active.contains(x) ==> x < self.next_id
        &&& forall|x: u64| #[trigger] self.pending.contains(x) ==> x < self.next_id && !self.active.contains(x)
        &&& if self.closed {
            &&& self.idle.len() == 0
            &&& self.active.len() == 0
            &&& self.pending.len() <= self.held
        } else {
            &&& self.held == self.active.len() + self.pending.len()
            &&& self.idle.len() + self.held <= self.max
        }
    }

    pub open spec fn timed_out(self, started: u64, now: u64) -> bool {
        elapsed(started, now) >= self.acquire_timeout
    }

    pub open spec fn acquire_model(self, started: u64, now: u64) -> AcquireModel<C> {
        if self.closed {
            AcquireModel::Closed
        } else if self.held >= self.max {
            if self.timed_out(started, now) {
                AcquireModel::TimedOut
            } else {
                AcquireModel::Wait
            }
        } else {
            match scan_idle(self.idle, now, self.idle_timeout).1 {
                Some(c) => AcquireModel::Reused(c),
                None => AcquireModel::Create,
            }
        }
    }

    pub open spec fn after_acquire(self, started: u64, now: u64) -> PoolState<C> {
        if self.closed || self.held >= self.max {
            self
        } else {
            let scanned = scan_idle(self.idle, now, self.idle_timeout);
            if scanned.1.is_some() {
                PoolState {
                    idle: scanned.0,
                    active: self.active.push(self.next_id as u64),
                    held: self.held + 1,
                    next_id: self.next_id + 1,
                    ..self
                }
            } else {
                PoolState {
                    idle: scanned.0,
                    pending: self.pending.push(self.next_id as u64),
                    held: self.held + 1,
                    next_id: self.next_id + 1,
                    ..self
                }
            }
        }
    }

    /// Settles the reservation `id`: `opened` says whether the connection was opened.
    pub open spec fn after_create(self, id: u64, opened: bool) -> PoolState<C> {
        if !self.pending.contains(id) {
            self
        } else if !self.closed && opened {
            PoolState {
                pending: self.pending.remove_value(id),
                active: self.active.push(id),
                ..self
            }
        } else {
            PoolState {
                pending: self.pending.remove_value(id),
                held: (self.held - 1) as nat,
                ..self
            }
        }
    }

    pub open spec fn after_release(self, lease: (Option<C>, u64), now: u64) -> PoolState<C> {
        match lease.0 {
            None => self,
            Some(c) => if self.closed {
                if self.held > self.pending.len() {
                    PoolState { held: (self.held - 1) as nat, ..self }
                } else {
                    self
                }
            } else if self.active.contains(lease.1) {
                PoolState {
                    idle: self.idle.push((c, now)),
                    active: self.active.remove_value(lease.1),
                    held: (self.held - 1) as nat,
                    ..self
                }
            } else {
                self
            },
        }
    }

    pub open spec fn after_close(self) -> PoolState<C> {
        PoolState { closed: true, idle: Seq::empty(), active: Seq::empty(), ..self }
    }
}

/// `r` is what `try_acquire` returns for decision `m`, with `id` the
/// identifier it had to give.
pub open spec fn acquire_result_is<C>(r: Result<AcquireStep<C>, PoolError>, m: AcquireModel<C>, id: u64) -> bool {
    match m {
        AcquireModel::Closed => r matches Err(PoolError::PoolClosed),
        AcquireModel::TimedOut => r matches Err(PoolError::AcquireTimeout),
        AcquireModel::Wait => r matches Ok(AcquireStep::Wait),
        AcquireModel::Reused(c) => r matches Ok(AcquireStep::Ready(l)) && l@ == (Some(c), id),
        AcquireModel::Create => r matches Ok(AcquireStep::Create(t)) && t@ == id,
    }
}


proof fn lemma_scan_idle_len<C>(idle: Seq<(C, u64)>, now: u64, idle_timeout: nat)
    ensures
        scan_idle(idle, now, idle_timeout).0.len() <= idle.len(),
        scan_idle(idle, now, idle_timeout).1.is_some() ==> scan_idle(idle, now, idle_timeout).0.len() < idle.len(),
        scan_idle(idle, now, idle_timeout).1.is_none() ==> scan_idle(idle, now, idle_timeout).0.len() == 0,
    decreases idle.len(),
{
    if idle.len() > 0 && !fresh(idle.last().1, now, idle_timeout) {
        lemma_scan_idle_len(idle.drop_last(), now, idle_timeout);
    }
}

proof fn lemma_remove_value(s: Seq<u64>, v: u64)
    requires
        s.contains(v),
        s.no_duplicates(),
    ensures
        s.remove_value(v).len() == s.len() - 1,
        s.remove_value(v).no_duplicates(),
        !s.remove_value(v).contains(v),
        forall|x: u64| #[trigger] s.remove_value(v).contains(x) ==> s.contains(x),
{
    s.index_of_first_ensures(v);
    let i = s.index_of_first(v).unwrap();
    let r = s.remove(i);
    assert(r == s.remove_value(v));
    assert forall|k: int| 0 <= k < r.len() implies (k < i ==> r[k] == s[k]) && (k >= i ==> r[k] == s[k + 1]) by {}
    assert forall|x: u64| #[trigger] r.contains(x) implies s.contains(x) && x != v by {
        let k = choose|k: int| 0 <= k < r.len() && r[k] == x;
        if k < i {
            assert(s[k] == x);
        } else {
            assert(s[k + 1] == x);
        }
    }
    assert forall|a: int, b: int| 0 <= a < r.len() && 0 <= b < r.len() && a != b implies r[a] != r[b] by {
        let sa = if a < i { a } else { a + 1 };
        let sb = if b < i { b } else { b + 1 };
        assert(r[a] == s[sa]);
        assert(r[b] == s[sb]);
    }
}

proof fn lemma_push_fresh(s: Seq<u64>, v: u64)
    requires
        s.no_duplicates(),
        !s.contains(v),
    ensures
        s.push(v).no_duplicates(),
        forall|x: u64| #[trigger] s.push(v).contains(x) <==> (s.contains(x) || x == v),
{
    let t = s.push(v);
    assert forall|x: u64| #[trigger] t.contains(x) implies s.contains(x) || x == v by {
        let k = choose|k: int| 0 <= k < t.len() && t[k] == x;
        if k < s.len() {
            assert(s[k] == x);
        }
    }
    assert forall|x: u64| s.contains(x) || x == v implies #[trigger] t.contains(x) by {
        if x == v {
            assert(t[s.len() as int] == x);
        } else {
            let k = choose|k: int| 0 <= k < s.len() && s[k] == x;
            assert(t[k] == x);
        }
    }
    assert forall|a: int, b: int| 0 <= a < t.len() && 0 <= b < t.len() && a != b implies t[a] != t[b] by {
        if a < s.len() && b < s.len() {
            assert(t[a] == s[a] && t[b] == s[b]);
        } else if a < s.len() {
            assert(t[a] == s[a]);
        } else if b < s.len() {
            assert(t[b] == s[b]);
        }
    }
}

/// Every operation of the pool keeps its invariant (an acquire, while
/// identifiers are left to issue), so at every instant between operations,
/// whatever operations interleave, the idle and checked-out connections
/// together stay within `max_connections` and no two leases share an
/// identifier.
pub proof fn lemma_operations_keep_bound<C>(
    s: PoolState<C>,
    started: u64,
    now: u64,
    id: u64,
    opened: bool,
    lease: (Option<C>, u64),
)
    requires
        s.inv(),
    ensures
        s.idle.len() + s.active.len() <= s.max,
        s.next_id < u64::MAX ==> s.after_acquire(started, now).inv(),
        s.after_create(id, opened).inv(),
        s.after_release(lease, now).inv(),
        s.after_close().inv(),
{
    lemma_scan_idle_len(s.idle, now, s.idle_timeout);
    let fresh_id = s.next_id as u64;
    if !s.closed && s.held < s.max && s.next_id < u64::MAX {
        assert(!s.active.contains(fresh_id));
        assert(!s.pending.contains(fresh_id));
        lemma_push_fresh(s.active, fresh_id);
        lemma_push_fresh(s.pending, fresh_id);
    }
    if s.pending.contains(id) {
        lemma_remove_value(s.pending, id);
        lemma_push_fresh(s.active, id);
    }
    if s.active.contains(lease.1) {
        lemma_remove_value(s.active, lease.1);
    }
}

/// Releasing a lease a second time leaves the pool as the first release left it.
pub proof fn lemma_release_twice<C>(s: PoolState<C>, lease: (Option<C>, u64), first: u64, second: u64)
    ensures
        s.after_release(lease, first).after_release((None, lease.1), second)
            == s.after_release(lease, first),
{
}

/// A connection that `acquire` hands out from the idle registry was returned
/// less than `idle_timeout` ago; when every idle connection is stale, a new
/// one is opened instead.
pub proof fn lemma_stale_never_handed_out<C>(s: PoolState<C>, started: u64, now: u64)
    ensures
        s.acquire_model(started, now) matches AcquireModel::Reused(c) ==> exists|i: int|
            0 <= i < s.idle.len() && s.idle[i].0 == c && fresh(#[trigger] s.idle[i].1, now, s.idle_timeout),
        !s.closed && s.held < s.max && (forall|i: int|
            0 <= i < s.idle.len() ==> !fresh(#[trigger] s.idle[i].1, now, s.idle_timeout))
            ==> s.acquire_model(started, now) == AcquireModel::<C>::Create,
{
    lemma_scan_finds_fresh(s.idle, now, s.idle_timeout);
}

proof fn lemma_scan_finds_fresh<C>(idle: Seq<(C, u64)>, now: u64, idle_timeout: nat)
    ensures
        scan_idle(idle, now, idle_timeout).1 matches Some(c) ==> exists|i: int|
            0 <= i < idle.len() && idle[i].0 == c && fresh(#[trigger] idle[i].1, now, idle_timeout),
        (forall|i: int| 0 <= i < idle.len() ==> !fresh(#[trigger] idle[i].1, now, idle_timeout))
            ==> scan_idle(idle, now, idle_timeout).1.is_none(),
    decreases idle.len(),
{
    if idle.len() > 0 {
        let last = idle.len() - 1;
        if fresh(idle[last].1, now, idle_timeout) {
            assert(idle[last].0 == idle.last().0);
        } else {
            let rest = idle.drop_last();
            lemma_scan_finds_fresh(rest, now, idle_timeout);
            if let Some(c) = scan_idle(rest, now, idle_timeout).1 {
                let i = choose|i: int| 0 <= i < rest.len() && rest[i].0 == c && fresh(#[trigger] rest[i].1, now, idle_timeout);
                assert(idle[i] == rest[i]);
            }
            assert forall|i: int| 0 <= i < rest.len() implies !fresh(#[trigger] rest[i].1, now, idle_timeout)
                || !(forall|j: int| 0 <= j < idle.len() ==> !fresh(#[trigger] idle[j].1, now, idle_timeout)) by {
                assert(rest[i] == idle[i]);
            }
        }
    }
}

/// With every slot taken and the acquire timeout run out, `acquire` fails
/// with a timeout and leaves the pool as it was; once a checked-out lease is
/// released, the next `acquire` proceeds without waiting.
pub proof fn lemma_timeout_leaves_pool_unchanged<C>(
    s: PoolState<C>,
    started: u64,
    now: u64,
    lease: (Option<C>, u64),
    later: u64,
)
    requires
        s.inv(),
        !s.closed,
        s.held >= s.max,
        elapsed(started, now) >= s.acquire_timeout,
    ensures
        s.acquire_model(started, now) == AcquireModel::<C>::TimedOut,
        s.after_acquire(started, now) == s,
        lease.0.is_some() && s.active.contains(lease.1) ==> {
            let m = s.after_acquire(started, now).after_release(lease, later).acquire_model(later, later);
            m is Reused || m is Create
        },
{
}

/// Once closed, a pool refuses every acquire, and a lease released after the
/// close is discarded rather than pooled.
pub proof fn lemma_closed_pool_refuses<C>(
    s: PoolState<C>,
    lease: (Option<C>, u64),
    started: u64,
    now: u64,
)
    requires
        s.inv(),
    ensures
        s.after_close().acquire_model(started, now) == AcquireModel::<C>::Closed,
        s.after_close().after_acquire(started, now) == s.after_close(),
        s.after_close().after_release(lease, now).idle.len() == 0,
        s.after_close().after_release(lease, now).closed,
{
}

/// A bounded pool of connections of type `C`.
pub struct PhantomDBPool<C> {
    config: PoolConfig,
    idle: Vec<(C, u64)>,
    active: Vec<u64>,
    pending: Vec<u64>,
    held: usize,
    closed: bool,
    next_id: u64,
}

impl<C> View for PhantomDBPool<C> {
    type V = PoolState<C>;

    closed spec fn view(&self) -> PoolState<C> {
        PoolState {
            base_url: self.config.base_url@,
            min: self.config.min_connections as nat,
            max: self.config.max_connections as nat,
            acquire_timeout: self.config.acquire_timeout as nat,
            idle_timeout: self.config.idle_timeout as nat,
            idle: self.idle@,
            active: self.active@,
            pending: self.pending@,
            held: self.held as nat,
            closed: self.closed,
            next_id: self.next_id as nat,
        }
    }
}

/// Index of the first `x` in `v`, if any.
fn position_of(v: &Vec<u64>, x: u64) -> (r: Option<usize>)
    ensures
        match v@.index_of_first(x) {
            Some(i) => r == Some(i as usize),
            None => r.is_none(),
        },
{
    proof {
        v@.index_of_first_ensures(x);
    }
    let mut i: usize = 0;
    while i < v.len()
        invariant
            i <= v@.len(),
            forall|j: int| 0 <= j < i ==> v@[j] != x,
        decreases v.len() - i,
    {
        if v[i] == x {
            proof {
                v@.index_of_first_ensures(x);
            }
            return Some(i);
        }
        i = i + 1;
    }
    None
}

impl<C> PhantomDBPool<C> {
    pub open spec fn wf(&self) -> bool {
        self@.inv()
    }

    /// Builds a pool from `config`. `warm` holds the connections opened for
    /// it, of which the first `min_connections` become idle, stamped `now`;
    /// fewer is fine (opening some may have failed).
    pub fn new(config: PoolConfig, warm: Vec<C>, now: u64) -> (r: Self)
        requires
            config.valid(),
        ensures
            r.wf(),
            r@.base_url == config.base_url@,
            r@.min == config.min_connections,
            r@.max == config.max_connections,
            r@.acquire_timeout == config.acquire_timeout,
            r@.idle_timeout == config.idle_timeout,
            r@.idle == stamped(
                warm@.subrange(0, if warm@.len() <= config.min_connections { warm@.len() as int } else { config.min_connections as int }),
                now,
            ),
            r@.active == Seq::<u64>::empty(),
            r@.pending == Seq::<u64>::empty(),
            r@.held == 0,
            !r@.closed,
            r@.next_id == 0,
    {
        let mut warm = warm;
        let keep: usize = if warm.len() <= config.min_connections { warm.len() } else { config.min_connections };
        warm.truncate(keep);
        let ghost kept = warm@;
        let mut idle: Vec<(C, u64)> = Vec::new();
        while warm.len() > 0
            invariant
                kept.len() == keep,
                idle@.len() + warm@.len() == keep,
                idle@ == stamped(kept.subrange(0, idle@.len() as int), now),
                warm@ == kept.subrange(idle@.len() as int, keep as int),
            decreases warm.len(),
        {
            let ghost before = idle@;
            let c = warm.remove(0);
            idle.push((c, now));
            assert(idle@ =~= stamped(kept.subrange(0, idle@.len() as int), now));
            assert(warm@ =~= kept.subrange(idle@.len() as int, keep as int));
        }
        PhantomDBPool {
            config,
            idle,
            active: Vec::new(),
            pending: Vec::new(),
            held: 0,
            closed: false,
            next_id: 0,
        }
    }

    /// Pops idle entries until a fresh one comes, dropping stale ones.
    fn take_fresh_idle(&mut self, now: u64) -> (r: Option<C>)
        ensures
            (final(self).idle@, r) == scan_idle(old(self).idle@, now, old(self).config.idle_timeout as nat),
            final(self).config == old(self).config,
            final(self).active == old(self).active,
            final(self).pending == old(self).pending,
            final(self).held == old(self).held,
            final(self).closed == old(self).closed,
            final(self).next_id == old(self).next_id,
    {
        loop
            invariant
                scan_idle(self.idle@, now, self.config.idle_timeout as nat)
                    == scan_idle(old(self).idle@, now, old(self).config.idle_timeout as nat),
                self.config == old(self).config,
                self.active == old(self).active,
                self.pending == old(self).pending,
                self.held == old(self).held,
                self.closed == old(self).closed,
                self.next_id == old(self).next_id,
            decreases self.idle@.len(),
        {
            match self.idle.pop() {
                None => {
                    return None;
                },
                Some(entry) => {
                    let (c, stamp) = entry;
                    if now.saturating_sub(stamp) < self.config.idle_timeout {
                        return Some(c);
                    }
                },
            }
        }
    }

    /// One attempt to check out a connection, for an acquire that began at
    /// `started` and is now at `now`. A closed pool refuses at once. With no
    /// free slot the attempt waits, or fails once `acquire_timeout` has
    /// passed since `started`. Otherwise a slot is taken: the most recently
    /// returned fresh idle connection is handed out, stale ones met on the way
    /// are dropped, and if none is fresh the caller is asked to open one.
    pub fn try_acquire(&mut self, started: u64, now: u64) -> (r: Result<AcquireStep<C>, PoolError>)
        requires
            old(self).wf(),
            old(self)@.next_id < u64::MAX,
        ensures
            final(self).wf(),
            final(self)@ == old(self)@.after_acquire(started, now),
            acquire_result_is(r, old(self)@.acquire_model(started, now), old(self)@.next_id as u64),
    {
        proof {
            lemma_operations_keep_bound(self@, started, now, 0, false, (None, 0));
        }
        if self.closed {
            return Err(PoolError::PoolClosed);
        }
        if self.held >= self.config.max_connections {
            if now.saturating_sub(started) >= self.config.acquire_timeout {
                return Err(PoolError::AcquireTimeout);
            }
            return Ok(AcquireStep::Wait);
        }
        let id = self.next_id;
        let found = self.take_fresh_idle(now);
        self.next_id = id + 1;
        self.held = self.held + 1;
        match found {
            Some(c) => {
                self.active.push(id);
                Ok(AcquireStep::Ready(PooledConnection { connection: Some(c), connection_id: id }))
            },
            None => {
                self.pending.push(id);
                Ok(AcquireStep::Create(CreateTicket { id }))
            },
        }
    }

    /// Settles a ticket with the outcome of opening its connection. An opened
    /// connection is checked out under the ticket's identifier; a failure, or
    /// a close in the meantime, frees the slot. A ticket the pool does not
    /// hold changes nothing.
    pub fn finish_create(&mut self, ticket: CreateTicket, created: Result<C, String>) -> (r: Result<PooledConnection<C>, PoolError>)
        requires
            old(self).wf(),
        ensures
            final(self).wf(),
            final(self)@ == old(self)@.after_create(ticket@, created.is_ok()),
            !old(self)@.pending.contains(ticket@) ==> r == Err::<PooledConnection<C>, PoolError>(PoolError::UseAfterRelease),
            old(self)@.pending.contains(ticket@) && old(self)@.closed ==> r == Err::<PooledConnection<C>, PoolError>(PoolError::PoolClosed),
            old(self)@.pending.contains(ticket@) && !old(self)@.closed ==> match created {
                Ok(c) => r matches Ok(l) && l@ == (Some(c), ticket@),
                Err(msg) => r == Err::<PooledConnection<C>, PoolError>(PoolError::ConnectionCreateError(msg)),
            },
    {
        proof {
            lemma_operations_keep_bound(self@, 0, 0, ticket@, created.is_ok(), (None, 0));
        }
        let id = ticket.id;
        proof {
            self.pending@.index_of_first_ensures(id);
        }
        let pos = match position_of(&self.pending, id) {
            Some(p) => p,
            None => {
                return Err(PoolError::UseAfterRelease);
            },
        };
        self.pending.remove(pos);
        if self.closed {
            self.held = self.held - 1;
            return Err(PoolError::PoolClosed);
        }
        match created {
            Ok(c) => {
                self.active.push(id);
                Ok(PooledConnection { connection: Some(c), connection_id: id })
            },
            Err(msg) => {
                self.held = self.held - 1;
                Err(PoolError::ConnectionCreateError(msg))
            },
        }
    }

    /// Hands a lease's connection back, stamped `now`: into the idle
    /// registry, or dropped if the pool was closed meanwhile. Either way the
    /// lease's slot is freed and the lease holds nothing afterwards. A lease
    /// already released is refused and changes nothing.
    pub fn release(&mut self, lease: &mut PooledConnection<C>, now: u64) -> (r: Result<(), PoolError>)
        requires
            old(self).wf(),
        ensures
            final(self).wf(),
            final(self)@ == old(self)@.after_release(old(lease)@, now),
            final(lease)@ == (None::<C>, old(lease)@.1),
            old(lease)@.0.is_none() ==> r == Err::<(), PoolError>(PoolError::UseAfterRelease),
            old(lease)@.0.is_some() ==> r == Ok::<(), PoolError>(()),
    {
        proof {
            lemma_operations_keep_bound(self@, 0, now, 0, false, lease@);
        }
        let c = match lease.connection.take() {
            Some(c) => c,
            None => {
                return Err(PoolError::UseAfterRelease);
            },
        };
        if self.closed {
            if self.held > self.pending.len() {
                self.held = self.held - 1;
            }
            return Ok(());
        }
        match position_of(&self.active, lease.connection_id) {
            Some(pos) => {
                proof {
                    self.active@.index_of_first_ensures(lease.connection_id);
                }
                self.active.remove(pos);
                self.idle.push((c, now));
                self.held = self.held - 1;
            },
            None => {},
        }
        Ok(())
    }

    /// Marks the pool closed and clears both registries. Leases still out
    /// keep their connections; releasing them later drops the connections.
    pub fn close(&mut self)
        requires
            old(self).wf(),
        ensures
            final(self).wf(),
            final(self)@ == old(self)@.after_close(),
    {
        proof {
            lemma_operations_keep_bound(self@, 0, 0, 0, false, (None, 0));
        }
        self.closed = true;
        self.idle.clear();
        self.active.clear();
    }

    /// The current counts of the pool and its configured bounds.
    pub fn status(&self) -> (r: PoolStatus)
        requires
            self.wf(),
        ensures
            r.available == self@.idle.len(),
            r.used == self@.active.len(),
            r.min == self@.min,
            r.max == self@.max,
            r.available + r.used <= r.max,
    {
        PoolStatus {
            available: self.idle.len(),
            used: self.active.len(),
            min: self.config.min_connections,
            max: self.config.max_connections,
        }
    }

    pub fn is_closed(&self) -> (r: bool)
        ensures
            r == self@.closed,
    {
        self.closed
    }

    /// Whether another lease identifier can still be issued.
    pub fn can_issue(&self) -> (r: bool)
        ensures
            r == (self@.next_id < u64::MAX),
    {
        self.next_id < u64::MAX
    }

    pub fn config(&self) -> (r: &PoolConfig)
        ensures
            r.base_url@ == self@.base_url,
            r.min_connections == self@.min,
            r.max_connections == self@.max,
            r.acquire_timeout == self@.acquire_timeout,
            r.idle_timeout == self@.idle_timeout,
    {
        &self.config
    }
}

/// A pool with the default settings, holding the `warm` connections stamped `now`.
pub fn create_pool<C>(warm: Vec<C>, now: u64) -> (r: PhantomDBPool<C>)
    ensures
        r.wf(),
        r@.min == 2,
        r@.max == 10,
        r@.acquire_timeout == 30_000,
        r@.idle_timeout == 60_000,
        r@.idle == stamped(warm@.subrange(0, if warm@.len() <= 2 { warm@.len() as int } else { 2 }), now),
        r@.active.len() == 0,
        r@.held == 0,
        !r@.closed,
{
    PhantomDBPool::new(PoolConfig::default(), warm, now)
}

/// A pool with the settings `config`, holding the `warm` connections stamped `now`.
pub fn create_pool_with_config<C>(config: PoolConfig, warm: Vec<C>, now: u64) -> (r: PhantomDBPool<C>)
    requires
        config.valid(),
    ensures
        r.wf(),
        r@.base_url == config.base_url@,
        r@.min == config.min_connections,
        r@.max == config.max_connections,
        r@.acquire_timeout == config.acquire_timeout,
        r@.idle_timeout == config.idle_timeout,
        r@.idle == stamped(
            warm@.subrange(0, if warm@.len() <= config.min_connections { warm@.len() as int } else { config.min_connections as int }),
            now,
        ),
        r@.active.len() == 0,
        r@.held == 0,
        !r@.closed,
{
    PhantomDBPool::new(config, warm, now)
}

} // verus!
