//! The discipline under which calls share the one daemon connection.
//!
//! A call acquires the connection, uses it for each of its daemon
//! operations (the initial request, every pull from a stream), and
//! releases it when it ends, whether it succeeded or failed. The ledger
//! records these accesses and admits them only in that discipline, so the
//! daemon operations of two calls never interleave.
use vstd::prelude::*;

verus! {

/// One access to the shared connection, by the call with the given number.
#[derive(Clone, Copy, Debug, PartialEq, Eq, Structural)]
pub enum Access {
    Acquire(u64),
    Use(u64),
    Release(u64),
}

/// The call that holds the connection after the accesses of `log`.
pub open spec fn holder_after(log: Seq<Access>) -> Option<u64>
    decreases log.len(),
{
    if log.len() == 0 {
        None
    } else {
        match log.last() {
            Access::Acquire(c) => Some(c),
            Access::Use(_) => holder_after(log.drop_last()),
            Access::Release(_) => None,
        }
    }
}

/// The call that holds the connection just before access `k` of `log`.
pub open spec fn holder_at(log: Seq<Access>, k: int) -> Option<u64> {
    holder_after(log.take(k))
}

/// An access is allowed to a connection held by `holder`: acquiring only
/// when nobody holds it, using and releasing only by its holder.
pub open spec fn allowed(holder: Option<u64>, a: Access) -> bool {
    match a {
        Access::Acquire(_) => holder is None,
        Access::Use(c) => holder == Some(c),
        Access::Release(c) => holder == Some(c),
    }
}

/// Every access of `log` was allowed when it happened.
pub open spec fn disciplined(log: Seq<Access>) -> bool {
    forall|k: int| 0 <= k < log.len() ==> allowed(holder_at(log, k), #[trigger] log[k])
}

/// The abstract state of a ledger: who holds the connection, and every
/// access so far, in order.
pub struct LedgerState {
    pub holder: Option<u64>,
    pub log: Seq<Access>,
}

/// The state holds together: the accesses were disciplined and the holder
/// is the one they leave.
pub open spec fn consistent(s: LedgerState) -> bool {
    disciplined(s.log) && s.holder == holder_after(s.log)
}

/// Appending an allowed access keeps a log disciplined.
proof fn lemma_push(log: Seq<Access>, a: Access)
    requires
        disciplined(log),
        allowed(holder_after(log), a),
    ensures
        disciplined(log.push(a)),
        holder_after(log.push(a)) == match a {
            Access::Acquire(c) => Some(c),
            Access::Use(_) => holder_after(log),
            Access::Release(_) => None,
        },
{
    let l2 = log.push(a);
    assert(l2.drop_last() =~= log);
    assert forall|k: int| 0 <= k < l2.len() implies allowed(holder_at(l2, k), #[trigger] l2[k]) by {
        if k < log.len() {
            assert(l2.take(k) =~= log.take(k));
        } else {
            assert(l2.take(k) =~= log);
        }
    }
}

/// The holder just after access `k` follows from the holder before it.
proof fn lemma_holder_step(log: Seq<Access>, k: int)
    requires
        0 <= k < log.len(),
    ensures
        holder_at(log, k + 1) == match log[k] {
            Access::Acquire(c) => Some(c),
            Access::Use(_) => holder_at(log, k),
            Access::Release(_) => None,
        },
{
    assert(log.take(k + 1).drop_last() =~= log.take(k));
    assert(log.take(k + 1).last() == log[k]);
}

/// Once call `a` holds the connection after access `i`, it still holds it
/// before access `m` unless it released it in between.
proof fn lemma_held_until_release(log: Seq<Access>, a: u64, i: int, m: int)
    requires
        disciplined(log),
        0 <= i < m <= log.len(),
        holder_at(log, i + 1) == Some(a),
        forall|k: int| i < k < m ==> log[k] != Access::Release(a),
    ensures
        holder_at(log, m) == Some(a),
    decreases m - i,
{
    if m > i + 1 {
        lemma_held_until_release(log, a, i, m - 1);
        lemma_holder_step(log, m - 1);
        let x = log[m - 1];
        assert(allowed(holder_at(log, m - 1), x));
        assert(x != Access::Release(a));
        match x {
            Access::Acquire(_) => {},
            Access::Use(_) => {},
            Access::Release(c) => {
                assert(c == a);
            },
        }
    }
}

/// The daemon operations of two calls never interleave: when call `a` uses
/// the connection and a later access is a use by another call `b`, call
/// `a` released the connection in between, so its work was over before
/// `b`'s began.
pub proof fn lemma_no_interleaving(log: Seq<Access>, i: int, j: int, a: u64, b: u64)
    requires
        disciplined(log),
        0 <= i < j < log.len(),
        log[i] == Access::Use(a),
        log[j] == Access::Use(b),
        a != b,
    ensures
        exists|k: int| i < k < j && log[k] == Access::Release(a),
{
    if !(exists|k: int| i < k < j && log[k] == Access::Release(a)) {
        assert(allowed(holder_at(log, i), log[i]));
        lemma_holder_step(log, i);
        lemma_held_until_release(log, a, i, j);
        assert(allowed(holder_at(log, j), log[j]));
    }
}

/// The record of accesses to the shared daemon connection.
pub struct Ledger {
    holder: Option<u64>,
    log: Ghost<Seq<Access>>,
}

impl View for Ledger {
    type V = LedgerState;

    closed spec fn view(&self) -> LedgerState {
        LedgerState { holder: self.holder, log: self.log@ }
    }
}

impl Ledger {
    /// A ledger with no access yet: nobody holds the connection.
    pub fn new() -> (l: Ledger)
        ensures
            l@.holder is None,
            l@.log.len() == 0,
            consistent(l@),
    {
        Ledger { holder: None, log: Ghost(Seq::empty()) }
    }

    /// The call that holds the connection, if any.
    pub fn holder(&self) -> (h: Option<u64>)
        ensures
            h == self@.holder,
    {
        self.holder
    }

    /// Call `call` takes the connection, which nobody holds.
    pub fn acquire(&mut self, call: u64)
        requires
            consistent(old(self)@),
            old(self)@.holder is None,
        ensures
            consistent(final(self)@),
            final(self)@.holder == Some(call),
            final(self)@.log == old(self)@.log.push(Access::Acquire(call)),
    {
        proof {
            lemma_push(self.log@, Access::Acquire(call));
        }
        self.holder = Some(call);
        self.log = Ghost(self.log@.push(Access::Acquire(call)));
    }

    /// Call `call`, which holds the connection, performs a daemon operation.
    pub fn record_use(&mut self, call: u64)
        requires
            consistent(old(self)@),
            old(self)@.holder == Some(call),
        ensures
            consistent(final(self)@),
            final(self)@.holder == Some(call),
            final(self)@.log == old(self)@.log.push(Access::Use(call)),
    {
        proof {
            lemma_push(self.log@, Access::Use(call));
        }
        self.log = Ghost(self.log@.push(Access::Use(call)));
    }

    /// Call `call`, which holds the connection, gives it up.
    pub fn release(&mut self, call: u64)
        requires
            consistent(old(self)@),
            old(self)@.holder == Some(call),
        ensures
            consistent(final(self)@),
            final(self)@.holder is None,
            final(self)@.log == old(self)@.log.push(Access::Release(call)),
    {
        proof {
            lemma_push(self.log@, Access::Release(call));
        }
        self.holder = None;
        self.log = Ghost(self.log@.push(Access::Release(call)));
    }
}

} // verus!
