//! The executor side: classifying what one attempt at running a command
//! reported, the bounded-backoff retry policy for transient connection
//! failures, and the pool of per-context sessions that remote execution
//! reuses.

use vstd::prelude::*;

use crate::errors::PkgError;
use crate::model::str_eq;

verus! {

/// How many times a failed connection is retried before the failure is
/// surfaced.
pub const MAX_CONNECT_RETRIES: u32 = 3;

/// The delay before the first retry; later retries wait proportionally
/// longer.
pub const RETRY_BASE_DELAY_MS: u64 = 100;

/// What a command run against a target produced: its exit status and its
/// captured output streams.
#[derive(Debug)]
pub struct ExecOutcome {
    pub exit_code: i32,
    pub stdout: String,
    pub stderr: String,
}

/// What one attempt at running a command reported back, before any
/// classification.
#[derive(Debug)]
pub enum AttemptOutcome {
    /// The command ran to completion, with whatever exit status.
    Completed(ExecOutcome),
    /// The host could not be reached.
    Unreachable,
    /// The host rejected the credentials.
    AuthRejected,
    /// The per-operation deadline elapsed.
    DeadlineElapsed,
}

impl AttemptOutcome {
    /// The failure class of an attempt, if it failed: transport failures
    /// map each to their own class, and a completed command failed exactly
    /// when its exit status is non-zero.
    pub open spec fn spec_class(&self) -> Option<PkgError> {
        match self {
            AttemptOutcome::Completed(out) => if out.exit_code == 0 {
                None
            } else {
                Some(PkgError::CommandFailed)
            },
            AttemptOutcome::Unreachable => Some(PkgError::ConnectionError),
            AttemptOutcome::AuthRejected => Some(PkgError::AuthenticationError),
            AttemptOutcome::DeadlineElapsed => Some(PkgError::TimeoutError),
        }
    }
}

/// Classifies one attempt: a completed command with exit status zero is
/// the success, handed back with its captured output; every failure is
/// surfaced under its own class, never silently swallowed.
pub fn judge_attempt(o: AttemptOutcome) -> (r: Result<ExecOutcome, PkgError>)
    ensures
        match r {
            Ok(out) => o.spec_class() is None && (o matches AttemptOutcome::Completed(c) && c
                == out),
            Err(e) => o.spec_class() == Some(e),
        },
{
    match o {
        AttemptOutcome::Completed(out) => {
            if out.exit_code == 0 {
                Ok(out)
            } else {
                Err(PkgError::CommandFailed)
            }
        },
        AttemptOutcome::Unreachable => Err(PkgError::ConnectionError),
        AttemptOutcome::AuthRejected => Err(PkgError::AuthenticationError),
        AttemptOutcome::DeadlineElapsed => Err(PkgError::TimeoutError),
    }
}

/// The delay before retrying after `attempt` failed attempts, or `None`
/// where the failure must be surfaced instead. Only transient connection
/// failures are retried, a bounded number of times, with a delay that
/// grows with each attempt; command failures, authentication failures and
/// timeouts are never retried.
pub fn retry_after(err: &PkgError, attempt: u32) -> (r: Option<u64>)
    ensures
        r is Some <==> (*err == PkgError::ConnectionError && attempt < MAX_CONNECT_RETRIES),
        r matches Some(d) ==> d == RETRY_BASE_DELAY_MS * ((attempt + 1) as u64),
{
    match err {
        PkgError::ConnectionError => {
            if attempt < MAX_CONNECT_RETRIES {
                Some(RETRY_BASE_DELAY_MS * ((attempt + 1) as u64))
            } else {
                None
            }
        },
        _ => None,
    }
}

/// The retry delay grows strictly from each attempt to the next: the
/// backoff increases until the retry budget is spent.
pub proof fn lemma_backoff_increases(a1: u32, a2: u32)
    requires
        a1 < a2 < MAX_CONNECT_RETRIES,
    ensures
        RETRY_BASE_DELAY_MS * ((a1 + 1) as u64) < RETRY_BASE_DELAY_MS * ((a2 + 1) as u64),
{
}

/// One pooled session: the context it serves and the handle of the live
/// connection, assigned by the caller that opened it.
#[derive(Debug)]
pub struct Session {
    pub context: String,
    pub id: u64,
}

/// The mathematical value of a [`Session`].
pub ghost struct SessionV {
    pub context: Seq<char>,
    pub id: u64,
}

impl View for Session {
    type V = SessionV;

    open spec fn view(&self) -> SessionV {
        SessionV { context: self.context@, id: self.id }
    }
}

/// Whether some session of `ss` serves the context named `n`.
pub open spec fn pool_contains(ss: Seq<SessionV>, n: Seq<char>) -> bool {
    exists|i: int| 0 <= i < ss.len() && ss[i].context == n
}

/// The handle of the first session at or after position `i` serving `n`,
/// if any.
pub open spec fn pool_lookup_from(ss: Seq<SessionV>, i: int, n: Seq<char>) -> Option<u64>
    decreases ss.len() - i,
{
    if i < 0 || i >= ss.len() {
        None::<u64>
    } else if ss[i].context == n {
        Some(ss[i].id)
    } else {
        pool_lookup_from(ss, i + 1, n)
    }
}

/// The handle of the session serving `n`, if any.
pub open spec fn pool_lookup(ss: Seq<SessionV>, n: Seq<char>) -> Option<u64> {
    pool_lookup_from(ss, 0, n)
}

/// `ss` with the first session serving `n` removed.
pub open spec fn pool_remove(ss: Seq<SessionV>, n: Seq<char>) -> Seq<SessionV>
    decreases ss.len(),
{
    if ss.len() == 0 {
        Seq::<SessionV>::empty()
    } else if ss[0].context == n {
        ss.skip(1)
    } else {
        seq![ss[0]] + pool_remove(ss.skip(1), n)
    }
}

/// The pool of live sessions, at most one per context: a context's session
/// is opened lazily on first use, reused by later commands, and torn down
/// on context deletion.
pub struct SessionPool {
    pub sessions: Vec<Session>,
}

impl View for SessionPool {
    type V = Seq<SessionV>;

    open spec fn view(&self) -> Seq<SessionV> {
        self.sessions@.map_values(|s: Session| s@)
    }
}

impl SessionPool {
    /// An empty pool.
    pub fn new() -> (r: Self)
        ensures
            r@ == Seq::<SessionV>::empty(),
    {
        SessionPool { sessions: Vec::new() }
    }

    /// The handle of the pooled session for context `n`, if one is live:
    /// a caller reuses it rather than opening a second stream to the same
    /// target.
    pub fn find(&self, n: &str) -> (r: Option<u64>)
        ensures
            r == pool_lookup(self@, n@),
            r is Some <==> pool_contains(self@, n@),
    {
        let ghost ss = self@;
        let mut i: usize = 0;
        while i < self.sessions.len()
            invariant
                0 <= i <= self.sessions.len(),
                ss == self@,
                ss.len() == self.sessions@.len(),
                forall|j: int| 0 <= j < ss.len() ==> ss[j] == self.sessions@[j]@,
                pool_lookup(ss, n@) == pool_lookup_from(ss, i as int, n@),
                forall|j: int| 0 <= j < i ==> ss[j].context != n@,
            decreases self.sessions.len() - i,
        {
            if str_eq(self.sessions[i].context.as_str(), n) {
                assert(pool_lookup_from(ss, i as int, n@) == Some(ss[i as int].id));
                assert(pool_contains(ss, n@));
                return Some(self.sessions[i].id);
            }
            assert(pool_lookup_from(ss, i as int, n@) == pool_lookup_from(ss, i as int + 1, n@));
            i += 1;
        }
        assert(pool_lookup_from(ss, i as int, n@) is None);
        assert(!pool_contains(ss, n@));
        None
    }

    /// Registers the session just opened for context `n`. A context that
    /// already holds a live session keeps it: nothing is registered and
    /// `false` is returned, so no two command streams interleave on one
    /// context.
    pub fn register(&mut self, n: &str, id: u64) -> (r: bool)
        ensures
            r == !pool_contains(old(self)@, n@),
            r ==> final(self)@ == old(self)@.push(SessionV { context: n@, id }),
            !r ==> final(self)@ == old(self)@,
    {
        match self.find(n) {
            Some(_) => false,
            None => {
                let ghost before = self@;
                self.sessions.push(Session { context: n.to_owned(), id });
                proof {
                    assert(self@ =~= before.push(SessionV { context: n@, id }));
                }
                true
            },
        }
    }

    /// Tears the session for context `n` out of the pool, if one is live;
    /// called on context deletion. Returns the handle the caller must
    /// close, if any.
    pub fn remove(&mut self, n: &str) -> (r: Option<u64>)
        ensures
            r == pool_lookup(old(self)@, n@),
            final(self)@ == pool_remove(old(self)@, n@),
            r is None ==> final(self)@ == old(self)@,
    {
        let ghost ss = self@;
        let mut i: usize = 0;
        while i < self.sessions.len()
            invariant
                0 <= i <= self.sessions.len(),
                ss == self@,
                ss == old(self)@,
                ss.len() == self.sessions@.len(),
                forall|j: int| 0 <= j < ss.len() ==> ss[j] == self.sessions@[j]@,
                pool_lookup(ss, n@) == pool_lookup_from(ss, i as int, n@),
                forall|j: int| 0 <= j < i ==> ss[j].context != n@,
            decreases self.sessions.len() - i,
        {
            if str_eq(self.sessions[i].context.as_str(), n) {
                assert(pool_lookup_from(ss, i as int, n@) == Some(ss[i as int].id));
                let id = self.sessions[i].id;
                let ghost before = self@;
                self.sessions.remove(i);
                proof {
                    lemma_pool_remove_at(before, n@, i as int);
                    assert(self@ =~= before.remove(i as int));
                }
                return Some(id);
            }
            assert(pool_lookup_from(ss, i as int, n@) == pool_lookup_from(ss, i as int + 1, n@));
            i += 1;
        }
        assert(pool_lookup_from(ss, i as int, n@) is None);
        proof {
            lemma_pool_remove_absent(ss, n@);
        }
        None
    }
}

/// Removing the first session for `n`, where it stands at position `i` and
/// no earlier one matches, is removing position `i`.
proof fn lemma_pool_remove_at(ss: Seq<SessionV>, n: Seq<char>, i: int)
    requires
        0 <= i < ss.len(),
        ss[i].context == n,
        forall|j: int| 0 <= j < i ==> ss[j].context != n,
    ensures
        pool_remove(ss, n) == ss.remove(i),
    decreases i,
{
    if i == 0 {
        assert(pool_remove(ss, n) == ss.skip(1));
        assert(ss.skip(1) =~= ss.remove(0));
    } else {
        lemma_pool_remove_at(ss.skip(1), n, i - 1);
        assert(pool_remove(ss, n) == seq![ss[0]] + pool_remove(ss.skip(1), n));
        assert(seq![ss[0]] + ss.skip(1).remove(i - 1) =~= ss.remove(i));
    }
}

/// Removing a session for a context that holds none changes nothing.
proof fn lemma_pool_remove_absent(ss: Seq<SessionV>, n: Seq<char>)
    requires
        forall|j: int| 0 <= j < ss.len() ==> ss[j].context != n,
    ensures
        pool_remove(ss, n) == ss,
    decreases ss.len(),
{
    if ss.len() > 0 {
        assert(forall|j: int|
            0 <= j < ss.skip(1).len() ==> ss.skip(1)[j] == ss[j + 1] && ss[j + 1].context != n);
        lemma_pool_remove_absent(ss.skip(1), n);
        assert(seq![ss[0]] + ss.skip(1) =~= ss);
    }
}

} // verus!
