use vstd::prelude::*;

verus! {

/// The error classes the I/O paths tell apart. A would-block outcome is
/// never surfaced to a caller: it always becomes a wait-and-retry. An
/// interrupted blocking poll is retried as a no-op. A zero-byte write of
/// a non-empty buffer is the write-zero error. Everything else is a real
/// I/O error, surfaced as it is.
#[derive(Clone, Copy, Debug, PartialEq, Eq, Structural)]
pub enum IoErrorKind {
    WouldBlock,
    Interrupted,
    WriteZero,
    Other,
}

/// Whether a failed blocking poll of the OS event queue is swallowed and
/// retried (an interrupted system call) rather than surfaced.
pub fn park_recovers(kind: IoErrorKind) -> (recovers: bool)
    ensures
        recovers == (kind is Interrupted),
{
    match kind {
        IoErrorKind::Interrupted => true,
        IoErrorKind::WouldBlock => false,
        IoErrorKind::WriteZero => false,
        IoErrorKind::Other => false,
    }
}

/// What the readiness-retry combinator does with one operation outcome.
#[derive(Clone, Copy, Debug, PartialEq, Eq, Structural)]
pub enum RetryStep {
    /// Success or a real error: hand the outcome to the caller as it is.
    Return,
    /// The operation would still block: consume the readiness just relied
    /// on and loop back to waiting.
    ClearAndRetry,
}

/// The decision at the heart of the retry combinator: wait for readiness,
/// attempt the operation, and only a would-block outcome clears the
/// consumed readiness and waits again; any other outcome is final.
pub fn retry_decision(outcome: &Result<u64, IoErrorKind>) -> (step: RetryStep)
    ensures
        step == (if outcome is Err && outcome->Err_0 is WouldBlock {
            RetryStep::ClearAndRetry
        } else {
            RetryStep::Return
        }),
{
    match outcome {
        Err(IoErrorKind::WouldBlock) => RetryStep::ClearAndRetry,
        _ => RetryStep::Return,
    }
}

/// What one step of the readiness-read loop does with one read outcome.
#[derive(Clone, Copy, Debug, PartialEq, Eq, Structural)]
pub enum ReadStep {
    /// Return this many bytes to the caller.
    Done(usize),
    /// Return this many bytes, after dropping readable readiness: a
    /// partial read shows the socket buffer has been drained.
    DoneAfterClear(usize),
    /// Drop readable readiness and wait for it again.
    RetryAfterClear,
    /// Surface this error.
    Fail(IoErrorKind),
}

/// Decide one step of the readiness-read loop from the buffer size and
/// one read call's outcome. A short read is valid completion of one read
/// call and is returned as-is, never retried; only a would-block outcome
/// loops. Reading zero bytes or exactly filling the buffer says nothing
/// about the socket buffer, so readiness is kept; a strictly partial
/// read drains it, so readiness is dropped on the way out.
pub fn read_step(buf_len: usize, outcome: &Result<usize, IoErrorKind>) -> (step: ReadStep)
    requires
        outcome is Ok ==> outcome->Ok_0 <= buf_len,
    ensures
        step == (match *outcome {
            Ok(n) => if n == 0 {
                ReadStep::Done(0usize)
            } else if n == buf_len {
                ReadStep::Done(n)
            } else {
                ReadStep::DoneAfterClear(n)
            },
            Err(e) => if e is WouldBlock {
                ReadStep::RetryAfterClear
            } else {
                ReadStep::Fail(e)
            },
        }),
{
    match outcome {
        Ok(n) => {
            if *n == 0 {
                ReadStep::Done(0)
            } else if *n == buf_len {
                ReadStep::Done(*n)
            } else {
                ReadStep::DoneAfterClear(*n)
            }
        },
        Err(e) => {
            match e {
                IoErrorKind::WouldBlock => ReadStep::RetryAfterClear,
                IoErrorKind::Interrupted => ReadStep::Fail(IoErrorKind::Interrupted),
                IoErrorKind::WriteZero => ReadStep::Fail(IoErrorKind::WriteZero),
                IoErrorKind::Other => ReadStep::Fail(IoErrorKind::Other),
            }
        },
    }
}

/// Outcome of one write attempt, as the `write_all` loop sees it.
#[derive(Clone, Copy, Debug, PartialEq, Eq, Structural)]
pub enum WriteAttempt {
    /// The write call consumed this many bytes.
    Wrote(usize),
    /// The write call failed with this error.
    Failed(IoErrorKind),
}

/// How a whole `write_all` ends.
#[derive(Clone, Copy, Debug, PartialEq, Eq, Structural)]
pub enum WriteAllOutcome {
    /// Every byte of the buffer was written.
    Success,
    /// A write attempt failed with this error (a zero-byte write of a
    /// non-empty remainder fails with the write-zero error); the bytes
    /// already written stay written, the rest were never attempted.
    Failed(IoErrorKind),
    /// The attempts ran out before the buffer was consumed.
    Starved,
}

/// What `write_all` does with a buffer of `remaining` bytes and a given
/// sequence of write outcomes: how it ends, and how many bytes it wrote
/// in total. Each successful attempt advances past the bytes it wrote;
/// a write call never consumes more than it was handed, so an attempt
/// covering the whole remainder finishes the job.
pub open spec fn write_all_spec(remaining: nat, attempts: Seq<WriteAttempt>) -> (
    WriteAllOutcome,
    nat,
)
    decreases attempts.len(),
{
    if remaining == 0 {
        (WriteAllOutcome::Success, 0)
    } else if attempts.len() == 0 {
        (WriteAllOutcome::Starved, 0)
    } else {
        match attempts[0] {
            WriteAttempt::Failed(e) => (WriteAllOutcome::Failed(e), 0),
            WriteAttempt::Wrote(n) => if n == 0 {
                (WriteAllOutcome::Failed(IoErrorKind::WriteZero), 0)
            } else if n >= remaining {
                (WriteAllOutcome::Success, remaining)
            } else {
                let rest = write_all_spec((remaining - n) as nat, attempts.remove(0));
                (rest.0, (n + rest.1) as nat)
            },
        }
    }
}

/// `write_all` accounting: it never writes more than the buffer holds,
/// and it succeeds exactly when it has written the whole buffer — an
/// error or starved run always stops strictly short, and bytes are never
/// written twice or dropped.
pub proof fn lemma_write_all_exact(remaining: nat, attempts: Seq<WriteAttempt>)
    ensures
        write_all_spec(remaining, attempts).1 <= remaining,
        write_all_spec(remaining, attempts).0 is Success <==> write_all_spec(
            remaining,
            attempts,
        ).1 == remaining,
    decreases attempts.len(),
{
    if remaining == 0 {
    } else if attempts.len() == 0 {
    } else {
        match attempts[0] {
            WriteAttempt::Failed(_) => {},
            WriteAttempt::Wrote(n) => {
                if 0 < n < remaining {
                    lemma_write_all_exact((remaining - n) as nat, attempts.remove(0));
                }
            },
        }
    }
}

/// Drive a whole `write_all` over a script of write outcomes: the
/// executable mirror of `write_all_spec`, returning how the run ends and
/// the total number of bytes written.
pub fn write_all_sim(len: usize, attempts: &Vec<WriteAttempt>) -> (r: (WriteAllOutcome, usize))
    ensures
        (r.0, r.1 as nat) == write_all_spec(len as nat, attempts@),
        r.1 <= len,
{
    let r = write_all_from(len, attempts, 0);
    proof {
        assert(attempts@.skip(0) =~= attempts@);
    }
    r
}

/// The tail of a `write_all` run: finish writing `remaining` bytes with
/// the attempts from position `from` on.
fn write_all_from(remaining: usize, attempts: &Vec<WriteAttempt>, from: usize) -> (r: (
    WriteAllOutcome,
    usize,
))
    requires
        from <= attempts.len(),
    ensures
        (r.0, r.1 as nat) == write_all_spec(remaining as nat, attempts@.skip(from as int)),
        r.1 <= remaining,
    decreases attempts.len() - from,
{
    let ghost script = attempts@.skip(from as int);
    if remaining == 0 {
        (WriteAllOutcome::Success, 0)
    } else if from == attempts.len() {
        proof {
            assert(script =~= Seq::<WriteAttempt>::empty());
        }
        (WriteAllOutcome::Starved, 0)
    } else {
        proof {
            assert(script[0] == attempts@[from as int]);
            assert(script.remove(0) =~= attempts@.skip(from as int + 1));
        }
        match attempts[from] {
            WriteAttempt::Failed(e) => (WriteAllOutcome::Failed(e), 0),
            WriteAttempt::Wrote(n) => {
                if n == 0 {
                    (WriteAllOutcome::Failed(IoErrorKind::WriteZero), 0)
                } else if n >= remaining {
                    (WriteAllOutcome::Success, remaining)
                } else {
                    let rest = write_all_from(remaining - n, attempts, from + 1);
                    (rest.0, n + rest.1)
                }
            },
        }
    }
}

} // verus!
