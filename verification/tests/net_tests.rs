use minirt::interest::Interest;
use minirt::net::{
    park_recovers, read_step, retry_decision, write_all_sim, IoErrorKind, ReadStep, RetryStep,
    WriteAllOutcome, WriteAttempt,
};
use minirt::ready::Ready;

// write_all across retries: success means exactly the whole buffer was
// written, cumulatively.
#[test]
fn write_all_success_is_exact() {
    let attempts = vec![WriteAttempt::Wrote(4), WriteAttempt::Wrote(6)];
    assert_eq!(write_all_sim(10, &attempts), (WriteAllOutcome::Success, 10));
}

// An empty buffer succeeds without attempting anything.
#[test]
fn write_all_empty_buffer() {
    let attempts = vec![WriteAttempt::Failed(IoErrorKind::Other)];
    assert_eq!(write_all_sim(0, &attempts), (WriteAllOutcome::Success, 0));
}

// A zero-byte write of a non-empty remainder is the write-zero error;
// bytes already written stay counted, the rest are never attempted.
#[test]
fn write_all_zero_write_is_error() {
    let attempts = vec![
        WriteAttempt::Wrote(4),
        WriteAttempt::Wrote(0),
        WriteAttempt::Wrote(6),
    ];
    assert_eq!(
        write_all_sim(10, &attempts),
        (WriteAllOutcome::Failed(IoErrorKind::WriteZero), 4)
    );
}

// A real error stops the loop; no byte is double-written or dropped
// silently: the count says exactly how far it got.
#[test]
fn write_all_error_stops_short() {
    let attempts = vec![WriteAttempt::Wrote(3), WriteAttempt::Failed(IoErrorKind::Other)];
    assert_eq!(
        write_all_sim(10, &attempts),
        (WriteAllOutcome::Failed(IoErrorKind::Other), 3)
    );
}

// Running out of write outcomes before the buffer is consumed is starvation,
// not success.
#[test]
fn write_all_starved_run() {
    let attempts = vec![WriteAttempt::Wrote(2)];
    assert_eq!(write_all_sim(5, &attempts), (WriteAllOutcome::Starved, 2));
}

// A write call never consumes more than it was handed: an attempt
// covering the whole remainder finishes with exactly the buffer length.
#[test]
fn write_all_never_overshoots() {
    let attempts = vec![WriteAttempt::Wrote(5)];
    assert_eq!(write_all_sim(3, &attempts), (WriteAllOutcome::Success, 3));
}

// The read loop: reading zero bytes or filling the buffer finishes as-is,
// a strictly partial read finishes after dropping readiness, would-block
// retries, real errors surface.
#[test]
fn read_step_cases() {
    assert_eq!(read_step(8, &Ok(0)), ReadStep::Done(0));
    assert_eq!(read_step(8, &Ok(8)), ReadStep::Done(8));
    assert_eq!(read_step(8, &Ok(3)), ReadStep::DoneAfterClear(3));
    assert_eq!(
        read_step(8, &Err(IoErrorKind::WouldBlock)),
        ReadStep::RetryAfterClear
    );
    assert_eq!(
        read_step(8, &Err(IoErrorKind::Other)),
        ReadStep::Fail(IoErrorKind::Other)
    );
}

// The retry combinator returns everything except would-block, which
// clears and retries.
#[test]
fn retry_decision_cases() {
    assert_eq!(retry_decision(&Ok(1)), RetryStep::Return);
    assert_eq!(
        retry_decision(&Err(IoErrorKind::WouldBlock)),
        RetryStep::ClearAndRetry
    );
    assert_eq!(retry_decision(&Err(IoErrorKind::Other)), RetryStep::Return);
    assert_eq!(
        retry_decision(&Err(IoErrorKind::Interrupted)),
        RetryStep::Return
    );
}

// Only an interrupted system call lets the blocking poll retry as a no-op.
#[test]
fn park_recovers_only_from_interrupt() {
    assert!(park_recovers(IoErrorKind::Interrupted));
    assert!(!park_recovers(IoErrorKind::WouldBlock));
    assert!(!park_recovers(IoErrorKind::Other));
    assert!(!park_recovers(IoErrorKind::WriteZero));
}

// Readiness flag algebra: union, difference, and the closed halves
// counting as ready.
#[test]
fn ready_flag_algebra() {
    let r = Ready::readable_only();
    let w = Ready::writable_only();
    let both = r.union(w);
    assert!(both.is_readable() && both.is_writable());
    let back = both.difference(w);
    assert_eq!(back, r);
    assert!(Ready::empty().is_empty());
    assert!(!Ready::empty().is_readable());

    let closed = Ready {
        readable: false,
        writable: false,
        read_closed: true,
        write_closed: false,
    };
    assert!(closed.is_readable());
    assert!(closed.is_read_closed());
    assert!(!closed.is_writable());
    // clearing the plain readable flag cannot unset a closed read half
    assert!(closed.difference(Ready::readable_only()).is_readable());
}

// Interest values: direction tests, addition, and the readiness mask that
// satisfies an interest (a direction and its closed variant).
#[test]
fn interest_mask_and_add() {
    let read = Interest::readable();
    let write = Interest::writable();
    assert!(read.is_readable() && !read.is_writable());
    assert!(write.is_writable() && !write.is_readable());
    let both = read.add(write);
    assert!(both.is_readable() && both.is_writable());

    let mask = read.mask();
    assert!(mask.readable && mask.read_closed);
    assert!(!mask.writable && !mask.write_closed);
}
