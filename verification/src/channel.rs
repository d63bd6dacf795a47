//! Handing values to another thread without waiting.

use vstd::prelude::*;

verus! {

/// `flume::Sender`, the sending end of a channel between threads. Nothing is
/// known of what is inside.
#[verifier::external_type_specification]
#[verifier::external_body]
#[verifier::reject_recursive_types(T)]
pub struct ExSender<T>(flume::Sender<T>);

/// How an attempt to hand a value over ended.
#[derive(Debug, PartialEq, Eq, Structural, Clone, Copy)]
pub enum SendOutcome {
    /// The value is in the channel.
    Sent,
    /// The channel holds as many values as it can; the value is lost.
    Full,
    /// Nobody receives from the channel any more; the value is lost.
    Disconnected,
}

/// Tries to put a value into a channel with `flume::Sender::try_send`, which
/// never waits. Which of the three outcomes comes back depends on what the
/// other threads have done; nothing more is claimed.
#[verifier::external_body]
pub(crate) fn try_send<T>(sender: &flume::Sender<T>, value: T) -> (outcome: SendOutcome) {
    match sender.try_send(value) {
        Ok(()) => SendOutcome::Sent,
        Err(flume::TrySendError::Full(_)) => SendOutcome::Full,
        Err(flume::TrySendError::Disconnected(_)) => SendOutcome::Disconnected,
    }
}

/// Whether a loop that feeds a channel goes on.
#[derive(Debug, PartialEq, Eq, Structural, Clone, Copy)]
pub enum LoopControl {
    Continue,
    Exit,
}

/// What has become of the values offered to a channel.
#[derive(Debug, PartialEq, Eq, Structural, Clone, Copy)]
pub struct SendStats {
    /// Values that went into the channel.
    pub delivered: u64,
    /// Values that were lost because the channel was full.
    pub dropped: u64,
}

/// A count raised by one, staying at the largest number once it is reached.
pub open spec fn counted(n: u64) -> u64 {
    if n < u64::MAX {
        (n + 1) as u64
    } else {
        n
    }
}

/// The counts after an attempt that ended with `outcome`.
pub open spec fn stats_after(stats: SendStats, outcome: SendOutcome) -> SendStats {
    match outcome {
        SendOutcome::Sent => SendStats { delivered: counted(stats.delivered), ..stats },
        SendOutcome::Full => SendStats { dropped: counted(stats.dropped), ..stats },
        SendOutcome::Disconnected => stats,
    }
}

/// Whether the feeding loop goes on after an attempt that ended with
/// `outcome`: it ends only when nobody receives any more.
pub open spec fn control_after(outcome: SendOutcome) -> LoopControl {
    match outcome {
        SendOutcome::Disconnected => LoopControl::Exit,
        _ => LoopControl::Continue,
    }
}

/// A value that meets a full channel is never waited for: the loop goes on,
/// what was delivered before stays delivered, and the drop shows in the
/// count of dropped values for as long as that count can grow.
pub proof fn lemma_drop_is_counted(stats: SendStats)
    ensures
        control_after(SendOutcome::Full) == LoopControl::Continue,
        stats_after(stats, SendOutcome::Full).delivered == stats.delivered,
        stats.dropped < u64::MAX ==> stats_after(stats, SendOutcome::Full).dropped
            == stats.dropped + 1,
        stats_after(stats, SendOutcome::Sent).dropped == stats.dropped,
        stats.delivered < u64::MAX ==> stats_after(stats, SendOutcome::Sent).delivered
            == stats.delivered + 1,
{
}

impl SendStats {
    /// Nothing offered yet.
    pub fn new() -> (stats: Self)
        ensures
            stats.delivered == 0,
            stats.dropped == 0,
    {
        Self { delivered: 0, dropped: 0 }
    }
}

/// Books the outcome of an attempt and decides whether the loop goes on. A
/// value that met a full channel is counted as dropped and the loop goes on;
/// the loop ends only when nobody receives any more.
pub fn after_send(outcome: SendOutcome, stats: &mut SendStats) -> (control: LoopControl)
    ensures
        *final(stats) == stats_after(*old(stats), outcome),
        control == control_after(outcome),
{
    match outcome {
        SendOutcome::Sent => {
            if stats.delivered < u64::MAX {
                stats.delivered = stats.delivered + 1;
            }
            LoopControl::Continue
        },
        SendOutcome::Full => {
            if stats.dropped < u64::MAX {
                stats.dropped = stats.dropped + 1;
            }
            LoopControl::Continue
        },
        SendOutcome::Disconnected => LoopControl::Exit,
    }
}

/// Offers a value to a channel without waiting, books the outcome and
/// decides whether the loop goes on. Whatever the channel answers, the counts
/// and the decision are those of one of the three outcomes.
pub fn offer<T>(sender: &flume::Sender<T>, value: T, stats: &mut SendStats) -> (control:
    LoopControl)
    ensures
        exists|outcome: SendOutcome|
            *final(stats) == #[trigger] stats_after(*old(stats), outcome) && control
                == control_after(outcome),
{
    let outcome = try_send(sender, value);
    let control = after_send(outcome, stats);
    assert(*stats == stats_after(*old(stats), outcome));
    control
}

} // verus!
