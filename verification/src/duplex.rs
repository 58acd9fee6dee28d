//! Bounded channels, and two of them joined into a two-way link.
use tokio::sync::mpsc::{Receiver, Sender};
use vstd::prelude::*;

verus! {

/// `tokio::sync::mpsc::Sender`, the sending half of a bounded channel. Nothing
/// is claimed of it.
#[verifier::external_type_specification]
#[verifier::external_body]
#[verifier::reject_recursive_types(T)]
pub struct ExSender<T>(tokio::sync::mpsc::Sender<T>);

/// `tokio::sync::mpsc::Receiver`, the receiving half of a bounded channel.
/// Nothing is claimed of it.
#[verifier::external_type_specification]
#[verifier::external_body]
#[verifier::reject_recursive_types(T)]
pub struct ExReceiver<T>(tokio::sync::mpsc::Receiver<T>);

/// The capacities that a bounded channel can have: at least one, and no more
/// than the largest number of permits of a semaphore.
pub open spec fn is_channel_capacity(buffer: usize) -> bool {
    0 < buffer <= usize::MAX / 8
}

/// `tokio::sync::mpsc::channel` makes the two halves of a channel that holds up
/// to `buffer` messages. It panics on a capacity of zero and on one above
/// `Semaphore::MAX_PERMITS`. That what goes into the first half comes out of
/// the second is not claimed here: contracts of callers say which two halves
/// one call returned.
pub assume_specification<T>[ tokio::sync::mpsc::channel::<T> ](buffer: usize) -> (r: (
    tokio::sync::mpsc::Sender<T>,
    tokio::sync::mpsc::Receiver<T>,
))
    requires
        is_channel_capacity(buffer),
;

/// `Sender::clone` makes another sending half of the same channel. That is not
/// claimed here: contracts of callers say which half was cloned.
pub assume_specification<T>[ <tokio::sync::mpsc::Sender<T> as Clone>::clone ](
    tx: &tokio::sync::mpsc::Sender<T>,
) -> (r: tokio::sync::mpsc::Sender<T>)
;

/// `tx` and `rx` are the two halves of one channel of capacity `buffer`: one
/// call of `tokio::sync::mpsc::channel` returned both.
pub open spec fn are_halves<T>(tx: Sender<T>, rx: Receiver<T>, buffer: usize) -> bool {
    call_ensures(tokio::sync::mpsc::channel::<T>, (buffer,), (tx, rx))
}

/// One end of a two-way link: it sends `T` and receives `Y`.
#[verifier::reject_recursive_types(T)]
#[verifier::reject_recursive_types(Y)]
pub struct Duplex<T, Y> {
    pub tx: Sender<T>,
    pub rx: Receiver<Y>,
}

impl<T, Y> Duplex<T, Y> {
    /// The two ends of a new link: what either sends, the other receives.
    pub fn pair(buffer: usize) -> (r: (Duplex<T, Y>, Duplex<Y, T>))
        requires
            is_channel_capacity(buffer),
        ensures
            are_halves(r.0.tx, r.1.rx, buffer),
            are_halves(r.1.tx, r.0.rx, buffer),
    {
        let (tx1, rx1) = tokio::sync::mpsc::channel(buffer);
        let (tx2, rx2) = tokio::sync::mpsc::channel(buffer);

        (Duplex { tx: tx1, rx: rx2 }, Duplex { tx: tx2, rx: rx1 })
    }
}

/// The two ends of a link are joined crosswise: each sends into a channel of the
/// given capacity that the other one receives from.
pub proof fn law_ends_are_joined_crosswise<T, Y>(
    buffer: usize,
    end1: Duplex<T, Y>,
    end2: Duplex<Y, T>,
)
    requires
        call_ensures(Duplex::<T, Y>::pair, (buffer,), (end1, end2)),
    ensures
        call_ensures(tokio::sync::mpsc::channel::<T>, (buffer,), (end1.tx, end2.rx)),
        call_ensures(tokio::sync::mpsc::channel::<Y>, (buffer,), (end2.tx, end1.rx)),
{
}

} // verus!
