//! The driver-side half of a serial link.
//!
//! A link is serviced by a background worker that owns the physical port: the
//! worker drains an outbound queue to the wire and pushes each reassembled
//! inbound frame (see [`crate::framing`]) onto an inbound queue. This module
//! holds the driver-side endpoints of those two queues. `send` enqueues
//! without blocking; `receive` blocks until a frame arrives; both report a
//! closed link — a worker that has terminated — as a fatal error.

use vstd::prelude::*;

verus! {

#[verifier::external_type_specification]
#[verifier::external_body]
#[verifier::reject_recursive_types(T)]
pub struct ExReceiver<T>(std::sync::mpsc::Receiver<T>);

#[verifier::external_type_specification]
#[verifier::external_body]
#[verifier::reject_recursive_types(T)]
pub struct ExSender<T>(std::sync::mpsc::Sender<T>);

/// Failure of the underlying serial link: the background worker has
/// terminated (after an I/O error or because its port was dropped), so no
/// more data can move. Fatal; the link is not reopened.
#[derive(Clone, Copy, Debug, PartialEq, Eq, Structural)]
pub enum LinkError {
    Closed,
}

/// One non-blocking look at the inbound queue.
pub(crate) enum Polled {
    /// A complete frame had already arrived.
    Frame(Vec<u8>),
    /// Nothing has arrived since the last look.
    Empty,
    /// The worker has terminated; nothing more will arrive.
    Closed,
}

/// The driver-side endpoints of one serial link's two queues.
///
/// `read_tx` delivers inbound frames, already stripped of their terminator;
/// `write_rx` accepts outbound byte strings to be written to the wire
/// verbatim, in enqueue order.
pub struct SerialWrapper {
    pub read_tx: std::sync::mpsc::Receiver<Vec<u8>>,
    pub write_rx: std::sync::mpsc::Sender<Vec<u8>>,
}

impl SerialWrapper {
    /// Wraps the two queue endpoints handed over by the background worker's
    /// owner.
    pub fn new(
        read_tx: std::sync::mpsc::Receiver<Vec<u8>>,
        write_rx: std::sync::mpsc::Sender<Vec<u8>>,
    ) -> Self {
        SerialWrapper { read_tx, write_rx }
    }

    /// Enqueues `frame` for transmission without blocking.
    ///
    /// Relies on `std::sync::mpsc::Sender::send`, which fails exactly when
    /// the receiving end has been dropped.
    #[verifier::external_body]
    pub(crate) fn send(&self, frame: Vec<u8>) -> (r: Result<(), LinkError>) {
        self.write_rx.send(frame).map_err(|_| LinkError::Closed)
    }

    /// Blocks until the next inbound frame arrives.
    ///
    /// Relies on `std::sync::mpsc::Receiver::recv`, which fails exactly when
    /// the sending end has been dropped and the queue is empty.
    #[verifier::external_body]
    pub(crate) fn receive(&self) -> (r: Result<Vec<u8>, LinkError>) {
        self.read_tx.recv().map_err(|_| LinkError::Closed)
    }

    /// Returns one already-arrived inbound frame, if any, without waiting.
    ///
    /// Relies on `std::sync::mpsc::Receiver::try_recv`: `Empty` when the
    /// queue holds nothing now, `Disconnected` when the worker is gone.
    #[verifier::external_body]
    pub(crate) fn poll(&self) -> (r: Polled) {
        match self.read_tx.try_recv() {
            Ok(frame) => Polled::Frame(frame),
            Err(std::sync::mpsc::TryRecvError::Empty) => Polled::Empty,
            Err(std::sync::mpsc::TryRecvError::Disconnected) => Polled::Closed,
        }
    }
}

/// Byte-for-byte equality of two byte strings.
pub fn bytes_eq(a: &[u8], b: &[u8]) -> (r: bool)
    ensures
        r <==> a@ == b@,
{
    if a.len() != b.len() {
        proof {
            assert(a@.len() != b@.len());
        }
        return false;
    }
    let n = a.len();
    let mut k: usize = 0;
    while k < n
        invariant
            k <= n,
            n == a@.len() && n == b@.len(),
            forall|j: int| 0 <= j < k ==> a@[j] == b@[j],
        decreases n - k,
    {
        if a[k] != b[k] {
            return false;
        }
        k = k + 1;
    }
    proof {
        assert(a@ =~= b@);
    }
    true
}

/// A fresh vector holding exactly the bytes of `s`.
pub fn copy_bytes(s: &[u8]) -> (r: Vec<u8>)
    ensures
        r@ == s@,
{
    let n = s.len();
    let mut r: Vec<u8> = Vec::new();
    let mut k: usize = 0;
    while k < n
        invariant
            k <= n,
            n == s@.len(),
            r@ == s@.take(k as int),
        decreases n - k,
    {
        r.push(s[k]);
        k = k + 1;
        proof {
            assert(r@ =~= s@.take(k as int));
        }
    }
    proof {
        assert(s@.take(n as int) =~= s@);
    }
    r
}

} // verus!
