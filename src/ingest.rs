//! The network ingest stage: raw chunks read from a socket go, unframed, into
//! the ingest queue. A chunk that does not fit is dropped; the socket is
//! never held back.

use crate::error::Error;
use crate::ring::{ByteQueue, QUEUE_CAPACITY};
use vstd::prelude::*;

verus! {

/// Writes the first `size` bytes of `buf` into the queue as one reservation.
/// Succeeds exactly when no write grant is open and the queue has room for
/// them, which it always has when they and the stored bytes fill at most
/// half the capacity. Otherwise `GrantInProgress` or `Busy`, and the queue
/// is unchanged.
pub fn enqueue_bytes(producer: &mut ByteQueue, buf: &[u8], size: usize) -> (r: Result<(), Error>)
    requires
        old(producer).wf(),
        size <= buf@.len(),
    ensures
        final(producer).wf(),
        old(producer)@.writing is Some ==> r == Err::<(), Error>(Error::GrantInProgress),
        old(producer)@.writing is None ==> (r is Ok <==> old(producer)@.can_reserve(size as nat)),
        old(producer)@.writing is None && r is Err ==> r == Err::<(), Error>(Error::Busy),
        old(producer)@.writing is None && size + old(producer)@.bytes.len() <= QUEUE_CAPACITY / 2 ==> r is Ok,
        size + old(producer)@.bytes.len() > QUEUE_CAPACITY ==> r is Err,
        r is Err ==> final(producer)@ == old(producer)@,
        r is Ok ==> final(producer)@ == old(producer)@.appended(buf@.take(size as int)),
{
    let grant = match producer.try_reserve_write(size) {
        Ok(g) => g,
        Err(e) => return Err(e),
    };
    let chunk = &buf[0..size];
    let ghost reserved = producer@.writing->0;
    let _ = producer.fill(&grant, 0, chunk);
    let ghost filled = producer@.writing->0;
    assert(filled =~= buf@.take(size as int));
    match producer.commit(grant, size) {
        Ok(()) => {
            assert(filled.take(size as int) =~= filled);
            assert(producer@ == old(producer)@.appended(buf@.take(size as int)));
            Ok(())
        },
        Err(_) => Err(Error::OutOfGrant),
    }
}

/// What a read from the connection's socket gave.
#[derive(Clone, Copy, Debug, PartialEq, Eq, Structural)]
pub enum SocketRead {
    /// This many bytes arrived in the read buffer; none means end of stream.
    Data(usize),
    /// The read timed out or the connection was reset.
    Failed,
}

/// What the ingest stage did with one socket read.
#[derive(Clone, Copy, Debug, PartialEq, Eq, Structural)]
pub enum IngestOutcome {
    /// The chunk went into the ingest queue.
    Stored,
    /// The ingest queue had no room; the chunk was dropped.
    Dropped,
    /// End of stream or a failed read: the connection is over and the
    /// stage goes back to waiting for a new one.
    Closed,
}

/// Handles one socket read into `buf`: a chunk goes into the queue whole
/// when the queue has room for it and is dropped whole otherwise; a read of
/// no bytes or a failed read ends the connection, leaving the queue
/// unchanged.
pub fn on_socket_read(queue: &mut ByteQueue, buf: &[u8], read: SocketRead) -> (r: IngestOutcome)
    requires
        old(queue).wf(),
        read matches SocketRead::Data(d) ==> d <= buf@.len(),
    ensures
        final(queue).wf(),
        r == IngestOutcome::Closed <==> (read == SocketRead::Failed || read == SocketRead::Data(0)),
        r != IngestOutcome::Stored ==> final(queue)@ == old(queue)@,
        read matches SocketRead::Data(d) ==> (d > 0 ==> (r == IngestOutcome::Stored <==> old(queue)@.can_reserve(d as nat))),
        read matches SocketRead::Data(d) && d > 0 && old(queue)@.writing is None
            && d + old(queue)@.bytes.len() <= QUEUE_CAPACITY / 2 ==> r == IngestOutcome::Stored,
        r == IngestOutcome::Stored ==> (read matches SocketRead::Data(d) && final(queue)@ == old(queue)@.appended(
            buf@.take(d as int),
        )),
{
    match read {
        SocketRead::Data(d) => {
            if d == 0 {
                return IngestOutcome::Closed;
            }
            match enqueue_bytes(queue, buf, d) {
                Ok(()) => IngestOutcome::Stored,
                Err(_) => IngestOutcome::Dropped,
            }
        },
        SocketRead::Failed => IngestOutcome::Closed,
    }
}

} // verus!
