//! Bounded single-producer/single-consumer byte queue with grant/commit
//! writes and grant/release reads, backed by a `bbqueue` buffer.
//!
//! The model follows the buffer's own bookkeeping: a read cursor, a write
//! cursor, the `last` mark that ends the readable run once the writer has
//! wrapped to the front, and the end of the open reservation. Which
//! reservations succeed, and how long a read grant is, are fixed by these.

use bbqueue::{BBBuffer, Consumer, GrantR, GrantW, Producer};
use crate::error::Error;
use vstd::prelude::*;

verus! {

/// Capacity in bytes of every queue of the pipeline.
pub const QUEUE_CAPACITY: usize = 10240;

/// The bbqueue buffer behind one queue: its producer and consumer halves and
/// the grants currently open on it.
#[verifier::external_body]
pub struct RingStore {
    producer: Producer<'static, QUEUE_CAPACITY>,
    consumer: Consumer<'static, QUEUE_CAPACITY>,
    write_grant: Option<GrantW<'static, QUEUE_CAPACITY>>,
    read_grant: Option<GrantR<'static, QUEUE_CAPACITY>>,
}

/// The committed bytes of the store that the consumer has not yet released,
/// oldest first.
pub uninterp spec fn stored_bytes(s: RingStore) -> Seq<u8>;

/// The contents of the open write grant, if any.
pub uninterp spec fn open_write(s: RingStore) -> Option<Seq<u8>>;

/// The length of the open read grant, if any.
pub uninterp spec fn open_read(s: RingStore) -> Option<nat>;

/// The store's cursors: read, write, last, and the end of the reservation.
pub uninterp spec fn cursors(s: RingStore) -> (nat, nat, nat, nat);

/// Where a reservation of `n` bytes starts, if the buffer grants it: after
/// the write cursor when the bytes fit there (before the read cursor once
/// the writer has wrapped), else at the front when they fit before the read
/// cursor.
pub open spec fn grant_start(read: nat, write: nat, n: nat) -> Option<nat> {
    if write < read {
        if write + n < read {
            Some(write)
        } else {
            None
        }
    } else if write + n <= QUEUE_CAPACITY {
        Some(write)
    } else if n < read {
        Some(0)
    } else {
        None
    }
}

/// The `last` mark after a commit moves the write cursor to `new_write`:
/// set to the old write cursor when the commit wrapped, reset to the
/// capacity when the writer passes it.
pub open spec fn last_after_commit(write: nat, last: nat, new_write: nat) -> nat {
    if new_write < write && write != QUEUE_CAPACITY {
        write
    } else if new_write > last {
        QUEUE_CAPACITY as nat
    } else {
        last
    }
}

/// Where reading resumes: at the front once the reader has reached `last`
/// behind a wrapped writer.
pub open spec fn read_start(read: nat, write: nat, last: nat) -> nat {
    if read == last && write < read {
        0
    } else {
        read
    }
}

/// Length of the contiguous committed run from `read`: up to `last` behind
/// a wrapped writer, else up to the write cursor.
pub open spec fn run_from(read: nat, write: nat, last: nat) -> nat {
    if write < read {
        (last - read) as nat
    } else {
        (write - read) as nat
    }
}

impl RingStore {
    /// Relies on `BBBuffer::new` and `BBBuffer::try_split`: a fresh buffer
    /// splits once into its two halves, holds no bytes and has all cursors
    /// at zero. The buffer lives for the rest of the process.
    #[verifier::external_body]
    fn create() -> (r: RingStore)
        ensures
            stored_bytes(r) == Seq::<u8>::empty(),
            open_write(r) is None,
            open_read(r) is None,
            cursors(r) == (0nat, 0nat, 0nat, 0nat),
    {
        let buffer: &'static BBBuffer<QUEUE_CAPACITY> = Box::leak(Box::new(BBBuffer::new()));
        let (producer, consumer) = buffer.try_split().unwrap();
        RingStore { producer, consumer, write_grant: None, read_grant: None }
    }

    /// Relies on `Producer::grant_exact`: the grant is handed out exactly
    /// when `grant_start` finds room, and then reserves up to its start plus
    /// `n`; a refusal changes nothing.
    #[verifier::external_body]
    fn grant_exact(&mut self, n: usize) -> (r: bool)
        requires
            open_write(*old(self)) is None,
            n <= QUEUE_CAPACITY,
        ensures
            stored_bytes(*final(self)) == stored_bytes(*old(self)),
            open_read(*final(self)) == open_read(*old(self)),
            r == grant_start(cursors(*old(self)).0, cursors(*old(self)).1, n as nat) is Some,
            r ==> open_write(*final(self)) is Some && open_write(*final(self))->0.len() == n,
            r ==> cursors(*final(self)) == (
                cursors(*old(self)).0,
                cursors(*old(self)).1,
                cursors(*old(self)).2,
                (grant_start(cursors(*old(self)).0, cursors(*old(self)).1, n as nat)->0 + n) as nat,
            ),
            !r ==> open_write(*final(self)) is None && cursors(*final(self)) == cursors(*old(self)),
    {
        match self.producer.grant_exact(n) {
            Ok(grant) => {
                self.write_grant = Some(grant);
                true
            },
            Err(_) => false,
        }
    }

    /// Relies on `GrantW::buf`: the grant's bytes `start..end` become `data`.
    #[verifier::external_body]
    fn write_granted(&mut self, start: usize, end: usize, data: &[u8])
        requires
            open_write(*old(self)) is Some,
            start <= end <= open_write(*old(self))->0.len(),
            end - start == data@.len(),
        ensures
            stored_bytes(*final(self)) == stored_bytes(*old(self)),
            open_read(*final(self)) == open_read(*old(self)),
            cursors(*final(self)) == cursors(*old(self)),
            open_write(*final(self)) == Some(
                open_write(*old(self))->0.subrange(0, start as int) + data@
                    + open_write(*old(self))->0.subrange(end as int, open_write(*old(self))->0.len() as int),
            ),
    {
        self.write_grant.as_mut().unwrap().buf()[start..end].copy_from_slice(data);
    }

    /// Relies on `GrantW::commit`: the first `used` bytes of the grant join
    /// the end of the stored bytes, the write cursor and the reservation end
    /// move to the grant's start plus `used`, `last` follows
    /// `last_after_commit`, and the grant closes.
    #[verifier::external_body]
    fn commit(&mut self, used: usize)
        requires
            open_write(*old(self)) is Some,
            used <= open_write(*old(self))->0.len(),
        ensures
            stored_bytes(*final(self)) == stored_bytes(*old(self)) + open_write(*old(self))->0.take(used as int),
            open_read(*final(self)) == open_read(*old(self)),
            open_write(*final(self)) is None,
            ({
                let (rd, wr, ls, rs) = cursors(*old(self));
                let nw = (rs - open_write(*old(self))->0.len() + used) as nat;
                cursors(*final(self)) == (rd, nw, last_after_commit(wr, ls, nw), nw)
            }),
    {
        self.write_grant.take().unwrap().commit(used);
    }

    /// Relies on `Consumer::read`: the read cursor first moves to
    /// `read_start`; the grant is the committed run from there, refused when
    /// that run is empty.
    #[verifier::external_body]
    fn read(&mut self) -> (r: Option<usize>)
        requires
            open_read(*old(self)) is None,
        ensures
            stored_bytes(*final(self)) == stored_bytes(*old(self)),
            open_write(*final(self)) == open_write(*old(self)),
            ({
                let (rd, wr, ls, rs) = cursors(*old(self));
                let start = read_start(rd, wr, ls);
                let k = run_from(start, wr, ls);
                &&& cursors(*final(self)) == (start, wr, ls, rs)
                &&& k > 0 ==> r == Some(k as usize) && open_read(*final(self)) == Some(k)
                &&& k == 0 ==> r is None && open_read(*final(self)) is None
            }),
    {
        match self.consumer.read() {
            Ok(grant) => {
                let len = grant.buf().len();
                self.read_grant = Some(grant);
                Some(len)
            },
            Err(_) => None,
        }
    }

    /// Relies on `GrantR::buf`: the grant shows the front of the stored bytes.
    #[verifier::external_body]
    fn granted(&self) -> (r: &[u8])
        requires
            open_read(*self) is Some,
        ensures
            r@ == stored_bytes(*self).take(open_read(*self)->0 as int),
    {
        self.read_grant.as_ref().unwrap().buf()
    }

    /// Relies on `GrantR::release`: the first `used` stored bytes leave the
    /// queue, the read cursor moves on by `used`, and the grant closes.
    #[verifier::external_body]
    fn release(&mut self, used: usize)
        requires
            open_read(*old(self)) is Some,
            used <= open_read(*old(self))->0,
        ensures
            stored_bytes(*final(self)) == stored_bytes(*old(self)).skip(used as int),
            open_write(*final(self)) == open_write(*old(self)),
            open_read(*final(self)) is None,
            ({
                let (rd, wr, ls, rs) = cursors(*old(self));
                cursors(*final(self)) == ((rd + used) as nat, wr, ls, rs)
            }),
    {
        self.read_grant.take().unwrap().release(used);
    }
}

} // verus!

verus! {

/// What a queue holds: the committed, unreleased bytes (oldest first), the
/// contents of the open write grant, the length of the open read grant, and
/// the buffer's cursors.
pub struct QueueView {
    pub bytes: Seq<u8>,
    pub writing: Option<Seq<u8>>,
    pub reading: Option<nat>,
    pub read: nat,
    pub write: nat,
    pub last: nat,
    pub reserve: nat,
}

impl QueueView {
    /// Where the next read grant starts.
    pub open spec fn run_start(self) -> nat {
        read_start(self.read, self.write, self.last)
    }

    /// Length of the next read grant; zero when nothing can be read.
    pub open spec fn run_len(self) -> nat {
        run_from(self.run_start(), self.write, self.last)
    }

    /// A reservation of `n` bytes would be granted.
    pub open spec fn can_reserve(self, n: nat) -> bool {
        &&& self.writing is None
        &&& n <= QUEUE_CAPACITY
        &&& grant_start(self.read, self.write, n) is Some
    }

    /// The queue after a reservation of `n` bytes whose contents are `b`.
    pub open spec fn reserved(self, n: nat, b: Seq<u8>) -> QueueView {
        QueueView { writing: Some(b), reserve: (grant_start(self.read, self.write, n)->0 + n) as nat, ..self }
    }

    /// The queue after committing `used` bytes of the open write grant.
    pub open spec fn committed(self, used: nat) -> QueueView {
        let b = self.writing->0;
        let nw = (self.reserve - b.len() + used) as nat;
        QueueView {
            bytes: self.bytes + b.take(used as int),
            writing: None,
            write: nw,
            last: last_after_commit(self.write, self.last, nw),
            reserve: nw,
            ..self
        }
    }

    /// The queue after `data` has been reserved, written and committed whole.
    pub open spec fn appended(self, data: Seq<u8>) -> QueueView {
        let nw = (grant_start(self.read, self.write, data.len())->0 + data.len()) as nat;
        QueueView {
            bytes: self.bytes + data,
            write: nw,
            last: last_after_commit(self.write, self.last, nw),
            reserve: nw,
            ..self
        }
    }

    /// The queue after a read grant was asked for.
    pub open spec fn opened(self) -> QueueView {
        QueueView {
            reading: if self.run_len() > 0 {
                Some(self.run_len())
            } else {
                None
            },
            read: self.run_start(),
            ..self
        }
    }

    /// The queue after releasing the first `k` bytes of the open read grant.
    pub open spec fn released(self, k: nat) -> QueueView {
        QueueView { bytes: self.bytes.skip(k as int), reading: None, read: (self.read + k) as nat, ..self }
    }
}

/// A reservation of `len` bytes for writing into a queue.
#[derive(Debug)]
pub struct WriteGrant {
    size: usize,
}

/// A view of the first `len` committed bytes of a queue.
#[derive(Debug)]
pub struct ReadGrant {
    size: usize,
}

impl View for WriteGrant {
    type V = nat;

    closed spec fn view(&self) -> nat {
        self.size as nat
    }
}

impl View for ReadGrant {
    type V = nat;

    closed spec fn view(&self) -> nat {
        self.size as nat
    }
}

impl WriteGrant {
    /// Number of bytes reserved.
    pub fn len(&self) -> (r: usize)
        ensures
            r == self@,
    {
        self.size
    }
}

impl ReadGrant {
    /// Number of committed bytes the grant exposes.
    pub fn len(&self) -> (r: usize)
        ensures
            r == self@,
    {
        self.size
    }
}

/// A fixed-capacity FIFO byte queue. Bytes are written through a write grant
/// and become visible to the reader when committed; they are read through a
/// read grant and leave the queue when released.
pub struct ByteQueue {
    store: RingStore,
    in_use: usize,
    writing: Option<usize>,
    reading: Option<usize>,
}

impl View for ByteQueue {
    type V = QueueView;

    closed spec fn view(&self) -> QueueView {
        let (rd, wr, ls, rs) = cursors(self.store);
        QueueView {
            bytes: stored_bytes(self.store),
            writing: open_write(self.store),
            reading: open_read(self.store),
            read: rd,
            write: wr,
            last: ls,
            reserve: rs,
        }
    }
}

/// An open reservation of `n` bytes from `start` lies in free space: after
/// the write cursor (before the read cursor once the writer has wrapped),
/// or, wrapped to the front, before the read cursor.
pub open spec fn grant_in_free_space(v: QueueView, start: nat, n: nat) -> bool {
    if start == v.write {
        if v.write < v.read {
            v.write + n < v.read
        } else {
            v.write + n <= QUEUE_CAPACITY
        }
    } else {
        start == 0 && v.read <= v.write && n < v.read && v.write + n > QUEUE_CAPACITY
    }
}

impl ByteQueue {
    /// The cursors lie in the buffer and account for the stored bytes; the
    /// open write grant lies in free space; the open read grant is a
    /// non-empty run from the read cursor; and the bookkeeping agrees.
    pub closed spec fn wf(&self) -> bool {
        let v = self@;
        &&& v.bytes.len() == self.in_use
        &&& v.read <= QUEUE_CAPACITY && v.write <= QUEUE_CAPACITY && v.last <= QUEUE_CAPACITY
        &&& v.read <= v.write ==> v.bytes.len() == v.write - v.read && v.write <= v.last
        &&& v.write < v.read ==> {
            &&& v.read <= v.last
            &&& v.bytes.len() == v.last - v.read + v.write
            &&& 2 * v.last > QUEUE_CAPACITY
        }
        &&& match v.writing {
            Some(b) => {
                &&& self.writing == Some(b.len() as usize)
                &&& v.reserve >= b.len()
                &&& grant_in_free_space(v, (v.reserve - b.len()) as nat, b.len())
            },
            None => self.writing is None && v.reserve == v.write,
        }
        &&& match v.reading {
            Some(k) => {
                &&& self.reading == Some(k as usize)
                &&& 0 < k
                &&& v.read + k <= if v.write < v.read {
                    v.last
                } else {
                    v.write
                }
            },
            None => self.reading is None,
        }
    }

    /// What a well-formed queue's view guarantees: the stored bytes and an
    /// open write grant fit in the capacity, an open read grant is a
    /// non-empty part of the stored bytes, a read grant is available exactly
    /// when bytes are stored, and a reservation that is granted fits, while
    /// one that fits in half the capacity is always granted.
    pub proof fn lemma_bounds(&self)
        requires
            self.wf(),
        ensures
            self@.bytes.len() <= QUEUE_CAPACITY,
            self@.writing matches Some(b) ==> self@.bytes.len() + b.len() <= QUEUE_CAPACITY,
            self@.reading matches Some(k) ==> 0 < k <= self@.bytes.len(),
            self@.run_len() <= self@.bytes.len(),
            self@.run_len() > 0 <==> self@.bytes.len() > 0,
            forall|n: nat| #[trigger] self@.can_reserve(n) ==> n + self@.bytes.len() <= QUEUE_CAPACITY,
            forall|n: nat|
                self@.writing is None && n + self@.bytes.len() <= QUEUE_CAPACITY / 2 ==> #[trigger] self@.can_reserve(n),
    {
    }

    /// An empty queue of `QUEUE_CAPACITY` bytes with no open grant.
    pub fn new() -> (q: ByteQueue)
        ensures
            q.wf(),
            q@ == (QueueView {
                bytes: Seq::<u8>::empty(),
                writing: None,
                reading: None,
                read: 0,
                write: 0,
                last: 0,
                reserve: 0,
            }),
    {
        ByteQueue { store: RingStore::create(), in_use: 0, writing: None, reading: None }
    }

    /// The queue's capacity in bytes.
    pub fn capacity(&self) -> (r: usize)
        ensures
            r == QUEUE_CAPACITY,
    {
        QUEUE_CAPACITY
    }

    /// Number of committed bytes not yet released.
    pub fn len(&self) -> (r: usize)
        requires
            self.wf(),
        ensures
            r == self@.bytes.len(),
    {
        self.in_use
    }

    /// Number of bytes that are neither stored nor reserved.
    pub fn free(&self) -> (r: usize)
        requires
            self.wf(),
        ensures
            r == QUEUE_CAPACITY - self@.bytes.len() - match self@.writing {
                Some(b) => b.len(),
                None => 0,
            },
    {
        proof {
            self.lemma_bounds();
        }
        match self.writing {
            Some(w) => QUEUE_CAPACITY - self.in_use - w,
            None => QUEUE_CAPACITY - self.in_use,
        }
    }

    /// Reserves `n` bytes for writing. Granted exactly when the buffer has
    /// room for them (`can_reserve`), which is always the case when the
    /// stored bytes and `n` fill at most half the capacity. Fails with
    /// `GrantInProgress` while a write grant is open and with `Busy` when
    /// there is no room; a failure leaves the queue unchanged.
    pub fn try_reserve_write(&mut self, n: usize) -> (r: Result<WriteGrant, Error>)
        requires
            old(self).wf(),
        ensures
            final(self).wf(),
            old(self)@.writing is Some ==> r == Err::<WriteGrant, Error>(Error::GrantInProgress),
            old(self)@.writing is None ==> (r is Ok <==> old(self)@.can_reserve(n as nat)),
            old(self)@.writing is None && r is Err ==> r == Err::<WriteGrant, Error>(Error::Busy),
            old(self)@.writing is None && n + old(self)@.bytes.len() <= QUEUE_CAPACITY / 2 ==> r is Ok,
            n + old(self)@.bytes.len() > QUEUE_CAPACITY ==> r is Err,
            r is Err ==> final(self)@ == old(self)@,
            r matches Ok(g) ==> {
                &&& g@ == n
                &&& final(self)@.writing is Some
                &&& final(self)@.writing->0.len() == n
                &&& final(self)@ == old(self)@.reserved(n as nat, final(self)@.writing->0)
            },
    {
        proof {
            self.lemma_bounds();
        }
        if self.writing.is_some() {
            return Err(Error::GrantInProgress);
        }
        if n > QUEUE_CAPACITY - self.in_use {
            return Err(Error::Busy);
        }
        if self.store.grant_exact(n) {
            self.writing = Some(n);
            Ok(WriteGrant { size: n })
        } else {
            Err(Error::Busy)
        }
    }

    /// Writes `data` into the open write grant at `offset`. Fails with
    /// `OutOfGrant`, changing nothing, unless `grant` is the open write grant
    /// and the range lies inside it.
    pub fn fill(&mut self, grant: &WriteGrant, offset: usize, data: &[u8]) -> (r: Result<(), Error>)
        requires
            old(self).wf(),
        ensures
            final(self).wf(),
            r is Ok <==> (old(self)@.writing matches Some(b) && b.len() == grant@ && offset + data@.len() <= b.len()),
            r is Err ==> r == Err::<(), Error>(Error::OutOfGrant) && final(self)@ == old(self)@,
            r is Ok ==> final(self)@ == (QueueView {
                writing: Some(
                    old(self)@.writing->0.subrange(0, offset as int) + data@
                        + old(self)@.writing->0.subrange(offset + data@.len(), grant@ as int),
                ),
                ..old(self)@
            }),
    {
        match self.writing {
            Some(w) => {
                if w != grant.size || offset > w || data.len() > w - offset {
                    return Err(Error::OutOfGrant);
                }
                let end = offset + data.len();
                self.store.write_granted(offset, end, data);
                Ok(())
            },
            None => Err(Error::OutOfGrant),
        }
    }

    /// Makes the first `used` bytes of the open write grant visible to the
    /// reader and closes the grant. Hands the grant back, changing nothing,
    /// unless it is the open write grant and `used` does not exceed it.
    pub fn commit(&mut self, grant: WriteGrant, used: usize) -> (r: Result<(), WriteGrant>)
        requires
            old(self).wf(),
        ensures
            final(self).wf(),
            r is Ok <==> (old(self)@.writing matches Some(b) && b.len() == grant@ && used <= grant@),
            r matches Err(g) ==> g@ == grant@ && final(self)@ == old(self)@,
            r is Ok ==> final(self)@ == old(self)@.committed(used as nat),
    {
        proof {
            self.lemma_bounds();
        }
        match self.writing {
            Some(w) => {
                if w != grant.size || used > w {
                    return Err(grant);
                }
                self.store.commit(used);
                self.in_use = self.in_use + used;
                self.writing = None;
                Ok(())
            },
            None => Err(grant),
        }
    }

    /// Opens a read grant on the contiguous committed run at the read
    /// cursor (`run_len` bytes). Fails with `Empty` exactly when nothing is
    /// committed, and with `GrantInProgress`, changing nothing, while a read
    /// grant is open.
    pub fn try_read(&mut self) -> (r: Result<ReadGrant, Error>)
        requires
            old(self).wf(),
        ensures
            final(self).wf(),
            old(self)@.reading is Some ==> r == Err::<ReadGrant, Error>(Error::GrantInProgress) && final(self)@ == old(self)@,
            old(self)@.reading is None ==> {
                &&& final(self)@ == old(self)@.opened()
                &&& r is Ok <==> old(self)@.bytes.len() > 0
                &&& r is Err ==> r == Err::<ReadGrant, Error>(Error::Empty)
                &&& r matches Ok(g) ==> g@ == old(self)@.run_len() && 0 < g@ <= old(self)@.bytes.len()
            },
    {
        proof {
            self.lemma_bounds();
        }
        if self.reading.is_some() {
            return Err(Error::GrantInProgress);
        }
        match self.store.read() {
            Some(k) => {
                self.reading = Some(k);
                Ok(ReadGrant { size: k })
            },
            None => Err(Error::Empty),
        }
    }

    /// The bytes of the open read grant, borrowed in place. `None` unless
    /// `grant` is the open read grant.
    pub fn run(&self, grant: &ReadGrant) -> (r: Option<&[u8]>)
        requires
            self.wf(),
        ensures
            r is Some <==> self@.reading == Some(grant@),
            r matches Some(s) ==> s@ == self@.bytes.take(grant@ as int),
    {
        match self.reading {
            Some(k) => {
                if k != grant.size {
                    return None;
                }
                Some(self.store.granted())
            },
            None => None,
        }
    }

    /// Byte `i` of the open read grant. `None` unless `grant` is the open
    /// read grant and `i` lies inside it.
    pub fn peek_byte(&self, grant: &ReadGrant, i: usize) -> (r: Option<u8>)
        requires
            self.wf(),
        ensures
            r is Some <==> (self@.reading == Some(grant@) && i < grant@),
            r matches Some(b) ==> b == self@.bytes[i as int],
    {
        proof {
            self.lemma_bounds();
        }
        match self.reading {
            Some(k) => {
                if k != grant.size || i >= k {
                    return None;
                }
                let run = self.store.granted();
                Some(run[i])
            },
            None => None,
        }
    }

    /// Copies bytes `start..end` of the open read grant. `None` unless
    /// `grant` is the open read grant and the range lies inside it.
    pub fn peek(&self, grant: &ReadGrant, start: usize, end: usize) -> (r: Option<Vec<u8>>)
        requires
            self.wf(),
        ensures
            r is Some <==> (self@.reading == Some(grant@) && start <= end <= grant@),
            r matches Some(v) ==> v@ == self@.bytes.subrange(start as int, end as int),
    {
        proof {
            self.lemma_bounds();
        }
        match self.reading {
            Some(k) => {
                if k != grant.size || start > end || end > k {
                    return None;
                }
                let run = self.store.granted();
                let mut out: Vec<u8> = Vec::new();
                let mut i: usize = start;
                while i < end
                    invariant
                        run@ == self@.bytes.take(k as int),
                        k <= self@.bytes.len(),
                        start <= i <= end <= k,
                        out@ == self@.bytes.subrange(start as int, i as int),
                    decreases end - i,
                {
                    out.push(run[i]);
                    assert(out@ =~= self@.bytes.subrange(start as int, i + 1));
                    i = i + 1;
                }
                Some(out)
            },
            None => None,
        }
    }

    /// Releases the first `k` bytes of the open read grant back to the
    /// producer and closes the grant. Hands the grant back, changing
    /// nothing, unless it is the open read grant and `k` does not exceed it.
    pub fn release(&mut self, grant: ReadGrant, k: usize) -> (r: Result<(), ReadGrant>)
        requires
            old(self).wf(),
        ensures
            final(self).wf(),
            r is Ok <==> (old(self)@.reading == Some(grant@) && k <= grant@),
            r matches Err(g) ==> g@ == grant@ && final(self)@ == old(self)@,
            r is Ok ==> final(self)@ == old(self)@.released(k as nat),
    {
        proof {
            self.lemma_bounds();
        }
        match self.reading {
            Some(n) => {
                if n != grant.size || k > n {
                    return Err(grant);
                }
                self.store.release(k);
                self.in_use = self.in_use - k;
                self.reading = None;
                Ok(())
            },
            None => Err(grant),
        }
    }
}

} // verus!
