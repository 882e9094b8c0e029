//! The two sides of a `fork` wait for each other.
//!
//! Two pipes are made before the fork: one carries a status byte from the child to the parent,
//! the other one from the parent to the child. Each side either reports a failure, or reports
//! that it is ready and waits until the other one is. A side that ends early closes its pipes,
//! and the other one sees that and gives up.

use vstd::prelude::*;

use crate::shared::{EALREADY, EBADF, EINTR, EIO, EPIPE, EPROTO};

verus! {

/// The status of a side that is ready.
pub const STATUS_READY: u8 = 1;

/// The status of a side that failed.
pub const STATUS_FAILED: u8 = 2;

/// What the wait for the other side came to.
#[derive(Debug, Clone, Copy, PartialEq, Eq, Structural)]
pub enum SyncDecision {
    /// The other side is ready.
    Continue,
    /// The other side failed or is gone.
    Abort,
}

/// The descriptors of both pipes.
#[derive(Debug)]
pub struct ForkSync {
    child_write: i32,
    child_read: i32,
    parent_write: i32,
    parent_read: i32,
}

/// What a `ForkSync` holds.
pub struct SyncView {
    /// Where the child writes.
    pub child_write: i32,
    /// Where the child reads.
    pub child_read: i32,
    /// Where the parent writes.
    pub parent_write: i32,
    /// Where the parent reads.
    pub parent_read: i32,
}

impl View for ForkSync {
    type V = SyncView;

    closed spec fn view(&self) -> SyncView {
        SyncView {
            child_write: self.child_write,
            child_read: self.child_read,
            parent_write: self.parent_write,
            parent_read: self.parent_read,
        }
    }
}

/// One side of the barrier.
#[derive(Debug)]
pub struct ForkEndpoint {
    write: Option<i32>,
    read: Option<i32>,
    status_sent: bool,
}

/// What a `ForkEndpoint` holds.
pub struct EndpointView {
    /// Where to write, as long as it is open.
    pub write: Option<i32>,
    /// Where to read, as long as it is open.
    pub read: Option<i32>,
    /// The status was sent.
    pub status_sent: bool,
}

impl View for ForkEndpoint {
    type V = EndpointView;

    closed spec fn view(&self) -> EndpointView {
        EndpointView { write: self.write, read: self.read, status_sent: self.status_sent }
    }
}

/// The side of the child, and the descriptors that it closes.
pub open spec fn child_side(s: SyncView) -> (EndpointView, Seq<i32>) {
    (
        EndpointView { write: Some(s.child_write), read: Some(s.child_read), status_sent: false },
        seq![s.parent_read, s.parent_write],
    )
}

/// The side of the parent, and the descriptors that it closes.
pub open spec fn parent_side(s: SyncView) -> (EndpointView, Seq<i32>) {
    (
        EndpointView {
            write: Some(s.parent_write),
            read: Some(s.parent_read),
            status_sent: false,
        },
        seq![s.child_write, s.child_read],
    )
}

impl ForkSync {
    /// The pair over two pipes, each given by the end to read and the end to write. The first
    /// one leads from the child to the parent.
    pub fn new(to_parent: (i32, i32), to_child: (i32, i32)) -> (r: Self)
        ensures
            r@ == (SyncView {
                child_write: to_parent.1,
                child_read: to_child.0,
                parent_write: to_child.1,
                parent_read: to_parent.0,
            }),
    {
        ForkSync {
            child_write: to_parent.1,
            child_read: to_child.0,
            parent_write: to_child.1,
            parent_read: to_parent.0,
        }
    }

    /// The side of the child, and the descriptors that it has to close.
    pub fn into_child(self) -> (r: (ForkEndpoint, Vec<i32>))
        ensures
            r.0@ == child_side(self@).0,
            r.1@ == child_side(self@).1,
    {
        let endpoint = ForkEndpoint {
            write: Some(self.child_write),
            read: Some(self.child_read),
            status_sent: false,
        };
        (endpoint, vec![self.parent_read, self.parent_write])
    }

    /// The side of the parent, and the descriptors that it has to close.
    pub fn into_parent(self) -> (r: (ForkEndpoint, Vec<i32>))
        ensures
            r.0@ == parent_side(self@).0,
            r.1@ == parent_side(self@).1,
    {
        let endpoint = ForkEndpoint {
            write: Some(self.parent_write),
            read: Some(self.parent_read),
            status_sent: false,
        };
        (endpoint, vec![self.child_write, self.child_read])
    }
}

/// How one transfer of a byte goes on.
#[derive(Debug, Clone, Copy, PartialEq, Eq, Structural)]
pub enum Transfer {
    /// It is done.
    Done,
    /// It was interrupted and is tried again.
    Again,
    /// The other side is gone.
    Closed,
    /// It failed with this error number.
    Fail(i32),
}

/// What the result of writing one byte means. A broken pipe means that the other side is gone.
pub open spec fn written(result: Result<usize, i32>) -> Transfer {
    match result {
        Ok(n) => if n == 1 {
            Transfer::Done
        } else {
            Transfer::Fail(EIO)
        },
        Err(e) => if e == EINTR {
            Transfer::Again
        } else if e == EPIPE {
            Transfer::Closed
        } else {
            Transfer::Fail(e)
        },
    }
}

/// What the result of writing one byte means.
pub fn write_byte(result: Result<usize, i32>) -> (r: Transfer)
    ensures
        r == written(result),
{
    match result {
        Ok(1) => Transfer::Done,
        Ok(_) => Transfer::Fail(EIO),
        Err(e) => {
            if e == EINTR {
                Transfer::Again
            } else if e == EPIPE {
                Transfer::Closed
            } else {
                Transfer::Fail(e)
            }
        },
    }
}

/// What the result of reading one byte means. A read of nothing, the end of the pipe, is done
/// too.
pub fn read_byte(result: Result<usize, i32>) -> (r: Transfer)
    ensures
        r == (match result {
            Ok(n) => if n <= 1 {
                Transfer::Done
            } else {
                Transfer::Fail(EIO)
            },
            Err(e) => if e == EINTR {
                Transfer::Again
            } else {
                Transfer::Fail(e)
            },
        }),
{
    match result {
        Ok(0) => Transfer::Done,
        Ok(1) => Transfer::Done,
        Ok(_) => Transfer::Fail(EIO),
        Err(e) => {
            if e == EINTR {
                Transfer::Again
            } else {
                Transfer::Fail(e)
            }
        },
    }
}

/// What the byte of the other side means; `None` is the end of its pipe.
pub open spec fn decided(byte: Option<u8>) -> Result<SyncDecision, i32> {
    match byte {
        None => Ok(SyncDecision::Abort),
        Some(b) => if b == STATUS_READY {
            Ok(SyncDecision::Continue)
        } else if b == STATUS_FAILED {
            Ok(SyncDecision::Abort)
        } else {
            Err(EPROTO)
        },
    }
}

/// Where a status goes: to an endpoint that has not sent one yet and is still open.
pub open spec fn send_target(e: EndpointView) -> Result<i32, i32> {
    if e.status_sent {
        Err(EALREADY)
    } else {
        match e.write {
            None => Err(EBADF),
            Some(fd) => Ok(fd),
        }
    }
}

impl ForkEndpoint {
    /// The descriptor and the status byte to write to it, to report that this side is ready.
    pub fn report_ready(&self) -> (r: Result<(i32, u8), i32>)
        ensures
            match send_target(self@) {
                Ok(fd) => r == Ok::<(i32, u8), i32>((fd, STATUS_READY)),
                Err(e) => r == Err::<(i32, u8), i32>(e),
            },
    {
        match self.send_status() {
            Ok(fd) => Ok((fd, STATUS_READY)),
            Err(e) => Err(e),
        }
    }

    /// The descriptor and the status byte to write to it, to report that this side failed.
    pub fn report_failure(&self) -> (r: Result<(i32, u8), i32>)
        ensures
            match send_target(self@) {
                Ok(fd) => r == Ok::<(i32, u8), i32>((fd, STATUS_FAILED)),
                Err(e) => r == Err::<(i32, u8), i32>(e),
            },
    {
        match self.send_status() {
            Ok(fd) => Ok((fd, STATUS_FAILED)),
            Err(e) => Err(e),
        }
    }

    /// The descriptor to send a status to.
    pub fn send_status(&self) -> (r: Result<i32, i32>)
        ensures
            r == send_target(self@),
    {
        if self.status_sent {
            return Err(EALREADY);
        }
        match self.write {
            None => Err(EBADF),
            Some(fd) => Ok(fd),
        }
    }

    /// Keeps that the status was sent. The descriptor that is returned has to be closed.
    pub fn status_sent(&mut self) -> (r: Option<i32>)
        ensures
            r == old(self)@.write,
            final(self)@ == (EndpointView { write: None, status_sent: true, ..old(self)@ }),
    {
        let fd = self.write;
        self.write = None;
        self.status_sent = true;
        fd
    }

    /// The descriptor to read the status of the other side from.
    pub fn wait_status(&self) -> (r: Result<i32, i32>)
        ensures
            r == (match self@.read {
                None => Err::<i32, i32>(EBADF),
                Some(fd) => Ok(fd),
            }),
    {
        match self.read {
            None => Err(EBADF),
            Some(fd) => Ok(fd),
        }
    }

    /// The decision that the status of the other side brings; `None` is the end of its pipe. A
    /// byte that is no status is a protocol error. With a decision the descriptor to read from
    /// is given up: it has to be closed.
    pub fn ready_and_wait(&mut self, byte: Option<u8>) -> (r: Result<SyncDecision, i32>)
        ensures
            r == decided(byte),
            final(self)@ == (if r is Ok {
                EndpointView { read: None, ..old(self)@ }
            } else {
                old(self)@
            }),
    {
        let decision = match byte {
            None => SyncDecision::Abort,
            Some(b) => {
                if b == STATUS_READY {
                    SyncDecision::Continue
                } else if b == STATUS_FAILED {
                    SyncDecision::Abort
                } else {
                    return Err(EPROTO);
                }
            },
        };
        self.read = None;
        Ok(decision)
    }

    /// The descriptors that are still open and have to be closed in the end.
    pub fn open_descriptors(&self) -> (r: Vec<i32>)
        ensures
            r@ == open_ends(self@),
    {
        let mut v: Vec<i32> = Vec::new();
        if let Some(fd) = self.write {
            v.push(fd);
        }
        if let Some(fd) = self.read {
            v.push(fd);
        }
        assert(v@ =~= open_ends(self@));
        v
    }
}

/// How a side that reports that it is ready goes on.
#[derive(Debug, Clone, Copy, PartialEq, Eq, Structural)]
pub enum ReadyStep {
    /// Write the status again.
    Write,
    /// The status was sent: read the one of the other side.
    Read,
    /// There is nothing to wait for.
    Decided(SyncDecision),
    /// It failed with this error number.
    Fail(i32),
}

/// How a side goes on after it wrote that it is ready. If the other side is gone, it gives up as
/// it does at the end of the pipe.
pub open spec fn ready_after(result: Result<usize, i32>) -> ReadyStep {
    match written(result) {
        Transfer::Done => ReadyStep::Read,
        Transfer::Again => ReadyStep::Write,
        Transfer::Closed => ReadyStep::Decided(SyncDecision::Abort),
        Transfer::Fail(e) => ReadyStep::Fail(e),
    }
}

/// How a side goes on after it wrote that it is ready.
pub fn ready_next(result: Result<usize, i32>) -> (r: ReadyStep)
    ensures
        r == ready_after(result),
{
    match write_byte(result) {
        Transfer::Done => ReadyStep::Read,
        Transfer::Again => ReadyStep::Write,
        Transfer::Closed => ReadyStep::Decided(SyncDecision::Abort),
        Transfer::Fail(e) => ReadyStep::Fail(e),
    }
}

/// A side whose peer is gone gives up without an error, whether it notices that when it writes
/// its own status or when it waits for the other one; and it goes on only if it could send its
/// status and the other side is ready.
pub proof fn law_gone_peer_aborts(result: Result<usize, i32>)
    ensures
        ready_after(Err(EPIPE)) == ReadyStep::Decided(SyncDecision::Abort),
        decided(None) == Ok::<SyncDecision, i32>(SyncDecision::Abort),
        ready_after(result) != ReadyStep::Decided(SyncDecision::Continue),
        ready_after(result) == ReadyStep::Read <==> result == Ok::<usize, i32>(1),
{
}

/// The descriptors that are still open.
pub open spec fn open_ends(e: EndpointView) -> Seq<i32> {
    (match e.write {
        Some(fd) => seq![fd],
        None => Seq::empty(),
    }) + (match e.read {
        Some(fd) => seq![fd],
        None => Seq::empty(),
    })
}

/// Each side keeps two of the four descriptors and closes the other two, and what one side
/// keeps the other one closes.
pub proof fn law_sides(s: SyncView)
    ensures
        open_ends(child_side(s).0).to_multiset() == parent_side(s).1.to_multiset(),
        open_ends(parent_side(s).0).to_multiset() == child_side(s).1.to_multiset(),
        (open_ends(child_side(s).0) + child_side(s).1).to_multiset() == seq![
            s.child_write,
            s.child_read,
            s.parent_write,
            s.parent_read,
        ].to_multiset(),
{
    broadcast use vstd::seq_lib::group_to_multiset_ensures;

    let (w, r) = (s.parent_write, s.parent_read);
    assert(open_ends(child_side(s).0) =~= parent_side(s).1);
    let kept = open_ends(parent_side(s).0);
    assert(kept =~= Seq::<i32>::empty().push(w).push(r));
    assert(child_side(s).1 =~= Seq::<i32>::empty().push(r).push(w));
    assert(kept.to_multiset() =~= child_side(s).1.to_multiset());
    let base = Seq::<i32>::empty().push(s.child_write).push(s.child_read);
    assert(open_ends(child_side(s).0) + child_side(s).1 =~= base.push(r).push(w));
    assert(seq![s.child_write, s.child_read, w, r] =~= base.push(w).push(r));
    assert(base.push(r).push(w).to_multiset() =~= base.push(w).push(r).to_multiset());
}

/// The pipes are crossed: what the child writes the parent reads, and the other way round. If
/// both sides report that they are ready, both go on; if one reports a failure or closes its
/// pipe, the other one gives up.
pub proof fn law_barrier(to_parent: (i32, i32), to_child: (i32, i32))
    ensures
        ({
            let s = SyncView {
                child_write: to_parent.1,
                child_read: to_child.0,
                parent_write: to_child.1,
                parent_read: to_parent.0,
            };
            &&& send_target(child_side(s).0) == Ok::<i32, i32>(to_parent.1)
            &&& parent_side(s).0.read == Some(to_parent.0)
            &&& send_target(parent_side(s).0) == Ok::<i32, i32>(to_child.1)
            &&& child_side(s).0.read == Some(to_child.0)
        }),
        decided(Some(STATUS_READY)) == Ok::<SyncDecision, i32>(SyncDecision::Continue),
        forall|b: Option<u8>|
            b != Some(STATUS_READY) ==> #[trigger] decided(b) != Ok::<SyncDecision, i32>(
                SyncDecision::Continue,
            ),
{
}

/// An endpoint sends one status only: after the first one every other is refused.
pub proof fn law_one_status(before: EndpointView)
    ensures
        send_target(EndpointView { write: None, status_sent: true, ..before }) == Err::<i32, i32>(
            EALREADY,
        ),
{
}

/// A status byte was sent if exactly one byte was written. An interrupted write is tried again, a
/// broken pipe means that the other side is gone, and every other failure is reported as it is.
pub proof fn law_status_written(n: usize, e: i32)
    ensures
        written(Ok(n)) == Transfer::Done <==> n == 1,
        n != 1 ==> written(Ok(n)) == Transfer::Fail(5),
        e == 4 ==> written(Err(e)) == Transfer::Again && ready_after(Err(e)) == ReadyStep::Write,
        e == 32 ==> written(Err(e)) == Transfer::Closed && ready_after(Err(e))
            == ReadyStep::Decided(SyncDecision::Abort),
        e != 4 && e != 32 ==> written(Err(e)) == Transfer::Fail(e) && ready_after(Err(e))
            == ReadyStep::Fail(e),
{
}

/// The one byte that lets a side go on is the other one's report that it is ready. A report of a
/// failure, or the end of the pipe, makes it give up, and any other byte breaks the protocol.
pub proof fn law_status_byte(b: u8)
    ensures
        STATUS_READY != STATUS_FAILED,
        decided(Some(b)) == Ok::<SyncDecision, i32>(SyncDecision::Continue) <==> b == 1,
        decided(Some(b)) == Ok::<SyncDecision, i32>(SyncDecision::Abort) <==> b == 2,
        b != 1 && b != 2 ==> decided(Some(b)) == Err::<SyncDecision, i32>(71),
        decided(None) == Ok::<SyncDecision, i32>(SyncDecision::Abort),
{
}

/// A status goes to the end that the side writes to. Without one, or after the first status,
/// there is nothing to send it to.
pub proof fn law_send_target(e: EndpointView, fd: i32)
    ensures
        !e.status_sent && e.write == Some(fd) ==> send_target(e) == Ok::<i32, i32>(fd),
        !e.status_sent && e.write is None ==> send_target(e) == Err::<i32, i32>(9),
        e.status_sent ==> send_target(e) == Err::<i32, i32>(114),
{
}

/// The open ends of a side are those that it has, the one that it writes to first.
pub proof fn law_open_ends(e: EndpointView, fd: i32)
    ensures
        open_ends(e).contains(fd) <==> e.write == Some(fd) || e.read == Some(fd),
        open_ends(e).len() == (if e.write is Some {
            1int
        } else {
            0
        }) + (if e.read is Some {
            1int
        } else {
            0
        }),
        e.write == Some(fd) ==> open_ends(e)[0] == fd,
{
    if e.write == Some(fd) {
        assert(open_ends(e)[0] == fd);
    }
    if e.read == Some(fd) {
        assert(open_ends(e)[open_ends(e).len() - 1] == fd);
    }
}

} // verus!
