use vstd::prelude::*;
use bytes::Bytes;
use crate::address::SocketAddress;

verus! {

/// `bytes::Bytes`, an immutable byte buffer; opaque here, its content named
/// by `bytes_content`.
#[verifier::external_type_specification]
#[verifier::external_body]
pub struct ExBytes(Bytes);

/// The bytes that a `Bytes` buffer holds, in order.
pub uninterp spec fn bytes_content(b: Bytes) -> Seq<u8>;

/// `bytes::Bytes::copy_from_slice`: a new buffer holding a copy of `data`.
#[verifier::external_body]
fn bytes_from_slice(data: &[u8]) -> (res: Bytes)
    ensures
        bytes_content(res) == data@,
{
    Bytes::copy_from_slice(data)
}

/// `<bytes::Bytes as AsRef<[u8]>>::as_ref`: the buffer's bytes as a slice.
#[verifier::external_body]
fn bytes_as_slice(b: &Bytes) -> (res: &[u8])
    ensures
        res@ == bytes_content(*b),
{
    b.as_ref()
}

/// Errors that the balanced connection reports itself; a sub-connection's own
/// send error is handed on as it is.
#[derive(Clone, Copy, Debug, PartialEq, Eq, Structural)]
pub enum BalancerError {
    /// No sub-connection could take the datagram.
    UseClosedNetworkConn,
    /// The caller's buffer is shorter than the datagram.
    BufferShort,
    /// No sub-connection will deliver datagrams any more.
    ClosedListener,
}

/// The shared state of a connection made of several sub-connections: which of
/// them are healthy, and the round-robin counter of sends.
pub struct BalancedConn {
    pub health: Vec<bool>,
    pub send_index: usize,
}

/// The round-robin position `step` of a send that started at `start`.
pub open spec fn round_robin_index(start: int, step: int, count: int) -> int {
    (start + step) % count
}

proof fn lemma_mod_below_twice(x: int, n: int)
    requires
        n > 0,
        0 <= x < 2 * n,
    ensures
        x % n == if x < n { x } else { x - n },
{
    if x < n {
        vstd::arithmetic::div_mod::lemma_small_mod(x as nat, n as nat);
    } else {
        vstd::arithmetic::div_mod::lemma_small_mod((x - n) as nat, n as nat);
        vstd::arithmetic::div_mod::lemma_mod_sub_multiples_vanish(x, n);
    }
}

/// One send in progress: it started at sub-connection `start` and has looked
/// at the first `next` positions of the round.
pub struct SendAttempt {
    pub start: usize,
    pub count: usize,
    pub next: usize,
}

impl SendAttempt {
    /// The attempt starts inside the round and has not gone past its end.
    pub open spec fn wf(self) -> bool {
        &&& self.start < self.count
        &&& self.next <= self.count
    }
}

/// What a send does next.
#[derive(Clone, Copy, Debug, PartialEq, Eq, Structural)]
pub enum SendStep {
    /// Send on sub-connection `index`; `last` is true for the last position
    /// of the round, whose failure is the send's error.
    Try { index: usize, last: bool },
    /// Every position has been looked at: the send fails as closed.
    Exhausted,
}

impl BalancedConn {
    /// A balanced connection over `count` sub-connections, all healthy.
    /// An empty one is refused (the caller panics).
    pub fn new(count: usize) -> (res: BalancedConn)
        requires
            count > 0,
        ensures
            res.health@ == Seq::new(count as nat, |i: int| true),
            res.send_index == 0,
    {
        let mut health: Vec<bool> = Vec::new();
        let mut i: usize = 0;
        while i < count
            invariant
                i <= count,
                health@ == Seq::new(i as nat, |j: int| true),
            decreases count - i,
        {
            health.push(true);
            i = i + 1;
            assert(health@ =~= Seq::new(i as nat, |j: int| true));
        }
        BalancedConn { health, send_index: 0 }
    }

    /// Starts a send: takes the next round-robin starting position and moves
    /// the counter on by one (wrapping, as an atomic `fetch_add` does).
    pub fn begin_send(&mut self) -> (res: Result<SendAttempt, BalancerError>)
        ensures
            final(self).health@ == old(self).health@,
            old(self).health@.len() == 0 ==> res == Err::<SendAttempt, BalancerError>(
                BalancerError::UseClosedNetworkConn,
            ) && final(self).send_index == old(self).send_index,
            old(self).health@.len() > 0 ==> (res matches Ok(att) && att.wf()
                && att.start as int == (old(self).send_index as int) % (old(self).health@.len() as int)
                && att.count == old(self).health@.len()
                && att.next == 0
                && final(self).send_index == (if old(self).send_index == usize::MAX { 0 } else {
                    old(self).send_index + 1
                })),
    {
        let count = self.health.len();
        if count == 0 {
            return Err(BalancerError::UseClosedNetworkConn);
        }
        let start = self.send_index % count;
        self.send_index = self.send_index.wrapping_add(1);
        Ok(SendAttempt { start, count, next: 0 })
    }

    /// The next sub-connection to send on: the first healthy one at or after
    /// the attempt's position, in round-robin order from its start.
    pub fn next_target(&self, att: &mut SendAttempt) -> (step: SendStep)
        requires
            old(att).wf(),
            old(att).count == self.health@.len(),
        ensures
            final(att).wf(),
            final(att).start == old(att).start,
            final(att).count == old(att).count,
            step matches SendStep::Try { index, last } ==> {
                &&& old(att).next < final(att).next
                &&& index == round_robin_index(old(att).start as int, final(att).next - 1, old(att).count as int)
                &&& self.health@[index as int]
                &&& last == (final(att).next == old(att).count)
                &&& forall|j: int| old(att).next <= j < final(att).next - 1 ==>
                    !self.health@[#[trigger] round_robin_index(old(att).start as int, j, old(att).count as int)]
            },
            step is Exhausted ==> {
                &&& final(att).next == old(att).count
                &&& forall|j: int| old(att).next <= j < old(att).count ==>
                    !self.health@[#[trigger] round_robin_index(old(att).start as int, j, old(att).count as int)]
            },
    {
        let count = att.count;
        while att.next < count
            invariant
                att.wf(),
                att.count == count,
                count == old(att).count,
                att.start == old(att).start,
                count == self.health@.len(),
                old(att).next <= att.next,
                forall|j: int| old(att).next <= j < att.next ==>
                    !self.health@[#[trigger] round_robin_index(att.start as int, j, count as int)],
            decreases count - att.next,
        {
            let i = att.next;
            let idx = if i < count - att.start { att.start + i } else { i - (count - att.start) };
            proof {
                lemma_mod_below_twice(att.start + i, count as int);
            }
            att.next = i + 1;
            if self.health[idx] {
                return SendStep::Try { index: idx, last: i == count - 1 };
            }
        }
        SendStep::Exhausted
    }

    /// Records that sub-connection `index` failed.
    pub fn mark_failed(&mut self, index: usize)
        requires
            index < old(self).health@.len(),
        ensures
            final(self).health@ == old(self).health@.update(index as int, false),
            final(self).send_index == old(self).send_index,
    {
        self.health.set(index, false);
    }

    /// Records that sub-connection `index` works.
    pub fn mark_healthy(&mut self, index: usize)
        requires
            index < old(self).health@.len(),
        ensures
            final(self).health@ == old(self).health@.update(index as int, true),
            final(self).send_index == old(self).send_index,
    {
        self.health.set(index, true);
    }

    /// Hands a queued datagram to a reader. `received` is what the queue
    /// gave: `None` once every sender has gone. The datagram is copied to the
    /// front of `buf`, which must be long enough for it.
    pub fn recv_from(received: Option<(Bytes, SocketAddress)>, buf: &mut Vec<u8>) -> (res: Result<(usize, SocketAddress), BalancerError>)
        ensures
            received is None ==> res == Err::<(usize, SocketAddress), BalancerError>(BalancerError::ClosedListener)
                && final(buf)@ == old(buf)@,
            received matches Some((data, addr)) ==> {
                let content = bytes_content(data);
                &&& content.len() > old(buf)@.len() ==> res == Err::<(usize, SocketAddress), BalancerError>(
                    BalancerError::BufferShort,
                ) && final(buf)@ == old(buf)@
                &&& content.len() <= old(buf)@.len() ==> res == Ok::<(usize, SocketAddress), BalancerError>(
                    (content.len() as usize, addr),
                ) && final(buf)@ == delivered(content, old(buf)@)
            },
    {
        match received {
            None => Err(BalancerError::ClosedListener),
            Some((data, addr)) => {
                let src = bytes_as_slice(&data);
                let n = src.len();
                if n > buf.len() {
                    return Err(BalancerError::BufferShort);
                }
                let mut i: usize = 0;
                while i < n
                    invariant
                        n == src@.len(),
                        n <= buf@.len(),
                        i <= n,
                        buf@.len() == old(buf)@.len(),
                        forall|j: int| 0 <= j < i ==> buf@[j] == src@[j],
                        forall|j: int| i <= j < buf@.len() ==> buf@[j] == old(buf)@[j],
                    decreases n - i,
                {
                    buf.set(i, src[i]);
                    i = i + 1;
                }
                assert(buf@ =~= src@ + old(buf)@.skip(n as int));
                Ok((n, addr))
            },
        }
    }

    /// As `recv_from`, without the sender's address.
    pub fn recv(received: Option<(Bytes, SocketAddress)>, buf: &mut Vec<u8>) -> (res: Result<usize, BalancerError>)
        ensures
            received is None ==> res == Err::<usize, BalancerError>(BalancerError::ClosedListener)
                && final(buf)@ == old(buf)@,
            received matches Some((data, addr)) ==> {
                let content = bytes_content(data);
                &&& content.len() > old(buf)@.len() ==> res == Err::<usize, BalancerError>(
                    BalancerError::BufferShort,
                ) && final(buf)@ == old(buf)@
                &&& content.len() <= old(buf)@.len() ==> res == Ok::<usize, BalancerError>(content.len() as usize)
                    && final(buf)@ == delivered(content, old(buf)@)
            },
    {
        match Self::recv_from(received, buf) {
            Ok((n, _)) => Ok(n),
            Err(e) => Err(e),
        }
    }
}

/// A reader's buffer after a datagram of `content` is copied to its front.
pub open spec fn delivered(content: Seq<u8>, buf: Seq<u8>) -> Seq<u8> {
    content + buf.skip(content.len() as int)
}

/// What a worker queues is what a reader gets: the first `n` bytes the worker
/// received arrive, unchanged, at the front of a reader's buffer that is long
/// enough, and the rest of that buffer is left as it was.
pub proof fn queued_datagrams_arrive_whole(received: Seq<u8>, n: int, reader_buf: Seq<u8>)
    requires
        0 <= n <= received.len(),
        n <= reader_buf.len(),
    ensures
        delivered(received.take(n), reader_buf).len() == reader_buf.len(),
        delivered(received.take(n), reader_buf).take(n) == received.take(n),
        delivered(received.take(n), reader_buf).skip(n) == reader_buf.skip(n),
{
    let d = delivered(received.take(n), reader_buf);
    assert(d.take(n) =~= received.take(n));
    assert(d.skip(n) =~= reader_buf.skip(n));
}

/// The datagram a worker queues after reading `n` bytes from `src` into `buf`.
pub fn received_datagram(buf: &[u8], n: usize, src: SocketAddress) -> (res: (Bytes, SocketAddress))
    requires
        n <= buf@.len(),
    ensures
        bytes_content(res.0) == buf@.take(n as int),
        res.1 == src,
{
    let part = vstd::slice::slice_subrange(buf, 0, n);
    assert(buf@.subrange(0, n as int) =~= buf@.take(n as int));
    (bytes_from_slice(part), src)
}

/// A send begins at its start and moves one sub-connection further on at
/// each position, round the circle.
pub proof fn round_robin_steps_one_at_a_time(start: int, j: int, count: int)
    requires
        0 <= start < count,
        0 <= j,
        j + 1 < count,
    ensures
        round_robin_index(start, 0, count) == start,
        round_robin_index(start, j + 1, count) == if round_robin_index(start, j, count) + 1 == count {
            0
        } else {
            round_robin_index(start, j, count) + 1
        },
{
    lemma_mod_below_twice(start, count);
    lemma_mod_below_twice(start + j, count);
    lemma_mod_below_twice(start + j + 1, count);
}

/// Within one round of a send, different positions name different
/// sub-connections: no sub-connection is tried twice by one send.
pub proof fn round_robin_positions_distinct(start: int, count: int, j1: int, j2: int)
    requires
        0 <= start < count,
        0 <= j1 < count,
        0 <= j2 < count,
        j1 != j2,
    ensures
        round_robin_index(start, j1, count) != round_robin_index(start, j2, count),
{
    lemma_mod_below_twice(start + j1, count);
    lemma_mod_below_twice(start + j2, count);
}

/// Every sub-connection has a position in every round: one send looks at
/// each sub-connection once, at the position given here.
pub proof fn round_robin_covers_all(start: int, count: int, index: int)
    requires
        0 <= start < count,
        0 <= index < count,
    ensures
        ({
            let j = if index >= start { index - start } else { index + count - start };
            0 <= j < count && round_robin_index(start, j, count) == index
        }),
{
    let j = if index >= start { index - start } else { index + count - start };
    lemma_mod_below_twice(start + j, count);
}

/// Consecutive sends start one sub-connection further on, round the circle.
pub proof fn consecutive_sends_rotate(send_index: int, count: int)
    requires
        0 <= send_index,
        count > 0,
    ensures
        (send_index + 1) % count == round_robin_index(send_index % count, 1, count),
{
    if count == 1 {
        assert((send_index + 1) % count == 0) by (nonlinear_arith)
            requires count == 1;
        assert((send_index % count + 1) % count == 0) by (nonlinear_arith)
            requires count == 1;
    } else {
        vstd::arithmetic::div_mod::lemma_add_mod_noop(send_index, 1, count);
        vstd::arithmetic::div_mod::lemma_small_mod(1, count as nat);
    }
}

/// Where the `j`-th of a run of sends starts when the counter stood at `s`
/// before the first of them (and has not wrapped since).
pub open spec fn send_start(s: int, j: int, count: int) -> int {
    (s + j) % count
}

/// One of `count` consecutive sends, begun with the counter at `s`, starts
/// at sub-connection `index`.
pub open spec fn some_send_starts_at(s: int, count: int, index: int) -> bool {
    exists|j: int| 0 <= j < count && send_start(s, j, count) == index
}

proof fn lemma_send_start_from_round(s: int, j: int, count: int)
    requires
        0 <= s,
        count > 0,
        0 <= j < count,
    ensures
        send_start(s, j, count) == round_robin_index(s % count, j, count),
{
    vstd::arithmetic::div_mod::lemma_add_mod_noop(s, j, count);
    vstd::arithmetic::div_mod::lemma_small_mod(j as nat, count as nat);
}

/// Round robin over whole rounds: `count` consecutive sends, begun with the
/// counter at `s` and not wrapping it past `usize::MAX`, start at every
/// sub-connection exactly once.
pub proof fn consecutive_sends_use_each_once(s: int, count: int)
    requires
        0 <= s,
        count > 0,
        s + count - 1 <= usize::MAX,
    ensures
        forall|j1: int, j2: int|
            0 <= j1 < count && 0 <= j2 < count && j1 != j2 ==> #[trigger] send_start(s, j1, count)
                != #[trigger] send_start(s, j2, count),
        forall|index: int| 0 <= index < count ==> #[trigger] some_send_starts_at(s, count, index),
{
    let r = s % count;
    assert forall|j1: int, j2: int|
        0 <= j1 < count && 0 <= j2 < count && j1 != j2 implies #[trigger] send_start(s, j1, count)
            != #[trigger] send_start(s, j2, count) by {
        lemma_send_start_from_round(s, j1, count);
        lemma_send_start_from_round(s, j2, count);
        round_robin_positions_distinct(r, count, j1, j2);
    }
    assert forall|index: int| 0 <= index < count implies #[trigger] some_send_starts_at(s, count, index) by {
        round_robin_covers_all(r, count, index);
        let j = if index >= r { index - r } else { index + count - r };
        lemma_send_start_from_round(s, j, count);
        assert(send_start(s, j, count) == index);
    }
}

} // verus!
