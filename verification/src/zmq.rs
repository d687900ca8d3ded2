use crate::rpc_client::{clamp_buffer_limit, clamped_limit, DEFAULT_ZMQ_BUFFER_LIMIT};
use crate::text::{lossy_text, parse_i32, parsed_i32, push_char, str_eq, utf8_lossy};
use vstd::string::*;
use std::collections::VecDeque;
use vstd::prelude::*;

verus! {

/// How many bytes of a payload the preview shows.
pub const PREVIEW_BYTES: usize = 80;

/// How many bytes of a payload make its hash.
pub const HASH_BYTES: usize = 32;

/// The longest wait of a long-poll read, in milliseconds.
pub const MAX_WAIT_MS: u64 = 30000;

/// How long one receive waits before the subscriber looks at its shutdown
/// flag again, in milliseconds.
pub const RECEIVE_TIMEOUT_MS: i32 = 500;

/// The receive high-water mark of the subscriber's socket where nothing
/// else is set, and the range that a setting is brought into.
pub const DEFAULT_ZMQ_SOCKET_RCVHWM: i32 = 100000;

pub const MIN_ZMQ_SOCKET_RCVHWM: i32 = 1000;

pub const MAX_ZMQ_SOCKET_RCVHWM: i32 = 1000000;

/// What one receive of the subscriber gave.
#[derive(Debug)]
pub enum Received {
    /// A notification, part by part.
    Parts(Vec<Vec<u8>>),
    /// Nothing within the receive timeout.
    TimedOut,
    /// The socket failed.
    Failed,
}

/// One notification as the buffer keeps it.
#[derive(Debug)]
pub struct ZmqMessage {
    pub cursor: u64,
    pub topic: String,
    pub body_hex: String,
    pub body_size: usize,
    pub sequence: u32,
    pub timestamp: u64,
    pub event_hash: Option<String>,
}

/// The subscriber's state: whether and where it is connected, and the
/// bounded buffer of what it received.
#[derive(Debug)]
pub struct ZmqState {
    pub connected: bool,
    pub address: String,
    pub buffer_limit: usize,
    pub next_cursor: u64,
    pub messages: VecDeque<ZmqMessage>,
}

/// What a long-poll read returns.
#[derive(Debug)]
pub struct ZmqPage {
    pub connected: bool,
    pub address: String,
    pub buffer_limit: usize,
    pub cursor: u64,
    pub truncated: bool,
    pub messages: Vec<ZmqMessage>,
}

/// The hexadecimal digit of a value below sixteen.
pub open spec fn hex_digit(v: int) -> char {
    if v < 10 {
        ((48 + v) as u8) as char
    } else {
        ((87 + v) as u8) as char
    }
}

/// Two small hexadecimal digits for each byte.
pub open spec fn hex_of(data: Seq<u8>) -> Seq<char>
    decreases data.len(),
{
    if data.len() == 0 {
        Seq::empty()
    } else {
        hex_of(data.drop_last()).push(hex_digit(data.last() as int / 16)).push(
            hex_digit(data.last() as int % 16),
        )
    }
}

/// The first `n` bytes, or all of them where there are fewer.
pub open spec fn prefix(data: Seq<u8>, n: int) -> Seq<u8> {
    if data.len() <= n {
        data
    } else {
        data.take(n)
    }
}

/// The sequence number that a notification's third part carries: its first
/// four bytes, least significant first; zero where it is shorter.
pub open spec fn sequence_of(part: Seq<u8>) -> int {
    if part.len() >= 4 {
        part[0] as int + 256 * (part[1] as int) + 65536 * (part[2] as int) + 16777216 * (
        part[3] as int)
    } else {
        0
    }
}

fn hex_char(v: u8) -> (c: char)
    requires
        v < 16,
    ensures
        c == hex_digit(v as int),
{
    if v < 10 {
        (48 + v) as char
    } else {
        (87 + v) as char
    }
}

/// The first `n` bytes of `data` in hexadecimal.
fn hex_prefix(data: &[u8], n: usize) -> (r: String)
    ensures
        r@ == hex_of(prefix(data@, n as int)),
{
    let end: usize = if data.len() <= n {
        data.len()
    } else {
        n
    };
    let mut out = String::new();
    let mut i: usize = 0;
    assert(data@.take(0) =~= Seq::<u8>::empty());
    while i < end
        invariant
            i <= end <= data.len(),
            out@ == hex_of(data@.take(i as int)),
        decreases end - i,
    {
        proof {
            let next = data@.take(i + 1);
            assert(next.drop_last() =~= data@.take(i as int));
            assert(next.last() == data[i as int]);
        }
        push_char(&mut out, hex_char(data[i] / 16));
        push_char(&mut out, hex_char(data[i] % 16));
        i += 1;
    }
    proof {
        assert(data@.take(data.len() as int) =~= data@);
    }
    out
}

/// Bytes in hexadecimal, two small digits each.
pub fn hex_encode(data: &[u8]) -> (r: String)
    ensures
        r@ == hex_of(data@),
{
    hex_prefix(data, data.len())
}

/// The hash that a notification's payload starts with.
pub fn hash_from_notification(bytes: &[u8]) -> (r: String)
    requires
        bytes@.len() >= HASH_BYTES,
    ensures
        r@ == hex_of(bytes@.take(HASH_BYTES as int)),
{
    proof {
        if bytes@.len() == HASH_BYTES {
            assert(bytes@.take(HASH_BYTES as int) =~= bytes@);
        }
    }
    hex_prefix(bytes, HASH_BYTES)
}

/// A wait brought into the accepted range.
pub fn clamp_wait_ms(wait_ms: u64) -> (r: u64)
    ensures
        r == if wait_ms > MAX_WAIT_MS {
            MAX_WAIT_MS
        } else {
            wait_ms
        },
{
    if wait_ms > MAX_WAIT_MS {
        MAX_WAIT_MS
    } else {
        wait_ms
    }
}

/// The cursors of buffered messages, oldest first.
pub open spec fn cursors_of(messages: Seq<ZmqMessage>) -> Seq<u64> {
    Seq::new(messages.len(), |i: int| messages[i].cursor)
}

/// A buffer after one more item arrives under `limit`: the oldest item
/// leaves if the buffer is full, and the new one goes to the end.
pub open spec fn pushed<T>(buffer: Seq<T>, limit: int, item: T) -> Seq<T> {
    if buffer.len() >= limit && buffer.len() > 0 {
        buffer.skip(1).push(item)
    } else {
        buffer.push(item)
    }
}

/// A buffer cut down to `limit` items by dropping the oldest.
pub open spec fn trimmed<T>(buffer: Seq<T>, limit: int) -> Seq<T> {
    if buffer.len() > limit {
        buffer.skip(buffer.len() - limit)
    } else {
        buffer
    }
}

/// The cursors in a buffer after `count` more messages have arrived, the
/// first of them under the cursor `next`.
pub open spec fn cursors_after(cursors: Seq<u64>, next: u64, limit: int, count: nat) -> Seq<u64>
    decreases count,
{
    if count == 0 {
        cursors
    } else {
        pushed(
            cursors_after(cursors, next, limit, (count - 1) as nat),
            limit,
            (next + count - 1) as u64,
        )
    }
}

/// How many of `count` arrivals a buffer of `limit` places still holds.
pub open spec fn kept(count: nat, limit: int) -> nat {
    if count <= limit {
        count
    } else {
        limit as nat
    }
}

/// A buffer that was empty holds, after `count` messages have arrived, the
/// most recent ones that fit under its limit, and their cursors rise one by
/// one. With more arrivals than the limit it is exactly full: under a limit
/// of 100, after 150 arrivals from cursor 1, it holds the cursors 51 to 150.
pub proof fn lemma_buffer_keeps_most_recent(first: u64, limit: int, count: nat)
    requires
        limit >= 1,
        first + count <= u64::MAX,
    ensures
        cursors_after(Seq::empty(), first, limit, count).len() == kept(count, limit),
        forall|i: int|
            0 <= i < kept(count, limit) ==> #[trigger] cursors_after(
                Seq::empty(),
                first,
                limit,
                count,
            )[i] == first + count - kept(count, limit) + i,
        count > limit ==> cursors_after(Seq::empty(), first, limit, count).len() == limit,
    decreases count,
{
    if count > 0 {
        lemma_buffer_keeps_most_recent(first, limit, (count - 1) as nat);
        let before = cursors_after(Seq::empty(), first, limit, (count - 1) as nat);
        let after = cursors_after(Seq::empty(), first, limit, count);
        assert(after == pushed(before, limit, (first + count - 1) as u64));
        assert forall|i: int| 0 <= i < kept(count, limit) implies #[trigger] after[i] == first
            + count - kept(count, limit) + i by {
            if before.len() >= limit {
                if i < limit - 1 {
                    assert(after[i] == before[i + 1]);
                }
            } else {
                if i < count - 1 {
                    assert(after[i] == before[i]);
                }
            }
        }
    }
}

/// The cursors of a buffer after a push are those before it after the same
/// push.
pub proof fn lemma_pushed_cursors(messages: Seq<ZmqMessage>, limit: int, message: ZmqMessage)
    ensures
        cursors_of(pushed(messages, limit, message)) == pushed(
            cursors_of(messages),
            limit,
            message.cursor,
        ),
{
    assert(cursors_of(pushed(messages, limit, message)) =~= pushed(
        cursors_of(messages),
        limit,
        message.cursor,
    ));
}

/// The cursor after `cursor`; the largest one stays.
pub open spec fn next_after(cursor: u64) -> u64 {
    if cursor == u64::MAX {
        cursor
    } else {
        (cursor + 1) as u64
    }
}

/// The buffered messages that are newer than `since`, oldest first.
pub open spec fn newer_than(messages: Seq<ZmqMessage>, since: u64) -> Seq<ZmqMessage>
    decreases messages.len(),
{
    if messages.len() == 0 {
        Seq::empty()
    } else if messages.last().cursor > since {
        newer_than(messages.drop_last(), since).push(messages.last())
    } else {
        newer_than(messages.drop_last(), since)
    }
}

impl ZmqMessage {
    /// Whether two messages hold the same values.
    pub open spec fn same(&self, other: &ZmqMessage) -> bool {
        &&& self.cursor == other.cursor
        &&& self.topic@ == other.topic@
        &&& self.body_hex@ == other.body_hex@
        &&& self.body_size == other.body_size
        &&& self.sequence == other.sequence
        &&& self.timestamp == other.timestamp
        &&& self.event_hash is Some == other.event_hash is Some
        &&& self.event_hash is Some ==> self.event_hash->0@ == other.event_hash->0@
    }

    /// The message holds what the parts of a notification say: topic,
    /// payload and sequence number.
    pub open spec fn describes(&self, parts: Seq<Seq<u8>>) -> bool {
        &&& parts.len() >= 3
        &&& self.topic@ == lossy_text(parts[0])
        &&& self.body_hex@ == hex_of(prefix(parts[1], PREVIEW_BYTES as int))
        &&& self.body_size == parts[1].len()
        &&& self.sequence == sequence_of(parts[2])
        &&& self.event_hash is Some == (parts[1].len() >= HASH_BYTES)
        &&& self.event_hash is Some ==> self.event_hash->0@ == hex_of(
            parts[1].take(HASH_BYTES as int),
        )
    }

    pub fn duplicate(&self) -> (r: ZmqMessage)
        ensures
            r.same(self),
    {
        ZmqMessage {
            cursor: self.cursor,
            topic: self.topic.clone(),
            body_hex: self.body_hex.clone(),
            body_size: self.body_size,
            sequence: self.sequence,
            timestamp: self.timestamp,
            event_hash: match &self.event_hash {
                Some(h) => Some(h.clone()),
                None => None,
            },
        }
    }
}

impl Clone for ZmqMessage {
    fn clone(&self) -> (r: ZmqMessage)
        ensures
            r.same(self),
    {
        self.duplicate()
    }
}

/// The parts of a notification, each as its bytes.
pub open spec fn parts_of(parts: Seq<Vec<u8>>) -> Seq<Seq<u8>> {
    Seq::new(parts.len(), |i: int| parts[i]@)
}

impl ZmqState {
    /// The limit that the buffer works under.
    pub open spec fn limit(&self) -> int {
        clamped_limit(self.buffer_limit as int)
    }

    /// The buffer holds no more than its limit, its cursors rise strictly,
    /// and every one of them lies below the next cursor, which is at least 1.
    pub open spec fn wf(&self) -> bool {
        &&& self.messages@.len() <= self.limit()
        &&& self.next_cursor >= 1
        &&& forall|i: int, j: int|
            0 <= i < j < self.messages@.len() ==> self.messages@[i].cursor
                < self.messages@[j].cursor
        &&& forall|i: int|
            0 <= i < self.messages@.len() ==> 1 <= (#[trigger] self.messages@[i]).cursor
                < self.next_cursor
    }

    /// A subscriber that has not connected and has received nothing.
    pub fn new() -> (r: ZmqState)
        ensures
            !r.connected,
            r.address@.len() == 0,
            r.buffer_limit == DEFAULT_ZMQ_BUFFER_LIMIT,
            r.next_cursor == 1,
            r.messages@.len() == 0,
            r.wf(),
    {
        ZmqState {
            connected: false,
            address: String::new(),
            buffer_limit: DEFAULT_ZMQ_BUFFER_LIMIT,
            next_cursor: 1,
            messages: VecDeque::new(),
        }
    }

    /// Records that the subscriber is connected to `address`.
    pub fn mark_connected(&mut self, address: &str)
        ensures
            final(self).connected,
            final(self).address@ == address@,
            final(self).buffer_limit == old(self).buffer_limit,
            final(self).next_cursor == old(self).next_cursor,
            final(self).messages == old(self).messages,
            old(self).wf() ==> final(self).wf(),
    {
        self.connected = true;
        self.address = address.to_owned();
    }

    /// Sets the buffer limit, brought into the accepted range, and drops
    /// the oldest messages beyond it.
    pub fn set_buffer_limit(&mut self, limit: usize)
        ensures
            final(self).buffer_limit == clamped_limit(limit as int),
            final(self).messages@ == trimmed(old(self).messages@, clamped_limit(limit as int)),
            final(self).connected == old(self).connected,
            final(self).address == old(self).address,
            final(self).next_cursor == old(self).next_cursor,
            old(self).wf() ==> final(self).wf(),
    {
        let limit = clamp_buffer_limit(limit);
        self.buffer_limit = limit;
        let ghost before = self.messages@;
        while self.messages.len() > limit
            invariant
                limit >= 1,
                self.buffer_limit == limit,
                self.connected == old(self).connected,
                self.address == old(self).address,
                self.next_cursor == old(self).next_cursor,
                self.messages@.len() <= before.len(),
                self.messages@.len() >= limit || self.messages@.len() == before.len(),
                self.messages@ == before.skip(before.len() - self.messages@.len()),
            decreases self.messages@.len(),
        {
            let ghost current = self.messages@;
            self.messages.pop_front();
            proof {
                assert(self.messages@ =~= before.skip(before.len() - self.messages@.len()));
            }
        }
        proof {
            assert(before.skip(0) =~= before);
        }
    }

    /// Appends a message under the next cursor. The oldest message leaves
    /// first if the buffer is full. While cursors are left, the buffer
    /// stays well formed.
    pub fn push(
        &mut self,
        topic: String,
        body_hex: String,
        body_size: usize,
        sequence: u32,
        timestamp: u64,
        event_hash: Option<String>,
    )
        ensures
            final(self).next_cursor == next_after(old(self).next_cursor),
            final(self).messages@.len() > 0,
            final(self).messages@ == pushed(
                old(self).messages@,
                old(self).limit(),
                final(self).messages@.last(),
            ),
            final(self).messages@.last() == (ZmqMessage {
                cursor: old(self).next_cursor,
                topic,
                body_hex,
                body_size,
                sequence,
                timestamp,
                event_hash,
            }),
            final(self).connected == old(self).connected,
            final(self).address == old(self).address,
            final(self).buffer_limit == old(self).buffer_limit,
            old(self).wf() && old(self).next_cursor < u64::MAX ==> final(self).wf(),
    {
        let limit = clamp_buffer_limit(self.buffer_limit);
        if self.messages.len() >= limit {
            self.messages.pop_front();
        }
        let cursor = self.next_cursor;
        self.next_cursor = if cursor == u64::MAX {
            cursor
        } else {
            cursor + 1
        };
        self.messages.push_back(
            ZmqMessage { cursor, topic, body_hex, body_size, sequence, timestamp, event_hash },
        );
    }

    /// Takes in one notification received at `timestamp`. One with fewer
    /// than three parts is passed over.
    pub fn record(&mut self, parts: &Vec<Vec<u8>>, timestamp: u64) -> (taken: bool)
        ensures
            taken == (parts.len() >= 3),
            !taken ==> *final(self) == *old(self),
            taken ==> {
                &&& final(self).next_cursor == next_after(old(self).next_cursor)
                &&& final(self).messages@.len() > 0
                &&& final(self).messages@ == pushed(
                    old(self).messages@,
                    old(self).limit(),
                    final(self).messages@.last(),
                )
                &&& final(self).messages@.last().cursor == old(self).next_cursor
                &&& final(self).messages@.last().timestamp == timestamp
                &&& final(self).messages@.last().describes(parts_of(parts@))
                &&& final(self).connected == old(self).connected
                &&& final(self).address == old(self).address
                &&& final(self).buffer_limit == old(self).buffer_limit
            },
            old(self).wf() && old(self).next_cursor < u64::MAX ==> final(self).wf(),
    {
        if parts.len() < 3 {
            return false;
        }
        let topic = utf8_lossy(parts[0].as_slice());
        let body = parts[1].as_slice();
        let body_hex = hex_prefix(body, PREVIEW_BYTES);
        let event_hash = if body.len() >= HASH_BYTES {
            Some(hash_from_notification(body))
        } else {
            None
        };
        let tail = &parts[2];
        let sequence: u32 = if tail.len() >= 4 {
            tail[0] as u32 + 256 * (tail[1] as u32) + 65536 * (tail[2] as u32) + 16777216 * (
            tail[3] as u32)
        } else {
            0
        };
        self.push(topic, body_hex, body.len(), sequence, timestamp, event_hash);
        true
    }

    /// Whether a message newer than `since` is buffered: what a waiting
    /// reader waits for.
    pub fn has_newer(&self, since: u64) -> (r: bool)
        ensures
            r == (self.messages@.len() > 0 && self.messages@.last().cursor > since),
    {
        let n: usize = self.messages.len();
        n > 0 && self.messages[n - 1].cursor > since
    }

    /// The cursor of the newest buffered message; zero for an empty buffer.
    pub fn latest_cursor(&self) -> (r: u64)
        ensures
            r == if self.messages@.len() > 0 {
                self.messages@.last().cursor
            } else {
                0
            },
    {
        let n: usize = self.messages.len();
        if n > 0 {
            self.messages[n - 1].cursor
        } else {
            0
        }
    }

    /// The page of a long-poll read: every buffered message newer than
    /// `since`, the latest cursor, and whether messages between `since` and
    /// the oldest one returned are missing.
    pub fn messages_since(&self, since: u64) -> (page: ZmqPage)
        ensures
            page.connected == self.connected,
            page.address@ == self.address@,
            page.buffer_limit == self.buffer_limit,
            page.cursor == if self.messages@.len() > 0 {
                self.messages@.last().cursor
            } else {
                0
            },
            page.messages@.len() == newer_than(self.messages@, since).len(),
            forall|k: int|
                0 <= k < page.messages@.len() ==> (#[trigger] page.messages@[k]).same(
                    &newer_than(self.messages@, since)[k],
                ),
            page.truncated == (page.messages@.len() > 0 && page.messages@[0].cursor != since
                + 1),
    {
        let mut messages: Vec<ZmqMessage> = Vec::new();
        let mut i: usize = 0;
        assert(self.messages@.take(0) =~= Seq::<ZmqMessage>::empty());
        while i < self.messages.len()
            invariant
                i <= self.messages@.len(),
                messages@.len() == newer_than(self.messages@.take(i as int), since).len(),
                forall|k: int|
                    0 <= k < messages@.len() ==> (#[trigger] messages@[k]).same(
                        &newer_than(self.messages@.take(i as int), since)[k],
                    ),
            decreases self.messages@.len() - i,
        {
            proof {
                let next = self.messages@.take(i + 1);
                assert(next.drop_last() =~= self.messages@.take(i as int));
                assert(next.last() == self.messages@[i as int]);
            }
            if self.messages[i].cursor > since {
                messages.push(self.messages[i].duplicate());
            }
            i += 1;
        }
        proof {
            assert(self.messages@.take(self.messages@.len() as int) =~= self.messages@);
        }
        let truncated = messages.len() > 0 && (since == u64::MAX || messages[0].cursor != since
            + 1);
        ZmqPage {
            connected: self.connected,
            address: self.address.clone(),
            buffer_limit: self.buffer_limit,
            cursor: self.latest_cursor(),
            truncated,
            messages,
        }
    }
}

/// The high-water mark that a setting asks for: its number brought into the
/// accepted range, the default where there is no setting or it is no
/// number.
pub open spec fn rcvhwm_of(setting: Option<Seq<u8>>) -> i32 {
    let wanted = match setting {
        Some(text) => match parsed_i32(text) {
            Some(n) => n,
            None => DEFAULT_ZMQ_SOCKET_RCVHWM,
        },
        None => DEFAULT_ZMQ_SOCKET_RCVHWM,
    };
    if wanted < MIN_ZMQ_SOCKET_RCVHWM {
        MIN_ZMQ_SOCKET_RCVHWM
    } else if wanted > MAX_ZMQ_SOCKET_RCVHWM {
        MAX_ZMQ_SOCKET_RCVHWM
    } else {
        wanted
    }
}

/// The bytes of a setting that may be missing.
pub open spec fn setting_bytes(setting: Option<&str>) -> Option<Seq<u8>> {
    match setting {
        Some(text) => Some(text.spec_bytes()),
        None => None,
    }
}

/// The receive high-water mark for the subscriber's socket, given what the
/// environment says of `ZMQ_SOCKET_RCVHWM`.
pub fn zmq_socket_rcvhwm(setting: Option<&str>) -> (r: i32)
    ensures
        r == rcvhwm_of(setting_bytes(setting)),
        MIN_ZMQ_SOCKET_RCVHWM <= r <= MAX_ZMQ_SOCKET_RCVHWM,
{
    let parsed = match setting {
        Some(text) => parse_i32(text.as_bytes()),
        None => None,
    };
    let wanted: i32 = match parsed {
        Some(n) => n,
        None => DEFAULT_ZMQ_SOCKET_RCVHWM,
    };
    if wanted < MIN_ZMQ_SOCKET_RCVHWM {
        MIN_ZMQ_SOCKET_RCVHWM
    } else if wanted > MAX_ZMQ_SOCKET_RCVHWM {
        MAX_ZMQ_SOCKET_RCVHWM
    } else {
        wanted
    }
}

/// The topics that the subscriber subscribes to.
pub fn subscribed_topics() -> (r: Vec<&'static str>)
    ensures
        r@.len() == 2,
        r@[0]@ == "hashblock"@,
        r@[1]@ == "hashtx"@,
{
    vec!["hashblock", "hashtx"]
}

/// One round of the subscriber's loop: takes in what the receive gave at
/// `timestamp` and says whether the loop goes on. A notification is
/// recorded, a timeout changes nothing, and a failure ends the loop, after
/// which the caller marks the subscriber disconnected. Nothing reconnects.
pub fn on_received(state: &mut ZmqState, received: Received, timestamp: u64) -> (go_on: bool)
    ensures
        go_on == !(received is Failed),
        match received {
            Received::Parts(parts) => {
                &&& parts.len() < 3 ==> *final(state) == *old(state)
                &&& parts.len() >= 3 ==> {
                    &&& final(state).next_cursor == next_after(old(state).next_cursor)
                    &&& final(state).messages@.len() > 0
                    &&& final(state).messages@ == pushed(
                        old(state).messages@,
                        old(state).limit(),
                        final(state).messages@.last(),
                    )
                    &&& final(state).messages@.last().cursor == old(state).next_cursor
                    &&& final(state).messages@.last().timestamp == timestamp
                    &&& final(state).messages@.last().describes(parts_of(parts@))
                    &&& final(state).connected == old(state).connected
                    &&& final(state).address == old(state).address
                    &&& final(state).buffer_limit == old(state).buffer_limit
                }
            },
            _ => *final(state) == *old(state),
        },
        old(state).wf() && old(state).next_cursor < u64::MAX ==> final(state).wf(),
{
    match received {
        Received::Parts(parts) => {
            state.record(&parts, timestamp);
            true
        },
        Received::TimedOut => true,
        Received::Failed => false,
    }
}

/// The message that a selector of raw transactions picks at a place of the
/// buffer.
pub open spec fn is_raw_tx(message: &ZmqMessage, timestamp: u64, sequence: u64) -> bool {
    message.topic@ == "rawtx"@ && message.timestamp == timestamp && message.sequence as u64
        == sequence
}

impl ZmqState {
    /// The latest buffered raw transaction with this time and sequence
    /// number.
    pub fn find_raw_tx(&self, timestamp: u64, sequence: u64) -> (r: Option<&ZmqMessage>)
        ensures
            match r {
                Some(found) => exists|i: int|
                    0 <= i < self.messages@.len() && self.messages@[i] == *found && is_raw_tx(
                        found,
                        timestamp,
                        sequence,
                    ) && forall|j: int|
                        i < j < self.messages@.len() ==> !is_raw_tx(
                            &#[trigger] self.messages@[j],
                            timestamp,
                            sequence,
                        ),
                None => forall|j: int|
                    0 <= j < self.messages@.len() ==> !is_raw_tx(
                        &#[trigger] self.messages@[j],
                        timestamp,
                        sequence,
                    ),
            },
    {
        let mut i: usize = self.messages.len();
        while i > 0
            invariant
                i <= self.messages@.len(),
                forall|j: int|
                    i <= j < self.messages@.len() ==> !is_raw_tx(
                        &#[trigger] self.messages@[j],
                        timestamp,
                        sequence,
                    ),
            decreases i,
        {
            i -= 1;
            let message = &self.messages[i];
            if str_eq(message.topic.as_str(), "rawtx") && message.timestamp == timestamp
                && message.sequence as u64 == sequence {
                return Some(message);
            }
        }
        None
    }
}

impl Default for ZmqState {
    fn default() -> (r: ZmqState)
        ensures
            !r.connected,
            r.address@.len() == 0,
            r.buffer_limit == DEFAULT_ZMQ_BUFFER_LIMIT,
            r.next_cursor == 1,
            r.messages@.len() == 0,
            r.wf(),
    {
        ZmqState::new()
    }
}

/// Records that the subscriber has stopped: it is no longer connected and
/// has no address. The buffer stays.
pub fn mark_disconnected(state: &mut ZmqState)
    ensures
        !final(state).connected,
        final(state).address@.len() == 0,
        final(state).buffer_limit == old(state).buffer_limit,
        final(state).next_cursor == old(state).next_cursor,
        final(state).messages == old(state).messages,
        old(state).wf() ==> final(state).wf(),
{
    state.connected = false;
    state.address = String::new();
}

} // verus!
