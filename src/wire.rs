use vstd::prelude::*;
use crate::bmca::{ClockIdentity, Dataset, PortIdentity};

verus! {

/// Length of the common message header.
pub const HEADER_LEN: usize = 34;

/// Length of a sync, delay request or follow-up message.
pub const TIMESTAMP_MESSAGE_LEN: usize = 44;

/// Length of a delay response message.
pub const DELAY_RESP_LEN: usize = 54;

/// Length of an announce message.
pub const ANNOUNCE_LEN: usize = 64;

/// Nanoseconds in a second.
pub const NANOS_PER_SECOND: u64 = 1_000_000_000;

/// The largest number of whole seconds whose nanoseconds fit in a `u64`.
pub const MAX_SECONDS: u64 = 18_446_744_073;

/// The message type codes of the wire format.
pub const SYNC_CODE: u8 = 0x0;
pub const DELAY_REQ_CODE: u8 = 0x1;
pub const FOLLOW_UP_CODE: u8 = 0x8;
pub const DELAY_RESP_CODE: u8 = 0x9;
pub const ANNOUNCE_CODE: u8 = 0xb;

/// The protocol version this codec reads and writes.
pub const PROTOCOL_VERSION: u8 = 2;

/// What a message carries beyond its header. Times are nanoseconds.
#[derive(Debug, Clone, Copy, PartialEq, Eq, Structural)]
pub enum MessageBody {
    Sync { origin: u64 },
    DelayReq { origin: u64 },
    FollowUp { precise_origin: u64 },
    DelayResp { receive: u64, requesting: PortIdentity },
    Announce { dataset: Dataset },
}

/// A decoded message.
#[derive(Debug, Clone, Copy, PartialEq, Eq, Structural)]
pub struct Message {
    pub domain: u8,
    pub source: PortIdentity,
    pub sequence_id: u16,
    pub body: MessageBody,
}

/// The big-endian number in `n` bytes of `b` from position `i`.
pub open spec fn be_value(b: Seq<u8>, i: int, n: nat) -> nat
    decreases n,
{
    if n == 0 {
        0
    } else {
        be_value(b, i, (n - 1) as nat) * 256 + b[i + n - 1] as nat
    }
}

/// The time in ten bytes of `b` from position `i`: six bytes of seconds and
/// four of nanoseconds, if the nanoseconds are below one second and the total
/// fits in a `u64`.
pub open spec fn timestamp_at(b: Seq<u8>, i: int) -> Option<u64> {
    let secs = be_value(b, i, 6);
    let nanos = be_value(b, i + 6, 4);
    if nanos < NANOS_PER_SECOND && secs * NANOS_PER_SECOND + nanos <= u64::MAX {
        Some((secs * NANOS_PER_SECOND + nanos) as u64)
    } else {
        None
    }
}

/// The port identity in ten bytes of `b` from position `i`.
pub open spec fn port_identity_at(b: Seq<u8>, i: int) -> PortIdentity {
    PortIdentity { clock: ClockIdentity(be_value(b, i, 8) as u64), port: be_value(b, i + 8, 2) as u16 }
}

/// The length that a message of type `code` must at least have.
pub open spec fn required_len(code: u8) -> int {
    if code == SYNC_CODE || code == DELAY_REQ_CODE || code == FOLLOW_UP_CODE {
        TIMESTAMP_MESSAGE_LEN as int
    } else if code == DELAY_RESP_CODE {
        DELAY_RESP_LEN as int
    } else {
        ANNOUNCE_LEN as int
    }
}

/// The body of a message of type `code`, if its fields are valid.
pub open spec fn body_of(b: Seq<u8>, code: u8) -> Option<MessageBody> {
    if code == SYNC_CODE || code == DELAY_REQ_CODE || code == FOLLOW_UP_CODE {
        match timestamp_at(b, 34) {
            Some(t) => Some(
                if code == SYNC_CODE {
                    MessageBody::Sync { origin: t }
                } else if code == DELAY_REQ_CODE {
                    MessageBody::DelayReq { origin: t }
                } else {
                    MessageBody::FollowUp { precise_origin: t }
                },
            ),
            None => None,
        }
    } else if code == DELAY_RESP_CODE {
        match timestamp_at(b, 34) {
            Some(t) => Some(MessageBody::DelayResp { receive: t, requesting: port_identity_at(b, 44) }),
            None => None,
        }
    } else {
        Some(
            MessageBody::Announce {
                dataset: Dataset {
                    priority_1: b[47],
                    clock_class: b[48],
                    clock_accuracy: b[49],
                    offset_scaled_log_variance: be_value(b, 50, 2) as u16,
                    priority_2: b[52],
                    identity: ClockIdentity(be_value(b, 53, 8) as u64),
                    steps_removed: be_value(b, 61, 2) as u16,
                },
            },
        )
    }
}

/// Whether `code` names a message type this codec knows.
pub open spec fn known_code(code: u8) -> bool {
    code == SYNC_CODE || code == DELAY_REQ_CODE || code == FOLLOW_UP_CODE || code == DELAY_RESP_CODE
        || code == ANNOUNCE_CODE
}

/// The message that `b` holds, or `None` when it is malformed: shorter than
/// its header, of another version or an unknown type, with a length field
/// below what its type needs or beyond the bytes received, or with an invalid
/// timestamp.
pub open spec fn parse_spec(b: Seq<u8>) -> Option<Message> {
    if b.len() < HEADER_LEN {
        None
    } else {
        let code = (b[0] % 16) as u8;
        let len = be_value(b, 2, 2);
        if b[1] % 16 != PROTOCOL_VERSION || !known_code(code) || len < required_len(code) || len > b.len() {
            None
        } else {
            match body_of(b, code) {
                Some(body) => Some(
                    Message {
                        domain: b[4],
                        source: port_identity_at(b, 20),
                        sequence_id: be_value(b, 30, 2) as u16,
                        body,
                    },
                ),
                None => None,
            }
        }
    }
}

proof fn lemma_be_value_bound(b: Seq<u8>, i: int, n: nat)
    ensures
        be_value(b, i, n) < vstd::arithmetic::power2::pow2(8 * n),
    decreases n,
{
    vstd::arithmetic::power2::lemma2_to64();
    if n > 0 {
        lemma_be_value_bound(b, i, (n - 1) as nat);
        vstd::arithmetic::power2::lemma_pow2_adds(8 * (n - 1) as nat, 8);
        let p = vstd::arithmetic::power2::pow2(8 * (n - 1) as nat);
        let v = be_value(b, i, (n - 1) as nat);
        assert(v * 256 + b[i + n - 1] < p * 256) by (nonlinear_arith)
            requires
                v < p,
                b[i + n - 1] < 256,
        ;
        assert(8 * (n - 1) as nat + 8 == 8 * n);
    }
}

/// Reads the big-endian number in `n` bytes of `b` from position `i`.
fn read_be(b: &[u8], i: usize, n: usize) -> (r: u64)
    requires
        n <= 8,
        i + n <= b@.len(),
    ensures
        r == be_value(b@, i as int, n as nat),
{
    let len = b.len();
    let mut r: u64 = 0;
    let mut k: usize = 0;
    while k < n
        invariant
            len == b@.len(),
            n <= 8,
            i + n <= b@.len(),
            k <= n,
            r == be_value(b@, i as int, k as nat),
        decreases n - k,
    {
        proof {
            lemma_be_value_bound(b@, i as int, k as nat);
            if k < 7 {
                vstd::arithmetic::power2::lemma_pow2_strictly_increases(8 * k as nat, 56);
            }
            vstd::arithmetic::power2::lemma2_to64();
            vstd::arithmetic::power2::lemma2_to64_rest();
        }
        r = r * 256 + b[i + k] as u64;
        k += 1;
    }
    r
}


/// Reads the time in ten bytes of `b` from position `i`.
fn read_timestamp(b: &[u8], i: usize) -> (r: Option<u64>)
    requires
        i + 10 <= b@.len(),
    ensures
        r == timestamp_at(b@, i as int),
{
    let n = b.len();
    assert(i + 10 <= n);
    let secs = read_be(b, i, 6);
    let nanos = read_be(b, i + 6, 4);
    if nanos >= NANOS_PER_SECOND || secs > MAX_SECONDS {
        return None;
    }
    assert(secs * NANOS_PER_SECOND <= MAX_SECONDS * NANOS_PER_SECOND) by (nonlinear_arith)
        requires
            secs <= MAX_SECONDS,
    ;
    let base = secs * NANOS_PER_SECOND;
    if base > u64::MAX - nanos {
        None
    } else {
        Some(base + nanos)
    }
}

/// Reads the port identity in ten bytes of `b` from position `i`.
fn read_port_identity(b: &[u8], i: usize) -> (r: PortIdentity)
    requires
        i + 10 <= b@.len(),
    ensures
        r == port_identity_at(b@, i as int),
{
    let n = b.len();
    assert(i + 10 <= n);
    let clock = read_be(b, i, 8);
    let port = read_be(b, i + 8, 2);
    proof {
        lemma_be_value_bound(b@, i + 8, 2);
        vstd::arithmetic::power2::lemma2_to64();
    }
    PortIdentity { clock: ClockIdentity(clock), port: port as u16 }
}

/// Decodes a message, or returns `None` when the bytes are malformed.
pub fn parse_message(b: &[u8]) -> (r: Option<Message>)
    ensures
        r == parse_spec(b@),
{
    if b.len() < HEADER_LEN {
        return None;
    }
    let code = b[0] % 16;
    let len = read_be(b, 2, 2);
    let known = code == SYNC_CODE || code == DELAY_REQ_CODE || code == FOLLOW_UP_CODE || code
        == DELAY_RESP_CODE || code == ANNOUNCE_CODE;
    if b[1] % 16 != PROTOCOL_VERSION || !known {
        return None;
    }
    let required: usize = if code == SYNC_CODE || code == DELAY_REQ_CODE || code == FOLLOW_UP_CODE {
        TIMESTAMP_MESSAGE_LEN
    } else if code == DELAY_RESP_CODE {
        DELAY_RESP_LEN
    } else {
        ANNOUNCE_LEN
    };
    if len < required as u64 || len > b.len() as u64 {
        return None;
    }
    let source = read_port_identity(b, 20);
    let seq = read_be(b, 30, 2);
    proof {
        lemma_be_value_bound(b@, 30, 2);
        lemma_be_value_bound(b@, 50, 2);
        lemma_be_value_bound(b@, 61, 2);
        vstd::arithmetic::power2::lemma2_to64();
    }
    let body = if code == SYNC_CODE || code == DELAY_REQ_CODE || code == FOLLOW_UP_CODE {
        match read_timestamp(b, 34) {
            Some(t) => if code == SYNC_CODE {
                MessageBody::Sync { origin: t }
            } else if code == DELAY_REQ_CODE {
                MessageBody::DelayReq { origin: t }
            } else {
                MessageBody::FollowUp { precise_origin: t }
            },
            None => {
                return None;
            },
        }
    } else if code == DELAY_RESP_CODE {
        match read_timestamp(b, 34) {
            Some(t) => MessageBody::DelayResp { receive: t, requesting: read_port_identity(b, 44) },
            None => {
                return None;
            },
        }
    } else {
        MessageBody::Announce {
            dataset: Dataset {
                priority_1: b[47],
                clock_class: b[48],
                clock_accuracy: b[49],
                offset_scaled_log_variance: read_be(b, 50, 2) as u16,
                priority_2: b[52],
                identity: ClockIdentity(read_be(b, 53, 8)),
                steps_removed: read_be(b, 61, 2) as u16,
            },
        }
    };
    Some(Message { domain: b[4], source, sequence_id: seq as u16, body })
}


/// The `n` low bytes of `v`, most significant first.
pub open spec fn be_bytes(v: nat, n: nat) -> Seq<u8>
    decreases n,
{
    if n == 0 {
        seq![]
    } else {
        be_bytes(v / 256, (n - 1) as nat).push((v % 256) as u8)
    }
}

/// `n` zero bytes.
pub open spec fn zeros(n: nat) -> Seq<u8> {
    Seq::new(n, |i: int| 0u8)
}

/// A time as six bytes of seconds and four of nanoseconds.
pub open spec fn timestamp_bytes(t: u64) -> Seq<u8> {
    be_bytes((t / NANOS_PER_SECOND) as nat, 6) + be_bytes((t % NANOS_PER_SECOND) as nat, 4)
}

/// A port identity as eight bytes of clock identity and two of port number.
pub open spec fn port_identity_bytes(p: PortIdentity) -> Seq<u8> {
    be_bytes(p.clock.0 as nat, 8) + be_bytes(p.port as nat, 2)
}

/// The type code, length, flags and control field of a message body.
pub open spec fn body_layout(body: MessageBody) -> (u8, u64, u64, u8) {
    match body {
        MessageBody::Sync { .. } => (SYNC_CODE, TIMESTAMP_MESSAGE_LEN as u64, 0x0200, 0),
        MessageBody::DelayReq { .. } => (DELAY_REQ_CODE, TIMESTAMP_MESSAGE_LEN as u64, 0, 1),
        MessageBody::FollowUp { .. } => (FOLLOW_UP_CODE, TIMESTAMP_MESSAGE_LEN as u64, 0, 2),
        MessageBody::DelayResp { .. } => (DELAY_RESP_CODE, DELAY_RESP_LEN as u64, 0, 3),
        MessageBody::Announce { .. } => (ANNOUNCE_CODE, ANNOUNCE_LEN as u64, 0, 5),
    }
}

/// The bytes of a message body.
pub open spec fn body_bytes(body: MessageBody) -> Seq<u8> {
    match body {
        MessageBody::Sync { origin } => timestamp_bytes(origin),
        MessageBody::DelayReq { origin } => timestamp_bytes(origin),
        MessageBody::FollowUp { precise_origin } => timestamp_bytes(precise_origin),
        MessageBody::DelayResp { receive, requesting } => timestamp_bytes(receive) + port_identity_bytes(
            requesting,
        ),
        MessageBody::Announce { dataset } => zeros(13) + seq![
            dataset.priority_1,
            dataset.clock_class,
            dataset.clock_accuracy,
        ] + be_bytes(dataset.offset_scaled_log_variance as nat, 2) + seq![dataset.priority_2]
            + be_bytes(dataset.identity.0 as nat, 8) + be_bytes(dataset.steps_removed as nat, 2)
            + seq![0xa0u8],
    }
}

/// The bytes of a message: its header, then its body.
pub open spec fn message_bytes(m: Message) -> Seq<u8> {
    let (code, len, flags, control) = body_layout(m.body);
    seq![code, PROTOCOL_VERSION] + be_bytes(len as nat, 2) + seq![m.domain, 0u8] + be_bytes(flags as nat, 2)
        + zeros(12) + port_identity_bytes(m.source) + be_bytes(m.sequence_id as nat, 2) + seq![
        control,
        0x7fu8,
    ] + body_bytes(m.body)
}

/// Appends the `n` low bytes of `v`, most significant first.
fn push_be(out: &mut Vec<u8>, v: u64, n: usize)
    ensures
        final(out)@ == old(out)@ + be_bytes(v as nat, n as nat),
    decreases n,
{
    if n == 0 {
        assert(old(out)@ + be_bytes(v as nat, 0) =~= old(out)@);
        return;
    }
    push_be(out, v / 256, n - 1);
    let ghost mid = out@;
    out.push((v % 256) as u8);
    assert(out@ =~= old(out)@ + be_bytes(v as nat, n as nat));
}

/// Appends `n` zero bytes.
fn push_zeros(out: &mut Vec<u8>, n: usize)
    ensures
        final(out)@ == old(out)@ + zeros(n as nat),
{
    let mut k: usize = 0;
    while k < n
        invariant
            k <= n,
            out@ == old(out)@ + zeros(k as nat),
        decreases n - k,
    {
        out.push(0);
        k += 1;
        assert(out@ =~= old(out)@ + zeros(k as nat));
    }
}

/// Appends a time as six bytes of seconds and four of nanoseconds.
fn push_timestamp(out: &mut Vec<u8>, t: u64)
    ensures
        final(out)@ == old(out)@ + timestamp_bytes(t),
{
    push_be(out, t / NANOS_PER_SECOND, 6);
    push_be(out, t % NANOS_PER_SECOND, 4);
    assert(out@ =~= old(out)@ + timestamp_bytes(t));
}

/// Appends a port identity.
fn push_port_identity(out: &mut Vec<u8>, p: PortIdentity)
    ensures
        final(out)@ == old(out)@ + port_identity_bytes(p),
{
    push_be(out, p.clock.0, 8);
    push_be(out, p.port as u64, 2);
    assert(out@ =~= old(out)@ + port_identity_bytes(p));
}

/// Encodes a message.
pub fn encode_message(m: &Message) -> (r: Vec<u8>)
    ensures
        r@ == message_bytes(*m),
{
    let (code, len, flags, control): (u8, u64, u64, u8) = match m.body {
        MessageBody::Sync { .. } => (SYNC_CODE, TIMESTAMP_MESSAGE_LEN as u64, 0x0200, 0),
        MessageBody::DelayReq { .. } => (DELAY_REQ_CODE, TIMESTAMP_MESSAGE_LEN as u64, 0, 1),
        MessageBody::FollowUp { .. } => (FOLLOW_UP_CODE, TIMESTAMP_MESSAGE_LEN as u64, 0, 2),
        MessageBody::DelayResp { .. } => (DELAY_RESP_CODE, DELAY_RESP_LEN as u64, 0, 3),
        MessageBody::Announce { .. } => (ANNOUNCE_CODE, ANNOUNCE_LEN as u64, 0, 5),
    };
    let mut out: Vec<u8> = Vec::new();
    out.push(code);
    out.push(PROTOCOL_VERSION);
    push_be(&mut out, len, 2);
    out.push(m.domain);
    out.push(0);
    push_be(&mut out, flags, 2);
    push_zeros(&mut out, 12);
    push_port_identity(&mut out, m.source);
    push_be(&mut out, m.sequence_id as u64, 2);
    out.push(control);
    out.push(0x7f);
    let ghost header = out@;
    assert(header =~= seq![code, PROTOCOL_VERSION] + be_bytes(len as nat, 2) + seq![m.domain, 0u8]
        + be_bytes(flags as nat, 2) + zeros(12) + port_identity_bytes(m.source) + be_bytes(
        m.sequence_id as nat,
        2,
    ) + seq![control, 0x7fu8]);
    match m.body {
        MessageBody::Sync { origin } => push_timestamp(&mut out, origin),
        MessageBody::DelayReq { origin } => push_timestamp(&mut out, origin),
        MessageBody::FollowUp { precise_origin } => push_timestamp(&mut out, precise_origin),
        MessageBody::DelayResp { receive, requesting } => {
            push_timestamp(&mut out, receive);
            push_port_identity(&mut out, requesting);
            assert(out@ =~= header + body_bytes(m.body));
        },
        MessageBody::Announce { dataset } => {
            push_zeros(&mut out, 13);
            out.push(dataset.priority_1);
            out.push(dataset.clock_class);
            out.push(dataset.clock_accuracy);
            push_be(&mut out, dataset.offset_scaled_log_variance as u64, 2);
            out.push(dataset.priority_2);
            push_be(&mut out, dataset.identity.0, 8);
            push_be(&mut out, dataset.steps_removed as u64, 2);
            out.push(0xa0);
            assert(out@ =~= header + body_bytes(m.body));
        },
    }
    assert(out@ =~= message_bytes(*m));
    out
}


proof fn lemma_be_bytes_len(v: nat, n: nat)
    ensures
        be_bytes(v, n).len() == n,
    decreases n,
{
    if n > 0 {
        lemma_be_bytes_len(v / 256, (n - 1) as nat);
    }
}

/// A number depends only on the bytes it is read from.
proof fn lemma_be_value_local(b: Seq<u8>, c: Seq<u8>, i: int, j: int, n: nat)
    requires
        0 <= i,
        0 <= j,
        i + n <= b.len(),
        j + n <= c.len(),
        b.subrange(i, i + n) == c.subrange(j, j + n),
    ensures
        be_value(b, i, n) == be_value(c, j, n),
    decreases n,
{
    if n > 0 {
        assert(b.subrange(i, i + n - 1) =~= b.subrange(i, i + n).subrange(0, n - 1));
        assert(c.subrange(j, j + n - 1) =~= c.subrange(j, j + n).subrange(0, n - 1));
        lemma_be_value_local(b, c, i, j, (n - 1) as nat);
        assert(b[i + n - 1] == b.subrange(i, i + n)[n - 1]);
        assert(c[j + n - 1] == c.subrange(j, j + n)[n - 1]);
    }
}

/// Reading back the bytes of a number that fits gives the number.
proof fn lemma_be_round_trip(v: nat, n: nat)
    requires
        v < vstd::arithmetic::power2::pow2(8 * n),
    ensures
        be_value(be_bytes(v, n), 0, n) == v,
    decreases n,
{
    lemma_be_bytes_len(v, n);
    vstd::arithmetic::power2::lemma2_to64();
    if n > 0 {
        let p = vstd::arithmetic::power2::pow2(8 * (n - 1) as nat);
        vstd::arithmetic::power2::lemma_pow2_adds(8 * (n - 1) as nat, 8);
        vstd::arithmetic::power2::lemma2_to64();
        assert(8 * (n - 1) as nat + 8 == 8 * n);
        assert(v / 256 < p) by (nonlinear_arith)
            requires
                v < p * 256,
        ;
        lemma_be_round_trip(v / 256, (n - 1) as nat);
        lemma_be_bytes_len(v / 256, (n - 1) as nat);
        let b = be_bytes(v, n);
        assert(b.subrange(0, n - 1) =~= be_bytes(v / 256, (n - 1) as nat).subrange(0, n - 1));
        lemma_be_value_local(b, be_bytes(v / 256, (n - 1) as nat), 0, 0, (n - 1) as nat);
        assert(b[n - 1] as nat == v % 256);
        assert((v / 256) * 256 + v % 256 == v) by (nonlinear_arith);
    }
}

/// The number read at `i` from bytes that hold `be_bytes(v, n)` there.
proof fn lemma_read_field(b: Seq<u8>, i: int, v: nat, n: nat)
    requires
        0 <= i,
        i + n <= b.len(),
        b.subrange(i, i + n) == be_bytes(v, n),
        v < vstd::arithmetic::power2::pow2(8 * n),
    ensures
        be_value(b, i, n) == v,
{
    lemma_be_bytes_len(v, n);
    lemma_be_round_trip(v, n);
    assert(be_bytes(v, n).subrange(0, n as int) =~= be_bytes(v, n));
    lemma_be_value_local(b, be_bytes(v, n), i, 0, n);
}

/// The time read at `i` from bytes that hold the bytes of `t` there.
proof fn lemma_read_timestamp(b: Seq<u8>, i: int, t: u64)
    requires
        0 <= i,
        i + 10 <= b.len(),
        b.subrange(i, i + 10) == timestamp_bytes(t),
    ensures
        timestamp_at(b, i) == Some(t),
{
    let secs = (t / NANOS_PER_SECOND) as nat;
    let nanos = (t % NANOS_PER_SECOND) as nat;
    lemma_be_bytes_len(secs, 6);
    lemma_be_bytes_len(nanos, 4);
    vstd::arithmetic::power2::lemma2_to64();
    vstd::arithmetic::power2::lemma2_to64_rest();
    assert(b.subrange(i, i + 6) =~= timestamp_bytes(t).subrange(0, 6));
    assert(b.subrange(i + 6, i + 10) =~= timestamp_bytes(t).subrange(6, 10));
    assert(timestamp_bytes(t).subrange(0, 6) =~= be_bytes(secs, 6));
    assert(timestamp_bytes(t).subrange(6, 10) =~= be_bytes(nanos, 4));
    lemma_read_field(b, i, secs, 6);
    lemma_read_field(b, i + 6, nanos, 4);
}

/// The port identity read at `i` from bytes that hold the bytes of `p` there.
proof fn lemma_read_port_identity(b: Seq<u8>, i: int, p: PortIdentity)
    requires
        0 <= i,
        i + 10 <= b.len(),
        b.subrange(i, i + 10) == port_identity_bytes(p),
    ensures
        port_identity_at(b, i) == p,
{
    lemma_be_bytes_len(p.clock.0 as nat, 8);
    lemma_be_bytes_len(p.port as nat, 2);
    vstd::arithmetic::power2::lemma2_to64();
    vstd::arithmetic::power2::lemma2_to64_rest();
    assert(b.subrange(i, i + 8) =~= port_identity_bytes(p).subrange(0, 8));
    assert(b.subrange(i + 8, i + 10) =~= port_identity_bytes(p).subrange(8, 10));
    assert(port_identity_bytes(p).subrange(0, 8) =~= be_bytes(p.clock.0 as nat, 8));
    assert(port_identity_bytes(p).subrange(8, 10) =~= be_bytes(p.port as nat, 2));
    lemma_read_field(b, i, p.clock.0 as nat, 8);
    lemma_read_field(b, i + 8, p.port as nat, 2);
}


/// Decoding the bytes of a message gives the message back.
pub proof fn lemma_parse_encoded(m: Message)
    ensures
        parse_spec(message_bytes(m)) == Some(m),
{
    let (code, len, flags, control) = body_layout(m.body);
    vstd::arithmetic::power2::lemma2_to64();
    vstd::arithmetic::power2::lemma2_to64_rest();
    lemma_be_bytes_len(len as nat, 2);
    lemma_be_bytes_len(flags as nat, 2);
    lemma_be_bytes_len(m.sequence_id as nat, 2);
    lemma_be_bytes_len(m.source.clock.0 as nat, 8);
    lemma_be_bytes_len(m.source.port as nat, 2);
    let head = seq![code, PROTOCOL_VERSION] + be_bytes(len as nat, 2) + seq![m.domain, 0u8] + be_bytes(
        flags as nat,
        2,
    ) + zeros(12) + port_identity_bytes(m.source) + be_bytes(m.sequence_id as nat, 2) + seq![
        control,
        0x7fu8,
    ];
    let body = body_bytes(m.body);
    let b = message_bytes(m);
    assert(b == head + body);
    assert(head.len() == 34);
    assert(b.subrange(2, 4) =~= be_bytes(len as nat, 2));
    assert(b.subrange(20, 30) =~= port_identity_bytes(m.source));
    assert(b.subrange(30, 32) =~= be_bytes(m.sequence_id as nat, 2));
    assert(b[0] == code && b[1] == PROTOCOL_VERSION && b[4] == m.domain);
    match m.body {
        MessageBody::Sync { origin: t } | MessageBody::DelayReq { origin: t } | MessageBody::FollowUp {
            precise_origin: t,
        } => {
            lemma_be_bytes_len((t / NANOS_PER_SECOND) as nat, 6);
            lemma_be_bytes_len((t % NANOS_PER_SECOND) as nat, 4);
            assert(b.len() == 44);
            assert(b.subrange(34, 44) =~= timestamp_bytes(t));
            lemma_read_timestamp(b, 34, t);
        },
        MessageBody::DelayResp { receive, requesting } => {
            lemma_be_bytes_len((receive / NANOS_PER_SECOND) as nat, 6);
            lemma_be_bytes_len((receive % NANOS_PER_SECOND) as nat, 4);
            lemma_be_bytes_len(requesting.clock.0 as nat, 8);
            lemma_be_bytes_len(requesting.port as nat, 2);
            assert(b.len() == 54);
            assert(b.subrange(34, 44) =~= timestamp_bytes(receive));
            assert(b.subrange(44, 54) =~= port_identity_bytes(requesting));
            lemma_read_timestamp(b, 34, receive);
            lemma_read_port_identity(b, 44, requesting);
        },
        MessageBody::Announce { dataset } => {
            lemma_be_bytes_len(dataset.offset_scaled_log_variance as nat, 2);
            lemma_be_bytes_len(dataset.identity.0 as nat, 8);
            lemma_be_bytes_len(dataset.steps_removed as nat, 2);
            assert(b.len() == 64);
            assert(b[47] == dataset.priority_1 && b[48] == dataset.clock_class && b[49] == dataset.clock_accuracy
                && b[52] == dataset.priority_2);
            assert(b.subrange(50, 52) =~= be_bytes(dataset.offset_scaled_log_variance as nat, 2));
            assert(b.subrange(53, 61) =~= be_bytes(dataset.identity.0 as nat, 8));
            assert(b.subrange(61, 63) =~= be_bytes(dataset.steps_removed as nat, 2));
            lemma_read_field(b, 50, dataset.offset_scaled_log_variance as nat, 2);
            lemma_read_field(b, 53, dataset.identity.0 as nat, 8);
            lemma_read_field(b, 61, dataset.steps_removed as nat, 2);
        },
    }
    lemma_read_field(b, 2, len as nat, 2);
    lemma_read_port_identity(b, 20, m.source);
    lemma_read_field(b, 30, m.sequence_id as nat, 2);
}

} // verus!
