use vstd::prelude::*;
use crate::bmca::{better, Dataset, PortIdentity};
use crate::filter::{
    adjustment_for, filter_wf, fresh, steer, steering_wf, trunc_div, updated, div_toward_zero, ClockAdjustment,
    Filter, FilterConfig, SteeringConfig,
};
use crate::wire::{encode_message, message_bytes, parse_spec, parse_message, Message, MessageBody};

verus! {

/// The role of a port.
#[derive(Debug, Clone, Copy, PartialEq, Eq, Structural)]
pub enum PortRole {
    Initializing,
    Listening,
    PreMaster,
    Master,
    Passive,
    Slave,
    Faulty,
    Disabled,
}

/// The timers of a port.
#[derive(Debug, Clone, Copy, PartialEq, Eq, Structural)]
pub enum TimerKind {
    Announce,
    Sync,
    DelayRequest,
    AnnounceReceipt,
}

/// The messages whose send time is measured.
#[derive(Debug, Clone, Copy, PartialEq, Eq, Structural)]
pub enum TimeCriticalKind {
    Sync,
    DelayReq,
}

/// Names a time-critical send, so that its send timestamp can be matched to it.
#[derive(Debug, Clone, Copy, PartialEq, Eq, Structural)]
pub struct TimestampContext {
    pub kind: TimeCriticalKind,
    pub sequence_id: u16,
}

/// What a port configuration fixes.
#[derive(Debug, Clone, Copy, PartialEq, Eq, Structural)]
pub struct PortConfig {
    pub domain: u8,
    /// Nanoseconds between announce messages.
    pub announce_interval: u64,
    /// Nanoseconds between sync messages.
    pub sync_interval: u64,
    /// Nanoseconds between delay requests.
    pub delay_request_interval: u64,
    /// Announce intervals without an announce before the source is dropped.
    pub announce_receipt_timeout: u8,
    pub filter: FilterConfig,
    pub steering: SteeringConfig,
}

/// The source a port has heard announce itself.
#[derive(Debug, Clone, Copy, PartialEq, Eq, Structural)]
pub struct ForeignMaster {
    pub source: PortIdentity,
    pub dataset: Dataset,
}

/// A sync received from the master: its receive time and, once the follow-up
/// came, its send time.
#[derive(Debug, Clone, Copy, PartialEq, Eq, Structural)]
pub struct SyncExchange {
    pub sequence_id: u16,
    pub receive: u64,
    pub origin: Option<u64>,
}

/// A delay request sent to the master and, once reported, its send time.
#[derive(Debug, Clone, Copy, PartialEq, Eq, Structural)]
pub struct DelayExchange {
    pub sequence_id: u16,
    pub send: Option<u64>,
}

/// One measurement, in nanoseconds: the local clock minus the master's, and
/// the mean path delay, at the local receive time of the sync.
#[derive(Debug, Clone, Copy, PartialEq, Eq, Structural)]
pub struct Sample {
    pub offset: i128,
    pub delay: i128,
    pub time: u64,
}

/// The protocol state of one network link.
#[derive(Debug, Clone, Copy, PartialEq, Eq, Structural)]
pub struct Port {
    pub identity: PortIdentity,
    pub config: PortConfig,
    /// The dataset this port announces when it is master.
    pub own: Dataset,
    pub role: PortRole,
    pub best: Option<ForeignMaster>,
    pub announce_seq: u16,
    pub sync_seq: u16,
    pub delay_req_seq: u16,
    /// The one time-critical send whose send time is awaited. A new
    /// time-critical send replaces it: the older exchange is abandoned, and a
    /// send time reported for it later breaks the correlation.
    pub pending: Option<TimestampContext>,
    pub sync: Option<SyncExchange>,
    pub delay: Option<DelayExchange>,
    pub filter: Filter,
    pub last_sample: Option<Sample>,
}

/// What an observer may read of a port.
#[derive(Debug, Clone, Copy, PartialEq, Eq, Structural)]
pub struct PortSnapshot {
    pub identity: PortIdentity,
    pub role: PortRole,
    /// The dataset of the source the port heard, if any.
    pub best: Option<Dataset>,
    pub last_sample: Option<Sample>,
    /// Whether a send time is awaited.
    pub awaiting_timestamp: bool,
    /// Samples the filter has taken.
    pub filter_samples: u32,
}

/// The snapshot of a port.
pub open spec fn snapshot_of(p: Port) -> PortSnapshot {
    PortSnapshot {
        identity: p.identity,
        role: p.role,
        best: match p.best {
            Some(b) => Some(b.dataset),
            None => None,
        },
        last_sample: p.last_sample,
        awaiting_timestamp: p.pending is Some,
        filter_samples: p.filter.samples,
    }
}

/// One effect that the caller performs, in order.
#[derive(Debug, Clone, PartialEq, Eq)]
pub enum PortAction {
    /// Send, then report the send time with `context`.
    SendTimeCritical { context: TimestampContext, data: Vec<u8> },
    SendGeneral { data: Vec<u8> },
    /// Let `timer` fire after `duration` nanoseconds, replacing its earlier deadline.
    ResetTimer { timer: TimerKind, duration: u64 },
    /// Correct the local clock.
    Steer { adjustment: ClockAdjustment },
}

/// A `PortAction` with its bytes as a sequence.
pub enum ActionView {
    SendTimeCritical { context: TimestampContext, data: Seq<u8> },
    SendGeneral { data: Seq<u8> },
    ResetTimer { timer: TimerKind, duration: u64 },
    Steer { adjustment: ClockAdjustment },
}

impl View for PortAction {
    type V = ActionView;

    open spec fn view(&self) -> ActionView {
        match self {
            PortAction::SendTimeCritical { context, data } => ActionView::SendTimeCritical {
                context: *context,
                data: data@,
            },
            PortAction::SendGeneral { data } => ActionView::SendGeneral { data: data@ },
            PortAction::ResetTimer { timer, duration } => ActionView::ResetTimer {
                timer: *timer,
                duration: *duration,
            },
            PortAction::Steer { adjustment } => ActionView::Steer { adjustment: *adjustment },
        }
    }
}

/// The views of a sequence of actions.
pub open spec fn actions_view(v: Seq<PortAction>) -> Seq<ActionView> {
    v.map_values(|a: PortAction| a@)
}

/// Nanoseconds without an announce after which the source is dropped.
pub open spec fn receipt_timeout(c: PortConfig) -> u64 {
    (c.announce_interval * c.announce_receipt_timeout) as u64
}

/// Whether a configuration is usable.
pub open spec fn config_wf(c: PortConfig) -> bool {
    c.announce_interval * c.announce_receipt_timeout <= u64::MAX && c.filter.gain_divisor >= 1
        && steering_wf(c.steering)
}

/// Whether a port's values are consistent.
pub open spec fn port_wf(p: Port) -> bool {
    config_wf(p.config) && filter_wf(p.filter) && p.filter.config == p.config.filter
}

/// The sequence number after `s`, wrapping.
pub open spec fn next_seq(s: u16) -> u16 {
    if s == u16::MAX {
        0
    } else {
        (s + 1) as u16
    }
}

/// The port without any exchange in flight.
pub open spec fn cleared(p: Port) -> Port {
    Port { pending: None, sync: None, delay: None, ..p }
}

/// A message from this port.
pub open spec fn outgoing(p: Port, sequence_id: u16, body: MessageBody) -> Message {
    Message { domain: p.config.domain, source: p.identity, sequence_id, body }
}

/// The timers a port starts when it takes a role.
pub open spec fn role_timers(c: PortConfig, r: PortRole) -> Seq<ActionView> {
    match r {
        PortRole::Master => seq![
            ActionView::ResetTimer { timer: TimerKind::Announce, duration: c.announce_interval },
            ActionView::ResetTimer { timer: TimerKind::Sync, duration: c.sync_interval },
        ],
        PortRole::Slave => seq![
            ActionView::ResetTimer { timer: TimerKind::DelayRequest, duration: c.delay_request_interval },
            ActionView::ResetTimer { timer: TimerKind::AnnounceReceipt, duration: receipt_timeout(c) },
        ],
        PortRole::Listening | PortRole::Passive => seq![
            ActionView::ResetTimer { timer: TimerKind::AnnounceReceipt, duration: receipt_timeout(c) },
        ],
        _ => seq![],
    }
}

/// Taking role `r`: nothing changes when the port has it already; otherwise
/// the exchanges in flight are dropped and the role's timers started.
pub open spec fn role_step(p: Port, r: PortRole) -> (Port, Seq<ActionView>) {
    if p.role == r {
        (p, seq![])
    } else {
        (Port { role: r, ..cleared(p) }, role_timers(p.config, r))
    }
}

/// A timer firing.
pub open spec fn timer_step(p: Port, t: TimerKind) -> (Port, Seq<ActionView>) {
    match t {
        TimerKind::Announce => if p.role == PortRole::Master {
            (
                Port { announce_seq: next_seq(p.announce_seq), ..p },
                seq![
                    ActionView::SendGeneral {
                        data: message_bytes(outgoing(p, p.announce_seq, MessageBody::Announce { dataset: p.own })),
                    },
                    ActionView::ResetTimer { timer: TimerKind::Announce, duration: p.config.announce_interval },
                ],
            )
        } else {
            (p, seq![])
        },
        TimerKind::Sync => if p.role == PortRole::Master {
            let context = TimestampContext { kind: TimeCriticalKind::Sync, sequence_id: p.sync_seq };
            (
                Port { sync_seq: next_seq(p.sync_seq), pending: Some(context), ..p },
                seq![
                    ActionView::SendTimeCritical {
                        context,
                        data: message_bytes(outgoing(p, p.sync_seq, MessageBody::Sync { origin: 0 })),
                    },
                    ActionView::ResetTimer { timer: TimerKind::Sync, duration: p.config.sync_interval },
                ],
            )
        } else {
            (p, seq![])
        },
        TimerKind::DelayRequest => if p.role == PortRole::Slave {
            let context = TimestampContext { kind: TimeCriticalKind::DelayReq, sequence_id: p.delay_req_seq };
            (
                Port {
                    delay_req_seq: next_seq(p.delay_req_seq),
                    pending: Some(context),
                    delay: Some(DelayExchange { sequence_id: p.delay_req_seq, send: None }),
                    ..p
                },
                seq![
                    ActionView::SendTimeCritical {
                        context,
                        data: message_bytes(outgoing(p, p.delay_req_seq, MessageBody::DelayReq { origin: 0 })),
                    },
                    ActionView::ResetTimer {
                        timer: TimerKind::DelayRequest,
                        duration: p.config.delay_request_interval,
                    },
                ],
            )
        } else {
            (p, seq![])
        },
        TimerKind::AnnounceReceipt => if p.role == PortRole::Faulty || p.role == PortRole::Disabled {
            (p, seq![])
        } else {
            (
                Port { role: PortRole::Listening, best: None, ..cleared(p) },
                seq![
                    ActionView::ResetTimer {
                        timer: TimerKind::AnnounceReceipt,
                        duration: receipt_timeout(p.config),
                    },
                ],
            )
        },
    }
}

/// Whether an announce of `dataset` from `source` replaces the port's best
/// source: there is none yet, it comes from that same source, or it is better.
pub open spec fn announce_qualifies(p: Port, source: PortIdentity, dataset: Dataset) -> bool {
    match p.best {
        None => true,
        Some(b) => b.source == source || better(dataset, b.dataset),
    }
}

/// Whether `source` is the port's chosen master and the port follows it.
pub open spec fn from_master(p: Port, source: PortIdentity) -> bool {
    p.role == PortRole::Slave && match p.best {
        Some(b) => b.source == source,
        None => false,
    }
}

/// Offset and mean path delay from the four times of an exchange.
pub open spec fn sample_of(t1: u64, t2: u64, t3: u64, t4: u64) -> Sample {
    let there = t2 - t1;
    let back = t4 - t3;
    Sample { offset: trunc_div(there - back, 2) as i128, delay: trunc_div(there + back, 2) as i128, time: t2 }
}

/// A completed exchange: the sample goes to the filter, and once the filter
/// is warm the clock is steered by its estimate. A step makes the earlier
/// samples meaningless, so the filter then starts cold again and no further
/// correction comes before it has warmed up anew.
pub open spec fn complete_step(p: Port, t1: u64, t2: u64, t3: u64, t4: u64) -> (Port, Seq<ActionView>) {
    let s = sample_of(t1, t2, t3, t4);
    let f = updated(p.filter, s.offset);
    if f.samples >= f.config.min_samples {
        let a = adjustment_for(p.config.steering, f.estimate as int);
        (
            Port {
                filter: if a is Step {
                    fresh(f.config)
                } else {
                    f
                },
                last_sample: Some(s),
                delay: None,
                ..p
            },
            seq![ActionView::Steer { adjustment: a }],
        )
    } else {
        (Port { filter: f, last_sample: Some(s), delay: None, ..p }, seq![])
    }
}

/// A received message, with its receive time if it was measured. Messages of
/// another domain, from this clock itself, or reaching a faulty or disabled
/// port are ignored.
pub open spec fn message_step(p: Port, m: Message, ts: Option<u64>) -> (Port, Seq<ActionView>) {
    if m.domain != p.config.domain || m.source.clock == p.identity.clock || p.role == PortRole::Faulty
        || p.role == PortRole::Disabled {
        (p, seq![])
    } else {
        match m.body {
            MessageBody::Announce { dataset } => if announce_qualifies(p, m.source, dataset) {
                (
                    Port { best: Some(ForeignMaster { source: m.source, dataset }), ..p },
                    seq![
                        ActionView::ResetTimer {
                            timer: TimerKind::AnnounceReceipt,
                            duration: receipt_timeout(p.config),
                        },
                    ],
                )
            } else {
                (p, seq![])
            },
            MessageBody::Sync { .. } => match ts {
                Some(t2) => if from_master(p, m.source) {
                    (
                        Port {
                            sync: Some(SyncExchange { sequence_id: m.sequence_id, receive: t2, origin: None }),
                            ..p
                        },
                        seq![],
                    )
                } else {
                    (p, seq![])
                },
                None => (p, seq![]),
            },
            MessageBody::FollowUp { precise_origin } => match p.sync {
                Some(s) => if from_master(p, m.source) && s.sequence_id == m.sequence_id && s.origin is None {
                    (Port { sync: Some(SyncExchange { origin: Some(precise_origin), ..s }), ..p }, seq![])
                } else {
                    (p, seq![])
                },
                None => (p, seq![]),
            },
            MessageBody::DelayReq { .. } => match ts {
                Some(t4) => if p.role == PortRole::Master {
                    (
                        p,
                        seq![
                            ActionView::SendGeneral {
                                data: message_bytes(
                                    outgoing(
                                        p,
                                        m.sequence_id,
                                        MessageBody::DelayResp { receive: t4, requesting: m.source },
                                    ),
                                ),
                            },
                        ],
                    )
                } else {
                    (p, seq![])
                },
                None => (p, seq![]),
            },
            MessageBody::DelayResp { receive, requesting } => match (p.sync, p.delay) {
                (Some(s), Some(d)) => if from_master(p, m.source) && requesting == p.identity
                    && d.sequence_id == m.sequence_id && s.origin is Some && d.send is Some {
                    complete_step(p, s.origin->0, s.receive, d.send->0, receive)
                } else {
                    (p, seq![])
                },
                _ => (p, seq![]),
            },
        }
    }
}

/// The send time of a time-critical message is reported. It belongs to the
/// pending send only if the contexts agree; any other report breaks the
/// correlation and makes the port faulty. A sync's send time goes out in a
/// follow-up; a delay request's is kept for the exchange it started.
pub open spec fn send_timestamp_step(p: Port, c: TimestampContext, t: u64) -> (Port, Seq<ActionView>) {
    if p.pending == Some(c) {
        match c.kind {
            TimeCriticalKind::Sync => (
                Port { pending: None, ..p },
                seq![
                    ActionView::SendGeneral {
                        data: message_bytes(
                            outgoing(p, c.sequence_id, MessageBody::FollowUp { precise_origin: t }),
                        ),
                    },
                ],
            ),
            TimeCriticalKind::DelayReq => match p.delay {
                Some(d) => if d.sequence_id == c.sequence_id {
                    (Port { pending: None, delay: Some(DelayExchange { send: Some(t), ..d }), ..p }, seq![])
                } else {
                    (Port { pending: None, ..p }, seq![])
                },
                None => (Port { pending: None, ..p }, seq![]),
            },
        }
    } else {
        (Port { role: PortRole::Faulty, ..cleared(p) }, seq![])
    }
}


/// The sequence number after `s`, wrapping.
fn following(s: u16) -> (r: u16)
    ensures
        r == next_seq(s),
{
    if s == u16::MAX {
        0
    } else {
        s + 1
    }
}

/// A one-action sequence.
fn one(a: PortAction) -> (r: Vec<PortAction>)
    ensures
        actions_view(r@) == seq![a@],
{
    let mut v = Vec::new();
    v.push(a);
    assert(actions_view(v@) =~= seq![a@]);
    v
}

/// A two-action sequence.
fn two(a: PortAction, b: PortAction) -> (r: Vec<PortAction>)
    ensures
        actions_view(r@) == seq![a@, b@],
{
    let mut v = Vec::new();
    v.push(a);
    v.push(b);
    assert(actions_view(v@) =~= seq![a@, b@]);
    v
}

/// No action.
fn none() -> (r: Vec<PortAction>)
    ensures
        actions_view(r@) == Seq::<ActionView>::empty(),
        r@.len() == 0,
{
    let v = Vec::new();
    assert(actions_view(v@) =~= Seq::<ActionView>::empty());
    v
}

impl Port {
    /// A port that has not started yet.
    pub fn new(identity: PortIdentity, config: PortConfig, own: Dataset) -> (r: Port)
        requires
            config_wf(config),
        ensures
            port_wf(r),
            r.identity == identity,
            r.config == config,
            r.own == own,
            r.role == PortRole::Initializing,
            r.best is None,
            r.pending is None,
            r.sync is None,
            r.delay is None,
            r.last_sample is None,
            r.filter.config == config.filter && r.filter.samples == 0 && r.filter.estimate == 0,
            r.announce_seq == 0 && r.sync_seq == 0 && r.delay_req_seq == 0,
    {
        Port {
            identity,
            config,
            own,
            role: PortRole::Initializing,
            best: None,
            announce_seq: 0,
            sync_seq: 0,
            delay_req_seq: 0,
            pending: None,
            sync: None,
            delay: None,
            filter: Filter::new(config.filter),
            last_sample: None,
        }
    }

    /// Nanoseconds without an announce after which the source is dropped.
    fn receipt_timeout(&self) -> (r: u64)
        requires
            config_wf(self.config),
        ensures
            r == receipt_timeout(self.config),
    {
        self.config.announce_interval * self.config.announce_receipt_timeout as u64
    }

    /// Takes role `r`, as the instance's source selection decides.
    pub fn set_role(&mut self, r: PortRole) -> (actions: Vec<PortAction>)
        requires
            port_wf(*old(self)),
        ensures
            port_wf(*final(self)),
            (*final(self), actions_view(actions@)) == role_step(*old(self), r),
    {
        if self.role == r {
            return none();
        }
        self.role = r;
        self.pending = None;
        self.sync = None;
        self.delay = None;
        match r {
            PortRole::Master => two(
                PortAction::ResetTimer { timer: TimerKind::Announce, duration: self.config.announce_interval },
                PortAction::ResetTimer { timer: TimerKind::Sync, duration: self.config.sync_interval },
            ),
            PortRole::Slave => two(
                PortAction::ResetTimer {
                    timer: TimerKind::DelayRequest,
                    duration: self.config.delay_request_interval,
                },
                PortAction::ResetTimer { timer: TimerKind::AnnounceReceipt, duration: self.receipt_timeout() },
            ),
            PortRole::Listening | PortRole::Passive => one(
                PortAction::ResetTimer { timer: TimerKind::AnnounceReceipt, duration: self.receipt_timeout() },
            ),
            _ => none(),
        }
    }

    /// Handles the expiry of timer `t`.
    pub fn handle_timer(&mut self, t: TimerKind) -> (actions: Vec<PortAction>)
        requires
            port_wf(*old(self)),
        ensures
            port_wf(*final(self)),
            (*final(self), actions_view(actions@)) == timer_step(*old(self), t),
    {
        match t {
            TimerKind::Announce => {
                if self.role != PortRole::Master {
                    return none();
                }
                let m = Message {
                    domain: self.config.domain,
                    source: self.identity,
                    sequence_id: self.announce_seq,
                    body: MessageBody::Announce { dataset: self.own },
                };
                self.announce_seq = following(self.announce_seq);
                two(
                    PortAction::SendGeneral { data: encode_message(&m) },
                    PortAction::ResetTimer { timer: TimerKind::Announce, duration: self.config.announce_interval },
                )
            },
            TimerKind::Sync => {
                if self.role != PortRole::Master {
                    return none();
                }
                let context = TimestampContext { kind: TimeCriticalKind::Sync, sequence_id: self.sync_seq };
                let m = Message {
                    domain: self.config.domain,
                    source: self.identity,
                    sequence_id: self.sync_seq,
                    body: MessageBody::Sync { origin: 0 },
                };
                self.sync_seq = following(self.sync_seq);
                self.pending = Some(context);
                two(
                    PortAction::SendTimeCritical { context, data: encode_message(&m) },
                    PortAction::ResetTimer { timer: TimerKind::Sync, duration: self.config.sync_interval },
                )
            },
            TimerKind::DelayRequest => {
                if self.role != PortRole::Slave {
                    return none();
                }
                let context = TimestampContext { kind: TimeCriticalKind::DelayReq, sequence_id: self.delay_req_seq };
                let m = Message {
                    domain: self.config.domain,
                    source: self.identity,
                    sequence_id: self.delay_req_seq,
                    body: MessageBody::DelayReq { origin: 0 },
                };
                self.delay = Some(DelayExchange { sequence_id: self.delay_req_seq, send: None });
                self.delay_req_seq = following(self.delay_req_seq);
                self.pending = Some(context);
                two(
                    PortAction::SendTimeCritical { context, data: encode_message(&m) },
                    PortAction::ResetTimer {
                        timer: TimerKind::DelayRequest,
                        duration: self.config.delay_request_interval,
                    },
                )
            },
            TimerKind::AnnounceReceipt => {
                if self.role == PortRole::Faulty || self.role == PortRole::Disabled {
                    return none();
                }
                self.role = PortRole::Listening;
                self.best = None;
                self.pending = None;
                self.sync = None;
                self.delay = None;
                one(PortAction::ResetTimer { timer: TimerKind::AnnounceReceipt, duration: self.receipt_timeout() })
            },
        }
    }

    /// Handles a failure of the local clock to apply a correction or give the
    /// time: the port stops following and measuring, and is faulty until the
    /// instance resets it.
    pub fn handle_clock_failure(&mut self) -> (actions: Vec<PortAction>)
        requires
            port_wf(*old(self)),
        ensures
            port_wf(*final(self)),
            *final(self) == (Port { role: PortRole::Faulty, ..cleared(*old(self)) }),
            actions@.len() == 0,
    {
        self.role = PortRole::Faulty;
        self.pending = None;
        self.sync = None;
        self.delay = None;
        none()
    }

    /// Starts the port afresh after a fault: it forgets its source and listens.
    pub fn reset(&mut self) -> (actions: Vec<PortAction>)
        requires
            port_wf(*old(self)),
        ensures
            port_wf(*final(self)),
            (*final(self), actions_view(actions@)) == role_step(
                Port { best: None, role: PortRole::Initializing, ..*old(self) },
                PortRole::Listening,
            ),
    {
        self.best = None;
        self.role = PortRole::Initializing;
        self.set_role(PortRole::Listening)
    }

    /// What an observer may read of this port.
    pub fn snapshot(&self) -> (r: PortSnapshot)
        ensures
            r == snapshot_of(*self),
    {
        PortSnapshot {
            identity: self.identity,
            role: self.role,
            best: match self.best {
                Some(b) => Some(b.dataset),
                None => None,
            },
            last_sample: self.last_sample,
            awaiting_timestamp: self.pending.is_some(),
            filter_samples: self.filter.samples,
        }
    }

    /// Whether `source` is the chosen master and this port follows it.
    fn is_from_master(&self, source: PortIdentity) -> (r: bool)
        ensures
            r == from_master(*self, source),
    {
        if self.role != PortRole::Slave {
            return false;
        }
        match self.best {
            Some(b) => b.source == source,
            None => false,
        }
    }

    /// Feeds a completed exchange to the filter and steers once it is warm.
    fn complete(&mut self, t1: u64, t2: u64, t3: u64, t4: u64) -> (actions: Vec<PortAction>)
        requires
            port_wf(*old(self)),
        ensures
            port_wf(*final(self)),
            (*final(self), actions_view(actions@)) == complete_step(*old(self), t1, t2, t3, t4),
    {
        let there = t2 as i128 - t1 as i128;
        let back = t4 as i128 - t3 as i128;
        let offset = div_toward_zero(there - back, 2);
        let delay = div_toward_zero(there + back, 2);
        self.last_sample = Some(Sample { offset, delay, time: t2 });
        self.delay = None;
        match self.filter.update(offset) {
            Some(e) => {
                let adjustment = steer(&self.config.steering, e);
                if let ClockAdjustment::Step { .. } = adjustment {
                    self.filter = Filter::new(self.config.filter);
                }
                one(PortAction::Steer { adjustment })
            },
            None => none(),
        }
    }

    /// Handles a decoded message, with its receive time if it was measured.
    pub fn handle_parsed(&mut self, m: &Message, ts: Option<u64>) -> (actions: Vec<PortAction>)
        requires
            port_wf(*old(self)),
        ensures
            port_wf(*final(self)),
            (*final(self), actions_view(actions@)) == message_step(*old(self), *m, ts),
    {
        if m.domain != self.config.domain || m.source.clock == self.identity.clock || self.role
            == PortRole::Faulty || self.role == PortRole::Disabled {
            return none();
        }
        match m.body {
            MessageBody::Announce { dataset } => {
                let qualifies = match self.best {
                    None => true,
                    Some(b) => b.source == m.source || crate::bmca::compare(&dataset, &b.dataset)
                        == crate::bmca::DatasetOrdering::Better,
                };
                if qualifies {
                    self.best = Some(ForeignMaster { source: m.source, dataset });
                    one(PortAction::ResetTimer { timer: TimerKind::AnnounceReceipt, duration: self.receipt_timeout() })
                } else {
                    none()
                }
            },
            MessageBody::Sync { .. } => match ts {
                Some(t2) => {
                    if self.is_from_master(m.source) {
                        self.sync = Some(SyncExchange { sequence_id: m.sequence_id, receive: t2, origin: None });
                    }
                    none()
                },
                None => none(),
            },
            MessageBody::FollowUp { precise_origin } => match self.sync {
                Some(s) => {
                    if self.is_from_master(m.source) && s.sequence_id == m.sequence_id && s.origin.is_none() {
                        self.sync = Some(SyncExchange { origin: Some(precise_origin), ..s });
                    }
                    none()
                },
                None => none(),
            },
            MessageBody::DelayReq { .. } => match ts {
                Some(t4) => {
                    if self.role == PortRole::Master {
                        let reply = Message {
                            domain: self.config.domain,
                            source: self.identity,
                            sequence_id: m.sequence_id,
                            body: MessageBody::DelayResp { receive: t4, requesting: m.source },
                        };
                        one(PortAction::SendGeneral { data: encode_message(&reply) })
                    } else {
                        none()
                    }
                },
                None => none(),
            },
            MessageBody::DelayResp { receive, requesting } => match (self.sync, self.delay) {
                (Some(s), Some(d)) => {
                    if self.is_from_master(m.source) && requesting == self.identity && d.sequence_id
                        == m.sequence_id {
                        match (s.origin, d.send) {
                            (Some(t1), Some(t3)) => self.complete(t1, s.receive, t3, receive),
                            _ => none(),
                        }
                    } else {
                        none()
                    }
                },
                _ => none(),
            },
        }
    }

    /// Handles received bytes, with their receive time if it was measured.
    /// Malformed bytes are ignored.
    pub fn handle_message(&mut self, data: &[u8], ts: Option<u64>) -> (actions: Vec<PortAction>)
        requires
            port_wf(*old(self)),
        ensures
            port_wf(*final(self)),
            match parse_spec(data@) {
                Some(m) => (*final(self), actions_view(actions@)) == message_step(*old(self), m, ts),
                None => *final(self) == *old(self) && actions@.len() == 0,
            },
    {
        match parse_message(data) {
            Some(m) => self.handle_parsed(&m, ts),
            None => none(),
        }
    }

    /// Handles the reported send time of the time-critical message `context`.
    pub fn handle_send_timestamp(&mut self, context: TimestampContext, t: u64) -> (actions: Vec<PortAction>)
        requires
            port_wf(*old(self)),
        ensures
            port_wf(*final(self)),
            (*final(self), actions_view(actions@)) == send_timestamp_step(*old(self), context, t),
    {
        let matches = match self.pending {
            Some(c) => c == context,
            None => false,
        };
        if !matches {
            self.role = PortRole::Faulty;
            self.pending = None;
            self.sync = None;
            self.delay = None;
            return none();
        }
        self.pending = None;
        match context.kind {
            TimeCriticalKind::Sync => {
                let m = Message {
                    domain: self.config.domain,
                    source: self.identity,
                    sequence_id: context.sequence_id,
                    body: MessageBody::FollowUp { precise_origin: t },
                };
                one(PortAction::SendGeneral { data: encode_message(&m) })
            },
            TimeCriticalKind::DelayReq => {
                match self.delay {
                    Some(d) => {
                        if d.sequence_id == context.sequence_id {
                            self.delay = Some(DelayExchange { send: Some(t), ..d });
                        }
                    },
                    None => {},
                }
                none()
            },
        }
    }
}


/// Whether an action corrects the clock.
pub open spec fn is_steer(a: ActionView) -> bool {
    a is Steer
}

/// When the announce receipt timer fires, nothing having reset it since, the
/// port listens again and forgets its source, whatever its role was, unless
/// it is faulty or disabled; it steers nothing.
pub proof fn lemma_announce_timeout_listens(p: Port)
    requires
        p.role != PortRole::Faulty,
        p.role != PortRole::Disabled,
    ensures
        timer_step(p, TimerKind::AnnounceReceipt).0.role == PortRole::Listening,
        timer_step(p, TimerKind::AnnounceReceipt).0.best is None,
        timer_step(p, TimerKind::AnnounceReceipt).0.pending is None,
        forall|k: int|
            0 <= k < timer_step(p, TimerKind::AnnounceReceipt).1.len() ==> !is_steer(
                #[trigger] timer_step(p, TimerKind::AnnounceReceipt).1[k],
            ),
{
}

/// A delay request followed at once by its send time records that time for
/// that very request, and a sync followed by its send time sends that time in
/// the follow-up of that very sync; a send time reported for any context but
/// the pending one is recorded nowhere and makes the port faulty.
pub proof fn lemma_send_timestamp_attribution(p: Port, t: u64, c: TimestampContext, u: u64)
    ensures
        p.role == PortRole::Slave ==> ({
            let (q, a) = timer_step(p, TimerKind::DelayRequest);
            let context = TimestampContext { kind: TimeCriticalKind::DelayReq, sequence_id: p.delay_req_seq };
            &&& a[0] == (ActionView::SendTimeCritical {
                context,
                data: message_bytes(outgoing(p, p.delay_req_seq, MessageBody::DelayReq { origin: 0 })),
            })
            &&& send_timestamp_step(q, context, t).0.delay == Some(
                DelayExchange { sequence_id: p.delay_req_seq, send: Some(t) },
            )
            &&& send_timestamp_step(q, context, t).0.pending is None
        }),
        p.role == PortRole::Master ==> ({
            let (q, a) = timer_step(p, TimerKind::Sync);
            let context = TimestampContext { kind: TimeCriticalKind::Sync, sequence_id: p.sync_seq };
            &&& a[0] == (ActionView::SendTimeCritical {
                context,
                data: message_bytes(outgoing(p, p.sync_seq, MessageBody::Sync { origin: 0 })),
            })
            &&& send_timestamp_step(q, context, t).1 == seq![
                ActionView::SendGeneral {
                    data: message_bytes(outgoing(p, p.sync_seq, MessageBody::FollowUp { precise_origin: t })),
                },
            ]
            &&& send_timestamp_step(q, context, t).0.pending is None
        }),
        p.pending != Some(c) ==> send_timestamp_step(p, c, u).0.role == PortRole::Faulty
            && send_timestamp_step(p, c, u).0.delay is None && send_timestamp_step(p, c, u).0.sync is None
            && send_timestamp_step(p, c, u).1.len() == 0,
{
}


/// Only a port that follows a source steers the clock: no timer, role change
/// or send time ever asks for a correction, and a received message does so
/// only on a port in the slave role.
pub proof fn lemma_only_slave_steers(p: Port, m: Message, ts: Option<u64>, t: TimerKind, r: PortRole, c: TimestampContext, u: u64)
    ensures
        (exists|k: int| 0 <= k < message_step(p, m, ts).1.len() && is_steer(#[trigger] message_step(p, m, ts).1[k]))
            ==> p.role == PortRole::Slave,
        forall|k: int| 0 <= k < timer_step(p, t).1.len() ==> !is_steer(#[trigger] timer_step(p, t).1[k]),
        forall|k: int| 0 <= k < role_step(p, r).1.len() ==> !is_steer(#[trigger] role_step(p, r).1[k]),
        forall|k: int|
            0 <= k < send_timestamp_step(p, c, u).1.len() ==> !is_steer(#[trigger] send_timestamp_step(p, c, u).1[k]),
{
}

} // verus!
