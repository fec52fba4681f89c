use timesync::bmca::{compare, ClockIdentity, Dataset, DatasetOrdering, PortIdentity};
use timesync::filter::{steer, ClockAdjustment, Filter, FilterConfig, SteeringConfig};
use timesync::instance::Instance;
use timesync::port::{
    PortAction, PortConfig, PortRole, TimeCriticalKind, TimerKind, TimestampContext,
};
use timesync::wire::{encode_message, parse_message, Message, MessageBody};

const SECOND: u64 = 1_000_000_000;

fn dataset(priority_1: u8, clock_class: u8, identity: u64) -> Dataset {
    Dataset {
        priority_1,
        clock_class,
        clock_accuracy: 0x21,
        offset_scaled_log_variance: 0x4e5d,
        priority_2: 128,
        identity: ClockIdentity(identity),
        steps_removed: 0,
    }
}

fn config() -> PortConfig {
    PortConfig {
        domain: 0,
        announce_interval: 2 * SECOND,
        sync_interval: SECOND,
        delay_request_interval: 2 * SECOND,
        announce_receipt_timeout: 3,
        filter: FilterConfig { min_samples: 1, gain_divisor: 4 },
        steering: SteeringConfig { step_threshold: 1_000_000, frequency_divisor: 1000, max_frequency_ppb: 100_000 },
    }
}

const MASTER: PortIdentity = PortIdentity { clock: ClockIdentity(0xaa), port: 1 };

fn from_master(sequence_id: u16, body: MessageBody) -> Vec<u8> {
    encode_message(&Message { domain: 0, source: MASTER, sequence_id, body })
}

fn listening_instance() -> Instance {
    let mut instance = Instance::new(dataset(255, 248, 0x11));
    let i = instance.add_port(config());
    let mut p = instance.ports[i];
    let actions = p.set_role(PortRole::Listening);
    instance.ports[i] = p;
    assert_eq!(
        actions,
        vec![PortAction::ResetTimer { timer: TimerKind::AnnounceReceipt, duration: 6 * SECOND }]
    );
    instance
}

#[test]
fn comparator_is_antisymmetric() {
    let a = dataset(128, 6, 1);
    let b = dataset(128, 7, 0);
    assert_eq!(compare(&a, &b), DatasetOrdering::Better);
    assert_eq!(compare(&b, &a), DatasetOrdering::Worse);
    assert_eq!(compare(&a, &a), DatasetOrdering::Same);
    let c = dataset(128, 6, 2);
    assert_eq!(compare(&a, &c), DatasetOrdering::Better);
    assert_eq!(compare(&c, &a), DatasetOrdering::Worse);
    let mut d = a;
    d.steps_removed = 1;
    assert_eq!(compare(&a, &d), DatasetOrdering::Better);
    let e = dataset(1, 255, 9);
    assert_eq!(compare(&e, &a), DatasetOrdering::Better);
}

#[test]
fn wire_round_trip() {
    let messages = [
        Message { domain: 3, source: MASTER, sequence_id: 7, body: MessageBody::Sync { origin: 5 * SECOND + 17 } },
        Message { domain: 0, source: MASTER, sequence_id: 65535, body: MessageBody::DelayReq { origin: 0 } },
        Message { domain: 0, source: MASTER, sequence_id: 1, body: MessageBody::FollowUp { precise_origin: u64::MAX } },
        Message {
            domain: 0,
            source: MASTER,
            sequence_id: 9,
            body: MessageBody::DelayResp {
                receive: 123_456_789_012,
                requesting: PortIdentity { clock: ClockIdentity(0x0102030405060708), port: 513 },
            },
        },
        Message { domain: 0, source: MASTER, sequence_id: 2, body: MessageBody::Announce { dataset: dataset(10, 6, 0xdead) } },
    ];
    for m in messages.iter() {
        let bytes = encode_message(m);
        assert_eq!(parse_message(&bytes), Some(*m));
    }
    let sync = encode_message(&messages[0]);
    assert_eq!(sync.len(), 44);
    assert_eq!(&sync[0..4], &[0x00, 0x02, 0x00, 44]);
    assert_eq!(&sync[34..44], &[0, 0, 0, 0, 0, 5, 0, 0, 0, 17]);
}

#[test]
fn wire_rejects_malformed() {
    let good = from_master(1, MessageBody::Sync { origin: 0 });
    assert_eq!(parse_message(&good[..33]), None);
    let mut short_length = good.clone();
    short_length[3] = 40;
    assert_eq!(parse_message(&short_length), None);
    let mut wrong_version = good.clone();
    wrong_version[1] = 1;
    assert_eq!(parse_message(&wrong_version), None);
    let mut unknown_kind = good.clone();
    unknown_kind[0] = 0x3;
    assert_eq!(parse_message(&unknown_kind), None);
    let mut bad_nanos = good.clone();
    bad_nanos[40] = 0xff;
    assert_eq!(parse_message(&bad_nanos), None);
}

#[test]
fn filter_waits_for_minimum_samples() {
    let mut f = Filter::new(FilterConfig { min_samples: 3, gain_divisor: 2 });
    assert_eq!(f.update(1000), None);
    assert_eq!(f.update(1000), None);
    assert_eq!(f.update(1000), Some(1000));
}

#[test]
fn filter_converges_to_stationary_bias() {
    let mut f = Filter::new(FilterConfig { min_samples: 1, gain_divisor: 4 });
    assert_eq!(f.update(0), Some(0));
    let noise = [3i128, -2, 1, 0, -3, 2, -1];
    let mut last = 0;
    for k in 0..200 {
        last = f.update(500_000 + noise[k % noise.len()]).unwrap();
    }
    assert!((last - 500_000).abs() <= 10);
    let mut g = Filter::new(FilterConfig { min_samples: 1, gain_divisor: 2 });
    assert_eq!(g.update(100), Some(100));
    assert_eq!(g.update(0), Some(50));
    assert_eq!(g.update(0), Some(25));
    assert_eq!(g.update(-1), Some(12));
}

#[test]
fn steering_modes() {
    let c = SteeringConfig { step_threshold: 1_000_000, frequency_divisor: 1000, max_frequency_ppb: 300 };
    assert_eq!(steer(&c, 2_000_000), ClockAdjustment::Step { offset: -2_000_000 });
    assert_eq!(steer(&c, -1_000_000), ClockAdjustment::Step { offset: 1_000_000 });
    assert_eq!(steer(&c, 250_000), ClockAdjustment::Frequency { ppb: -250 });
    assert_eq!(steer(&c, 999_999), ClockAdjustment::Frequency { ppb: -300 });
    assert_eq!(steer(&c, -1500), ClockAdjustment::Frequency { ppb: 1 });
}

#[test]
fn announce_timeout_without_announce_listens() {
    let mut instance = listening_instance();
    let mut p = instance.ports[0];
    let actions = p.handle_timer(TimerKind::AnnounceReceipt);
    instance.ports[0] = p;
    assert_eq!(p.role, PortRole::Listening);
    assert!(p.best.is_none());
    assert_eq!(
        actions,
        vec![PortAction::ResetTimer { timer: TimerKind::AnnounceReceipt, duration: 6 * SECOND }]
    );
    assert!(!actions.iter().any(|a| matches!(a, PortAction::Steer { .. })));
}

#[test]
fn announce_timeout_demotes_any_role() {
    let mut instance = listening_instance();
    let mut p = instance.ports[0];
    p.handle_message(&from_master(0, MessageBody::Announce { dataset: dataset(1, 6, 0xaa) }), None);
    for role in [PortRole::Slave, PortRole::Master, PortRole::Passive, PortRole::PreMaster] {
        let mut q = p;
        q.set_role(role);
        q.handle_timer(TimerKind::AnnounceReceipt);
        assert_eq!(q.role, PortRole::Listening);
        assert!(q.best.is_none());
        assert!(q.pending.is_none());
    }
    instance.ports[0] = p;
}

#[test]
fn bmca_sweep_is_idempotent() {
    let mut instance = listening_instance();
    let j = instance.add_port(config());
    let mut p = instance.ports[0];
    p.handle_message(&from_master(0, MessageBody::Announce { dataset: dataset(1, 6, 0xaa) }), None);
    instance.ports[0] = p;
    let first = instance.bmca();
    let roles: Vec<PortRole> = instance.ports.iter().map(|p| p.role).collect();
    assert_eq!(roles, vec![PortRole::Slave, PortRole::Master]);
    assert_eq!(first[j].len(), 2);
    let second = instance.bmca();
    let again: Vec<PortRole> = instance.ports.iter().map(|p| p.role).collect();
    assert_eq!(roles, again);
    assert!(second.iter().all(|a| a.is_empty()));
}

#[test]
fn send_timestamps_belong_to_their_request() {
    let mut instance = listening_instance();
    let mut p = instance.ports[0];
    p.handle_message(&from_master(0, MessageBody::Announce { dataset: dataset(1, 6, 0xaa) }), None);
    p.set_role(PortRole::Slave);
    for n in 0..3u16 {
        let actions = p.handle_timer(TimerKind::DelayRequest);
        let context = match &actions[0] {
            PortAction::SendTimeCritical { context, data } => {
                let m = parse_message(data).unwrap();
                assert_eq!(m.sequence_id, n);
                *context
            }
            other => panic!("unexpected action {:?}", other),
        };
        assert_eq!(context, TimestampContext { kind: TimeCriticalKind::DelayReq, sequence_id: n });
        let t = 1000 * (n as u64 + 1);
        assert!(p.handle_send_timestamp(context, t).is_empty());
        let d = p.delay.unwrap();
        assert_eq!(d.sequence_id, n);
        assert_eq!(d.send, Some(t));
        assert!(p.pending.is_none());
    }
    let stray = TimestampContext { kind: TimeCriticalKind::Sync, sequence_id: 0 };
    assert!(p.handle_send_timestamp(stray, 5).is_empty());
    assert_eq!(p.role, PortRole::Faulty);
    instance.ports[0] = p;
}

#[test]
fn master_sends_follow_up_with_send_time() {
    let mut instance = listening_instance();
    let mut p = instance.ports[0];
    assert_eq!(p.set_role(PortRole::Master).len(), 2);
    let actions = p.handle_timer(TimerKind::Sync);
    let context = match &actions[0] {
        PortAction::SendTimeCritical { context, .. } => *context,
        other => panic!("unexpected action {:?}", other),
    };
    let follow = p.handle_send_timestamp(context, 77 * SECOND + 5);
    match &follow[0] {
        PortAction::SendGeneral { data } => {
            let m = parse_message(data).unwrap();
            assert_eq!(m.sequence_id, context.sequence_id);
            assert_eq!(m.body, MessageBody::FollowUp { precise_origin: 77 * SECOND + 5 });
        }
        other => panic!("unexpected action {:?}", other),
    }
    let req = encode_message(&Message {
        domain: 0,
        source: MASTER,
        sequence_id: 4,
        body: MessageBody::DelayReq { origin: 0 },
    });
    let reply = p.handle_message(&req, Some(9 * SECOND));
    match &reply[0] {
        PortAction::SendGeneral { data } => {
            let m = parse_message(data).unwrap();
            assert_eq!(m.sequence_id, 4);
            assert_eq!(m.body, MessageBody::DelayResp { receive: 9 * SECOND, requesting: MASTER });
        }
        other => panic!("unexpected action {:?}", other),
    }
    instance.ports[0] = p;
}

#[test]
fn single_source_end_to_end() {
    let mut instance = listening_instance();
    let mut p = instance.ports[0];
    for (k, class) in [248u8, 187, 6].iter().enumerate() {
        let actions = p.handle_message(
            &from_master(k as u16, MessageBody::Announce { dataset: dataset(128, *class, 0xaa) }),
            None,
        );
        assert_eq!(
            actions,
            vec![PortAction::ResetTimer { timer: TimerKind::AnnounceReceipt, duration: 6 * SECOND }]
        );
    }
    instance.ports[0] = p;
    instance.bmca();
    let mut p = instance.ports[0];
    assert_eq!(p.role, PortRole::Slave);
    assert_eq!(p.best.unwrap().source, MASTER);
    assert_eq!(p.best.unwrap().dataset.clock_class, 6);

    let offset: u64 = 500_000;
    let path: u64 = 100_000;
    let t1 = 10 * SECOND;
    let t2 = t1 + path + offset;
    assert!(p.handle_message(&from_master(0, MessageBody::Sync { origin: 0 }), Some(t2)).is_empty());
    assert!(p.handle_message(&from_master(0, MessageBody::FollowUp { precise_origin: t1 }), None).is_empty());
    let actions = p.handle_timer(TimerKind::DelayRequest);
    let context = match &actions[0] {
        PortAction::SendTimeCritical { context, .. } => *context,
        other => panic!("unexpected action {:?}", other),
    };
    let t3 = t2 + SECOND;
    p.handle_send_timestamp(context, t3);
    let t4 = t3 - offset + path;
    let resp = from_master(
        context.sequence_id,
        MessageBody::DelayResp { receive: t4, requesting: p.identity },
    );
    let actions = p.handle_message(&resp, None);
    let sample = p.last_sample.unwrap();
    assert_eq!(sample.offset, 500_000);
    assert_eq!(sample.delay, 100_000);
    assert_eq!(actions, vec![PortAction::Steer { adjustment: ClockAdjustment::Frequency { ppb: -500 } }]);
    instance.ports[0] = p;
}

#[test]
fn foreign_domain_and_worse_sources_are_ignored() {
    let mut instance = listening_instance();
    let mut p = instance.ports[0];
    let other_domain = encode_message(&Message {
        domain: 5,
        source: MASTER,
        sequence_id: 0,
        body: MessageBody::Announce { dataset: dataset(1, 6, 0xaa) },
    });
    assert!(p.handle_message(&other_domain, None).is_empty());
    assert!(p.best.is_none());
    p.handle_message(&from_master(0, MessageBody::Announce { dataset: dataset(1, 6, 0xaa) }), None);
    let worse = encode_message(&Message {
        domain: 0,
        source: PortIdentity { clock: ClockIdentity(0xbb), port: 1 },
        sequence_id: 0,
        body: MessageBody::Announce { dataset: dataset(2, 6, 0xbb) },
    });
    assert!(p.handle_message(&worse, None).is_empty());
    assert_eq!(p.best.unwrap().source, MASTER);
    assert!(p.handle_message(&[1, 2, 3], None).is_empty());
    instance.ports[0] = p;
}

#[test]
fn clock_failure_and_reset() {
    let mut instance = listening_instance();
    let mut p = instance.ports[0];
    p.handle_message(&from_master(0, MessageBody::Announce { dataset: dataset(1, 6, 0xaa) }), None);
    p.set_role(PortRole::Slave);
    assert!(p.handle_clock_failure().is_empty());
    assert_eq!(p.role, PortRole::Faulty);
    assert!(p.handle_timer(TimerKind::AnnounceReceipt).is_empty());
    assert_eq!(p.role, PortRole::Faulty);
    let actions = p.reset();
    assert_eq!(p.role, PortRole::Listening);
    assert!(p.best.is_none());
    assert_eq!(
        actions,
        vec![PortAction::ResetTimer { timer: TimerKind::AnnounceReceipt, duration: 6 * SECOND }]
    );
    instance.ports[0] = p;
}

#[test]
fn instance_entry_points_and_snapshot() {
    let mut instance = Instance::new(dataset(255, 248, 0x11));
    let i = instance.add_port(config());
    assert_eq!(instance.ports[i].identity, PortIdentity { clock: ClockIdentity(0x11), port: 1 });
    let actions = instance.reset_port(i);
    assert_eq!(
        actions,
        vec![PortAction::ResetTimer { timer: TimerKind::AnnounceReceipt, duration: 6 * SECOND }]
    );
    let actions = instance.handle_message(
        i,
        &from_master(0, MessageBody::Announce { dataset: dataset(1, 6, 0xaa) }),
        None,
    );
    assert_eq!(actions.len(), 1);
    assert!(instance.snapshot().steering_port.is_none());
    instance.bmca();
    let snap = instance.snapshot();
    assert_eq!(snap.steering_port, Some(i));
    assert_eq!(snap.ports[i].role, PortRole::Slave);
    assert_eq!(snap.ports[i].best, Some(dataset(1, 6, 0xaa)));
    let actions = instance.handle_timer(i, TimerKind::DelayRequest);
    let context = match &actions[0] {
        PortAction::SendTimeCritical { context, .. } => *context,
        other => panic!("unexpected action {:?}", other),
    };
    assert!(instance.snapshot().ports[i].awaiting_timestamp);
    assert!(instance.handle_send_timestamp(i, context, 42).is_empty());
    assert!(!instance.snapshot().ports[i].awaiting_timestamp);
    assert_eq!(instance.ports[i].delay.unwrap().send, Some(42));
}

fn exchange(p: &mut timesync::port::Port, seq: u16, t1: u64, offset: u64, path: u64) -> Vec<PortAction> {
    let t2 = t1 + path + offset;
    p.handle_message(&from_master(seq, MessageBody::Sync { origin: 0 }), Some(t2));
    p.handle_message(&from_master(seq, MessageBody::FollowUp { precise_origin: t1 }), None);
    let actions = p.handle_timer(TimerKind::DelayRequest);
    let context = match &actions[0] {
        PortAction::SendTimeCritical { context, .. } => *context,
        other => panic!("unexpected action {:?}", other),
    };
    let t3 = t2 + 1000;
    p.handle_send_timestamp(context, t3);
    let t4 = t3 - offset + path;
    let resp = from_master(context.sequence_id, MessageBody::DelayResp { receive: t4, requesting: p.identity });
    p.handle_message(&resp, None)
}

#[test]
fn large_offset_steps_and_restarts_filter() {
    let mut instance = listening_instance();
    instance.handle_message(0, &from_master(0, MessageBody::Announce { dataset: dataset(1, 6, 0xaa) }), None);
    instance.bmca();
    let mut p = instance.ports[0];
    let actions = exchange(&mut p, 0, 20 * SECOND, 5_000_000, 40_000);
    assert_eq!(actions, vec![PortAction::Steer { adjustment: ClockAdjustment::Step { offset: -5_000_000 } }]);
    assert_eq!(p.filter.samples, 0);
    let actions = exchange(&mut p, 1, 21 * SECOND, 2_000, 40_000);
    assert_eq!(actions, vec![PortAction::Steer { adjustment: ClockAdjustment::Frequency { ppb: -2 } }]);
    assert_eq!(p.filter.samples, 1);
    instance.ports[0] = p;
}

#[test]
fn passive_port_does_not_measure() {
    let mut instance = listening_instance();
    let mut p = instance.ports[0];
    p.handle_message(&from_master(0, MessageBody::Announce { dataset: dataset(1, 6, 0xaa) }), None);
    p.set_role(PortRole::Passive);
    assert!(p.handle_timer(TimerKind::DelayRequest).is_empty());
    assert!(p.handle_message(&from_master(0, MessageBody::Sync { origin: 0 }), Some(5 * SECOND)).is_empty());
    assert!(p.sync.is_none());
    let resp = from_master(0, MessageBody::DelayResp { receive: 6 * SECOND, requesting: p.identity });
    assert!(p.handle_message(&resp, None).is_empty());
    assert!(p.last_sample.is_none());
    instance.ports[0] = p;
}
