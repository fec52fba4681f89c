use vstd::prelude::*;
use crate::bmca::{better, compare, Dataset, DatasetOrdering, PortIdentity};
use crate::port::{
    actions_view, config_wf, message_step, port_wf, role_step, send_timestamp_step, snapshot_of, timer_step,
    ActionView, Port, PortAction, PortConfig, PortRole, PortSnapshot, TimerKind, TimestampContext,
};
use crate::wire::parse_spec;

verus! {

/// A local clock and the ports through which it takes part in the protocol.
#[derive(Debug)]
pub struct Instance {
    /// The dataset of the local clock.
    pub own: Dataset,
    pub ports: Vec<Port>,
}

/// Whether port `p` takes part in source selection with a source it heard.
pub open spec fn eligible(p: Port) -> bool {
    p.role != PortRole::Faulty && p.role != PortRole::Disabled && p.best is Some
}

/// The dataset of the source a port heard.
pub open spec fn heard(p: Port) -> Dataset {
    p.best->Some_0.dataset
}

/// The dataset that index `w` stands for: the local clock when there is none.
pub open spec fn leader(own: Dataset, ps: Seq<Port>, w: Option<int>) -> Dataset {
    match w {
        Some(j) => heard(ps[j]),
        None => own,
    }
}

/// Among the first `n` ports, the first whose source beats the local clock and
/// every source heard on those ports, if any.
pub open spec fn best_index(own: Dataset, ps: Seq<Port>, n: int) -> Option<int>
    decreases n,
{
    if n <= 0 {
        None
    } else {
        let prev = best_index(own, ps, n - 1);
        if eligible(ps[n - 1]) && better(heard(ps[n - 1]), leader(own, ps, prev)) {
            Some(n - 1)
        } else {
            prev
        }
    }
}

/// The role that source selection gives port `i`: faulty and disabled ports
/// keep theirs, the port of the winning source follows it, a port whose
/// source is at least as good as the local clock stays passive, and the
/// others serve the local clock's time.
pub open spec fn recommended_role(own: Dataset, ps: Seq<Port>, i: int) -> PortRole {
    let p = ps[i];
    if p.role == PortRole::Faulty || p.role == PortRole::Disabled {
        p.role
    } else if best_index(own, ps, ps.len() as int) == Some(i) {
        PortRole::Slave
    } else if eligible(p) && !better(own, heard(p)) {
        PortRole::Passive
    } else {
        PortRole::Master
    }
}

/// The ports after one source selection sweep.
pub open spec fn swept(own: Dataset, ps: Seq<Port>) -> Seq<Port> {
    Seq::new(ps.len(), |i: int| role_step(ps[i], recommended_role(own, ps, i)).0)
}

/// The actions of each port in one source selection sweep.
pub open spec fn sweep_actions(own: Dataset, ps: Seq<Port>) -> Seq<Seq<ActionView>> {
    Seq::new(ps.len(), |i: int| role_step(ps[i], recommended_role(own, ps, i)).1)
}

/// Whether every port is consistent.
pub open spec fn ports_wf(ps: Seq<Port>) -> bool {
    forall|i: int| 0 <= i < ps.len() ==> port_wf(#[trigger] ps[i])
}

/// The views of the actions of each port.
pub open spec fn all_actions_view(v: Seq<Vec<PortAction>>) -> Seq<Seq<ActionView>> {
    v.map_values(|a: Vec<PortAction>| actions_view(a@))
}

/// What an observer may read of an instance.
#[derive(Debug, Clone, PartialEq, Eq)]
pub struct InstanceSnapshot {
    pub own: Dataset,
    pub ports: Vec<PortSnapshot>,
    /// The port that follows a source and steers the local clock, if any.
    pub steering_port: Option<usize>,
}

impl Instance {
    /// What an observer may read of this instance.
    pub fn snapshot(&self) -> (r: InstanceSnapshot)
        ensures
            r.own == self.own,
            r.ports@ == self.ports@.map_values(|p: Port| snapshot_of(p)),
            match r.steering_port {
                Some(i) => i < self.ports@.len() && self.ports@[i as int].role == PortRole::Slave && forall|
                    k: int,
                | 0 <= k < i ==> (#[trigger] self.ports@[k]).role != PortRole::Slave,
                None => forall|k: int| 0 <= k < self.ports@.len() ==> (#[trigger] self.ports@[k]).role
                    != PortRole::Slave,
            },
    {
        let mut ports: Vec<PortSnapshot> = Vec::new();
        let mut steering_port: Option<usize> = None;
        let mut i: usize = 0;
        while i < self.ports.len()
            invariant
                i <= self.ports@.len(),
                ports@ == self.ports@.subrange(0, i as int).map_values(|p: Port| snapshot_of(p)),
                match steering_port {
                    Some(j) => j < i && self.ports@[j as int].role == PortRole::Slave && forall|k: int|
                        0 <= k < j ==> (#[trigger] self.ports@[k]).role != PortRole::Slave,
                    None => forall|k: int| 0 <= k < i ==> (#[trigger] self.ports@[k]).role != PortRole::Slave,
                },
            decreases self.ports.len() - i,
        {
            let p = self.ports[i];
            if steering_port.is_none() && p.role == PortRole::Slave {
                steering_port = Some(i);
            }
            ports.push(p.snapshot());
            assert(ports@ =~= self.ports@.subrange(0, i + 1).map_values(|p: Port| snapshot_of(p)));
            i += 1;
        }
        assert(self.ports@.subrange(0, i as int) =~= self.ports@);
        InstanceSnapshot { own: self.own, ports, steering_port }
    }

    /// An instance of the local clock with dataset `own` and no port.
    pub fn new(own: Dataset) -> (r: Instance)
        ensures
            r.own == own,
            r.ports@.len() == 0,
    {
        Instance { own, ports: Vec::new() }
    }

    /// Adds a port, numbered from one, and returns its index.
    pub fn add_port(&mut self, config: PortConfig) -> (r: usize)
        requires
            config_wf(config),
            ports_wf(old(self).ports@),
            old(self).ports@.len() < u16::MAX,
        ensures
            ports_wf(final(self).ports@),
            final(self).own == old(self).own,
            r == old(self).ports@.len(),
            final(self).ports@.len() == r + 1,
            final(self).ports@.subrange(0, r as int) == old(self).ports@,
            final(self).ports@[r as int].identity == (PortIdentity {
                clock: old(self).own.identity,
                port: (r + 1) as u16,
            }),
            final(self).ports@[r as int].role == PortRole::Initializing,
            final(self).ports@[r as int].best is None,
            final(self).ports@[r as int].config == config,
            final(self).ports@[r as int].own == old(self).own,
    {
        let r = self.ports.len();
        let identity = PortIdentity { clock: self.own.identity, port: (r + 1) as u16 };
        let p = Port::new(identity, config, self.own);
        self.ports.push(p);
        assert(self.ports@.subrange(0, r as int) =~= old(self).ports@);
        r
    }

    /// Hands received bytes to port `i`, with their receive time if it was
    /// measured; malformed bytes are ignored.
    pub fn handle_message(&mut self, i: usize, data: &[u8], ts: Option<u64>) -> (actions: Vec<PortAction>)
        requires
            ports_wf(old(self).ports@),
            i < old(self).ports@.len(),
        ensures
            ports_wf(final(self).ports@),
            final(self).own == old(self).own,
            match parse_spec(data@) {
                Some(m) => final(self).ports@ == old(self).ports@.update(
                    i as int,
                    message_step(old(self).ports@[i as int], m, ts).0,
                ) && actions_view(actions@) == message_step(old(self).ports@[i as int], m, ts).1,
                None => final(self).ports@ == old(self).ports@ && actions@.len() == 0,
            },
    {
        let mut p = self.ports[i];
        let actions = p.handle_message(data, ts);
        self.ports.set(i, p);
        proof {
            if parse_spec(data@) is None {
                assert(self.ports@ =~= old(self).ports@);
            }
        }
        actions
    }

    /// Tells port `i` that its timer `t` fired.
    pub fn handle_timer(&mut self, i: usize, t: TimerKind) -> (actions: Vec<PortAction>)
        requires
            ports_wf(old(self).ports@),
            i < old(self).ports@.len(),
        ensures
            ports_wf(final(self).ports@),
            final(self).own == old(self).own,
            final(self).ports@ == old(self).ports@.update(i as int, timer_step(old(self).ports@[i as int], t).0),
            actions_view(actions@) == timer_step(old(self).ports@[i as int], t).1,
    {
        let mut p = self.ports[i];
        let actions = p.handle_timer(t);
        self.ports.set(i, p);
        actions
    }

    /// Reports to port `i` the send time of its time-critical message `context`.
    pub fn handle_send_timestamp(&mut self, i: usize, context: TimestampContext, t: u64) -> (actions: Vec<
        PortAction,
    >)
        requires
            ports_wf(old(self).ports@),
            i < old(self).ports@.len(),
        ensures
            ports_wf(final(self).ports@),
            final(self).own == old(self).own,
            final(self).ports@ == old(self).ports@.update(
                i as int,
                send_timestamp_step(old(self).ports@[i as int], context, t).0,
            ),
            actions_view(actions@) == send_timestamp_step(old(self).ports@[i as int], context, t).1,
    {
        let mut p = self.ports[i];
        let actions = p.handle_send_timestamp(context, t);
        self.ports.set(i, p);
        actions
    }

    /// Starts port `i` afresh, listening for sources; this is how a faulty
    /// port is brought back.
    pub fn reset_port(&mut self, i: usize) -> (actions: Vec<PortAction>)
        requires
            ports_wf(old(self).ports@),
            i < old(self).ports@.len(),
        ensures
            ports_wf(final(self).ports@),
            final(self).own == old(self).own,
            final(self).ports@ == old(self).ports@.update(
                i as int,
                role_step(
                    Port { best: None, role: PortRole::Initializing, ..old(self).ports@[i as int] },
                    PortRole::Listening,
                ).0,
            ),
            actions_view(actions@) == role_step(
                Port { best: None, role: PortRole::Initializing, ..old(self).ports@[i as int] },
                PortRole::Listening,
            ).1,
    {
        let mut p = self.ports[i];
        let actions = p.reset();
        self.ports.set(i, p);
        actions
    }

    /// Index of the winning source among the ports, if one beats the local clock.
    fn winner(&self) -> (r: Option<usize>)
        ensures
            match r {
                Some(w) => best_index(self.own, self.ports@, self.ports@.len() as int) == Some(w as int),
                None => best_index(self.own, self.ports@, self.ports@.len() as int) is None,
            },
    {
        let mut w: Option<usize> = None;
        let mut lead = self.own;
        let mut i: usize = 0;
        while i < self.ports.len()
            invariant
                i <= self.ports@.len(),
                match w {
                    Some(j) => best_index(self.own, self.ports@, i as int) == Some(j as int) && j < i,
                    None => best_index(self.own, self.ports@, i as int) is None,
                },
                lead == leader(
                    self.own,
                    self.ports@,
                    match w {
                        Some(j) => Some(j as int),
                        None => None,
                    },
                ),
            decreases self.ports.len() - i,
        {
            let p = self.ports[i];
            if p.role != PortRole::Faulty && p.role != PortRole::Disabled {
                match p.best {
                    Some(b) => {
                        if compare(&b.dataset, &lead) == DatasetOrdering::Better {
                            w = Some(i);
                            lead = b.dataset;
                        }
                    },
                    None => {},
                }
            }
            i += 1;
        }
        w
    }

    /// Runs source selection over the sources the ports heard and the local
    /// clock, gives each port its role, and returns each port's actions.
    pub fn bmca(&mut self) -> (r: Vec<Vec<PortAction>>)
        requires
            ports_wf(old(self).ports@),
        ensures
            ports_wf(final(self).ports@),
            final(self).own == old(self).own,
            final(self).ports@ == swept(old(self).own, old(self).ports@),
            all_actions_view(r@) == sweep_actions(old(self).own, old(self).ports@),
    {
        let ghost ps = self.ports@;
        let w = self.winner();
        let mut out: Vec<Vec<PortAction>> = Vec::new();
        let mut i: usize = 0;
        while i < self.ports.len()
            invariant
                self.own == old(self).own,
                ps == old(self).ports@,
                self.ports@.len() == ps.len(),
                i <= ps.len(),
                ports_wf(self.ports@),
                ports_wf(ps),
                match w {
                    Some(j) => best_index(self.own, ps, ps.len() as int) == Some(j as int),
                    None => best_index(self.own, ps, ps.len() as int) is None,
                },
                forall|k: int| i <= k < ps.len() ==> self.ports@[k] == ps[k],
                forall|k: int| 0 <= k < i ==> self.ports@[k] == swept(self.own, ps)[k],
                out@.len() == i,
                forall|k: int| 0 <= k < i ==> actions_view(#[trigger] out@[k]@) == sweep_actions(self.own, ps)[k],
            decreases ps.len() - i,
        {
            let mut p = self.ports[i];
            let is_winner = match w {
                Some(j) => j == i,
                None => false,
            };
            let role = if p.role == PortRole::Faulty || p.role == PortRole::Disabled {
                p.role
            } else if is_winner {
                PortRole::Slave
            } else {
                match p.best {
                    Some(b) => if compare(&self.own, &b.dataset) != DatasetOrdering::Better {
                        PortRole::Passive
                    } else {
                        PortRole::Master
                    },
                    None => PortRole::Master,
                }
            };
            assert(role == recommended_role(self.own, ps, i as int));
            let actions = p.set_role(role);
            self.ports.set(i, p);
            out.push(actions);
            i += 1;
        }
        assert(self.ports@ =~= swept(self.own, ps));
        assert(all_actions_view(out@) =~= sweep_actions(self.own, ps));
        out
    }
}


/// The winning index, if any, is a port that takes part in selection.
proof fn lemma_best_index_eligible(own: Dataset, ps: Seq<Port>, n: int)
    requires
        n <= ps.len(),
    ensures
        match best_index(own, ps, n) {
            Some(j) => 0 <= j < n && eligible(ps[j]),
            None => true,
        },
    decreases n,
{
    if n > 0 {
        lemma_best_index_eligible(own, ps, n - 1);
    }
}

/// Selection depends only on which ports take part and the sources they heard.
proof fn lemma_best_index_depends_on_sources(own: Dataset, ps: Seq<Port>, qs: Seq<Port>, n: int)
    requires
        n <= ps.len(),
        ps.len() == qs.len(),
        forall|k: int| 0 <= k < ps.len() ==> eligible(#[trigger] ps[k]) == eligible(qs[k]),
        forall|k: int| 0 <= k < ps.len() && eligible(ps[k]) ==> heard(#[trigger] ps[k]) == heard(qs[k]),
    ensures
        best_index(own, ps, n) == best_index(own, qs, n),
    decreases n,
{
    if n > 0 {
        lemma_best_index_depends_on_sources(own, ps, qs, n - 1);
        lemma_best_index_eligible(own, ps, n - 1);
        let prev = best_index(own, ps, n - 1);
        assert(leader(own, ps, prev) == leader(own, qs, prev));
    }
}

/// Running source selection a second time on unchanged sources changes no
/// role and no other state, and asks for no action.
pub proof fn lemma_sweep_idempotent(own: Dataset, ps: Seq<Port>)
    ensures
        swept(own, swept(own, ps)) == swept(own, ps),
        forall|i: int| 0 <= i < ps.len() ==> (#[trigger] sweep_actions(own, swept(own, ps))[i]).len() == 0,
{
    let qs = swept(own, ps);
    assert forall|k: int| 0 <= k < ps.len() implies eligible(#[trigger] ps[k]) == eligible(qs[k]) && (
    eligible(ps[k]) ==> heard(ps[k]) == heard(qs[k])) && qs[k].role == recommended_role(own, ps, k) by {
        let r = recommended_role(own, ps, k);
        assert(qs[k] == role_step(ps[k], r).0);
    }
    lemma_best_index_depends_on_sources(own, ps, qs, ps.len() as int);
    assert forall|k: int| 0 <= k < ps.len() implies recommended_role(own, qs, k) == #[trigger] qs[k].role by {
        assert(qs[k] == role_step(ps[k], recommended_role(own, ps, k)).0);
    }
    assert(swept(own, qs) =~= qs);
}

/// After a sweep at most one port follows a source, so only one port ever
/// steers the local clock.
pub proof fn lemma_sweep_single_slave(own: Dataset, ps: Seq<Port>, i: int, j: int)
    requires
        0 <= i < ps.len(),
        0 <= j < ps.len(),
        swept(own, ps)[i].role == PortRole::Slave,
        swept(own, ps)[j].role == PortRole::Slave,
    ensures
        i == j,
{
    assert(swept(own, ps)[i] == role_step(ps[i], recommended_role(own, ps, i)).0);
    assert(swept(own, ps)[j] == role_step(ps[j], recommended_role(own, ps, j)).0);
}

} // verus!
