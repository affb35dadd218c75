use vstd::prelude::*;

use crate::ports::PortSet;

verus! {

/// How long the target is given to bind its debug listener after the signal.
pub const GRACE_PERIOD_MS: u64 = 3000;

/// Number of `true` entries.
pub open spec fn count_true(s: Seq<bool>) -> nat
    decreases s.len(),
{
    if s.len() == 0 {
        0
    } else {
        count_true(s.drop_last()) + if s.last() {
            1nat
        } else {
            0nat
        }
    }
}

/// Why the inspection port could not be established.
#[derive(Debug, Clone, PartialEq, Eq)]
pub enum ActivationError {
    /// The socket table could not be read.
    SocketTable(String),
    /// The activation signal could not be delivered.
    ActivationSignal(String),
    /// After the signal, no single port could be told to be the debug endpoint.
    Ambiguous { before: PortSet, after: PortSet },
}

/// The unique port among `ports` whose probe answer is `true`, when exactly
/// one answer is `true`.
pub fn unique_answer(ports: &PortSet, answers: &Vec<bool>) -> (r: Option<u16>)
    requires
        ports.ports@.len() == answers@.len(),
    ensures
        count_true(answers@) == 1 <==> r is Some,
        r matches Some(p) ==> exists|i: int|
            0 <= i < answers@.len() && answers@[i] && ports.ports@[i] == p,
{
    let mut count: usize = 0;
    let mut found: usize = 0;
    let mut i: usize = 0;
    while i < answers.len()
        invariant
            i <= answers.len(),
            ports.ports@.len() == answers@.len(),
            count <= i,
            count == count_true(answers@.subrange(0, i as int)),
            count >= 1 ==> found < i && answers@[found as int],
        decreases answers.len() - i,
    {
        assert(answers@.subrange(0, i + 1).drop_last() == answers@.subrange(0, i as int));
        if answers[i] {
            count += 1;
            found = i;
        }
        i += 1;
    }
    assert(answers@.subrange(0, answers.len() as int) == answers@);
    if count == 1 {
        Some(ports.ports[found])
    } else {
        None
    }
}

/// The first port among `ports`, in order, whose probe answer is `true`.
pub fn first_answer(ports: &PortSet, answers: &Vec<bool>) -> (r: Option<u16>)
    requires
        ports.ports@.len() == answers@.len(),
    ensures
        r is None <==> forall|i: int| 0 <= i < answers@.len() ==> !answers@[i],
        r matches Some(p) ==> exists|i: int|
            0 <= i < answers@.len() && answers@[i] && ports.ports@[i] == p && forall|j: int|
                0 <= j < i ==> !answers@[j],
{
    let mut i: usize = 0;
    while i < answers.len()
        invariant
            i <= answers.len(),
            ports.ports@.len() == answers@.len(),
            forall|j: int| 0 <= j < i ==> !answers@[j],
        decreases answers.len() - i,
    {
        if answers[i] {
            return Some(ports.ports[i]);
        }
        i += 1;
    }
    None
}

/// The one port that `after` holds and `before` lacks, when there is exactly one.
pub fn new_port(before: &PortSet, after: &PortSet) -> (r: Option<u16>)
    requires
        after.wf(),
    ensures
        r is Some <==> after@.difference(before@).len() == 1,
        r matches Some(p) ==> after@.difference(before@) == set![p],
{
    let diff = after.difference(before);
    if diff.len() == 1 {
        let p = diff.ports[0];
        proof {
            assert(diff.ports@[0] == p);
            assert(diff@.contains(p));
            vstd::seq_lib::seq_to_set_is_finite(diff.ports@);
            Set::lemma_is_singleton(diff@);
            assert(diff@ =~= set![p]);
        }
        Some(p)
    } else {
        None
    }
}


/// What the activation settles on, once the second snapshot has been probed.
pub open spec fn resolves_to(
    before: PortSet,
    after: PortSet,
    answers: Seq<bool>,
    r: Result<u16, ActivationError>,
) -> bool {
    if count_true(answers) == 1 {
        r matches Ok(p) && exists|i: int|
            0 <= i < answers.len() && answers[i] && after.ports@[i] == p
    } else if after@.difference(before@).len() == 1 {
        r matches Ok(p) && after@.difference(before@) == set![p]
    } else {
        r == Err::<u16, ActivationError>(ActivationError::Ambiguous { before, after })
    }
}

/// Picks the inspection port after the signal: the one port of `after` that
/// answers the probe, else the one port that `after` holds and `before`
/// lacks; anything else is ambiguous.
pub fn resolve_after(before: PortSet, after: PortSet, answers: &Vec<bool>) -> (r: Result<
    u16,
    ActivationError,
>)
    requires
        after.wf(),
        after.ports@.len() == answers@.len(),
    ensures
        resolves_to(before, after, answers@, r),
{
    match unique_answer(&after, answers) {
        Some(p) => Ok(p),
        None => match new_port(&before, &after) {
            Some(p) => Ok(p),
            None => Err(ActivationError::Ambiguous { before, after }),
        },
    }
}

/// Where an activation run stands.
#[derive(Debug, Clone, PartialEq, Eq)]
pub enum Phase {
    /// Nothing is known yet.
    Start,
    /// The first snapshot is taken; its ports are being probed.
    ProbingBefore { before: PortSet },
    /// No port of the first snapshot answered: the signal is being delivered.
    Signalling { before: PortSet },
    /// The signal went out; the grace period runs.
    Waiting { before: PortSet },
    /// The second snapshot is being taken.
    SnapshotAfter { before: PortSet },
    /// The second snapshot is taken; its ports are being probed.
    ProbingAfter { before: PortSet, after: PortSet },
    /// The run is over.
    Finished,
}

/// What the outside world reports back after an action.
#[derive(Debug, PartialEq, Eq)]
pub enum Event {
    /// The listening ports of the target, or why they could not be read.
    Ports(Result<PortSet, String>),
    /// For each probed port, in order, whether it answered the debug manifest lookup.
    Answers(Vec<bool>),
    /// The activation signal was delivered, or why it was not.
    SignalSent(Result<(), String>),
    /// The requested wait is over.
    Slept,
}

/// What the driver has to do next.
#[derive(Debug, PartialEq, Eq)]
pub enum Action {
    /// Read the target's listening ports.
    TakeSnapshot,
    /// Probe each of these ports, in order, with the debug manifest lookup.
    Probe(Vec<u16>),
    /// Deliver the activation signal to this process.
    SendSignal(u32),
    /// Wait this many milliseconds.
    Sleep(u64),
    /// The run is over, with this outcome.
    Done(Result<u16, ActivationError>),
}

/// The activation of a target's debug inspector, driven one event at a time.
#[derive(Debug, Clone, PartialEq, Eq)]
pub struct Activator {
    pub pid: u32,
    pub phase: Phase,
}

/// Whether `event` is one that `phase` waits for.
pub open spec fn accepts_event(phase: Phase, event: Event) -> bool {
    match phase {
        Phase::Start | Phase::SnapshotAfter { .. } => match event {
            Event::Ports(Ok(s)) => s.wf(),
            Event::Ports(Err(_)) => true,
            _ => false,
        },
        Phase::ProbingBefore { before } => match event {
            Event::Answers(a) => a@.len() == before.ports@.len(),
            _ => false,
        },
        Phase::Signalling { .. } => event is SignalSent,
        Phase::Waiting { .. } => event is Slept,
        Phase::ProbingAfter { after, .. } => match event {
            Event::Answers(a) => a@.len() == after.ports@.len(),
            _ => false,
        },
        Phase::Finished => false,
    }
}

/// Whether some probe answered.
pub open spec fn has_answer(answers: Seq<bool>) -> bool {
    exists|i: int| 0 <= i < answers.len() && answers[i]
}

/// One transition: from `phase`, on `event`, to `next`, asking for `action`.
pub open spec fn transition(pid: u32, phase: Phase, event: Event, next: Phase, action: Action) -> bool {
    match phase {
        Phase::Start => match event {
            Event::Ports(Ok(s)) => next == (Phase::ProbingBefore { before: s }) && (action matches Action::Probe(v) && v@ == s.ports@),
            Event::Ports(Err(e)) => next == Phase::Finished && action == Action::Done(Err(ActivationError::SocketTable(e))),
            _ => false,
        },
        Phase::ProbingBefore { before } => match event {
            Event::Answers(a) => if has_answer(a@) {
                next == Phase::Finished && (action matches Action::Done(Ok(p)) && exists|i: int|
                    0 <= i < a@.len() && a@[i] && before.ports@[i] == p && forall|j: int|
                        0 <= j < i ==> !a@[j])
            } else {
                next == (Phase::Signalling { before }) && action == Action::SendSignal(pid)
            },
            _ => false,
        },
        Phase::Signalling { before } => match event {
            Event::SignalSent(Ok(_)) => next == (Phase::Waiting { before }) && action == Action::Sleep(GRACE_PERIOD_MS),
            Event::SignalSent(Err(e)) => next == Phase::Finished && action == Action::Done(Err(ActivationError::ActivationSignal(e))),
            _ => false,
        },
        Phase::Waiting { before } => next == (Phase::SnapshotAfter { before }) && action == Action::TakeSnapshot,
        Phase::SnapshotAfter { before } => match event {
            Event::Ports(Ok(s)) => next == (Phase::ProbingAfter { before, after: s }) && (action matches Action::Probe(v) && v@ == s.ports@),
            Event::Ports(Err(e)) => next == Phase::Finished && action == Action::Done(Err(ActivationError::SocketTable(e))),
            _ => false,
        },
        Phase::ProbingAfter { before, after } => match event {
            Event::Answers(a) => next == Phase::Finished && (action matches Action::Done(r) && resolves_to(before, after, a@, r)),
            _ => false,
        },
        Phase::Finished => false,
    }
}

impl Activator {
    pub open spec fn wf(&self) -> bool {
        self.phase matches Phase::ProbingAfter { after, .. } ==> after.wf()
    }

    /// A run against process `pid`; its first action is to take a snapshot.
    pub fn new(pid: u32) -> (r: (Activator, Action))
        ensures
            r.0.wf(),
            r.0.pid == pid,
            r.0.phase == Phase::Start,
            r.1 == Action::TakeSnapshot,
    {
        (Activator { pid, phase: Phase::Start }, Action::TakeSnapshot)
    }

    /// Whether the run waits for `event` now.
    pub fn accepts(&self, event: &Event) -> (r: bool)
        ensures
            r == accepts_event(self.phase, *event),
    {
        match &self.phase {
            Phase::Start | Phase::SnapshotAfter { .. } => match event {
                Event::Ports(Ok(s)) => s.is_wf(),
                Event::Ports(Err(_)) => true,
                _ => false,
            },
            Phase::ProbingBefore { before } => match event {
                Event::Answers(a) => a.len() == before.ports.len(),
                _ => false,
            },
            Phase::Signalling { .. } => matches!(event, Event::SignalSent(_)),
            Phase::Waiting { .. } => matches!(event, Event::Slept),
            Phase::ProbingAfter { after, .. } => match event {
                Event::Answers(a) => a.len() == after.ports.len(),
                _ => false,
            },
            Phase::Finished => false,
        }
    }

    /// Feeds the outcome of the last action to the run and returns the next action.
    pub fn step(&mut self, event: Event) -> (action: Action)
        requires
            old(self).wf(),
            accepts_event(old(self).phase, event),
        ensures
            final(self).wf(),
            final(self).pid == old(self).pid,
            transition(old(self).pid, old(self).phase, event, final(self).phase, action),
    {
        let mut phase = Phase::Finished;
        std::mem::swap(&mut phase, &mut self.phase);
        match phase {
            Phase::Start | Phase::SnapshotAfter { .. } => {
                let before = match phase {
                    Phase::SnapshotAfter { before } => Some(before),
                    _ => None,
                };
                match event {
                    Event::Ports(Ok(s)) => {
                        let v = s.to_vec();
                        self.phase = match before {
                            Some(before) => Phase::ProbingAfter { before, after: s },
                            None => Phase::ProbingBefore { before: s },
                        };
                        Action::Probe(v)
                    },
                    Event::Ports(Err(e)) => Action::Done(Err(ActivationError::SocketTable(e))),
                    _ => Action::TakeSnapshot,
                }
            },
            Phase::ProbingBefore { before } => match event {
                Event::Answers(a) => match first_answer(&before, &a) {
                    Some(p) => Action::Done(Ok(p)),
                    None => {
                        self.phase = Phase::Signalling { before };
                        Action::SendSignal(self.pid)
                    },
                },
                _ => Action::TakeSnapshot,
            },
            Phase::Signalling { before } => match event {
                Event::SignalSent(Ok(_)) => {
                    self.phase = Phase::Waiting { before };
                    Action::Sleep(GRACE_PERIOD_MS)
                },
                Event::SignalSent(Err(e)) => Action::Done(Err(ActivationError::ActivationSignal(e))),
                _ => Action::TakeSnapshot,
            },
            Phase::Waiting { before } => {
                self.phase = Phase::SnapshotAfter { before };
                Action::TakeSnapshot
            },
            Phase::ProbingAfter { before, after } => match event {
                Event::Answers(a) => Action::Done(resolve_after(before, after, &a)),
                _ => Action::TakeSnapshot,
            },
            Phase::Finished => Action::TakeSnapshot,
        }
    }
}

/// No `true` answer means a count of zero.
proof fn lemma_no_answer_counts_zero(answers: Seq<bool>)
    requires
        forall|i: int| 0 <= i < answers.len() ==> !answers[i],
    ensures
        count_true(answers) == 0,
    decreases answers.len(),
{
    if answers.len() > 0 {
        lemma_no_answer_counts_zero(answers.drop_last());
    }
}

/// When no port of the second snapshot answers the probe and the two
/// snapshots do not differ by exactly one port, the activation fails as
/// ambiguous, carrying both snapshots unchanged.
pub proof fn lemma_unanswered_without_single_new_port_is_ambiguous(
    before: PortSet,
    after: PortSet,
    answers: Seq<bool>,
    r: Result<u16, ActivationError>,
)
    requires
        resolves_to(before, after, answers, r),
        forall|i: int| 0 <= i < answers.len() ==> !answers[i],
        after@.difference(before@).len() != 1,
    ensures
        r == Err::<u16, ActivationError>(ActivationError::Ambiguous { before, after }),
{
    lemma_no_answer_counts_zero(answers);
}

/// When a port of the first snapshot already answers the probe (in
/// particular when exactly one does), the run ends on the first answering
/// port right after probing, and no signal is ever asked for.
pub proof fn lemma_active_inspector_is_not_signalled(
    pid: u32,
    before: PortSet,
    answers: Vec<bool>,
    probing: Phase,
    probe: Action,
    next: Phase,
    action: Action,
)
    requires
        transition(pid, Phase::Start, Event::Ports(Ok(before)), probing, probe),
        transition(pid, probing, Event::Answers(answers), next, action),
        count_true(answers@) >= 1,
    ensures
        probe matches Action::Probe(v) && v@ == before.ports@,
        next == Phase::Finished,
        action matches Action::Done(Ok(p)) && exists|i: int|
            0 <= i < answers@.len() && answers@[i] && before.ports@[i] == p,
        !(probe is SendSignal) && !(action is SendSignal),
{
    assert(probing == (Phase::ProbingBefore { before }));
    assert(has_answer(answers@)) by {
        if forall|i: int| 0 <= i < answers@.len() ==> !answers@[i] {
            lemma_no_answer_counts_zero(answers@);
        }
    };
}

} // verus!
