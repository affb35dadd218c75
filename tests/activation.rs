use node_inject::activation::{
    new_port, resolve_after, unique_answer, Action, ActivationError, Activator, Event, Phase,
    GRACE_PERIOD_MS,
};
use node_inject::ports::{listening_ports, PortSet, SocketEntry, SocketKind};

fn set(ports: &[u16]) -> PortSet {
    PortSet::from_ports(&ports.to_vec())
}

fn tcp(pids: &[u32], port: u16, listening: bool) -> SocketEntry {
    SocketEntry { pids: pids.to_vec(), kind: SocketKind::Tcp { local_port: port, listening } }
}

#[test]
fn port_set_drops_repeats() {
    let s = set(&[9229, 80, 9229, 80, 443]);
    assert_eq!(s.ports, vec![9229, 80, 443]);
    assert_eq!(s.len(), 3);
    assert!(s.contains(443));
    assert!(!s.contains(8080));
}

#[test]
fn port_set_difference() {
    let d = set(&[1, 2, 3, 4]).difference(&set(&[2, 4, 9]));
    assert_eq!(d.ports, vec![1, 3]);
}

#[test]
fn listening_ports_keeps_listening_tcp_of_the_process() {
    let table = vec![
        tcp(&[7], 9229, true),
        tcp(&[7, 8], 80, true),
        tcp(&[7], 5000, false),
        tcp(&[8], 6000, true),
        SocketEntry { pids: vec![7], kind: SocketKind::Udp },
        tcp(&[7], 9229, true),
    ];
    let r = listening_ports(&table, 7);
    assert_eq!(r.ports, vec![9229, 80]);
    assert_eq!(listening_ports(&table, 99).ports, Vec::<u16>::new());
}

#[test]
fn single_new_port_is_found() {
    assert_eq!(new_port(&set(&[80, 443]), &set(&[80, 9229, 443])), Some(9229));
    assert_eq!(new_port(&set(&[]), &set(&[9229])), Some(9229));
}

#[test]
fn no_or_many_new_ports_give_none() {
    assert_eq!(new_port(&set(&[80]), &set(&[80])), None);
    assert_eq!(new_port(&set(&[80]), &set(&[80, 1, 2])), None);
}

#[test]
fn unique_answer_needs_exactly_one() {
    let ports = set(&[10, 20, 30]);
    assert_eq!(unique_answer(&ports, &vec![false, true, false]), Some(20));
    assert_eq!(unique_answer(&ports, &vec![true, true, false]), None);
    assert_eq!(unique_answer(&ports, &vec![false, false, false]), None);
}

#[test]
fn probe_answer_wins_over_port_diff() {
    let r = resolve_after(set(&[80]), set(&[80, 1, 2]), &vec![false, false, true]);
    assert_eq!(r, Ok(2));
}

#[test]
fn unanswered_ambiguous_carries_both_sets() {
    let r = resolve_after(set(&[80]), set(&[80, 1, 2]), &vec![false, false, false]);
    assert_eq!(r, Err(ActivationError::Ambiguous { before: set(&[80]), after: set(&[80, 1, 2]) }));
    let r = resolve_after(set(&[80]), set(&[80]), &vec![false]);
    assert_eq!(r, Err(ActivationError::Ambiguous { before: set(&[80]), after: set(&[80]) }));
}

#[test]
fn already_active_inspector_is_not_signalled() {
    let (mut a, first) = Activator::new(42);
    assert_eq!(first, Action::TakeSnapshot);
    let ev = Event::Ports(Ok(set(&[80, 9229])));
    assert!(a.accepts(&ev));
    assert_eq!(a.step(ev), Action::Probe(vec![80, 9229]));
    assert_eq!(a.step(Event::Answers(vec![false, true])), Action::Done(Ok(9229)));
    assert_eq!(a.phase, Phase::Finished);
}

#[test]
fn run_without_listening_ports_signals_waits_and_diffs() {
    let (mut a, _) = Activator::new(42);
    assert_eq!(a.step(Event::Ports(Ok(set(&[])))), Action::Probe(vec![]));
    assert_eq!(a.step(Event::Answers(vec![])), Action::SendSignal(42));
    assert_eq!(a.step(Event::SignalSent(Ok(()))), Action::Sleep(GRACE_PERIOD_MS));
    assert_eq!(GRACE_PERIOD_MS, 3000);
    assert_eq!(a.step(Event::Slept), Action::TakeSnapshot);
    assert_eq!(a.step(Event::Ports(Ok(set(&[9229])))), Action::Probe(vec![9229]));
    assert_eq!(a.step(Event::Answers(vec![false])), Action::Done(Ok(9229)));
}

#[test]
fn socket_table_failure_ends_the_run() {
    let (mut a, _) = Activator::new(1);
    let r = a.step(Event::Ports(Err("permission denied".to_string())));
    assert_eq!(r, Action::Done(Err(ActivationError::SocketTable("permission denied".to_string()))));
}

#[test]
fn signal_failure_ends_the_run() {
    let (mut a, _) = Activator::new(1);
    a.step(Event::Ports(Ok(set(&[80]))));
    assert_eq!(a.step(Event::Answers(vec![false])), Action::SendSignal(1));
    let r = a.step(Event::SignalSent(Err("ESRCH".to_string())));
    assert_eq!(r, Action::Done(Err(ActivationError::ActivationSignal("ESRCH".to_string()))));
}

#[test]
fn unexpected_event_is_refused() {
    let (a, _) = Activator::new(1);
    assert!(!a.accepts(&Event::Slept));
    assert!(!a.accepts(&Event::Ports(Ok(PortSet { ports: vec![1, 1] }))));
}

#[test]
fn several_answering_ports_end_without_signal() {
    let (mut a, _) = Activator::new(42);
    assert_eq!(a.step(Event::Ports(Ok(set(&[80, 9229, 9230])))), Action::Probe(vec![80, 9229, 9230]));
    assert_eq!(a.step(Event::Answers(vec![false, true, true])), Action::Done(Ok(9229)));
    assert_eq!(a.phase, Phase::Finished);
}
