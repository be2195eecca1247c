use vstd::prelude::*;

verus! {

/// What one connection attempt to one port came to.
#[derive(Clone, Copy, Debug, PartialEq, Eq)]
pub enum AttemptOutcome {
    /// The connection was established.
    Connected,
    /// The remote stack actively refused the connection.
    Refused,
    /// No answer came within the timeout.
    TimedOut,
    /// Any other error, such as an unreachable network.
    Failed,
}

/// What a probe does next.
#[derive(Clone, Copy, Debug, PartialEq, Eq)]
pub enum ProbeAction {
    /// Attempt a connection to this port.
    Connect(u16),
    /// Stop; `true` for a live host.
    Finish(bool),
}

/// The ports a probe tries, in order.
pub open spec fn probe_ports() -> Seq<u16> {
    seq![80u16, 443u16, 22u16, 445u16]
}

/// An outcome that ends the probe: a connection or an active refusal both
/// show a reachable host.
pub open spec fn is_conclusive(o: AttemptOutcome) -> bool {
    o == AttemptOutcome::Connected || o == AttemptOutcome::Refused
}

/// The action of a probe that has seen `seen`, the outcomes of its attempts on
/// the first `seen.len()` ports, in order.
pub open spec fn action_after(seen: Seq<AttemptOutcome>) -> ProbeAction {
    if exists|i: int| 0 <= i < seen.len() && is_conclusive(#[trigger] seen[i]) {
        ProbeAction::Finish(true)
    } else if seen.len() < probe_ports().len() {
        ProbeAction::Connect(probe_ports()[seen.len() as int])
    } else {
        ProbeAction::Finish(false)
    }
}

/// The ports that a probe attempts, and its verdict, against a host whose
/// port `probe_ports()[i]` would answer `answers[i]`, once the attempts on the
/// first `seen` ports have been made.
pub open spec fn probe_run(answers: Seq<AttemptOutcome>, seen: nat) -> (Seq<u16>, bool)
    decreases probe_ports().len() - seen,
{
    match action_after(answers.take(seen as int)) {
        ProbeAction::Finish(live) => (Seq::empty(), live),
        ProbeAction::Connect(port) => {
            // a probe asks for a connection only while a port is left
            if seen < probe_ports().len() {
                let rest = probe_run(answers, seen + 1);
                (seq![port].add(rest.0), rest.1)
            } else {
                (Seq::empty(), false)
            }
        },
    }
}

fn probe_port(i: usize) -> (r: u16)
    requires
        i < probe_ports().len(),
    ensures
        r == probe_ports()[i as int],
{
    match i {
        0 => 80,
        1 => 443,
        2 => 22,
        _ => 445,
    }
}

/// The next step of a probe that has seen the outcomes `seen`, one per port
/// attempted, in the order of the ports: a connection or a refusal ends it as
/// live; otherwise it goes on to the next port, and after the last one it ends
/// as not live.
pub fn next_probe_action(seen: &Vec<AttemptOutcome>) -> (r: ProbeAction)
    ensures
        r == action_after(seen@),
{
    let mut i: usize = 0;
    while i < seen.len()
        invariant
            i <= seen@.len(),
            forall|j: int| 0 <= j < i ==> !is_conclusive(#[trigger] seen@[j]),
        decreases seen@.len() - i,
    {
        match seen[i] {
            AttemptOutcome::Connected | AttemptOutcome::Refused => {
                return ProbeAction::Finish(true);
            },
            _ => {},
        }
        i = i + 1;
    }
    if seen.len() < 4 {
        ProbeAction::Connect(probe_port(seen.len()))
    } else {
        ProbeAction::Finish(false)
    }
}

proof fn lemma_run_until_conclusive(answers: Seq<AttemptOutcome>, k: int, seen: nat)
    requires
        answers.len() == probe_ports().len(),
        0 <= k < answers.len(),
        is_conclusive(answers[k]),
        forall|j: int| 0 <= j < k ==> !is_conclusive(#[trigger] answers[j]),
        seen <= k + 1,
    ensures
        probe_run(answers, seen) == (probe_ports().subrange(seen as int, k + 1), true),
    decreases k + 1 - seen,
{
    let prefix = answers.take(seen as int);
    if seen == k + 1 {
        assert(prefix[k] == answers[k]);
        assert(probe_ports().subrange(seen as int, k + 1) =~= Seq::empty());
    } else {
        assert forall|i: int| 0 <= i < prefix.len() implies !is_conclusive(#[trigger] prefix[i]) by {
            assert(prefix[i] == answers[i]);
        }
        lemma_run_until_conclusive(answers, k, seen + 1);
        assert(probe_ports().subrange(seen as int, k + 1) =~= seq![
            probe_ports()[seen as int],
        ].add(probe_ports().subrange((seen + 1) as int, k + 1)));
    }
}

/// A probe whose attempt on a port is answered by a connection or an active
/// refusal, after no such answer on the earlier ports, ends as live at that
/// port: it attempts the ports up to that one and none after it.
pub proof fn lemma_refusal_ends_probe(answers: Seq<AttemptOutcome>, k: int)
    requires
        answers.len() == probe_ports().len(),
        0 <= k < answers.len(),
        is_conclusive(answers[k]),
        forall|j: int| 0 <= j < k ==> !is_conclusive(#[trigger] answers[j]),
    ensures
        probe_run(answers, 0) == (probe_ports().take(k + 1), true),
{
    lemma_run_until_conclusive(answers, k, 0);
    assert(probe_ports().subrange(0, k + 1) =~= probe_ports().take(k + 1));
}

proof fn lemma_run_inconclusive(answers: Seq<AttemptOutcome>, seen: nat)
    requires
        answers.len() == probe_ports().len(),
        forall|j: int| 0 <= j < answers.len() ==> !is_conclusive(#[trigger] answers[j]),
        seen <= probe_ports().len(),
    ensures
        probe_run(answers, seen) == (probe_ports().subrange(seen as int, 4), false),
    decreases probe_ports().len() - seen,
{
    let prefix = answers.take(seen as int);
    assert forall|i: int| 0 <= i < prefix.len() implies !is_conclusive(#[trigger] prefix[i]) by {
        assert(prefix[i] == answers[i]);
    }
    if seen == probe_ports().len() {
        assert(probe_ports().subrange(seen as int, 4) =~= Seq::empty());
    } else {
        lemma_run_inconclusive(answers, seen + 1);
        assert(probe_ports().subrange(seen as int, 4) =~= seq![probe_ports()[seen as int]].add(
            probe_ports().subrange((seen + 1) as int, 4),
        ));
    }
}

/// A probe against a host that answers no port, every attempt timing out,
/// attempts every port in order and ends as not live.
pub proof fn lemma_silence_tries_every_port(answers: Seq<AttemptOutcome>)
    requires
        answers.len() == probe_ports().len(),
        forall|j: int| 0 <= j < answers.len() ==> #[trigger] answers[j] == AttemptOutcome::TimedOut,
    ensures
        probe_run(answers, 0) == (probe_ports(), false),
{
    assert forall|j: int| 0 <= j < answers.len() implies !is_conclusive(#[trigger] answers[j]) by {
        assert(answers[j] == AttemptOutcome::TimedOut);
    }
    lemma_run_inconclusive(answers, 0);
    assert(probe_ports().subrange(0, 4) =~= probe_ports());
}

} // verus!
