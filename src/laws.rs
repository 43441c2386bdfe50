//! Properties of the engine that relate several operations.
use vstd::prelude::*;

use crate::counters::merged;
use crate::graph::{accumulated, combine, events_upto, subtree_events, Config, GraphNode, Summary};
use crate::state::{event_target, exit_effect, finished, State};

verus! {

/// A span entered at `entered` and left at `left` (not earlier) lasted
/// exactly `left - entered`.
pub proof fn lemma_duration_is_time_between_enter_and_exit(
    n: GraphNode,
    f: GraphNode,
    name: Seq<char>,
    entered: u64,
    left: u64,
)
    requires
        n.started == Some(entered),
        entered <= left,
        finished(f, n, name, left),
    ensures
        f.execution_duration == left - entered,
{
}

/// Children are listed in the order in which they were left: two spans left
/// one after the other under the same open parent come last, in that order.
pub proof fn lemma_children_in_exit_order(
    s0: State,
    s1: State,
    s2: State,
    p: u64,
    first: u64,
    f1: GraphNode,
    second: u64,
    f2: GraphNode,
    config: &Config,
    r1: Option<String>,
    r2: Option<String>,
)
    requires
        first != p,
        second != p,
        s0.spans().contains_key(p),
        exit_effect(s0, s1, first, f1, Some(p), config, r1),
        exit_effect(s1, s2, second, f2, Some(p), config, r2),
    ensures
        s2.spans()[p].child_nodes@ == s0.spans()[p].child_nodes@.push(f1).push(f2),
{
    assert(s0.spans().remove(first).contains_key(p));
    assert(s1.spans().contains_key(p));
    assert(s1.spans().remove(second).contains_key(p));
}

/// Accumulating the events of a node without children leaves its events as
/// they were, so doing it again changes nothing.
pub proof fn lemma_accumulate_leaf(n: GraphNode, a: GraphNode, count_spans: bool)
    requires
        n.child_nodes@.len() == 0,
        accumulated(a, n, count_spans, false),
    ensures
        a.events@ == n.events@,
        a.child_nodes@.len() == 0,
{
    assert(events_upto(n, 0, count_spans) == n.events@);
}

/// For a chain `a → b → c` (each with one child, `c` with none), `a` ends up
/// with the sum of the three nodes' own events.
pub proof fn lemma_accumulate_chain(a: GraphNode, b: GraphNode, c: GraphNode, acc: GraphNode)
    requires
        a.child_nodes@ == seq![b],
        b.child_nodes@ == seq![c],
        c.child_nodes@.len() == 0,
        accumulated(acc, a, false, false),
    ensures
        acc.events@ == merged(a.events@, merged(b.events@, c.events@)),
{
    assert(events_upto(c, 0, false) == c.events@);
    assert(subtree_events(c, false) == c.events@);
    assert(events_upto(b, 0, false) == b.events@);
    assert(b.child_nodes@[0] == c);
    assert(subtree_events(b, false) == events_upto(b, 1, false));
    assert(subtree_events(b, false) == merged(b.events@, c.events@));
    assert(a.child_nodes@[0] == b);
    assert(events_upto(a, 0, false) == a.events@);
    assert(subtree_events(a, false) == events_upto(a, 1, false));
}

/// An event seen on another thread goes to the span current on the main
/// thread, whatever parent the other thread gives it.
pub proof fn lemma_worker_events_go_to_current_span(
    current: Option<u64>,
    explicit_parent: Option<u64>,
    ambient: Option<u64>,
)
    ensures
        event_target(current, false, explicit_parent, ambient) == current,
{
}

/// Merging nodes is associative on durations, call counts and events.
pub proof fn lemma_combine_associative(a: Summary, b: Summary, c: Summary)
    ensures
        combine(combine(a, b), c).duration == combine(a, combine(b, c)).duration,
        combine(combine(a, b), c).calls == combine(a, combine(b, c)).calls,
        combine(combine(a, b), c).events == combine(a, combine(b, c)).events,
{
    let l = combine(combine(a, b), c).events;
    let r = combine(a, combine(b, c)).events;
    assert(l =~= r);
}

/// Merging nodes is commutative on durations, call counts and events.
pub proof fn lemma_combine_commutative(a: Summary, b: Summary)
    ensures
        combine(a, b).duration == combine(b, a).duration,
        combine(a, b).calls == combine(b, a).calls,
        combine(a, b).events == combine(b, a).events,
{
    assert(combine(a, b).events =~= combine(b, a).events);
}

} // verus!
