//! The aggregation state: open spans by identifier, the span that is current
//! on the main thread, events that belong to no span, and the decisions taken
//! on each span and event notification.
use vstd::prelude::*;
use vstd::string::*;

use linear_map::LinearMap;

use crate::counters::{formatted, no_counts, CounterValue, EventCounts};
use crate::fields::{is_malformed, recorded, EventRecord};
use crate::graph::{is_report, Config, GraphNode};
use crate::linear::{
    entries_insert, metadata_entries, metadata_insert, span_nodes, spans_contains,
    spans_insert, spans_new, spans_remove, no_spans,
};
use crate::text::{copy_str, join_strings, joined, views};

verus! {

/// `entries` after inserting each attribute in order.
pub open spec fn with_attributes(
    entries: Seq<(Seq<char>, Seq<char>)>,
    attrs: Seq<(Seq<char>, Seq<char>)>,
) -> Seq<(Seq<char>, Seq<char>)>
    decreases attrs.len(),
{
    if attrs.len() == 0 {
        entries
    } else {
        let prev = with_attributes(entries, attrs.drop_last());
        entries_insert(prev, attrs.last().0, attrs.last().1)
    }
}

/// The views of attribute pairs.
pub open spec fn attribute_views(attrs: Seq<(String, String)>) -> Seq<(Seq<char>, Seq<char>)> {
    attrs.map_values(|a: (String, String)| (a.0@, a.1@))
}

/// Whether `n` is a freshly opened span with the given attributes.
pub open spec fn opened(n: GraphNode, attrs: Seq<(Seq<char>, Seq<char>)>) -> bool {
    &&& n.name@.len() == 0
    &&& n.started is None
    &&& n.execution_duration == 0
    &&& n.events@ == no_counts()
    &&& n.child_nodes@.len() == 0
    &&& n.call_count == 1
    &&& metadata_entries(n.metadata) == with_attributes(Seq::empty(), attrs)
}

/// Whether `a` and `b` agree on everything but their metadata.
pub open spec fn same_but_metadata(a: GraphNode, b: GraphNode) -> bool {
    a.name == b.name && a.started == b.started && a.execution_duration == b.execution_duration
        && a.events == b.events && a.child_nodes == b.child_nodes && a.call_count == b.call_count
}

/// Whether `a` and `b` agree on everything but their events.
pub open spec fn same_but_events(a: GraphNode, b: GraphNode) -> bool {
    a.name == b.name && a.started == b.started && a.execution_duration == b.execution_duration
        && a.metadata == b.metadata && a.child_nodes == b.child_nodes && a.call_count == b.call_count
}

/// Whether `a` and `b` agree on everything but their children.
pub open spec fn same_but_children(a: GraphNode, b: GraphNode) -> bool {
    a.name == b.name && a.started == b.started && a.execution_duration == b.execution_duration
        && a.metadata == b.metadata && a.events == b.events && a.call_count == b.call_count
}

/// Time from `started` to `now`; zero for a span never entered (or a clock
/// that went back).
pub open spec fn elapsed(started: Option<u64>, now: u64) -> u64 {
    match started {
        Some(s) => if now >= s {
            (now - s) as u64
        } else {
            0
        },
        None => 0,
    }
}

/// Whether `f` is `n` finished under `name` at `now`.
pub open spec fn finished(f: GraphNode, n: GraphNode, name: Seq<char>, now: u64) -> bool {
    &&& f.name@ == name
    &&& f.execution_duration == elapsed(n.started, now)
    &&& f.started == n.started
    &&& f.metadata == n.metadata
    &&& f.events == n.events
    &&& f.child_nodes == n.child_nodes
    &&& f.call_count == n.call_count
}

/// Whether `f` is a span that was never opened, finished under `name`.
pub open spec fn finished_unknown(f: GraphNode, name: Seq<char>) -> bool {
    &&& f.name@ == name
    &&& f.execution_duration == 0
    &&& f.started is None
    &&& metadata_entries(f.metadata).len() == 0
    &&& f.events@ == no_counts()
    &&& f.child_nodes@.len() == 0
    &&& f.call_count == 0
}

/// The block that shows events of no span: `> line` per counter, then a blank line.
pub open spec fn zero_level_text(text: Seq<char>, m: Map<Seq<char>, CounterValue>) -> bool {
    exists|lines: Seq<Seq<char>>|
        formatted(lines, m) && text == "> "@ + joined(lines, "\n> "@) + "\n\n"@
}

/// The span registry and the attribution state of one profiling session.
pub struct State {
    /// The span last entered on the main thread, or the parent of the one
    /// last left.
    pub current_span: Option<u64>,
    /// Spans opened on the main thread and not yet left.
    pub unfinished_spans: LinearMap<u64, GraphNode>,
    /// Events that belong to no span, not yet shown.
    pub zero_level_events: EventCounts,
    /// Output held back until the end of the session, in order.
    pub deferred: Vec<String>,
}

impl State {
    /// The open spans.
    pub open spec fn spans(self) -> Map<u64, GraphNode> {
        span_nodes(self.unfinished_spans)
    }

    /// No spans, no events.
    pub fn new() -> (r: State)
        ensures
            r.current_span is None,
            r.spans() == no_spans(),
            r.zero_level_events@ == no_counts(),
            r.deferred@.len() == 0,
    {
        State {
            current_span: None,
            unfinished_spans: spans_new(),
            zero_level_events: EventCounts::new(),
            deferred: Vec::new(),
        }
    }

    /// Shows the events of no span (as text to print) and forgets them; `None`
    /// where there are none.
    pub fn print_zero_level_events(&mut self) -> (r: Option<String>)
        ensures
            final(self).current_span == old(self).current_span,
            final(self).unfinished_spans == old(self).unfinished_spans,
            final(self).deferred == old(self).deferred,
            final(self).zero_level_events@ == no_counts(),
            match r {
                Some(t) => old(self).zero_level_events@ != no_counts() && zero_level_text(
                    t@,
                    old(self).zero_level_events@,
                ),
                None => old(self).zero_level_events@ == no_counts(),
            },
    {
        if self.zero_level_events.is_empty() {
            return None;
        }
        let lines = self.zero_level_events.format();
        let mut text = copy_str("> ");
        let body = join_strings(&lines, "\n> ");
        text.append(body.as_str());
        text.append("\n\n");
        self.zero_level_events.clear();
        Some(text)
    }

    /// Hands `text` out now, or keeps it for the end of the session.
    fn emit(&mut self, text: String, config: &Config) -> (r: Option<String>)
        ensures
            final(self).current_span == old(self).current_span,
            final(self).unfinished_spans == old(self).unfinished_spans,
            final(self).zero_level_events == old(self).zero_level_events,
            if config.defer_printing {
                r is None && final(self).deferred@ == old(self).deferred@.push(text)
            } else {
                r == Some(text) && final(self).deferred == old(self).deferred
            },
    {
        if config.defer_printing {
            self.deferred.push(text);
            None
        } else {
            Some(text)
        }
    }

    /// A span was created. Only spans of the main thread are tracked.
    pub fn on_new_span(&mut self, is_main: bool, id: u64, attributes: &Vec<(String, String)>)
        ensures
            !is_main ==> *final(self) == *old(self),
            is_main ==> {
                &&& final(self).spans().dom() == old(self).spans().dom().insert(id)
                &&& forall|k: u64| k != id && #[trigger] old(self).spans().contains_key(k) ==> final(self).spans()[k] == old(self).spans()[k]
                &&& opened(final(self).spans()[id], attribute_views(attributes@))
                &&& final(self).current_span == old(self).current_span
                &&& final(self).zero_level_events == old(self).zero_level_events
                &&& final(self).deferred == old(self).deferred
            },
    {
        if !is_main {
            return;
        }
        let mut node = GraphNode::new("");
        proof {
            reveal_strlit("");
            assert(metadata_entries(node.metadata) == Seq::<(Seq<char>, Seq<char>)>::empty());
        }
        node.call_count = 1;
        record_attributes(&mut node.metadata, attributes);
        spans_insert(&mut self.unfinished_spans, id, node);
        proof {
            assert(self.spans().dom() =~= old(self).spans().dom().insert(id));
        }
    }

    /// Attributes were added to a span: they go into its metadata.
    pub fn on_record(&mut self, is_main: bool, id: u64, attributes: &Vec<(String, String)>)
        ensures
            !is_main || !old(self).spans().contains_key(id) ==> *final(self) == *old(self),
            is_main && old(self).spans().contains_key(id) ==> {
                &&& final(self).spans().dom() == old(self).spans().dom()
                &&& forall|k: u64| k != id && #[trigger] old(self).spans().contains_key(k) ==> final(self).spans()[k] == old(self).spans()[k]
                &&& same_but_metadata(final(self).spans()[id], old(self).spans()[id])
                &&& metadata_entries(final(self).spans()[id].metadata) == with_attributes(
                    metadata_entries(old(self).spans()[id].metadata),
                    attribute_views(attributes@),
                )
                &&& final(self).current_span == old(self).current_span
                &&& final(self).zero_level_events == old(self).zero_level_events
                &&& final(self).deferred == old(self).deferred
            },
    {
        if !is_main || !spans_contains(&self.unfinished_spans, id) {
            return;
        }
        let mut node = spans_remove(&mut self.unfinished_spans, id).unwrap();
        record_attributes(&mut node.metadata, attributes);
        spans_insert(&mut self.unfinished_spans, id, node);
        proof {
            assert(final(self).spans().dom() =~= old(self).spans().dom());
        }
    }

    /// The main thread entered a span at `now`: it becomes current and starts
    /// its clock. Events of no span recorded so far are shown first.
    pub fn on_enter(&mut self, is_main: bool, id: u64, now: u64, config: &Config) -> (r: Option<String>)
        ensures
            !is_main ==> *final(self) == *old(self) && r is None,
            is_main ==> {
                &&& final(self).current_span == Some(id)
                &&& final(self).spans() == if old(self).spans().contains_key(id) {
                    old(self).spans().insert(id, GraphNode { started: Some(now), ..old(self).spans()[id] })
                } else {
                    old(self).spans()
                }
                &&& final(self).zero_level_events@ == no_counts()
                &&& (old(self).zero_level_events@ == no_counts() ==> r is None && final(self).deferred
                    == old(self).deferred)
                &&& (old(self).zero_level_events@ != no_counts() ==> exists|t: String|
                    #[trigger] zero_level_text(t@, old(self).zero_level_events@) && if config.defer_printing {
                        r is None && final(self).deferred@ == old(self).deferred@.push(t)
                    } else {
                        r == Some(t) && final(self).deferred == old(self).deferred
                    })
            },
    {
        if !is_main {
            return None;
        }
        self.current_span = Some(id);
        if spans_contains(&self.unfinished_spans, id) {
            let mut node = spans_remove(&mut self.unfinished_spans, id).unwrap();
            node.started = Some(now);
            spans_insert(&mut self.unfinished_spans, id, node);
            proof {
                assert(self.spans() =~= old(self).spans().insert(id, GraphNode { started: Some(now), ..old(self).spans()[id] }));
            }
        }
        let ghost mid = *self;
        let flushed = self.print_zero_level_events();
        match flushed {
            Some(t) => {
                let ghost tv = t;
                let r = self.emit(t, config);
                proof {
                    assert(zero_level_text(tv@, old(self).zero_level_events@));
                    assert(if config.defer_printing {
                        r is None && self.deferred@ == old(self).deferred@.push(tv)
                    } else {
                        r == Some(tv) && self.deferred == old(self).deferred
                    });
                }
                r
            },
            None => None,
        }
    }

    /// An event was observed. On the main thread it goes to its explicit
    /// parent, else to the ambient span; elsewhere it goes to the span current
    /// on the main thread, whatever span the other thread is in. With no such
    /// span it is an event of no span. Framework events (`is_root`) are
    /// ignored, and so is an event for a span that is not open. Returns
    /// `false` for a counter event without a sample, which is not recorded.
    pub fn on_event(
        &mut self,
        is_main: bool,
        explicit_parent: Option<u64>,
        ambient: Option<u64>,
        is_root: bool,
        event: &EventRecord,
    ) -> (accepted: bool)
        ensures
            final(self).current_span == old(self).current_span,
            final(self).deferred == old(self).deferred,
            is_root ==> *final(self) == *old(self) && accepted,
            !is_root ==> match event_target(old(self).current_span, is_main, explicit_parent, ambient) {
                None => {
                    &&& final(self).zero_level_events@ == recorded(old(self).zero_level_events@, *event)
                    &&& final(self).unfinished_spans == old(self).unfinished_spans
                    &&& accepted == !is_malformed(*event)
                },
                Some(target) => {
                    &&& final(self).zero_level_events == old(self).zero_level_events
                    &&& if old(self).spans().contains_key(target) {
                        &&& final(self).spans().dom() == old(self).spans().dom()
                        &&& forall|k: u64| k != target && #[trigger] old(self).spans().contains_key(k) ==> final(self).spans()[k] == old(self).spans()[k]
                        &&& same_but_events(final(self).spans()[target], old(self).spans()[target])
                        &&& final(self).spans()[target].events@ == recorded(old(self).spans()[target].events@, *event)
                        &&& accepted == !is_malformed(*event)
                    } else {
                        final(self).unfinished_spans == old(self).unfinished_spans && accepted
                    }
                },
            },
    {
        if is_root {
            return true;
        }
        let target = if is_main {
            if explicit_parent.is_some() {
                explicit_parent
            } else {
                ambient
            }
        } else {
            self.current_span
        };
        match target {
            Some(id) => {
                if spans_contains(&self.unfinished_spans, id) {
                    let mut node = spans_remove(&mut self.unfinished_spans, id).unwrap();
                    let accepted = node.events.record(event);
                    spans_insert(&mut self.unfinished_spans, id, node);
                    proof {
                        assert(self.spans().dom() =~= old(self).spans().dom());
                    }
                    accepted
                } else {
                    true
                }
            },
            None => self.zero_level_events.record(event),
        }
    }

    /// The main thread left span `id`, named `name`, at `now`. Its node is
    /// finished and appended to its parent's children (when the parent is
    /// open; the node is dropped otherwise), or, for a root, reported.
    /// The parent becomes current.
    #[verifier::rlimit(40)]
    pub fn on_exit(
        &mut self,
        is_main: bool,
        id: u64,
        name: &str,
        parent: Option<u64>,
        now: u64,
        config: &Config,
    ) -> (r: Option<String>)
        ensures
            !is_main ==> *final(self) == *old(self) && r is None,
            is_main ==> {
                &&& final(self).zero_level_events == old(self).zero_level_events
                &&& exists|f: GraphNode|
                    {
                        &&& if old(self).spans().contains_key(id) {
                            finished(f, old(self).spans()[id], name@, now)
                        } else {
                            finished_unknown(f, name@)
                        }
                        &&& exit_effect(*old(self), *final(self), id, f, parent, config, r)
                    }
            },
    {
        if !is_main {
            return None;
        }
        let removed = spans_remove(&mut self.unfinished_spans, id);
        let mut node = match removed {
            Some(n) => n,
            None => {
                let n = GraphNode::new("");
                proof {
                    assert(metadata_entries(n.metadata).len() == 0);
                }
                n
            },
        };
        node.execution_duration = match node.started {
            Some(s) => if now >= s {
                now - s
            } else {
                0
            },
            None => 0,
        };
        node.name = copy_str(name);
        let ghost f = node;
        proof {
            if old(self).spans().contains_key(id) {
                assert(finished(f, old(self).spans()[id], name@, now));
            } else {
                assert(finished_unknown(f, name@));
            }
        }
        match parent {
            Some(p) => {
                if spans_contains(&self.unfinished_spans, p) {
                    let mut parent_node = spans_remove(&mut self.unfinished_spans, p).unwrap();
                    parent_node.child_nodes.push(node);
                    spans_insert(&mut self.unfinished_spans, p, parent_node);
                    self.current_span = Some(p);
                    proof {
                        assert(self.spans().dom() =~= old(self).spans().remove(id).dom());
                        assert(exit_effect(*old(self), *self, id, f, parent, config, None));
                    }
                } else {
                    proof {
                        assert(exit_effect(*old(self), *self, id, f, parent, config, None));
                    }
                }
                None
            },
            None => {
                self.current_span = None;
                let report = node.report(config);
                let mut text = report.clone();
                text.append("\n");
                let ghost tv = text;
                proof {
                    reveal_strlit("\n");
                    assert(text@.drop_last() =~= report@);
                    assert(is_report(f, *config, tv@.drop_last()));
                }
                let r = self.emit(text, config);
                proof {
                    assert(self.spans() == old(self).spans().remove(id));
                    assert(if config.defer_printing {
                        r is None && self.deferred@ == old(self).deferred@.push(tv)
                    } else {
                        r == Some(tv) && self.deferred == old(self).deferred
                    });
                    assert(exit_effect(*old(self), *self, id, f, parent, config, r));
                }
                r
            },
        }
    }

    /// Ends the session: the output held back, in order, then the events of
    /// no span not yet shown.
    pub fn finish(&mut self) -> (r: String)
        ensures
            final(self).deferred@.len() == 0,
            final(self).zero_level_events@ == no_counts(),
            final(self).current_span == old(self).current_span,
            final(self).unfinished_spans == old(self).unfinished_spans,
            old(self).zero_level_events@ == no_counts() ==> r@ == joined(views(old(self).deferred@), ""@),
            old(self).zero_level_events@ != no_counts() ==> exists|t: Seq<char>|
                zero_level_text(t, old(self).zero_level_events@) && r@ == joined(views(old(self).deferred@), ""@) + t,
    {
        let mut out = join_strings(&self.deferred, "");
        self.deferred = Vec::new();
        match self.print_zero_level_events() {
            Some(t) => {
                out.append(t.as_str());
            },
            None => {},
        }
        out
    }
}

/// The span an event goes to.
pub open spec fn event_target(current: Option<u64>, is_main: bool, explicit_parent: Option<u64>, ambient: Option<u64>) -> Option<u64> {
    if is_main {
        if explicit_parent is Some {
            explicit_parent
        } else {
            ambient
        }
    } else {
        current
    }
}

/// What leaving a span does once its node `f` is finished.
pub open spec fn exit_effect(
    old_state: State,
    new_state: State,
    id: u64,
    f: GraphNode,
    parent: Option<u64>,
    config: &Config,
    r: Option<String>,
) -> bool {
    let rest = old_state.spans().remove(id);
    match parent {
        Some(p) => {
            &&& r is None
            &&& new_state.deferred == old_state.deferred
            &&& if rest.contains_key(p) {
                &&& new_state.current_span == Some(p)
                &&& new_state.spans().dom() == rest.dom()
                &&& forall|k: u64| k != p && #[trigger] rest.contains_key(k) ==> new_state.spans()[k] == rest[k]
                &&& same_but_children(new_state.spans()[p], rest[p])
                &&& new_state.spans()[p].child_nodes@ == rest[p].child_nodes@.push(f)
            } else {
                new_state.current_span == old_state.current_span && new_state.spans() == rest
            }
        },
        None => {
            &&& new_state.current_span is None
            &&& new_state.spans() == rest
            &&& exists|text: String|
                {
                    &&& #[trigger] is_report(f, *config, text@.drop_last())
                    &&& text@.last() == '\n'
                    &&& text@.len() > 0
                    &&& if config.defer_printing {
                        r is None && new_state.deferred@ == old_state.deferred@.push(text)
                    } else {
                        r == Some(text) && new_state.deferred == old_state.deferred
                    }
                }
        },
    }
}

/// Inserts each attribute, in order, into the metadata.
fn record_attributes(md: &mut LinearMap<String, String>, attributes: &Vec<(String, String)>)
    ensures
        metadata_entries(*final(md)) == with_attributes(
            metadata_entries(*old(md)),
            attribute_views(attributes@),
        ),
{
    let ghost start = metadata_entries(*md);
    let ghost av = attribute_views(attributes@);
    let mut i: usize = 0;
    while i < attributes.len()
        invariant
            i <= attributes@.len(),
            av == attribute_views(attributes@),
            metadata_entries(*md) == with_attributes(start, av.take(i as int)),
        decreases attributes@.len() - i,
    {
        proof {
            assert(av.take(i + 1).drop_last() =~= av.take(i as int));
        }
        metadata_insert(md, attributes[i].0.clone(), attributes[i].1.clone());
        i = i + 1;
    }
    proof {
        assert(av.take(attributes@.len() as int) =~= av);
    }
}

} // verus!
