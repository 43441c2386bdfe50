//! Span nodes and the transformations applied to a finished tree before it is
//! displayed: event accumulation, sibling aggregation, collapsing of small
//! children, unaccounted time, and labels.
use vstd::prelude::*;
use vstd::string::*;

use linear_map::LinearMap;

use crate::counters::{formatted, incremented, merged, no_counts, saturating, CounterValue, EventCounts};
use crate::log_tree::{tree_text, LogTree};
use crate::linear::{entries_insert, metadata_entries, metadata_insert, metadata_list, metadata_new};
use crate::text::{
    copy_str, decimal, digit_char, duration_text, format_duration, join_strings, joined, push_char,
    u128_text, usize_text, views,
};

verus! {

/// Display settings. Thresholds are in hundredths of a percent of the root's
/// duration (`250` is 2.5%).
#[derive(Debug, Clone)]
pub struct Config {
    /// Above this, a line is shown in bold red.
    pub attention_above: u64,
    /// Above this, a line is shown in normal style; at or below it, dimmed.
    /// Runs of same-named siblings at or below it are merged.
    pub relevant_above: u64,
    /// Children below this are folded into `[...]`.
    pub hide_below: u64,
    /// Whether to show the parent's time not covered by its children as `[unaccounted]`.
    pub display_unaccounted: bool,
    /// Whether each node shows the events of its whole subtree.
    pub accumulate_events: bool,
    /// Whether each span also counts as an event under its own name (with
    /// `accumulate_events`).
    pub accumulate_spans_count: bool,
    /// Whether to leave out color escapes.
    pub no_color: bool,
    /// Whether finished trees are kept until the end of the session instead of
    /// being shown at once.
    pub defer_printing: bool,
}

impl Default for Config {
    /// Attention above 25%, relevant above 2.5%, hidden below 1%; events
    /// accumulated; nothing else.
    fn default() -> (r: Config)
        ensures
            r.attention_above == 2500 && r.relevant_above == 250 && r.hide_below == 100,
            !r.display_unaccounted && r.accumulate_events && !r.accumulate_spans_count && !r.no_color,
            !r.defer_printing,
    {
        Config {
            attention_above: 2500,
            relevant_above: 250,
            hide_below: 100,
            display_unaccounted: false,
            accumulate_events: true,
            accumulate_spans_count: false,
            no_color: false,
            defer_printing: false,
        }
    }
}

/// Whether `d` is more than `t` hundredths of a percent of `root`; nothing is
/// above anything of a zero root.
pub open spec fn above(d: u64, root: u64, t: u64) -> bool {
    root > 0 && 10000 * (d as int) > (t as int) * (root as int)
}

/// Whether `d` is less than `t` hundredths of a percent of `root`; of a zero
/// root every duration counts as 0%.
pub open spec fn below(d: u64, root: u64, t: u64) -> bool {
    if root == 0 {
        0 < t
    } else {
        10000 * (d as int) < (t as int) * (root as int)
    }
}

proof fn lemma_product_fits(a: u64, b: u64)
    ensures
        (a as nat) * (b as nat) <= u128::MAX,
{
    assert((a as nat) * (b as nat) <= (u64::MAX as nat) * (u64::MAX as nat)) by (nonlinear_arith)
        requires
            a <= u64::MAX,
            b <= u64::MAX,
    ;
}

/// Whether `d` is above the threshold `t` relative to `root`.
pub fn percent_above(d: u64, root: u64, t: u64) -> (r: bool)
    ensures
        r == above(d, root, t),
{
    proof {
        lemma_product_fits(t, root);
    }
    root > 0 && 10000u128 * (d as u128) > (t as u128) * (root as u128)
}

/// Whether `d` is below the threshold `t` relative to `root`.
pub fn percent_below(d: u64, root: u64, t: u64) -> (r: bool)
    ensures
        r == below(d, root, t),
{
    proof {
        lemma_product_fits(t, root);
    }
    if root == 0 {
        0 < t
    } else {
        10000u128 * (d as u128) < (t as u128) * (root as u128)
    }
}

/// `100 * d / root` in hundredths, rounded half up; 0 for a zero root.
pub open spec fn percent_hundredths(d: u64, root: u64) -> nat {
    if root == 0 {
        0
    } else {
        ((20000 * (d as nat) / (root as nat) + 1) / 2) as nat
    }
}

/// A percentage with two decimals, from its value in hundredths.
pub open spec fn percent_text(h: nat) -> Seq<char> {
    decimal(h / 100) + seq!['.', digit_char((h % 100) / 10), digit_char(h % 10)]
}

/// The share of `root` that `d` takes, in hundredths of a percent.
pub fn execution_percentage(d: u64, root: u64) -> (r: u128)
    ensures
        r as nat == percent_hundredths(d, root),
{
    if root == 0 {
        0
    } else {
        proof {
            assert(20000 * (d as nat) / (root as nat) <= 20000 * (d as nat)) by (nonlinear_arith)
                requires
                    root as nat >= 1,
            ;
        }
        (20000u128 * (d as u128) / (root as u128) + 1) / 2
    }
}

fn digit(d: u128) -> (c: char)
    requires
        d < 10,
    ensures
        c == digit_char(d as nat),
{
    if d == 0 {
        '0'
    } else if d == 1 {
        '1'
    } else if d == 2 {
        '2'
    } else if d == 3 {
        '3'
    } else if d == 4 {
        '4'
    } else if d == 5 {
        '5'
    } else if d == 6 {
        '6'
    } else if d == 7 {
        '7'
    } else if d == 8 {
        '8'
    } else {
        '9'
    }
}

fn format_percent(h: u128) -> (r: String)
    ensures
        r@ == percent_text(h as nat),
{
    let mut r = u128_text(h / 100);
    push_char(&mut r, '.');
    push_char(&mut r, digit((h % 100) / 10));
    push_char(&mut r, digit(h % 10));
    r
}

/// What a node shows, and the children it is drawn with.
pub struct Summary {
    /// The span's name.
    pub name: Seq<char>,
    /// The duration in nanoseconds.
    pub duration: u64,
    /// How many spans the node stands for.
    pub calls: usize,
    /// The events, by signature.
    pub events: Map<Seq<char>, CounterValue>,
    /// The metadata entries, in order.
    pub metadata: Seq<(Seq<char>, Seq<char>)>,
    /// The children, before aggregation.
    pub children: Seq<GraphNode>,
}

/// One span's contribution to the call tree.
#[derive(Debug)]
pub struct GraphNode {
    /// The span's name.
    pub name: String,
    /// When the span was entered, in nanoseconds on the host's monotonic clock.
    pub started: Option<u64>,
    /// Time between entering and leaving the span, in nanoseconds.
    pub execution_duration: u64,
    /// The span's fields as text, in the order first given.
    pub metadata: LinearMap<String, String>,
    /// Events attributed to the span.
    pub events: EventCounts,
    /// Finished children, in the order they finished.
    pub child_nodes: Vec<GraphNode>,
    /// How many spans this node stands for.
    pub call_count: usize,
}

/// The summary of a node.
pub open spec fn summary(n: GraphNode) -> Summary {
    Summary {
        name: n.name@,
        duration: n.execution_duration,
        calls: n.call_count,
        events: n.events@,
        metadata: metadata_entries(n.metadata),
        children: n.child_nodes@,
    }
}

/// The summaries of a sequence of nodes.
pub open spec fn summaries(ns: Seq<GraphNode>) -> Seq<Summary> {
    ns.map_values(|n: GraphNode| summary(n))
}

/// `key = value` for one metadata entry.
pub open spec fn metadata_item(e: (Seq<char>, Seq<char>)) -> Seq<char> {
    e.0 + " = "@ + e.1
}

/// The annotation after the timing: the call count where above one, else the
/// metadata where there is any.
pub open spec fn info_text(s: Summary) -> Seq<char> {
    if s.calls > 1 {
        " ("@ + decimal(s.calls as nat) + " calls)"@
    } else if s.metadata.len() > 0 {
        " { "@ + joined(s.metadata.map_values(|e: (Seq<char>, Seq<char>)| metadata_item(e)), ", "@)
            + " }"@
    } else {
        Seq::empty()
    }
}

/// `name [ duration | percentage% ]` and the annotation.
pub open spec fn plain_label(s: Summary, root: u64) -> Seq<char> {
    s.name + " [ "@ + duration_text(s.duration) + " | "@ + percent_text(
        percent_hundredths(s.duration, root),
    ) + "% ]"@ + info_text(s)
}

/// The color escape of a line.
pub open spec fn color_of(d: u64, root: u64, c: Config) -> Seq<char> {
    if above(d, root, c.attention_above) {
        "\x1b[1;31m"@
    } else if above(d, root, c.relevant_above) {
        "\x1b[0m"@
    } else {
        "\x1b[2m"@
    }
}

/// The label of a node.
pub open spec fn label_of(s: Summary, root: u64, c: Config) -> Seq<char> {
    if c.no_color {
        plain_label(s, root)
    } else {
        color_of(s.duration, root, c) + plain_label(s, root) + "\x1b[0m"@
    }
}

fn info(node: &GraphNode) -> (r: String)
    ensures
        r@ == info_text(summary(*node)),
{
    if node.call_count > 1 {
        let mut r = copy_str(" (");
        let n = usize_text(node.call_count);
        r.append(n.as_str());
        r.append(" calls)");
        return r;
    }
    let entries = metadata_list(&node.metadata);
    if entries.len() == 0 {
        return String::new();
    }
    let ghost es = entries@.map_values(|e: (String, String)| (e.0@, e.1@));
    let mut items: Vec<String> = Vec::new();
    let mut i: usize = 0;
    while i < entries.len()
        invariant
            i <= entries@.len(),
            es == entries@.map_values(|e: (String, String)| (e.0@, e.1@)),
            views(items@) == es.take(i as int).map_values(
                |e: (Seq<char>, Seq<char>)| metadata_item(e),
            ),
        decreases entries@.len() - i,
    {
        let mut item = entries[i].0.clone();
        item.append(" = ");
        item.append(entries[i].1.as_str());
        let ghost prev = items@;
        items.push(item);
        proof {
            assert(views(items@) =~= views(prev).push(item@));
            assert(es.take(i + 1).map_values(|e: (Seq<char>, Seq<char>)| metadata_item(e))
                =~= es.take(i as int).map_values(|e: (Seq<char>, Seq<char>)| metadata_item(e)).push(
                metadata_item(es[i as int]),
            ));
        }
        i = i + 1;
    }
    proof {
        assert(es.take(entries@.len() as int) =~= es);
    }
    let mut r = copy_str(" { ");
    let body = join_strings(&items, ", ");
    r.append(body.as_str());
    r.append(" }");
    r
}

impl GraphNode {
    /// A node named `name` that stands for no span yet.
    pub fn new(name: &str) -> (r: GraphNode)
        ensures
            summary(r) == (Summary {
                name: name@,
                duration: 0,
                calls: 0,
                events: no_counts(),
                metadata: Seq::empty(),
                children: Seq::empty(),
            }),
            r.started is None,
    {
        let r = GraphNode {
            name: copy_str(name),
            started: None,
            execution_duration: 0,
            metadata: metadata_new(),
            events: EventCounts::new(),
            child_nodes: Vec::new(),
            call_count: 0,
        };
        proof {
            assert(metadata_entries(r.metadata) =~= Seq::empty());
            assert(r.child_nodes@ =~= Seq::empty());
        }
        r
    }

    /// The line that shows this node.
    pub fn label(&self, root: u64, config: &Config) -> (r: String)
        ensures
            r@ == label_of(summary(*self), root, *config),
    {
        let mut plain = self.name.clone();
        plain.append(" [ ");
        let d = format_duration(self.execution_duration);
        plain.append(d.as_str());
        plain.append(" | ");
        let p = format_percent(execution_percentage(self.execution_duration, root));
        plain.append(p.as_str());
        plain.append("% ]");
        let extra = info(self);
        plain.append(extra.as_str());
        if config.no_color {
            return plain;
        }
        let mut r = if percent_above(self.execution_duration, root, config.attention_above) {
            copy_str("\x1b[1;31m")
        } else if percent_above(self.execution_duration, root, config.relevant_above) {
            copy_str("\x1b[0m")
        } else {
            copy_str("\x1b[2m")
        };
        r.append(plain.as_str());
        r.append("\x1b[0m");
        r
    }
}

/// `a + b`, held at `usize::MAX`.
pub open spec fn saturating_usize(a: usize, b: usize) -> usize {
    if a + b > usize::MAX {
        usize::MAX
    } else {
        (a + b) as usize
    }
}

/// A node that stands for both `a` and `b`: durations, call counts and events
/// summed; name, metadata and children those of `a`.
pub open spec fn combine(a: Summary, b: Summary) -> Summary {
    Summary {
        duration: saturating(a.duration, b.duration),
        calls: saturating_usize(a.calls, b.calls),
        events: merged(a.events, b.events),
        ..a
    }
}

/// `s` annotated with its 1-based occurrence index among same-named siblings.
pub open spec fn with_index(s: Summary, k: nat) -> Summary {
    Summary { metadata: entries_insert(s.metadata, "index"@, decimal(k)), ..s }
}

/// How many of `cs` are named `name`.
pub open spec fn occurrences(cs: Seq<Summary>, name: Seq<char>) -> nat
    decreases cs.len(),
{
    if cs.len() == 0 {
        0
    } else {
        occurrences(cs.drop_last(), name) + if cs.last().name == name {
            1nat
        } else {
            0nat
        }
    }
}

/// Whether the sibling after `i` has the same name.
pub open spec fn same_as_next(cs: Seq<Summary>, i: int) -> bool {
    i + 1 < cs.len() && cs[i + 1].name == cs[i].name
}

/// Whether the sibling before `i` has the same name.
pub open spec fn same_as_previous(cs: Seq<Summary>, i: int) -> bool {
    0 < i < cs.len() && cs[i - 1].name == cs[i].name
}

/// One step of sibling aggregation, on child `i`, from the children shown so
/// far and the merge in progress. In a run of same-named siblings, a child
/// above `relevant` is shown with its occurrence index and the others are
/// merged; the merged node is shown where the run ends.
pub open spec fn sibling_step(
    cs: Seq<Summary>,
    i: int,
    out: Seq<Summary>,
    pending: Option<Summary>,
    root: u64,
    relevant: u64,
) -> (Seq<Summary>, Option<Summary>) {
    let c = cs[i];
    let (out2, pending2) = if !same_as_next(cs, i) && !same_as_previous(cs, i) {
        (out.push(c), pending)
    } else if above(c.duration, root, relevant) {
        (out.push(with_index(c, occurrences(cs.take(i + 1), c.name))), pending)
    } else {
        (
            out,
            Some(
                match pending {
                    Some(p) => combine(p, c),
                    None => c,
                },
            ),
        )
    };
    if same_as_next(cs, i) {
        (out2, pending2)
    } else {
        match pending2 {
            Some(p) => (out2.push(p), None),
            None => (out2, None),
        }
    }
}

/// Sibling aggregation of the first `k` children.
pub open spec fn siblings_upto(cs: Seq<Summary>, k: int, root: u64, relevant: u64) -> (
    Seq<Summary>,
    Option<Summary>,
)
    decreases k,
{
    if k <= 0 {
        (Seq::empty(), None)
    } else {
        let (out, pending) = siblings_upto(cs, k - 1, root, relevant);
        sibling_step(cs, k - 1, out, pending, root, relevant)
    }
}

/// The children after sibling aggregation.
pub open spec fn aggregate_siblings(cs: Seq<Summary>, root: u64, relevant: u64) -> Seq<Summary> {
    siblings_upto(cs, cs.len() as int, root, relevant).0
}

/// The node that collects small children.
pub open spec fn bucket() -> Summary {
    Summary {
        name: "[...]"@,
        duration: 0,
        calls: 0,
        events: no_counts(),
        metadata: Seq::empty(),
        children: Seq::empty(),
    }
}

/// Collapsing of the first `k` children: each child below `hide` goes into a
/// `[...]` node, one per run of such neighbours; with whether the last shown
/// node is such a bucket.
pub open spec fn collapse_upto(cs: Seq<Summary>, k: int, root: u64, hide: u64) -> (Seq<Summary>, bool)
    decreases k,
{
    if k <= 0 {
        (Seq::empty(), false)
    } else {
        let (acc, open) = collapse_upto(cs, k - 1, root, hide);
        let c = cs[k - 1];
        if below(c.duration, root, hide) {
            if open {
                (acc.update(acc.len() - 1, combine(acc.last(), c)), true)
            } else {
                (acc.push(combine(bucket(), c)), true)
            }
        } else {
            (acc.push(c), false)
        }
    }
}

/// The children after collapsing the small ones.
pub open spec fn collapse_small(cs: Seq<Summary>, root: u64, hide: u64) -> Seq<Summary> {
    collapse_upto(cs, cs.len() as int, root, hide).0
}

/// The sum of the durations, held at `u64::MAX`.
pub open spec fn total_duration(cs: Seq<Summary>) -> u64
    decreases cs.len(),
{
    if cs.len() == 0 {
        0
    } else {
        saturating(total_duration(cs.drop_last()), cs.last().duration)
    }
}

/// The parent's time not covered by its children (none where they cover more).
pub open spec fn unaccounted(parent: u64, cs: Seq<Summary>) -> Summary {
    Summary {
        name: "[unaccounted]"@,
        duration: if parent >= total_duration(cs) {
            (parent - total_duration(cs)) as u64
        } else {
            0
        },
        calls: 0,
        events: no_counts(),
        metadata: Seq::empty(),
        children: Seq::empty(),
    }
}

/// The children as displayed: aggregated, collapsed, and after the
/// unaccounted time where that is asked for and anything is shown.
pub open spec fn reduced(cs: Seq<Summary>, parent: u64, root: u64, c: Config) -> Seq<Summary> {
    let shown = collapse_small(aggregate_siblings(cs, root, c.relevant_above), root, c.hide_below);
    if c.display_unaccounted && shown.len() > 0 {
        seq![unaccounted(parent, cs)] + shown
    } else {
        shown
    }
}

/// The summary of an optional node.
pub open spec fn opt_summary(o: Option<GraphNode>) -> Option<Summary> {
    match o {
        Some(n) => Some(summary(n)),
        None => None,
    }
}

/// Whether the children of `n` are none, or those of one of `cs`.
pub open spec fn children_from(n: GraphNode, cs: Seq<GraphNode>) -> bool {
    n.child_nodes@.len() == 0 || exists|j: int| 0 <= j < cs.len() && n.child_nodes == cs[j].child_nodes
}

proof fn lemma_summaries_push(s: Seq<GraphNode>, x: GraphNode)
    ensures
        summaries(s.push(x)) == summaries(s).push(summary(x)),
{
    assert(summaries(s.push(x)) =~= summaries(s).push(summary(x)));
}

proof fn lemma_summaries_drop_last(s: Seq<GraphNode>)
    requires
        s.len() > 0,
    ensures
        summaries(s.drop_last()) == summaries(s).drop_last(),
{
    assert(summaries(s.drop_last()) =~= summaries(s).drop_last());
}

/// The elements of `v` in reverse order.
fn reversed<T>(v: Vec<T>) -> (r: Vec<T>)
    ensures
        r@.len() == v@.len(),
        forall|i: int| 0 <= i < v@.len() ==> #[trigger] r@[i] == v@[v@.len() - 1 - i],
{
    let ghost v0 = v@;
    let mut v = v;
    let mut r: Vec<T> = Vec::new();
    while v.len() > 0
        invariant
            v@.len() <= v0.len(),
            v@ == v0.take(v@.len() as int),
            r@.len() == v0.len() - v@.len(),
            forall|i: int| 0 <= i < r@.len() ==> #[trigger] r@[i] == v0[v0.len() - 1 - i],
        decreases v@.len(),
    {
        let x = v.pop().unwrap();
        r.push(x);
    }
    r
}

fn names_of(cs: &Vec<GraphNode>) -> (r: Vec<String>)
    ensures
        r@.len() == cs@.len(),
        forall|i: int| 0 <= i < cs@.len() ==> #[trigger] r@[i]@ == cs@[i].name@,
{
    let mut r: Vec<String> = Vec::new();
    let mut i: usize = 0;
    while i < cs.len()
        invariant
            i <= cs@.len(),
            r@.len() == i,
            forall|j: int| 0 <= j < i ==> #[trigger] r@[j]@ == cs@[j].name@,
        decreases cs@.len() - i,
    {
        r.push(cs[i].name.clone());
        i = i + 1;
    }
    r
}

fn count_occurrences(names: &Vec<String>, i: usize, ss: Ghost<Seq<Summary>>) -> (r: usize)
    requires
        i < names@.len(),
        ss@.len() == names@.len(),
        forall|j: int| 0 <= j < names@.len() ==> #[trigger] names@[j]@ == ss@[j].name,
    ensures
        r as nat == occurrences(ss@.take(i + 1), ss@[i as int].name),
{
    let mut count: usize = 0;
    let mut j: usize = 0;
    let len = names.len();
    let end = i + 1;
    while j < end
        invariant
            end == i + 1,
            j <= end,
            i < names@.len(),
            ss@.len() == names@.len(),
            forall|m: int| 0 <= m < names@.len() ==> #[trigger] names@[m]@ == ss@[m].name,
            count as nat == occurrences(ss@.take(j as int), ss@[i as int].name),
            count <= j,
        decreases i + 1 - j,
    {
        proof {
            assert(ss@.take(j + 1).drop_last() =~= ss@.take(j as int));
        }
        if names[j] == names[i] {
            count = count + 1;
        }
        j = j + 1;
    }
    count
}

impl GraphNode {
    /// This node standing also for `other`: durations, call counts and events
    /// summed.
    pub fn aggregate(self, other: &GraphNode) -> (r: GraphNode)
        ensures
            summary(r) == combine(summary(self), summary(*other)),
            r.child_nodes == self.child_nodes,
            r.started == self.started,
    {
        let mut r = self;
        r.execution_duration = r.execution_duration.saturating_add(other.execution_duration);
        r.call_count = r.call_count.saturating_add(other.call_count);
        r.events.add_assign(&other.events);
        r
    }
}

fn aggregate_siblings_of(cs: Vec<GraphNode>, root: u64, relevant: u64) -> (r: Vec<GraphNode>)
    ensures
        summaries(r@) == aggregate_siblings(summaries(cs@), root, relevant),
        forall|i: int| 0 <= i < r@.len() ==> children_from(#[trigger] r@[i], cs@),
{
    let ghost cs0 = cs@;
    let ghost ss = summaries(cs@);
    let names = names_of(&cs);
    let n = cs.len();
    let mut rev = reversed(cs);
    let mut out: Vec<GraphNode> = Vec::new();
    let mut pending: Option<GraphNode> = None;
    let mut i: usize = 0;
    while i < n
        invariant
            n == cs0.len(),
            ss == summaries(cs0),
            i <= n,
            names@.len() == n,
            forall|j: int| 0 <= j < n ==> #[trigger] names@[j]@ == cs0[j].name@,
            rev@.len() == n - i,
            forall|j: int| 0 <= j < rev@.len() ==> #[trigger] rev@[j] == cs0[n - 1 - j],
            (summaries(out@), opt_summary(pending)) == siblings_upto(ss, i as int, root, relevant),
            forall|j: int| 0 <= j < out@.len() ==> children_from(#[trigger] out@[j], cs0),
            pending matches Some(p) ==> children_from(p, cs0),
        decreases n - i,
    {
        let ghost out_before = out@;
        let ghost pending_before = pending;
        let c = rev.pop().unwrap();
        proof {
            assert(c == cs0[i as int]);
            assert(summary(c) == ss[i as int]);
        }
        let next_same = i + 1 < n && names[i + 1] == names[i];
        let prev_same = i > 0 && names[i - 1] == names[i];
        proof {
            assert(next_same == same_as_next(ss, i as int));
            assert(prev_same == same_as_previous(ss, i as int));
        }
        if !next_same && !prev_same {
            out.push(c);
            proof {
                lemma_summaries_push(out_before, c);
                assert(children_from(c, cs0));
            }
        } else if percent_above(c.execution_duration, root, relevant) {
            let k = count_occurrences(&names, i, Ghost(ss));
            let mut c = c;
            let ghost c_before = c;
            metadata_insert(&mut c.metadata, copy_str("index"), usize_text(k));
            proof {
                assert(summary(c) == with_index(summary(c_before), k as nat));
                assert(children_from(c, cs0));
            }
            out.push(c);
            proof {
                lemma_summaries_push(out_before, c);
            }
        } else {
            pending = match pending {
                Some(p) => Some(p.aggregate(&c)),
                None => Some(c),
            };
            proof {
                assert(children_from(c, cs0));
            }
        }
        if !next_same {
            let ghost out_mid = out@;
            match pending {
                Some(p) => {
                    out.push(p);
                    proof {
                        lemma_summaries_push(out_mid, p);
                    }
                },
                None => {},
            }
            pending = None;
        }
        i = i + 1;
    }
    proof {
        assert(ss.len() == n);
    }
    out
}

fn collapse_small_of(cs: Vec<GraphNode>, root: u64, hide: u64) -> (r: Vec<GraphNode>)
    ensures
        summaries(r@) == collapse_small(summaries(cs@), root, hide),
        forall|i: int| 0 <= i < r@.len() ==> children_from(#[trigger] r@[i], cs@),
{
    let ghost cs0 = cs@;
    let ghost ss = summaries(cs@);
    let n = cs.len();
    let mut rev = reversed(cs);
    let mut out: Vec<GraphNode> = Vec::new();
    let mut open = false;
    let mut i: usize = 0;
    while i < n
        invariant
            n == cs0.len(),
            ss == summaries(cs0),
            i <= n,
            rev@.len() == n - i,
            forall|j: int| 0 <= j < rev@.len() ==> #[trigger] rev@[j] == cs0[n - 1 - j],
            (summaries(out@), open) == collapse_upto(ss, i as int, root, hide),
            open ==> out@.len() > 0,
            forall|j: int| 0 <= j < out@.len() ==> children_from(#[trigger] out@[j], cs0),
        decreases n - i,
    {
        let ghost out_before = out@;
        let c = rev.pop().unwrap();
        proof {
            assert(c == cs0[i as int]);
            assert(summary(c) == ss[i as int]);
            assert(children_from(c, cs0));
        }
        if percent_below(c.execution_duration, root, hide) {
            if open {
                let last = out.pop().unwrap();
                proof {
                    lemma_summaries_drop_last(out_before);
                }
                let merged_last = last.aggregate(&c);
                let ghost out_mid = out@;
                out.push(merged_last);
                proof {
                    lemma_summaries_push(out_mid, merged_last);
                    assert(summaries(out@) =~= summaries(out_before).update(
                        out_before.len() - 1,
                        combine(summaries(out_before).last(), summary(c)),
                    ));
                    assert(children_from(merged_last, cs0));
                }
            } else {
                let b = GraphNode::new("[...]");
                let merged_b = b.aggregate(&c);
                out.push(merged_b);
                proof {
                    lemma_summaries_push(out_before, merged_b);
                    assert(summary(b) == bucket());
                }
                open = true;
            }
        } else {
            out.push(c);
            proof {
                lemma_summaries_push(out_before, c);
            }
            open = false;
        }
        i = i + 1;
    }
    out
}

fn total_duration_of(cs: &Vec<GraphNode>) -> (r: u64)
    ensures
        r == total_duration(summaries(cs@)),
{
    let mut total: u64 = 0;
    let mut i: usize = 0;
    while i < cs.len()
        invariant
            i <= cs@.len(),
            total == total_duration(summaries(cs@).take(i as int)),
        decreases cs@.len() - i,
    {
        proof {
            assert(summaries(cs@).take(i + 1).drop_last() =~= summaries(cs@).take(i as int));
        }
        total = total.saturating_add(cs[i].execution_duration);
        i = i + 1;
    }
    proof {
        assert(summaries(cs@).take(cs@.len() as int) =~= summaries(cs@));
    }
    total
}

/// The children as displayed (see `reduced`); each keeps the children of one
/// of the given nodes, or has none.
pub fn reduce_children(cs: Vec<GraphNode>, parent: u64, root: u64, config: &Config) -> (r: Vec<GraphNode>)
    ensures
        summaries(r@) == reduced(summaries(cs@), parent, root, *config),
        forall|i: int| 0 <= i < r@.len() ==> children_from(#[trigger] r@[i], cs@),
{
    let ghost cs0 = cs@;
    let total = total_duration_of(&cs);
    let aggregated = aggregate_siblings_of(cs, root, config.relevant_above);
    let ghost agg = aggregated@;
    let mut shown = collapse_small_of(aggregated, root, config.hide_below);
    proof {
        assert forall|i: int| 0 <= i < shown@.len() implies children_from(#[trigger] shown@[i], cs0) by {
            if shown@[i].child_nodes@.len() != 0 {
                let j = choose|j: int| 0 <= j < agg.len() && shown@[i].child_nodes == agg[j].child_nodes;
                assert(children_from(agg[j], cs0));
            }
        }
    }
    if config.display_unaccounted && shown.len() > 0 {
        let mut u = GraphNode::new("[unaccounted]");
        u.execution_duration = if parent >= total {
            parent - total
        } else {
            0
        };
        let ghost before = shown@;
        shown.insert(0, u);
        proof {
            assert(summaries(shown@) =~= seq![summary(u)] + summaries(before));
            assert forall|i: int| 0 <= i < shown@.len() implies children_from(#[trigger] shown@[i], cs0) by {
                if i > 0 {
                    assert(shown@[i] == before[i - 1]);
                }
            }
        }
    }
    shown
}

/// Whether `t` is the rendering of a node with summary `s`: its label, its
/// event lines, and the rendering of each displayed child.
pub open spec fn renders(t: LogTree, s: Summary, root: u64, c: Config) -> bool
    decreases t,
{
    let shown = reduced(summaries(s.children), s.duration, root, c);
    &&& t.label@ == label_of(s, root, c)
    &&& formatted(views(t.events@), s.events)
    &&& t.children@.len() == shown.len()
    &&& forall|i: int| 0 <= i < shown.len() ==> renders(#[trigger] t.children@[i], shown[i], root, c)
}

/// The renderings of the displayed children of nodes `cs`, whose parent took
/// `parent` nanoseconds.
fn render_children(cs: Vec<GraphNode>, parent: u64, root: u64, config: &Config) -> (r: Vec<LogTree>)
    ensures
        r@.len() == reduced(summaries(cs@), parent, root, *config).len(),
        forall|i: int|
            0 <= i < r@.len() ==> renders(
                #[trigger] r@[i],
                reduced(summaries(cs@), parent, root, *config)[i],
                root,
                *config,
            ),
    decreases cs,
{
    let ghost cs_entry = cs;
    let ghost cs0 = cs@;
    assert(cs0 == cs_entry@);
    let red = reduce_children(cs, parent, root, config);
    let ghost shown = reduced(summaries(cs0), parent, root, *config);
    let ghost red0 = red@;
    let n = red.len();
    let mut rev = reversed(red);
    let mut out: Vec<LogTree> = Vec::new();
    let mut i: usize = 0;
    #[verifier::loop_isolation(false)]
    while i < n
        invariant
            n == red0.len(),
            cs0 == cs_entry@,
            summaries(red0) == shown,
            forall|j: int| 0 <= j < red0.len() ==> children_from(#[trigger] red0[j], cs0),
            i <= n,
            rev@.len() == n - i,
            forall|j: int| 0 <= j < rev@.len() ==> #[trigger] rev@[j] == red0[n - 1 - j],
            out@.len() == i,
            forall|j: int| 0 <= j < i ==> renders(#[trigger] out@[j], shown[j], root, *config),
        decreases n - i,
    {
        let node = rev.pop().unwrap();
        proof {
            assert(node == red0[i as int]);
            assert(summary(node) == shown[i as int]);
            assert(children_from(node, cs0));
        }
        let label = node.label(root, config);
        let events = node.events.format();
        let children = if node.child_nodes.len() == 0 {
            Vec::new()
        } else {
            proof {
                let j = choose|j: int| 0 <= j < cs0.len() && node.child_nodes == cs0[j].child_nodes;
                broadcast use vstd::std_specs::vec::group_vec_axioms;
                assert(decreases_to!(cs_entry => cs_entry[j]));
                assert(decreases_to!(cs_entry[j] => cs_entry[j].child_nodes));
                assert(decreases_to!(cs_entry => node.child_nodes));
            }
            render_children(node.child_nodes, node.execution_duration, root, config)
        };
        let tree = LogTree { label, events, children };
        proof {
            assert(renders(tree, shown[i as int], root, *config));
        }
        out.push(tree);
        i = i + 1;
    }
    out
}

impl GraphNode {
    /// The rendering of this node with its displayed children, percentages
    /// relative to `root` nanoseconds.
    pub fn render_tree(self, root: u64, config: &Config) -> (r: LogTree)
        ensures
            renders(r, summary(self), root, *config),
    {
        let label = self.label(root, config);
        let events = self.events.format();
        let children = render_children(self.child_nodes, self.execution_duration, root, config);
        LogTree { label, events, children }
    }
}

/// What child `c` adds to its parent's events: its whole subtree's events,
/// and one occurrence of its own name where spans are counted.
pub open spec fn contribution(c: GraphNode, count_spans: bool) -> Map<Seq<char>, CounterValue>
    decreases c, 3nat, 0nat,
{
    if count_spans {
        incremented(subtree_events(c, count_spans), c.name@)
    } else {
        subtree_events(c, count_spans)
    }
}

/// The node's own events with the contributions of its first `k` children
/// added in order.
pub open spec fn events_upto(n: GraphNode, k: int, count_spans: bool) -> Map<Seq<char>, CounterValue>
    decreases n, 1nat, k,
{
    if k <= 0 || k > n.child_nodes@.len() {
        n.events@
    } else {
        merged(events_upto(n, k - 1, count_spans), contribution(n.child_nodes@[k - 1], count_spans))
    }
}

/// The events of the whole subtree of `n`.
pub open spec fn subtree_events(n: GraphNode, count_spans: bool) -> Map<Seq<char>, CounterValue>
    decreases n, 2nat, 0nat,
{
    events_upto(n, n.child_nodes@.len() as int, count_spans)
}

/// Whether `new` is `old` after accumulation: every node holds the events of
/// its subtree (and, where `own`, one occurrence of its own name); nothing
/// else changes.
pub open spec fn accumulated(new: GraphNode, old: GraphNode, count_spans: bool, own: bool) -> bool
    decreases old,
{
    &&& new.events@ == (if own {
        incremented(subtree_events(old, count_spans), old.name@)
    } else {
        subtree_events(old, count_spans)
    })
    &&& new.name == old.name
    &&& new.started == old.started
    &&& new.execution_duration == old.execution_duration
    &&& new.metadata == old.metadata
    &&& new.call_count == old.call_count
    &&& new.child_nodes@.len() == old.child_nodes@.len()
    &&& forall|i: int|
        0 <= i < old.child_nodes@.len() ==> accumulated(
            #[trigger] new.child_nodes@[i],
            old.child_nodes@[i],
            count_spans,
            count_spans,
        )
}

/// Whether `text` is the report of the tree rooted at `n`: events accumulated
/// where the settings ask for it, rendered relative to the root's duration.
pub open spec fn is_report(n: GraphNode, c: Config, text: Seq<char>) -> bool {
    exists|acc: GraphNode, t: LogTree|
        {
            &&& (if c.accumulate_events {
                accumulated(acc, n, c.accumulate_spans_count, false)
            } else {
                acc == n
            })
            &&& renders(t, summary(acc), n.execution_duration, c)
            &&& text == tree_text(t)
        }
}

impl GraphNode {
    /// Counts this span as one event under its own name.
    pub fn record_self_as_event(&mut self)
        ensures
            final(self).events@ == incremented(old(self).events@, old(self).name@),
            final(self).name == old(self).name,
            final(self).started == old(self).started,
            final(self).execution_duration == old(self).execution_duration,
            final(self).metadata == old(self).metadata,
            final(self).call_count == old(self).call_count,
            final(self).child_nodes == old(self).child_nodes,
    {
        self.events.increment_events_counter(self.name.as_str());
    }

    /// Adds the events of all descendants to each node, children first; where
    /// `accumulate_spans_count` holds, each child also counts once under its
    /// own name.
    pub fn accumulate_children_events(&mut self, accumulate_spans_count: bool)
        ensures
            accumulated(*final(self), *old(self), accumulate_spans_count, false),
    {
        let mut node = GraphNode::new("");
        std::mem::swap(&mut node, self);
        *self = accumulate_node(node, accumulate_spans_count);
    }

    /// The text of the tree rooted here: events accumulated where the
    /// settings ask for it, then rendered relative to this node's duration.
    pub fn report(self, config: &Config) -> (r: String)
        ensures
            is_report(self, *config, r@),
    {
        let mut node = self;
        if config.accumulate_events {
            node.accumulate_children_events(config.accumulate_spans_count);
        }
        let root = node.execution_duration;
        let tree = node.render_tree(root, config);
        tree.text()
    }
}

/// `node` with the events of all descendants added to each node.
fn accumulate_node(node: GraphNode, accumulate_spans_count: bool) -> (r: GraphNode)
    ensures
        accumulated(r, node, accumulate_spans_count, false),
    decreases node,
{
    let ghost old_self = node;
    let ghost kids = node.child_nodes@;
    let mut node = node;
    let mut children: Vec<GraphNode> = Vec::new();
    std::mem::swap(&mut children, &mut node.child_nodes);
    let n = children.len();
    let mut rev = reversed(children);
    let mut done: Vec<GraphNode> = Vec::new();
    let mut i: usize = 0;
    #[verifier::loop_isolation(false)]
    while i < n
        invariant
            n == kids.len(),
            kids == old_self.child_nodes@,
            i <= n,
            rev@.len() == n - i,
            forall|j: int| 0 <= j < rev@.len() ==> #[trigger] rev@[j] == kids[n - 1 - j],
            done@.len() == i,
            forall|j: int|
                0 <= j < i ==> accumulated(
                    #[trigger] done@[j],
                    kids[j],
                    accumulate_spans_count,
                    accumulate_spans_count,
                ),
            node.events@ == events_upto(old_self, i as int, accumulate_spans_count),
            node.name == old_self.name,
            node.started == old_self.started,
            node.execution_duration == old_self.execution_duration,
            node.metadata == old_self.metadata,
            node.call_count == old_self.call_count,
        decreases n - i,
    {
        let child = rev.pop().unwrap();
        proof {
            assert(child == kids[i as int]);
            broadcast use vstd::std_specs::vec::group_vec_axioms;

            assert(decreases_to!(old_self => old_self.child_nodes));
            assert(decreases_to!(old_self.child_nodes => old_self.child_nodes[i as int]));
        }
        let ghost child_before = child;
        let mut child = accumulate_node(child, accumulate_spans_count);
        if accumulate_spans_count {
            child.record_self_as_event();
        }
        node.events.add_assign(&child.events);
        proof {
            assert(accumulated(child, child_before, accumulate_spans_count, accumulate_spans_count));
            assert(child.events@ == contribution(child_before, accumulate_spans_count));
            assert(events_upto(old_self, i + 1, accumulate_spans_count) == merged(
                events_upto(old_self, i as int, accumulate_spans_count),
                contribution(kids[i as int], accumulate_spans_count),
            ));
        }
        done.push(child);
        i = i + 1;
    }
    std::mem::swap(&mut done, &mut node.child_nodes);
    node
}

} // verus!
