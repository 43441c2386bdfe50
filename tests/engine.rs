use tracing_profile::{
    event_signature, execution_percentage, percent_above, percent_below, reduce_children, Config,
    CounterValue, CounterVisitor, EventCounts, EventField, EventRecord, FieldValue, GraphNode,
    LogTree, State, WritingFieldVisitor,
};

const MS: u64 = 1_000_000;

fn plain() -> Config {
    Config { no_color: true, ..Config::default() }
}

fn node(name: &str, duration: u64) -> GraphNode {
    let mut n = GraphNode::new(name);
    n.execution_duration = duration;
    n.call_count = 1;
    n
}

fn field(name: &str, text: &str, value: FieldValue) -> EventField {
    EventField { name: name.to_string(), text: text.to_string(), value }
}

fn plain_event(name: &str) -> EventRecord {
    EventRecord { name: name.to_string(), fields: vec![] }
}

fn counter_event(name: &str, value: u64) -> EventRecord {
    EventRecord {
        name: name.to_string(),
        fields: vec![
            field("counter", "true", FieldValue::Flag(true)),
            field("value", &value.to_string(), FieldValue::Number(value)),
        ],
    }
}

#[test]
fn counter_values_add() {
    assert_eq!(CounterValue::Int(3).plus(CounterValue::Int(4)), CounterValue::Int(7));
    assert_eq!(CounterValue::Int(u64::MAX).plus(CounterValue::Int(1)), CounterValue::Int(u64::MAX));
    assert_eq!(CounterValue::Int(5).plus_count(2), CounterValue::Int(7));
    assert_eq!(CounterValue::zero(), CounterValue::Int(0));
    assert_eq!(CounterValue::Int(1234).text(), "1234");
}

#[test]
fn event_counts_record_and_merge() {
    let mut a = EventCounts::new();
    assert!(a.is_empty());
    a.increment_events_counter("b");
    a.increment_events_counter("b");
    a.record_counter("size", CounterValue::Int(3));
    let mut other = EventCounts::new();
    other.record_counter("size", CounterValue::Int(4));
    other.increment_events_counter("a");
    a.add_assign(&other);
    assert_eq!(a.get("b"), Some(CounterValue::Int(2)));
    assert_eq!(a.get("size"), Some(CounterValue::Int(7)));
    assert_eq!(a.get("a"), Some(CounterValue::Int(1)));
    assert_eq!(a.get("none"), None);
    assert_eq!(a.format(), vec!["a: 1", "b: 2", "size: 7"]);
    a.clear();
    assert!(a.is_empty());
    assert!(a.format().is_empty());
}

#[test]
fn format_orders_by_signature_not_by_line() {
    let mut a = EventCounts::new();
    a.increment_events_counter("a b");
    a.increment_events_counter("a");
    a.increment_events_counter("B");
    assert_eq!(a.format(), vec!["B: 1", "a: 1", "a b: 1"]);
}

#[test]
fn field_writer_separates_fields() {
    let mut w = WritingFieldVisitor::new();
    w.write_separator();
    assert_eq!(w.written, "");
    w.record(&field("x", "1", FieldValue::Number(1)));
    w.record(&field("y", "two", FieldValue::Text));
    assert_eq!(w.written, ", x: 1, y: two");
    let mut w = WritingFieldVisitor::new_with_separator("; ");
    w.record(&field("x", "1", FieldValue::Number(1)));
    w.record(&field("y", "true", FieldValue::Flag(true)));
    assert_eq!(w.written, "x: 1; y: true");
}

#[test]
fn signature_of_event_with_fields() {
    let e = EventRecord {
        name: "custom event".to_string(),
        fields: vec![field("field5", "value5", FieldValue::Text), field("n", "3", FieldValue::Number(3))],
    };
    assert_eq!(event_signature(&e), "custom event { field5: value5, n: 3 }");
    let mut counts = EventCounts::new();
    assert!(counts.record(&e));
    assert!(counts.record(&e));
    assert_eq!(counts.get("custom event { field5: value5, n: 3 }"), Some(CounterValue::Int(2)));
}

#[test]
fn counter_events_sum_their_samples() {
    let mut counts = EventCounts::new();
    assert!(counts.record(&counter_event("proof_size", 1)));
    assert!(counts.record(&counter_event("proof_size", 3)));
    assert!(counts.record(&plain_event("tick")));
    assert_eq!(counts.get("proof_size"), Some(CounterValue::Int(4)));
    assert_eq!(counts.get("tick"), Some(CounterValue::Int(1)));
}

#[test]
fn counter_event_without_sample_is_rejected() {
    let mut counts = EventCounts::new();
    let e = EventRecord {
        name: "broken".to_string(),
        fields: vec![field("counter", "true", FieldValue::Flag(true))],
    };
    assert!(!counts.record(&e));
    assert!(counts.is_empty());
}

#[test]
fn counter_visitor_reads_marker_and_sample() {
    let fields = vec![
        field("value", "5", FieldValue::Number(5)),
        field("counter", "true", FieldValue::Flag(true)),
        field("incremental", "true", FieldValue::Flag(true)),
        field("value", "9", FieldValue::Number(9)),
    ];
    let v = CounterVisitor::of_fields(&fields);
    assert_eq!(v.value, Some(CounterValue::Int(9)));
    assert!(v.is_counter);
    assert!(v.is_incremental);
    let v = CounterVisitor::of_fields(&vec![field("value", "x", FieldValue::Text)]);
    assert_eq!(v.value, None);
    assert!(!v.is_counter);
}

#[test]
fn percentages() {
    assert_eq!(execution_percentage(1, 3), 3333);
    assert_eq!(execution_percentage(2, 3), 6667);
    assert_eq!(execution_percentage(5, 0), 0);
    assert!(percent_above(26, 100, 2500));
    assert!(!percent_above(25, 100, 2500));
    assert!(!percent_above(25, 0, 0));
    assert!(percent_below(9, 1000, 100));
    assert!(!percent_below(10, 1000, 100));
    assert!(percent_below(10, 0, 100));
}

#[test]
fn label_shows_timing_and_annotation() {
    let mut n = node("root", 20 * MS);
    assert_eq!(n.label(40 * MS, &plain()), "root [ 20.00ms | 50.00% ]");
    n.call_count = 3;
    assert_eq!(n.label(40 * MS, &plain()), "root [ 20.00ms | 50.00% ] (3 calls)");
    assert_eq!(n.label(0, &plain()), "root [ 20.00ms | 0.00% ] (3 calls)");
    let colored = node("a", 20 * MS).label(40 * MS, &Config::default());
    assert_eq!(colored, "\x1b[1;31ma [ 20.00ms | 50.00% ]\x1b[0m");
    let normal = node("a", 4 * MS).label(40 * MS, &Config::default());
    assert_eq!(normal, "\x1b[0ma [ 4.00ms | 10.00% ]\x1b[0m");
    let dim = node("a", 1 * MS).label(40 * MS, &Config::default());
    assert_eq!(dim, "\x1b[2ma [ 1.00ms | 2.50% ]\x1b[0m");
}

#[test]
fn label_shows_metadata_in_order() {
    let mut st = State::new();
    st.on_new_span(
        true,
        1,
        &vec![("field1".to_string(), "value1".to_string()), ("k".to_string(), "v".to_string())],
    );
    st.on_record(true, 1, &vec![("field1".to_string(), "changed".to_string())]);
    st.on_enter(true, 1, 0, &plain());
    let text = st.on_exit(true, 1, "span", None, 5_000, &plain()).unwrap();
    assert_eq!(text, "span [ 5.00µs | 100.00% ] { field1 = changed, k = v }\n\n");
}

#[test]
fn same_named_small_siblings_are_merged() {
    let children = vec![node("x", 5), node("x", 5), node("x", 5)];
    let shown = reduce_children(children, 1000, 1000, &plain());
    assert_eq!(shown.len(), 1);
    assert_eq!(shown[0].name, "x");
    assert_eq!(shown[0].call_count, 3);
    assert_eq!(shown[0].execution_duration, 15);
}

#[test]
fn same_named_large_siblings_get_an_index() {
    let children = vec![node("y", 10), node("x", 300), node("x", 5), node("x", 400), node("y", 10)];
    let shown = reduce_children(children, 1000, 1000, &plain());
    let names: Vec<&str> = shown.iter().map(|n| n.name.as_str()).collect();
    assert_eq!(names, vec!["y", "x", "x", "[...]", "y"]);
    assert_eq!(shown[1].label(1000, &plain()), "x [ 300.00ns | 30.00% ] { index = 1 }");
    assert_eq!(shown[2].label(1000, &plain()), "x [ 400.00ns | 40.00% ] { index = 3 }");
    assert_eq!(shown[3].execution_duration, 5);
}

#[test]
fn small_neighbours_collapse_into_one_bucket() {
    let children = vec![node("a", 50), node("b", 3), node("c", 4), node("d", 50)];
    let shown = reduce_children(children, 1000, 1000, &plain());
    let names: Vec<&str> = shown.iter().map(|n| n.name.as_str()).collect();
    assert_eq!(names, vec!["a", "[...]", "d"]);
    assert_eq!(shown[1].execution_duration, 7);
    assert_eq!(shown[1].call_count, 2);
}

#[test]
fn leading_small_child_is_collapsed_too() {
    let children = vec![node("b", 3), node("a", 50)];
    let shown = reduce_children(children, 1000, 1000, &plain());
    let names: Vec<&str> = shown.iter().map(|n| n.name.as_str()).collect();
    assert_eq!(names, vec!["[...]", "a"]);
}

#[test]
fn unaccounted_time_comes_first() {
    let config = Config { display_unaccounted: true, ..plain() };
    let children = vec![node("a", 30 * MS), node("b", 50 * MS)];
    let shown = reduce_children(children, 100 * MS, 100 * MS, &config);
    assert_eq!(shown.len(), 3);
    assert_eq!(shown[0].name, "[unaccounted]");
    assert_eq!(shown[0].execution_duration, 20 * MS);
    let none = reduce_children(vec![], 100 * MS, 100 * MS, &config);
    assert!(none.is_empty());
}

#[test]
fn log_tree_text_draws_branches() {
    let c = LogTree { label: "c".to_string(), events: vec![], children: vec![] };
    let a = LogTree { label: "a".to_string(), events: vec!["x: 2".to_string()], children: vec![c] };
    let b = LogTree { label: "b\nmore".to_string(), events: vec!["y: 1".to_string()], children: vec![] };
    let root = LogTree { label: "root".to_string(), events: vec!["e: 1".to_string()], children: vec![a, b] };
    assert_eq!(
        root.text(),
        "root\n├>e: 1\n├── a\n│  ├>x: 2\n│  └── c\n└── b\n    more\n   ├>y: 1\n"
    );
}

#[test]
fn accumulate_chain_sums_events() {
    let mut c = node("c", 1);
    c.events.increment_events_counter("e");
    let mut b = node("b", 2);
    b.events.increment_events_counter("e");
    b.child_nodes.push(c);
    let mut a = node("a", 3);
    a.events.record_counter("n", CounterValue::Int(4));
    a.child_nodes.push(b);
    a.accumulate_children_events(false);
    assert_eq!(a.events.get("e"), Some(CounterValue::Int(2)));
    assert_eq!(a.events.get("n"), Some(CounterValue::Int(4)));
    assert_eq!(a.child_nodes[0].events.get("e"), Some(CounterValue::Int(2)));

    let mut leaf = node("leaf", 1);
    leaf.events.increment_events_counter("e");
    leaf.accumulate_children_events(true);
    leaf.accumulate_children_events(true);
    assert_eq!(leaf.events.format(), vec!["e: 1"]);
}

#[test]
fn span_counts_as_events() {
    let mut a = node("a", 3);
    a.child_nodes.push(node("b", 1));
    a.child_nodes.push(node("b", 1));
    a.accumulate_children_events(true);
    assert_eq!(a.events.get("b"), Some(CounterValue::Int(2)));
}

#[test]
fn duration_is_time_between_enter_and_exit() {
    let config = plain();
    let mut st = State::new();
    st.on_new_span(true, 1, &vec![]);
    st.on_enter(true, 1, 0, &config);
    st.on_new_span(true, 2, &vec![]);
    st.on_enter(true, 2, 100, &config);
    assert_eq!(st.on_exit(true, 2, "child", Some(1), 350, &config), None);
    assert_eq!(st.current_span, Some(1));
    let root = st.unfinished_spans.get(&1).unwrap();
    assert_eq!(root.child_nodes[0].execution_duration, 250);
    assert_eq!(root.child_nodes[0].name, "child");
}

#[test]
fn children_are_listed_in_exit_order() {
    let config = plain();
    let mut st = State::new();
    st.on_new_span(true, 1, &vec![]);
    st.on_enter(true, 1, 0, &config);
    st.on_new_span(true, 2, &vec![]);
    st.on_new_span(true, 3, &vec![]);
    st.on_enter(true, 2, 1, &config);
    st.on_enter(true, 3, 2, &config);
    st.on_exit(true, 3, "created second", Some(1), 5, &config);
    st.on_exit(true, 2, "created first", Some(1), 6, &config);
    let root = st.unfinished_spans.get(&1).unwrap();
    let names: Vec<&str> = root.child_nodes.iter().map(|n| n.name.as_str()).collect();
    assert_eq!(names, vec!["created second", "created first"]);
}

#[test]
fn worker_events_go_to_the_current_main_span() {
    let config = plain();
    let mut st = State::new();
    st.on_new_span(true, 1, &vec![]);
    st.on_enter(true, 1, 0, &config);
    st.on_new_span(true, 2, &vec![]);
    st.on_enter(true, 2, 1, &config);
    assert!(st.on_event(false, Some(1), Some(1), false, &counter_event("work", 6)));
    assert_eq!(st.unfinished_spans.get(&2).unwrap().events.get("work"), Some(CounterValue::Int(6)));
    assert!(st.unfinished_spans.get(&1).unwrap().events.is_empty());
    assert!(st.on_event(true, Some(1), Some(2), false, &plain_event("main")));
    assert_eq!(st.unfinished_spans.get(&1).unwrap().events.get("main"), Some(CounterValue::Int(1)));
    assert!(st.on_event(true, None, Some(2), true, &plain_event("ignored")));
    assert!(st.unfinished_spans.get(&2).unwrap().events.get("ignored").is_none());
}

#[test]
fn worker_spans_are_not_tracked() {
    let config = plain();
    let mut st = State::new();
    st.on_new_span(false, 1, &vec![]);
    assert_eq!(st.on_enter(false, 1, 0, &config), None);
    assert!(st.unfinished_spans.is_empty());
    assert_eq!(st.current_span, None);
}

#[test]
fn events_of_no_span_are_shown_before_the_next_root() {
    let config = plain();
    let mut st = State::new();
    assert!(st.on_event(true, None, None, false, &plain_event("before")));
    assert!(st.on_event(true, None, None, false, &plain_event("before")));
    assert!(st.on_event(true, None, None, false, &plain_event("another")));
    st.on_new_span(true, 1, &vec![]);
    assert_eq!(st.on_enter(true, 1, 0, &config), Some("> another: 1\n> before: 2\n\n".to_string()));
    assert_eq!(st.on_enter(true, 1, 0, &config), None);
}

#[test]
fn deferred_output_comes_at_finish() {
    let config = Config { defer_printing: true, ..plain() };
    let mut st = State::new();
    st.on_event(true, None, None, false, &plain_event("early"));
    st.on_new_span(true, 1, &vec![]);
    assert_eq!(st.on_enter(true, 1, 0, &config), None);
    assert_eq!(st.on_exit(true, 1, "root", None, 10, &config), None);
    st.on_event(true, None, None, false, &plain_event("late"));
    assert_eq!(
        st.finish(),
        "> early: 1\n\nroot [ 10.00ns | 100.00% ]\n\n> late: 1\n\n"
    );
    assert_eq!(st.finish(), "");
}

#[test]
fn end_to_end_tree() {
    let config = plain();
    let mut st = State::new();
    st.on_new_span(true, 1, &vec![]);
    st.on_enter(true, 1, 0, &config);
    st.on_new_span(true, 2, &vec![]);
    st.on_enter(true, 2, 0, &config);
    st.on_event(true, None, Some(2), false, &counter_event("proof_size", 3));
    st.on_exit(true, 2, "child one", Some(1), 20 * MS, &config);
    st.on_new_span(true, 3, &vec![]);
    st.on_enter(true, 3, 20 * MS, &config);
    st.on_new_span(true, 4, &vec![]);
    st.on_enter(true, 4, 25 * MS, &config);
    st.on_exit(true, 4, "grandchild", Some(3), 30 * MS, &config);
    st.on_exit(true, 3, "child two", Some(1), 40 * MS, &config);
    let text = st.on_exit(true, 1, "root", None, 40 * MS, &config).unwrap();
    assert_eq!(
        text,
        "root [ 40.00ms | 100.00% ]\n├>proof_size: 3\n\
         ├── child one [ 20.00ms | 50.00% ]\n│  ├>proof_size: 3\n\
         └── child two [ 20.00ms | 50.00% ]\n   └── grandchild [ 5.00ms | 12.50% ]\n\n"
    );
    assert_eq!(st.current_span, None);
    assert!(st.unfinished_spans.is_empty());
}

#[test]
fn merging_is_associative_and_commutative() {
    let make = |name: &str, d: u64, e: &str| {
        let mut n = node(name, d);
        n.events.increment_events_counter(e);
        n
    };
    let left = make("a", 1, "x").aggregate(&make("b", 2, "y")).aggregate(&make("c", 4, "x"));
    let right = make("a", 1, "x").aggregate(&make("b", 2, "y").aggregate(&make("c", 4, "x")));
    assert_eq!(left.execution_duration, right.execution_duration);
    assert_eq!(left.call_count, right.call_count);
    assert_eq!(left.events.format(), right.events.format());
    assert_eq!(left.events.format(), vec!["x: 2", "y: 1"]);
    let ab = make("a", 1, "x").aggregate(&make("b", 2, "y"));
    let ba = make("b", 2, "y").aggregate(&make("a", 1, "x"));
    assert_eq!(ab.execution_duration, ba.execution_duration);
    assert_eq!(ab.call_count, ba.call_count);
    assert_eq!(ab.events.format(), ba.events.format());
    assert_eq!(ab.name, "a");
    assert_eq!(ba.name, "b");
}
