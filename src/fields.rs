//! Event fields: their text form, the counter marker, and how an event is
//! recorded into counters.
use vstd::prelude::*;
use vstd::string::*;

use crate::counters::{incremented, sampled, CounterValue, EventCounts};
use crate::text::{copy_str, joined};

verus! {

/// The typed value of one event field, as far as counters read it.
#[derive(Debug)]
pub enum FieldValue {
    /// A number (a sample of a counter when the field is `value`).
    Number(u64),
    /// A boolean (the counter marker when the field is `counter`).
    Flag(bool),
    /// A string.
    Text,
    /// Anything else.
    Other,
}

/// One field of an event: its name, its value as text, and its typed value.
#[derive(Debug)]
pub struct EventField {
    /// The field's name.
    pub name: String,
    /// The value as text (`Display`, or `Debug` where that is all there is).
    pub text: String,
    /// The typed value.
    pub value: FieldValue,
}

/// An event as the engine sees it.
#[derive(Debug)]
pub struct EventRecord {
    /// The event's name.
    pub name: String,
    /// Its fields, in order.
    pub fields: Vec<EventField>,
}

/// `name: text` for one field.
pub open spec fn field_text(f: EventField) -> Seq<char> {
    f.name@ + ": "@ + f.text@
}

/// The fields written one after another, `sep` between each two.
pub open spec fn fields_text(fs: Seq<EventField>, sep: Seq<char>) -> Seq<char> {
    joined(fs.map_values(|f: EventField| field_text(f)), sep)
}

/// The signature of an event with fields: `name { f1: v1, f2: v2 }`.
pub open spec fn signature(name: Seq<char>, fs: Seq<EventField>) -> Seq<char> {
    name + " { "@ + fields_text(fs, ", "@) + " }"@
}

/// Writes `name: value` fields one after another, with a separator between them.
pub struct WritingFieldVisitor {
    /// Whether no field was written yet.
    pub is_first: bool,
    /// What goes between two fields.
    pub separator: String,
    /// The text so far.
    pub written: String,
}

impl WritingFieldVisitor {
    /// A writer that separates fields with `, `.
    pub fn new() -> (r: Self)
        ensures
            r.is_first,
            r.separator@ == ", "@,
            r.written@.len() == 0,
    {
        Self::new_with_separator(", ")
    }

    /// A writer that separates fields with `separator`.
    pub fn new_with_separator(separator: &str) -> (r: Self)
        ensures
            r.is_first,
            r.separator@ == separator@,
            r.written@.len() == 0,
    {
        WritingFieldVisitor { is_first: true, separator: copy_str(separator), written: String::new() }
    }

    /// Writes the separator, except before the first field.
    pub fn write_separator(&mut self)
        ensures
            !final(self).is_first,
            final(self).separator == old(self).separator,
            final(self).written@ == if old(self).is_first {
                old(self).written@
            } else {
                old(self).written@ + old(self).separator@
            },
    {
        if self.is_first {
            self.is_first = false;
        } else {
            self.written.append(self.separator.as_str());
        }
    }

    /// Writes one field as `name: text`.
    pub fn record(&mut self, field: &EventField)
        ensures
            !final(self).is_first,
            final(self).separator == old(self).separator,
            final(self).written@ == (if old(self).is_first {
                old(self).written@
            } else {
                old(self).written@ + old(self).separator@
            }) + field_text(*field),
    {
        self.write_separator();
        self.written.append(field.name.as_str());
        self.written.append(": ");
        self.written.append(field.text.as_str());
    }
}

/// Text of the fields, as a fresh writer with separator `sep` writes them.
fn write_fields(fields: &Vec<EventField>, sep: &str) -> (r: String)
    ensures
        r@ == fields_text(fields@, sep@),
{
    let mut w = WritingFieldVisitor::new_with_separator(sep);
    let mut i: usize = 0;
    while i < fields.len()
        invariant
            i <= fields@.len(),
            w.separator@ == sep@,
            w.is_first == (i == 0),
            w.written@ == fields_text(fields@.take(i as int), sep@),
        decreases fields@.len() - i,
    {
        proof {
            let all = fields@.map_values(|f: EventField| field_text(f));
            assert(fields@.take(i + 1).map_values(|f: EventField| field_text(f)) =~= all.take(
                i + 1,
            ));
            assert(fields@.take(i as int).map_values(|f: EventField| field_text(f)) =~= all.take(
                i as int,
            ));
            assert(all.take(i + 1).drop_last() =~= all.take(i as int));
        }
        w.record(&fields[i]);
        i = i + 1;
    }
    proof {
        assert(fields@.take(fields@.len() as int) =~= fields@);
    }
    w.written
}

/// The signature of an event with fields.
pub fn event_signature(event: &EventRecord) -> (r: String)
    ensures
        r@ == signature(event.name@, event.fields@),
{
    let mut s = event.name.clone();
    s.append(" { ");
    let body = write_fields(&event.fields, ", ");
    s.append(body.as_str());
    s.append(" }");
    s
}

/// The sample carried by the last numeric `value` field, if any.
pub open spec fn sample_of(fs: Seq<EventField>) -> Option<CounterValue>
    decreases fs.len(),
{
    if fs.len() == 0 {
        None
    } else if fs.last().name@ == "value"@ && fs.last().value is Number {
        Some(CounterValue::Int(fs.last().value->Number_0))
    } else {
        sample_of(fs.drop_last())
    }
}

/// The last boolean given to the field `name`, or `false`.
pub open spec fn flag_of(fs: Seq<EventField>, name: Seq<char>) -> bool
    decreases fs.len(),
{
    if fs.len() == 0 {
        false
    } else if fs.last().name@ == name && fs.last().value is Flag {
        fs.last().value->Flag_0
    } else {
        flag_of(fs.drop_last(), name)
    }
}

/// Reads the counter description out of an event's fields.
pub struct CounterVisitor {
    /// The sample, from the field `value`.
    pub value: Option<CounterValue>,
    /// The marker field `counter`.
    pub is_counter: bool,
    /// The field `incremental`.
    pub is_incremental: bool,
    /// The unit, from the string field `unit`.
    pub unit: Option<String>,
    /// The category, from the string field `perfetto_category`.
    pub category: Option<String>,
}

impl CounterVisitor {
    /// Nothing read yet.
    pub fn new() -> (r: Self)
        ensures
            r.value is None && !r.is_counter && !r.is_incremental,
            r.unit is None && r.category is None,
    {
        CounterVisitor { value: None, is_counter: false, is_incremental: false, unit: None, category: None }
    }

    /// Takes one field into account; a later field overrides an earlier one.
    pub fn visit(&mut self, field: &EventField)
        ensures
            final(self).value == (if field.name@ == "value"@ && field.value is Number {
                Some(CounterValue::Int(field.value->Number_0))
            } else {
                old(self).value
            }),
            final(self).is_counter == (if field.name@ == "counter"@ && field.value is Flag {
                field.value->Flag_0
            } else {
                old(self).is_counter
            }),
            final(self).is_incremental == (if field.name@ == "incremental"@ && field.value is Flag {
                field.value->Flag_0
            } else {
                old(self).is_incremental
            }),
            field.name@ == "unit"@ && field.value is Text ==> (final(self).unit matches Some(u)
                && u@ == field.text@),
            !(field.name@ == "unit"@ && field.value is Text) ==> final(self).unit == old(self).unit,
            field.name@ == "perfetto_category"@ && field.value is Text ==> (final(self).category matches Some(c)
                && c@ == field.text@),
            !(field.name@ == "perfetto_category"@ && field.value is Text) ==> final(self).category
                == old(self).category,
    {
        let name = field.name.as_str();
        match &field.value {
            FieldValue::Number(n) => {
                if text_is(name, "value") {
                    self.value = Some(CounterValue::Int(*n));
                }
            },
            FieldValue::Flag(b) => {
                if text_is(name, "counter") {
                    self.is_counter = *b;
                } else if text_is(name, "incremental") {
                    self.is_incremental = *b;
                }
                proof {
                    assert("counter"@ != "incremental"@) by {
                        reveal_strlit("counter");
                        reveal_strlit("incremental");
                        assert("counter"@.len() != "incremental"@.len());
                    }
                }
            },
            FieldValue::Text => {
                if text_is(name, "unit") {
                    self.unit = Some(field.text.clone());
                } else if text_is(name, "perfetto_category") {
                    self.category = Some(field.text.clone());
                }
                proof {
                    assert("unit"@ != "perfetto_category"@) by {
                        reveal_strlit("unit");
                        reveal_strlit("perfetto_category");
                        assert("unit"@.len() != "perfetto_category"@.len());
                    }
                }
            },
            FieldValue::Other => {},
        }
    }

    /// Reads every field of an event, in order.
    pub fn of_fields(fields: &Vec<EventField>) -> (r: Self)
        ensures
            r.value == sample_of(fields@),
            r.is_counter == flag_of(fields@, "counter"@),
            r.is_incremental == flag_of(fields@, "incremental"@),
    {
        let mut v = Self::new();
        let mut i: usize = 0;
        while i < fields.len()
            invariant
                i <= fields@.len(),
                v.value == sample_of(fields@.take(i as int)),
                v.is_counter == flag_of(fields@.take(i as int), "counter"@),
                v.is_incremental == flag_of(fields@.take(i as int), "incremental"@),
            decreases fields@.len() - i,
        {
            proof {
                assert(fields@.take(i + 1).drop_last() =~= fields@.take(i as int));
            }
            v.visit(&fields[i]);
            i = i + 1;
        }
        proof {
            assert(fields@.take(fields@.len() as int) =~= fields@);
        }
        v
    }
}

fn text_is(a: &str, b: &str) -> (r: bool)
    ensures
        r == (a@ == b@),
{
    copy_str(a) == copy_str(b)
}

/// Whether an event with fields is a counter event without a sample, which is
/// not recorded.
pub open spec fn is_malformed(e: EventRecord) -> bool {
    e.fields@.len() > 0 && flag_of(e.fields@, "counter"@) && sample_of(e.fields@) is None
}

/// The counters after recording an event: an event without fields counts under
/// its name; a counter event adds its sample under its name; any other event
/// counts under its signature.
pub open spec fn recorded(m: Map<Seq<char>, CounterValue>, e: EventRecord) -> Map<Seq<char>, CounterValue> {
    if e.fields@.len() == 0 {
        incremented(m, e.name@)
    } else if flag_of(e.fields@, "counter"@) {
        match sample_of(e.fields@) {
            Some(v) => sampled(m, e.name@, v),
            None => m,
        }
    } else {
        incremented(m, signature(e.name@, e.fields@))
    }
}

impl EventCounts {
    /// Records one event; returns `false` for a counter event without a sample,
    /// which leaves the counters as they were.
    pub fn record(&mut self, event: &EventRecord) -> (accepted: bool)
        ensures
            final(self)@ == recorded(old(self)@, *event),
            accepted == !is_malformed(*event),
    {
        if event.fields.len() == 0 {
            self.increment_events_counter(event.name.as_str());
            return true;
        }
        let data = CounterVisitor::of_fields(&event.fields);
        if data.is_counter {
            match data.value {
                Some(v) => {
                    self.record_counter(event.name.as_str(), v);
                    true
                },
                None => false,
            }
        } else {
            let key = event_signature(event);
            self.increment_events_counter(key.as_str());
            true
        }
    }
}

} // verus!
