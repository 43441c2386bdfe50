//! One row of the CSV export: a finished span with its timings and fields.
use vstd::prelude::*;
use vstd::string::*;

use linear_map::LinearMap;

use crate::linear::{metadata_entries, metadata_list};
use crate::text::{copy_str, decimal, join_strings, joined, u64_text, views};

verus! {

/// A finished span as the CSV export writes it.
#[derive(Debug)]
pub struct LogRow {
    /// The span's name.
    pub span_name: String,
    /// When the span was entered, in nanoseconds since the session began.
    pub start_ns: u64,
    /// Wall time in the span, in nanoseconds.
    pub elapsed_ns: u64,
    /// CPU time in the span, in nanoseconds, worker pools included.
    pub cpu_ns: u64,
    /// The span's fields as text, in the order first given.
    pub fields: LinearMap<String, String>,
}

/// `"key":"value"` for one field.
pub open spec fn field_item(e: (Seq<char>, Seq<char>)) -> Seq<char> {
    "\""@ + e.0 + "\":\""@ + e.1 + "\""@
}

/// The text of a row: name, start, elapsed and CPU time, then the fields as an
/// object whose items are separated by `; ` (so that no comma splits the column).
pub open spec fn row_text(r: LogRow) -> Seq<char> {
    r.span_name@ + ","@ + decimal(r.start_ns as nat) + ","@ + decimal(r.elapsed_ns as nat) + ","@
        + decimal(r.cpu_ns as nat) + ",{"@ + joined(
        metadata_entries(r.fields).map_values(|e: (Seq<char>, Seq<char>)| field_item(e)),
        "; "@,
    ) + "}"@
}

/// Start, elapsed and CPU time of a span: a missing start counts as the end;
/// a negative CPU difference counts as zero; time spent in worker pools is added.
pub open spec fn row_timing(start: Option<u64>, end: u64, cpu_diff: i64, pool_ns: u64) -> (u64, u64, u64) {
    let s = match start {
        Some(s) => s,
        None => end,
    };
    let elapsed = if end >= s {
        (end - s) as u64
    } else {
        0
    };
    let cpu = if cpu_diff > 0 {
        cpu_diff as u64
    } else {
        0
    };
    (s, elapsed, if cpu + pool_ns > u64::MAX {
        u64::MAX
    } else {
        (cpu + pool_ns) as u64
    })
}

/// The timing columns of a row.
pub fn timing(start: Option<u64>, end: u64, cpu_diff: i64, pool_ns: u64) -> (r: (u64, u64, u64))
    ensures
        r == row_timing(start, end, cpu_diff, pool_ns),
{
    let s = match start {
        Some(s) => s,
        None => end,
    };
    let elapsed = if end >= s {
        end - s
    } else {
        0
    };
    let cpu: u64 = if cpu_diff > 0 {
        cpu_diff as u64
    } else {
        0
    };
    (s, elapsed, cpu.saturating_add(pool_ns))
}

impl LogRow {
    /// The first line of the file.
    pub fn header() -> (r: String)
        ensures
            r@ == "span_name,start_ns,elapsed_ns,cpu_ns,metadata\n"@,
    {
        copy_str("span_name,start_ns,elapsed_ns,cpu_ns,metadata\n")
    }

    /// The row as text, without a line break.
    pub fn line(&self) -> (r: String)
        ensures
            r@ == row_text(*self),
    {
        let entries = metadata_list(&self.fields);
        let ghost es = entries@.map_values(|e: (String, String)| (e.0@, e.1@));
        let mut items: Vec<String> = Vec::new();
        let mut i: usize = 0;
        while i < entries.len()
            invariant
                i <= entries@.len(),
                es == entries@.map_values(|e: (String, String)| (e.0@, e.1@)),
                views(items@) == es.take(i as int).map_values(
                    |e: (Seq<char>, Seq<char>)| field_item(e),
                ),
            decreases entries@.len() - i,
        {
            let mut item = copy_str("\"");
            item.append(entries[i].0.as_str());
            item.append("\":\"");
            item.append(entries[i].1.as_str());
            item.append("\"");
            let ghost prev = items@;
            items.push(item);
            proof {
                assert(views(items@) =~= views(prev).push(item@));
                assert(es.take(i + 1).map_values(|e: (Seq<char>, Seq<char>)| field_item(e))
                    =~= es.take(i as int).map_values(|e: (Seq<char>, Seq<char>)| field_item(e)).push(
                    field_item(es[i as int]),
                ));
            }
            i = i + 1;
        }
        proof {
            assert(es.take(entries@.len() as int) =~= es);
        }
        let mut r = self.span_name.clone();
        r.append(",");
        let s = u64_text(self.start_ns);
        r.append(s.as_str());
        r.append(",");
        let e = u64_text(self.elapsed_ns);
        r.append(e.as_str());
        r.append(",");
        let c = u64_text(self.cpu_ns);
        r.append(c.as_str());
        r.append(",{");
        let body = join_strings(&items, "; ");
        r.append(body.as_str());
        r.append("}");
        r
    }
}

} // verus!
