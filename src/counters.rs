//! Per-signature event counters and their merge.
use vstd::prelude::*;
use vstd::string::*;

use linear_map::LinearMap;

use crate::linear::{counter_entries, counters_clear, counters_get, counters_insert, counters_list, counters_new};
use crate::text::{copy_str, decimal, u64_text};

verus! {

/// Accumulated value of a counter.
#[derive(Clone, Copy, Debug, PartialEq, Eq, Structural)]
pub enum CounterValue {
    /// An integral count or sum; it saturates at `u64::MAX`.
    Int(u64),
}

/// `a + b`, held at `u64::MAX`.
pub open spec fn saturating(a: u64, b: u64) -> u64 {
    if a + b > u64::MAX {
        u64::MAX
    } else {
        (a + b) as u64
    }
}

impl CounterValue {
    /// The integral value.
    pub open spec fn amount(self) -> u64 {
        match self {
            CounterValue::Int(v) => v,
        }
    }

    /// The sum of two values.
    pub open spec fn spec_plus(self, rhs: CounterValue) -> CounterValue {
        CounterValue::Int(saturating(self.amount(), rhs.amount()))
    }

    /// Integer zero.
    pub fn zero() -> (r: CounterValue)
        ensures
            r == CounterValue::Int(0),
    {
        CounterValue::Int(0)
    }

    /// The sum of two values: integer plus integer stays an integer.
    pub fn plus(self, rhs: CounterValue) -> (r: CounterValue)
        ensures
            r == self.spec_plus(rhs),
    {
        match (self, rhs) {
            (CounterValue::Int(a), CounterValue::Int(b)) => CounterValue::Int(a.saturating_add(b)),
        }
    }

    /// The value increased by `n`.
    pub fn plus_count(self, n: u64) -> (r: CounterValue)
        ensures
            r == self.spec_plus(CounterValue::Int(n)),
    {
        self.plus(CounterValue::Int(n))
    }

    /// The value in decimal.
    pub fn text(&self) -> (r: String)
        ensures
            r@ == decimal(self.amount() as nat),
    {
        match self {
            CounterValue::Int(v) => u64_text(*v),
        }
    }
}

/// The map without counters.
pub open spec fn no_counts() -> Map<Seq<char>, CounterValue> {
    Map::empty()
}

/// Key-wise sum of two counter maps; a key on one side only keeps its value.
pub open spec fn merged(a: Map<Seq<char>, CounterValue>, b: Map<Seq<char>, CounterValue>) -> Map<
    Seq<char>,
    CounterValue,
> {
    Map::new(
        |k: Seq<char>| a.contains_key(k) || b.contains_key(k),
        |k: Seq<char>|
            if a.contains_key(k) && b.contains_key(k) {
                a[k].spec_plus(b[k])
            } else if a.contains_key(k) {
                a[k]
            } else {
                b[k]
            },
    )
}

/// `m` with one more occurrence of `k`.
pub open spec fn incremented(m: Map<Seq<char>, CounterValue>, k: Seq<char>) -> Map<Seq<char>, CounterValue> {
    if m.contains_key(k) {
        m.insert(k, m[k].spec_plus(CounterValue::Int(1)))
    } else {
        m.insert(k, CounterValue::Int(1))
    }
}

/// `m` with the sample `v` added under `k`.
pub open spec fn sampled(m: Map<Seq<char>, CounterValue>, k: Seq<char>, v: CounterValue) -> Map<
    Seq<char>,
    CounterValue,
> {
    if m.contains_key(k) {
        m.insert(k, m[k].spec_plus(v))
    } else {
        m.insert(k, v)
    }
}

/// Strict lexicographic order of character sequences, by code point.
pub open spec fn lex_lt(a: Seq<char>, b: Seq<char>) -> bool
    decreases a.len(),
{
    if a.len() == 0 {
        b.len() > 0
    } else if b.len() == 0 {
        false
    } else if (a[0] as int) < (b[0] as int) {
        true
    } else if a[0] == b[0] {
        lex_lt(a.drop_first(), b.drop_first())
    } else {
        false
    }
}

proof fn lemma_lex_total(a: Seq<char>, b: Seq<char>)
    requires
        a != b,
    ensures
        lex_lt(a, b) || lex_lt(b, a),
    decreases a.len(),
{
    if a.len() > 0 && b.len() > 0 && a[0] == b[0] {
        if a.drop_first() == b.drop_first() {
            assert(a =~= seq![a[0]] + a.drop_first());
            assert(b =~= seq![b[0]] + b.drop_first());
        }
        lemma_lex_total(a.drop_first(), b.drop_first());
    } else if a.len() > 0 && b.len() > 0 {
        assert((a[0] as int) != (b[0] as int));
    } else if a.len() == 0 && b.len() == 0 {
        assert(a =~= b);
    }
}

/// Relies on the `Ord` of `str`: lexicographic by bytes, which for UTF-8 is
/// lexicographic by code point.
#[verifier::external_body]
fn str_lt(a: &str, b: &str) -> (r: bool)
    ensures
        r == lex_lt(a@, b@),
{
    a < b
}

/// The map that a sequence of pairs with distinct keys describes.
pub open spec fn pairs_map(s: Seq<(Seq<char>, CounterValue)>) -> Map<Seq<char>, CounterValue> {
    Map::new(
        |k: Seq<char>| exists|i: int| 0 <= i < s.len() && s[i].0 == k,
        |k: Seq<char>| s[choose|i: int| 0 <= i < s.len() && s[i].0 == k].1,
    )
}

/// Whether each key is smaller than the next one.
pub open spec fn keys_ascending(s: Seq<(Seq<char>, CounterValue)>) -> bool {
    forall|i: int| 0 <= i < s.len() - 1 ==> lex_lt(#[trigger] s[i].0, s[i + 1].0)
}

/// Whether no key occurs twice.
pub open spec fn keys_distinct(s: Seq<(Seq<char>, CounterValue)>) -> bool {
    forall|i: int, j: int| 0 <= i < j < s.len() ==> #[trigger] s[i].0 != #[trigger] s[j].0
}

/// One line of the summary: `signature: value`.
pub open spec fn count_line(p: (Seq<char>, CounterValue)) -> Seq<char> {
    p.0 + ": "@ + decimal(p.1.amount() as nat)
}

/// Whether `lines` hold one `signature: value` line per counter of `m`,
/// ordered by signature.
pub open spec fn formatted(lines: Seq<Seq<char>>, m: Map<Seq<char>, CounterValue>) -> bool {
    exists|ps: Seq<(Seq<char>, CounterValue)>|
        {
            &&& keys_ascending(ps)
            &&& keys_distinct(ps)
            &&& pairs_map(ps) == m
            &&& lines == ps.map_values(|p: (Seq<char>, CounterValue)| count_line(p))
        }
}

/// The views of counter pairs.
pub open spec fn pair_views(s: Seq<(String, CounterValue)>) -> Seq<(Seq<char>, CounterValue)> {
    s.map_values(|e: (String, CounterValue)| (e.0@, e.1))
}

proof fn lemma_pairs_map_insert(s: Seq<(Seq<char>, CounterValue)>, pos: int, e: (Seq<char>, CounterValue))
    requires
        0 <= pos <= s.len(),
        keys_distinct(s),
        forall|i: int| 0 <= i < s.len() ==> #[trigger] s[i].0 != e.0,
    ensures
        keys_distinct(s.insert(pos, e)),
        pairs_map(s.insert(pos, e)) == pairs_map(s).insert(e.0, e.1),
{
    let t = s.insert(pos, e);
    assert forall|i: int, j: int| 0 <= i < j < t.len() implies #[trigger] t[i].0 != #[trigger] t[j].0 by {
        if i < pos && j < pos {
        } else if i < pos && j == pos {
        } else if i < pos {
            assert(t[j] == s[j - 1]);
        } else if i == pos {
            assert(t[j] == s[j - 1]);
        } else {
            assert(t[i] == s[i - 1]);
            assert(t[j] == s[j - 1]);
        }
    }
    let a = pairs_map(t);
    let b = pairs_map(s).insert(e.0, e.1);
    assert forall|k: Seq<char>| a.contains_key(k) <==> b.contains_key(k) by {
        if a.contains_key(k) {
            let i = choose|i: int| 0 <= i < t.len() && t[i].0 == k;
            if i < pos {
                assert(s[i].0 == k);
            } else if i > pos {
                assert(s[i - 1].0 == k);
            }
        }
        if b.contains_key(k) && k != e.0 {
            let i = choose|i: int| 0 <= i < s.len() && s[i].0 == k;
            if i < pos {
                assert(t[i].0 == k);
            } else {
                assert(t[i + 1].0 == k);
            }
        }
        if k == e.0 {
            assert(t[pos].0 == k);
        }
    }
    assert forall|k: Seq<char>| a.contains_key(k) implies a[k] == b[k] by {
        let i = choose|i: int| 0 <= i < t.len() && t[i].0 == k;
        if k == e.0 {
            assert(t[pos].0 == k);
            assert(i == pos);
        } else {
            let j = choose|j: int| 0 <= j < s.len() && s[j].0 == k;
            if i < pos {
                assert(s[i].0 == k);
                assert(i == j);
            } else {
                assert(i != pos);
                assert(s[i - 1].0 == k);
                assert(i - 1 == j);
            }
        }
    }
    assert(a =~= b);
}

proof fn lemma_pairs_map_of(s: Seq<(Seq<char>, CounterValue)>, m: Map<Seq<char>, CounterValue>)
    requires
        keys_distinct(s),
        forall|i: int| 0 <= i < s.len() ==> m.contains_key(#[trigger] s[i].0) && m[s[i].0] == s[i].1,
        forall|k: Seq<char>| #[trigger] m.contains_key(k) ==> exists|i: int| 0 <= i < s.len() && s[i].0 == k,
    ensures
        pairs_map(s) == m,
{
    let a = pairs_map(s);
    assert forall|k: Seq<char>| a.contains_key(k) implies a[k] == m[k] by {
        let i = choose|i: int| 0 <= i < s.len() && s[i].0 == k;
        assert(m.contains_key(s[i].0));
    }
    assert(a =~= m);
}

/// How many times each event signature was met, or the sum of its counter samples.
#[derive(Debug)]
pub struct EventCounts {
    counters: LinearMap<String, CounterValue>,
}

impl View for EventCounts {
    type V = Map<Seq<char>, CounterValue>;

    closed spec fn view(&self) -> Map<Seq<char>, CounterValue> {
        counter_entries(self.counters)
    }
}

impl EventCounts {
    /// No events.
    pub fn new() -> (r: EventCounts)
        ensures
            r@ == no_counts(),
    {
        EventCounts { counters: counters_new() }
    }

    /// One more occurrence of the signature `name`.
    pub fn increment_events_counter(&mut self, name: &str)
        ensures
            final(self)@ == incremented(old(self)@, name@),
    {
        match counters_get(&self.counters, name) {
            Some(v) => counters_insert(&mut self.counters, copy_str(name), v.plus_count(1)),
            None => counters_insert(&mut self.counters, copy_str(name), CounterValue::Int(1)),
        }
    }

    /// Adds a counter sample under `name`.
    pub fn record_counter(&mut self, name: &str, value: CounterValue)
        ensures
            final(self)@ == sampled(old(self)@, name@, value),
    {
        match counters_get(&self.counters, name) {
            Some(v) => counters_insert(&mut self.counters, copy_str(name), v.plus(value)),
            None => counters_insert(&mut self.counters, copy_str(name), value),
        }
    }

    /// The value recorded under `key`.
    pub fn get(&self, key: &str) -> (r: Option<CounterValue>)
        ensures
            r == (if self@.contains_key(key@) {
                Some(self@[key@])
            } else {
                None
            }),
    {
        counters_get(&self.counters, key)
    }

    /// Whether nothing was recorded.
    pub fn is_empty(&self) -> (r: bool)
        ensures
            r == (self@ == no_counts()),
    {
        let entries = counters_list(&self.counters);
        if entries.len() == 0 {
            proof {
                assert(self@ =~= Map::empty());
            }
            true
        } else {
            proof {
                assert(self@.contains_key(entries@[0].0@));
            }
            false
        }
    }

    /// Forgets everything recorded.
    pub fn clear(&mut self)
        ensures
            final(self)@ == no_counts(),
    {
        counters_clear(&mut self.counters);
    }

    /// Adds every counter of `rhs` to this one, key by key.
    pub fn add_assign(&mut self, rhs: &EventCounts)
        ensures
            final(self)@ == merged(old(self)@, rhs@),
    {
        let entries = counters_list(&rhs.counters);
        let ghost ps = pair_views(entries@);
        proof {
            assert forall|i: int, j: int| 0 <= i < j < ps.len() implies #[trigger] ps[i].0
                != #[trigger] ps[j].0 by {
                assert(entries@[i].0@ != entries@[j].0@);
            }
            assert forall|i: int| 0 <= i < ps.len() implies rhs@.contains_key(#[trigger] ps[i].0)
                && rhs@[ps[i].0] == ps[i].1 by {
                assert(rhs@.contains_key(entries@[i].0@));
            }
            assert forall|k: Seq<char>| #[trigger] rhs@.contains_key(k) implies exists|i: int|
                0 <= i < ps.len() && ps[i].0 == k by {
                let i = choose|i: int| 0 <= i < entries@.len() && entries@[i].0@ == k;
                assert(ps[i].0 == k);
            }
            lemma_pairs_map_of(ps, rhs@);
        }
        let mut i: usize = 0;
        while i < entries.len()
            invariant
                i <= entries@.len(),
                ps == pair_views(entries@),
                keys_distinct(ps),
                pairs_map(ps) == rhs@,
                self@ == merged(old(self)@, pairs_map(ps.take(i as int))),
            decreases entries@.len() - i,
        {
            let key = &entries[i].0;
            let value = entries[i].1;
            proof {
                let pre = ps.take(i as int);
                assert(ps.take(i + 1) =~= pre.insert(i as int, ps[i as int]));
                assert forall|j: int| 0 <= j < pre.len() implies #[trigger] pre[j].0 != ps[i as int].0 by {
                    assert(pre[j] == ps[j]);
                }
                assert forall|a: int, b: int| 0 <= a < b < pre.len() implies #[trigger] pre[a].0
                    != #[trigger] pre[b].0 by {
                    assert(pre[a] == ps[a] && pre[b] == ps[b]);
                }
                lemma_pairs_map_insert(pre, i as int, ps[i as int]);
            }
            let ghost before = self@;
            self.record_counter(key.as_str(), value);
            proof {
                let pre = pairs_map(ps.take(i as int));
                let k = key@;
                assert(!pre.contains_key(k)) by {
                    if pre.contains_key(k) {
                        let j = choose|j: int| 0 <= j < i && ps.take(i as int)[j].0 == k;
                        assert(ps[j].0 == ps[i as int].0);
                    }
                }
                assert(self@ =~= merged(old(self)@, pairs_map(ps.take(i + 1))));
            }
            i = i + 1;
        }
        proof {
            assert(ps.take(entries@.len() as int) =~= ps);
        }
    }

    /// One line `signature: value` per counter, ordered by signature.
    pub fn format(&self) -> (r: Vec<String>)
        ensures
            formatted(r@.map_values(|s: String| s@), self@),
    {
        let entries = counters_list(&self.counters);
        let ghost es = pair_views(entries@);
        proof {
            assert forall|a: int, b: int| 0 <= a < b < es.len() implies #[trigger] es[a].0
                != #[trigger] es[b].0 by {
                assert(entries@[a].0@ != entries@[b].0@);
            }
            assert forall|j: int| 0 <= j < es.len() implies self@.contains_key(#[trigger] es[j].0)
                && self@[es[j].0] == es[j].1 by {
                assert(self@.contains_key(entries@[j].0@));
            }
            assert forall|k: Seq<char>| #[trigger] self@.contains_key(k) implies exists|j: int|
                0 <= j < es.len() && es[j].0 == k by {
                let j = choose|j: int| 0 <= j < entries@.len() && entries@[j].0@ == k;
                assert(es[j].0 == k);
            }
            lemma_pairs_map_of(es, self@);
        }
        let sorted = sort_by_key(&entries);
        let lines = count_lines(&sorted);
        proof {
            let ps = pair_views(sorted@);
            assert(pairs_map(ps) == self@);
            assert(keys_ascending(ps) && keys_distinct(ps));
        }
        lines
    }
}

/// The pairs of `entries`, ordered by key.
fn sort_by_key(entries: &Vec<(String, CounterValue)>) -> (r: Vec<(String, CounterValue)>)
    requires
        keys_distinct(pair_views(entries@)),
    ensures
        keys_ascending(pair_views(r@)),
        keys_distinct(pair_views(r@)),
        pairs_map(pair_views(r@)) == pairs_map(pair_views(entries@)),
{
    let ghost es = pair_views(entries@);
    let mut sorted: Vec<(String, CounterValue)> = Vec::new();
    let mut i: usize = 0;
    while i < entries.len()
        invariant
            i <= entries@.len(),
            es == pair_views(entries@),
            keys_distinct(es),
            keys_ascending(pair_views(sorted@)),
            keys_distinct(pair_views(sorted@)),
            pairs_map(pair_views(sorted@)) == pairs_map(es.take(i as int)),
        decreases entries@.len() - i,
    {
        let key = &entries[i].0;
        let ghost ss = pair_views(sorted@);
        let mut pos: usize = 0;
        while pos < sorted.len() && !str_lt(key.as_str(), sorted[pos].0.as_str())
            invariant
                pos <= sorted@.len(),
                ss == pair_views(sorted@),
                forall|j: int| 0 <= j < pos ==> !lex_lt(key@, #[trigger] ss[j].0),
            decreases sorted@.len() - pos,
        {
            pos = pos + 1;
        }
        let ghost e = es[i as int];
        proof {
            let pre = es.take(i as int);
            assert forall|j: int| 0 <= j < pre.len() implies #[trigger] pre[j].0 != e.0 by {
                assert(pre[j] == es[j]);
            }
            assert forall|a: int, b: int| 0 <= a < b < pre.len() implies #[trigger] pre[a].0
                != #[trigger] pre[b].0 by {
                assert(pre[a] == es[a] && pre[b] == es[b]);
            }
            assert forall|j: int| 0 <= j < ss.len() implies #[trigger] ss[j].0 != e.0 by {
                if ss[j].0 == e.0 {
                    assert(pairs_map(ss).contains_key(e.0));
                    let m = choose|m: int| 0 <= m < pre.len() && pre[m].0 == e.0;
                }
            }
            lemma_pairs_map_insert(ss, pos as int, e);
            assert(es.take(i + 1) =~= pre.insert(i as int, e));
            lemma_pairs_map_insert(pre, i as int, e);
            if pos > 0 {
                lemma_lex_total(ss[pos - 1].0, e.0);
            }
        }
        sorted.insert(pos, (entries[i].0.clone(), entries[i].1));
        proof {
            let t = pair_views(sorted@);
            assert(t =~= ss.insert(pos as int, e));
            assert forall|j: int| 0 <= j < t.len() - 1 implies lex_lt(#[trigger] t[j].0, t[j + 1].0) by {
                if j + 1 < pos {
                    assert(t[j] == ss[j] && t[j + 1] == ss[j + 1]);
                } else if j + 1 == pos {
                    assert(t[j] == ss[j]);
                } else if j == pos {
                    assert(t[j + 1] == ss[j]);
                } else {
                    assert(t[j] == ss[j - 1] && t[j + 1] == ss[j]);
                }
            }
        }
        i = i + 1;
    }
    proof {
        assert(es.take(entries@.len() as int) =~= es);
    }
    sorted
}

/// One `signature: value` line per pair, in order.
fn count_lines(pairs: &Vec<(String, CounterValue)>) -> (r: Vec<String>)
    ensures
        r@.map_values(|s: String| s@) == pair_views(pairs@).map_values(
            |p: (Seq<char>, CounterValue)| count_line(p),
        ),
{
    let ghost ps = pair_views(pairs@);
    let mut lines: Vec<String> = Vec::new();
    let mut k: usize = 0;
    while k < pairs.len()
        invariant
            k <= pairs@.len(),
            ps == pair_views(pairs@),
            lines@.map_values(|s: String| s@) == ps.take(k as int).map_values(
                |p: (Seq<char>, CounterValue)| count_line(p),
            ),
        decreases pairs@.len() - k,
    {
        let mut line = pairs[k].0.clone();
        line.append(": ");
        let value = pairs[k].1.text();
        line.append(value.as_str());
        let ghost prev = lines@;
        lines.push(line);
        proof {
            assert(lines@.map_values(|s: String| s@) =~= prev.map_values(|s: String| s@).push(
                line@,
            ));
            assert(ps.take(k + 1).map_values(|p: (Seq<char>, CounterValue)| count_line(p))
                =~= ps.take(k as int).map_values(|p: (Seq<char>, CounterValue)| count_line(p)).push(
                count_line(ps[k as int]),
            ));
        }
        k = k + 1;
    }
    proof {
        assert(ps.take(pairs@.len() as int) =~= ps);
    }
    lines
}

} // verus!
