//! A rendered call tree and its text, drawn with box characters.
use vstd::prelude::*;
use vstd::string::*;

use crate::text::{push_char, views};

verus! {

/// A rendered tree: one label, the event lines under it, and the children.
#[derive(Debug)]
pub struct LogTree {
    /// The node's line (several lines where it holds line breaks).
    pub label: String,
    /// The node's event lines.
    pub events: Vec<String>,
    /// The children, in display order.
    pub children: Vec<LogTree>,
}

/// The concatenation of `parts`.
pub open spec fn concat(parts: Seq<Seq<char>>) -> Seq<char>
    decreases parts.len(),
{
    if parts.len() == 0 {
        Seq::empty()
    } else {
        concat(parts.drop_last()) + parts.last()
    }
}

/// The pieces of `s` between line breaks (one more than there are breaks).
pub open spec fn split_lines(s: Seq<char>) -> Seq<Seq<char>>
    decreases s.len(),
{
    if s.len() == 0 {
        seq![Seq::empty()]
    } else {
        let prev = split_lines(s.drop_last());
        if s.last() == '\n' {
            prev.push(Seq::empty())
        } else {
            prev.update(prev.len() - 1, prev.last().push(s.last()))
        }
    }
}

/// The indentation drawn for the given ancestors: blank under a last child,
/// a vertical bar otherwise.
pub open spec fn indent(spaces: Seq<bool>) -> Seq<char>
    decreases spaces.len(),
{
    if spaces.len() == 0 {
        Seq::empty()
    } else {
        indent(spaces.drop_last()) + if spaces.last() {
            "   "@
        } else {
            "│  "@
        }
    }
}

/// The marker in front of line `j` of a child's label.
pub open spec fn label_marker(first: bool, last: bool) -> Seq<char> {
    if first && last {
        "└── "@
    } else if first {
        "├── "@
    } else if last {
        "    "@
    } else {
        "│   "@
    }
}

/// The lines of a child's label, each with the prefix and its marker.
pub open spec fn label_block(lines: Seq<Seq<char>>, prefix: Seq<char>, last: bool) -> Seq<char>
    decreases lines.len(),
{
    if lines.len() == 0 {
        Seq::empty()
    } else {
        label_block(lines.drop_last(), prefix, last) + prefix + label_marker(lines.len() == 1, last)
            + lines.last() + "\n"@
    }
}

/// The event lines of a child.
pub open spec fn event_block(events: Seq<Seq<char>>, prefix: Seq<char>, last: bool) -> Seq<char>
    decreases events.len(),
{
    if events.len() == 0 {
        Seq::empty()
    } else {
        event_block(events.drop_last(), prefix, last) + prefix + (if last {
            "   ├>"@
        } else {
            "│  ├>"@
        }) + events.last() + "\n"@
    }
}

/// The text of the first `k` children of `t`, under the given ancestors.
pub open spec fn children_upto(t: LogTree, spaces: Seq<bool>, k: int) -> Seq<char>
    decreases t, k,
{
    if k <= 0 || k > t.children@.len() {
        Seq::empty()
    } else {
        let c = t.children@[k - 1];
        let last = k == t.children@.len();
        children_upto(t, spaces, k - 1) + label_block(split_lines(c.label@), indent(spaces), last)
            + event_block(views(c.events@), indent(spaces), last) + children_upto(
            c,
            spaces.push(last),
            c.children@.len() as int,
        )
    }
}

/// The text of a whole tree.
pub open spec fn tree_text(t: LogTree) -> Seq<char> {
    t.label@ + "\n"@ + concat(views(t.events@).map_values(|e: Seq<char>| "├>"@ + e + "\n"@))
        + children_upto(t, Seq::empty(), t.children@.len() as int)
}

fn split_label(s: &str) -> (r: Vec<String>)
    ensures
        views(r@) == split_lines(s@),
{
    let n = s.unicode_len();
    let mut lines: Vec<String> = Vec::new();
    let mut current = String::new();
    let mut i: usize = 0;
    while i < n
        invariant
            n == s@.len(),
            i <= n,
            views(lines@).push(current@) == split_lines(s@.take(i as int)),
        decreases n - i,
    {
        let c = s.get_char(i);
        proof {
            assert(s@.take(i + 1).drop_last() =~= s@.take(i as int));
        }
        if c == '\n' {
            let ghost prev = lines@;
            lines.push(current);
            current = String::new();
            proof {
                assert(views(lines@) =~= views(prev).push(lines@.last()@));
                assert(views(lines@).push(current@) =~= split_lines(s@.take(i + 1)));
            }
        } else {
            let ghost before = current@;
            push_char(&mut current, c);
            proof {
                assert(views(lines@).push(current@) =~= views(lines@).push(before).update(
                    lines@.len() as int,
                    before.push(c),
                ));
            }
        }
        i = i + 1;
    }
    proof {
        assert(s@.take(n as int) =~= s@);
    }
    let ghost prev = lines@;
    lines.push(current);
    proof {
        assert(views(lines@) =~= views(prev).push(lines@.last()@));
    }
    lines
}

fn indent_text(spaces: &Vec<bool>) -> (r: String)
    ensures
        r@ == indent(spaces@),
{
    let mut r = String::new();
    let mut i: usize = 0;
    while i < spaces.len()
        invariant
            i <= spaces@.len(),
            r@ == indent(spaces@.take(i as int)),
        decreases spaces@.len() - i,
    {
        proof {
            assert(spaces@.take(i + 1).drop_last() =~= spaces@.take(i as int));
        }
        if spaces[i] {
            r.append("   ");
        } else {
            r.append("│  ");
        }
        i = i + 1;
    }
    proof {
        assert(spaces@.take(spaces@.len() as int) =~= spaces@);
    }
    r
}

fn write_label_block(lines: &Vec<String>, prefix: &String, last: bool, out: &mut String)
    ensures
        final(out)@ == old(out)@ + label_block(views(lines@), prefix@, last),
{
    let ghost start = out@;
    let mut j: usize = 0;
    while j < lines.len()
        invariant
            j <= lines@.len(),
            out@ == start + label_block(views(lines@).take(j as int), prefix@, last),
        decreases lines@.len() - j,
    {
        proof {
            assert(views(lines@).take(j + 1).drop_last() =~= views(lines@).take(j as int));
        }
        out.append(prefix.as_str());
        if j == 0 {
            if last {
                out.append("└── ");
            } else {
                out.append("├── ");
            }
        } else {
            if last {
                out.append("    ");
            } else {
                out.append("│   ");
            }
        }
        out.append(lines[j].as_str());
        out.append("\n");
        j = j + 1;
    }
    proof {
        assert(views(lines@).take(lines@.len() as int) =~= views(lines@));
    }
}

fn write_event_block(events: &Vec<String>, prefix: &String, last: bool, out: &mut String)
    ensures
        final(out)@ == old(out)@ + event_block(views(events@), prefix@, last),
{
    let ghost start = out@;
    let mut j: usize = 0;
    while j < events.len()
        invariant
            j <= events@.len(),
            out@ == start + event_block(views(events@).take(j as int), prefix@, last),
        decreases events@.len() - j,
    {
        proof {
            assert(views(events@).take(j + 1).drop_last() =~= views(events@).take(j as int));
        }
        out.append(prefix.as_str());
        if last {
            out.append("   ├>");
        } else {
            out.append("│  ├>");
        }
        out.append(events[j].as_str());
        out.append("\n");
        j = j + 1;
    }
    proof {
        assert(views(events@).take(events@.len() as int) =~= views(events@));
    }
}

impl LogTree {
    /// Writes the children, each under the drawing of its ancestors.
    fn display_children(&self, spaces: &mut Vec<bool>, out: &mut String)
        ensures
            final(spaces)@ == old(spaces)@,
            final(out)@ == old(out)@ + children_upto(*self, old(spaces)@, self.children@.len() as int),
        decreases self,
    {
        let ghost start = out@;
        let ghost sp = spaces@;
        let prefix = indent_text(spaces);
        let n = self.children.len();
        let mut i: usize = 0;
        while i < n
            invariant
                n == self.children@.len(),
                i <= n,
                spaces@ == sp,
                prefix@ == indent(sp),
                out@ == start + children_upto(*self, sp, i as int),
            decreases n - i,
        {
            let child = &self.children[i];
            let last = i + 1 == n;
            let ghost before = out@;
            let lines = split_label(child.label.as_str());
            write_label_block(&lines, &prefix, last, out);
            write_event_block(&child.events, &prefix, last, out);
            if child.children.len() > 0 {
                spaces.push(last);
                child.display_children(spaces, out);
                spaces.pop();
                proof {
                    assert(spaces@ =~= sp);
                }
            }
            proof {
                let c = self.children@[i as int];
                assert(c == *child);
                let block = label_block(split_lines(c.label@), indent(sp), last) + event_block(
                    views(c.events@),
                    indent(sp),
                    last,
                ) + children_upto(c, sp.push(last), c.children@.len() as int);
                assert(children_upto(*self, sp, i + 1) == children_upto(*self, sp, i as int) + block);
                assert(out@ =~= before + block);
                assert(out@ =~= start + children_upto(*self, sp, i + 1));
            }
            i = i + 1;
        }
    }

    /// The text of the tree: the label, the root's events, then the children.
    pub fn text(&self) -> (r: String)
        ensures
            r@ == tree_text(*self),
    {
        let mut out = self.label.clone();
        out.append("\n");
        let ghost start = out@;
        let ghost evs = views(self.events@).map_values(|e: Seq<char>| "├>"@ + e + "\n"@);
        let mut i: usize = 0;
        while i < self.events.len()
            invariant
                i <= self.events@.len(),
                evs == views(self.events@).map_values(|e: Seq<char>| "├>"@ + e + "\n"@),
                out@ == start + concat(evs.take(i as int)),
            decreases self.events@.len() - i,
        {
            proof {
                assert(evs.take(i + 1).drop_last() =~= evs.take(i as int));
            }
            out.append("├>");
            out.append(self.events[i].as_str());
            out.append("\n");
            i = i + 1;
        }
        proof {
            assert(evs.take(self.events@.len() as int) =~= evs);
        }
        let mut spaces: Vec<bool> = Vec::new();
        proof {
            assert(spaces@ =~= Seq::<bool>::empty());
        }
        self.display_children(&mut spaces, &mut out);
        out
    }
}

} // verus!
