//! What a conversion produces, stated as a function over the tree: the state
//! of the walk after each node, and the finished text.
use vstd::prelude::*;
use crate::config::Config;
use crate::metadata::{empty_meta, front_matter, meta_update, MetaView};
use crate::rules::{class_lang, marker, rule_of, Rule};
use crate::table::table_text;
use crate::text::{collapse_breaks, decimal, repeat, squeeze_ws, trim};
use crate::tree::{attr_lookup, Attribute, NodeData, Tree};

verus! {

/// The state of one conversion, as plain values.
pub struct State {
    /// The text written so far.
    pub out: Seq<char>,
    /// Spaces before the marker of an item of a list that opens here: 0 at
    /// the top level, one list step more inside each list item.
    pub indent: nat,
    pub in_table: bool,
    /// The finished rows of the table being read.
    pub rows: Seq<Seq<Seq<char>>>,
    /// The cells of the row being read.
    pub row: Seq<Seq<char>>,
    /// The text of the cell being read.
    pub cell: Seq<char>,
    pub meta: MetaView,
    /// Inside `pre` or `code`, where text keeps its whitespace.
    pub in_code: bool,
}

pub open spec fn initial_state() -> State {
    State {
        out: Seq::empty(),
        indent: 0,
        in_table: false,
        rows: Seq::empty(),
        row: Seq::empty(),
        cell: Seq::empty(),
        meta: empty_meta(),
        in_code: false,
    }
}

/// `s` ending in a line break: one is added unless `s` already ends in one.
pub open spec fn newline(s: Seq<char>) -> Seq<char> {
    if s.len() > 0 && s.last() == '\n' {
        s
    } else {
        s.push('\n')
    }
}

/// `s` ending in a blank line: line breaks are added until `s` ends in two.
pub open spec fn blank_line(s: Seq<char>) -> Seq<char> {
    let t = newline(s);
    if t.len() >= 2 && t[t.len() - 2] == '\n' {
        t
    } else {
        t.push('\n')
    }
}

/// Whether the cleaning rules remove a node, with everything below it.
pub open spec fn skipped(c: Config, d: NodeData) -> bool {
    let r = c.cleaning_rules;
    r.any_removal() && match d {
        NodeData::Element { tag, .. } => (r.remove_scripts && tag@ == "script"@) || (
        r.remove_styles && tag@ == "style"@),
        NodeData::Comment { .. } => r.remove_comments,
        NodeData::ProcessingInstruction => true,
        _ => false,
    }
}

/// The text of a text node as written: with whitespace cleaning on and
/// outside code, trimmed and with each whitespace run made one space.
pub open spec fn cleaned(c: Config, in_code: bool, t: Seq<char>) -> Seq<char> {
    if c.clean_whitespace && !in_code {
        squeeze_ws(trim(t), seq![' '])
    } else {
        t
    }
}

/// A link with text `text`: labelled where the text is non-empty and differs
/// from the target, else the target in angle brackets.
pub open spec fn link_text(text: Seq<char>, href: Seq<char>) -> Seq<char> {
    if text.len() > 0 && text != href {
        "["@ + text + "]("@ + href + ")"@
    } else {
        "<"@ + href + ">"@
    }
}

pub open spec fn image_text(alt: Option<Seq<char>>, src: Seq<char>) -> Seq<char> {
    let a = match alt {
        Some(a) => a,
        None => Seq::empty(),
    };
    "!["@ + a + "]("@ + src + ")"@
}

/// The language written after the opening fence of a `pre` block.
pub open spec fn fence_lang(class: Option<Seq<char>>) -> Seq<char> {
    match class {
        Some(cls) => match class_lang(cls) {
            Some(l) => l,
            None => Seq::empty(),
        },
        None => Seq::empty(),
    }
}

pub open spec fn list_marker(ordered: bool, count: nat) -> Seq<char> {
    if ordered {
        decimal(count) + ". "@
    } else {
        "* "@
    }
}

/// Indentation step of a list, the width of its widest marker: 2 for `ul`,
/// 3 for `ol`. What is nested in an item is indented by it.
pub open spec fn list_step(ordered: bool) -> nat {
    if ordered {
        3
    } else {
        2
    }
}

pub open spec fn sat_add(a: nat, b: nat) -> nat {
    if a + b > usize::MAX {
        usize::MAX as nat
    } else {
        a + b
    }
}

/// The table written where a table closes; nothing for a table without rows.
pub open spec fn table_out(out: Seq<char>, rows: Seq<Seq<Seq<char>>>) -> Seq<char> {
    if rows.len() == 0 {
        out
    } else {
        blank_line(out) + table_text(rows)
    }
}

pub open spec fn is_li(d: NodeData) -> bool {
    match d {
        NodeData::Element { tag, .. } => tag@ == "li"@,
        _ => false,
    }
}

/// The state after node `i` (and everything below it) is formatted from `s`.
pub open spec fn node_step(t: &Tree, c: Config, i: int, s: State) -> State
    decreases t.nodes@.len() - i, 2int, 0int,
{
    if !(0 <= i < t.nodes@.len()) {
        s
    } else if skipped(c, t.nodes@[i].data) {
        s
    } else {
        match t.nodes@[i].data {
            NodeData::Element { tag, attrs } => rule_step(
                t,
                c,
                i,
                rule_of(tag@, s.in_table, c.include_metadata),
                attrs@,
                s,
            ),
            NodeData::Text { contents } => text_step(c, contents@, s),
            _ => children_from(t, c, i, 0, s),
        }
    }
}

/// The state after a text node holding `x`: its cleaned text goes to the
/// open table cell inside a table, else to the output.
pub open spec fn text_step(c: Config, x: Seq<char>, s: State) -> State {
    let y = cleaned(c, s.in_code, x);
    if s.in_table {
        State { cell: s.cell + y, ..s }
    } else {
        State { out: s.out + y, ..s }
    }
}

/// The state after element `i`, with attributes `attrs`, is formatted under
/// rule `r` from `s`.
pub open spec fn rule_step(
    t: &Tree,
    c: Config,
    i: int,
    r: Rule,
    attrs: Seq<Attribute>,
    s: State,
) -> State
    decreases t.nodes@.len() - i, 1int, 0int,
{
    if !(0 <= i < t.nodes@.len()) {
        s
    } else {
        match r {
            Rule::Heading(level) => if c.preserve_headings && level <= c.max_heading_level {
                let s1 = State { out: blank_line(s.out) + repeat('#', level as nat) + " "@, ..s };
                let s2 = children_from(t, c, i, 0, s1);
                State { out: blank_line(s2.out), ..s2 }
            } else {
                s
            },
            Rule::Link => match attr_lookup(attrs, "href"@) {
                Some(href) => if c.include_links {
                    if s.in_table {
                        let sub = children_from(t, c, i, 0, State { cell: Seq::empty(), ..s });
                        State { cell: s.cell + link_text(trim(sub.cell), href), ..sub }
                    } else {
                        let sub = children_from(t, c, i, 0, State { out: Seq::empty(), ..s });
                        State { out: s.out + link_text(trim(sub.out), href), ..sub }
                    }
                } else {
                    children_from(t, c, i, 0, s)
                },
                None => children_from(t, c, i, 0, s),
            },
            Rule::Image => match attr_lookup(attrs, "src"@) {
                Some(src) => State {
                    out: newline(newline(s.out) + image_text(attr_lookup(attrs, "alt"@), src)),
                    ..s
                },
                None => s,
            },
            Rule::Meta => State {
                meta: meta_update(
                    s.meta,
                    attr_lookup(attrs, "property"@),
                    attr_lookup(attrs, "content"@),
                ),
                ..s
            },
            Rule::Pre => {
                let s1 = State {
                    out: blank_line(s.out) + "```"@ + fence_lang(attr_lookup(attrs, "class"@))
                        + "\n"@,
                    in_code: true,
                    ..s
                };
                let s2 = children_from(t, c, i, 0, s1);
                State { out: newline(s2.out + "\n```"@), in_code: false, ..s2 }
            },
            Rule::Code => {
                let s2 = children_from(t, c, i, 0, State { out: s.out + "`"@, in_code: true, ..s });
                State { out: s2.out + "`"@, in_code: s.in_code, ..s2 }
            },
            Rule::Table => {
                let s2 = children_from(t, c, i, 0, State { in_table: true, rows: Seq::empty(), ..s });
                State { out: table_out(s2.out, s2.rows), rows: Seq::empty(), in_table: false, ..s2 }
            },
            Rule::Row => {
                let s2 = children_from(t, c, i, 0, State { row: Seq::empty(), ..s });
                State {
                    rows: if s2.row.len() > 0 {
                        s2.rows.push(s2.row)
                    } else {
                        s2.rows
                    },
                    row: Seq::empty(),
                    ..s2
                }
            },
            Rule::Cell => {
                let s2 = children_from(t, c, i, 0, State { cell: Seq::empty(), ..s });
                State { row: s2.row.push(trim(s2.cell)), cell: Seq::empty(), ..s2 }
            },
            Rule::List(ordered) => {
                let s1 = State { indent: sat_add(s.indent, list_step(ordered)), ..s };
                let s2 = items_from(t, c, i, 0, ordered, s.indent, 1, s1);
                State { out: newline(s2.out), indent: s.indent, ..s2 }
            },
            Rule::Inline(e) => {
                let s2 = children_from(t, c, i, 0, State { out: s.out + marker(e), ..s });
                State { out: s2.out + marker(e), ..s2 }
            },
            Rule::Block => {
                let s2 = children_from(t, c, i, 0, State { out: blank_line(s.out), ..s });
                State { out: blank_line(s2.out), ..s2 }
            },
            Rule::Transparent => children_from(t, c, i, 0, s),
        }
    }
}

/// The state after the children of node `i` from the `k`-th on are formatted.
pub open spec fn children_from(t: &Tree, c: Config, i: int, k: int, s: State) -> State
    decreases t.nodes@.len() - i, 0int, t.nodes@[i].children@.len() - k,
{
    if !(0 <= i < t.nodes@.len()) || k < 0 || k >= t.nodes@[i].children@.len() {
        s
    } else {
        let ch = t.nodes@[i].children@[k] as int;
        let s1 = if i < ch < t.nodes@.len() {
            node_step(t, c, ch, s)
        } else {
            s
        };
        children_from(t, c, i, k + 1, s1)
    }
}

/// The state after the `li` children of list `i` from the `k`-th child on are
/// written as items, numbered from `count`; other children are passed over.
/// Each item starts on a line of its own, after `base` spaces (the
/// indentation where the list opened) and its marker.
/// (The numbering stops growing at the largest machine word.)
pub open spec fn items_from(
    t: &Tree,
    c: Config,
    i: int,
    k: int,
    ordered: bool,
    base: nat,
    count: nat,
    s: State,
) -> State
    decreases t.nodes@.len() - i, 0int, t.nodes@[i].children@.len() - k,
{
    if !(0 <= i < t.nodes@.len()) || k < 0 || k >= t.nodes@[i].children@.len() {
        s
    } else {
        let ch = t.nodes@[i].children@[k] as int;
        if i < ch < t.nodes@.len() && is_li(t.nodes@[ch].data) {
            let s1 = State {
                out: newline(s.out) + repeat(' ', base) + list_marker(ordered, count),
                ..s
            };
            let s2 = node_step(t, c, ch, s1);
            items_from(t, c, i, k + 1, ordered, base, sat_add(count, 1), State { out: newline(s2.out), ..s2 })
        } else {
            items_from(t, c, i, k + 1, ordered, base, count, s)
        }
    }
}

/// The finished text: the front matter where metadata is wanted, then the
/// trimmed body; with whitespace cleaning on and line breaks not preserved,
/// every whitespace run that spans a line break becomes one blank line.
pub open spec fn finish(c: Config, s: State) -> Seq<char> {
    let head = if c.include_metadata {
        front_matter(s.meta)
    } else {
        Seq::empty()
    };
    let body = head + trim(s.out);
    if c.clean_whitespace && !c.cleaning_rules.preserve_line_breaks {
        trim(collapse_breaks(body))
    } else {
        trim(body)
    }
}

/// The text that `t` converts to under `c`.
pub open spec fn converted(t: &Tree, c: Config) -> Seq<char> {
    finish(c, node_step(t, c, 0, initial_state()))
}

} // verus!
