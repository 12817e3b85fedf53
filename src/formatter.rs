//! The formatter: one depth-first walk over the tree that writes the text,
//! proved to produce the state that `model` describes.
use vstd::prelude::*;
use crate::config::Config;
use crate::metadata::{ref_view, Metadata};
use crate::model::{
    blank_line, children_from, fence_lang, finish, image_text, initial_state, items_from, link_text,
    list_marker, newline, node_step, rule_step, skipped, converted, text_step, State,
};
use crate::rules::{classify, find_class_lang, marker_str, Rule};
use crate::table::{cells_view, push_table, rows_view};
use crate::text::{
    collapse_line_breaks, eq_chars, eq_lit, push_chars, push_decimal, push_lit, push_repeat, repeat,
    squeeze_spaces, string_of, trim_chars,
};
use crate::tree::{attr_lookup, find_attr, Attribute, NodeData, Tree};

verus! {

/// Appends a line break unless `out` already ends in one.
pub fn push_newline(out: &mut Vec<char>)
    ensures
        final(out)@ == newline(old(out)@),
{
    let n = out.len();
    if n == 0 || out[n - 1] != '\n' {
        out.push('\n');
    }
}

/// Appends line breaks until `out` ends in a blank line.
pub fn push_blank_line(out: &mut Vec<char>)
    ensures
        final(out)@ == blank_line(old(out)@),
{
    push_newline(out);
    let n = out.len();
    if n < 2 || out[n - 2] != '\n' {
        out.push('\n');
    }
}

/// Appends the link with label `text` and target `href`.
pub fn push_link(out: &mut Vec<char>, text: &Vec<char>, href: &Vec<char>)
    ensures
        final(out)@ == old(out)@ + link_text(text@, href@),
{
    if text.len() > 0 && !eq_chars(text, href) {
        push_lit(out, "[");
        push_chars(out, text);
        push_lit(out, "](");
        push_chars(out, href);
        push_lit(out, ")");
    } else {
        push_lit(out, "<");
        push_chars(out, href);
        push_lit(out, ">");
    }
    assert(out@ =~= old(out)@ + link_text(text@, href@));
}

/// Whether the cleaning rules of `c` remove a node holding `d`.
pub fn should_skip_node(c: &Config, d: &NodeData) -> (r: bool)
    ensures
        r == skipped(*c, *d),
{
    let r = &c.cleaning_rules;
    if !r.remove_scripts && !r.remove_styles && !r.remove_comments {
        return false;
    }
    match d {
        NodeData::Element { tag, .. } => (r.remove_scripts && eq_lit(tag, "script")) || (
        r.remove_styles && eq_lit(tag, "style")),
        NodeData::Comment { .. } => r.remove_comments,
        NodeData::ProcessingInstruction => true,
        _ => false,
    }
}

/// The state of one conversion.
pub struct Formatter {
    pub config: Config,
    pub out: Vec<char>,
    pub indent: usize,
    pub in_table: bool,
    pub rows: Vec<Vec<Vec<char>>>,
    pub row: Vec<Vec<char>>,
    pub cell: Vec<char>,
    pub metadata: Metadata,
    pub in_code: bool,
}

impl Formatter {
    pub open spec fn view(&self) -> State {
        State {
            out: self.out@,
            indent: self.indent as nat,
            in_table: self.in_table,
            rows: rows_view(self.rows@),
            row: cells_view(self.row@),
            cell: self.cell@,
            meta: self.metadata@,
            in_code: self.in_code,
        }
    }

    /// A formatter that has written nothing yet.
    pub fn new(config: Config) -> (f: Formatter)
        ensures
            f@ == initial_state(),
            f.config == config,
    {
        let f = Formatter {
            config,
            out: Vec::new(),
            indent: 0,
            in_table: false,
            rows: Vec::new(),
            row: Vec::new(),
            cell: Vec::new(),
            metadata: Metadata::new(),
            in_code: false,
        };
        assert(f@.rows =~= Seq::<Seq<Seq<char>>>::empty());
        assert(f@.row =~= Seq::<Seq<char>>::empty());
        f
    }

    /// Formats node `i` and everything below it.
    pub fn process_node(&mut self, tree: &Tree, i: usize)
        requires
            tree.wf(),
            i < tree.nodes@.len(),
        ensures
            final(self)@ == node_step(tree, old(self).config, i as int, old(self)@),
            final(self).config == old(self).config,
        decreases tree.nodes@.len() - i, 3int,
    {
        if should_skip_node(&self.config, &tree.nodes[i].data) {
            return;
        }
        match &tree.nodes[i].data {
            NodeData::Element { tag, attrs } => {
                let rule = classify(tag, self.in_table, self.config.include_metadata);
                self.apply_rule(tree, i, rule, attrs);
            },
            NodeData::Text { contents } => {
                self.process_text(contents);
            },
            _ => {
                self.process_children(tree, i);
            },
        }
    }

    /// Writes the text of a text node.
    pub fn process_text(&mut self, contents: &Vec<char>)
        ensures
            final(self)@ == text_step(old(self).config, contents@, old(self)@),
            final(self).config == old(self).config,
    {
        if self.config.clean_whitespace && !self.in_code {
            let trimmed = trim_chars(contents);
            let x = squeeze_spaces(&trimmed);
            if self.in_table {
                push_chars(&mut self.cell, &x);
            } else {
                push_chars(&mut self.out, &x);
            }
        } else {
            if self.in_table {
                push_chars(&mut self.cell, contents);
            } else {
                push_chars(&mut self.out, contents);
            }
        }
    }

    /// Formats element `i`, whose attributes are `attrs`, under `rule`.
    pub fn apply_rule(&mut self, tree: &Tree, i: usize, rule: Rule, attrs: &Vec<Attribute>)
        requires
            tree.wf(),
            i < tree.nodes@.len(),
        ensures
            final(self)@ == rule_step(tree, old(self).config, i as int, rule, attrs@, old(self)@),
            final(self).config == old(self).config,
        decreases tree.nodes@.len() - i, 2int,
    {
        match rule {
            Rule::Heading(level) => {
                if self.config.preserve_headings && level <= self.config.max_heading_level {
                    push_blank_line(&mut self.out);
                    push_repeat(&mut self.out, '#', level as usize);
                    push_lit(&mut self.out, " ");
                    self.process_children(tree, i);
                    push_blank_line(&mut self.out);
                }
            },
            Rule::Link => {
                self.process_link(tree, i, attrs);
            },
            Rule::Image => {
                self.process_image(attrs);
            },
            Rule::Meta => {
                let p = find_attr(attrs, "property");
                let v = find_attr(attrs, "content");
                self.metadata.apply(p, v);
            },
            Rule::Pre => {
                self.process_pre(tree, i, attrs);
            },
            Rule::Code => {
                let was_in_code = self.in_code;
                self.in_code = true;
                push_lit(&mut self.out, "`");
                self.process_children(tree, i);
                push_lit(&mut self.out, "`");
                self.in_code = was_in_code;
            },
            Rule::Table => {
                self.process_table(tree, i);
            },
            Rule::Row => {
                self.process_row(tree, i);
            },
            Rule::Cell => {
                self.cell = Vec::new();
                self.process_children(tree, i);
                let text = trim_chars(&self.cell);
                let ghost before = self.row@;
                self.row.push(text);
                assert(cells_view(self.row@) =~= cells_view(before).push(text@));
                self.cell = Vec::new();
            },
            Rule::List(ordered) => {
                let saved = self.indent;
                let step: usize = if ordered {
                    3
                } else {
                    2
                };
                self.indent =
                if self.indent > usize::MAX - step {
                    usize::MAX
                } else {
                    self.indent + step
                };
                self.process_list_items(tree, i, ordered, saved);
                self.indent = saved;
                push_newline(&mut self.out);
            },
            Rule::Inline(e) => {
                push_lit(&mut self.out, marker_str(e));
                self.process_children(tree, i);
                push_lit(&mut self.out, marker_str(e));
            },
            Rule::Block => {
                push_blank_line(&mut self.out);
                self.process_children(tree, i);
                push_blank_line(&mut self.out);
            },
            Rule::Transparent => {
                self.process_children(tree, i);
            },
        }
    }

    /// A link: with links on and a target, the children are written aside and
    /// become the label, and the link goes where text goes (the open table
    /// cell inside a table); otherwise only the children are written.
    pub fn process_link(&mut self, tree: &Tree, i: usize, attrs: &Vec<Attribute>)
        requires
            tree.wf(),
            i < tree.nodes@.len(),
        ensures
            final(self)@ == rule_step(tree, old(self).config, i as int, Rule::Link, attrs@, old(self)@),
            final(self).config == old(self).config,
        decreases tree.nodes@.len() - i, 1int,
    {
        match find_attr(attrs, "href") {
            Some(href) => {
                if self.config.include_links {
                    if self.in_table {
                        let mut saved: Vec<char> = Vec::new();
                        std::mem::swap(&mut saved, &mut self.cell);
                        self.process_children(tree, i);
                        let text = trim_chars(&self.cell);
                        std::mem::swap(&mut saved, &mut self.cell);
                        push_link(&mut self.cell, &text, href);
                    } else {
                        let mut saved: Vec<char> = Vec::new();
                        std::mem::swap(&mut saved, &mut self.out);
                        self.process_children(tree, i);
                        let text = trim_chars(&self.out);
                        std::mem::swap(&mut saved, &mut self.out);
                        push_link(&mut self.out, &text, href);
                    }
                } else {
                    self.process_children(tree, i);
                }
            },
            None => {
                self.process_children(tree, i);
            },
        }
    }

    /// An image with a source, on a line of its own; nothing without one.
    pub fn process_image(&mut self, attrs: &Vec<Attribute>)
        ensures
            final(self)@ == (match attr_lookup(attrs@, "src"@) {
                Some(src) => State {
                    out: newline(newline(old(self)@.out) + image_text(attr_lookup(attrs@, "alt"@), src)),
                    ..old(self)@
                },
                None => old(self)@,
            }),
            final(self).config == old(self).config,
    {
        match find_attr(attrs, "src") {
            Some(src) => {
                let alt = find_attr(attrs, "alt");
                push_newline(&mut self.out);
                let ghost before = self.out@;
                push_lit(&mut self.out, "![");
                match alt {
                    Some(a) => {
                        push_chars(&mut self.out, a);
                    },
                    None => {},
                }
                push_lit(&mut self.out, "](");
                push_chars(&mut self.out, src);
                push_lit(&mut self.out, ")");
                assert(self.out@ =~= before + image_text(ref_view(alt), src@));
                push_newline(&mut self.out);
            },
            None => {},
        }
    }

    /// A fenced code block, tagged with the language of the class list.
    pub fn process_pre(&mut self, tree: &Tree, i: usize, attrs: &Vec<Attribute>)
        requires
            tree.wf(),
            i < tree.nodes@.len(),
        ensures
            final(self)@ == rule_step(tree, old(self).config, i as int, Rule::Pre, attrs@, old(self)@),
            final(self).config == old(self).config,
        decreases tree.nodes@.len() - i, 1int,
    {
        self.in_code = true;
        push_blank_line(&mut self.out);
        let ghost before = self.out@;
        push_lit(&mut self.out, "```");
        let class = find_attr(attrs, "class");
        let ghost after_fence = self.out@;
        match class {
            Some(cls) => {
                match find_class_lang(cls) {
                    Some(l) => {
                        push_chars(&mut self.out, &l);
                    },
                    None => {},
                }
            },
            None => {},
        }
        assert(self.out@ =~= after_fence + fence_lang(ref_view(class)));
        push_lit(&mut self.out, "\n");
        assert(self.out@ =~= before + "```"@ + fence_lang(ref_view(class)) + "\n"@);
        self.process_children(tree, i);
        push_lit(&mut self.out, "\n```");
        push_newline(&mut self.out);
        self.in_code = false;
    }

    /// A table: its rows are gathered from the children, then written.
    pub fn process_table(&mut self, tree: &Tree, i: usize)
        requires
            tree.wf(),
            i < tree.nodes@.len(),
        ensures
            final(self)@ == rule_step(tree, old(self).config, i as int, Rule::Table, Seq::empty(), old(self)@),
            final(self).config == old(self).config,
        decreases tree.nodes@.len() - i, 1int,
    {
        self.in_table = true;
        self.rows = Vec::new();
        assert(rows_view(self.rows@) =~= Seq::<Seq<Seq<char>>>::empty());
        self.process_children(tree, i);
        if self.rows.len() > 0 {
            push_blank_line(&mut self.out);
        }
        push_table(&mut self.out, &self.rows);
        self.rows = Vec::new();
        assert(rows_view(self.rows@) =~= Seq::<Seq<Seq<char>>>::empty());
        self.in_table = false;
    }

    /// A table row: kept where it has at least one cell.
    pub fn process_row(&mut self, tree: &Tree, i: usize)
        requires
            tree.wf(),
            i < tree.nodes@.len(),
        ensures
            final(self)@ == rule_step(tree, old(self).config, i as int, Rule::Row, Seq::empty(), old(self)@),
            final(self).config == old(self).config,
        decreases tree.nodes@.len() - i, 1int,
    {
        self.row = Vec::new();
        assert(cells_view(self.row@) =~= Seq::<Seq<char>>::empty());
        self.process_children(tree, i);
        let mut done: Vec<Vec<char>> = Vec::new();
        std::mem::swap(&mut done, &mut self.row);
        assert(cells_view(self.row@) =~= Seq::<Seq<char>>::empty());
        if done.len() > 0 {
            let ghost before = self.rows@;
            self.rows.push(done);
            assert(rows_view(self.rows@) =~= rows_view(before).push(cells_view(done@)));
        }
    }

    /// Formats the children of node `i` in order.
    pub fn process_children(&mut self, tree: &Tree, i: usize)
        requires
            tree.wf(),
            i < tree.nodes@.len(),
        ensures
            final(self)@ == children_from(tree, old(self).config, i as int, 0, old(self)@),
            final(self).config == old(self).config,
        decreases tree.nodes@.len() - i, 0int,
    {
        let ghost cfg = self.config;
        let n = tree.nodes[i].children.len();
        let mut k: usize = 0;
        assert(tree.nodes@[i as int].children_after(i as int, tree.nodes@.len() as int));
        while k < n
            invariant
                tree.wf(),
                i < tree.nodes@.len(),
                k <= n,
                n == tree.nodes@[i as int].children@.len(),
                tree.nodes@[i as int].children_after(i as int, tree.nodes@.len() as int),
                self.config == cfg,
                children_from(tree, cfg, i as int, 0, old(self)@) == children_from(
                    tree,
                    cfg,
                    i as int,
                    k as int,
                    self@,
                ),
            decreases n - k,
        {
            let ch = tree.nodes[i].children[k];
            assert(i < tree.nodes@[i as int].children@[k as int]);
            self.process_node(tree, ch);
            k = k + 1;
        }
    }

    /// Writes the `li` children of list `i` as items, each on its own line
    /// after the indentation and its marker.
    pub fn process_list_items(&mut self, tree: &Tree, i: usize, ordered: bool, base: usize)
        requires
            tree.wf(),
            i < tree.nodes@.len(),
        ensures
            final(self)@ == items_from(tree, old(self).config, i as int, 0, ordered, base as nat, 1, old(self)@),
            final(self).config == old(self).config,
        decreases tree.nodes@.len() - i, 0int,
    {
        let ghost cfg = self.config;
        let n = tree.nodes[i].children.len();
        let mut k: usize = 0;
        let mut count: usize = 1;
        assert(tree.nodes@[i as int].children_after(i as int, tree.nodes@.len() as int));
        while k < n
            invariant
                tree.wf(),
                i < tree.nodes@.len(),
                k <= n,
                1 <= count,
                n == tree.nodes@[i as int].children@.len(),
                tree.nodes@[i as int].children_after(i as int, tree.nodes@.len() as int),
                self.config == cfg,
                items_from(tree, cfg, i as int, 0, ordered, base as nat, 1, old(self)@) == items_from(
                    tree,
                    cfg,
                    i as int,
                    k as int,
                    ordered,
                    base as nat,
                    count as nat,
                    self@,
                ),
            decreases n - k,
        {
            let ch = tree.nodes[i].children[k];
            assert(i < tree.nodes@[i as int].children@[k as int]);
            let is_item = match &tree.nodes[ch].data {
                NodeData::Element { tag, .. } => eq_lit(tag, "li"),
                _ => false,
            };
            if is_item {
                push_newline(&mut self.out);
                let ghost before = self.out@;
                push_repeat(&mut self.out, ' ', base);
                if ordered {
                    push_decimal(&mut self.out, count);
                    push_lit(&mut self.out, ". ");
                } else {
                    push_lit(&mut self.out, "* ");
                }
                assert(self.out@ =~= before + repeat(' ', base as nat) + list_marker(
                    ordered,
                    count as nat,
                ));
                self.process_node(tree, ch);
                push_newline(&mut self.out);
                count = if count < usize::MAX {
                    count + 1
                } else {
                    count
                };
            }
            k = k + 1;
        }
    }

    /// The finished text: front matter where wanted, then the trimmed body,
    /// with whitespace runs across line breaks made one blank line where
    /// whitespace cleaning is on and line breaks are not preserved.
    pub fn result(self) -> (r: String)
        ensures
            r@ == finish(self.config, self@),
    {
        let mut body: Vec<char> = if self.config.include_metadata {
            self.metadata.format_metadata()
        } else {
            Vec::new()
        };
        let content = trim_chars(&self.out);
        push_chars(&mut body, &content);
        let text = if self.config.clean_whitespace && !self.config.cleaning_rules.preserve_line_breaks {
            let collapsed = collapse_line_breaks(&body);
            trim_chars(&collapsed)
        } else {
            trim_chars(&body)
        };
        string_of(&text)
    }
}

/// Converts the whole tree under `config`; total on every well-formed tree.
pub fn convert(tree: &Tree, config: &Config) -> (r: String)
    requires
        tree.wf(),
    ensures
        r@ == converted(tree, *config),
{
    let mut f = Formatter::new(*config);
    f.process_node(tree, 0);
    f.result()
}

} // verus!
