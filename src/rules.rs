//! Which formatting rule an element gets, chosen once from its tag name.
use vstd::prelude::*;
use crate::text::{eq_lit, is_whitespace_char, is_ws};

verus! {

/// The inline wrappers.
#[derive(Clone, Copy, Debug, PartialEq, Eq, Structural)]
pub enum Emphasis {
    Strong,
    Em,
    Mark,
    Del,
    Ins,
}

/// The formatting rule of an element.
#[derive(Clone, Copy, Debug, PartialEq, Eq, Structural)]
pub enum Rule {
    /// `h1` to `h6`, with the level.
    Heading(u8),
    Link,
    Image,
    /// `meta`, where metadata is gathered.
    Meta,
    Pre,
    Code,
    Table,
    /// `tr` inside a table.
    Row,
    /// `td` or `th` inside a table.
    Cell,
    /// `ul` (false) or `ol` (true).
    List(bool),
    Inline(Emphasis),
    /// A paragraph-like element set off by blank lines.
    Block,
    /// Anything else: only the children are written.
    Transparent,
}

/// The marker written on both sides of an inline wrapper.
pub open spec fn marker(e: Emphasis) -> Seq<char> {
    match e {
        Emphasis::Strong => "**"@,
        Emphasis::Em => "*"@,
        Emphasis::Mark => "=="@,
        Emphasis::Del => "~~"@,
        Emphasis::Ins => "__"@,
    }
}

pub fn marker_str(e: Emphasis) -> (r: &'static str)
    ensures
        r@ == marker(e),
{
    match e {
        Emphasis::Strong => "**",
        Emphasis::Em => "*",
        Emphasis::Mark => "==",
        Emphasis::Del => "~~",
        Emphasis::Ins => "__",
    }
}

/// The rule for tag `t`; `tr`, `td` and `th` are table parts only inside a
/// table, and `meta` is read only where metadata is wanted.
pub open spec fn rule_of(t: Seq<char>, in_table: bool, include_metadata: bool) -> Rule {
    if t == "h1"@ {
        Rule::Heading(1)
    } else if t == "h2"@ {
        Rule::Heading(2)
    } else if t == "h3"@ {
        Rule::Heading(3)
    } else if t == "h4"@ {
        Rule::Heading(4)
    } else if t == "h5"@ {
        Rule::Heading(5)
    } else if t == "h6"@ {
        Rule::Heading(6)
    } else if t == "a"@ {
        Rule::Link
    } else if t == "img"@ {
        Rule::Image
    } else if t == "meta"@ && include_metadata {
        Rule::Meta
    } else if t == "pre"@ {
        Rule::Pre
    } else if t == "code"@ {
        Rule::Code
    } else if t == "table"@ {
        Rule::Table
    } else if t == "tr"@ && in_table {
        Rule::Row
    } else if (t == "th"@ || t == "td"@) && in_table {
        Rule::Cell
    } else if t == "ul"@ {
        Rule::List(false)
    } else if t == "ol"@ {
        Rule::List(true)
    } else if t == "strong"@ || t == "b"@ {
        Rule::Inline(Emphasis::Strong)
    } else if t == "em"@ || t == "i"@ {
        Rule::Inline(Emphasis::Em)
    } else if t == "mark"@ {
        Rule::Inline(Emphasis::Mark)
    } else if t == "del"@ {
        Rule::Inline(Emphasis::Del)
    } else if t == "ins"@ {
        Rule::Inline(Emphasis::Ins)
    } else if t == "p"@ || t == "div"@ || t == "article"@ || t == "section"@ || t == "tr"@ || t
        == "td"@ || t == "th"@ {
        Rule::Block
    } else {
        Rule::Transparent
    }
}

pub fn classify(t: &Vec<char>, in_table: bool, include_metadata: bool) -> (r: Rule)
    ensures
        r == rule_of(t@, in_table, include_metadata),
{
    if eq_lit(t, "h1") {
        Rule::Heading(1)
    } else if eq_lit(t, "h2") {
        Rule::Heading(2)
    } else if eq_lit(t, "h3") {
        Rule::Heading(3)
    } else if eq_lit(t, "h4") {
        Rule::Heading(4)
    } else if eq_lit(t, "h5") {
        Rule::Heading(5)
    } else if eq_lit(t, "h6") {
        Rule::Heading(6)
    } else if eq_lit(t, "a") {
        Rule::Link
    } else if eq_lit(t, "img") {
        Rule::Image
    } else if eq_lit(t, "meta") && include_metadata {
        Rule::Meta
    } else if eq_lit(t, "pre") {
        Rule::Pre
    } else if eq_lit(t, "code") {
        Rule::Code
    } else if eq_lit(t, "table") {
        Rule::Table
    } else if eq_lit(t, "tr") && in_table {
        Rule::Row
    } else if (eq_lit(t, "th") || eq_lit(t, "td")) && in_table {
        Rule::Cell
    } else if eq_lit(t, "ul") {
        Rule::List(false)
    } else if eq_lit(t, "ol") {
        Rule::List(true)
    } else if eq_lit(t, "strong") || eq_lit(t, "b") {
        Rule::Inline(Emphasis::Strong)
    } else if eq_lit(t, "em") || eq_lit(t, "i") {
        Rule::Inline(Emphasis::Em)
    } else if eq_lit(t, "mark") {
        Rule::Inline(Emphasis::Mark)
    } else if eq_lit(t, "del") {
        Rule::Inline(Emphasis::Del)
    } else if eq_lit(t, "ins") {
        Rule::Inline(Emphasis::Ins)
    } else if eq_lit(t, "p") || eq_lit(t, "div") || eq_lit(t, "article") || eq_lit(t, "section")
        || eq_lit(t, "tr") || eq_lit(t, "td") || eq_lit(t, "th") {
        Rule::Block
    } else {
        Rule::Transparent
    }
}

/// The language named by a class token `language-<lang>`, if `tok` is one.
pub open spec fn token_lang(tok: Seq<char>) -> Option<Seq<char>> {
    if tok.len() >= 9 && tok.subrange(0, 9) == "language-"@ {
        Some(tok.subrange(9, tok.len() as int))
    } else {
        None
    }
}

/// The language of the first `language-` token of a class list, scanning `s`
/// after the partial token `tok`.
pub open spec fn lang_scan(s: Seq<char>, tok: Seq<char>) -> Option<Seq<char>>
    decreases s.len(),
{
    if s.len() == 0 {
        token_lang(tok)
    } else if is_ws(s[0]) {
        match token_lang(tok) {
            Some(l) => Some(l),
            None => lang_scan(s.drop_first(), Seq::empty()),
        }
    } else {
        lang_scan(s.drop_first(), tok.push(s[0]))
    }
}

/// The code language named in a whitespace-separated class list.
pub open spec fn class_lang(s: Seq<char>) -> Option<Seq<char>> {
    lang_scan(s, Seq::empty())
}

fn lang_of_token(tok: &Vec<char>) -> (r: Option<Vec<char>>)
    ensures
        match r {
            Some(v) => token_lang(tok@) == Some(v@),
            None => token_lang(tok@) is None,
        },
{
    let p = "language-";
    proof {
        reveal_strlit("language-");
    }
    let n = tok.len();
    if n < 9 {
        return None;
    }
    let mut k: usize = 0;
    while k < 9
        invariant
            k <= 9,
            9 <= n == tok@.len(),
            p@.len() == 9,
            p@ == "language-"@,
            forall|j: int| 0 <= j < k ==> tok@[j] == p@[j],
        decreases 9 - k,
    {
        if tok[k] != p.get_char(k) {
            assert(tok@.subrange(0, 9)[k as int] != p@[k as int]);
            assert(tok@.subrange(0, 9) != p@);
            return None;
        }
        k = k + 1;
    }
    assert(tok@.subrange(0, 9) =~= p@);
    let mut r: Vec<char> = Vec::new();
    let mut j: usize = 9;
    while j < n
        invariant
            9 <= j <= n,
            n == tok@.len(),
            r@ == tok@.subrange(9, j as int),
        decreases n - j,
    {
        r.push(tok[j]);
        assert(r@ =~= tok@.subrange(9, j + 1));
        j = j + 1;
    }
    Some(r)
}

/// The code language named by the first `language-` token of the class list `s`.
pub fn find_class_lang(s: &Vec<char>) -> (r: Option<Vec<char>>)
    ensures
        match r {
            Some(v) => class_lang(s@) == Some(v@),
            None => class_lang(s@) is None,
        },
{
    let n = s.len();
    let mut tok: Vec<char> = Vec::new();
    let mut k: usize = 0;
    assert(s@.subrange(0, n as int) =~= s@);
    while k < n
        invariant
            k <= n,
            n == s@.len(),
            class_lang(s@) == lang_scan(s@.subrange(k as int, n as int), tok@),
        decreases n - k,
    {
        let c = s[k];
        let ghost rest = s@.subrange(k as int, n as int);
        assert(rest.drop_first() =~= s@.subrange(k + 1, n as int));
        if is_whitespace_char(c) {
            let l = lang_of_token(&tok);
            if l.is_some() {
                return l;
            }
            tok = Vec::new();
        } else {
            tok.push(c);
        }
        k = k + 1;
    }
    lang_of_token(&tok)
}

} // verus!
