//! Properties of the conversion as a whole, proved over the model.
use vstd::prelude::*;
use crate::config::Config;
use crate::model::{
    blank_line, children_from, converted, initial_state, newline, node_step, rule_step, skipped,
    text_step, State,
};
use crate::rules::{rule_of, Rule};
use crate::table::col_width;
use crate::text::{
    breaks_from, collapse_breaks, is_ws, lead_end, squeeze_flush, squeeze_from, tail_start, trim,
};
use crate::tree::{NodeData, Tree};

verus! {

pub open spec fn all_ws(s: Seq<char>) -> bool {
    forall|k: int| 0 <= k < s.len() ==> is_ws(#[trigger] s[k])
}

/// Whitespace in `s` is only single spaces.
pub open spec fn single_spaced(s: Seq<char>) -> bool {
    forall|k: int|
        0 <= k < s.len() && is_ws(#[trigger] s[k]) ==> s[k] == ' ' && (k + 1 < s.len() ==> !is_ws(
            s[k + 1],
        ))
}

proof fn lemma_squeeze_single(y: Seq<char>, run: Seq<char>)
    requires
        single_spaced(y),
        run == Seq::<char>::empty() || (run == seq![' '] && (y.len() == 0 || !is_ws(y[0]))),
    ensures
        squeeze_from(y, run, seq![' ']) == run + y,
    decreases y.len(),
{
    let rest = y.drop_first();
    if y.len() == 0 {
        assert(run + y =~= run);
    } else {
        assert forall|k: int| 0 <= k < rest.len() && is_ws(#[trigger] rest[k]) implies rest[k] == ' '
            && (k + 1 < rest.len() ==> !is_ws(rest[k + 1])) by {
            assert(rest[k] == y[k + 1]);
            assert(is_ws(y[k + 1]));
        }
        if is_ws(y[0]) {
            assert(y[0] == ' ');
            assert(run.push(y[0]) =~= seq![' ']);
            if rest.len() > 0 {
                assert(rest[0] == y[1]);
            }
            lemma_squeeze_single(rest, run.push(y[0]));
            assert(run.push(y[0]) + rest =~= run + y);
        } else {
            lemma_squeeze_single(rest, Seq::empty());
            assert(squeeze_flush(run, seq![' ']) =~= run);
            assert(run + seq![y[0]] + (Seq::<char>::empty() + rest) =~= run + y);
        }
    }
}

proof fn lemma_breaks_plain(y: Seq<char>, run: Seq<char>)
    requires
        forall|k: int| 0 <= k < y.len() ==> y[k] != '\n',
        !run.contains('\n'),
    ensures
        breaks_from(y, run) == run + y,
    decreases y.len(),
{
    let rest = y.drop_first();
    if y.len() == 0 {
        assert(run + y =~= run);
    } else {
        assert(forall|k: int| 0 <= k < rest.len() ==> rest[k] == y[k + 1]);
        if is_ws(y[0]) {
            assert(!run.push(y[0]).contains('\n')) by {
                if run.push(y[0]).contains('\n') {
                    let k = choose|k: int| 0 <= k < run.push(y[0]).len() && run.push(y[0])[k] == '\n';
                    if k < run.len() {
                        assert(run[k] == '\n');
                    }
                }
            }
            lemma_breaks_plain(rest, run.push(y[0]));
            assert(run.push(y[0]) + rest =~= run + y);
        } else {
            lemma_breaks_plain(rest, Seq::empty());
            assert(!Seq::<char>::empty().contains('\n'));
            assert(run + seq![y[0]] + (Seq::<char>::empty() + rest) =~= run + y);
        }
    }
}

proof fn lemma_lead_end(s: Seq<char>, i: int)
    requires
        0 <= i <= s.len(),
    ensures
        i <= lead_end(s, i) <= s.len(),
        forall|k: int| i <= k < lead_end(s, i) ==> is_ws(#[trigger] s[k]),
        lead_end(s, i) < s.len() ==> !is_ws(s[lead_end(s, i)]),
    decreases s.len() - i,
{
    if i < s.len() && is_ws(s[i]) {
        lemma_lead_end(s, i + 1);
    }
}

proof fn lemma_tail_start(s: Seq<char>, j: int)
    requires
        0 <= j <= s.len(),
    ensures
        0 <= tail_start(s, j) <= j,
        forall|k: int| tail_start(s, j) <= k < j ==> is_ws(#[trigger] s[k]),
        tail_start(s, j) > 0 ==> !is_ws(s[tail_start(s, j) - 1]),
    decreases j,
{
    if j > 0 && is_ws(s[j - 1]) {
        lemma_tail_start(s, j - 1);
    }
}

/// Trimming keeps exactly the span from the first to the last
/// non-whitespace character.
proof fn lemma_trim_span(s: Seq<char>, a: int, b: int)
    requires
        0 <= a < b <= s.len(),
        forall|k: int| 0 <= k < a ==> is_ws(#[trigger] s[k]),
        forall|k: int| b <= k < s.len() ==> is_ws(#[trigger] s[k]),
        !is_ws(s[a]),
        !is_ws(s[b - 1]),
    ensures
        trim(s) == s.subrange(a, b),
{
    lemma_lead_end(s, 0);
    let le = lead_end(s, 0);
    if le < a {
        assert(is_ws(s[le]));
    }
    if le > a {
        assert(is_ws(s[a]));
    }
    assert(le == a);
    let u = s.subrange(a, s.len() as int);
    lemma_tail_start(u, u.len() as int);
    let ts = tail_start(u, u.len() as int);
    if ts < b - a {
        assert(u[b - a - 1] == s[b - 1]);
        assert(is_ws(u[b - a - 1]));
    }
    if ts > b - a {
        assert(u[ts - 1] == s[a + ts - 1]);
        assert(is_ws(s[a + ts - 1]));
    }
    assert(ts == b - a);
    assert(trim(s) =~= s.subrange(a, b));
}

proof fn lemma_trim_all_ws(s: Seq<char>)
    requires
        all_ws(s),
    ensures
        trim(s) == Seq::<char>::empty(),
{
    lemma_lead_end(s, 0);
    let le = lead_end(s, 0);
    if le < s.len() {
        assert(is_ws(s[le]));
    }
    let u = s.subrange(le, s.len() as int);
    assert(u.len() == 0);
    assert(trim(s) =~= Seq::<char>::empty());
}

/// Whitespace around a text does not change its trimmed form.
pub proof fn lemma_trim_padded(w1: Seq<char>, x: Seq<char>, w2: Seq<char>)
    requires
        all_ws(w1),
        all_ws(w2),
    ensures
        trim(w1 + x + w2) == trim(x),
        trim(trim(x)) == trim(x),
        exists|a: int, b: int| 0 <= a <= b <= x.len() && trim(x) == x.subrange(a, b),
{
    let s = w1 + x + w2;
    if all_ws(x) {
        lemma_trim_all_ws(x);
        assert forall|k: int| 0 <= k < s.len() implies is_ws(#[trigger] s[k]) by {
            if k < w1.len() {
                assert(s[k] == w1[k]);
            } else if k < w1.len() + x.len() {
                assert(s[k] == x[k - w1.len()]);
            } else {
                assert(s[k] == w2[k - w1.len() - x.len()]);
            }
        }
        lemma_trim_all_ws(s);
        assert(trim(x).len() == 0);
        lemma_trim_all_ws(trim(x));
        assert(trim(x) =~= x.subrange(0, 0));
    } else {
        lemma_lead_end(x, 0);
        lemma_tail_start(x, x.len() as int);
        let a = lead_end(x, 0);
        let b = tail_start(x, x.len() as int);
        let k0 = choose|k: int| 0 <= k < x.len() && !is_ws(x[k]);
        assert(a <= k0) by {
            if a > k0 {
                assert(is_ws(x[k0]));
            }
        }
        assert(k0 < b) by {
            if k0 >= b {
                assert(is_ws(x[k0]));
            }
        }
        lemma_trim_span(x, a, b);
        let n1 = w1.len() as int;
        assert forall|k: int| 0 <= k < n1 + a implies is_ws(#[trigger] s[k]) by {
            if k < n1 {
                assert(s[k] == w1[k]);
            } else {
                assert(s[k] == x[k - n1]);
            }
        }
        assert forall|k: int| n1 + b <= k < s.len() implies is_ws(#[trigger] s[k]) by {
            if k < n1 + x.len() {
                assert(s[k] == x[k - n1]);
            } else {
                assert(s[k] == w2[k - n1 - x.len()]);
            }
        }
        assert(s[n1 + a] == x[a]);
        assert(s[n1 + b - 1] == x[b - 1]);
        lemma_trim_span(s, n1 + a, n1 + b);
        assert(s.subrange(n1 + a, n1 + b) =~= x.subrange(a, b));
        let y = x.subrange(a, b);
        assert forall|k: int| 0 <= k < 0 implies is_ws(#[trigger] y[k]) by {}
        lemma_trim_span(y, 0, y.len() as int);
        assert(y.subrange(0, y.len() as int) =~= y);
        assert(trim(x) == x.subrange(a, b));
    }
}

proof fn lemma_newline_pads(s: Seq<char>)
    ensures
        exists|w: Seq<char>| all_ws(w) && #[trigger] newline(s) == s + w,
        exists|w: Seq<char>| all_ws(w) && #[trigger] blank_line(s) == s + w,
{
    let e = Seq::<char>::empty();
    let one = seq!['\n'];
    let two = seq!['\n', '\n'];
    assert(is_ws('\n'));
    assert(all_ws(e));
    assert(all_ws(one));
    assert(all_ws(two));
    if s.len() > 0 && s.last() == '\n' {
        assert(newline(s) == s + e);
    } else {
        assert(newline(s) =~= s + one);
    }
    let t = newline(s);
    if t.len() >= 2 && t[t.len() - 2] == '\n' {
        if s.len() > 0 && s.last() == '\n' {
            assert(blank_line(s) =~= s + e);
        } else {
            assert(blank_line(s) =~= s + one);
        }
    } else {
        if s.len() > 0 && s.last() == '\n' {
            assert(blank_line(s) =~= s + one);
        } else {
            assert(blank_line(s) =~= s + two);
        }
    }
}

/// `p` is a block tag that no cleaning rule removes.
proof fn lemma_paragraph_tag(include_metadata: bool)
    ensures
        rule_of("p"@, false, include_metadata) == Rule::Block,
        "p"@ != "script"@,
        "p"@ != "style"@,
{
    let pv = "p"@;
    assert(pv =~= seq!['p']) by {
        reveal_strlit("p");
    }
    assert("script"@ != pv) by {
        reveal_strlit("script");
        assert("script"@ =~= seq!['s', 'c', 'r', 'i', 'p', 't']);
    }
    assert("style"@ != pv) by {
        reveal_strlit("style");
        assert("style"@ =~= seq!['s', 't', 'y', 'l', 'e']);
    }
    assert("h1"@ != pv) by {
        reveal_strlit("h1");
        assert("h1"@ =~= seq!['h', '1']);
    }
    assert("h2"@ != pv) by {
        reveal_strlit("h2");
        assert("h2"@ =~= seq!['h', '2']);
    }
    assert("h3"@ != pv) by {
        reveal_strlit("h3");
        assert("h3"@ =~= seq!['h', '3']);
    }
    assert("h4"@ != pv) by {
        reveal_strlit("h4");
        assert("h4"@ =~= seq!['h', '4']);
    }
    assert("h5"@ != pv) by {
        reveal_strlit("h5");
        assert("h5"@ =~= seq!['h', '5']);
    }
    assert("h6"@ != pv) by {
        reveal_strlit("h6");
        assert("h6"@ =~= seq!['h', '6']);
    }
    assert("a"@ != pv) by {
        reveal_strlit("a");
        assert("a"@ =~= seq!['a']);
        assert("a"@[0] != pv[0]);
    }
    assert("img"@ != pv) by {
        reveal_strlit("img");
        assert("img"@ =~= seq!['i', 'm', 'g']);
    }
    assert("meta"@ != pv) by {
        reveal_strlit("meta");
        assert("meta"@ =~= seq!['m', 'e', 't', 'a']);
    }
    assert("pre"@ != pv) by {
        reveal_strlit("pre");
        assert("pre"@ =~= seq!['p', 'r', 'e']);
    }
    assert("code"@ != pv) by {
        reveal_strlit("code");
        assert("code"@ =~= seq!['c', 'o', 'd', 'e']);
    }
    assert("table"@ != pv) by {
        reveal_strlit("table");
        assert("table"@ =~= seq!['t', 'a', 'b', 'l', 'e']);
    }
    assert("tr"@ != pv) by {
        reveal_strlit("tr");
        assert("tr"@ =~= seq!['t', 'r']);
    }
    assert("th"@ != pv) by {
        reveal_strlit("th");
        assert("th"@ =~= seq!['t', 'h']);
    }
    assert("td"@ != pv) by {
        reveal_strlit("td");
        assert("td"@ =~= seq!['t', 'd']);
    }
    assert("ul"@ != pv) by {
        reveal_strlit("ul");
        assert("ul"@ =~= seq!['u', 'l']);
    }
    assert("ol"@ != pv) by {
        reveal_strlit("ol");
        assert("ol"@ =~= seq!['o', 'l']);
    }
    assert("strong"@ != pv) by {
        reveal_strlit("strong");
        assert("strong"@ =~= seq!['s', 't', 'r', 'o', 'n', 'g']);
    }
    assert("b"@ != pv) by {
        reveal_strlit("b");
        assert("b"@ =~= seq!['b']);
        assert("b"@[0] != pv[0]);
    }
    assert("em"@ != pv) by {
        reveal_strlit("em");
        assert("em"@ =~= seq!['e', 'm']);
    }
    assert("i"@ != pv) by {
        reveal_strlit("i");
        assert("i"@ =~= seq!['i']);
        assert("i"@[0] != pv[0]);
    }
    assert("mark"@ != pv) by {
        reveal_strlit("mark");
        assert("mark"@ =~= seq!['m', 'a', 'r', 'k']);
    }
    assert("del"@ != pv) by {
        reveal_strlit("del");
        assert("del"@ =~= seq!['d', 'e', 'l']);
    }
    assert("ins"@ != pv) by {
        reveal_strlit("ins");
        assert("ins"@ =~= seq!['i', 'n', 's']);
    }
}

/// Emphasis markers are ordinary characters to the converter: a document
/// whose only content is one paragraph holding the text `x` converts, with
/// metadata off, to `x` trimmed. With whitespace cleaning on this holds of
/// text whose whitespace is single spaces, as the converter's own inline
/// output is. So text that the converter wrote (`**bold** and *it*`) comes
/// back as it was.
pub proof fn law_paragraph_text_round_trip(t: &Tree, c: Config, x: Seq<char>)
    requires
        t.wf(),
        t.nodes@.len() == 3,
        t.nodes@[0].data is Document,
        t.nodes@[0].children@ == seq![1usize],
        match t.nodes@[1].data {
            NodeData::Element { tag, attrs } => tag@ == "p"@,
            _ => false,
        },
        t.nodes@[1].children@ == seq![2usize],
        match t.nodes@[2].data {
            NodeData::Text { contents } => contents@ == x,
            _ => false,
        },
        c.clean_whitespace ==> single_spaced(x),
        !c.include_metadata,
    ensures
        converted(t, c) == trim(x),
{
    lemma_paragraph_tag(c.include_metadata);
    let e = Seq::<char>::empty();
    let s0 = initial_state();
    let s1 = State { out: blank_line(e), ..s0 };
    let s2 = text_step(c, x, s1);
    lemma_trim_padded(e, x, e);
    let tx = trim(x);
    let y = if c.clean_whitespace {
        tx
    } else {
        x
    };
    if c.clean_whitespace {
        let (a, b) = choose|a: int, b: int| 0 <= a <= b <= x.len() && tx == x.subrange(a, b);
        assert forall|k: int| 0 <= k < tx.len() && is_ws(#[trigger] tx[k]) implies tx[k] == ' ' && (k
            + 1 < tx.len() ==> !is_ws(tx[k + 1])) by {
            assert(tx[k] == x[a + k]);
            assert(is_ws(x[a + k]));
            if k + 1 < tx.len() {
                assert(tx[k + 1] == x[a + k + 1]);
            }
        }
        lemma_squeeze_single(tx, Seq::empty());
        assert(Seq::<char>::empty() + tx =~= tx);
    }
    assert(s2 == State { out: blank_line(e) + y, ..s0 });
    let attrs = match t.nodes@[1].data {
        NodeData::Element { attrs, .. } => attrs@,
        _ => Seq::empty(),
    };
    assert(!skipped(c, t.nodes@[2].data));
    assert(node_step(t, c, 2, s1) == s2);
    assert(children_from(t, c, 1, 1, s2) == s2);
    assert(children_from(t, c, 1, 0, s1) == s2);
    let s3 = State { out: blank_line(s2.out), ..s2 };
    assert(rule_step(t, c, 1, Rule::Block, attrs, s0) == s3);
    assert(!skipped(c, t.nodes@[1].data));
    assert(rule_of("p"@, false, c.include_metadata) == Rule::Block);
    assert(node_step(t, c, 1, s0) == s3);
    assert(children_from(t, c, 0, 1, s3) == s3);
    assert(children_from(t, c, 0, 0, s0) == s3);
    assert(!skipped(c, t.nodes@[0].data));
    assert(node_step(t, c, 0, s0) == s3);
    lemma_newline_pads(e);
    let w1 = choose|w: Seq<char>| all_ws(w) && #[trigger] blank_line(e) == e + w;
    let mid = blank_line(e) + y;
    assert(mid =~= w1 + y);
    lemma_newline_pads(mid);
    let w2 = choose|w: Seq<char>| all_ws(w) && #[trigger] blank_line(mid) == mid + w;
    assert(blank_line(mid) =~= w1 + y + w2);
    lemma_trim_padded(w1, y, w2);
    let out = blank_line(mid);
    assert(e + trim(out) =~= trim(out));
    assert(trim(out) == tx);
    if c.clean_whitespace {
        assert forall|k: int| 0 <= k < tx.len() implies tx[k] != '\n' by {
            assert(is_ws('\n'));
            if tx[k] == '\n' {
                assert(tx[k] == ' ');
            }
        }
        assert(!Seq::<char>::empty().contains('\n'));
        lemma_breaks_plain(tx, Seq::empty());
        assert(Seq::<char>::empty() + tx =~= tx);
        assert(collapse_breaks(tx) == tx);
    }
}

/// The width of a column is the length of its longest cell: no cell of the
/// column is longer, and the width is 0 or the length of one of its cells.
pub proof fn law_column_width_is_longest_cell(rows: Seq<Seq<Seq<char>>>, j: int)
    ensures
        forall|r: int|
            0 <= r < rows.len() && 0 <= j < rows[r].len() ==> rows[r][j].len() <= col_width(
                rows,
                j,
            ),
        col_width(rows, j) == 0 || exists|r: int|
            0 <= r < rows.len() && 0 <= j < rows[r].len() && #[trigger] rows[r][j].len()
                == col_width(rows, j),
    decreases rows.len(),
{
    if rows.len() > 0 {
        let init = rows.drop_last();
        law_column_width_is_longest_cell(init, j);
        assert forall|r: int|
            0 <= r < rows.len() && 0 <= j < rows[r].len() implies rows[r][j].len() <= col_width(
            rows,
            j,
        ) by {
            if r < rows.len() - 1 {
                assert(rows[r] == init[r]);
            }
        }
        if col_width(rows, j) != 0 {
            if col_width(rows, j) != col_width(init, j) {
                let r = rows.len() - 1;
                assert(rows[r][j].len() == col_width(rows, j));
            } else {
                let r = choose|r: int|
                    0 <= r < init.len() && 0 <= j < init[r].len() && #[trigger] init[r][j].len()
                        == col_width(init, j);
                assert(rows[r] == init[r]);
            }
        }
    }
}

} // verus!
