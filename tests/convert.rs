use html2md_core::{convert, CleaningRules, Config, Tree};

fn el(t: &mut Tree, parent: usize, tag: &str) -> usize {
    t.add_element(parent, tag).unwrap()
}

fn txt(t: &mut Tree, parent: usize, s: &str) {
    t.add_text(parent, s).unwrap();
}

fn attr(t: &mut Tree, node: usize, name: &str, value: &str) {
    assert!(t.add_attr(node, name, value));
}

fn all_off() -> Config {
    Config::default()
}

#[test]
fn table_column_widths_follow_longest_cell() {
    let mut t = Tree::new();
    let table = el(&mut t, 0, "table");
    for row in [["a", "bb"], ["ccc", "d"]] {
        let tr = el(&mut t, table, "tr");
        for cell in row {
            let td = el(&mut t, tr, "td");
            txt(&mut t, td, cell);
        }
    }
    assert_eq!(convert(&t, &all_off()), "| a   | bb |\n| --- | -- |\n| ccc | d  |");
}

#[test]
fn table_extra_cells_are_dropped_and_header_cells_count() {
    let mut t = Tree::new();
    let table = el(&mut t, 0, "table");
    let tr = el(&mut t, table, "tr");
    let th = el(&mut t, tr, "th");
    txt(&mut t, th, " Name ");
    let tr2 = el(&mut t, table, "tr");
    for cell in ["x", "extra"] {
        let td = el(&mut t, tr2, "td");
        txt(&mut t, td, cell);
    }
    // an empty row is not kept
    el(&mut t, table, "tr");
    assert_eq!(convert(&t, &all_off()), "| Name |\n| ---- |\n| x    |");
}

#[test]
fn heading_above_cap_is_dropped() {
    let mut c = all_off();
    c.preserve_headings = true;
    c.max_heading_level = 2;
    let mut t = Tree::new();
    let h3 = el(&mut t, 0, "h3");
    txt(&mut t, h3, "Sub");
    assert_eq!(convert(&t, &c), "");
    let mut t = Tree::new();
    let h2 = el(&mut t, 0, "h2");
    txt(&mut t, h2, "Title");
    assert_eq!(convert(&t, &c), "## Title");
}

#[test]
fn headings_need_preserve_headings() {
    let mut t = Tree::new();
    let h1 = el(&mut t, 0, "h1");
    txt(&mut t, h1, "Title");
    let p = el(&mut t, 0, "p");
    txt(&mut t, p, "Body");
    assert_eq!(convert(&t, &all_off()), "Body");
    let mut c = all_off();
    c.preserve_headings = true;
    assert_eq!(convert(&t, &c), "# Title\n\nBody");
    c.max_heading_level = 0;
    assert_eq!(convert(&t, &c), "Body");
}

#[test]
fn link_equal_to_its_target_becomes_autolink() {
    let mut c = all_off();
    c.include_links = true;
    let mut t = Tree::new();
    let a = el(&mut t, 0, "a");
    attr(&mut t, a, "href", "http://x.com");
    txt(&mut t, a, "http://x.com");
    assert_eq!(convert(&t, &c), "<http://x.com>");
    let mut t = Tree::new();
    let a = el(&mut t, 0, "a");
    attr(&mut t, a, "href", "http://x.com");
    txt(&mut t, a, "Click");
    assert_eq!(convert(&t, &c), "[Click](http://x.com)");
}

#[test]
fn link_text_only_when_links_off_or_no_target() {
    let mut t = Tree::new();
    let p = el(&mut t, 0, "p");
    txt(&mut t, p, "see ");
    let a = el(&mut t, p, "a");
    attr(&mut t, a, "href", "http://x.com");
    txt(&mut t, a, "here");
    assert_eq!(convert(&t, &all_off()), "see here");
    let mut c = all_off();
    c.include_links = true;
    let mut t = Tree::new();
    let a = el(&mut t, 0, "a");
    attr(&mut t, a, "name", "top");
    txt(&mut t, a, "anchor");
    assert_eq!(convert(&t, &c), "anchor");
}

#[test]
fn empty_link_text_gives_autolink() {
    let mut c = all_off();
    c.include_links = true;
    let mut t = Tree::new();
    let a = el(&mut t, 0, "a");
    attr(&mut t, a, "href", "http://y.org");
    txt(&mut t, a, "   ");
    assert_eq!(convert(&t, &c), "<http://y.org>");
}

#[test]
fn nested_lists_indent_and_restart_numbering() {
    let mut t = Tree::new();
    let ul = el(&mut t, 0, "ul");
    let li = el(&mut t, ul, "li");
    txt(&mut t, li, "A");
    let inner = el(&mut t, li, "ul");
    let li2 = el(&mut t, inner, "li");
    txt(&mut t, li2, "B");
    assert_eq!(convert(&t, &all_off()), "* A\n  * B");
}

#[test]
fn ordered_lists_count_from_one_in_each_scope() {
    let mut t = Tree::new();
    let ol = el(&mut t, 0, "ol");
    for item in ["x", "y"] {
        let li = el(&mut t, ol, "li");
        txt(&mut t, li, item);
    }
    // a non-item child is passed over
    let stray = el(&mut t, ol, "span");
    txt(&mut t, stray, "ignored");
    let ol2 = el(&mut t, 0, "ol");
    let li = el(&mut t, ol2, "li");
    txt(&mut t, li, "z");
    assert_eq!(convert(&t, &all_off()), "1. x\n2. y\n1. z");
}

#[test]
fn meta_tags_keep_their_order() {
    let mut c = all_off();
    c.include_metadata = true;
    let mut t = Tree::new();
    let head = el(&mut t, 0, "head");
    for v in ["x", "y"] {
        let m = el(&mut t, head, "meta");
        attr(&mut t, m, "property", "article:tag");
        attr(&mut t, m, "content", v);
    }
    assert_eq!(convert(&t, &c), "---\nTags: x, y\n---");
}

#[test]
fn front_matter_lists_every_field() {
    let mut c = all_off();
    c.include_metadata = true;
    let mut t = Tree::new();
    let head = el(&mut t, 0, "head");
    for (p, v) in [
        ("og:title", "First"),
        ("og:title", "Doc"),
        ("article:author", "Ann"),
        ("article:published_time", "2024-01-02"),
        ("og:description", "About"),
        ("og:unknown", "skip"),
    ] {
        let m = el(&mut t, head, "meta");
        attr(&mut t, m, "property", p);
        attr(&mut t, m, "content", v);
    }
    let p = el(&mut t, 0, "p");
    txt(&mut t, p, "Body");
    assert_eq!(
        convert(&t, &c),
        "# Doc\n\n---\nAuthor: Ann\nDate: 2024-01-02\nDescription: About\n---\n\nBody"
    );
    // without metadata wanted, meta elements say nothing
    assert_eq!(convert(&t, &all_off()), "Body");
}

#[test]
fn pre_fence_takes_language_class() {
    let mut t = Tree::new();
    let pre = el(&mut t, 0, "pre");
    attr(&mut t, pre, "class", "foo language-rust bar");
    txt(&mut t, pre, "fn main() {}");
    assert_eq!(convert(&t, &all_off()), "```rust\nfn main() {}\n```");
}

#[test]
fn pre_keeps_whitespace_under_cleaning() {
    let mut c = all_off();
    c.clean_whitespace = true;
    c.cleaning_rules.preserve_line_breaks = true;
    let mut t = Tree::new();
    let pre = el(&mut t, 0, "pre");
    txt(&mut t, pre, "a  b");
    assert_eq!(convert(&t, &c), "```\na  b\n```");
}

#[test]
fn emphasis_output_is_kept_literally() {
    let mut t = Tree::new();
    let p = el(&mut t, 0, "p");
    let b = el(&mut t, p, "strong");
    txt(&mut t, b, "bold");
    txt(&mut t, p, " and ");
    let i = el(&mut t, p, "em");
    txt(&mut t, i, "it");
    let first = convert(&t, &all_off());
    assert_eq!(first, "**bold** and *it*");
    let mut t2 = Tree::new();
    let p2 = el(&mut t2, 0, "p");
    txt(&mut t2, p2, &first);
    assert_eq!(convert(&t2, &all_off()), first);
}

#[test]
fn inline_markers_for_each_tag() {
    let mut t = Tree::new();
    for tag in ["b", "i", "mark", "del", "ins"] {
        let e = el(&mut t, 0, tag);
        txt(&mut t, e, "x");
    }
    let code = el(&mut t, 0, "code");
    txt(&mut t, code, "y");
    assert_eq!(convert(&t, &all_off()), "**x***x*==x==~~x~~__x__`y`");
}

#[test]
fn image_with_and_without_source() {
    let mut t = Tree::new();
    let img = el(&mut t, 0, "img");
    attr(&mut t, img, "src", "a.png");
    attr(&mut t, img, "alt", "A");
    let bare = el(&mut t, 0, "img");
    attr(&mut t, bare, "alt", "no source");
    let img2 = el(&mut t, 0, "img");
    attr(&mut t, img2, "src", "b.png");
    assert_eq!(convert(&t, &all_off()), "![A](a.png)\n![](b.png)");
}

#[test]
fn whitespace_cleaning_collapses_runs() {
    let mut c = all_off();
    c.clean_whitespace = true;
    let mut t = Tree::new();
    let p = el(&mut t, 0, "p");
    txt(&mut t, p, "  one \t two\n three  ");
    let p2 = el(&mut t, 0, "p");
    txt(&mut t, p2, "four");
    txt(&mut t, 0, " \n ");
    assert_eq!(convert(&t, &c), "one two three\n\nfour");
}

#[test]
fn blank_lines_between_blocks_stay_single() {
    let mut t = Tree::new();
    let d = el(&mut t, 0, "div");
    let p = el(&mut t, d, "p");
    txt(&mut t, p, "a");
    let s = el(&mut t, 0, "section");
    let p2 = el(&mut t, s, "p");
    txt(&mut t, p2, "b");
    assert_eq!(convert(&t, &all_off()), "a\n\nb");
}

#[test]
fn line_break_runs_collapse_when_cleaning() {
    let mut c = all_off();
    c.clean_whitespace = true;
    let mut t = Tree::new();
    let pre = el(&mut t, 0, "pre");
    txt(&mut t, pre, "x \n\n\n y  z");
    assert_eq!(convert(&t, &c), "```\n\nx\n\ny  z\n\n```");
}

#[test]
fn cleaning_rules_remove_scripts_styles_comments() {
    let mut t = Tree::new();
    let s = el(&mut t, 0, "script");
    txt(&mut t, s, "var a;");
    let st = el(&mut t, 0, "style");
    txt(&mut t, st, "p {}");
    t.add_comment(0, "note").unwrap();
    let p = el(&mut t, 0, "p");
    txt(&mut t, p, "kept");
    assert_eq!(convert(&t, &all_off()), "var a;p {}\n\nkept");
    let mut c = all_off();
    c.cleaning_rules = CleaningRules {
        remove_scripts: true,
        remove_styles: true,
        remove_comments: true,
        preserve_line_breaks: false,
    };
    assert_eq!(convert(&t, &c), "kept");
}

#[test]
fn empty_tree_gives_empty_text() {
    let t = Tree::new();
    assert_eq!(convert(&t, &all_off()), "");
    let mut c = all_off();
    c.include_links = true;
    c.clean_whitespace = true;
    c.preserve_headings = true;
    assert_eq!(convert(&t, &c), "");
}

#[test]
fn deep_nesting_does_not_fail() {
    let mut t = Tree::new();
    let mut parent = 0;
    for _ in 0..300 {
        let ul = el(&mut t, parent, "ul");
        parent = el(&mut t, ul, "li");
    }
    txt(&mut t, parent, "deep");
    let out = convert(&t, &all_off());
    assert!(out.starts_with("*"));
    assert!(out.ends_with("* deep"));
}

#[test]
fn builder_rejects_unknown_parent() {
    let mut t = Tree::new();
    assert_eq!(t.add_element(5, "p"), None);
    assert!(!t.add_attr(0, "class", "x"));
    assert_eq!(t.len(), 1);
}

#[test]
fn nested_ordered_lists_number_each_scope() {
    let mut t = Tree::new();
    let ol = el(&mut t, 0, "ol");
    let li = el(&mut t, ol, "li");
    txt(&mut t, li, "x");
    let inner = el(&mut t, li, "ol");
    for item in ["y", "z"] {
        let l = el(&mut t, inner, "li");
        txt(&mut t, l, item);
    }
    let li2 = el(&mut t, ol, "li");
    txt(&mut t, li2, "w");
    let ol2 = el(&mut t, 0, "ol");
    let li3 = el(&mut t, ol2, "li");
    txt(&mut t, li3, "v");
    assert_eq!(convert(&t, &all_off()), "1. x\n   1. y\n   2. z\n2. w\n1. v");
}

#[test]
fn long_ordered_list_counts_past_255() {
    let mut t = Tree::new();
    let ol = el(&mut t, 0, "ol");
    for _ in 0..300 {
        let li = el(&mut t, ol, "li");
        txt(&mut t, li, "x");
    }
    let out = convert(&t, &all_off());
    let expected: Vec<String> = (1..=300).map(|n| format!("{}. x", n)).collect();
    assert_eq!(out, expected.join("\n"));
}

#[test]
fn link_inside_table_cell_stays_in_cell() {
    let mut c = all_off();
    c.include_links = true;
    let mut t = Tree::new();
    let table = el(&mut t, 0, "table");
    let tr = el(&mut t, table, "tr");
    let td = el(&mut t, tr, "td");
    let a = el(&mut t, td, "a");
    attr(&mut t, a, "href", "u");
    txt(&mut t, a, "Click");
    assert_eq!(convert(&t, &c), "| [Click](u) |\n| ---------- |");
}

#[test]
fn tags_line_survives_whitespace_cleaning() {
    let mut c = all_off();
    c.include_metadata = true;
    c.clean_whitespace = true;
    let mut t = Tree::new();
    for v in ["x", "y"] {
        let m = el(&mut t, 0, "meta");
        attr(&mut t, m, "property", "article:tag");
        attr(&mut t, m, "content", v);
    }
    let out = convert(&t, &c);
    assert!(out.lines().any(|l| l == "Tags: x, y"));
    assert_eq!(out, "---\n\nTags: x, y\n\n---");
}
