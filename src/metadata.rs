//! Document metadata gathered from `meta` elements, and the front-matter
//! header written from it.
use vstd::prelude::*;
use crate::text::{eq_lit, push_chars, push_lit};

verus! {

pub struct Metadata {
    pub title: Option<Vec<char>>,
    pub author: Option<Vec<char>>,
    pub date: Option<Vec<char>>,
    pub description: Option<Vec<char>>,
    pub tags: Vec<Vec<char>>,
}

/// The metadata as plain sequences.
pub struct MetaView {
    pub title: Option<Seq<char>>,
    pub author: Option<Seq<char>>,
    pub date: Option<Seq<char>>,
    pub description: Option<Seq<char>>,
    pub tags: Seq<Seq<char>>,
}

pub open spec fn opt_view(o: Option<Vec<char>>) -> Option<Seq<char>> {
    match o {
        Some(v) => Some(v@),
        None => None,
    }
}

pub open spec fn seqs_view(v: Seq<Vec<char>>) -> Seq<Seq<char>> {
    v.map_values(|x: Vec<char>| x@)
}

pub open spec fn empty_meta() -> MetaView {
    MetaView { title: None, author: None, date: None, description: None, tags: Seq::empty() }
}

/// The metadata after a `meta` element with the given `property` and
/// `content` attributes: a recognised property sets its field (the last one
/// seen wins), `article:tag` adds a tag, anything else changes nothing.
pub open spec fn meta_update(
    m: MetaView,
    property: Option<Seq<char>>,
    content: Option<Seq<char>>,
) -> MetaView {
    match (property, content) {
        (Some(p), Some(v)) => if p == "og:title"@ {
            MetaView { title: Some(v), ..m }
        } else if p == "og:description"@ {
            MetaView { description: Some(v), ..m }
        } else if p == "article:author"@ {
            MetaView { author: Some(v), ..m }
        } else if p == "article:published_time"@ {
            MetaView { date: Some(v), ..m }
        } else if p == "article:tag"@ {
            MetaView { tags: m.tags.push(v), ..m }
        } else {
            m
        },
        _ => m,
    }
}

/// The first `n` tags joined by `", "`.
pub open spec fn join_tags(tags: Seq<Seq<char>>, n: int) -> Seq<char>
    decreases n,
{
    if n <= 0 {
        Seq::empty()
    } else if n == 1 {
        tags[0]
    } else {
        join_tags(tags, n - 1) + ", "@ + tags[n - 1]
    }
}

/// A `label value` line where the field is present.
pub open spec fn field_line(label: Seq<char>, f: Option<Seq<char>>) -> Seq<char> {
    match f {
        Some(v) => label + v + "\n"@,
        None => Seq::empty(),
    }
}

/// The front-matter header: a level-one heading for the title, then a block
/// between `---` lines with the author, date, description and tags present.
pub open spec fn front_matter(m: MetaView) -> Seq<char> {
    let head = match m.title {
        Some(t) => "# "@ + t + "\n\n"@,
        None => Seq::empty(),
    };
    let tags = if m.tags.len() > 0 {
        "Tags: "@ + join_tags(m.tags, m.tags.len() as int) + "\n"@
    } else {
        Seq::empty()
    };
    head + "---\n"@ + field_line("Author: "@, m.author) + field_line("Date: "@, m.date)
        + field_line("Description: "@, m.description) + tags + "---\n\n"@
}

fn push_field(out: &mut Vec<char>, label: &str, f: &Option<Vec<char>>)
    ensures
        final(out)@ == old(out)@ + field_line(label@, opt_view(*f)),
{
    match f {
        Some(v) => {
            push_lit(out, label);
            push_chars(out, v);
            push_lit(out, "\n");
            assert(out@ =~= old(out)@ + field_line(label@, opt_view(*f)));
        },
        None => {
            assert(out@ =~= old(out)@ + field_line(label@, opt_view(*f)));
        },
    }
}

pub open spec fn ref_view(o: Option<&Vec<char>>) -> Option<Seq<char>> {
    match o {
        Some(v) => Some(v@),
        None => None,
    }
}

fn copy_chars(v: &Vec<char>) -> (r: Vec<char>)
    ensures
        r@ == v@,
{
    let mut r: Vec<char> = Vec::new();
    push_chars(&mut r, v);
    r
}

impl Metadata {
    pub open spec fn view(&self) -> MetaView {
        MetaView {
            title: opt_view(self.title),
            author: opt_view(self.author),
            date: opt_view(self.date),
            description: opt_view(self.description),
            tags: seqs_view(self.tags@),
        }
    }

    /// No field set and no tag.
    pub fn new() -> (m: Metadata)
        ensures
            m@ == empty_meta(),
    {
        let m = Metadata { title: None, author: None, date: None, description: None, tags: Vec::new() };
        assert(m@.tags =~= Seq::<Seq<char>>::empty());
        m
    }

    /// Records a `meta` element with the given `property` and `content`
    /// attribute values.
    pub fn apply(&mut self, property: Option<&Vec<char>>, content: Option<&Vec<char>>)
        ensures
            final(self)@ == meta_update(old(self)@, ref_view(property), ref_view(content)),
    {
        match (property, content) {
            (Some(p), Some(v)) => {
                if eq_lit(p, "og:title") {
                    self.title = Some(copy_chars(v));
                } else if eq_lit(p, "og:description") {
                    self.description = Some(copy_chars(v));
                } else if eq_lit(p, "article:author") {
                    self.author = Some(copy_chars(v));
                } else if eq_lit(p, "article:published_time") {
                    self.date = Some(copy_chars(v));
                } else if eq_lit(p, "article:tag") {
                    let ghost before = self.tags@;
                    self.tags.push(copy_chars(v));
                    assert(seqs_view(self.tags@) =~= seqs_view(before).push(v@));
                }
            },
            _ => {},
        }
    }

    /// The front-matter header for this metadata.
    pub fn format_metadata(&self) -> (r: Vec<char>)
        ensures
            r@ == front_matter(self@),
    {
        let mut out: Vec<char> = Vec::new();
        match &self.title {
            Some(t) => {
                push_lit(&mut out, "# ");
                push_chars(&mut out, t);
                push_lit(&mut out, "\n\n");
            },
            None => {},
        }
        push_lit(&mut out, "---\n");
        push_field(&mut out, "Author: ", &self.author);
        push_field(&mut out, "Date: ", &self.date);
        push_field(&mut out, "Description: ", &self.description);
        let n = self.tags.len();
        if n > 0 {
            push_lit(&mut out, "Tags: ");
            let ghost start = out@;
            push_chars(&mut out, &self.tags[0]);
            let mut k: usize = 1;
            while k < n
                invariant
                    1 <= k <= n,
                    n == self.tags@.len(),
                    out@ == start + join_tags(self@.tags, k as int),
                decreases n - k,
            {
                push_lit(&mut out, ", ");
                push_chars(&mut out, &self.tags[k]);
                assert(out@ =~= start + join_tags(self@.tags, k + 1));
                k = k + 1;
            }
            push_lit(&mut out, "\n");
        }
        push_lit(&mut out, "---\n\n");
        assert(out@ =~= front_matter(self@));
        out
    }
}

} // verus!
