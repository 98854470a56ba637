use vstd::prelude::*;
use vstd::string::*;

use crate::color::{color_of, get_type_color, mime_of, ExtColor};
use crate::name::{ext_of, has_ext, lemma_last_dot_range, split_name, stem_of};

verus! {

/// How a piece of a label is shown; the colours themselves are applied only
/// when the label is printed.
#[derive(Clone, Copy, Debug, PartialEq, Eq, Structural)]
pub enum Style {
    /// The `/` in front of a directory name, in white.
    Slash,
    /// A directory name, yellow and underlined.
    DirName,
    /// The stem of a file that has an extension, light grey.
    Stem,
    /// A file name without extension, in the neutral pale blue.
    Bare,
    /// An extension, in the colour of its class.
    Ext(ExtColor),
    /// Separators, unstyled.
    Plain,
    /// A size, in blue.
    Size,
}

/// A run of text with one style.
pub struct Segment {
    pub text: String,
    pub style: Style,
}

/// A formatted entry: its segments, printed one after another.
pub struct Label {
    pub segments: Vec<Segment>,
}

pub open spec fn segment_view(s: Segment) -> (Seq<char>, Style) {
    (s.text@, s.style)
}

impl View for Label {
    type V = Seq<(Seq<char>, Style)>;

    open spec fn view(&self) -> Seq<(Seq<char>, Style)> {
        self.segments@.map_values(|s: Segment| segment_view(s))
    }
}

/// The characters a label shows, without any styling.
pub open spec fn visible_text(l: Seq<(Seq<char>, Style)>) -> Seq<char>
    decreases l.len(),
{
    if l.len() == 0 {
        Seq::empty()
    } else {
        visible_text(l.drop_last()) + l.last().0
    }
}

/// The number of characters a label takes on screen.
pub open spec fn visible_len(l: Seq<(Seq<char>, Style)>) -> nat {
    visible_text(l).len()
}

pub open spec fn opt_view(s: Option<&str>) -> Option<Seq<char>> {
    match s {
        Some(t) => Some(t@),
        None => None,
    }
}

/// What size mode appends: ` - ` and the size text.
pub open spec fn size_part(size: Option<Seq<char>>) -> Seq<(Seq<char>, Style)> {
    match size {
        Some(t) => seq![(" - "@, Style::Plain), (t, Style::Size)],
        None => Seq::empty(),
    }
}

/// The label of an entry: `/name` for a directory; `stem.ext` with the
/// extension coloured by its MIME class for a file with an extension; the bare
/// name otherwise; then the size, where one is given.
pub open spec fn label_of(name: Seq<char>, is_dir: bool, size: Option<Seq<char>>) -> Seq<
    (Seq<char>, Style),
> {
    let body = if is_dir {
        seq![("/"@, Style::Slash), (name, Style::DirName)]
    } else if has_ext(name) {
        let e = ext_of(name).unwrap();
        seq![
            (stem_of(name), Style::Stem),
            ("."@, Style::Plain),
            (e, Style::Ext(color_of(mime_of(e)))),
        ]
    } else {
        seq![(name, Style::Bare)]
    };
    body + size_part(size)
}

/// The visible text of two labels put together is the two texts put together.
pub proof fn lemma_visible_text_concat(a: Seq<(Seq<char>, Style)>, b: Seq<(Seq<char>, Style)>)
    ensures
        visible_text(a + b) == visible_text(a) + visible_text(b),
    decreases b.len(),
{
    if b.len() == 0 {
        assert(a + b =~= a);
        assert(visible_text(b) =~= Seq::empty());
        assert(visible_text(a) + visible_text(b) =~= visible_text(a));
    } else {
        lemma_visible_text_concat(a, b.drop_last());
        assert((a + b).drop_last() =~= a + b.drop_last());
        assert(visible_text(a) + visible_text(b) =~= visible_text(a) + visible_text(b.drop_last())
            + b.last().0);
    }
}

proof fn lemma_visible_len_prefix(l: Seq<(Seq<char>, Style)>, i: int)
    requires
        0 <= i <= l.len(),
    ensures
        visible_len(l.subrange(0, i)) <= visible_len(l),
    decreases l.len() - i,
{
    if i < l.len() {
        lemma_visible_len_prefix(l, i + 1);
        assert(l.subrange(0, i + 1).drop_last() =~= l.subrange(0, i));
    } else {
        assert(l.subrange(0, i) =~= l);
    }
}

proof fn lemma_visible_len_small(
    a: (Seq<char>, Style),
    b: (Seq<char>, Style),
    c: (Seq<char>, Style),
)
    ensures
        visible_len(seq![a]) == a.0.len(),
        visible_len(seq![a, b]) == a.0.len() + b.0.len(),
        visible_len(seq![a, b, c]) == a.0.len() + b.0.len() + c.0.len(),
{
    assert(seq![a, b, c].drop_last() =~= seq![a, b]);
    assert(seq![a, b].drop_last() =~= seq![a]);
    assert(seq![a].drop_last() =~= Seq::<(Seq<char>, Style)>::empty());
    assert(visible_text(Seq::<(Seq<char>, Style)>::empty()) =~= Seq::<char>::empty());
    assert(visible_text(seq![a]) =~= a.0);
    assert(visible_text(seq![a, b]) =~= a.0 + b.0);
    assert(visible_text(seq![a, b, c]) =~= a.0 + b.0 + c.0);
}

/// The number of characters that size mode adds for a size text.
pub open spec fn size_len(size: Option<Seq<char>>) -> nat {
    match size {
        Some(t) => t.len() + 3,
        None => 0,
    }
}

/// A label is never wider than its name, a slash, and its size part.
pub proof fn lemma_label_len(name: Seq<char>, is_dir: bool, size: Option<Seq<char>>)
    ensures
        visible_len(label_of(name, is_dir, size)) <= name.len() + 1 + size_len(size),
{
    broadcast use vstd::string::group_string_axioms;

    reveal_strlit("/");
    reveal_strlit(".");
    reveal_strlit(" - ");
    assert(" - "@.len() == 3);
    assert("/"@.len() == 1);
    assert("."@.len() == 1);
    let body = if is_dir {
        seq![("/"@, Style::Slash), (name, Style::DirName)]
    } else if has_ext(name) {
        let e = ext_of(name).unwrap();
        seq![
            (stem_of(name), Style::Stem),
            ("."@, Style::Plain),
            (e, Style::Ext(color_of(mime_of(e)))),
        ]
    } else {
        seq![(name, Style::Bare)]
    };
    lemma_visible_text_concat(body, size_part(size));
    lemma_last_dot_range(name);
    if is_dir {
        lemma_visible_len_small(("/"@, Style::Slash), (name, Style::DirName), ("/"@, Style::Slash));
    } else if has_ext(name) {
        let e = ext_of(name).unwrap();
        lemma_visible_len_small(
            (stem_of(name), Style::Stem),
            ("."@, Style::Plain),
            (e, Style::Ext(color_of(mime_of(e)))),
        );
    } else {
        lemma_visible_len_small((name, Style::Bare), (name, Style::Bare), (name, Style::Bare));
    }
    match size {
        Some(t) => {
            lemma_visible_len_small((" - "@, Style::Plain), (t, Style::Size), (t, Style::Size));
        },
        None => {
            assert(size_part(size) =~= Seq::<(Seq<char>, Style)>::empty());
        },
    }
}

/// A directory always shows as a slash and its whole name, underlined, and
/// never as a file with an extension.
pub proof fn lemma_dir_label(name: Seq<char>, size: Option<Seq<char>>)
    ensures
        label_of(name, true, size)[0] == ("/"@, Style::Slash),
        label_of(name, true, size)[1] == (name, Style::DirName),
        forall|i: int|
            0 <= i < label_of(name, true, size).len() ==> !(#[trigger] label_of(
                name,
                true,
                size,
            )[i].1 is Ext),
{
}

/// A file without extension shows its whole name in the neutral style, and
/// no piece of its label is styled as an extension.
pub proof fn lemma_bare_file_label(name: Seq<char>, size: Option<Seq<char>>)
    requires
        !has_ext(name),
    ensures
        label_of(name, false, size)[0] == (name, Style::Bare),
        forall|i: int|
            0 <= i < label_of(name, false, size).len() ==> !(#[trigger] label_of(
                name,
                false,
                size,
            )[i].1 is Ext),
{
}

impl Label {
    /// The number of characters the label takes on screen.
    pub fn width(&self) -> (r: usize)
        requires
            visible_len(self@) <= usize::MAX,
        ensures
            r == visible_len(self@),
    {
        let n = self.segments.len();
        let mut acc: usize = 0;
        let mut i: usize = 0;
        while i < n
            invariant
                n == self.segments@.len(),
                i <= n,
                visible_len(self@) <= usize::MAX,
                acc == visible_len(self@.subrange(0, i as int)),
            decreases n - i,
        {
            proof {
                lemma_visible_len_prefix(self@, i + 1);
                assert(self@.subrange(0, i + 1).drop_last() =~= self@.subrange(0, i as int));
            }
            acc = acc + self.segments[i].text.as_str().unicode_len();
            i = i + 1;
        }
        assert(self@.subrange(0, n as int) =~= self@);
        acc
    }
}

fn segment(text: &str, style: Style) -> (r: Segment)
    ensures
        segment_view(r) == (text@, style),
{
    Segment { text: String::from_str(text), style }
}

/// Formats one directory entry: `name` is its file name, `is_dir` whether it
/// is a directory, and `size` its size text in size mode.
pub fn entry_label(name: &str, is_dir: bool, size: Option<&str>) -> (r: Label)
    ensures
        r@ == label_of(name@, is_dir, opt_view(size)),
{
    let mut segments: Vec<Segment> = Vec::new();
    if is_dir {
        segments.push(segment("/", Style::Slash));
        segments.push(segment(name, Style::DirName));
    } else {
        let parts = split_name(name);
        match parts.ext {
            Some(e) => {
                let color = get_type_color(e.as_str());
                segments.push(Segment { text: parts.stem, style: Style::Stem });
                segments.push(segment(".", Style::Plain));
                segments.push(Segment { text: e, style: Style::Ext(color) });
            },
            None => {
                segments.push(Segment { text: parts.stem, style: Style::Bare });
            },
        }
    }
    match size {
        Some(t) => {
            segments.push(segment(" - ", Style::Plain));
            segments.push(segment(t, Style::Size));
        },
        None => {},
    }
    let r = Label { segments };
    assert(r@ =~= label_of(name@, is_dir, opt_view(size)));
    r
}

} // verus!
