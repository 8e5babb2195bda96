//! What a message says: one or more pieces of text or image references.

use vstd::prelude::*;
use vstd::string::StringExecFns;

verus! {

/// One piece of content.
#[derive(Debug, PartialEq, Eq)]
pub enum ContentKind {
    /// Plain text.
    Text { text: String },
    /// An image reference with an optional media type.
    Image { image: String, mime_type: Option<String> },
}

/// The mathematical value of a [`ContentKind`].
pub enum ContentKindView {
    Text { text: Seq<char> },
    Image { image: Seq<char>, mime_type: Option<Seq<char>> },
}

/// The characters of an optional string.
pub open spec fn opt_text(s: Option<String>) -> Option<Seq<char>> {
    match s {
        Some(t) => Some(t@),
        None => None,
    }
}

/// Copies an optional string.
pub fn clone_opt_string(s: &Option<String>) -> (r: Option<String>)
    ensures
        opt_text(r) == opt_text(*s),
{
    match s {
        Some(t) => Some(t.clone()),
        None => None,
    }
}

impl View for ContentKind {
    type V = ContentKindView;

    open spec fn view(&self) -> ContentKindView {
        match *self {
            ContentKind::Text { text } => ContentKindView::Text { text: text@ },
            ContentKind::Image { image, mime_type } => ContentKindView::Image {
                image: image@,
                mime_type: opt_text(mime_type),
            },
        }
    }
}

impl ContentKindView {
    /// The characters that stand for the piece when content is shown as
    /// text: the text itself, or the image reference.
    pub open spec fn shown(self) -> Seq<char> {
        match self {
            ContentKindView::Text { text } => text,
            ContentKindView::Image { image, .. } => image,
        }
    }
}

impl Clone for ContentKind {
    fn clone(&self) -> (r: Self)
        ensures
            r@ == self@,
    {
        match self {
            ContentKind::Text { text } => ContentKind::Text { text: text.clone() },
            ContentKind::Image { image, mime_type } => ContentKind::Image {
                image: image.clone(),
                mime_type: clone_opt_string(mime_type),
            },
        }
    }
}

impl ContentKind {
    /// A text piece.
    pub fn text(text: String) -> (r: Self)
        ensures
            r@ == (ContentKindView::Text { text: text@ }),
    {
        ContentKind::Text { text }
    }

    /// An image piece.
    pub fn image(image: String, mime_type: Option<String>) -> (r: Self)
        ensures
            r@ == (ContentKindView::Image { image: image@, mime_type: opt_text(mime_type) }),
    {
        ContentKind::Image { image, mime_type }
    }

    /// The string that stands for the piece when content is shown as text.
    pub fn shown(&self) -> (r: String)
        ensures
            r@ == self@.shown(),
    {
        match self {
            ContentKind::Text { text } => text.clone(),
            ContentKind::Image { image, .. } => image.clone(),
        }
    }
}

/// The content of a message: a single piece, or an ordered list of pieces.
#[derive(Debug, PartialEq, Eq)]
pub enum Content {
    Single(ContentKind),
    Multiple(Vec<ContentKind>),
}

/// The mathematical value of a [`Content`].
pub enum ContentView {
    Single(ContentKindView),
    Multiple(Seq<ContentKindView>),
}

/// The values of a list of pieces, in order.
pub open spec fn kinds_view(items: Seq<ContentKind>) -> Seq<ContentKindView> {
    Seq::new(items.len(), |i: int| items[i]@)
}

/// A list of strings as text pieces, in order.
pub open spec fn text_kinds(texts: Seq<String>) -> Seq<ContentKindView> {
    Seq::new(texts.len(), |i: int| ContentKindView::Text { text: texts[i]@ })
}

impl View for Content {
    type V = ContentView;

    open spec fn view(&self) -> ContentView {
        match *self {
            Content::Single(kind) => ContentView::Single(kind@),
            Content::Multiple(items) => ContentView::Multiple(kinds_view(items@)),
        }
    }
}

/// The lines joined with a newline between neighbours.
pub open spec fn join_lines(lines: Seq<Seq<char>>) -> Seq<char>
    decreases lines.len(),
{
    if lines.len() == 0 {
        Seq::empty()
    } else if lines.len() == 1 {
        lines[0]
    } else {
        join_lines(lines.drop_last()) + seq!['\n'] + lines.last()
    }
}

/// The texts of the text pieces of a list, in order; images are left out.
pub open spec fn texts_of(items: Seq<ContentKindView>) -> Seq<Seq<char>>
    decreases items.len(),
{
    if items.len() == 0 {
        Seq::empty()
    } else {
        match items.last() {
            ContentKindView::Text { text } => texts_of(items.drop_last()).push(text),
            ContentKindView::Image { .. } => texts_of(items.drop_last()),
        }
    }
}

impl ContentView {
    /// The pieces in order, a single piece as a list of one.
    pub open spec fn items(self) -> Seq<ContentKindView> {
        match self {
            ContentView::Single(kind) => seq![kind],
            ContentView::Multiple(items) => items,
        }
    }

    /// The content as text: each piece as [`ContentKindView::shown`] gives
    /// it, one per line.
    pub open spec fn shown(self) -> Seq<char> {
        join_lines(self.items().map_values(|k: ContentKindView| k.shown()))
    }

    /// The text that the content carries: the text of a single text piece,
    /// or the texts of a list joined by newlines. A single image, or a
    /// list without any text piece, carries none.
    pub open spec fn text(self) -> Option<Seq<char>> {
        match self {
            ContentView::Single(ContentKindView::Text { text }) => Some(text),
            ContentView::Single(ContentKindView::Image { .. }) => None,
            ContentView::Multiple(items) => if texts_of(items).len() == 0 {
                None
            } else {
                Some(join_lines(texts_of(items)))
            },
        }
    }
}

/// Appends `line` to `acc` as one more line: after a newline, unless it is
/// the first.
fn push_line(acc: &mut String, first: bool, line: &str)
    ensures
        final(acc)@ == if first {
            old(acc)@ + line@
        } else {
            old(acc)@ + seq!['\n'] + line@
        },
{
    if !first {
        proof {
            reveal_strlit("\n");
        }
        assert("\n"@ =~= seq!['\n']);
        acc.append("\n");
    }
    acc.append(line);
}

proof fn lemma_join_lines_push(lines: Seq<Seq<char>>, line: Seq<char>)
    ensures
        join_lines(lines.push(line)) == if lines.len() == 0 {
            line
        } else {
            join_lines(lines) + seq!['\n'] + line
        },
{
    assert(lines.push(line).drop_last() =~= lines);
    if lines.len() == 0 {
        assert(Seq::<char>::empty() + line =~= line);
    }
}

impl Clone for Content {
    fn clone(&self) -> (r: Self)
        ensures
            r@ == self@,
    {
        match self {
            Content::Single(kind) => Content::Single(kind.clone()),
            Content::Multiple(items) => {
                let mut copy: Vec<ContentKind> = Vec::new();
                let mut i: usize = 0;
                while i < items.len()
                    invariant
                        i <= items.len(),
                        copy.len() == i,
                        forall|j: int| 0 <= j < i ==> copy@[j]@ == items@[j]@,
                    decreases items.len() - i,
                {
                    copy.push(items[i].clone());
                    i += 1;
                }
                assert(kinds_view(copy@) =~= kinds_view(items@));
                Content::Multiple(copy)
            },
        }
    }
}

impl Content {
    /// Content made of one text piece.
    pub fn from_text(text: String) -> (r: Self)
        ensures
            r@ == ContentView::Single(ContentKindView::Text { text: text@ }),
    {
        Content::Single(ContentKind::Text { text })
    }

    /// Content made of one text piece for each string, in order.
    pub fn from_texts(texts: Vec<String>) -> (r: Self)
        ensures
            r@ == ContentView::Multiple(text_kinds(texts@)),
    {
        let mut items: Vec<ContentKind> = Vec::new();
        let mut i: usize = 0;
        while i < texts.len()
            invariant
                i <= texts.len(),
                items.len() == i,
                forall|j: int|
                    0 <= j < i ==> items@[j]@ == (ContentKindView::Text { text: texts@[j]@ }),
            decreases texts.len() - i,
        {
            items.push(ContentKind::Text { text: texts[i].clone() });
            i += 1;
        }
        assert(kinds_view(items@) =~= text_kinds(texts@));
        Content::Multiple(items)
    }

    /// Content made of one piece.
    pub fn from_kind(kind: ContentKind) -> (r: Self)
        ensures
            r@ == ContentView::Single(kind@),
    {
        Content::Single(kind)
    }

    /// Content made of a list of pieces.
    pub fn from_kinds(kinds: Vec<ContentKind>) -> (r: Self)
        ensures
            r@ == ContentView::Multiple(kinds_view(kinds@)),
    {
        Content::Multiple(kinds)
    }

    /// The content as text, one piece per line.
    pub fn to_string(&self) -> (r: String)
        ensures
            r@ == self@.shown(),
    {
        match self {
            Content::Single(kind) => {
                assert(self@.items().map_values(|k: ContentKindView| k.shown()) =~= seq![
                    kind@.shown(),
                ]);
                kind.shown()
            },
            Content::Multiple(items) => {
                let ghost lines = self@.items().map_values(|k: ContentKindView| k.shown());
                let mut out = String::new();
                let mut i: usize = 0;
                while i < items.len()
                    invariant
                        i <= items.len(),
                        lines.len() == items.len(),
                        forall|j: int| 0 <= j < items.len() ==> lines[j] == items@[j]@.shown(),
                        out@ == join_lines(lines.take(i as int)),
                    decreases items.len() - i,
                {
                    let line = items[i].shown();
                    proof {
                        lemma_join_lines_push(lines.take(i as int), lines[i as int]);
                        assert(lines.take(i as int).push(lines[i as int]) =~= lines.take(
                            i as int + 1,
                        ));
                    }
                    push_line(&mut out, i == 0, line.as_str());
                    proof {
                        if i == 0 {
                            assert(Seq::<char>::empty() + line@ =~= line@);
                        }
                    }
                    i += 1;
                }
                assert(lines.take(items.len() as int) =~= lines);
                out
            },
        }
    }
}

impl From<String> for Content {
    fn from(text: String) -> (content: Self)
        ensures
            content@ == ContentView::Single(ContentKindView::Text { text: text@ }),
    {
        Content::Single(ContentKind::Text { text })
    }
}

impl vstd::std_specs::convert::FromSpecImpl<String> for Content {
    open spec fn obeys_from_spec() -> bool {
        true
    }

    open spec fn from_spec(text: String) -> Self {
        Content::Single(ContentKind::Text { text })
    }
}

impl From<Vec<String>> for Content {
    fn from(texts: Vec<String>) -> (content: Self)
        ensures
            content@ == ContentView::Multiple(text_kinds(texts@)),
    {
        Content::from_texts(texts)
    }
}

impl vstd::std_specs::convert::FromSpecImpl<Vec<String>> for Content {
    /// The conversion builds a new list, of which `from` states the value
    /// and nothing else.
    open spec fn obeys_from_spec() -> bool {
        false
    }

    open spec fn from_spec(texts: Vec<String>) -> Self {
        choose|content: Content| content@ == ContentView::Multiple(text_kinds(texts@))
    }
}

proof fn lemma_texts_of_push(items: Seq<ContentKindView>, kind: ContentKindView)
    ensures
        texts_of(items.push(kind)) == match kind {
            ContentKindView::Text { text } => texts_of(items).push(text),
            ContentKindView::Image { .. } => texts_of(items),
        },
{
    assert(items.push(kind).drop_last() =~= items);
}

/// The text that `content` carries, if it carries any.
pub fn extract_text_content(content: &Content) -> (r: Option<String>)
    ensures
        opt_text(r) == content@.text(),
{
    match content {
        Content::Single(ContentKind::Text { text }) => Some(text.clone()),
        Content::Single(ContentKind::Image { .. }) => None,
        Content::Multiple(items) => {
            let ghost all = kinds_view(items@);
            let mut out = String::new();
            let mut found: bool = false;
            let mut i: usize = 0;
            while i < items.len()
                invariant
                    i <= items.len(),
                    all == kinds_view(items@),
                    found == (texts_of(all.take(i as int)).len() > 0),
                    out@ == join_lines(texts_of(all.take(i as int))),
                decreases items.len() - i,
            {
                proof {
                    lemma_texts_of_push(all.take(i as int), all[i as int]);
                    assert(all.take(i as int).push(all[i as int]) =~= all.take(i as int + 1));
                }
                match &items[i] {
                    ContentKind::Text { text } => {
                        proof {
                            lemma_join_lines_push(texts_of(all.take(i as int)), text@);
                        }
                        push_line(&mut out, !found, text.as_str());
                        proof {
                            if !found {
                                assert(texts_of(all.take(i as int)) =~= Seq::empty());
                                assert(Seq::<char>::empty() + text@ =~= text@);
                            }
                        }
                        found = true;
                    },
                    ContentKind::Image { .. } => {},
                }
                i += 1;
            }
            assert(all.take(items.len() as int) =~= all);
            if found {
                Some(out)
            } else {
                None
            }
        },
    }
}

} // verus!
