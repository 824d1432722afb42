use vstd::prelude::*;

verus! {

/// The origin marker that the tagged representation attaches to its text.
#[derive(Clone, Copy, Debug, PartialEq, Eq, Structural)]
pub enum Tag {
    Internal,
    External,
}

/// Text together with the origin marker it was tagged with.
#[derive(Debug)]
pub struct Tagged {
    pub tag: Tag,
    pub text: String,
}

/// Mathematical value of a `Tagged`.
pub struct TaggedView {
    pub tag: Tag,
    pub text: Seq<char>,
}

impl View for Tagged {
    type V = TaggedView;

    open spec fn view(&self) -> TaggedView {
        TaggedView { tag: self.tag, text: self.text@ }
    }
}

/// A payload in one of its two representations.
#[derive(Debug)]
pub enum Payload {
    Plain(String),
    Tagged(Tagged),
}

/// Mathematical value of a `Payload`.
pub enum PayloadView {
    Plain(Seq<char>),
    Tagged(TaggedView),
}

impl View for Payload {
    type V = PayloadView;

    open spec fn view(&self) -> PayloadView {
        match self {
            Payload::Plain(s) => PayloadView::Plain(s@),
            Payload::Tagged(t) => PayloadView::Tagged(t@),
        }
    }
}

/// Tagging a plain text: the text is kept and the given tag attached.
pub open spec fn tagged_of(plain: Seq<char>, tag: Tag) -> TaggedView {
    TaggedView { tag, text: plain }
}

/// Dropping the tag: only the text is kept.
pub open spec fn plain_of(tagged: TaggedView) -> Seq<char> {
    tagged.text
}

/// The text a payload carries, whatever its representation.
pub open spec fn text_of(p: PayloadView) -> Seq<char> {
    match p {
        PayloadView::Plain(s) => s,
        PayloadView::Tagged(t) => plain_of(t),
    }
}

/// Converts a plain text into the tagged representation under `tag`.
pub fn to_tagged(plain: String, tag: Tag) -> (r: Tagged)
    ensures
        r@ == tagged_of(plain@, tag),
{
    Tagged { tag, text: plain }
}

/// Converts a tagged text into the plain representation, dropping the tag.
pub fn to_plain(tagged: Tagged) -> (r: String)
    ensures
        r@ == plain_of(tagged@),
{
    tagged.text
}

/// Bridging loses no content: tagging a text under any tag and dropping the
/// tag again gives back the text.
pub proof fn lemma_bridge_round_trip(plain: Seq<char>, tag: Tag)
    ensures
        plain_of(tagged_of(plain, tag)) == plain,
{
}

impl Payload {
    /// The carried text, in the plain representation.
    pub fn into_text(self) -> (r: String)
        ensures
            r@ == text_of(self@),
    {
        match self {
            Payload::Plain(s) => s,
            Payload::Tagged(t) => to_plain(t),
        }
    }

    /// Whether the payload is in the tagged representation.
    pub fn is_tagged(&self) -> (r: bool)
        ensures
            r == (self@ is Tagged),
    {
        match self {
            Payload::Plain(_) => false,
            Payload::Tagged(_) => true,
        }
    }
}

} // verus!
