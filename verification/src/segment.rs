//! The engine's sole output unit: a piece of text with an optional style tag.

use vstd::prelude::*;

verus! {

/// Ghost model of a segment: its text and its optional style, as character
/// sequences.
pub struct SegView {
    pub text: Seq<char>,
    pub style: Option<Seq<char>>,
}

/// One unit of rendered output: literal text plus an optional style tag.
/// The style is carried as an opaque style expression (for example
/// `"bold yellow"`); translating it to terminal escapes is the caller's
/// concern.
#[derive(Debug, Clone, PartialEq, Eq)]
pub struct Segment {
    pub text: String,
    pub style: Option<String>,
}

impl View for Segment {
    type V = SegView;

    open spec fn view(&self) -> SegView {
        SegView {
            text: self.text@,
            style: match self.style {
                Option::Some(s) => Option::Some(s@),
                Option::None => Option::None,
            },
        }
    }
}

impl DeepView for Segment {
    type V = SegView;

    open spec fn deep_view(&self) -> SegView {
        self.view()
    }
}

/// The text of a sequence of segments, concatenated in order.
pub open spec fn segs_text(segs: Seq<SegView>) -> Seq<char>
    decreases segs.len(),
{
    if segs.len() == 0 {
        Seq::empty()
    } else {
        segs[0].text + segs_text(segs.drop_first())
    }
}

} // verus!
