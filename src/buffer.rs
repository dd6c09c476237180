//! Styled output buffers: ordered runs of text, each with a color and a weight.

use vstd::prelude::*;

verus! {

/// Foreground colors of the terminal output.
#[derive(Clone, Copy, Debug, PartialEq, Eq, Structural)]
pub enum Color {
    Red,
    Green,
    Cyan,
    Yellow,
    Magenta,
    White,
}

/// A run of text written in one style; `color == None` is the terminal's
/// default color.
pub struct Segment {
    pub text: String,
    pub color: Option<Color>,
    pub bold: bool,
}

/// What a segment holds: its text, color and weight.
pub type SegmentView = (Seq<char>, Option<Color>, bool);

impl View for Segment {
    type V = SegmentView;

    open spec fn view(&self) -> SegmentView {
        (self.text@, self.color, self.bold)
    }
}

/// An append-only sequence of styled segments, printed as a whole later.
pub struct OutputBuffer {
    pub segments: Vec<Segment>,
}

impl View for OutputBuffer {
    type V = Seq<SegmentView>;

    open spec fn view(&self) -> Seq<SegmentView> {
        self.segments@.map_values(|s: Segment| s@)
    }
}

/// A segment in the given style.
pub open spec fn styled(text: Seq<char>, color: Color, bold: bool) -> SegmentView {
    (text, Some(color), bold)
}

/// A segment in the default style.
pub open spec fn plain(text: Seq<char>) -> SegmentView {
    (text, None, false)
}

/// `text` followed by a line break.
pub open spec fn line(text: Seq<char>) -> Seq<char> {
    text.push('\n')
}

impl OutputBuffer {
    /// An empty buffer.
    pub fn new() -> (r: OutputBuffer)
        ensures
            r@ == Seq::<SegmentView>::empty(),
    {
        let r = OutputBuffer { segments: Vec::new() };
        assert(r@ =~= Seq::<SegmentView>::empty());
        r
    }

    /// Appends one segment.
    pub fn push(&mut self, text: String, color: Option<Color>, bold: bool)
        ensures
            final(self)@ == old(self)@.push((text@, color, bold)),
    {
        let ghost before = self.segments@;
        self.segments.push(Segment { text, color, bold });
        assert(self.segments@.map_values(|s: Segment| s@) =~= before.map_values(|s: Segment| s@).push(
            (text@, color, bold),
        ));
    }

    /// Appends a segment in the given color.
    pub fn push_styled(&mut self, text: String, color: Color, bold: bool)
        ensures
            final(self)@ == old(self)@.push(styled(text@, color, bold)),
    {
        self.push(text, Some(color), bold);
    }

    /// Appends a segment in the default style.
    pub fn push_plain(&mut self, text: String)
        ensures
            final(self)@ == old(self)@.push(plain(text@)),
    {
        self.push(text, None, false);
    }

    /// Moves every segment of `other` to the end of this buffer.
    pub fn append(&mut self, other: OutputBuffer)
        ensures
            final(self)@ == old(self)@ + other@,
    {
        let ghost start = self@;
        let mut rest = other.segments;
        let mut moved: Vec<Segment> = Vec::new();
        // Reverse once so that popping yields the segments in order.
        while rest.len() > 0
            invariant
                moved@.map_values(|s: Segment| s@) + rest@.map_values(|s: Segment| s@).reverse()
                    =~= other@.reverse(),
            decreases rest.len(),
        {
            let ghost r0 = rest@;
            let ghost m0 = moved@;
            let seg = rest.pop().unwrap();
            moved.push(seg);
            assert(r0 =~= rest@.push(seg));
            assert(moved@ =~= m0.push(seg));
            assert(rest@.map_values(|s: Segment| s@).reverse() =~= r0.map_values(
                |s: Segment| s@,
            ).reverse().subrange(1, r0.len() as int));
        }
        assert(moved@.map_values(|s: Segment| s@) =~= other@.reverse());
        while moved.len() > 0
            invariant
                self@ + moved@.map_values(|s: Segment| s@).reverse() =~= start + other@,
            decreases moved.len(),
        {
            let ghost m0 = moved@;
            let ghost b0 = self@;
            let seg = moved.pop().unwrap();
            assert(m0 =~= moved@.push(seg));
            self.push(seg.text, seg.color, seg.bold);
            assert(m0.map_values(|s: Segment| s@).reverse() =~= seq![seg@] + moved@.map_values(
                |s: Segment| s@,
            ).reverse());
        }
        assert(moved@.map_values(|s: Segment| s@).reverse() =~= Seq::<SegmentView>::empty());
    }
}

} // verus!
