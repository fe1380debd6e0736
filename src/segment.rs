use vstd::prelude::*;

verus! {

/// What a segment is, as mathematical values.
pub struct SegmentModel {
    pub text: Seq<char>,
    pub color: Option<u32>,
    pub bold: bool,
    pub is_block_terminator: bool,
}

/// A run of characters that share one style.
///
/// A segment marked as block terminator carries no text: it only says that
/// the block before it ends there.
pub struct TextSegment {
    pub text: String,
    /// The SGR color code last selected, if any.
    pub color: Option<u32>,
    pub bold: bool,
    pub is_block_terminator: bool,
}

impl View for TextSegment {
    type V = SegmentModel;

    open spec fn view(&self) -> SegmentModel {
        SegmentModel {
            text: self.text@,
            color: self.color,
            bold: self.bold,
            is_block_terminator: self.is_block_terminator,
        }
    }
}

/// The segment with no text and the given style.
pub open spec fn empty_segment(color: Option<u32>, bold: bool) -> SegmentModel {
    SegmentModel { text: Seq::empty(), color, bold, is_block_terminator: false }
}

/// The marker that ends a block.
pub open spec fn terminator_segment() -> SegmentModel {
    SegmentModel { text: Seq::empty(), color: None, bold: false, is_block_terminator: true }
}

/// The views of a sequence of segments.
pub open spec fn segments_view(v: Seq<TextSegment>) -> Seq<SegmentModel> {
    v.map_values(|s: TextSegment| s@)
}

/// The texts of the segments, one after the other.
pub open spec fn joined_text(segs: Seq<SegmentModel>) -> Seq<char>
    decreases segs.len(),
{
    if segs.len() == 0 {
        Seq::empty()
    } else {
        joined_text(segs.drop_last()) + segs.last().text
    }
}

impl TextSegment {
    pub fn empty(color: Option<u32>, bold: bool) -> (r: TextSegment)
        ensures
            r@ == empty_segment(color, bold),
    {
        TextSegment { text: String::new(), color, bold, is_block_terminator: false }
    }

    pub fn terminator() -> (r: TextSegment)
        ensures
            r@ == terminator_segment(),
    {
        TextSegment { text: String::new(), color: None, bold: false, is_block_terminator: true }
    }

    pub fn has_text(&self) -> (r: bool)
        ensures
            r == (self.text@.len() > 0),
    {
        !self.text.as_str().is_empty()
    }
}

/// Segments that are shown together as one unit (the matches of one file).
pub struct StyledBlock {
    pub segments: Vec<TextSegment>,
}

impl View for StyledBlock {
    type V = Seq<SegmentModel>;

    open spec fn view(&self) -> Seq<SegmentModel> {
        segments_view(self.segments@)
    }
}

/// The views of a sequence of blocks.
pub open spec fn blocks_view(v: Seq<StyledBlock>) -> Seq<Seq<SegmentModel>> {
    v.map_values(|b: StyledBlock| b@)
}

} // verus!

verus! {

/// The texts of all segments of all blocks, one after the other.
pub open spec fn blocks_text(blocks: Seq<Seq<SegmentModel>>) -> Seq<char>
    decreases blocks.len(),
{
    if blocks.len() == 0 {
        Seq::empty()
    } else {
        blocks_text(blocks.drop_last()) + joined_text(blocks.last())
    }
}

} // verus!
