use vstd::prelude::*;

use crate::scanner::{scan_model, scan_segments};
use crate::segment::{blocks_view, segments_view, SegmentModel, StyledBlock, TextSegment};

verus! {

/// The blocks closed so far and the segments of the open block.
pub type GroupState = (Seq<Seq<SegmentModel>>, Seq<SegmentModel>);

/// The blocks closed so far, with the open block added when it is not empty.
pub open spec fn closed_blocks(g: GroupState) -> Seq<Seq<SegmentModel>> {
    if g.1.len() > 0 {
        g.0.push(g.1)
    } else {
        g.0
    }
}

/// One more segment: a terminator closes the open block, any other segment
/// joins it.
pub open spec fn group_step(g: GroupState, seg: SegmentModel) -> GroupState {
    if seg.is_block_terminator {
        (closed_blocks(g), Seq::empty())
    } else {
        (g.0, g.1.push(seg))
    }
}

pub open spec fn group_run(segs: Seq<SegmentModel>) -> GroupState
    decreases segs.len(),
{
    if segs.len() == 0 {
        (Seq::empty(), Seq::empty())
    } else {
        group_step(group_run(segs.drop_last()), segs.last())
    }
}

/// The blocks that the segments form, terminators left out. No block is empty.
pub open spec fn group_model(segs: Seq<SegmentModel>) -> Seq<Seq<SegmentModel>> {
    closed_blocks(group_run(segs))
}

/// The styled blocks of the text `s`.
pub open spec fn parse_model(s: Seq<char>) -> Seq<Seq<SegmentModel>> {
    group_model(scan_model(s))
}

proof fn lemma_blocks_view_push(v: Seq<StyledBlock>, b: StyledBlock)
    ensures
        blocks_view(v.push(b)) == blocks_view(v).push(b@),
{
    assert(blocks_view(v.push(b)) =~= blocks_view(v).push(b@));
}

/// Groups segments into blocks: each terminator segment ends a block, and
/// empty blocks are left out.
pub fn group_blocks(segments: Vec<TextSegment>) -> (r: Vec<StyledBlock>)
    ensures
        blocks_view(r@) == group_model(segments_view(segments@)),
{
    let ghost all = segments@;
    let mut blocks: Vec<StyledBlock> = Vec::new();
    let mut cur: Vec<TextSegment> = Vec::new();
    proof {
        assert(segments_view(all.take(0)) =~= Seq::<SegmentModel>::empty());
        assert(blocks_view(blocks@) =~= Seq::<Seq<SegmentModel>>::empty());
        assert(segments_view(cur@) =~= Seq::<SegmentModel>::empty());
    }
    for seg in it: segments.into_iter()
        invariant
            it.seq() == all,
            (blocks_view(blocks@), segments_view(cur@)) == group_run(
                segments_view(all.take(it.index() as int)),
            ),
    {
        let ghost i = it.index() as int;
        proof {
            let next = segments_view(all.take(i + 1));
            assert(next.drop_last() =~= segments_view(all.take(i)));
            assert(next.last() == seg@);
        }
        if seg.is_block_terminator {
            if cur.len() > 0 {
                let mut done: Vec<TextSegment> = Vec::new();
                std::mem::swap(&mut done, &mut cur);
                let b = StyledBlock { segments: done };
                proof {
                    lemma_blocks_view_push(blocks@, b);
                }
                blocks.push(b);
            }
            proof {
                assert(segments_view(cur@) =~= Seq::<SegmentModel>::empty());
            }
        } else {
            proof {
                assert(segments_view(cur@.push(seg)) =~= segments_view(cur@).push(seg@));
            }
            cur.push(seg);
        }
    }
    proof {
        assert(all.take(all.len() as int) =~= all);
    }
    if cur.len() > 0 {
        let b = StyledBlock { segments: cur };
        proof {
            lemma_blocks_view_push(blocks@, b);
        }
        blocks.push(b);
    }
    blocks
}

/// Parses captured terminal output into styled blocks: escape sequences set
/// the style of the text that follows them, and a blank line ends a block.
pub fn parse_styled_blocks(text: &str) -> (r: Vec<StyledBlock>)
    ensures
        blocks_view(r@) == parse_model(text@),
        text@.len() == 0 ==> r@.len() == 0,
{
    let segments = scan_segments(text);
    let r = group_blocks(segments);
    proof {
        if text@.len() == 0 {
            assert(r@.len() == blocks_view(r@).len());
        }
    }
    r
}

} // verus!
