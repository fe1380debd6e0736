use vstd::prelude::*;

use crate::blocks::{group_model, group_run, parse_model};
use crate::scanner::{
    closed_out, is_digit, scan_model, scan_run, ScanMode, ScanState, ESC,
};
use crate::segment::{blocks_text, joined_text, SegmentModel};

verus! {

/// One character more for `strip_escapes`; the flag says whether an escape
/// sequence is open.
pub open spec fn strip_step(g: (bool, Seq<char>), c: char) -> (bool, Seq<char>) {
    if !g.0 {
        if c == ESC {
            (true, g.1)
        } else {
            (false, g.1.push(c))
        }
    } else if c == '[' || is_digit(c) {
        (true, g.1)
    } else if c == 'm' {
        (false, g.1)
    } else {
        // a character that cannot continue the sequence ends it and is kept
        (false, g.1.push(c))
    }
}

pub open spec fn strip_run(s: Seq<char>) -> (bool, Seq<char>)
    decreases s.len(),
{
    if s.len() == 0 {
        (false, Seq::empty())
    } else {
        strip_step(strip_run(s.drop_last()), s.last())
    }
}

/// `s` without its escape sequences: each ESC outside a sequence opens one,
/// `[` and digits continue it, `m` closes it, and any other character ends it
/// and stays.
pub open spec fn strip_escapes(s: Seq<char>) -> Seq<char> {
    strip_run(s).1
}

/// Whether a newline of `s` is read right after another newline of plain
/// text, that is, whether `s` holds a blank line that splits blocks.
pub open spec fn has_block_break(s: Seq<char>) -> bool {
    exists|j: int| 0 <= j < s.len() && #[trigger] scan_run(s.take(j)).mode == ScanMode::AfterNewline
        && s[j] == '\n'
}

/// No two newlines stand next to each other in `s`.
pub open spec fn no_blank_line(s: Seq<char>) -> bool {
    forall|i: int| 0 <= i < s.len() - 1 ==> !(#[trigger] s[i] == '\n' && s[i + 1] == '\n')
}

pub open spec fn no_escape_char(s: Seq<char>) -> bool {
    forall|i: int| 0 <= i < s.len() ==> #[trigger] s[i] != ESC
}

proof fn lemma_joined_text_push(segs: Seq<SegmentModel>, seg: SegmentModel)
    ensures
        joined_text(segs.push(seg)) == joined_text(segs) + seg.text,
{
    assert(segs.push(seg).drop_last() =~= segs);
}

/// The text scanned so far, in closed segments and the open one.
spec fn scanned_text(st: ScanState) -> Seq<char> {
    joined_text(st.out) + st.cur.text
}

proof fn lemma_scan_keeps_text(s: Seq<char>)
    requires
        !has_block_break(s),
    ensures
        scanned_text(scan_run(s)) == strip_escapes(s),
        (scan_run(s).mode == ScanMode::Escape) == strip_run(s).0,
        !scan_run(s).cur.is_block_terminator,
        forall|k: int|
            0 <= k < scan_run(s).out.len() ==> !(#[trigger] scan_run(s).out[k]).is_block_terminator,
    decreases s.len(),
{
    if s.len() > 0 {
        let p = s.drop_last();
        let c = s.last();
        assert(!has_block_break(p)) by {
            if has_block_break(p) {
                let j = choose|j: int|
                    0 <= j < p.len() && #[trigger] scan_run(p.take(j)).mode
                        == ScanMode::AfterNewline && p[j] == '\n';
                assert(p.take(j) =~= s.take(j));
                assert(scan_run(s.take(j)).mode == ScanMode::AfterNewline);
            }
        }
        lemma_scan_keeps_text(p);
        let st = scan_run(p);
        assert(s.take(p.len() as int) =~= p);
        assert(!(st.mode == ScanMode::AfterNewline && c == '\n')) by {
            if st.mode == ScanMode::AfterNewline && c == '\n' {
                assert(scan_run(s.take(p.len() as int)).mode == ScanMode::AfterNewline);
            }
        }
        lemma_joined_text_push(st.out, st.cur);
        assert(scanned_text(st).push(c) =~= joined_text(st.out) + st.cur.text.push(c));
        assert(joined_text(st.out) + Seq::<char>::empty() =~= joined_text(st.out));
        assert(scanned_text(st) =~= joined_text(closed_out(st))) by {
            if st.cur.text.len() == 0 {
                assert(st.cur.text =~= Seq::<char>::empty());
            }
        }
        let out2 = st.out.push(st.cur);
        assert forall|k: int| 0 <= k < out2.len() implies !(#[trigger] out2[k]).is_block_terminator by {
            if k < st.out.len() {
                assert(out2[k] == st.out[k]);
            }
        }
    }
}

proof fn lemma_group_without_terminators(segs: Seq<SegmentModel>)
    requires
        forall|k: int| 0 <= k < segs.len() ==> !(#[trigger] segs[k]).is_block_terminator,
    ensures
        group_run(segs) == (Seq::<Seq<SegmentModel>>::empty(), segs),
    decreases segs.len(),
{
    if segs.len() > 0 {
        let p = segs.drop_last();
        assert forall|k: int| 0 <= k < p.len() implies !(#[trigger] p[k]).is_block_terminator by {
            assert(p[k] == segs[k]);
        }
        lemma_group_without_terminators(p);
        assert(p.push(segs.last()) =~= segs);
    }
}

proof fn lemma_single_block_text(segs: Seq<SegmentModel>)
    ensures
        blocks_text(seq![segs]) == joined_text(segs),
{
    reveal_with_fuel(blocks_text, 2);
    assert(seq![segs].drop_last() =~= Seq::<Seq<SegmentModel>>::empty());
    assert(Seq::<char>::empty() + joined_text(segs) =~= joined_text(segs));
}

/// The texts of all segments of all blocks, in order, are the input without
/// its escape sequences, provided the input holds no blank line that splits
/// blocks (the second newline of such a line is not kept).
pub proof fn lemma_text_round_trip(s: Seq<char>)
    requires
        !has_block_break(s),
    ensures
        blocks_text(parse_model(s)) == strip_escapes(s),
{
    lemma_scan_keeps_text(s);
    let st = scan_run(s);
    let segs = scan_model(s);
    lemma_joined_text_push(st.out, st.cur);
    assert(scanned_text(st) =~= joined_text(segs)) by {
        if st.cur.text.len() == 0 {
            assert(st.cur.text =~= Seq::<char>::empty());
            assert(joined_text(st.out) + Seq::<char>::empty() =~= joined_text(st.out));
        }
    }
    assert forall|k: int| 0 <= k < segs.len() implies !(#[trigger] segs[k]).is_block_terminator by {
        if k < st.out.len() {
            assert(segs[k] == st.out[k]);
        }
    }
    lemma_group_without_terminators(segs);
    if segs.len() > 0 {
        assert(group_model(segs) == seq![segs]) by {
            assert(Seq::<Seq<SegmentModel>>::empty().push(segs) =~= seq![segs]);
        }
        lemma_single_block_text(segs);
    } else {
        assert(segs =~= Seq::<SegmentModel>::empty());
    }
}

/// The segment that holds `s` in the default style.
pub open spec fn default_segment(s: Seq<char>) -> SegmentModel {
    SegmentModel { text: s, color: None, bold: false, is_block_terminator: false }
}

proof fn lemma_plain_scan(s: Seq<char>)
    requires
        no_escape_char(s),
        no_blank_line(s),
    ensures
        scan_run(s) == (ScanState {
            mode: if s.len() > 0 && s.last() == '\n' {
                ScanMode::AfterNewline
            } else {
                ScanMode::Plain
            },
            code: 0,
            cur: default_segment(s),
            out: Seq::empty(),
        }),
    decreases s.len(),
{
    if s.len() == 0 {
        assert(s =~= Seq::<char>::empty());
    } else {
        let p = s.drop_last();
        assert forall|i: int| 0 <= i < p.len() implies #[trigger] p[i] != ESC by {
            assert(p[i] == s[i]);
        }
        assert forall|i: int| 0 <= i < p.len() - 1 implies !(#[trigger] p[i] == '\n' && p[i + 1]
            == '\n') by {
            assert(p[i] == s[i] && p[i + 1] == s[i + 1]);
        }
        lemma_plain_scan(p);
        assert(s.last() != ESC);
        if p.len() > 0 && p.last() == '\n' {
            assert(s[p.len() - 1] == '\n');
            assert(s.last() != '\n');
        }
        assert(p.push(s.last()) =~= s);
    }
}

/// Text without escape characters and without blank lines is one block of
/// one segment: the whole text, in the default style.
pub proof fn lemma_plain_text_single_block(s: Seq<char>)
    requires
        s.len() > 0,
        no_escape_char(s),
        no_blank_line(s),
    ensures
        parse_model(s) == seq![seq![default_segment(s)]],
        parse_model(s).len() == 1,
        joined_text(parse_model(s)[0]) == s,
        forall|k: int|
            0 <= k < parse_model(s)[0].len() ==> (#[trigger] parse_model(s)[0][k]).color is None
                && !parse_model(s)[0][k].bold,
{
    lemma_plain_scan(s);
    let segs = scan_model(s);
    assert(segs =~= seq![default_segment(s)]);
    lemma_group_without_terminators(segs);
    assert(Seq::<Seq<SegmentModel>>::empty().push(segs) =~= seq![segs]);
    assert(joined_text(segs) == s) by {
        reveal_with_fuel(joined_text, 2);
        assert(segs.drop_last() =~= Seq::<SegmentModel>::empty());
        assert(Seq::<char>::empty() + s =~= s);
    }
}

/// A segment that may be shown: it holds text and is no terminator.
pub open spec fn shown_segment(seg: SegmentModel) -> bool {
    seg.text.len() > 0 && !seg.is_block_terminator
}

/// Every block holds at least one segment, and every segment holds text.
pub open spec fn blocks_well_formed(blocks: Seq<Seq<SegmentModel>>) -> bool {
    forall|b: int|
        0 <= b < blocks.len() ==> (#[trigger] blocks[b]).len() > 0 && forall|k: int|
            0 <= k < blocks[b].len() ==> shown_segment(#[trigger] blocks[b][k])
}

proof fn lemma_scan_segments_shown_or_terminator(s: Seq<char>)
    ensures
        !scan_run(s).cur.is_block_terminator,
        forall|k: int|
            0 <= k < scan_run(s).out.len() ==> (#[trigger] scan_run(s).out[k]).is_block_terminator
                || shown_segment(scan_run(s).out[k]),
    decreases s.len(),
{
    if s.len() > 0 {
        let p = s.drop_last();
        lemma_scan_segments_shown_or_terminator(p);
        let st = scan_run(p);
        let out1 = st.out.push(st.cur);
        assert forall|k: int| 0 <= k < out1.len() && k < st.out.len() implies out1[k] == st.out[k] by {}
        let out2 = closed_out(st).push(crate::segment::terminator_segment());
        assert forall|k: int| 0 <= k < out2.len() - 1 implies out2[k] == closed_out(st)[k] by {}
    }
}

proof fn lemma_group_well_formed(segs: Seq<SegmentModel>)
    requires
        forall|k: int|
            0 <= k < segs.len() ==> (#[trigger] segs[k]).is_block_terminator || shown_segment(
                segs[k],
            ),
    ensures
        blocks_well_formed(group_run(segs).0),
        forall|k: int|
            0 <= k < group_run(segs).1.len() ==> shown_segment(#[trigger] group_run(segs).1[k]),
    decreases segs.len(),
{
    if segs.len() > 0 {
        let p = segs.drop_last();
        assert forall|k: int| 0 <= k < p.len() implies (#[trigger] p[k]).is_block_terminator
            || shown_segment(p[k]) by {
            assert(p[k] == segs[k]);
        }
        lemma_group_well_formed(p);
        let g = group_run(p);
        let cur2 = g.1.push(segs.last());
        assert forall|k: int| 0 <= k < cur2.len() - 1 implies cur2[k] == g.1[k] by {}
        let blocks2 = g.0.push(g.1);
        assert forall|b: int| 0 <= b < blocks2.len() - 1 implies blocks2[b] == g.0[b] by {}
    }
}

/// No block of the output is empty, and every segment in it holds text and
/// is no block terminator.
pub proof fn lemma_output_well_formed(s: Seq<char>)
    ensures
        blocks_well_formed(parse_model(s)),
{
    lemma_scan_segments_shown_or_terminator(s);
    let st = scan_run(s);
    let segs = scan_model(s);
    assert forall|k: int| 0 <= k < segs.len() implies (#[trigger] segs[k]).is_block_terminator
        || shown_segment(segs[k]) by {
        if k < st.out.len() {
            assert(segs[k] == st.out[k]);
        }
    }
    lemma_group_well_formed(segs);
    let g = group_run(segs);
    let blocks = g.0.push(g.1);
    assert forall|b: int| 0 <= b < blocks.len() - 1 implies blocks[b] == g.0[b] by {}
}

} // verus!
