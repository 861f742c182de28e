use vstd::prelude::*;
use crate::atlas::{
    atlas_height, atlas_position, atlas_width, get_charcoord_from_char, glyph_metrics,
    lemma_advance_is_shared, lemma_glyph_bounds, lemma_position_in_range, CharCoord,
    ATLAS_FONT_SIZE,
};

verus! {

/// The widest line that can be laid out, in pixels of advance. Up to here
/// every position of the layout, counted in half pixels, is a whole number
/// below 2^24, which a 32-bit IEEE 754 number holds exactly.
pub const MAX_TOTAL_ADVANCE: i32 = 0x80_0000;

/// Why a text was not laid out.
#[derive(Debug, Clone, Copy, PartialEq, Eq, Structural)]
pub enum LayoutError {
    /// The character at place `index` of the text has no glyph.
    UnknownCharacter { index: usize, character: char },
    /// Every character has a glyph, but together they advance the pen by
    /// more than `MAX_TOTAL_ADVANCE` pixels.
    TooWide,
}

/// Where one glyph of a line goes, and where it comes from.
///
/// `pen, left, top, right, bottom` are counted in half pixels from the
/// middle of the line, x to the right and y down; `u_left, v_top, u_right,
/// v_bottom` are pixels of the atlas.
#[derive(Debug, Clone, Copy, PartialEq, Eq, Structural)]
pub struct GlyphQuad {
    pub pen: i32,
    pub left: i32,
    pub top: i32,
    pub right: i32,
    pub bottom: i32,
    pub u_left: i32,
    pub v_top: i32,
    pub u_right: i32,
    pub v_bottom: i32,
}

/// A line of text, laid out.
#[derive(Debug)]
pub struct TextLayout {
    /// One quad per character, in the order of the text.
    pub glyphs: Vec<GlyphQuad>,
    /// How far the whole line moves the pen, in pixels.
    pub total_advance: i32,
    /// Pixel width of the atlas the texture coordinates refer to.
    pub atlas_width: i32,
    /// Pixel height of that atlas.
    pub atlas_height: i32,
}

/// Every character of the text has a glyph.
pub open spec fn all_known(text: Seq<char>) -> bool {
    forall|k: int| 0 <= k < text.len() ==> atlas_position(#[trigger] text[k]) is Some
}

/// `index` is the first place of the text whose character has no glyph.
pub open spec fn is_first_unknown(text: Seq<char>, index: int) -> bool {
    &&& 0 <= index < text.len()
    &&& atlas_position(text[index]) is None
    &&& forall|k: int| 0 <= k < index ==> atlas_position(#[trigger] text[k]) is Some
}

/// How far a character moves the pen, in pixels; nothing if it has no glyph.
pub open spec fn advance_of(character: char, white_text: bool) -> int {
    match glyph_metrics(character, white_text) {
        Some(metrics) => metrics.advance as int,
        None => 0,
    }
}

/// How far a text moves the pen, in pixels: the sum of the advances of its
/// characters.
pub open spec fn advance_sum(text: Seq<char>, white_text: bool) -> int
    decreases text.len(),
{
    if text.len() == 0 {
        0
    } else {
        advance_sum(text.drop_last(), white_text) + advance_of(text.last(), white_text)
    }
}

/// Where the pen stands before character `k`, in half pixels. The line is
/// centred: the pen starts half the total advance to the left of the middle
/// and has moved by the advances of the characters before `k`.
pub open spec fn pen_before(text: Seq<char>, white_text: bool, k: int) -> int {
    2 * advance_sum(text.take(k), white_text) - advance_sum(text, white_text)
}

/// `quad` is the glyph with the given metrics, drawn with the pen at `pen`
/// (in half pixels). The quad starts `originX` left of the pen and
/// `originY` above the baseline, which lies half the font size below the
/// middle of the line; it is as large as the glyph's rectangle in the atlas.
pub open spec fn is_glyph_quad(quad: GlyphQuad, metrics: CharCoord, pen: int) -> bool {
    &&& quad.pen == pen
    &&& quad.left == pen - 2 * metrics.originX
    &&& quad.top == ATLAS_FONT_SIZE - 2 * metrics.originY
    &&& quad.right == pen - 2 * metrics.originX + 2 * metrics.w
    &&& quad.bottom == ATLAS_FONT_SIZE - 2 * metrics.originY + 2 * metrics.h
    &&& quad.u_left == metrics.x
    &&& quad.v_top == metrics.y
    &&& quad.u_right == metrics.x + metrics.w
    &&& quad.v_bottom == metrics.y + metrics.h
}

/// `layout` is the text laid out with the light glyphs (`white_text`) or
/// the dark ones: one quad per character, each at its pen position.
pub open spec fn is_layout_of(layout: TextLayout, text: Seq<char>, white_text: bool) -> bool {
    &&& layout.total_advance == advance_sum(text, white_text)
    &&& layout.atlas_width == atlas_width(white_text)
    &&& layout.atlas_height == atlas_height(white_text)
    &&& layout.glyphs@.len() == text.len()
    &&& forall|k: int|
        0 <= k < text.len() ==> glyph_metrics(text[k], white_text) is Some && is_glyph_quad(
            #[trigger] layout.glyphs@[k],
            glyph_metrics(text[k], white_text)->0,
            pen_before(text, white_text, k),
        )
}

/// The advance of a character with a glyph lies between 7 and 30 pixels.
pub proof fn lemma_advance_bounds(character: char, white_text: bool)
    ensures
        0 <= advance_of(character, white_text) <= 30,
        atlas_position(character) is Some ==> 7 <= advance_of(character, white_text),
{
    if atlas_position(character) is Some {
        lemma_glyph_bounds(character, white_text);
    }
}

/// A text moves the pen at least as far as any of its beginnings does.
pub proof fn lemma_advance_sum_grows(text: Seq<char>, white_text: bool, k: int)
    requires
        0 <= k <= text.len(),
    ensures
        0 <= advance_sum(text.take(k), white_text) <= advance_sum(text, white_text),
        advance_sum(text, white_text) <= 30 * text.len(),
    decreases text.len(),
{
    if text.len() == 0 {
        assert(text.take(k) =~= text);
    } else {
        lemma_advance_bounds(text.last(), white_text);
        if k == text.len() {
            assert(text.take(k) =~= text);
            lemma_advance_sum_grows(text.drop_last(), white_text, k - 1);
        } else {
            assert(text.drop_last().take(k) =~= text.take(k));
            lemma_advance_sum_grows(text.drop_last(), white_text, k);
        }
    }
}

/// Each character moves the pen by its advance: the pen before the next
/// character stands two half pixels further for every pixel of advance.
pub proof fn lemma_pen_advances(text: Seq<char>, white_text: bool, k: int)
    requires
        0 <= k < text.len(),
    ensures
        pen_before(text, white_text, k + 1) == pen_before(text, white_text, k) + 2 * advance_of(
            text[k],
            white_text,
        ),
{
    assert(text.take(k + 1).drop_last() =~= text.take(k));
    assert(text.take(k + 1).last() == text[k]);
}

/// Over the whole line the pen moves by exactly the sum of the advances,
/// from half of it left of the middle to half of it right of the middle.
pub proof fn lemma_pen_travel(text: Seq<char>, white_text: bool)
    ensures
        pen_before(text, white_text, 0) == -advance_sum(text, white_text),
        pen_before(text, white_text, text.len() as int) == advance_sum(text, white_text),
{
    assert(text.take(0) =~= Seq::<char>::empty());
    assert(text.take(text.len() as int) =~= text);
}

/// A text moves the pen as far with the light glyphs as with the dark ones.
pub proof fn lemma_advance_sum_is_shared(text: Seq<char>)
    ensures
        advance_sum(text, true) == advance_sum(text, false),
    decreases text.len(),
{
    if text.len() > 0 {
        lemma_advance_sum_is_shared(text.drop_last());
        let character = text.last();
        if atlas_position(character) is Some {
            lemma_position_in_range(character);
            lemma_advance_is_shared(atlas_position(character)->0);
        }
    }
}

/// In a layout no wider than `MAX_TOTAL_ADVANCE` every position, counted
/// in half pixels, is a whole number of magnitude below 2^24, and every
/// texture coordinate lies inside the atlas.
pub proof fn lemma_layout_bounds(layout: TextLayout, text: Seq<char>, white_text: bool, k: int)
    requires
        is_layout_of(layout, text, white_text),
        advance_sum(text, white_text) <= MAX_TOTAL_ADVANCE,
        0 <= k < text.len(),
    ensures
        ({
            let quad = layout.glyphs@[k];
            &&& -0x100_0000 < quad.pen < 0x100_0000
            &&& -0x100_0000 < quad.left < quad.right < 0x100_0000
            &&& -0x100_0000 < quad.top < quad.bottom < 0x100_0000
            &&& 0 <= quad.u_left < quad.u_right <= layout.atlas_width
            &&& 0 <= quad.v_top < quad.v_bottom <= layout.atlas_height
        }),
{
    lemma_glyph_bounds(text[k], white_text);
    lemma_advance_sum_grows(text, white_text, k);
}

/// In a layout there is one quad per character; the pen of the first
/// stands half the total advance left of the middle, the pen of each
/// further quad stands behind the pen of the one before by exactly that
/// character's advance, and behind the last character the pen has moved by
/// the sum of all advances.
pub proof fn lemma_layout_pen(layout: TextLayout, text: Seq<char>, white_text: bool)
    requires
        is_layout_of(layout, text, white_text),
    ensures
        layout.glyphs@.len() == text.len(),
        text.len() > 0 ==> layout.glyphs@[0].pen == -layout.total_advance,
        forall|k: int|
            0 <= k < text.len() - 1 ==> (#[trigger] layout.glyphs@[k + 1]).pen == layout.glyphs@[k].pen
                + 2 * advance_of(text[k], white_text),
        text.len() > 0 ==> layout.glyphs@[text.len() - 1].pen + 2 * advance_of(
            text[text.len() - 1],
            white_text,
        ) == layout.total_advance,
{
    lemma_pen_travel(text, white_text);
    assert forall|k: int| 0 <= k < text.len() - 1 implies (#[trigger] layout.glyphs@[k + 1]).pen
        == layout.glyphs@[k].pen + 2 * advance_of(text[k], white_text) by {
        lemma_pen_advances(text, white_text, k);
    }
    if text.len() > 0 {
        lemma_pen_advances(text, white_text, text.len() - 1);
    }
}

/// Lays a text out as one line, centred on the origin, with the metrics of
/// the light glyphs (`white_text`) or of the dark ones.
///
/// The result holds one quad per character. A character without a glyph
/// stops the layout: the error names the first one. A line wider than
/// `MAX_TOTAL_ADVANCE` is refused.
pub fn layout_text(text: &str, white_text: bool) -> (outcome: Result<TextLayout, LayoutError>)
    ensures
        match outcome {
            Ok(layout) => all_known(text@) && advance_sum(text@, white_text) <= MAX_TOTAL_ADVANCE
                && is_layout_of(layout, text@, white_text),
            Err(LayoutError::UnknownCharacter { index, character }) => is_first_unknown(
                text@,
                index as int,
            ) && character == text@[index as int],
            Err(LayoutError::TooWide) => all_known(text@) && advance_sum(text@, white_text)
                > MAX_TOTAL_ADVANCE,
        },
{
    let mut metrics: Vec<CharCoord> = Vec::new();
    let mut total: i32 = 0;
    let mut too_wide = false;
    for character in it: text.chars()
        invariant
            it.seq() == text@,
            metrics@.len() == it.index(),
            forall|k: int|
                0 <= k < it.index() ==> glyph_metrics(#[trigger] text@[k], white_text) == Some(
                    metrics@[k],
                ),
            !too_wide ==> total == advance_sum(text@.take(it.index() as int), white_text) && total
                <= MAX_TOTAL_ADVANCE,
            too_wide ==> advance_sum(text@.take(it.index() as int), white_text) > MAX_TOTAL_ADVANCE,
    {
        let ghost place = metrics@.len() as int;
        match get_charcoord_from_char(character, white_text) {
            None => {
                return Err(LayoutError::UnknownCharacter { index: metrics.len(), character });
            },
            Some(found) => {
                proof {
                    lemma_advance_bounds(character, white_text);
                    assert(text@.take(place + 1).drop_last() =~= text@.take(place));
                    assert(text@.take(place + 1).last() == character);
                }
                if !too_wide {
                    total = total + found.advance;
                    if total > MAX_TOTAL_ADVANCE {
                        too_wide = true;
                    }
                }
                metrics.push(found);
            },
        }
    }
    proof {
        assert(text@.take(text@.len() as int) =~= text@);
        lemma_advance_sum_grows(text@, white_text, 0);
    }
    if too_wide {
        return Err(LayoutError::TooWide);
    }
    let mut glyphs: Vec<GlyphQuad> = Vec::new();
    let mut pen: i32 = -total;
    let mut k: usize = 0;
    proof {
        lemma_pen_travel(text@, white_text);
    }
    while k < metrics.len()
        invariant
            k <= metrics.len(),
            metrics@.len() == text@.len(),
            glyphs@.len() == k,
            total == advance_sum(text@, white_text),
            0 <= total <= MAX_TOTAL_ADVANCE,
            pen == pen_before(text@, white_text, k as int),
            forall|j: int|
                0 <= j < text@.len() ==> glyph_metrics(#[trigger] text@[j], white_text) == Some(
                    metrics@[j],
                ),
            forall|j: int|
                0 <= j < k ==> is_glyph_quad(
                    #[trigger] glyphs@[j],
                    metrics@[j],
                    pen_before(text@, white_text, j),
                ),
        decreases metrics.len() - k,
    {
        let m = metrics[k];
        proof {
            let character = text@[k as int];
            assert(glyph_metrics(character, white_text) == Some(m));
            lemma_glyph_bounds(character, white_text);
            lemma_advance_sum_grows(text@, white_text, k as int);
            lemma_advance_sum_grows(text@, white_text, k + 1);
            lemma_pen_advances(text@, white_text, k as int);
        }
        let left = pen - 2 * m.originX;
        let top = ATLAS_FONT_SIZE - 2 * m.originY;
        glyphs.push(
            GlyphQuad {
                pen,
                left,
                top,
                right: left + 2 * m.w,
                bottom: top + 2 * m.h,
                u_left: m.x,
                v_top: m.y,
                u_right: m.x + m.w,
                v_bottom: m.y + m.h,
            },
        );
        pen = pen + 2 * m.advance;
        k += 1;
    }
    let layout = TextLayout {
        glyphs,
        total_advance: total,
        atlas_width: atlas_width(white_text),
        atlas_height: atlas_height(white_text),
    };
    Ok(layout)
}

} // verus!
