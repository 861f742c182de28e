use vstd::prelude::*;

verus! {

/// Where one glyph sits in the atlas bitmap, and how to place it at the pen.
///
/// `x, y, w, h` is the glyph's pixel rectangle in the atlas, from its top-left
/// corner. `originX, originY` is the offset from the pen to the drawn
/// rectangle, and `advance` is how far the pen moves after the glyph.
#[allow(non_snake_case)]
#[derive(Debug, Clone, Copy, PartialEq, Eq, Structural)]
pub struct CharCoord {
    pub x: i32,
    pub y: i32,
    pub w: i32,
    pub h: i32,
    pub originX: i32,
    pub originY: i32,
    pub advance: i32,
}

/// Number of characters that have a glyph.
pub const ATLAS_LEN: usize = 95;

/// Pixel size of the font the atlases were drawn at.
pub const ATLAS_FONT_SIZE: i32 = 32;

/// Pixel width of the atlas with dark glyphs (for light backgrounds).
pub const ATLAS_WIDTH_BLACK: i32 = 358;

/// Pixel height of the atlas with dark glyphs.
pub const ATLAS_HEIGHT_BLACK: i32 = 133;

/// Pixel width of the atlas with light glyphs (for dark backgrounds).
pub const ATLAS_WIDTH_WHITE: i32 = 353;

/// Pixel height of the atlas with light glyphs.
pub const ATLAS_HEIGHT_WHITE: i32 = 134;

/// The characters that have a glyph, in the order both metric tables share.
pub const ATLAS_CHARS: [char; 95] = [
    '0', '1', '2', '3', '4', '5', '6', '7', '8', '9', ' ', '!', '\"', '#', '$', '%', '&', '\'', '(', ')', '*', '+', ',', '-', '.', '/', ':', ';', '<', '=', '>', '?', '@', 'A', 'B', 'C', 'D', 'E', 'F', 'G', 'H', 'I', 'J', 'K', 'L', 'M', 'N', 'O', 'P', 'Q', 'R', 'S', 'T', 'U', 'V', 'W', 'X', 'Y', 'Z', '[', '\\', ']', '^', '_', '`', 'a', 'b', 'c', 'd', 'e', 'f', 'g', 'h', 'i', 'j', 'k', 'l', 'm', 'n', 'o', 'p', 'q', 'r', 's', 't', 'u', 'v', 'w', 'x', 'y', 'z', '{', '|', '}', '~'
];

/// Metrics of the light glyphs, in the order of `ATLAS_CHARS`.
pub const ATLAS_WHITE: [[i32; 7]; 95] = [
    [90, 35, 18, 27, 0, 25, 18],
    [79, 88, 12, 26, -1, 25, 18],
    [299, 62, 18, 26, 0, 25, 18],
    [108, 35, 18, 27, 0, 25, 18],
    [179, 62, 20, 26, 1, 25, 18],
    [126, 35, 18, 27, 0, 25, 18],
    [144, 35, 18, 27, 0, 25, 18],
    [317, 62, 18, 26, 0, 25, 18],
    [162, 35, 18, 27, 0, 25, 18],
    [180, 35, 18, 27, 0, 25, 18],
    [228, 114, 3, 3, 1, 1, 8],
    [267, 35, 7, 27, -1, 25, 8],
    [138, 114, 12, 12, 0, 25, 13],
    [24, 62, 23, 26, 1, 25, 21],
    [171, 0, 18, 29, 0, 26, 18],
    [300, 0, 27, 27, 0, 25, 26],
    [327, 0, 25, 27, 0, 25, 23],
    [158, 114, 7, 12, 0, 25, 7],
    [75, 0, 10, 32, 0, 25, 9],
    [42, 0, 11, 32, 1, 25, 9],
    [102, 114, 18, 17, 0, 26, 18],
    [29, 114, 18, 19, 0, 21, 18],
    [150, 114, 8, 12, 0, 6, 8],
    [199, 114, 11, 6, 0, 12, 10],
    [174, 114, 7, 8, -1, 6, 8],
    [51, 88, 14, 26, 1, 25, 12],
    [126, 88, 7, 22, -1, 20, 8],
    [91, 88, 9, 26, 1, 20, 8],
    [47, 114, 18, 19, 0, 21, 18],
    [120, 114, 18, 12, 0, 18, 18],
    [65, 114, 18, 19, 0, 21, 18],
    [251, 35, 16, 27, 1, 25, 14],
    [123, 0, 29, 29, 0, 25, 29],
    [0, 62, 24, 26, 2, 25, 20],
    [199, 62, 20, 26, -1, 25, 21],
    [48, 35, 21, 27, 0, 25, 20],
    [70, 62, 22, 26, -1, 25, 23],
    [0, 88, 17, 26, -1, 25, 18],
    [17, 88, 17, 26, -1, 25, 17],
    [25, 35, 23, 27, 0, 25, 23],
    [158, 62, 21, 26, -1, 25, 24],
    [100, 88, 7, 26, -1, 25, 9],
    [53, 0, 11, 32, 4, 25, 9],
    [219, 62, 20, 26, -1, 25, 20],
    [34, 88, 17, 26, -1, 25, 17],
    [312, 35, 26, 26, -1, 25, 29],
    [92, 62, 22, 26, -1, 25, 24],
    [0, 35, 25, 27, 0, 25, 25],
    [335, 62, 18, 26, -1, 25, 19],
    [17, 0, 25, 32, 0, 25, 25],
    [239, 62, 20, 26, -1, 25, 20],
    [198, 35, 18, 27, 0, 25, 18],
    [259, 62, 20, 26, 1, 25, 18],
    [69, 35, 21, 27, -1, 25, 23],
    [47, 62, 23, 26, 2, 25, 19],
    [280, 35, 32, 26, 1, 25, 30],
    [114, 62, 22, 26, 2, 25, 19],
    [136, 62, 22, 26, 2, 25, 18],
    [279, 62, 20, 26, 1, 25, 18],
    [85, 0, 10, 32, -1, 25, 10],
    [65, 88, 14, 26, 1, 25, 12],
    [64, 0, 11, 32, 1, 25, 10],
    [83, 114, 19, 18, 0, 25, 18],
    [210, 114, 18, 5, 2, -1, 14],
    [165, 114, 9, 9, 0, 27, 9],
    [188, 88, 17, 21, 0, 19, 18],
    [209, 0, 19, 28, -1, 26, 20],
    [205, 88, 16, 21, 0, 19, 15],
    [228, 0, 19, 28, 0, 26, 20],
    [152, 88, 18, 21, 0, 19, 18],
    [285, 0, 15, 28, 1, 27, 11],
    [152, 0, 19, 29, 1, 20, 17],
    [216, 35, 18, 27, -1, 26, 20],
    [107, 88, 6, 26, -1, 25, 8],
    [0, 0, 11, 35, 4, 26, 8],
    [234, 35, 17, 27, -1, 26, 17],
    [274, 35, 6, 27, -1, 26, 8],
    [237, 88, 28, 20, -1, 19, 30],
    [331, 88, 18, 20, -1, 19, 20],
    [133, 88, 19, 21, 0, 19, 19],
    [247, 0, 19, 28, -1, 19, 20],
    [266, 0, 19, 28, 0, 19, 20],
    [16, 114, 13, 20, -1, 19, 13],
    [221, 88, 16, 21, 0, 19, 15],
    [113, 88, 13, 25, 1, 23, 11],
    [170, 88, 18, 21, -1, 19, 20],
    [292, 88, 20, 20, 2, 19, 16],
    [265, 88, 27, 20, 1, 19, 25],
    [312, 88, 19, 20, 1, 19, 17],
    [189, 0, 20, 28, 2, 19, 16],
    [0, 114, 16, 20, 1, 19, 15],
    [95, 0, 14, 31, 1, 25, 12],
    [11, 0, 6, 35, -6, 26, 18],
    [109, 0, 14, 31, 1, 25, 12],
    [181, 114, 18, 7, 0, 15, 18],
];

/// Metrics of the dark glyphs, in the order of `ATLAS_CHARS`.
pub const ATLAS_BLACK: [[i32; 7]; 95] = [
    [65, 35, 18, 27, 0, 25, 18],
    [62, 88, 12, 26, -1, 25, 18],
    [274, 62, 18, 26, 0, 25, 18],
    [83, 35, 18, 27, 0, 25, 18],
    [155, 62, 20, 26, 1, 25, 18],
    [101, 35, 18, 27, 0, 25, 18],
    [119, 35, 18, 27, 0, 25, 18],
    [292, 62, 18, 26, 0, 25, 18],
    [137, 35, 18, 27, 0, 25, 18],
    [155, 35, 18, 27, 0, 25, 18],
    [199, 114, 3, 3, 1, 1, 8],
    [257, 35, 7, 27, -1, 25, 8],
    [91, 114, 12, 12, 0, 25, 13],
    [0, 62, 23, 26, 1, 25, 21],
    [151, 0, 18, 29, 0, 26, 18],
    [281, 0, 27, 27, 0, 25, 26],
    [308, 0, 25, 27, 0, 25, 23],
    [111, 114, 7, 12, 0, 25, 7],
    [102, 0, 10, 32, 0, 25, 9],
    [69, 0, 11, 32, 1, 25, 9],
    [73, 114, 18, 17, 0, 26, 18],
    [0, 114, 18, 19, 0, 21, 18],
    [103, 114, 8, 12, 0, 6, 8],
    [170, 114, 11, 6, 0, 12, 10],
    [163, 114, 7, 7, -1, 5, 8],
    [34, 88, 14, 26, 1, 25, 12],
    [211, 88, 7, 21, -1, 19, 8],
    [99, 88, 9, 25, 1, 19, 8],
    [18, 114, 18, 19, 0, 21, 18],
    [118, 114, 18, 11, 0, 17, 18],
    [36, 114, 18, 19, 0, 21, 18],
    [226, 35, 16, 27, 1, 25, 14],
    [122, 0, 29, 29, 0, 25, 29],
    [328, 35, 24, 26, 2, 25, 20],
    [175, 62, 20, 26, -1, 25, 21],
    [23, 35, 21, 27, 0, 25, 20],
    [46, 62, 22, 26, -1, 25, 23],
    [328, 62, 17, 26, -1, 25, 18],
    [0, 88, 17, 26, -1, 25, 17],
    [0, 35, 23, 27, 0, 25, 23],
    [134, 62, 21, 26, -1, 25, 24],
    [74, 88, 6, 26, -1, 25, 9],
    [80, 0, 11, 32, 4, 25, 9],
    [195, 62, 20, 26, -1, 25, 20],
    [17, 88, 17, 26, -1, 25, 17],
    [302, 35, 26, 26, -1, 25, 29],
    [68, 62, 22, 26, -1, 25, 24],
    [333, 0, 25, 27, 0, 25, 25],
    [310, 62, 18, 26, -1, 25, 19],
    [16, 0, 25, 32, 0, 25, 25],
    [215, 62, 20, 26, -1, 25, 20],
    [173, 35, 18, 27, 0, 25, 18],
    [235, 62, 20, 26, 1, 25, 18],
    [44, 35, 21, 27, -1, 25, 23],
    [23, 62, 23, 26, 2, 25, 19],
    [270, 35, 32, 26, 1, 25, 30],
    [90, 62, 22, 26, 2, 25, 19],
    [112, 62, 22, 26, 2, 25, 18],
    [255, 62, 19, 26, 0, 25, 18],
    [112, 0, 10, 32, -1, 25, 10],
    [48, 88, 14, 26, 1, 25, 12],
    [91, 0, 11, 32, 1, 25, 10],
    [54, 114, 19, 18, 0, 25, 18],
    [181, 114, 18, 5, 2, -1, 14],
    [136, 114, 9, 8, 0, 26, 9],
    [163, 88, 17, 21, 0, 19, 18],
    [227, 0, 18, 28, -1, 26, 20],
    [180, 88, 16, 21, 0, 19, 15],
    [189, 0, 19, 28, 0, 26, 20],
    [127, 88, 18, 21, 0, 19, 18],
    [242, 35, 15, 27, 1, 26, 11],
    [208, 0, 19, 28, 1, 19, 17],
    [191, 35, 18, 27, -1, 26, 20],
    [80, 88, 6, 26, -1, 25, 8],
    [6, 0, 10, 34, 3, 25, 8],
    [209, 35, 17, 27, -1, 26, 17],
    [264, 35, 6, 27, -1, 26, 8],
    [218, 88, 28, 20, -1, 19, 30],
    [312, 88, 18, 20, -1, 19, 20],
    [108, 88, 19, 21, 0, 19, 19],
    [245, 0, 18, 28, -1, 19, 20],
    [263, 0, 18, 28, 0, 19, 20],
    [345, 88, 13, 20, -1, 19, 13],
    [196, 88, 15, 21, 0, 19, 15],
    [86, 88, 13, 25, 1, 23, 11],
    [145, 88, 18, 21, -1, 19, 20],
    [273, 88, 20, 20, 2, 19, 16],
    [246, 88, 27, 20, 1, 19, 25],
    [293, 88, 19, 20, 1, 19, 17],
    [169, 0, 20, 28, 2, 19, 16],
    [330, 88, 15, 20, 0, 19, 15],
    [41, 0, 14, 32, 1, 25, 12],
    [0, 0, 6, 35, -6, 26, 18],
    [55, 0, 14, 32, 1, 25, 12],
    [145, 114, 18, 7, 0, 15, 18],
];

/// Pixel width of the atlas of the light glyphs (`white_text`) or of the
/// dark ones.
pub open spec fn spec_atlas_width(white_text: bool) -> i32 {
    if white_text {
        ATLAS_WIDTH_WHITE
    } else {
        ATLAS_WIDTH_BLACK
    }
}

/// Pixel height of the atlas of the light glyphs (`white_text`) or of the
/// dark ones.
pub open spec fn spec_atlas_height(white_text: bool) -> i32 {
    if white_text {
        ATLAS_HEIGHT_WHITE
    } else {
        ATLAS_HEIGHT_BLACK
    }
}

/// Pixel width of the atlas that goes with a metric table.
#[verifier::when_used_as_spec(spec_atlas_width)]
pub fn atlas_width(white_text: bool) -> (width: i32)
    ensures
        width == spec_atlas_width(white_text),
{
    if white_text {
        ATLAS_WIDTH_WHITE
    } else {
        ATLAS_WIDTH_BLACK
    }
}

/// Pixel height of the atlas that goes with a metric table.
#[verifier::when_used_as_spec(spec_atlas_height)]
pub fn atlas_height(white_text: bool) -> (height: i32)
    ensures
        height == spec_atlas_height(white_text),
{
    if white_text {
        ATLAS_HEIGHT_WHITE
    } else {
        ATLAS_HEIGHT_BLACK
    }
}

impl CharCoord {
    /// The metrics that a row of a metric table holds.
    pub open spec fn spec_from_row(row: [i32; 7]) -> CharCoord {
        CharCoord {
            x: row[0],
            y: row[1],
            w: row[2],
            h: row[3],
            originX: row[4],
            originY: row[5],
            advance: row[6],
        }
    }

    /// The metrics that a row of a metric table holds.
    #[verifier::when_used_as_spec(spec_from_row)]
    pub fn from_row(row: [i32; 7]) -> (metrics: CharCoord)
        ensures
            metrics == Self::spec_from_row(row),
    {
        CharCoord {
            x: row[0],
            y: row[1],
            w: row[2],
            h: row[3],
            originX: row[4],
            originY: row[5],
            advance: row[6],
        }
    }
}

/// The metrics at one place of a table: the light glyphs if `white_text`,
/// the dark ones otherwise.
#[verifier::opaque]
pub open spec fn metrics_at(index: int, white_text: bool) -> CharCoord {
    if white_text {
        CharCoord::from_row(ATLAS_WHITE[index])
    } else {
        CharCoord::from_row(ATLAS_BLACK[index])
    }
}

/// `index` is the first place at which `ATLAS_CHARS` holds `character`.
pub open spec fn is_atlas_position(character: char, index: int) -> bool {
    &&& 0 <= index < ATLAS_LEN
    &&& ATLAS_CHARS[index] == character
    &&& forall|earlier: int| 0 <= earlier < index ==> ATLAS_CHARS[earlier] != character
}

/// The place of a character in `ATLAS_CHARS`, if it has one.
#[verifier::opaque]
pub open spec fn atlas_position(character: char) -> Option<int> {
    if exists|index: int| is_atlas_position(character, index) {
        Some(choose|index: int| is_atlas_position(character, index))
    } else {
        None
    }
}

/// The metrics of a character in one of the two atlases, if it has a glyph.
pub open spec fn glyph_metrics(character: char, white_text: bool) -> Option<CharCoord> {
    match atlas_position(character) {
        Some(index) => Some(metrics_at(index, white_text)),
        None => None,
    }
}

/// Looks a character up in the metric table of the light glyphs
/// (`white_text`) or of the dark ones. A character outside the table has no
/// glyph, and the answer is `None`.
pub fn get_charcoord_from_char(character: char, white_text: bool) -> (found: Option<CharCoord>)
    ensures
        found == glyph_metrics(character, white_text),
{
    reveal(atlas_position);
    reveal(metrics_at);
    let mut index: usize = 0;
    while index < ATLAS_LEN
        invariant
            index <= ATLAS_LEN,
            forall|earlier: int| 0 <= earlier < index ==> ATLAS_CHARS[earlier] != character,
        decreases ATLAS_LEN - index,
    {
        if ATLAS_CHARS[index] == character {
            reveal(atlas_position);
            reveal(metrics_at);
            assert(is_atlas_position(character, index as int));
            let row = if white_text {
                ATLAS_WHITE[index]
            } else {
                ATLAS_BLACK[index]
            };
            return Some(CharCoord::from_row(row));
        }
        index += 1;
    }
    None
}

/// Every glyph lies inside its atlas, and its metrics are small: the
/// rectangle is at least 3 and at most 35 pixels a side, the origin at most
/// 27 pixels off the pen, the advance between 7 and 30 pixels.
pub proof fn lemma_metrics_bounds(index: int, white_text: bool)
    requires
        0 <= index < ATLAS_LEN,
    ensures
        ({
            let m = metrics_at(index, white_text);
            &&& 0 <= m.x
            &&& 0 <= m.y
            &&& 3 <= m.w <= 32
            &&& 3 <= m.h <= 35
            &&& m.x + m.w <= atlas_width(white_text)
            &&& m.y + m.h <= atlas_height(white_text)
            &&& -6 <= m.originX <= 4
            &&& -1 <= m.originY <= 27
            &&& 7 <= m.advance <= 30
        }),
{
    reveal(metrics_at);
}

/// The metrics of a character with a glyph are those at its place in the
/// table, and so within the bounds of `lemma_metrics_bounds`.
pub proof fn lemma_glyph_bounds(character: char, white_text: bool)
    requires
        glyph_metrics(character, white_text) is Some,
    ensures
        ({
            let m = glyph_metrics(character, white_text)->0;
            &&& 0 <= m.x
            &&& 0 <= m.y
            &&& 3 <= m.w <= 32
            &&& 3 <= m.h <= 35
            &&& m.x + m.w <= atlas_width(white_text)
            &&& m.y + m.h <= atlas_height(white_text)
            &&& -6 <= m.originX <= 4
            &&& -1 <= m.originY <= 27
            &&& 7 <= m.advance <= 30
        }),
{
    reveal(atlas_position);
    let index = atlas_position(character)->0;
    assert(is_atlas_position(character, index));
    lemma_metrics_bounds(index, white_text);
}

/// The place of a character with a glyph is a place of the table.
pub proof fn lemma_position_in_range(character: char)
    requires
        atlas_position(character) is Some,
    ensures
        0 <= atlas_position(character)->0 < ATLAS_LEN,
        glyph_metrics(character, true) == Some(metrics_at(atlas_position(character)->0, true)),
        glyph_metrics(character, false) == Some(metrics_at(atlas_position(character)->0, false)),
{
    reveal(atlas_position);
    assert(is_atlas_position(character, atlas_position(character)->0));
}

/// Both atlases move the pen by the same amount after a character.
pub proof fn lemma_advance_is_shared(index: int)
    requires
        0 <= index < ATLAS_LEN,
    ensures
        metrics_at(index, true).advance == metrics_at(index, false).advance,
{
    reveal(metrics_at);
}

/// The characters with a glyph are the printable ASCII characters, from
/// the space to the tilde.
pub proof fn lemma_atlas_is_printable_ascii(character: char)
    ensures
        atlas_position(character) is Some <==> ' ' <= character <= '~',
{
    reveal(atlas_position);
    if ' ' <= character <= '~' {
        let code = character as int;
        let place = if '0' <= character <= '9' {
            code - 48
        } else if code < 48 {
            code - 32 + 10
        } else {
            code - 58 + 26
        };
        assert(ATLAS_CHARS[place] == character);
        lemma_first_position(character, place);
    } else {
        assert forall|index: int| !is_atlas_position(character, index) by {
            if 0 <= index < ATLAS_LEN {
                assert(' ' <= ATLAS_CHARS[index] <= '~');
            }
        }
    }
}

/// A character that stands somewhere in `ATLAS_CHARS` has a first place
/// there.
proof fn lemma_first_position(character: char, place: int)
    requires
        0 <= place < ATLAS_LEN,
        ATLAS_CHARS[place] == character,
    ensures
        atlas_position(character) is Some,
    decreases place,
{
    reveal(atlas_position);
    if exists|earlier: int| 0 <= earlier < place && ATLAS_CHARS[earlier] == character {
        let earlier = choose|earlier: int| 0 <= earlier < place && ATLAS_CHARS[earlier] == character;
        lemma_first_position(character, earlier);
    } else {
        assert(is_atlas_position(character, place));
    }
}

} // verus!
