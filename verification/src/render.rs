use vstd::prelude::*;
use vstd::string::StringExecFns;
use crate::gray::GrayImage;
use crate::dither::dither_threshold;
use crate::dither::dither_weight_at;

verus! {

/// The character ramp, ordered from emptiest to densest glyph.  The
/// two-level dither decision only ever selects its first and its last
/// glyph.
pub open spec fn char_ramp() -> Seq<char> {
    " .'`^\",:;Il!i><~+_-?][}{1)(|\\/tfjrxnuvczXYUJCLQ0OZmwqpdbkhao*#MW&8%B@$"@
}

/// The glyph for a cell at or below its brightness threshold: the
/// ramp's first glyph.
pub open spec fn dark_glyph() -> char {
    ' '
}

/// The glyph for a cell above its brightness threshold: the ramp's
/// last glyph.
pub open spec fn bright_glyph() -> char {
    '$'
}

/// The two glyphs the dither decision selects are the first and the
/// last glyph of the character ramp.
pub proof fn lemma_glyphs_in_ramp()
    ensures
        char_ramp().len() == 70,
        char_ramp()[0] == dark_glyph(),
        char_ramp()[69] == bright_glyph(),
        char_ramp().contains(dark_glyph()),
        char_ramp().contains(bright_glyph()),
{
    reveal_strlit(" .'`^\",:;Il!i><~+_-?][}{1)(|\\/tfjrxnuvczXYUJCLQ0OZmwqpdbkhao*#MW&8%B@$");
    assert(char_ramp()[0] == ' ');
    assert(char_ramp()[69] == '$');
}

/// The uniform scale is the larger of `width / term_width` and
/// `height / term_height`; it is the former exactly when
/// `width * term_height >= height * term_width`.
pub open spec fn uses_width_scale(img: GrayImage, tw: u16, th: u16) -> bool {
    img.width * th >= img.height * tw
}

/// Numerator of the uniform scale, as an exact rational.
pub open spec fn scale_num(img: GrayImage, tw: u16, th: u16) -> int {
    if uses_width_scale(img, tw, th) {
        img.width as int
    } else {
        img.height as int
    }
}

/// Denominator of the uniform scale.
pub open spec fn scale_den(img: GrayImage, tw: u16, th: u16) -> int {
    if uses_width_scale(img, tw, th) {
        tw as int
    } else {
        th as int
    }
}

/// Nearest-neighbor source column for output column `col`:
/// `floor(col * scale)`, clamped to the image's last column.
pub open spec fn src_x(img: GrayImage, tw: u16, th: u16, col: int) -> int {
    let t = (col * scale_num(img, tw, th)) / scale_den(img, tw, th);
    if t <= img.width - 1 {
        t
    } else {
        img.width - 1
    }
}

/// Nearest-neighbor source row for output row `row`:
/// `floor(row * scale)`, clamped to the image's last row.
pub open spec fn src_y(img: GrayImage, tw: u16, th: u16, row: int) -> int {
    let t = (row * scale_num(img, tw, th)) / scale_den(img, tw, th);
    if t <= img.height - 1 {
        t
    } else {
        img.height - 1
    }
}

/// Whether the cell at `(row, col)` is bright: its nearest-neighbor
/// sample is strictly above the cell's dither threshold.
pub open spec fn cell_bright(img: GrayImage, tw: u16, th: u16, row: int, col: int) -> bool {
    img.sample(src_x(img, tw, th, col), src_y(img, tw, th, row)) > dither_threshold(row, col)
}

/// The glyph rendered at `(row, col)`.
pub open spec fn cell_char(img: GrayImage, tw: u16, th: u16, row: int, col: int) -> char {
    if cell_bright(img, tw, th, row, col) {
        bright_glyph()
    } else {
        dark_glyph()
    }
}

/// The first `len` glyphs of output row `row`.
pub open spec fn line_prefix(img: GrayImage, tw: u16, th: u16, row: int, len: int) -> Seq<char> {
    Seq::new(len as nat, |col: int| cell_char(img, tw, th, row, col))
}

/// Output row `row`: `tw` glyphs followed by a newline.
pub open spec fn render_line(img: GrayImage, tw: u16, th: u16, row: int) -> Seq<char> {
    line_prefix(img, tw, th, row, tw as int).push('\n')
}

/// The first `rows` output rows, concatenated.
pub open spec fn render_rows(img: GrayImage, tw: u16, th: u16, rows: int) -> Seq<char>
    decreases rows,
{
    if rows <= 0 {
        Seq::empty()
    } else {
        render_rows(img, tw, th, rows - 1) + render_line(img, tw, th, rows - 1)
    }
}

/// The whole rendered frame, as a sequence of characters.
pub open spec fn spec_render(img: GrayImage, tw: u16, th: u16) -> Seq<char> {
    render_rows(img, tw, th, th as int)
}

/// Renders one frame as ASCII art: `term_height` lines of `term_width`
/// glyphs each, newline-terminated.  Each cell takes its
/// nearest-neighbor luminance sample at a uniform, aspect-preserving
/// scale and is dithered to the ramp's first or last glyph by the 2x2
/// ordered-dither threshold at its position.
pub fn render(img: &GrayImage, term_width: u16, term_height: u16) -> (out: String)
    requires
        img.wf(),
        term_width >= 1,
        term_height >= 1,
    ensures
        out@ == spec_render(*img, term_width, term_height),
{
    proof {
        vstd::arithmetic::mul::lemma_mul_upper_bound(
            img.width as int, 0xffff_ffff, term_height as int, 0xffff);
        vstd::arithmetic::mul::lemma_mul_upper_bound(
            img.height as int, 0xffff_ffff, term_width as int, 0xffff);
    }
    let wide = (img.width as u64) * (term_height as u64) >= (img.height as u64) * (term_width as u64);
    let num: u64 = if wide { img.width as u64 } else { img.height as u64 };
    let den: u64 = if wide { term_width as u64 } else { term_height as u64 };
    proof {
        assert(num == scale_num(*img, term_width, term_height));
        assert(den == scale_den(*img, term_width, term_height));
    }

    let mut out = String::new();
    let mut j: u16 = 0;
    proof {
        assert(out@ =~= render_rows(*img, term_width, term_height, 0));
    }
    while j < term_height
        invariant
            img.wf(),
            term_width >= 1,
            term_height >= 1,
            j <= term_height,
            num == scale_num(*img, term_width, term_height),
            den == scale_den(*img, term_width, term_height),
            out@ == render_rows(*img, term_width, term_height, j as int),
        decreases term_height - j,
    {
        let mut i: u16 = 0;
        proof {
            assert(out@ =~= render_rows(*img, term_width, term_height, j as int)
                + line_prefix(*img, term_width, term_height, j as int, 0));
        }
        while i < term_width
            invariant
                img.wf(),
                term_width >= 1,
                term_height >= 1,
                j < term_height,
                i <= term_width,
                num == scale_num(*img, term_width, term_height),
                den == scale_den(*img, term_width, term_height),
                out@ == render_rows(*img, term_width, term_height, j as int)
                    + line_prefix(*img, term_width, term_height, j as int, i as int),
            decreases term_width - i,
        {
            proof {
                vstd::arithmetic::mul::lemma_mul_upper_bound(
                    i as int, 0xffff, num as int, 0xffff_ffff);
                vstd::arithmetic::mul::lemma_mul_upper_bound(
                    j as int, 0xffff, num as int, 0xffff_ffff);
                vstd::arithmetic::mul::lemma_mul_nonnegative(i as int, num as int);
                vstd::arithmetic::mul::lemma_mul_nonnegative(j as int, num as int);
                vstd::arithmetic::div_mod::lemma_div_pos_is_pos((i as int) * (num as int), den as int);
                vstd::arithmetic::div_mod::lemma_div_pos_is_pos((j as int) * (num as int), den as int);
            }
            let tx = ((i as u64) * num) / den;
            let px: u32 = if tx <= (img.width - 1) as u64 { tx as u32 } else { img.width - 1 };
            let ty = ((j as u64) * num) / den;
            let py: u32 = if ty <= (img.height - 1) as u64 { ty as u32 } else { img.height - 1 };
            proof {
                assert(px == src_x(*img, term_width, term_height, i as int));
                assert(py == src_y(*img, term_width, term_height, j as int));
            }
            let s = img.sample_at(px, py);
            let w = dither_weight_at(j, i);
            if (s as u16) > 51 * (w as u16) {
                out.append("$");
                proof {
                    reveal_strlit("$");
                    assert(cell_char(*img, term_width, term_height, j as int, i as int)
                        == bright_glyph());
                    assert(out@ =~= render_rows(*img, term_width, term_height, j as int)
                        + line_prefix(*img, term_width, term_height, j as int, i as int + 1));
                }
            } else {
                out.append(" ");
                proof {
                    reveal_strlit(" ");
                    assert(cell_char(*img, term_width, term_height, j as int, i as int)
                        == dark_glyph());
                    assert(out@ =~= render_rows(*img, term_width, term_height, j as int)
                        + line_prefix(*img, term_width, term_height, j as int, i as int + 1));
                }
            }
            i = i + 1;
        }
        out.append("\n");
        proof {
            reveal_strlit("\n");
            assert(out@ =~= render_rows(*img, term_width, term_height, j as int + 1));
        }
        j = j + 1;
    }
    out
}

/// The character of the first `rows` output rows at output position
/// `(row, col)`, where `col == tw` addresses the row's newline.
pub open spec fn rows_char(img: GrayImage, tw: u16, th: u16, rows: int, row: int, col: int) -> char {
    render_rows(img, tw, th, rows)[row * (tw as int + 1) + col]
}

/// Shape of the first `rows` output rows: `tw + 1` characters per row,
/// the glyphs of row `row` at indices `row * (tw + 1)` through
/// `row * (tw + 1) + tw - 1` and a newline after them.
proof fn lemma_render_rows_shape(img: GrayImage, tw: u16, th: u16, rows: int)
    requires
        0 <= rows,
    ensures
        render_rows(img, tw, th, rows).len() == rows * (tw as int + 1),
        forall|row: int, col: int| 0 <= row < rows && 0 <= col <= tw ==>
            #[trigger] rows_char(img, tw, th, rows, row, col) == line_char(img, tw, th, row, col),
    decreases rows,
{
    let w1 = tw as int + 1;
    if rows > 0 {
        lemma_render_rows_shape(img, tw, th, rows - 1);
        let prev = render_rows(img, tw, th, rows - 1);
        let line = render_line(img, tw, th, rows - 1);
        let cur = render_rows(img, tw, th, rows);
        assert(cur == prev + line);
        assert(line.len() == w1);
        assert((rows - 1) * w1 + w1 == rows * w1) by (nonlinear_arith);
        assert(cur.len() == prev.len() + line.len());
        assert(cur.len() == rows * w1);
        assert forall|row: int, col: int| 0 <= row < rows && 0 <= col <= tw implies
            #[trigger] rows_char(img, tw, th, rows, row, col) == line_char(img, tw, th, row, col) by {
            vstd::arithmetic::mul::lemma_mul_nonnegative(row, w1);
            if row < rows - 1 {
                vstd::arithmetic::mul::lemma_mul_inequality(row, rows - 2, w1);
                assert((rows - 2) * w1 + w1 == (rows - 1) * w1) by (nonlinear_arith);
                assert(row * w1 + col < prev.len());
                assert(cur[row * w1 + col] == prev[row * w1 + col]);
                assert(prev[row * w1 + col] == rows_char(img, tw, th, rows - 1, row, col));
            } else {
                assert(row == rows - 1);
                assert(cur[row * w1 + col] == line[col]);
            }
        }
    } else {
        assert(render_rows(img, tw, th, rows).len() == 0);
        assert(rows * w1 == 0) by (nonlinear_arith)
            requires
                rows == 0,
        ;
    }
}

/// The character at offset `col` of output row `row`: the cell's glyph
/// for `col < tw`, the newline at `col == tw`.
pub open spec fn line_char(img: GrayImage, tw: u16, th: u16, row: int, col: int) -> char {
    if col < tw {
        cell_char(img, tw, th, row, col)
    } else {
        '\n'
    }
}

/// The character of the rendered frame at output position `(row, col)`,
/// where `col == tw` addresses the row's newline.
pub open spec fn frame_char(img: GrayImage, tw: u16, th: u16, row: int, col: int) -> char {
    spec_render(img, tw, th)[row * (tw as int + 1) + col]
}

/// Law: a rendered frame holds exactly `th` lines of exactly `tw`
/// glyphs each, each line closed by a newline: the frame character at
/// `(row, col)` is the glyph of cell `(row, col)` for `col < tw` and a
/// newline at `col == tw`, and every glyph is a character of the ramp.
pub proof fn lemma_render_shape(img: GrayImage, tw: u16, th: u16)
    requires
        img.wf(),
        tw >= 1,
        th >= 1,
    ensures
        spec_render(img, tw, th).len() == (th as int) * (tw as int + 1),
        forall|row: int, col: int| 0 <= row < th && 0 <= col <= tw ==>
            #[trigger] frame_char(img, tw, th, row, col) == line_char(img, tw, th, row, col),
        forall|row: int, col: int| 0 <= row < th && 0 <= col < tw ==>
            char_ramp().contains(#[trigger] cell_char(img, tw, th, row, col)),
{
    lemma_render_rows_shape(img, tw, th, th as int);
    lemma_glyphs_in_ramp();
    assert forall|row: int, col: int| 0 <= row < th && 0 <= col <= tw implies
        #[trigger] frame_char(img, tw, th, row, col) == line_char(img, tw, th, row, col) by {
        assert(rows_char(img, tw, th, th as int, row, col) == line_char(img, tw, th, row, col));
    }
}

/// Law: every sampled source coordinate lies inside the image, even at
/// the last row and column where the scale's rounding could otherwise
/// overshoot.
pub proof fn lemma_sample_in_bounds(img: GrayImage, tw: u16, th: u16, row: int, col: int)
    requires
        img.wf(),
        tw >= 1,
        th >= 1,
        0 <= row,
        0 <= col,
    ensures
        0 <= src_x(img, tw, th, col) < img.width,
        0 <= src_y(img, tw, th, row) < img.height,
{
    vstd::arithmetic::mul::lemma_mul_nonnegative(col, scale_num(img, tw, th));
    vstd::arithmetic::mul::lemma_mul_nonnegative(row, scale_num(img, tw, th));
    vstd::arithmetic::div_mod::lemma_div_pos_is_pos(
        col * scale_num(img, tw, th), scale_den(img, tw, th));
    vstd::arithmetic::div_mod::lemma_div_pos_is_pos(
        row * scale_num(img, tw, th), scale_den(img, tw, th));
}

/// Law: rendering is deterministic.  The output is a function of the
/// image and the target size alone, so two renders of the same inputs
/// are identical character for character.
pub proof fn lemma_render_deterministic(img: GrayImage, tw: u16, th: u16, a: Seq<char>, b: Seq<char>)
    requires
        a == spec_render(img, tw, th),
        b == spec_render(img, tw, th),
    ensures
        a == b,
{
}

/// Law: a uniformly black image (every sample 0) renders to the ramp's
/// first glyph in every cell, since 0 never exceeds a threshold.
pub proof fn lemma_black_all_dark(img: GrayImage, tw: u16, th: u16, row: int, col: int)
    requires
        img.wf(),
        tw >= 1,
        th >= 1,
        0 <= row,
        0 <= col,
        forall|k: int| 0 <= k < img.pixels@.len() ==> img.pixels@[k] == 0,
    ensures
        cell_char(img, tw, th, row, col) == dark_glyph(),
{
    lemma_sample_in_bounds(img, tw, th, row, col);
    let x = src_x(img, tw, th, col);
    let y = src_y(img, tw, th, row);
    assert(y * img.width + x < img.width * img.height) by (nonlinear_arith)
        requires
            0 <= x < img.width,
            0 <= y < img.height,
    ;
    vstd::arithmetic::mul::lemma_mul_nonnegative(y, img.width as int);
    assert(img.sample(x, y) == 0);
    crate::dither::lemma_dither_parity(row, col);
}

/// Law: a uniformly white image (every sample 255) renders to the
/// ramp's last glyph in every cell, since 255 exceeds every threshold.
pub proof fn lemma_white_all_bright(img: GrayImage, tw: u16, th: u16, row: int, col: int)
    requires
        img.wf(),
        tw >= 1,
        th >= 1,
        0 <= row,
        0 <= col,
        forall|k: int| 0 <= k < img.pixels@.len() ==> img.pixels@[k] == 255,
    ensures
        cell_char(img, tw, th, row, col) == bright_glyph(),
{
    lemma_sample_in_bounds(img, tw, th, row, col);
    let x = src_x(img, tw, th, col);
    let y = src_y(img, tw, th, row);
    assert(y * img.width + x < img.width * img.height) by (nonlinear_arith)
        requires
            0 <= x < img.width,
            0 <= y < img.height,
    ;
    vstd::arithmetic::mul::lemma_mul_nonnegative(y, img.width as int);
    assert(img.sample(x, y) == 255);
    crate::dither::lemma_dither_parity(row, col);
}

} // verus!
