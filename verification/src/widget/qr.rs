//! The picture of a QR code, drawn from the modules that the `qrcode` crate
//! encodes.

use vstd::prelude::*;

verus! {

/// The side of one module of the code, in pixels.
pub const MODULE_SIZE: usize = 6;

/// The width of the light border around the code, in modules.
pub const QUIET_ZONE: usize = 4;

/// What `qrcode::QrCode::new` encodes for the UTF-8 bytes of `data`: the
/// number of modules per side and, row by row, whether each module is dark;
/// `None` when the data cannot be encoded. It is given a name here and not
/// written out.
pub uninterp spec fn qr_modules(data: Seq<char>) -> Option<(usize, Seq<bool>)>;

/// `qrcode::QrCode::new` on the bytes of `data`, then `width` and
/// `to_colors` of the code, each colour read as "is dark". The source shows
/// that `new` picks a normal version from 1 to 40, whose width is
/// `4 * version + 17`, and that the code has one colour per module.
#[verifier::external_body]
fn encode(data: &str) -> (code: Option<(usize, Vec<bool>)>)
    ensures
        match code {
            Some((width, dark)) => {
                &&& qr_modules(data@) == Some((width, dark@))
                &&& 21 <= width <= 177
                &&& dark@.len() == width * width
            },
            None => qr_modules(data@) is None,
        },
{
    match qrcode::QrCode::new(data) {
        Ok(code) => Some((
            code.width(),
            code.to_colors().into_iter().map(|color| match color {
                qrcode::Color::Dark => true,
                qrcode::Color::Light => false,
            }).collect(),
        )),
        Err(_) => None,
    }
}

/// An RGBA picture: `size` pixels on a side, four bytes per pixel, row by row.
#[derive(Debug, Clone)]
pub struct QrImage {
    pub size: u32,
    pub pixels: Vec<u8>,
}

/// The side, in pixels, of the picture of a code `width` modules wide.
pub open spec fn picture_size(width: int) -> int {
    (width + 2 * QUIET_ZONE) * MODULE_SIZE
}

/// Whether the pixel at `row`, `col` of the picture lies on a dark module:
/// the module it lies on, past the quiet zone, is within the code and dark.
pub open spec fn pixel_dark(width: int, dark: Seq<bool>, row: int, col: int) -> bool {
    let mx = col / (MODULE_SIZE as int) - QUIET_ZONE as int;
    let my = row / (MODULE_SIZE as int) - QUIET_ZONE as int;
    &&& 0 <= mx < width
    &&& 0 <= my < width
    &&& dark[my * width + mx]
}

/// The value of channel `ch` of the pixel at `row`, `col`: a dark pixel is
/// black and opaque, every other pixel white and opaque.
pub open spec fn pixel_byte(width: int, dark: Seq<bool>, row: int, col: int, ch: int) -> u8 {
    if ch < 3 && pixel_dark(width, dark, row, col) {
        0
    } else {
        0xff
    }
}

/// Whether `pixels` is the picture, `size` pixels on a side, of the code
/// `width` modules wide with the dark modules `dark`.
pub open spec fn draws(pixels: Seq<u8>, size: int, width: int, dark: Seq<bool>) -> bool {
    &&& pixels.len() == size * size * 4
    &&& forall|row: int, col: int, ch: int|
        0 <= row < size && 0 <= col < size && 0 <= ch < 4 ==> #[trigger] pixels[(row * size + col)
            * 4 + ch] == pixel_byte(width, dark, row, col, ch)
}

proof fn lemma_index_before(size: int, row: int, col: int, r: int, c: int, ch: int)
    requires
        0 <= r,
        0 <= c < size,
        0 <= col < size,
        r < row || (r == row && c < col),
        0 <= ch < 4,
    ensures
        0 <= (r * size + c) * 4 + ch < (row * size + col) * 4,
{
    if r < row {
        assert((r + 1) * size <= row * size) by (nonlinear_arith)
            requires
                r + 1 <= row,
                0 <= size,
        ;
        assert((r + 1) * size == r * size + size) by (nonlinear_arith);
    }
    assert(0 <= r * size) by (nonlinear_arith)
        requires
            0 <= r,
            0 <= size,
    ;
}

proof fn lemma_module_index(width: int, mx: int, my: int)
    requires
        0 <= mx < width,
        0 <= my < width,
        width <= 177,
    ensures
        0 <= my * width,
        0 <= my * width + mx < width * width,
        width * width <= 177 * 177,
{
    assert(width * width <= 177 * 177) by (nonlinear_arith)
        requires
            0 <= width <= 177,
    ;
    assert(my * width + mx < width * width) by (nonlinear_arith)
        requires
            0 <= mx < width,
            0 <= my < width,
    ;
    assert(0 <= my * width) by (nonlinear_arith)
        requires
            0 <= my,
            0 <= width,
    ;
}

/// Draws the code `width` modules wide: each module is a square of
/// `MODULE_SIZE` pixels, black when dark, within a white quiet zone of
/// `QUIET_ZONE` modules.
pub fn render(width: usize, dark: &Vec<bool>) -> (image: QrImage)
    requires
        21 <= width <= 177,
        dark@.len() == width * width,
    ensures
        image.size == picture_size(width as int),
        draws(image.pixels@, image.size as int, width as int, dark@),
{
    let size: usize = (width + 2 * QUIET_ZONE) * MODULE_SIZE;
    let mut pixels: Vec<u8> = Vec::new();
    let mut row: usize = 0;
    while row < size
        invariant
            21 <= width <= 177,
            dark@.len() == width * width,
            size == picture_size(width as int),
            row <= size,
            pixels@.len() == row * size * 4,
            forall|r: int, c: int, ch: int|
                0 <= r < row && 0 <= c < size && 0 <= ch < 4 ==> #[trigger] pixels@[(r * size + c)
                    * 4 + ch] == pixel_byte(width as int, dark@, r, c, ch),
        decreases size - row,
    {
        let mut col: usize = 0;
        while col < size
            invariant
                21 <= width <= 177,
                dark@.len() == width * width,
                size == picture_size(width as int),
                row < size,
                col <= size,
                pixels@.len() == (row * size + col) * 4,
                forall|r: int, c: int, ch: int|
                    0 <= r && 0 <= c < size && (r < row || (r == row && c < col)) && 0 <= ch < 4
                        ==> #[trigger] pixels@[(r * size + c) * 4 + ch] == pixel_byte(
                        width as int,
                        dark@,
                        r,
                        c,
                        ch,
                    ),
            decreases size - col,
        {
            assert(row * size + col < size * size) by (nonlinear_arith)
                requires
                    row < size,
                    col < size,
            ;
            let mx = col / MODULE_SIZE;
            let my = row / MODULE_SIZE;
            let on = if QUIET_ZONE <= mx && mx < QUIET_ZONE + width && QUIET_ZONE <= my && my
                < QUIET_ZONE + width {
                proof {
                    lemma_module_index(width as int, mx - QUIET_ZONE, my - QUIET_ZONE);
                }
                dark[(my - QUIET_ZONE) * width + (mx - QUIET_ZONE)]
            } else {
                false
            };
            assert(on == pixel_dark(width as int, dark@, row as int, col as int));
            let shade: u8 = if on {
                0
            } else {
                0xff
            };
            let ghost base = pixels@.len() as int;
            pixels.push(shade);
            pixels.push(shade);
            pixels.push(shade);
            pixels.push(0xff);
            proof {
                assert forall|r: int, c: int, ch: int|
                    0 <= r && 0 <= c < size && (r < row || (r == row && c < col + 1)) && 0 <= ch
                        < 4 implies #[trigger] pixels@[(r * size + c) * 4 + ch] == pixel_byte(
                    width as int,
                    dark@,
                    r,
                    c,
                    ch,
                ) by {
                    if r == row && c == col {
                        assert((r * size + c) * 4 + ch == base + ch);
                    } else {
                        lemma_index_before(size as int, row as int, col as int, r, c, ch);
                    }
                };
            }
            col = col + 1;
        }
        proof {
            assert((row + 1) * size == row * size + size) by (nonlinear_arith);
        }
        row = row + 1;
    }
    QrImage { size: size as u32, pixels }
}

/// The picture of the QR code of `data`, or `None` when `data` cannot be
/// encoded.
pub fn handle(data: &str) -> (image: Option<QrImage>)
    ensures
        match image {
            Some(image) => qr_modules(data@) matches Some((width, dark)) && image.size
                == picture_size(width as int) && draws(
                image.pixels@,
                image.size as int,
                width as int,
                dark,
            ),
            None => qr_modules(data@) is None,
        },
{
    match encode(data) {
        Some((width, dark)) => Some(render(width, &dark)),
        None => None,
    }
}

} // verus!
