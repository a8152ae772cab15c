use vstd::prelude::*;

use pixelate::Color;

use crate::grid::{
    create_image_data, draws_of, effective_width, grid_draw_count, grid_of, lemma_draws_half, width_of,
};
use crate::seed::{fold_seed, lemma_fold_seed_bound, Seed};

verus! {

#[verifier::external_type_specification]
pub struct ExColor(pixelate::Color);

#[verifier::external_type_specification]
pub struct ExError(pixelate::Error);

/// What `pixelate::Image::render` writes for a palette, the palette indices of
/// the unscaled pixels, their row width and the scale.
pub uninterp spec fn png_of(palette: Seq<Color>, pixels: Seq<u8>, width: nat, scale: nat) -> Seq<u8>;

/// Relies on `pixelate::WHITE`, the colour `Rgb(255, 255, 255)`.
#[verifier::external_body]
fn white() -> (r: Color)
    ensures
        r == Color::Rgb(255, 255, 255),
{
    pixelate::WHITE
}

/// Relies on `pixelate::Image::render`, writing into a vector: it refuses a
/// palette of more than 256 or fewer than 2 colours, and otherwise encodes
/// the image as a PNG whose bytes depend on its arguments alone. A palette
/// of two colours is encoded at one bit per pixel, where the row lengths the
/// encoder computes cannot overflow; the buffer handed to it then always has
/// the size it checks for, and writing into a vector cannot fail, so such a
/// palette is always rendered. The bounds
/// keep its own arithmetic and the image dimensions, which it narrows to
/// `u32`, from overflowing; a zero width or scale makes it panic.
#[verifier::external_body]
fn render_png(
    palette: &Vec<Color>,
    pixels: &Vec<u8>,
    width: usize,
    scale: usize,
) -> (r: Result<Vec<u8>, pixelate::Error>)
    requires
        width > 0,
        scale > 0,
        pixels@.len() >= width,
        width * scale <= u32::MAX,
        (pixels@.len() as int / width as int) * scale <= u32::MAX,
        (width * scale) * ((pixels@.len() as int / width as int) * scale) <= usize::MAX,
    ensures
        palette@.len() > 256 ==> r is Err && r->Err_0 == pixelate::Error::PaletteTooBig,
        palette@.len() < 2 ==> r is Err && r->Err_0 == pixelate::Error::PaletteTooSmall,
        palette@.len() == 2 ==> r is Ok,
        r matches Ok(png) ==> png@ == png_of(palette@, pixels@, width as nat, scale as nat),
{
    let mut png: Vec<u8> = Vec::new();
    let image = pixelate::Image { palette: palette.as_slice(), pixels: pixels.as_slice(), width, scale };
    match image.render(&mut png) {
        Ok(()) => Ok(png),
        Err(e) => Err(e),
    }
}

/// Why an icon could not be encoded; one variant for each error of the
/// PNG renderer.
#[derive(Clone, Copy, Debug, PartialEq, Eq, Structural)]
pub enum IconError {
    /// The PNG encoding failed.
    PngEncoding,
    /// Writing the encoded image failed.
    Io,
    /// The palette held more than 256 colours.
    PaletteTooBig,
    /// The palette held fewer than 2 colours.
    PaletteTooSmall,
}

/// The error of this library that stands for a renderer error.
pub open spec fn error_of(e: pixelate::Error) -> IconError {
    match e {
        pixelate::Error::PngEncoding => IconError::PngEncoding,
        pixelate::Error::Io => IconError::Io,
        pixelate::Error::PaletteTooBig => IconError::PaletteTooBig,
        pixelate::Error::PaletteTooSmall => IconError::PaletteTooSmall,
    }
}

fn icon_error(e: pixelate::Error) -> (r: IconError)
    ensures
        r == error_of(e),
{
    match e {
        pixelate::Error::PngEncoding => IconError::PngEncoding,
        pixelate::Error::Io => IconError::Io,
        pixelate::Error::PaletteTooBig => IconError::PaletteTooBig,
        pixelate::Error::PaletteTooSmall => IconError::PaletteTooSmall,
    }
}

/// Settings of a classic two-colour identicon.
pub struct Classic {
    /// Number of blocks per row and column; an odd size is widened by one
    /// column so that each row mirrors exactly. Default: 8.
    pub size: usize,
    /// Width and height in pixels of one block. Default: 16.
    pub scale: usize,
    /// Fixed foreground colour; when `None` it is drawn from the seed.
    pub color: Option<Color>,
    /// Fixed background colour; when `None` it is white.
    pub background_color: Option<Color>,
}

/// The number of draws that the foreground colour takes: three (hue,
/// saturation, lightness) when it is drawn from the seed, none when fixed.
pub open spec fn color_draws(c: Classic) -> nat {
    if c.color is Some {
        0
    } else {
        3
    }
}

/// The states that the draws of the grid read, in the order they are taken:
/// they follow the colour's draws.
pub open spec fn grid_states_of(c: Classic, seed: Seq<u8>) -> Seq<u64> {
    Seq::new(
        draws_of(c.size as nat),
        |i: int| (fold_seed(seed) + color_draws(c) + i) as u64,
    )
}

/// The foreground colour: the fixed one, else the one drawn from the seed.
pub open spec fn foreground_of(c: Classic, drawn: Option<Color>) -> Color {
    match c.color {
        Some(fg) => fg,
        None => drawn->Some_0,
    }
}

/// The background colour: the fixed one, else white.
pub open spec fn background_of(c: Classic) -> Color {
    match c.background_color {
        Some(bg) => bg,
        None => Color::Rgb(255, 255, 255),
    }
}

/// The palette of the image: background at index 0, foreground at index 1.
pub open spec fn palette_of(c: Classic, drawn: Option<Color>) -> Seq<Color> {
    seq![background_of(c), foreground_of(c, drawn)]
}

/// The PNG image of the icon, given the outcome of its draws.
pub open spec fn icon_of(c: Classic, drawn: Option<Color>, bits: Seq<bool>) -> Seq<u8> {
    png_of(
        palette_of(c, drawn),
        grid_of(c.size as nat, bits),
        width_of(c.size as nat),
        c.scale as nat,
    )
}

/// The image dimensions of `c` are positive and fit the renderer.
pub open spec fn renderable(c: Classic) -> bool {
    let w = width_of(c.size as nat);
    &&& c.size > 0
    &&& c.scale > 0
    &&& w * c.scale <= u32::MAX
    &&& c.size * c.scale <= u32::MAX
    &&& (w * c.scale) * (c.size * c.scale) <= usize::MAX
}

/// The grid of the icon fits in memory.
pub open spec fn grid_fits(c: Classic) -> bool {
    c.size * width_of(c.size as nat) <= usize::MAX
}

/// Generation is deterministic: equal seeds and settings give the same
/// draws, hence, for the same outcome of those draws, the same image.
pub proof fn lemma_deterministic(
    c: Classic,
    s1: Seq<u8>,
    s2: Seq<u8>,
    d1: Option<Color>,
    d2: Option<Color>,
    b1: Seq<bool>,
    b2: Seq<bool>,
)
    requires
        s1 == s2,
        d1 == d2,
        b1 == b2,
    ensures
        fold_seed(s1) == fold_seed(s2),
        grid_states_of(c, s1) == grid_states_of(c, s2),
        icon_of(c, d1, b1) == icon_of(c, d2, b2),
{
}

/// With both colours fixed, the palette is `[background, foreground]` as
/// given, whatever colour the seed would give, and the grid's draws start
/// from the seed's undisturbed state.
pub proof fn lemma_fixed_colors(c: Classic, seed: Seq<u8>, d1: Option<Color>, d2: Option<Color>)
    requires
        grid_fits(c),
        c.color is Some,
        c.background_color is Some,
    ensures
        palette_of(c, d1) == seq![c.background_color->Some_0, c.color->Some_0],
        palette_of(c, d1) == palette_of(c, d2),
        forall|i: int|
            0 <= i < draws_of(c.size as nat) ==> #[trigger] grid_states_of(c, seed)[i] == fold_seed(
                seed,
            ) + i,
{
    lemma_fold_seed_bound(seed);
    lemma_draws_half(c.size as nat);
}

/// The grid's draws come after the colour's: drawing the foreground colour
/// from the seed moves every draw of the grid three states on, so that the
/// grids of the two modes read different states.
pub proof fn lemma_draw_order(fixed: Classic, drawn: Classic, seed: Seq<u8>)
    requires
        grid_fits(fixed),
        fixed.size == drawn.size,
        fixed.color is Some,
        drawn.color is None,
    ensures
        grid_states_of(fixed, seed).len() == grid_states_of(drawn, seed).len(),
        forall|i: int|
            0 <= i < draws_of(fixed.size as nat) ==> #[trigger] grid_states_of(drawn, seed)[i]
                == grid_states_of(fixed, seed)[i] + 3,
        draws_of(fixed.size as nat) > 0 ==> grid_states_of(fixed, seed) != grid_states_of(
            drawn,
            seed,
        ),
{
    lemma_fold_seed_bound(seed);
    lemma_draws_half(fixed.size as nat);
    if draws_of(fixed.size as nat) > 0 {
        assert(grid_states_of(drawn, seed)[0] == grid_states_of(fixed, seed)[0] + 3);
    }
}

/// The draws of the grid see only the generator state: with the colour drawn
/// from seed `s`, the grid reads the same states as with a fixed colour from
/// a seed `t` that folds three states further on.
pub proof fn lemma_shifted_draws(drawn: Classic, fixed: Classic, s: Seq<u8>, t: Seq<u8>)
    requires
        grid_fits(drawn),
        drawn.size == fixed.size,
        drawn.color is None,
        fixed.color is Some,
        fold_seed(t) == fold_seed(s) + 3,
    ensures
        grid_states_of(drawn, s) == grid_states_of(fixed, t),
{
    assert(grid_states_of(drawn, s) =~= grid_states_of(fixed, t));
}

impl Default for Classic {
    fn default() -> (r: Classic)
        ensures
            r.size == 8,
            r.scale == 16,
            r.color is None,
            r.background_color is None,
    {
        Classic { size: 8, scale: 16, color: None, background_color: None }
    }
}

impl Classic {
    /// Whether the icon's dimensions are positive and fit the renderer; then
    /// its grid fits in memory too.
    pub fn fits(&self) -> (r: bool)
        ensures
            r == renderable(*self),
            r ==> grid_fits(*self),
    {
        let size = self.size as u128;
        let scale = self.scale as u128;
        if size == 0 || scale == 0 {
            return false;
        }
        let w: u128 = size + size % 2;
        assert(w * scale < 0x1_0000_0000_0000_0000_0000_0000_0000_0000 && size * scale
            < 0x1_0000_0000_0000_0000_0000_0000_0000_0000) by (nonlinear_arith)
            requires
                size < 0x1_0000_0000_0000_0000,
                w <= 0x1_0000_0000_0000_0000,
                scale < 0x1_0000_0000_0000_0000,
        ;
        let ws: u128 = w * scale;
        let hs: u128 = size * scale;
        if ws > u32::MAX as u128 || hs > u32::MAX as u128 {
            return false;
        }
        assert(ws * hs <= 0xffff_ffff * 0xffff_ffff) by (nonlinear_arith)
            requires
                ws <= 0xffff_ffff,
                hs <= 0xffff_ffff,
        ;
        let ok = ws * hs <= usize::MAX as u128;
        proof {
            if ok {
                assert(size * w <= ws * hs) by (nonlinear_arith)
                    requires
                        ws == w * scale,
                        hs == size * scale,
                        scale >= 1,
                        w >= 0,
                        size >= 0,
                ;
            }
        }
        ok
    }

    /// The state that the first of the three colour draws reads, when the
    /// foreground colour is drawn from the seed; the next two draws read the
    /// two states after it.
    pub fn color_state(&self, seed: &[u8]) -> (r: Option<u64>)
        ensures
            self.color is Some ==> r is None,
            self.color is None ==> r == Some(fold_seed(seed@)),
    {
        if self.color.is_some() {
            None
        } else {
            let s = Seed::new(seed);
            Some(s.state())
        }
    }

    /// The states that the grid's draws read, one per drawn block, row by
    /// row: they follow the colour's draws on the same generator.
    pub fn grid_states(&self, seed: &[u8]) -> (r: Vec<u64>)
        requires
            grid_fits(*self),
        ensures
            r@ == grid_states_of(*self, seed@),
    {
        let mut s = Seed::new(seed);
        proof {
            lemma_fold_seed_bound(seed@);
        }
        if self.color.is_none() {
            s.next_state();
            s.next_state();
            s.next_state();
        }
        let n: usize = grid_draw_count(self.size);
        proof {
            lemma_draws_half(self.size as nat);
        }
        let ghost start = s.value();
        let mut states: Vec<u64> = Vec::new();
        let mut i: usize = 0;
        while i < n
            invariant
                n == draws_of(self.size as nat),
                start == fold_seed(seed@) + color_draws(*self),
                start < 0x10003,
                n * 2 <= usize::MAX,
                i <= n,
                s.value() == start + i,
                states@.len() == i,
                forall|k: int| 0 <= k < i ==> states@[k] == start + k,
            decreases n - i,
        {
            let x = s.next_state();
            states.push(x);
            i = i + 1;
        }
        assert(states@ =~= grid_states_of(*self, seed@));
        states
    }

    /// The palette of the icon, given the colour drawn from the seed (used
    /// only when no foreground colour is fixed).
    pub fn palette(&self, drawn: Option<Color>) -> (r: Vec<Color>)
        requires
            self.color is Some || drawn is Some,
        ensures
            r@ == palette_of(*self, drawn),
    {
        let fg = match self.color {
            Some(c) => c,
            None => drawn.unwrap(),
        };
        let bg = match self.background_color {
            Some(c) => c,
            None => white(),
        };
        let mut p: Vec<Color> = Vec::new();
        p.push(bg);
        p.push(fg);
        assert(p@ =~= palette_of(*self, drawn));
        p
    }

    /// Encodes the icon as a PNG image, given the outcome of its draws: the
    /// colour drawn from the three states that `color_state` names (used
    /// only when no foreground colour is fixed), and whether each draw of
    /// `grid_states` came out at one half or more. The image has the palette
    /// `[background, foreground]`, the mirrored grid of blocks as its
    /// indices, and each block scaled to `scale` pixels square.
    pub fn create_icon(&self, drawn: Option<Color>, bits: &Vec<bool>) -> (r: Result<Vec<u8>, IconError>)
        requires
            self.color is Some || drawn is Some,
            renderable(*self),
            bits@.len() == draws_of(self.size as nat),
        ensures
            r is Ok,
            r matches Ok(png) ==> png@ == icon_of(*self, drawn, bits@),
    {
        proof {
            let ww = width_of(self.size as nat);
            let sz = self.size as nat;
            let sc = self.scale as nat;
            assert(ww <= ww * sc) by (nonlinear_arith)
                requires
                    sc >= 1,
            ;
            assert(sz * ww <= (ww * sc) * (sz * sc)) by (nonlinear_arith)
                requires
                    sc >= 1,
            ;
        }
        let w: usize = effective_width(self.size);
        let palette = self.palette(drawn);
        let pixels = create_image_data(self.size, bits);
        proof {
            let ww = width_of(self.size as nat);
            let sz = self.size as nat;
            assert(pixels@.len() as int / ww as int == sz) by (nonlinear_arith)
                requires
                    pixels@.len() == sz * ww,
                    ww > 0,
            ;
            assert(pixels@.len() >= ww) by (nonlinear_arith)
                requires
                    pixels@.len() == sz * ww,
                    sz > 0,
            ;
        }
        match render_png(&palette, &pixels, w, self.scale) {
            Ok(png) => Ok(png),
            Err(e) => Err(icon_error(e)),
        }
    }
}

} // verus!
