use vstd::prelude::*;

verus! {

/// Available colormaps for spectrogram visualisation.
#[derive(Debug, Clone, Copy, PartialEq, Eq, Structural)]
pub enum Colormap {
    /// Perceptually uniform; the usual choice for spectrograms.
    Viridis,
    /// Perceptually uniform, good for dark backgrounds.
    Magma,
    /// Perceptually uniform, high contrast.
    Inferno,
    /// Perceptually uniform, bright.
    Plasma,
    /// Grayscale.
    Gray,
}

impl Default for Colormap {
    fn default() -> (c: Colormap)
        ensures
            c == Colormap::Viridis,
    {
        Colormap::Viridis
    }
}

/// Image row that shows frequency bin `freq_idx` in an image of `height` rows:
/// rows are counted from the top, so low frequencies go to the bottom.
pub open spec fn flipped_row(freq_idx: int, height: int) -> int {
    height - 1 - freq_idx
}

/// Size of the image of a `[frequency][time]` matrix as `(width, height)`: one
/// pixel per cell, time along the width. `None` when a side does not fit the
/// image's 32-bit coordinates.
pub fn image_size(n_freq_bins: usize, n_frames: usize) -> (size: Option<(u32, u32)>)
    ensures
        size is Some <==> n_freq_bins <= u32::MAX && n_frames <= u32::MAX,
        size matches Some(s) ==> s.0 == n_frames && s.1 == n_freq_bins,
{
    if n_freq_bins <= 0xffff_ffff && n_frames <= 0xffff_ffff {
        Some((n_frames as u32, n_freq_bins as u32))
    } else {
        None
    }
}

/// `image` is the picture of `matrix`: as many rows, in opposite order, each
/// cell shaded on its own. Row `y` of the image, counted from the top, shows
/// row `height - 1 - y` of the matrix, and column `x` shows frame `x`.
pub open spec fn is_picture<T, P, S: Fn(T) -> P>(
    matrix: Seq<Vec<T>>,
    shade: S,
    image: Seq<Vec<P>>,
) -> bool {
    &&& image.len() == matrix.len()
    &&& forall|y: int|
        0 <= y < image.len() ==> (#[trigger] image[y])@.len() == matrix[flipped_row(
            y,
            matrix.len() as int,
        )]@.len()
    &&& forall|y: int, x: int|
        0 <= y < image.len() && 0 <= x < image[y]@.len() ==> call_ensures(
            shade,
            (matrix[flipped_row(y, matrix.len() as int)]@[x],),
            #[trigger] image[y]@[x],
        )
}

/// Lays a `[frequency][time]` matrix out as image rows, top row first, with
/// the frequency axis inverted, and shades every cell with `shade`.
pub fn shade_image<T: Copy, P, S: Fn(T) -> P>(matrix: &Vec<Vec<T>>, shade: &S) -> (image: Vec<
    Vec<P>,
>)
    requires
        forall|v: T| call_requires(*shade, (v,)),
    ensures
        is_picture(matrix@, *shade, image@),
{
    let height: usize = matrix.len();
    let mut image: Vec<Vec<P>> = Vec::new();
    let mut y: usize = 0;
    while y < height
        invariant
            y <= height,
            height == matrix@.len(),
            forall|v: T| call_requires(*shade, (v,)),
            image@.len() == y,
            forall|r: int|
                0 <= r < y ==> (#[trigger] image@[r])@.len() == matrix@[flipped_row(
                    r,
                    height as int,
                )]@.len(),
            forall|r: int, x: int|
                0 <= r < y && 0 <= x < image@[r]@.len() ==> call_ensures(
                    *shade,
                    (matrix@[flipped_row(r, height as int)]@[x],),
                    #[trigger] image@[r]@[x],
                ),
        decreases height - y,
    {
        let source: usize = height - 1 - y;
        let width: usize = matrix[source].len();
        let mut line: Vec<P> = Vec::new();
        let mut x: usize = 0;
        while x < width
            invariant
                x <= width,
                source < matrix@.len(),
                width == matrix@[source as int]@.len(),
                forall|v: T| call_requires(*shade, (v,)),
                line@.len() == x,
                forall|c: int|
                    0 <= c < x ==> call_ensures(
                        *shade,
                        (matrix@[source as int]@[c],),
                        #[trigger] line@[c],
                    ),
            decreases width - x,
        {
            let pixel = shade(matrix[source][x]);
            line.push(pixel);
            x += 1;
        }
        image.push(line);
        y += 1;
    }
    image
}

/// Flipping the frequency axis twice gives the same row again, and two
/// different bins never share an image row.
pub proof fn lemma_flip_is_involution(a: int, b: int, height: int)
    requires
        0 <= a < height,
        0 <= b < height,
    ensures
        0 <= flipped_row(a, height) < height,
        flipped_row(flipped_row(a, height), height) == a,
        flipped_row(a, height) == flipped_row(b, height) ==> a == b,
        a < b ==> flipped_row(a, height) > flipped_row(b, height),
{
}

} // verus!
