//! Fields laid out as texture data: four half-precision channels per cell,
//! row by row, ready to be copied into a texture of the grid's size.

use vstd::prelude::*;
use crate::fixed::Fx;
use crate::grid::{Grid, MAX_SIDE, lemma_index_in_range};
use crate::half::{fx_to_f16, half_bits};
use crate::single::to_single;

verus! {

/// The channel values of a texture whose first channel holds the field `a`
/// and whose second channel holds the field `b`; the other two channels are
/// zero.
pub open spec fn texel_words(a: Seq<Fx>, b: Seq<Fx>) -> Seq<u16> {
    Seq::new(
        4 * a.len(),
        |j: int|
            if j % 4 == 0 {
                half_bits(to_single(a[j / 4]))
            } else if j % 4 == 1 {
                half_bits(to_single(b[j / 4]))
            } else {
                0u16
            },
    )
}

/// The channel values of a texture whose first channel holds the field `a`;
/// the other three channels are zero.
pub open spec fn scalar_texel_words(a: Seq<Fx>) -> Seq<u16> {
    Seq::new(
        4 * a.len(),
        |j: int|
            if j % 4 == 0 {
                half_bits(to_single(a[j / 4]))
            } else {
                0u16
            },
    )
}

/// Whether `bytes` holds the 16-bit words one after the other, each as two
/// bytes, the low byte first if `low_first` and the high byte first if not.
pub open spec fn holds_words(bytes: Seq<u8>, words: Seq<u16>, low_first: bool) -> bool {
    &&& bytes.len() == 2 * words.len()
    &&& forall|i: int|
        0 <= i < words.len() ==> {
            let low = (#[trigger] words[i]) % 0x100;
            let high = words[i] / 0x100;
            if low_first {
                bytes[2 * i] == low && bytes[2 * i + 1] == high
            } else {
                bytes[2 * i] == high && bytes[2 * i + 1] == low
            }
        }
}

/// Whether `bytes` holds the words in the byte order of some machine.
pub open spec fn encodes(bytes: Seq<u8>, words: Seq<u16>) -> bool {
    holds_words(bytes, words, true) || holds_words(bytes, words, false)
}

/// The content and the layout of one texture upload.
pub struct TextureData {
    /// The texels, row by row.
    pub bytes: Vec<u8>,
    /// The width of the texture in texels.
    pub width: u32,
    /// The height of the texture in texels.
    pub height: u32,
    /// The number of bytes from one row to the next.
    pub bytes_per_row: u32,
    /// The number of rows.
    pub rows_per_image: u32,
}

impl TextureData {
    /// The layout is that of a square texture of side `n` with eight bytes
    /// per texel, and the bytes fill it exactly.
    pub open spec fn fits(&self, n: nat) -> bool {
        &&& self.width == n
        &&& self.height == n
        &&& self.bytes_per_row == 8 * n
        &&& self.rows_per_image == n
        &&& self.bytes@.len() == self.bytes_per_row * self.rows_per_image
    }
}

/// `bytemuck::cast_slice` from 16-bit words to bytes, copied into a vector of
/// its own. The call views the memory of the words as bytes, so there are two
/// bytes for each word, in the order in which the machine stores a word: low
/// byte first or high byte first, the same for every word. It cannot fail: a
/// byte has no alignment to meet and every length is a multiple of one.
#[verifier::external_body]
fn words_as_bytes(words: &Vec<u16>) -> (bytes: Vec<u8>)
    ensures
        encodes(bytes@, words@),
{
    bytemuck::cast_slice::<u16, u8>(words.as_slice()).to_vec()
}

fn laid_out(words: &Vec<u16>, n: usize) -> (data: TextureData)
    requires
        0 < n <= MAX_SIDE,
        words@.len() == 4 * (n * n),
    ensures
        data.fits(n as nat),
        encodes(data.bytes@, words@),
{
    let bytes = words_as_bytes(words);
    assert(8 * n * n == 2 * (4 * (n * n))) by (nonlinear_arith);
    assert((8 * n) * n == 8 * n * n) by (nonlinear_arith);
    TextureData {
        bytes,
        width: n as u32,
        height: n as u32,
        bytes_per_row: (8 * n) as u32,
        rows_per_image: n as u32,
    }
}

/// The upload for a texture that shows one field in its first channel.
pub fn scalar_texture(field: &Grid<Fx>) -> (data: TextureData)
    requires
        field.wf(),
    ensures
        data.fits(field.spec_side()),
        encodes(data.bytes@, scalar_texel_words(field@)),
{
    let n: usize = field.side();
    let total: usize = field.len();
    proof {
        lemma_index_in_range(n as nat, 0, 0);
    }
    let mut words: Vec<u16> = Vec::with_capacity(4 * total);
    let mut i: usize = 0;
    while i < total
        invariant
            i <= total,
            total == field@.len(),
            total <= MAX_SIDE * MAX_SIDE,
            words@.len() == 4 * i,
            forall|j: int| 0 <= j < 4 * i ==> words@[j] == scalar_texel_words(field@)[j],
        decreases total - i,
    {
        words.push(fx_to_f16(field.get_index(i)));
        words.push(0);
        words.push(0);
        words.push(0);
        i += 1;
    }
    assert(words@ =~= scalar_texel_words(field@));
    laid_out(&words, n)
}

/// The upload for a texture that shows the field `a` in its first channel and
/// the field `b` in its second.
pub fn vector_texture(a: &Grid<Fx>, b: &Grid<Fx>) -> (data: TextureData)
    requires
        a.wf(),
        b.wf(),
        b.spec_side() == a.spec_side(),
    ensures
        data.fits(a.spec_side()),
        encodes(data.bytes@, texel_words(a@, b@)),
{
    let n: usize = a.side();
    let total: usize = a.len();
    proof {
        lemma_index_in_range(n as nat, 0, 0);
    }
    let mut words: Vec<u16> = Vec::with_capacity(4 * total);
    let mut i: usize = 0;
    while i < total
        invariant
            i <= total,
            total == a@.len(),
            total == b@.len(),
            total <= MAX_SIDE * MAX_SIDE,
            words@.len() == 4 * i,
            forall|j: int| 0 <= j < 4 * i ==> words@[j] == texel_words(a@, b@)[j],
        decreases total - i,
    {
        words.push(fx_to_f16(a.get_index(i)));
        words.push(fx_to_f16(b.get_index(i)));
        words.push(0);
        words.push(0);
        i += 1;
    }
    assert(words@ =~= texel_words(a@, b@));
    laid_out(&words, n)
}

} // verus!
