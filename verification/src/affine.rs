//! Weight buffers: widening checkpoint bytes to single precision, splitting fused
//! rows, and affine dequantization. Single-precision values are `u32` patterns.
use vstd::arithmetic::power::{lemma_pow_positive, pow};
use vstd::prelude::*;
use vstd::slice::slice_subrange;

use crate::halves::{
    f32_to_f16_bits, half_to_f32, is_nearest_bf16, narrows_to_half, round_bf16_f32, widened_half,
};
use crate::text::{dec, size_text};

verus! {

/// The little-endian 16-bit value at element `i`.
pub open spec fn word16(bytes: Seq<u8>, i: int) -> int {
    bytes[2 * i] + 256 * bytes[2 * i + 1]
}

/// The little-endian 32-bit value at element `i`.
pub open spec fn word32(bytes: Seq<u8>, i: int) -> int {
    bytes[4 * i] + 256 * bytes[4 * i + 1] + 65536 * bytes[4 * i + 2] + 16777216 * bytes[4 * i + 3]
}

/// The storage format of a float tensor.
#[derive(Clone, Copy, Debug, PartialEq, Eq, Structural)]
pub enum FloatFormat {
    Float16,
    BFloat16,
    Float32,
}

/// Bytes per element.
pub open spec fn format_width(format: FloatFormat) -> int {
    match format {
        FloatFormat::Float32 => 4,
        _ => 2,
    }
}

/// Element `i` of a float buffer, widened to single precision.
pub open spec fn widened_at(format: FloatFormat, bytes: Seq<u8>, i: int) -> u32 {
    match format {
        FloatFormat::Float16 => widened_half(word16(bytes, i) as u16),
        FloatFormat::BFloat16 => (word16(bytes, i) * 65536) as u32,
        FloatFormat::Float32 => word32(bytes, i) as u32,
    }
}

/// A float buffer, widened to single precision; bytes of an incomplete last element
/// are dropped.
pub open spec fn widened(format: FloatFormat, bytes: Seq<u8>) -> Seq<u32> {
    Seq::new(
        (bytes.len() as int / format_width(format)) as nat,
        |i: int| widened_at(format, bytes, i),
    )
}

/// Widen a bfloat16 buffer.
pub fn bf16_to_f32(bytes: &[u8]) -> (r: Vec<u32>)
    ensures
        r@ == widened(FloatFormat::BFloat16, bytes@),
{
    let len: usize = bytes.len();
    let n: usize = len / 2;
    let mut out: Vec<u32> = Vec::new();
    let mut i: usize = 0;
    while i < n
        invariant
            len == bytes@.len(),
            n == len / 2,
            i <= n,
            out@ == widened(FloatFormat::BFloat16, bytes@).subrange(0, i as int),
        decreases n - i,
    {
        let word: u32 = bytes[2 * i] as u32 + 256 * bytes[2 * i + 1] as u32;
        out.push(word * 65536);
        i += 1;
        assert(out@ =~= widened(FloatFormat::BFloat16, bytes@).subrange(0, i as int));
    }
    assert(out@ =~= widened(FloatFormat::BFloat16, bytes@));
    out
}

/// Widen a half-precision buffer.
pub fn f16_to_f32(bytes: &[u8]) -> (r: Vec<u32>)
    ensures
        r@ == widened(FloatFormat::Float16, bytes@),
{
    let len: usize = bytes.len();
    let n: usize = len / 2;
    let mut out: Vec<u32> = Vec::new();
    let mut i: usize = 0;
    while i < n
        invariant
            len == bytes@.len(),
            n == len / 2,
            i <= n,
            out@ == widened(FloatFormat::Float16, bytes@).subrange(0, i as int),
        decreases n - i,
    {
        let word: u16 = bytes[2 * i] as u16 + 256 * bytes[2 * i + 1] as u16;
        out.push(half_to_f32(word));
        i += 1;
        assert(out@ =~= widened(FloatFormat::Float16, bytes@).subrange(0, i as int));
    }
    assert(out@ =~= widened(FloatFormat::Float16, bytes@));
    out
}

/// Read a single-precision buffer.
pub fn f32_le_to_f32(bytes: &[u8]) -> (r: Vec<u32>)
    ensures
        r@ == widened(FloatFormat::Float32, bytes@),
{
    let len: usize = bytes.len();
    let n: usize = len / 4;
    let mut out: Vec<u32> = Vec::new();
    let mut i: usize = 0;
    while i < n
        invariant
            len == bytes@.len(),
            n == len / 4,
            i <= n,
            out@ == widened(FloatFormat::Float32, bytes@).subrange(0, i as int),
        decreases n - i,
    {
        out.push(read_word32(bytes, i));
        i += 1;
        assert(out@ =~= widened(FloatFormat::Float32, bytes@).subrange(0, i as int));
    }
    assert(out@ =~= widened(FloatFormat::Float32, bytes@));
    out
}

fn read_word32(bytes: &[u8], i: usize) -> (r: u32)
    requires
        4 * i + 3 < bytes@.len(),
    ensures
        r == word32(bytes@, i as int),
{
    let len: usize = bytes.len();
    assert(4 * i + 3 < len);
    bytes[4 * i] as u32 + 256 * bytes[4 * i + 1] as u32 + 65536 * bytes[4 * i + 2] as u32
        + 16777216 * bytes[4 * i + 3] as u32
}

/// Widen a float buffer of any format.
pub fn widen(format: FloatFormat, bytes: &[u8]) -> (r: Vec<u32>)
    ensures
        r@ == widened(format, bytes@),
{
    match format {
        FloatFormat::Float16 => f16_to_f32(bytes),
        FloatFormat::BFloat16 => bf16_to_f32(bytes),
        FloatFormat::Float32 => f32_le_to_f32(bytes),
    }
}

/// Narrow a single-precision buffer to half precision.
pub fn pack_f16(data: &[u32]) -> (r: Vec<u16>)
    ensures
        r@.len() == data@.len(),
        forall|i: int| 0 <= i < data@.len() ==> narrows_to_half(data@[i], #[trigger] r@[i]),
{
    let mut out: Vec<u16> = Vec::new();
    let mut i: usize = 0;
    while i < data.len()
        invariant
            i <= data@.len(),
            out@.len() == i,
            forall|j: int| 0 <= j < i ==> narrows_to_half(data@[j], #[trigger] out@[j]),
        decreases data@.len() - i,
    {
        out.push(f32_to_f16_bits(data[i]));
        i += 1;
    }
    out
}

/// Packing what a half-precision buffer widens to gives its patterns back, where they
/// are finite.
pub proof fn law_packing_undoes_widening(bytes: Seq<u8>, packed: Seq<u16>)
    requires
        packed.len() == widened(FloatFormat::Float16, bytes).len(),
        forall|i: int|
            0 <= i < packed.len() ==> narrows_to_half(
                widened(FloatFormat::Float16, bytes)[i],
                #[trigger] packed[i],
            ),
        forall|i: int|
            0 <= i < packed.len() ==> (#[trigger] word16(bytes, i)) % 0x8000 < 0x7C00,
    ensures
        forall|i: int| 0 <= i < packed.len() ==> #[trigger] packed[i] == word16(bytes, i),
{
    assert forall|i: int| 0 <= i < packed.len() implies #[trigger] packed[i] == word16(bytes, i) by {
        assert(word16(bytes, i) % 0x8000 < 0x7C00);
        crate::halves::law_narrowing_undoes_widening(word16(bytes, i) as u16, packed[i]);
    }
}

/// Complaint about slicing rows `start..end` of a buffer that holds `out` rows.
pub open spec fn slice_error(len: nat, out: usize, start: usize, end: usize) -> Option<Seq<char>> {
    if out == 0 || len % out as nat != 0 {
        Some(
            "cannot row-slice a "@ + dec(len) + " element buffer as ["@ + dec(out as nat)
                + ", in]"@,
        )
    } else if start > end || end > out {
        Some(
            "row slice ["@ + dec(start as nat) + ", "@ + dec(end as nat) + ") out of range for "@
                + dec(out as nat) + " rows"@,
        )
    } else {
        None
    }
}

/// Rows `start..end` of a row-major buffer that holds `out` rows.
pub open spec fn row_band(buf: Seq<u32>, out: usize, start: usize, end: usize) -> Seq<u32> {
    let width = buf.len() as int / out as int;
    buf.subrange(start * width, end * width)
}

/// Slice rows `start..end` of a row-major buffer that holds `out` rows.
pub fn slice_rows(buf: &[u32], out: usize, start: usize, end: usize) -> (r: Result<
    Vec<u32>,
    String,
>)
    ensures
        match r {
            Ok(rows) => slice_error(buf@.len(), out, start, end) is None && rows@ == row_band(
                buf@,
                out,
                start,
                end,
            ),
            Err(message) => slice_error(buf@.len(), out, start, end) == Some(message@),
        },
{
    if out == 0 || buf.len() % out != 0 {
        return Err(
            "cannot row-slice a ".to_owned().concat(&size_text(buf.len())).concat(
                " element buffer as [",
            ).concat(&size_text(out)).concat(", in]"),
        );
    }
    if start > end || end > out {
        return Err(
            "row slice [".to_owned().concat(&size_text(start)).concat(", ").concat(
                &size_text(end),
            ).concat(") out of range for ").concat(&size_text(out)).concat(" rows"),
        );
    }
    let width: usize = buf.len() / out;
    proof {
        vstd::arithmetic::div_mod::lemma_fundamental_div_mod(buf@.len() as int, out as int);
        assert(end * width <= out * width) by (nonlinear_arith)
            requires
                end <= out,
        ;
        assert(start * width <= end * width) by (nonlinear_arith)
            requires
                start <= end,
        ;
        assert(out * width == buf@.len());
    }
    Ok(vstd::slice::slice_to_vec(slice_subrange(buf, start * width, end * width)))
}

/// Adjacent row bands of a buffer join to the band over both.
pub proof fn law_adjacent_bands_join(
    buf: Seq<u32>,
    out: usize,
    a: usize,
    b: usize,
    c: usize,
)
    requires
        slice_error(buf.len(), out, a, b) is None,
        slice_error(buf.len(), out, b, c) is None,
    ensures
        slice_error(buf.len(), out, a, c) is None,
        row_band(buf, out, a, b) + row_band(buf, out, b, c) == row_band(buf, out, a, c),
{
    let width = buf.len() as int / out as int;
    vstd::arithmetic::div_mod::lemma_fundamental_div_mod(buf.len() as int, out as int);
    assert(0 <= a * width <= b * width) by (nonlinear_arith)
        requires
            0 <= a <= b,
            width >= 0,
    ;
    assert(b * width <= c * width) by (nonlinear_arith)
        requires
            b <= c,
            width >= 0,
    ;
    assert(c * width <= out * width) by (nonlinear_arith)
        requires
            c <= out,
            width >= 0,
    ;
    assert(out * width == buf.len());
    assert(row_band(buf, out, a, b) + row_band(buf, out, b, c) =~= row_band(buf, out, a, c));
}

/// The bit widths that pack evenly into a word.
pub open spec fn packs_evenly(bits: usize) -> bool {
    bits == 4 || bits == 8
}

/// Values per packed word.
pub open spec fn lanes(bits: usize) -> int {
    if bits == 4 {
        8
    } else {
        4
    }
}

/// Number of values a lane can hold.
pub open spec fn lane_base(bits: usize) -> int {
    if bits == 4 {
        16
    } else {
        256
    }
}

/// The quantized value at row `o`, column `i`: lanes are filled from the low bits.
pub open spec fn quantized_at(packed: Seq<u8>, in_packed: usize, bits: usize, o: int, i: int) -> u32 {
    let word = word32(packed, o * in_packed + i / lanes(bits));
    ((word / pow(lane_base(bits), (i % lanes(bits)) as nat)) % lane_base(bits)) as u32
}

/// The sizes of an affine weight are those that machine words can count.
pub open spec fn affine_fits(out: usize, in_packed: usize, bits: usize) -> bool {
    packs_evenly(bits) ==> {
        &&& in_packed * lanes(bits) <= usize::MAX
        &&& out * in_packed * 4 <= usize::MAX
        &&& out * (in_packed * lanes(bits)) <= usize::MAX
    }
}

/// Complaint about the width or the grouping of a quantization.
pub open spec fn scheme_error(in_packed: usize, bits: usize, group_size: usize) -> Option<Seq<char>> {
    if !packs_evenly(bits) {
        Some("unsupported quantization bits "@ + dec(bits as nat) + " (expected 4 or 8)"@)
    } else if group_size == 0 || (in_packed * lanes(bits)) % group_size as int != 0 {
        Some(
            "quantization group_size "@ + dec(group_size as nat)
                + " does not divide in dimension "@ + dec((in_packed * lanes(bits)) as nat),
        )
    } else {
        None
    }
}

/// Groups per row.
pub open spec fn groups(in_packed: usize, bits: usize, group_size: usize) -> int {
    (in_packed * lanes(bits)) / group_size as int
}

/// Complaint about an affine weight.
pub open spec fn affine_error(
    packed: nat,
    scales: nat,
    biases: nat,
    out: usize,
    in_packed: usize,
    bits: usize,
    group_size: usize,
) -> Option<Seq<char>> {
    let n_groups = groups(in_packed, bits, group_size);
    if scheme_error(in_packed, bits, group_size) is Some {
        scheme_error(in_packed, bits, group_size)
    } else if packed != out * in_packed * 4 {
        Some(
            "packed weight is "@ + dec(packed) + " bytes, expected "@ + dec(
                (out * in_packed * 4) as nat,
            ) + " (["@ + dec(out as nat) + ", "@ + dec(in_packed as nat) + "] u32)"@,
        )
    } else if scales != out * n_groups || biases != out * n_groups {
        Some(
            "scales/biases have "@ + dec(scales) + "/"@ + dec(biases) + " elements, expected "@
                + dec((out * n_groups) as nat) + " (["@ + dec(out as nat) + ", "@ + dec(
                n_groups as nat,
            ) + "])"@,
        )
    } else {
        None
    }
}

/// An affine weight as it lies in a checkpoint.
pub ghost struct AffineView {
    pub packed: Seq<u8>,
    pub scales: Seq<u32>,
    pub biases: Seq<u32>,
    pub out: usize,
    pub in_packed: usize,
    pub bits: usize,
    pub group_size: usize,
}

impl AffineView {
    /// Columns of the dequantized weight.
    pub open spec fn width(self) -> int {
        self.in_packed * lanes(self.bits)
    }

    /// Element `k` of the dequantized weight is the scale of its group times its
    /// quantized value plus the bias of its group: these are the three operands.
    pub open spec fn operands(self, k: int) -> (u32, u32, u32) {
        let o = k / self.width();
        let i = k % self.width();
        let g = o * groups(self.in_packed, self.bits, self.group_size) + i
            / self.group_size as int;
        (
            quantized_at(self.packed, self.in_packed, self.bits, o, i),
            self.scales[g],
            self.biases[g],
        )
    }
}

/// The weight in the given buffers.
pub open spec fn affine_view(
    packed: Seq<u8>,
    scales: Seq<u8>,
    biases: Seq<u8>,
    format: FloatFormat,
    out: usize,
    in_packed: usize,
    bits: usize,
    group_size: usize,
) -> AffineView {
    AffineView {
        packed,
        scales: widened(format, scales),
        biases: widened(format, biases),
        out,
        in_packed,
        bits,
        group_size,
    }
}

fn extract_lane(word: u32, lane: usize, bits: usize) -> (q: u32)
    requires
        packs_evenly(bits),
        lane < lanes(bits),
    ensures
        q == (word as int / pow(lane_base(bits), lane as nat)) % lane_base(bits),
        q < lane_base(bits),
{
    let base: u32 = if bits == 4 {
        16
    } else {
        256
    };
    let mut rest: u32 = word;
    let mut j: usize = 0;
    proof {
        vstd::arithmetic::power::lemma_pow0(base as int);
    }
    while j < lane
        invariant
            j <= lane,
            base == lane_base(bits),
            rest == word as int / pow(base as int, j as nat),
        decreases lane - j,
    {
        proof {
            lemma_pow_positive(base as int, j as nat);
            reveal(pow);
            assert(pow(base as int, (j + 1) as nat) == base as int * pow(base as int, j as nat));
            assert(base as int * pow(base as int, j as nat) == pow(base as int, j as nat)
                * base as int) by (nonlinear_arith);
            vstd::arithmetic::div_mod::lemma_div_denominator(
                word as int,
                pow(base as int, j as nat),
                base as int,
            );
        }
        rest = rest / base;
        j += 1;
    }
    rest % base
}

fn check_scheme(in_packed: usize, bits: usize, group_size: usize) -> (r: Result<
    (usize, usize),
    String,
>)
    requires
        packs_evenly(bits) ==> in_packed * lanes(bits) <= usize::MAX,
    ensures
        match r {
            Ok(sizes) => {
                &&& scheme_error(in_packed, bits, group_size) is None
                &&& sizes.0 == in_packed * lanes(bits)
                &&& sizes.1 == groups(in_packed, bits, group_size)
                &&& sizes.1 * group_size == sizes.0
            },
            Err(message) => scheme_error(in_packed, bits, group_size) == Some(message@),
        },
{
    if !(bits == 4 || bits == 8) {
        return Err(
            "unsupported quantization bits ".to_owned().concat(&size_text(bits)).concat(
                " (expected 4 or 8)",
            ),
        );
    }
    let per_word: usize = if bits == 4 {
        8
    } else {
        4
    };
    let width: usize = in_packed * per_word;
    if group_size == 0 || width % group_size != 0 {
        return Err(
            "quantization group_size ".to_owned().concat(&size_text(group_size)).concat(
                " does not divide in dimension ",
            ).concat(&size_text(width)),
        );
    }
    proof {
        vstd::arithmetic::div_mod::lemma_fundamental_div_mod(width as int, group_size as int);
        let g = width / group_size;
        assert(group_size * g == g * group_size) by (nonlinear_arith);
    }
    Ok((width, width / group_size))
}

proof fn lemma_affine_indices(v: AffineView, k: int)
    requires
        scheme_error(v.in_packed, v.bits, v.group_size) is None,
        0 <= k < v.out * v.width(),
    ensures
        v.width() > 0,
        0 <= k / v.width() < v.out,
        0 <= k % v.width() < v.width(),
        0 <= (k % v.width()) / lanes(v.bits) < v.in_packed,
        0 <= (k / v.width()) * v.in_packed + (k % v.width()) / lanes(v.bits) < v.out * v.in_packed,
        0 <= (k % v.width()) / v.group_size as int,
        (k % v.width()) / (v.group_size as int) < groups(v.in_packed, v.bits, v.group_size),
        0 <= (k / v.width()) * groups(v.in_packed, v.bits, v.group_size) + (k % v.width())
            / v.group_size as int,
        (k / v.width()) * groups(v.in_packed, v.bits, v.group_size) + (k % v.width())
            / (v.group_size as int) < v.out * groups(v.in_packed, v.bits, v.group_size),
{
    let w = v.width();
    let n = groups(v.in_packed, v.bits, v.group_size);
    let g = v.group_size as int;
    assert(w > 0) by (nonlinear_arith)
        requires
            0 <= k < v.out * w,
            v.out >= 0,
    ;
    vstd::arithmetic::div_mod::lemma_fundamental_div_mod(k, w);
    let o = k / w;
    let i = k % w;
    assert(o >= 0) by (nonlinear_arith)
        requires
            o == k / w,
            k >= 0,
            w > 0,
    ;
    assert(o < v.out) by (nonlinear_arith)
        requires
            w * o + i == k,
            i >= 0,
            k < v.out * w,
            w > 0,
    ;
    let p = i / lanes(v.bits);
    let l = lanes(v.bits);
    vstd::arithmetic::div_mod::lemma_fundamental_div_mod(i, l);
    assert(p < v.in_packed) by (nonlinear_arith)
        requires
            l * p + i % l == i,
            i % l >= 0,
            i < v.in_packed * l,
            l > 0,
    ;
    assert(o * v.in_packed + p < v.out * v.in_packed) by (nonlinear_arith)
        requires
            0 <= o < v.out,
            0 <= p < v.in_packed,
    ;
    assert(o * v.in_packed >= 0) by (nonlinear_arith)
        requires
            o >= 0,
    ;
    vstd::arithmetic::div_mod::lemma_fundamental_div_mod(w, g);
    vstd::arithmetic::div_mod::lemma_fundamental_div_mod(i, g);
    let c = i / g;
    assert(c >= 0) by (nonlinear_arith)
        requires
            c == i / g,
            i >= 0,
            g > 0,
    ;
    assert(c < n) by (nonlinear_arith)
        requires
            g * c + i % g == i,
            i % g >= 0,
            i < g * n,
            g > 0,
    ;
    assert(o * n + c < v.out * n) by (nonlinear_arith)
        requires
            0 <= o < v.out,
            0 <= c < n,
    ;
    assert(o * n >= 0) by (nonlinear_arith)
        requires
            o >= 0,
            n > c,
            c >= 0,
    ;
}

fn affine_operands(
    packed: &[u8],
    scales: &Vec<u32>,
    biases: &Vec<u32>,
    Ghost(v): Ghost<AffineView>,
    in_packed: usize,
    bits: usize,
    group_size: usize,
    width: usize,
    n_groups: usize,
    k: usize,
) -> (r: (u32, u32, u32))
    requires
        v.packed == packed@ && v.scales == scales@ && v.biases == biases@,
        v.in_packed == in_packed && v.bits == bits && v.group_size == group_size,
        affine_error(
            packed@.len(),
            scales@.len(),
            biases@.len(),
            v.out,
            in_packed,
            bits,
            group_size,
        ) is None,
        affine_fits(v.out, in_packed, bits),
        width == v.width(),
        n_groups == groups(in_packed, bits, group_size),
        k < v.out * v.width(),
    ensures
        r == v.operands(k as int),
{
    proof {
        lemma_affine_indices(v, k as int);
    }
    let o: usize = k / width;
    let i: usize = k % width;
    let per_word: usize = if bits == 4 {
        8
    } else {
        4
    };
    proof {
        let p = (i / per_word) as int;
        assert(o * in_packed <= packed@.len());
        assert(4 * (o * in_packed + p) + 3 < packed@.len()) by {
            assert(o * in_packed + p + 1 <= v.out * in_packed);
            assert(v.out * in_packed * 4 == packed@.len());
        }
    }
    let word: u32 = read_word32(packed, o * in_packed + i / per_word);
    let q: u32 = extract_lane(word, i % per_word, bits);
    let total: usize = scales.len();
    assert(o * n_groups + i / group_size < total);
    assert(o * n_groups >= 0) by (nonlinear_arith);
    let g: usize = o * n_groups + i / group_size;
    (q, scales[g], biases[g])
}

/// Check the sizes of an affine weight.
fn check_affine(
    packed: usize,
    scales: usize,
    biases: usize,
    out: usize,
    in_packed: usize,
    bits: usize,
    group_size: usize,
) -> (r: Result<(usize, usize), String>)
    requires
        affine_fits(out, in_packed, bits),
    ensures
        ({
            let error = affine_error(
                packed as nat,
                scales as nat,
                biases as nat,
                out,
                in_packed,
                bits,
                group_size,
            );
            match r {
                Ok(sizes) => {
                    &&& error is None
                    &&& sizes.0 == in_packed * lanes(bits)
                    &&& sizes.1 == groups(in_packed, bits, group_size)
                },
                Err(message) => error == Some(message@),
            }
        }),
{
    let (width, n_groups) = match check_scheme(in_packed, bits, group_size) {
        Ok(sizes) => sizes,
        Err(message) => return Err(message),
    };
    proof {
        assert(out * in_packed <= out * in_packed * 4) by (nonlinear_arith);
        assert(n_groups <= width) by (nonlinear_arith)
            requires
                n_groups * group_size == width,
                group_size >= 1,
        ;
        assert(out * n_groups <= out * width) by (nonlinear_arith)
            requires
                n_groups <= width,
        ;
    }
    if packed != out * in_packed * 4 {
        return Err(
            "packed weight is ".to_owned().concat(&size_text(packed)).concat(
                " bytes, expected ",
            ).concat(&size_text(out * in_packed * 4)).concat(" ([").concat(&size_text(out)).concat(
                ", ",
            ).concat(&size_text(in_packed)).concat("] u32)"),
        );
    }
    if scales != out * n_groups || biases != out * n_groups {
        return Err(
            "scales/biases have ".to_owned().concat(&size_text(scales)).concat("/").concat(
                &size_text(biases),
            ).concat(" elements, expected ").concat(&size_text(out * n_groups)).concat(
                " ([",
            ).concat(&size_text(out)).concat(", ").concat(&size_text(n_groups)).concat("])"),
        );
    }
    Ok((width, n_groups))
}

/// `w` is the dequantized weight `v`, where `mul_add` computes `q * scale + bias`.
pub open spec fn is_dequantized<F: Fn(u32, u32, u32) -> u32>(
    mul_add: F,
    v: AffineView,
    w: Seq<u32>,
) -> bool {
    &&& w.len() == v.out * v.width()
    &&& forall|k: int|
        #![trigger w[k]]
        0 <= k < w.len() ==> call_ensures(mul_add, v.operands(k), w[k])
}

/// `w` is the dequantized weight `v`, each element rounded once to bfloat16.
pub open spec fn is_dequantized_bf16<F: Fn(u32, u32, u32) -> u32>(
    mul_add: F,
    v: AffineView,
    w: Seq<u32>,
) -> bool {
    &&& w.len() == v.out * v.width()
    &&& forall|k: int|
        #![trigger w[k]]
        0 <= k < w.len() ==> is_rounded_result(mul_add, v.operands(k), w[k])
}

/// `rounded` is what `mul_add` gives for the operands, rounded to bfloat16.
pub open spec fn is_rounded_result<F: Fn(u32, u32, u32) -> u32>(
    mul_add: F,
    operands: (u32, u32, u32),
    rounded: u32,
) -> bool {
    exists|exact: u32|
        call_ensures(mul_add, operands, exact) && #[trigger] is_nearest_bf16(exact, rounded)
}

/// `mul_add` can be asked for any operands.
pub open spec fn is_total<F: Fn(u32, u32, u32) -> u32>(mul_add: F) -> bool {
    forall|q: u32, scale: u32, bias: u32| call_requires(mul_add, (q, scale, bias))
}

/// Dequantize an affine weight to row-major single precision: element by element the
/// packed value times the scale of its group plus the bias of its group. `mul_add`
/// computes `q * scale + bias` in single precision; the scales and biases come in
/// `format`.
pub fn dequantize_affine_with_metadata<F: Fn(u32, u32, u32) -> u32>(
    packed: &[u8],
    scales: &[u8],
    biases: &[u8],
    out: usize,
    in_packed: usize,
    bits: usize,
    group_size: usize,
    format: FloatFormat,
    mul_add: F,
) -> (r: Result<Vec<u32>, String>)
    requires
        affine_fits(out, in_packed, bits),
        is_total(mul_add),
    ensures
        ({
            let v = affine_view(
                packed@,
                scales@,
                biases@,
                format,
                out,
                in_packed,
                bits,
                group_size,
            );
            let error = affine_error(
                packed@.len(),
                v.scales.len(),
                v.biases.len(),
                out,
                in_packed,
                bits,
                group_size,
            );
            match r {
                Ok(w) => error is None && is_dequantized(mul_add, v, w@),
                Err(message) => error == Some(message@),
            }
        }),
{
    let scales = widen(format, scales);
    let biases = widen(format, biases);
    let (width, n_groups) = match check_affine(
        packed.len(),
        scales.len(),
        biases.len(),
        out,
        in_packed,
        bits,
        group_size,
    ) {
        Ok(sizes) => sizes,
        Err(message) => return Err(message),
    };
    let ghost v = AffineView {
        packed: packed@,
        scales: scales@,
        biases: biases@,
        out,
        in_packed,
        bits,
        group_size,
    };
    let total: usize = out * width;
    let mut w: Vec<u32> = Vec::new();
    let mut k: usize = 0;
    while k < total
        invariant
            k <= total,
            total == out * v.width(),
            w@.len() == k,
            is_total(mul_add),
            v.packed == packed@ && v.scales == scales@ && v.biases == biases@,
            v.in_packed == in_packed && v.bits == bits && v.group_size == group_size,
            v.out == out,
            affine_error(
                packed@.len(),
                scales@.len(),
                biases@.len(),
                out,
                in_packed,
                bits,
                group_size,
            ) is None,
            affine_fits(out, in_packed, bits),
            width == v.width(),
            n_groups == groups(in_packed, bits, group_size),
            forall|j: int|
                #![trigger w@[j]]
                0 <= j < k ==> call_ensures(mul_add, v.operands(j), w@[j]),
        decreases total - k,
    {
        let (q, scale, bias) = affine_operands(
            packed,
            &scales,
            &biases,
            Ghost(v),
            in_packed,
            bits,
            group_size,
            width,
            n_groups,
            k,
        );
        w.push(mul_add(q, scale, bias));
        k += 1;
    }
    Ok(w)
}

/// Dequantize an affine weight whose scales and biases are 16-bit floats.
pub fn dequantize_affine<F: Fn(u32, u32, u32) -> u32>(
    packed: &[u8],
    scales: &[u8],
    biases: &[u8],
    out: usize,
    in_packed: usize,
    bits: usize,
    group_size: usize,
    scales_bf16: bool,
    mul_add: F,
) -> (r: Result<Vec<u32>, String>)
    requires
        affine_fits(out, in_packed, bits),
        is_total(mul_add),
    ensures
        ({
            let format = short_format(scales_bf16);
            let v = affine_view(
                packed@,
                scales@,
                biases@,
                format,
                out,
                in_packed,
                bits,
                group_size,
            );
            let error = affine_error(
                packed@.len(),
                v.scales.len(),
                v.biases.len(),
                out,
                in_packed,
                bits,
                group_size,
            );
            match r {
                Ok(w) => error is None && is_dequantized(mul_add, v, w@),
                Err(message) => error == Some(message@),
            }
        }),
{
    let format = if scales_bf16 {
        FloatFormat::BFloat16
    } else {
        FloatFormat::Float16
    };
    dequantize_affine_with_metadata(
        packed,
        scales,
        biases,
        out,
        in_packed,
        bits,
        group_size,
        format,
        mul_add,
    )
}

/// The 16-bit format of scales and biases.
pub open spec fn short_format(bf16: bool) -> FloatFormat {
    if bf16 {
        FloatFormat::BFloat16
    } else {
        FloatFormat::Float16
    }
}

/// Dequantize an affine weight whose scales and biases are singles.
pub fn dequantize_affine_f32<F: Fn(u32, u32, u32) -> u32>(
    packed: &[u8],
    scales: &[u8],
    biases: &[u8],
    out: usize,
    in_packed: usize,
    bits: usize,
    group_size: usize,
    mul_add: F,
) -> (r: Result<Vec<u32>, String>)
    requires
        affine_fits(out, in_packed, bits),
        is_total(mul_add),
    ensures
        ({
            let v = affine_view(
                packed@,
                scales@,
                biases@,
                FloatFormat::Float32,
                out,
                in_packed,
                bits,
                group_size,
            );
            let error = affine_error(
                packed@.len(),
                v.scales.len(),
                v.biases.len(),
                out,
                in_packed,
                bits,
                group_size,
            );
            match r {
                Ok(w) => error is None && is_dequantized(mul_add, v, w@),
                Err(message) => error == Some(message@),
            }
        }),
{
    dequantize_affine_with_metadata(
        packed,
        scales,
        biases,
        out,
        in_packed,
        bits,
        group_size,
        FloatFormat::Float32,
        mul_add,
    )
}

/// Dequantize an affine weight with bfloat16 scales and biases, rounding each result
/// once to bfloat16.
pub fn dequantize_affine_bf16_fused<F: Fn(u32, u32, u32) -> u32>(
    packed: &[u8],
    scales: &[u8],
    biases: &[u8],
    out: usize,
    in_packed: usize,
    bits: usize,
    group_size: usize,
    mul_add: F,
) -> (r: Result<Vec<u32>, String>)
    requires
        affine_fits(out, in_packed, bits),
        is_total(mul_add),
    ensures
        ({
            let v = affine_view(
                packed@,
                scales@,
                biases@,
                FloatFormat::BFloat16,
                out,
                in_packed,
                bits,
                group_size,
            );
            let error = affine_error(
                packed@.len(),
                v.scales.len(),
                v.biases.len(),
                out,
                in_packed,
                bits,
                group_size,
            );
            match r {
                Ok(w) => error is None && is_dequantized_bf16(mul_add, v, w@),
                Err(message) => error == Some(message@),
            }
        }),
{
    let exact = match dequantize_affine_with_metadata(
        packed,
        scales,
        biases,
        out,
        in_packed,
        bits,
        group_size,
        FloatFormat::BFloat16,
        mul_add,
    ) {
        Ok(w) => w,
        Err(message) => return Err(message),
    };
    let ghost v = affine_view(
        packed@,
        scales@,
        biases@,
        FloatFormat::BFloat16,
        out,
        in_packed,
        bits,
        group_size,
    );
    let mut w: Vec<u32> = Vec::new();
    let mut k: usize = 0;
    while k < exact.len()
        invariant
            k <= exact@.len(),
            w@.len() == k,
            is_dequantized(mul_add, v, exact@),
            forall|j: int| #![trigger w@[j]] 0 <= j < k ==> is_nearest_bf16(exact@[j], w@[j]),
        decreases exact@.len() - k,
    {
        w.push(round_bf16_f32(exact[k]));
        k += 1;
    }
    assert forall|j: int| #![trigger w@[j]] 0 <= j < w@.len() implies is_rounded_result(
        mul_add,
        v.operands(j),
        w@[j],
    ) by {
        assert(is_nearest_bf16(exact@[j], w@[j]));
        assert(call_ensures(mul_add, v.operands(j), exact@[j]));
    }
    Ok(w)
}

/// The Gemma3n dequantization, for numeric diagnostics of a checkpoint.
pub fn dequantize_gemma3n_affine_diagnostic<F: Fn(u32, u32, u32) -> u32>(
    packed: &[u8],
    scales: &[u8],
    biases: &[u8],
    out: usize,
    in_packed: usize,
    bits: usize,
    group_size: usize,
    mul_add: F,
) -> (r: Result<Vec<u32>, String>)
    requires
        affine_fits(out, in_packed, bits),
        is_total(mul_add),
    ensures
        ({
            let v = affine_view(
                packed@,
                scales@,
                biases@,
                FloatFormat::BFloat16,
                out,
                in_packed,
                bits,
                group_size,
            );
            let error = affine_error(
                packed@.len(),
                v.scales.len(),
                v.biases.len(),
                out,
                in_packed,
                bits,
                group_size,
            );
            match r {
                Ok(w) => error is None && is_dequantized_bf16(mul_add, v, w@),
                Err(message) => error == Some(message@),
            }
        }),
{
    dequantize_affine_bf16_fused(
        packed,
        scales,
        biases,
        out,
        in_packed,
        bits,
        group_size,
        mul_add,
    )
}

/// The sizes of a stack of affine weights are those that machine words can count.
pub open spec fn stack_fits(experts: usize, out: usize, in_packed: usize, bits: usize) -> bool {
    packs_evenly(bits) ==> {
        &&& affine_fits(out, in_packed, bits)
        &&& experts * (out * in_packed * 4) <= usize::MAX
        &&& experts * (out * (in_packed * lanes(bits)) * 2) <= usize::MAX
        &&& out * (in_packed * lanes(bits)) * 2 <= usize::MAX
    }
}

/// Complaint about a stack of affine weights.
pub open spec fn stack_error(
    packed: nat,
    scales: nat,
    biases: nat,
    experts: usize,
    out: usize,
    in_packed: usize,
    bits: usize,
    group_size: usize,
) -> Option<Seq<char>> {
    let n_groups = groups(in_packed, bits, group_size);
    let packed_stride = out * in_packed * 4;
    let short_stride = out * n_groups * 2;
    if experts == 0 {
        Some("stacked expert weight has 0 experts"@)
    } else if scheme_error(in_packed, bits, group_size) is Some {
        scheme_error(in_packed, bits, group_size)
    } else if packed != experts * packed_stride {
        Some(
            "stacked packed weight is "@ + dec(packed) + " bytes, expected "@ + dec(
                (experts * packed_stride) as nat,
            ) + " (["@ + dec(experts as nat) + ", "@ + dec(out as nat) + ", "@ + dec(
                in_packed as nat,
            ) + "] u32)"@,
        )
    } else if scales != experts * short_stride || biases != experts * short_stride {
        Some(
            "stacked scales/biases have "@ + dec(scales) + "/"@ + dec(biases)
                + " bytes, expected "@ + dec((experts * short_stride) as nat) + " (["@ + dec(
                experts as nat,
            ) + ", "@ + dec(out as nat) + ", "@ + dec(n_groups as nat) + "] 16-bit)"@,
        )
    } else {
        None
    }
}

/// Slab `e` of a buffer cut into slabs of `stride` elements.
pub open spec fn slab<T>(s: Seq<T>, stride: int, e: int) -> Seq<T> {
    s.subrange(e * stride, e * stride + stride)
}

/// The affine weight of expert `e` in a stack.
pub open spec fn expert_view(
    packed: Seq<u8>,
    scales: Seq<u8>,
    biases: Seq<u8>,
    format: FloatFormat,
    out: usize,
    in_packed: usize,
    bits: usize,
    group_size: usize,
    e: int,
) -> AffineView {
    let short_stride = out * groups(in_packed, bits, group_size) * 2;
    affine_view(
        slab(packed, out * in_packed * 4, e),
        slab(scales, short_stride, e),
        slab(biases, short_stride, e),
        format,
        out,
        in_packed,
        bits,
        group_size,
    )
}

/// `w` is the concatenation of the dequantized experts of a stack.
pub open spec fn is_dequantized_stack<F: Fn(u32, u32, u32) -> u32>(
    mul_add: F,
    packed: Seq<u8>,
    scales: Seq<u8>,
    biases: Seq<u8>,
    format: FloatFormat,
    experts: int,
    out: usize,
    in_packed: usize,
    bits: usize,
    group_size: usize,
    w: Seq<u32>,
) -> bool {
    let stride = out * (in_packed * lanes(bits));
    &&& w.len() == experts * stride
    &&& forall|e: int|
        #![trigger slab(w, stride, e)]
        0 <= e < experts ==> is_dequantized(
            mul_add,
            expert_view(packed, scales, biases, format, out, in_packed, bits, group_size, e),
            slab(w, stride, e),
        )
}

proof fn lemma_slab_bounds(len: int, stride: int, experts: int, e: int)
    requires
        len == experts * stride,
        stride >= 0,
        0 <= e < experts,
    ensures
        0 <= e * stride,
        e * stride + stride <= len,
        (e + 1) * stride == e * stride + stride,
{
    assert(e * stride >= 0) by (nonlinear_arith)
        requires
            e >= 0,
            stride >= 0,
    ;
    assert(e * stride + stride <= experts * stride) by (nonlinear_arith)
        requires
            e + 1 <= experts,
            stride >= 0,
    ;
    assert((e + 1) * stride == e * stride + stride) by (nonlinear_arith);
}

proof fn lemma_expert_sizes(
    packed: Seq<u8>,
    scales: Seq<u8>,
    biases: Seq<u8>,
    format: FloatFormat,
    experts: usize,
    out: usize,
    in_packed: usize,
    bits: usize,
    group_size: usize,
    e: int,
)
    requires
        format_width(format) == 2,
        stack_error(
            packed.len(),
            scales.len(),
            biases.len(),
            experts,
            out,
            in_packed,
            bits,
            group_size,
        ) is None,
        0 <= e < experts,
    ensures
        ({
            let v = expert_view(
                packed,
                scales,
                biases,
                format,
                out,
                in_packed,
                bits,
                group_size,
                e,
            );
            affine_error(
                v.packed.len(),
                v.scales.len(),
                v.biases.len(),
                out,
                in_packed,
                bits,
                group_size,
            ) is None
        }),
{
    let n_groups = groups(in_packed, bits, group_size);
    assert(n_groups >= 0) by (nonlinear_arith)
        requires
            n_groups == (in_packed * lanes(bits)) / group_size as int,
            group_size > 0,
            in_packed * lanes(bits) >= 0,
    ;
    assert(out * in_packed * 4 >= 0) by (nonlinear_arith);
    assert(out * n_groups >= 0) by (nonlinear_arith)
        requires
            n_groups >= 0,
    ;
    lemma_slab_bounds(packed.len() as int, out * in_packed * 4, experts as int, e);
    lemma_slab_bounds(scales.len() as int, out * n_groups * 2, experts as int, e);
}

/// Dequantize a stack of affine weights: the concatenation of what each expert's slab
/// dequantizes to.
pub fn dequantize_affine_stacked<F: Fn(u32, u32, u32) -> u32>(
    packed: &[u8],
    scales: &[u8],
    biases: &[u8],
    experts: usize,
    out: usize,
    in_packed: usize,
    bits: usize,
    group_size: usize,
    scales_bf16: bool,
    mul_add: F,
) -> (r: Result<Vec<u32>, String>)
    requires
        stack_fits(experts, out, in_packed, bits),
        is_total(mul_add),
    ensures
        ({
            let error = stack_error(
                packed@.len(),
                scales@.len(),
                biases@.len(),
                experts,
                out,
                in_packed,
                bits,
                group_size,
            );
            match r {
                Ok(w) => error is None && is_dequantized_stack(
                    mul_add,
                    packed@,
                    scales@,
                    biases@,
                    short_format(scales_bf16),
                    experts as int,
                    out,
                    in_packed,
                    bits,
                    group_size,
                    w@,
                ),
                Err(message) => error == Some(message@),
            }
        }),
{
    if experts == 0 {
        return Err("stacked expert weight has 0 experts".to_owned());
    }
    let (width, n_groups) = match check_scheme(in_packed, bits, group_size) {
        Ok(sizes) => sizes,
        Err(message) => return Err(message),
    };
    proof {
        assert(out * in_packed <= out * in_packed * 4) by (nonlinear_arith);
        assert(n_groups <= width) by (nonlinear_arith)
            requires
                n_groups * group_size == width,
                group_size >= 1,
        ;
        assert(out * n_groups <= out * width) by (nonlinear_arith)
            requires
                n_groups <= width,
        ;
        assert(out * n_groups * 2 <= out * width * 2);
        let a = out * n_groups * 2;
        let b = out * width * 2;
        assert(experts * a <= experts * b) by (nonlinear_arith)
            requires
                a <= b,
        ;
    }
    let packed_stride: usize = out * in_packed * 4;
    let short_stride: usize = out * n_groups * 2;
    if packed.len() != experts * packed_stride {
        return Err(
            "stacked packed weight is ".to_owned().concat(&size_text(packed.len())).concat(
                " bytes, expected ",
            ).concat(&size_text(experts * packed_stride)).concat(" ([").concat(
                &size_text(experts),
            ).concat(", ").concat(&size_text(out)).concat(", ").concat(
                &size_text(in_packed),
            ).concat("] u32)"),
        );
    }
    if scales.len() != experts * short_stride || biases.len() != experts * short_stride {
        return Err(
            "stacked scales/biases have ".to_owned().concat(&size_text(scales.len())).concat(
                "/",
            ).concat(&size_text(biases.len())).concat(" bytes, expected ").concat(
                &size_text(experts * short_stride),
            ).concat(" ([").concat(&size_text(experts)).concat(", ").concat(
                &size_text(out),
            ).concat(", ").concat(&size_text(n_groups)).concat("] 16-bit)"),
        );
    }
    let ghost format = short_format(scales_bf16);
    let ghost stride = out * (in_packed * lanes(bits));
    let mut w: Vec<u32> = Vec::new();
    let mut e: usize = 0;
    assert(0 * stride == 0) by (nonlinear_arith);
    while e < experts
        invariant
            e <= experts,
            stack_fits(experts, out, in_packed, bits),
            is_total(mul_add),
            format == short_format(scales_bf16),
            stride == out * (in_packed * lanes(bits)),
            packed_stride == out * in_packed * 4,
            short_stride == out * groups(in_packed, bits, group_size) * 2,
            stack_error(
                packed@.len(),
                scales@.len(),
                biases@.len(),
                experts,
                out,
                in_packed,
                bits,
                group_size,
            ) is None,
            is_dequantized_stack(
                mul_add,
                packed@,
                scales@,
                biases@,
                format,
                e as int,
                out,
                in_packed,
                bits,
                group_size,
                w@,
            ),
        decreases experts - e,
    {
        proof {
            lemma_slab_bounds(packed@.len() as int, packed_stride as int, experts as int, e as int);
            lemma_slab_bounds(scales@.len() as int, short_stride as int, experts as int, e as int);
            lemma_expert_sizes(
                packed@,
                scales@,
                biases@,
                format,
                experts,
                out,
                in_packed,
                bits,
                group_size,
                e as int,
            );
        }
        let scales_len: usize = scales.len();
        assert(e * short_stride + short_stride <= scales_len);
        let p = slice_subrange(packed, e * packed_stride, e * packed_stride + packed_stride);
        let s = slice_subrange(scales, e * short_stride, e * short_stride + short_stride);
        let b = slice_subrange(biases, e * short_stride, e * short_stride + short_stride);
        let part = dequantize_affine(
            p,
            s,
            b,
            out,
            in_packed,
            bits,
            group_size,
            scales_bf16,
            &mul_add,
        );
        match part {
            Err(message) => {
                return Err(message);
            },
            Ok(mut values) => {
                let ghost before = w@;
                let ghost added = values@;
                w.append(&mut values);
                proof {
                    assert(w@ == before + added);
                    assert((e + 1) * stride == e * stride + stride) by (nonlinear_arith);
                    assert forall|x: int|
                        #![trigger slab(w@, stride, x)]
                        0 <= x < e + 1 implies is_dequantized(
                        mul_add,
                        expert_view(
                            packed@,
                            scales@,
                            biases@,
                            format,
                            out,
                            in_packed,
                            bits,
                            group_size,
                            x,
                        ),
                        slab(w@, stride, x),
                    ) by {
                        assert(stride >= 0) by (nonlinear_arith)
                            requires
                                stride == out * (in_packed * lanes(bits)),
                                lanes(bits) >= 0,
                        ;
                        if x < e {
                            lemma_slab_bounds(before.len() as int, stride, e as int, x);
                            assert(slab(w@, stride, x) =~= slab(before, stride, x));
                        } else {
                            assert(slab(w@, stride, x) =~= added);
                        }
                    }
                }
            },
        }
        e += 1;
    }
    Ok(w)
}

} // verus!
