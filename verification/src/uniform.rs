use crate::uniform_layout::UniformLayout;
use vstd::prelude::*;

verus! {

/// The type of a user uniform in a material's uniform buffer (WGSL types).
#[derive(Debug, PartialEq, Eq, Structural, Clone, Copy)]
pub enum UniformDef {
    F32,
    Vec2,
    Vec3,
    Vec4,
    Mat4,
}

/// Size in bytes that a uniform of this type takes in a WGSL uniform buffer.
pub open spec fn uniform_size(def: UniformDef) -> int {
    match def {
        UniformDef::F32 => 4,
        UniformDef::Vec2 => 8,
        UniformDef::Vec3 => 16,
        UniformDef::Vec4 => 16,
        UniformDef::Mat4 => 64,
    }
}

/// Alignment in bytes that a uniform of this type needs in a WGSL uniform buffer.
pub open spec fn uniform_align(def: UniformDef) -> int {
    match def {
        UniformDef::F32 => 4,
        UniformDef::Vec2 => 8,
        UniformDef::Vec3 => 16,
        UniformDef::Vec4 => 16,
        UniformDef::Mat4 => 16,
    }
}

/// Size and alignment in bytes of a uniform type under the WGSL uniform buffer layout
/// rules: a 32-bit float takes 4 bytes aligned to 4, `vec2<f32>` 8 aligned to 8,
/// `vec3<f32>` is padded to 16 aligned to 16, `vec4<f32>` 16 aligned to 16 and
/// `mat4x4<f32>` (four `vec4<f32>` columns) 64 aligned to 16.
pub fn get_uniform_type_info(def: &UniformDef) -> (info: (usize, usize))
    ensures
        info.0 == uniform_size(*def),
        info.1 == uniform_align(*def),
{
    match def {
        UniformDef::F32 => (4, 4),
        UniformDef::Vec2 => (8, 8),
        UniformDef::Vec3 => (16, 16),
        UniformDef::Vec4 => (16, 16),
        UniformDef::Mat4 => (64, 16),
    }
}

/// Whether the 32-bit float with bit pattern `b` is a NaN.
pub open spec fn f32_bits_is_nan(b: u32) -> bool {
    (b & 0x7f80_0000u32) == 0x7f80_0000u32 && (b & 0x007f_ffffu32) != 0
}

/// Whether the 32-bit float with bit pattern `b` is zero (of either sign).
pub open spec fn f32_bits_is_zero(b: u32) -> bool {
    (b & 0x7fff_ffffu32) == 0
}

/// IEEE-754 equality of the 32-bit floats with bit patterns `a` and `b`: a NaN equals
/// nothing, the two zeros are equal, and otherwise equal floats have equal bits.
pub open spec fn f32_bits_eq(a: u32, b: u32) -> bool {
    !f32_bits_is_nan(a) && !f32_bits_is_nan(b) && (a == b || (f32_bits_is_zero(a)
        && f32_bits_is_zero(b)))
}

/// IEEE-754 equality of two 32-bit floats given by their bit patterns.
pub fn f32_bits_equal(a: u32, b: u32) -> (r: bool)
    ensures
        r == f32_bits_eq(a, b),
{
    let a_nan = (a & 0x7f80_0000u32) == 0x7f80_0000u32 && (a & 0x007f_ffffu32) != 0;
    let b_nan = (b & 0x7f80_0000u32) == 0x7f80_0000u32 && (b & 0x007f_ffffu32) != 0;
    let both_zero = (a & 0x7fff_ffffu32) == 0 && (b & 0x7fff_ffffu32) == 0;
    !a_nan && !b_nan && (a == b || both_zero)
}

/// A uniform value. Each 32-bit float component is kept as its IEEE-754 bit pattern (the
/// renderer converts with `to_bits` and `from_bits`); a matrix is given column by column.
#[derive(Debug, Clone, Copy)]
pub enum Uniform {
    F32(u32),
    Vec2([u32; 2]),
    Vec3([u32; 3]),
    Vec4([u32; 4]),
    Mat4([[u32; 4]; 4]),
}

/// The type of a uniform value.
pub open spec fn uniform_def_of(u: Uniform) -> UniformDef {
    match u {
        Uniform::F32(_) => UniformDef::F32,
        Uniform::Vec2(_) => UniformDef::Vec2,
        Uniform::Vec3(_) => UniformDef::Vec3,
        Uniform::Vec4(_) => UniformDef::Vec4,
        Uniform::Mat4(_) => UniformDef::Mat4,
    }
}

/// The float components of a uniform value, in order (a matrix column by column).
pub open spec fn uniform_words(u: Uniform) -> Seq<u32> {
    match u {
        Uniform::F32(x) => seq![x],
        Uniform::Vec2(v) => v@,
        Uniform::Vec3(v) => v@,
        Uniform::Vec4(v) => v@,
        Uniform::Mat4(m) => m@[0]@ + m@[1]@ + m@[2]@ + m@[3]@,
    }
}

/// Equality of uniform values as floats: same type and IEEE-equal components.
pub open spec fn uniform_eq(a: Uniform, b: Uniform) -> bool {
    &&& uniform_def_of(a) == uniform_def_of(b)
    &&& uniform_words(a).len() == uniform_words(b).len()
    &&& forall|i: int|
        0 <= i < uniform_words(a).len() ==> f32_bits_eq(
            #[trigger] uniform_words(a)[i],
            uniform_words(b)[i],
        )
}

/// The words that a uniform value takes in the buffer: its components, and for a
/// `vec3<f32>` a fourth zero word of padding.
pub open spec fn uniform_buffer_words(u: Uniform) -> Seq<u32> {
    match u {
        Uniform::Vec3(v) => v@.push(0u32),
        _ => uniform_words(u),
    }
}

/// The components of a uniform value, as `uniform_words` lists them, and for
/// `vec3<f32>` the padding word if `padded`.
fn words_of(u: &Uniform, padded: bool) -> (w: Vec<u32>)
    ensures
        padded ==> w@ == uniform_buffer_words(*u),
        !padded ==> w@ == uniform_words(*u),
{
    let mut w: Vec<u32> = Vec::new();
    match u {
        Uniform::F32(x) => {
            w.push(*x);
        },
        Uniform::Vec2(v) => {
            w.push(v[0]);
            w.push(v[1]);
        },
        Uniform::Vec3(v) => {
            w.push(v[0]);
            w.push(v[1]);
            w.push(v[2]);
            if padded {
                w.push(0u32);
            }
        },
        Uniform::Vec4(v) => {
            w.push(v[0]);
            w.push(v[1]);
            w.push(v[2]);
            w.push(v[3]);
        },
        Uniform::Mat4(m) => {
            let mut c: usize = 0;
            while c < 4
                invariant
                    c <= 4,
                    w@ == if c == 0 {
                        Seq::<u32>::empty()
                    } else if c == 1 {
                        m@[0]@
                    } else if c == 2 {
                        m@[0]@ + m@[1]@
                    } else if c == 3 {
                        m@[0]@ + m@[1]@ + m@[2]@
                    } else {
                        m@[0]@ + m@[1]@ + m@[2]@ + m@[3]@
                    },
                decreases 4 - c,
            {
                let col = m[c];
                w.push(col[0]);
                w.push(col[1]);
                w.push(col[2]);
                w.push(col[3]);
                proof {
                    assert(col@.len() == 4);
                    assert(col@ =~= seq![col@[0], col@[1], col@[2], col@[3]]);
                }
                c = c + 1;
            }
        },
    }
    proof {
        match u {
            Uniform::F32(x) => {
                assert(w@ =~= seq![*x]);
            },
            Uniform::Vec2(v) => {
                assert(w@ =~= v@);
            },
            Uniform::Vec3(v) => {
                if padded {
                    assert(w@ =~= v@.push(0u32));
                } else {
                    assert(w@ =~= v@);
                }
            },
            Uniform::Vec4(v) => {
                assert(w@ =~= v@);
            },
            Uniform::Mat4(m) => {},
        }
    }
    w
}

/// Float equality of two uniform values (`PartialEq` of the uniform type): same type
/// and IEEE-equal components.
pub fn uniform_equal(a: &Uniform, b: &Uniform) -> (r: bool)
    ensures
        r == uniform_eq(*a, *b),
{
    let same_type = match (a, b) {
        (Uniform::F32(_), Uniform::F32(_)) => true,
        (Uniform::Vec2(_), Uniform::Vec2(_)) => true,
        (Uniform::Vec3(_), Uniform::Vec3(_)) => true,
        (Uniform::Vec4(_), Uniform::Vec4(_)) => true,
        (Uniform::Mat4(_), Uniform::Mat4(_)) => true,
        _ => false,
    };
    if !same_type {
        return false;
    }
    let wa = words_of(a, false);
    let wb = words_of(b, false);
    if wa.len() != wb.len() {
        return false;
    }
    let mut i: usize = 0;
    while i < wa.len()
        invariant
            i <= wa.len(),
            wa.len() == wb.len(),
            wa@ == uniform_words(*a),
            wb@ == uniform_words(*b),
            forall|j: int| 0 <= j < i ==> f32_bits_eq(#[trigger] uniform_words(*a)[j], uniform_words(*b)[j]),
        decreases wa.len() - i,
    {
        if !f32_bits_equal(wa[i], wb[i]) {
            return false;
        }
        i = i + 1;
    }
    true
}

/// Whether `u` is the value that a uniform of type `def` starts with: all components zero.
pub open spec fn is_zero_uniform(u: Uniform, def: UniformDef) -> bool {
    &&& uniform_def_of(u) == def
    &&& forall|i: int| 0 <= i < uniform_buffer_words(u).len() ==> #[trigger] uniform_buffer_words(u)[i] == 0
}

/// The value that a uniform of type `def` starts with: all components zero.
pub fn to_uniform_value(def: &UniformDef) -> (u: Uniform)
    ensures
        is_zero_uniform(u, *def),
{
    match def {
        UniformDef::F32 => Uniform::F32(0),
        UniformDef::Vec2 => Uniform::Vec2([0; 2]),
        UniformDef::Vec3 => Uniform::Vec3([0; 3]),
        UniformDef::Vec4 => Uniform::Vec4([0; 4]),
        UniformDef::Mat4 => Uniform::Mat4([[0; 4]; 4]),
    }
}

/// `bytemuck::cast_slice` from 32-bit words to bytes, copied into a vector: the words as
/// they lie in memory, each word's four bytes in the machine's byte order (little- or
/// big-endian, the same for every word), so a zero word gives four zero bytes.
#[verifier::external_body]
fn words_to_bytes(words: &Vec<u32>) -> (bytes: Vec<u8>)
    ensures
        words_in_memory(words@, bytes@),
{
    bytemuck::cast_slice::<u32, u8>(words.as_slice()).to_vec()
}

/// Byte `k` (0 to 3) in memory of the 32-bit word `w`, on a little-endian machine if `le`,
/// else on a big-endian one.
pub open spec fn word_byte(w: u32, k: int, le: bool) -> u8 {
    ((w >> ((8 * (if le { k } else { 3 - k })) as u32)) & 0xffu32) as u8
}

/// Whether `bytes` are the words `words` laid out in memory in one byte order: each
/// word's four bytes, least significant first if `le`, most significant first otherwise.
pub open spec fn words_in_order(words: Seq<u32>, bytes: Seq<u8>, le: bool) -> bool {
    &&& bytes.len() == 4 * words.len()
    &&& forall|i: int| 0 <= i < bytes.len() ==> #[trigger] bytes[i] == word_byte(words[i / 4], i % 4, le)
}

/// Whether `bytes` are the words `words` as they lie in memory, in the machine's byte
/// order (little- or big-endian, the same for every word).
pub open spec fn words_in_memory(words: Seq<u32>, bytes: Seq<u8>) -> bool {
    words_in_order(words, bytes, true) || words_in_order(words, bytes, false)
}

/// Whether `bytes` are the bytes of `u` in the uniform buffer: the words of
/// `uniform_buffer_words` as they lie in memory (so as many bytes as the type's slot
/// takes), four zero bytes for each zero word.
pub open spec fn encodes(u: Uniform, bytes: Seq<u8>) -> bool {
    &&& words_in_memory(uniform_buffer_words(u), bytes)
    &&& bytes.len() == 4 * uniform_buffer_words(u).len()
    &&& bytes.len() == uniform_size(uniform_def_of(u))
    &&& forall|i: int|
        0 <= i < bytes.len() && uniform_buffer_words(u)[i / 4] == 0 ==> #[trigger] bytes[i] == 0
}

/// The bytes that a uniform value takes in the uniform buffer: its components as 32-bit
/// floats in the machine's byte order, a `vec3<f32>` padded to 16 bytes.
pub fn uniform_to_bytes(uniform: &Uniform) -> (bytes: Vec<u8>)
    ensures
        encodes(*uniform, bytes@),
{
    let words = words_of(uniform, true);
    let bytes = words_to_bytes(&words);
    proof {
        lemma_zero_word_bytes();
    }
    bytes
}

/// A zero word lies in memory as four zero bytes, in either byte order.
proof fn lemma_zero_word_bytes()
    ensures
        forall|k: int, le: bool| #[trigger] word_byte(0u32, k, le) == 0,
{
    assert forall|x: u32| (0u32 >> x) & 0xffu32 == 0u32 by {
        assert((0u32 >> x) & 0xffu32 == 0u32) by (bit_vector);
    }
}

/// Whether `bytes` hold the components of `u` one after another, each as the four bytes
/// of its 32-bit pattern in one byte order (least significant first if `le`): a matrix
/// column by column, each column from its first component to its last, so that
/// component `r` of column `c` is word `4 * c + r`; a `vec3<f32>` followed by four zero
/// bytes.
pub open spec fn components_in_order(u: Uniform, bytes: Seq<u8>, le: bool) -> bool {
    match u {
        Uniform::F32(x) => bytes.len() == 4 && forall|k: int|
            0 <= k < 4 ==> bytes[k] == #[trigger] word_byte(x, k, le),
        Uniform::Vec2(v) => bytes.len() == 8 && forall|i: int, k: int|
            0 <= i < 2 && 0 <= k < 4 ==> bytes[4 * i + k] == #[trigger] word_byte(v@[i], k, le),
        Uniform::Vec3(v) => {
            &&& bytes.len() == 16
            &&& forall|i: int, k: int|
                0 <= i < 3 && 0 <= k < 4 ==> bytes[4 * i + k] == #[trigger] word_byte(v@[i], k, le)
            &&& bytes[12] == 0 && bytes[13] == 0 && bytes[14] == 0 && bytes[15] == 0
        },
        Uniform::Vec4(v) => bytes.len() == 16 && forall|i: int, k: int|
            0 <= i < 4 && 0 <= k < 4 ==> bytes[4 * i + k] == #[trigger] word_byte(v@[i], k, le),
        Uniform::Mat4(m) => bytes.len() == 64 && forall|c: int, r: int, k: int|
            0 <= c < 4 && 0 <= r < 4 && 0 <= k < 4 ==> bytes[16 * c + 4 * r + k]
                == #[trigger] word_byte(m@[c]@[r], k, le),
    }
}

/// The bytes of a uniform value in the buffer are its components in order, in the
/// machine's byte order: a scalar or vector component by component, a matrix column by
/// column (as the columns are stored), never transposed.
pub proof fn law_uniform_bytes_in_order(u: Uniform, bytes: Seq<u8>)
    requires
        encodes(u, bytes),
    ensures
        components_in_order(u, bytes, true) || components_in_order(u, bytes, false),
{
    lemma_zero_word_bytes();
    let w = uniform_buffer_words(u);
    let le = words_in_order(w, bytes, true);
    assert(words_in_order(w, bytes, le));
    assert forall|j: int, k: int| 0 <= j < w.len() && 0 <= k < 4 implies bytes[4 * j + k] == word_byte(
        w[j],
        k,
        le,
    ) by {
        let i = 4 * j + k;
        assert(i / 4 == j && i % 4 == k);
        assert(bytes[i] == word_byte(w[i / 4], i % 4, le));
    }
    match u {
        Uniform::F32(x) => {
            assert forall|k: int| 0 <= k < 4 implies bytes[k] == #[trigger] word_byte(x, k, le) by {
                assert(bytes[4 * 0int + k] == word_byte(w[0], k, le));
            }
        },
        Uniform::Vec2(v) => {},
        Uniform::Vec3(v) => {
            assert(w[3] == 0);
            assert(bytes[12int] == word_byte(w[3], 0, le));
            assert(bytes[13int] == word_byte(w[3], 1, le));
            assert(bytes[14int] == word_byte(w[3], 2, le));
            assert(bytes[15int] == word_byte(w[3], 3, le));
        },
        Uniform::Vec4(v) => {},
        Uniform::Mat4(m) => {
            assert forall|c: int, r: int, k: int|
                0 <= c < 4 && 0 <= r < 4 && 0 <= k < 4 implies bytes[16 * c + 4 * r + k]
                == #[trigger] word_byte(m@[c]@[r], k, le) by {
                assert(w[4 * c + r] == m@[c]@[r]);
                assert(16 * c + 4 * r + k == 4 * (4 * c + r) + k);
                assert(bytes[4 * (4 * c + r) + k] == word_byte(w[4 * c + r], k, le));
            }
        },
    }
}

/// `buffer` with `data` written over it from `offset` on.
pub open spec fn spliced(buffer: Seq<u8>, offset: int, data: Seq<u8>) -> Seq<u8> {
    buffer.subrange(0, offset) + data + buffer.subrange(offset + data.len(), buffer.len() as int)
}

/// Writes `bytes` into `buffer` at `offset` if it has the slot's `size`; returns whether
/// it did (a value of the wrong size is not written).
pub fn place_uniform_bytes(buffer: &mut Vec<u8>, offset: usize, size: usize, bytes: &Vec<u8>) -> (placed:
    bool)
    requires
        offset + size <= old(buffer).len(),
    ensures
        placed == (bytes.len() == size),
        placed ==> final(buffer)@ == spliced(old(buffer)@, offset as int, bytes@),
        !placed ==> final(buffer)@ == old(buffer)@,
{
    if bytes.len() != size {
        return false;
    }
    let mut k: usize = 0;
    while k < size
        invariant
            k <= size,
            size == bytes.len(),
            offset + size <= buffer.len(),
            buffer.len() == old(buffer).len(),
            forall|j: int|
                0 <= j < buffer.len() ==> #[trigger] buffer@[j] == if offset <= j < offset + k {
                    bytes@[j - offset]
                } else {
                    old(buffer)@[j]
                },
        decreases size - k,
    {
        buffer.set(offset + k, bytes[k]);
        k = k + 1;
    }
    assert(buffer@ =~= spliced(old(buffer)@, offset as int, bytes@));
    true
}

/// A uniform value whose size differs from that of its slot.
#[derive(Debug, Clone, Copy, PartialEq, Eq, Structural)]
pub struct UniformSizeMismatch {
    /// The position of the slot in the layout.
    pub index: usize,
    /// The slot's size.
    pub expected: usize,
    /// The value's size.
    pub got: usize,
}

/// The uniform buffer after the first `n` slots of `layout` have been written with the
/// values present in `values`, starting from `total` zero bytes.
pub open spec fn uniform_buffer(
    layout: Seq<(Seq<char>, (usize, usize))>,
    values: Seq<Option<Vec<u8>>>,
    total: nat,
    n: int,
) -> Seq<u8>
    decreases n,
{
    if n <= 0 {
        Seq::new(total, |i: int| 0u8)
    } else {
        let before = uniform_buffer(layout, values, total, n - 1);
        match values[n - 1] {
            Some(v) => spliced(before, layout[n - 1].1.0 as int, v@),
            None => before,
        }
    }
}

/// Whether the value for slot `i`, if any, has the slot's size.
pub open spec fn value_fits(
    layout: Seq<(Seq<char>, (usize, usize))>,
    values: Seq<Option<Vec<u8>>>,
    i: int,
) -> bool {
    match values[i] {
        Some(v) => v.len() == layout[i].1.1,
        None => true,
    }
}

/// The contents of a material's uniform buffer of `total_size` bytes: each slot of
/// `layout` holds the bytes of its value in `values` (same order as the layout), and a
/// slot without a value stays zero. Fails at the first value whose size differs from its
/// slot's.
pub fn fill_uniform_buffer(
    layout: &UniformLayout,
    total_size: usize,
    values: &Vec<Option<Vec<u8>>>,
) -> (r: Result<Vec<u8>, UniformSizeMismatch>)
    requires
        layout.fits(total_size),
        values.len() == layout@.len(),
    ensures
        match r {
            Ok(buf) => {
                &&& buf.len() == total_size
                &&& forall|i: int| 0 <= i < values.len() ==> value_fits(layout@, values@, i)
                &&& buf@ == uniform_buffer(layout@, values@, total_size as nat, values.len() as int)
            },
            Err(e) => {
                &&& e.index < values.len()
                &&& !value_fits(layout@, values@, e.index as int)
                &&& e.expected == layout@[e.index as int].1.1
                &&& values@[e.index as int] matches Some(v) && e.got == v.len()
                &&& forall|i: int| 0 <= i < e.index ==> value_fits(layout@, values@, i)
            },
        },
{
    let mut buffer: Vec<u8> = Vec::new();
    let mut z: usize = 0;
    while z < total_size
        invariant
            z <= total_size,
            buffer.len() == z,
            forall|j: int| 0 <= j < z ==> buffer@[j] == 0u8,
        decreases total_size - z,
    {
        buffer.push(0u8);
        z = z + 1;
    }
    assert(buffer@ =~= uniform_buffer(layout@, values@, total_size as nat, 0));
    let entries = layout.entries();
    let mut i: usize = 0;
    while i < values.len()
        invariant
            i <= values.len(),
            values.len() == layout@.len(),
            entries@.map_values(|e: (String, (usize, usize))| (e.0@, e.1)) == layout@,
            layout.fits(total_size),
            buffer.len() == total_size,
            buffer@ == uniform_buffer(layout@, values@, total_size as nat, i as int),
            forall|j: int| 0 <= j < i ==> value_fits(layout@, values@, j),
        decreases values.len() - i,
    {
        let (offset, size) = entries[i].1;
        assert(layout@[i as int].1 == (offset, size));
        assert(offset + size <= total_size);
        match &values[i] {
            Some(bytes) => {
                if !place_uniform_bytes(&mut buffer, offset, size, bytes) {
                    return Err(UniformSizeMismatch { index: i, expected: size, got: bytes.len() });
                }
            },
            None => {},
        }
        i = i + 1;
    }
    Ok(buffer)
}

} // verus!
