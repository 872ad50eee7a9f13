//! The world configuration of a generator, the plan of each chunk
//! request, and the decoding of the blocks that come back.

use std::collections::HashMap;
use vstd::prelude::*;
use crate::bytes::{
    i32s_as_bytes, i32s_be_bytes, i32s_le_bytes, lemma_i32s_round_trip, native_bytes_of_i32s, native_words, try_bytes_as_words, bit_pattern, words_be,
    words_le,
};
use crate::decimal::{decimal, is_number_char, lemma_decimal_chars, lemma_decimal_injective, push_decimal_i64};

verus! {

/// Width of a chunk, in blocks, along both horizontal axes.
pub const CHUNK_WIDTH: usize = 16;

/// Bytes of one block as the GPU stores it (an `i32`).
pub const BLOCK_BYTES: u64 = 4;

/// Bytes of the uniform that holds a chunk's position (an `[i32; 4]`).
pub const POSITION_BYTES: u64 = 16;

/// The greatest world height whose readback size, `4 * 16 * 16 * height`,
/// still fits a `u32`.
pub const MAX_HEIGHT: u32 = 4194303;

/// Number of blocks in a chunk of a world `height` blocks tall.
pub open spec fn blocks_in_chunk(height: int) -> int {
    (CHUNK_WIDTH * CHUNK_WIDTH) as int * height
}

/// Size of the GPU buffer the chunk is generated into:
/// `size_of::<i32>() * 16 * 16`, times the height.
pub open spec fn chunk_buffer_bytes(height: int) -> int {
    BLOCK_BYTES as int * CHUNK_WIDTH as int * CHUNK_WIDTH as int * height
}

/// Size of the buffer the chunk is copied into to be read back:
/// `4 * (16 * 16)`, times the height.
pub open spec fn readback_buffer_bytes(height: int) -> int {
    4 * (CHUNK_WIDTH * CHUNK_WIDTH) as int * height
}

/// The block coordinate at which chunk coordinate `c` starts.
pub open spec fn chunk_origin(c: int) -> int {
    c * CHUNK_WIDTH as int
}

/// A chunk coordinate whose origin, `16 * c`, fits an `i32`.
pub open spec fn chunk_coord_in_range(c: int) -> bool {
    i32::MIN <= chunk_origin(c) <= i32::MAX
}

/// The text that describes a generator's world and a position in it.
pub open spec fn debug_text(min_height: int, height: int, sea_level: int, x: int, y: int, z: int) -> Seq<char> {
    "min_height: "@ + decimal(min_height) + ", height: "@ + decimal(height) + ", sea_level: "@
        + decimal(sea_level) + ", x: "@ + decimal(x) + ", y: "@ + decimal(y) + ", z: "@ + decimal(z)
}

/// A world generator: the vertical extent of the world, its sea level,
/// and the mapping from block ids to the integers the GPU uses.
pub struct Generator {
    min_height: i32,
    height: u32,
    sea_level: i32,
    pallete: HashMap<String, i32>,
}

/// The sizes of the GPU buffers a generator of a given height needs.
pub struct BufferLayout {
    /// The storage buffer the compute pass writes the chunk into.
    pub chunk_size: u64,
    /// The mappable buffer the chunk is copied into and read from.
    pub readback_size: u64,
    /// The uniform buffer that holds the chunk's position.
    pub position_size: u64,
}

/// What the GPU is asked to do to generate one chunk.
pub struct ChunkRequest {
    /// Block coordinates of the chunk's corner: `[16 * x, 16 * z, 0]`.
    pub position: Vec<i32>,
    /// `position` as the bytes written into the position uniform.
    pub position_bytes: Vec<u8>,
    /// Workgroups dispatched along each axis: `16 x 16 x height`.
    pub workgroups: (u32, u32, u32),
    /// Bytes copied from the chunk buffer into the readback buffer.
    pub copy_size: u64,
}

/// The blocks of a generated chunk, in the order the GPU wrote them.
pub struct Chunk {
    pub blocks: Vec<u32>,
}

/// Why the blocks of a chunk could not be read from the bytes.
#[derive(Debug, PartialEq, Eq, Structural)]
pub enum ChunkError {
    /// The bytes could not be viewed as 32-bit words: their count is not a
    /// multiple of 4, or they are not aligned to 4.
    Cast,
}

impl Generator {
    /// y-coordinate of the bottom of the world.
    pub closed spec fn min_height_spec(&self) -> i32 {
        self.min_height
    }

    /// Distance from the bottom of the world to its top.
    pub closed spec fn height_spec(&self) -> u32 {
        self.height
    }

    /// y-coordinate of the sea surface.
    pub closed spec fn sea_level_spec(&self) -> i32 {
        self.sea_level
    }

    /// The block ids the generator knows, with their integers.
    pub closed spec fn pallete_spec(&self) -> Map<String, i32> {
        self.pallete@
    }

    /// A generator for a world that starts at `min_height`, is `height`
    /// blocks tall and has its sea at `sea_level`, with an empty palette.
    pub fn new(min_height: i32, height: u32, sea_level: i32) -> (g: Generator)
        ensures
            g.min_height_spec() == min_height,
            g.height_spec() == height,
            g.sea_level_spec() == sea_level,
            g.pallete_spec() == Map::<String, i32>::empty(),
    {
        Generator { min_height, height, sea_level, pallete: HashMap::new() }
    }

    /// y-coordinate of the bottom of the world.
    pub fn get_min_height(&self) -> (r: i32)
        ensures
            r == self.min_height_spec(),
    {
        self.min_height
    }

    /// Distance from the bottom of the world to the top of the world.
    pub fn get_height(&self) -> (r: u32)
        ensures
            r == self.height_spec(),
    {
        self.height
    }

    /// y-coordinate of the sea surface.
    pub fn get_sea_level(&self) -> (r: i32)
        ensures
            r == self.sea_level_spec(),
    {
        self.sea_level
    }

    /// A line that describes the world and the position `(x, y, z)`.
    pub fn get_debug_text(&self, x: i32, y: i32, z: i32) -> (s: String)
        ensures
            s@ == debug_text(
                self.min_height_spec() as int,
                self.height_spec() as int,
                self.sea_level_spec() as int,
                x as int,
                y as int,
                z as int,
            ),
    {
        let mut s = String::new();
        s.append("min_height: ");
        push_decimal_i64(&mut s, self.min_height as i64);
        s.append(", height: ");
        push_decimal_i64(&mut s, self.height as i64);
        s.append(", sea_level: ");
        push_decimal_i64(&mut s, self.sea_level as i64);
        s.append(", x: ");
        push_decimal_i64(&mut s, x as i64);
        s.append(", y: ");
        push_decimal_i64(&mut s, y as i64);
        s.append(", z: ");
        push_decimal_i64(&mut s, z as i64);
        s
    }

    /// Tells the generator what block ids there are and their mappings to
    /// integers; the world's extent is left as it was.
    pub fn set_pallete(&mut self, pallete: HashMap<String, i32>)
        ensures
            final(self).pallete_spec() == pallete@,
            final(self).min_height_spec() == old(self).min_height_spec(),
            final(self).height_spec() == old(self).height_spec(),
            final(self).sea_level_spec() == old(self).sea_level_spec(),
    {
        self.pallete = pallete;
    }

    /// The sizes of the buffers this generator's chunks need.
    pub fn buffer_layout(&self) -> (layout: BufferLayout)
        requires
            self.height_spec() <= MAX_HEIGHT,
        ensures
            layout.chunk_size == chunk_buffer_bytes(self.height_spec() as int),
            layout.readback_size == readback_buffer_bytes(self.height_spec() as int),
            layout.position_size == POSITION_BYTES,
    {
        let chunk_size: u64 = chunk_bytes(self.height);
        let per_layer: u32 = 4 * (CHUNK_WIDTH * CHUNK_WIDTH) as u32;
        assert(per_layer == 1024);
        assert(per_layer * self.height <= u32::MAX) by (nonlinear_arith)
            requires
                per_layer == 1024,
                self.height <= 4194303,
        ;
        let readback: u32 = per_layer * self.height;
        BufferLayout { chunk_size, readback_size: readback as u64, position_size: POSITION_BYTES }
    }

    /// What to hand the GPU to generate the chunk at chunk coordinates
    /// `(x, z)`.
    pub fn chunk_request(&self, x: i32, z: i32) -> (req: ChunkRequest)
        requires
            chunk_coord_in_range(x as int),
            chunk_coord_in_range(z as int),
        ensures
            req.position@ == seq![chunk_origin(x as int) as i32, chunk_origin(z as int) as i32, 0i32],
            req.position_bytes@ == i32s_le_bytes(req.position@)
                || req.position_bytes@ == i32s_be_bytes(req.position@),
            req.position_bytes@ == native_bytes_of_i32s(req.position@),
            req.workgroups == (CHUNK_WIDTH as u32, CHUNK_WIDTH as u32, self.height_spec()),
            req.copy_size == chunk_buffer_bytes(self.height_spec() as int),
    {
        let mut position: Vec<i32> = Vec::new();
        position.push(x * CHUNK_WIDTH as i32);
        position.push(z * CHUNK_WIDTH as i32);
        position.push(0);
        let position_bytes = i32s_as_bytes(position.as_slice());
        let copy_size: u64 = chunk_bytes(self.height);
        ChunkRequest {
            position,
            position_bytes,
            workgroups: (CHUNK_WIDTH as u32, CHUNK_WIDTH as u32, self.height),
            copy_size,
        }
    }
}

/// Size of the chunk buffer of a world `height` blocks tall.
fn chunk_bytes(height: u32) -> (n: u64)
    ensures
        n == chunk_buffer_bytes(height as int),
{
    let per_layer: u64 = BLOCK_BYTES * CHUNK_WIDTH as u64 * CHUNK_WIDTH as u64;
    assert(per_layer == 1024);
    per_layer * (height as u64)
}

/// The chunk for the outcome of viewing readback bytes as 32-bit words:
/// the words themselves when the view succeeded, else `ChunkError::Cast`.
pub fn chunk_from_words(words: Result<Vec<u32>, bytemuck::PodCastError>) -> (r: Result<Chunk, ChunkError>)
    ensures
        words matches Ok(w) ==> (r matches Ok(c) && c.blocks@ == w@),
        words is Err ==> r == Err::<Chunk, ChunkError>(ChunkError::Cast),
{
    match words {
        Ok(blocks) => Ok(Chunk { blocks }),
        Err(_) => Err(ChunkError::Cast),
    }
}

/// Reads the blocks of a chunk from the bytes the GPU wrote back: the
/// bytes are copied, then viewed as 32-bit words in the machine's byte
/// order. Whether the view succeeds also depends on the copy's address
/// (it must be aligned to 4), which no contract can name; so success is
/// promised for no input, and `chunk_from_words` says what each outcome
/// of the view gives.
pub fn slice_to_chunk(slice: &[u8]) -> (r: Result<Chunk, ChunkError>)
    ensures
        slice@.len() % 4 != 0 ==> r == Err::<Chunk, ChunkError>(ChunkError::Cast),
        r matches Ok(c) ==> (c.blocks@ == words_le(slice@) || c.blocks@ == words_be(slice@)),
        r matches Ok(c) ==> c.blocks@ == native_words(slice@),
        r matches Ok(c) ==> c.blocks@.len() * 4 == slice@.len(),
{
    let mut dst: Vec<u8> = Vec::with_capacity(slice.len());
    let mut i: usize = 0;
    while i < slice.len()
        invariant
            i <= slice@.len(),
            dst@ == slice@.subrange(0, i as int),
        decreases slice@.len() - i,
    {
        dst.push(slice[i]);
        i = i + 1;
    }
    assert(dst@ == slice@);
    chunk_from_words(try_bytes_as_words(dst.as_slice()))
}

/// The readback buffer is exactly as large as the chunk buffer that is
/// copied into it, one 4-byte word per block of the chunk.
pub proof fn lemma_readback_holds_chunk(height: u32)
    ensures
        readback_buffer_bytes(height as int) == chunk_buffer_bytes(height as int),
        chunk_buffer_bytes(height as int) == 4 * blocks_in_chunk(height as int),
{
    assert((CHUNK_WIDTH * CHUNK_WIDTH) as int == 256);
    assert(BLOCK_BYTES as int * CHUNK_WIDTH as int * CHUNK_WIDTH as int == 1024);
}

/// Reading back a whole chunk buffer gives one word per block of the
/// chunk, whichever byte order the machine reads it in.
pub proof fn lemma_readback_decodes_to_chunk(height: u32, bytes: Seq<u8>)
    requires
        bytes.len() == readback_buffer_bytes(height as int),
    ensures
        words_le(bytes).len() == blocks_in_chunk(height as int),
        words_be(bytes).len() == blocks_in_chunk(height as int),
        native_words(bytes).len() == blocks_in_chunk(height as int),
{
    assert((CHUNK_WIDTH * CHUNK_WIDTH) as int == 256);
    let n: int = bytes.len() as int;
    assert(n == 1024 * height);
    assert(n / 4 == 256 * height) by (nonlinear_arith)
        requires
            n == 1024 * height,
    ;
}

/// The position of a chunk, three `i32`s, fits the position uniform.
pub proof fn lemma_position_fits_uniform(position: Seq<i32>)
    requires
        position.len() == 3,
    ensures
        i32s_le_bytes(position).len() <= POSITION_BYTES,
        i32s_be_bytes(position).len() <= POSITION_BYTES,
{
}

/// The position bytes a chunk request writes, read back the way the
/// readback is decoded (in the machine's one byte order), give the
/// position's values back, as unsigned 32-bit patterns.
pub proof fn lemma_position_bytes_read_back(position: Seq<i32>, bytes: Seq<u8>)
    requires
        bytes == native_bytes_of_i32s(position),
    ensures
        native_words(bytes) == position.map_values(|v: i32| bit_pattern(v) as u32),
        bytes.len() == 4 * position.len(),
{
    lemma_i32s_round_trip(position);
}

/// Each decoded block is the word of its own four bytes of the readback,
/// in the same byte order for every block and every readback: block `i`
/// of any readback is what the four bytes `4i .. 4i+4` alone decode to.
pub proof fn lemma_blocks_are_local(bytes: Seq<u8>, i: int)
    requires
        0 <= i < bytes.len() / 4,
    ensures
        native_words(bytes).len() == bytes.len() / 4,
        native_words(bytes.subrange(4 * i, 4 * i + 4)).len() == 1,
        native_words(bytes)[i] == native_words(bytes.subrange(4 * i, 4 * i + 4))[0],
{
    let part = bytes.subrange(4 * i, 4 * i + 4);
    assert(part.len() == 4);
    assert(part[0] == bytes[4 * i]);
    assert(part[1] == bytes[4 * i + 1]);
    assert(part[2] == bytes[4 * i + 2]);
    assert(part[3] == bytes[4 * i + 3]);
}

/// Chunks tile each horizontal axis: every block coordinate `b` lies in
/// the chunk `b / 16` (rounding down), and in no other chunk.
pub proof fn lemma_chunks_tile_axis(b: int, c: int)
    ensures
        chunk_origin(b / CHUNK_WIDTH as int) <= b < chunk_origin(b / CHUNK_WIDTH as int) + CHUNK_WIDTH,
        chunk_origin(c) <= b < chunk_origin(c) + CHUNK_WIDTH ==> c == b / CHUNK_WIDTH as int,
{
}

/// Where a text is a literal, then a number, then a rest that is empty or
/// starts with a character no number has, the number and the rest are
/// determined by the text.
proof fn lemma_peel_number(lit: Seq<char>, x1: int, r1: Seq<char>, x2: int, r2: Seq<char>)
    requires
        lit + (decimal(x1) + r1) == lit + (decimal(x2) + r2),
        r1.len() > 0 ==> !is_number_char(r1[0]),
        r2.len() > 0 ==> !is_number_char(r2[0]),
    ensures
        x1 == x2,
        r1 == r2,
{
    let d1 = decimal(x1);
    let d2 = decimal(x2);
    let t1 = d1 + r1;
    let t2 = d2 + r2;
    assert(t1 =~= (lit + t1).skip(lit.len() as int));
    assert(t2 =~= (lit + t2).skip(lit.len() as int));
    assert(t1 == t2);
    lemma_decimal_chars(x1);
    lemma_decimal_chars(x2);
    if d1.len() < d2.len() {
        let k = d1.len() as int;
        assert(t1[k] == r1[0]);
        assert(t2[k] == d2[k]);
        assert(false);
    }
    if d2.len() < d1.len() {
        let k = d2.len() as int;
        assert(t2[k] == r2[0]);
        assert(t1[k] == d1[k]);
        assert(false);
    }
    assert(d1 =~= t1.take(d1.len() as int));
    assert(d2 =~= t2.take(d2.len() as int));
    assert(r1 =~= t1.skip(d1.len() as int));
    assert(r2 =~= t2.skip(d2.len() as int));
    lemma_decimal_injective(x1, x2);
}

/// The debug text in right-nested form, each literal followed by its number.
spec fn debug_text_nested(a: int, b: int, c: int, x: int, y: int, z: int) -> Seq<char> {
    "min_height: "@ + (decimal(a) + (", height: "@ + (decimal(b) + (", sea_level: "@ + (decimal(c)
        + (", x: "@ + (decimal(x) + (", y: "@ + (decimal(y) + (", z: "@ + (decimal(z)
        + Seq::<char>::empty())))))))))))
}

/// The debug text is its literals and numbers, nested to the right.
proof fn lemma_debug_text_nested(a: int, b: int, c: int, x: int, y: int, z: int)
    ensures
        debug_text(a, b, c, x, y, z) == debug_text_nested(a, b, c, x, y, z),
{
    assert(debug_text(a, b, c, x, y, z) =~= debug_text_nested(a, b, c, x, y, z));
}

/// The debug text tells every two different worlds and positions apart:
/// equal texts were made from equal values.
pub proof fn lemma_debug_text_injective(
    a1: int,
    b1: int,
    c1: int,
    x1: int,
    y1: int,
    z1: int,
    a2: int,
    b2: int,
    c2: int,
    x2: int,
    y2: int,
    z2: int,
)
    requires
        debug_text(a1, b1, c1, x1, y1, z1) == debug_text(a2, b2, c2, x2, y2, z2),
    ensures
        a1 == a2,
        b1 == b2,
        c1 == c2,
        x1 == x2,
        y1 == y2,
        z1 == z2,
{
    reveal_strlit(", height: ");
    reveal_strlit(", sea_level: ");
    reveal_strlit(", x: ");
    reveal_strlit(", y: ");
    reveal_strlit(", z: ");
    lemma_debug_text_nested(a1, b1, c1, x1, y1, z1);
    lemma_debug_text_nested(a2, b2, c2, x2, y2, z2);
    let e = Seq::<char>::empty();
    let rz1 = ", z: "@ + (decimal(z1) + e);
    let rz2 = ", z: "@ + (decimal(z2) + e);
    let ry1 = ", y: "@ + (decimal(y1) + rz1);
    let ry2 = ", y: "@ + (decimal(y2) + rz2);
    let rx1 = ", x: "@ + (decimal(x1) + ry1);
    let rx2 = ", x: "@ + (decimal(x2) + ry2);
    let rc1 = ", sea_level: "@ + (decimal(c1) + rx1);
    let rc2 = ", sea_level: "@ + (decimal(c2) + rx2);
    let rb1 = ", height: "@ + (decimal(b1) + rc1);
    let rb2 = ", height: "@ + (decimal(b2) + rc2);
    lemma_peel_number("min_height: "@, a1, rb1, a2, rb2);
    lemma_peel_number(", height: "@, b1, rc1, b2, rc2);
    lemma_peel_number(", sea_level: "@, c1, rx1, c2, rx2);
    lemma_peel_number(", x: "@, x1, ry1, x2, ry2);
    lemma_peel_number(", y: "@, y1, rz1, y2, rz2);
    lemma_peel_number(", z: "@, z1, e, z2, e);
}

} // verus!
