use gpugen::decimal::{push_decimal_i64, push_decimal_u64};
use gpugen::generator::{
    chunk_from_words, slice_to_chunk, ChunkError, Generator, BLOCK_BYTES, CHUNK_WIDTH, MAX_HEIGHT, POSITION_BYTES,
};
use std::collections::HashMap;

fn ne_bytes_of_i32s(values: &[i32]) -> Vec<u8> {
    let mut out = Vec::new();
    for v in values {
        out.extend_from_slice(&v.to_ne_bytes());
    }
    out
}

fn ne_bytes_of_u32s(values: &[u32]) -> Vec<u8> {
    let mut out = Vec::new();
    for v in values {
        out.extend_from_slice(&v.to_ne_bytes());
    }
    out
}

#[test]
fn new_reports_its_world() {
    let g = Generator::new(-64, 384, 62);
    assert_eq!(g.get_min_height(), -64);
    assert_eq!(g.get_height(), 384);
    assert_eq!(g.get_sea_level(), 62);
}

#[test]
fn set_pallete_keeps_the_world_extent() {
    let mut g = Generator::new(0, 16, 8);
    let mut pallete = HashMap::new();
    pallete.insert("minecraft:stone".to_string(), 1);
    pallete.insert("minecraft:air".to_string(), 0);
    g.set_pallete(pallete);
    assert_eq!(g.get_min_height(), 0);
    assert_eq!(g.get_height(), 16);
    assert_eq!(g.get_sea_level(), 8);
}

#[test]
fn debug_text_matches_format() {
    let g = Generator::new(-64, 384, 62);
    let text = g.get_debug_text(1, -2, 3);
    assert_eq!(text, "min_height: -64, height: 384, sea_level: 62, x: 1, y: -2, z: 3");
}

#[test]
fn debug_text_at_the_integer_limits() {
    let g = Generator::new(i32::MIN, u32::MAX, i32::MAX);
    let text = g.get_debug_text(i32::MIN, 0, i32::MAX);
    let expected = format!(
        "min_height: {}, height: {}, sea_level: {}, x: {}, y: {}, z: {}",
        i32::MIN,
        u32::MAX,
        i32::MAX,
        i32::MIN,
        0,
        i32::MAX
    );
    assert_eq!(text, expected);
}

#[test]
fn debug_text_tells_positions_apart() {
    let g = Generator::new(0, 16, 8);
    assert_ne!(g.get_debug_text(1, 23, 4), g.get_debug_text(12, 3, 4));
    assert_ne!(g.get_debug_text(-1, 0, 0), g.get_debug_text(1, 0, 0));
}

#[test]
fn decimal_matches_to_string() {
    for n in [0i64, 7, 9, 10, 99, 100, -1, -10, 1234567890, i64::MIN, i64::MAX] {
        let mut s = String::from("n=");
        push_decimal_i64(&mut s, n);
        assert_eq!(s, format!("n={}", n));
    }
    for n in [0u64, 5, 10, 18446744073709551615] {
        let mut s = String::new();
        push_decimal_u64(&mut s, n);
        assert_eq!(s, n.to_string());
    }
}

#[test]
fn buffer_layout_for_a_small_world() {
    let g = Generator::new(0, 16, 8);
    let layout = g.buffer_layout();
    assert_eq!(layout.chunk_size, 16384);
    assert_eq!(layout.readback_size, 16384);
    assert_eq!(layout.position_size, 16);
    assert_eq!(POSITION_BYTES, 16);
    assert_eq!(BLOCK_BYTES, 4);
}

#[test]
fn buffer_layout_at_the_greatest_height() {
    let g = Generator::new(0, MAX_HEIGHT, 0);
    let layout = g.buffer_layout();
    assert_eq!(layout.readback_size, 4294966272);
    assert_eq!(layout.chunk_size, layout.readback_size);
    assert!((MAX_HEIGHT as u64 + 1) * 1024 > u32::MAX as u64);
}

#[test]
fn chunk_request_for_a_chunk() {
    let g = Generator::new(0, 16, 8);
    let req = g.chunk_request(-4, 3);
    assert_eq!(req.position, vec![-64, 48, 0]);
    assert_eq!(req.position_bytes, ne_bytes_of_i32s(&[-64, 48, 0]));
    assert_eq!(req.position_bytes.len(), 12);
    assert_eq!(req.workgroups, (16, 16, 16));
    assert_eq!(req.copy_size, g.buffer_layout().readback_size);
}

#[test]
fn chunk_request_at_the_coordinate_limits() {
    let g = Generator::new(0, 1, 0);
    let low = g.chunk_request(-134217728, 134217727);
    assert_eq!(low.position, vec![i32::MIN, 2147483632, 0]);
    assert_eq!(low.position_bytes, ne_bytes_of_i32s(&[i32::MIN, 2147483632, 0]));
    assert_eq!(low.copy_size, 1024);
}

#[test]
fn neighbouring_chunks_meet_without_gap() {
    let g = Generator::new(0, 16, 8);
    let a = g.chunk_request(-1, 0);
    let b = g.chunk_request(0, 0);
    assert_eq!(a.position[0] + CHUNK_WIDTH as i32, b.position[0]);
    assert_eq!(b.position[0], 0);
}

#[test]
fn readback_decodes_into_blocks() {
    let height = 2u32;
    let blocks: Vec<u32> = (0..256 * height).map(|i| i * 7 + 1).collect();
    let bytes = ne_bytes_of_u32s(&blocks);
    let g = Generator::new(0, height, 0);
    assert_eq!(bytes.len() as u64, g.buffer_layout().readback_size);
    let chunk = slice_to_chunk(&bytes).unwrap();
    assert_eq!(chunk.blocks, blocks);
    assert_eq!(chunk.blocks.len(), CHUNK_WIDTH * CHUNK_WIDTH * height as usize);
}

#[test]
fn readback_with_slop_is_refused() {
    let bytes = vec![1u8; 257];
    assert!(matches!(slice_to_chunk(&bytes), Err(ChunkError::Cast)));
    let bytes = vec![1u8; 3];
    assert!(matches!(slice_to_chunk(&bytes), Err(ChunkError::Cast)));
}

#[test]
fn empty_readback_is_refused() {
    // An empty copy is not allocated, so it is not aligned to 4.
    assert!(matches!(slice_to_chunk(&[]), Err(ChunkError::Cast)));
}

#[test]
fn chunk_from_words_keeps_the_words() {
    let chunk = chunk_from_words(Ok(vec![5, 0, 7])).unwrap();
    assert_eq!(chunk.blocks, vec![5, 0, 7]);
}

#[test]
fn chunk_from_words_reports_a_refused_view() {
    let r = chunk_from_words(Err(bytemuck::PodCastError::TargetAlignmentGreaterAndInputNotAligned));
    assert!(matches!(r, Err(ChunkError::Cast)));
    let r = chunk_from_words(Err(bytemuck::PodCastError::OutputSliceWouldHaveSlop));
    assert!(matches!(r, Err(ChunkError::Cast)));
}
