use screeps::LocalRoomTerrain;
use screeps_map_processing::compressed_terrain::compressed_terrain::div_rem;
use screeps_map_processing::compressed_terrain::compressed_terrain::CompressedRoomTerrain;
use screeps_map_processing::compressed_terrain::compressed_terrain::COMPRESSED_ARRAY_SIZE;
use screeps_map_processing::room_xy::RoomXY;
use screeps_map_processing::room_xy::ROOM_AREA;
use screeps_map_processing::room_xy::ROOM_SIZE;
use screeps_map_processing::terrain::Terrain;

fn library_terrain(terrain: screeps::Terrain) -> Terrain {
    match terrain {
        screeps::Terrain::Plain => Terrain::Plain,
        screeps::Terrain::Wall => Terrain::Wall,
        screeps::Terrain::Swamp => Terrain::Swamp,
    }
}

fn library_xy(xy: screeps::RoomXY) -> RoomXY {
    RoomXY::checked_new(xy.x.u8(), xy.y.u8()).unwrap()
}

#[test]
pub fn addresses_data_in_row_major_order() {
    // Initialize terrain to be all plains
    let mut raw_terrain_data = [0; ROOM_AREA];

    // Adjust (1, 0) to be a swamp; in row-major order this is the second element
    // (index 1) in the array; in column-major order this is the 51st
    // element (index 50) in the array.
    raw_terrain_data[1] = 2; // Terrain::Swamp has the numeric representation 2

    // Construct the local terrain object
    let terrain = CompressedRoomTerrain::new_from_uncompressed_bits(&raw_terrain_data);

    // Pull the terrain for location (1, 0); if it comes out as a Swamp, then we
    // know the get_xy function pulls data in row-major order; if it comes
    // out as a Plain, then we know that it pulls in column-major order.
    let xy = RoomXY::checked_new(1, 0).unwrap();
    let tile_type = terrain.get_xy(xy);
    assert_eq!(Terrain::Swamp, tile_type);
}

#[test]
pub fn compressed_terrain_get_xy_matches_uncompressed_terrain() {
    // Initialize terrain to be all plains
    let mut raw_terrain_data = Box::new([0; ROOM_AREA]);

    // Adjust terrain to be heterogeneous
    for i in 0..ROOM_AREA {
        // Safety: mod 3 will always be a valid u8
        let tile_type: u8 = (i % 3) as u8; // Range: 0, 1, 2 -> Plains, Wall, Swamp
        raw_terrain_data[i] = tile_type;
    }

    // Construct the local terrain object
    let terrain = LocalRoomTerrain::new_from_bits(raw_terrain_data);

    // Grab the bits
    let bits = terrain.get_bits();

    // Build the new compressed terrain from the referenced bits
    let new_terrain = CompressedRoomTerrain::new_from_uncompressed_bits(bits);

    // Iterate over all room positions and verify that they match in both terrain
    // objects
    for x in 0..ROOM_SIZE {
        for y in 0..ROOM_SIZE {
            let xy = screeps::RoomXY::checked_new(x, y).unwrap();
            assert_eq!(library_terrain(terrain.get_xy(xy)), new_terrain.get_xy(library_xy(xy)));
        }
    }
}

#[test]
pub fn compression_decompression_works_for_all_byte_combinations() {
    // Generate all combinatoric 4-tuples of terrain bit sequences
    let plains = 0b00u8;
    let walls = 0b01u8;
    let swamps = 0b10u8;
    let swampwalls = 0b11u8;

    let arr = [plains, walls, swamps, swampwalls];

    // Compress and decompress each combination, then assert that the decompressed data matches
    // the original data
    for first in arr {
        for second in arr {
            for third in arr {
                for fourth in arr {
                    let a = vec![first, second, third, fourth];
                    let compressed_byte = CompressedRoomTerrain::compress_4_bytes(&a);
                    let decompressed_bytes = CompressedRoomTerrain::uncompress_byte(compressed_byte);
                    assert_eq!(4, decompressed_bytes.len());
                    for (o, d) in std::iter::zip(a, decompressed_bytes) {
                        assert_eq!(o, d);
                    }
                }
            }
        }
    }
}

#[test]
pub fn compress_4_bytes_lays_tags_out_from_the_highest_bits() {
    assert_eq!(CompressedRoomTerrain::compress_4_bytes(&[1, 2, 3, 0]), 0b01_10_11_00);
    assert_eq!(CompressedRoomTerrain::compress_4_bytes(&[0, 0, 0, 2]), 0b00_00_00_10);
    assert_eq!(CompressedRoomTerrain::compress_4_bytes(&[2, 0, 0, 0]), 0b10_00_00_00);
}

#[test]
pub fn compress_4_bytes_keeps_only_the_two_low_bits() {
    assert_eq!(CompressedRoomTerrain::compress_4_bytes(&[0xff, 0xfc, 0x05, 0x0a]), 0b11_00_01_10);
}

#[test]
pub fn compress_4_bytes_pads_short_input_with_zero() {
    assert_eq!(CompressedRoomTerrain::compress_4_bytes(&[]), 0);
    assert_eq!(CompressedRoomTerrain::compress_4_bytes(&[3]), 0b11_00_00_00);
    assert_eq!(CompressedRoomTerrain::compress_4_bytes(&[3, 1, 2]), 0b11_01_10_00);
    assert_eq!(CompressedRoomTerrain::compress_4_bytes(&[3, 1, 2, 1, 3, 3]), 0b11_01_10_01);
}

#[test]
pub fn uncompress_byte_reads_tags_from_the_highest_bits() {
    assert_eq!(CompressedRoomTerrain::uncompress_byte(0b01_10_11_00), [1, 2, 3, 0]);
    assert_eq!(CompressedRoomTerrain::uncompress_byte(0xff), [3, 3, 3, 3]);
    assert_eq!(CompressedRoomTerrain::uncompress_byte(0), [0, 0, 0, 0]);
}

#[test]
pub fn round_trip_reproduces_every_tag_below_four() {
    let mut raw_terrain_data = Box::new([0u8; ROOM_AREA]);
    for i in 0..ROOM_AREA {
        raw_terrain_data[i] = ((i * 7 + i / 50) % 4) as u8;
    }
    let terrain = CompressedRoomTerrain::new_from_uncompressed_bits(&raw_terrain_data);
    assert_eq!(terrain.get_compressed_bytes().len(), COMPRESSED_ARRAY_SIZE);
    let bits = terrain.get_uncompressed_bits();
    assert_eq!(bits.len(), 2500);
    assert_eq!(bits, raw_terrain_data);
}

#[test]
pub fn round_trip_masks_tags_of_four_and_more() {
    let mut raw_terrain_data = Box::new([0u8; ROOM_AREA]);
    raw_terrain_data[0] = 6;
    raw_terrain_data[2499] = 0xfd;
    let terrain = CompressedRoomTerrain::new_from_uncompressed_bits(&raw_terrain_data);
    let bits = terrain.get_uncompressed_bits();
    assert_eq!(bits[0], 2);
    assert_eq!(bits[2499], 1);
    assert_eq!(bits[1], 0);
}

#[test]
pub fn compressed_bytes_round_trip() {
    let mut data = Box::new([0u8; COMPRESSED_ARRAY_SIZE]);
    for i in 0..COMPRESSED_ARRAY_SIZE {
        data[i] = (i % 256) as u8;
    }
    let terrain = CompressedRoomTerrain::new_from_compressed_bytes(data.clone());
    assert_eq!(terrain.get_compressed_bytes(), data.as_ref());
    let again = CompressedRoomTerrain::new_from_uncompressed_bits(&terrain.get_uncompressed_bits());
    assert_eq!(again.get_compressed_bytes(), data.as_ref());
}

#[test]
pub fn wall_and_swamp_at_once_is_a_wall() {
    let mut raw_terrain_data = [0; ROOM_AREA];
    raw_terrain_data[0] = 3;
    raw_terrain_data[51] = 1;
    raw_terrain_data[2499] = 2;
    let terrain = CompressedRoomTerrain::new_from_uncompressed_bits(&raw_terrain_data);
    assert_eq!(terrain.get_xy(RoomXY::checked_new(0, 0).unwrap()), Terrain::Wall);
    assert_eq!(terrain.get_xy(RoomXY::checked_new(1, 1).unwrap()), Terrain::Wall);
    assert_eq!(terrain.get_xy(RoomXY::checked_new(49, 49).unwrap()), Terrain::Swamp);
    assert_eq!(terrain.get_xy(RoomXY::checked_new(2, 0).unwrap()), Terrain::Plain);
}

#[test]
pub fn get_xy_reads_row_times_fifty_plus_column() {
    let mut raw_terrain_data = [0; ROOM_AREA];
    raw_terrain_data[7 * 50 + 3] = 1;
    let terrain = CompressedRoomTerrain::new_from_uncompressed_bits(&raw_terrain_data);
    assert_eq!(terrain.get_xy(RoomXY::checked_new(3, 7).unwrap()), Terrain::Wall);
    assert_eq!(terrain.get_xy(RoomXY::checked_new(7, 3).unwrap()), Terrain::Plain);
}

#[test]
pub fn compressed_terrain_memory_size_counts_the_bytes_and_the_box() {
    let terrain = CompressedRoomTerrain::new_from_uncompressed_bits(&[0; ROOM_AREA]);
    assert_eq!(terrain.memory_size(), 625 + std::mem::size_of::<Box<[u8; 625]>>());
}

#[test]
pub fn div_rem_gives_quotient_then_remainder() {
    assert_eq!(div_rem(2499usize, 4usize), (624, 3));
    assert_eq!(div_rem(17u8, 5u8), (3, 2));
    assert_eq!(div_rem(-17i32, 5i32), (-3, -2));
    assert_eq!(div_rem(0u64, 9u64), (0, 0));
}
