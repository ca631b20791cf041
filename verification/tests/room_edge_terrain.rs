use screeps::LocalRoomTerrain;
use screeps_map_processing::compressed_terrain::compressed_room_edge_terrain::RoomEdgeTerrain;
use screeps_map_processing::compressed_terrain::compressed_room_edge_terrain::RoomEdgeTerrainParseError;
use screeps_map_processing::room_xy::RoomXY;
use screeps_map_processing::room_xy::ROOM_AREA;
use screeps_map_processing::room_xy::ROOM_SIZE;
use screeps_map_processing::terrain::Terrain;

fn library_terrain(terrain: screeps::Terrain) -> Terrain {
    match terrain {
        screeps::Terrain::Plain => Terrain::Plain,
        screeps::Terrain::Wall => Terrain::Wall,
        screeps::Terrain::Swamp => Terrain::Swamp,
    }
}

fn library_xy(xy: screeps::RoomXY) -> RoomXY {
    RoomXY::checked_new(xy.x.u8(), xy.y.u8()).unwrap()
}

fn bits_to_byte(bits: &[bool; 8]) -> u8 {
    let mut byte: u8 = 0;
    for (i, &bit) in bits.iter().enumerate() {
        if bit {
            // Set the bit at the correct position (MSB first)
            byte |= 1 << (7 - i);
        }
    }
    byte
}

fn heterogeneous_terrain() -> LocalRoomTerrain {
    // Initialize terrain to be all plains
    let mut raw_terrain_data = Box::new([0; ROOM_AREA]);

    // Adjust terrain to be heterogeneous
    for i in 0..ROOM_AREA {
        // Safety: mod 3 will always be a valid u8
        let tile_type: u8 = (i % 3) as u8; // Range: 0, 1, 2 -> Plains, Wall, Swamp
        raw_terrain_data[i] = tile_type;
    }

    // Construct the local terrain object
    LocalRoomTerrain::new_from_bits(raw_terrain_data)
}

#[test]
pub fn room_edge_terrain_copy_terrain_from_byte_copies_data_correctly() {
    // Combinatorically build an array of 8 tiles, all 256 permutations
    for permutation in 0..256usize {
        // Plains = 0/false, Walls = 1/true
        let mut arr: [bool; 8] = [false; 8];
        for i in 0..8 {
            arr[i] = (permutation >> i) & 1 == 1;
        }

        // Convert each array into a byte
        let original_byte = bits_to_byte(&arr);
        let original_terrain = arr.map(|tile| if tile { Terrain::Wall } else { Terrain::Plain });

        // Run the byte through the copy terrain function
        let mut output: [Terrain; 8] = [Terrain::Plain; 8];
        RoomEdgeTerrain::copy_terrain_from_byte(original_byte, &mut output);

        // Verify that the output matches the original byte
        assert_eq!(output, original_terrain);
    }
}

#[test]
pub fn room_edge_terrain_get_byte_from_terrain_calculates_correctly() {
    for original_byte in 0..=u8::MAX {
        let original_terrain = RoomEdgeTerrain::get_terrain_from_byte(original_byte);
        let mut terrain_vec = Vec::new();
        for i in 0..8 {
            let terrain = match (original_byte >> (7 - i)) & 1 {
                0 => Terrain::Plain,
                1 => Terrain::Wall,
                _ => unreachable!(),
            };
            terrain_vec.push(terrain);
        }

        assert_eq!(original_terrain, &terrain_vec[0..8]);

        let output = RoomEdgeTerrain::get_byte_from_terrain(&original_terrain);

        // Verify that the output matches the original byte
        assert_eq!(output, original_byte);
    }
}

#[test]
pub fn room_edge_terrain_copy_edge_terrain_to_byte_slice_copies_data_correctly() {
    let byte_0 = u8::MAX/2;
    let byte_1 = 0_u8;
    let byte_2 = 1_u8;
    let byte_3 = 2_u8;
    let byte_4 = 3_u8;
    let byte_5 = 4_u8;
    let data = [byte_0, byte_1, byte_2, byte_3, byte_4, byte_5];

    let terrain = RoomEdgeTerrain::get_edge_terrain_from_bytes(&data);

    let mut output = [0u8; 6];
    RoomEdgeTerrain::copy_edge_terrain_to_byte_slice(&terrain, &mut output);

    assert_eq!(output, data);
}

#[test]
pub fn room_edge_terrain_edge_slices_match() {
    let terrain = heterogeneous_terrain();

    // Pull the terrain for each edge
    let top_vec: Vec<Terrain> = (0..=49).map(|x| {
        let y = 0;
        let xy = screeps::RoomXY::checked_new(x, y).unwrap();
        if x == 0 || x == 49 {
            Terrain::Wall
        } else {
            let tile = library_terrain(terrain.get_xy(xy));
            if tile == Terrain::Swamp {
                Terrain::Plain
            } else {
                tile
            }
        }
    }).collect();

    let right_vec: Vec<Terrain> = (0..=49).map(|y| {
        let x = 49;
        let xy = screeps::RoomXY::checked_new(x, y).unwrap();
        if y == 0 || y == 49 {
            Terrain::Wall
        } else {
            let tile = library_terrain(terrain.get_xy(xy));
            if tile == Terrain::Swamp {
                Terrain::Plain
            } else {
                tile
            }
        }
    }).collect();

    let bottom_vec: Vec<Terrain> = (0..=49).map(|x| {
        let y = 49;
        let xy = screeps::RoomXY::checked_new(x, y).unwrap();
        if x == 0 || x == 49 {
            Terrain::Wall
        } else {
            let tile = library_terrain(terrain.get_xy(xy));
            if tile == Terrain::Swamp {
                Terrain::Plain
            } else {
                tile
            }
        }
    }).collect();

    let left_vec: Vec<Terrain> = (0..=49).map(|y| {
        let x = 0;
        let xy = screeps::RoomXY::checked_new(x, y).unwrap();
        if y == 0 || y == 49 {
            Terrain::Wall
        } else {
            let tile = library_terrain(terrain.get_xy(xy));
            if tile == Terrain::Swamp {
                Terrain::Plain
            } else {
                tile
            }
        }
    }).collect();

    // Construct the room edge terrain object
    let room_edge_terrain_res = RoomEdgeTerrain::new_from_terrain_slices(&top_vec, &right_vec, &bottom_vec, &left_vec);

    assert!(room_edge_terrain_res.is_ok());

    let room_edge_terrain = room_edge_terrain_res.unwrap();

    // Check that each edge slice matches with the one that was provided
    let top_edge_slice = room_edge_terrain.get_top_edge_terrain();
    let right_edge_slice = room_edge_terrain.get_right_edge_terrain();
    let bottom_edge_slice = room_edge_terrain.get_bottom_edge_terrain();
    let left_edge_slice = room_edge_terrain.get_left_edge_terrain();

    assert_eq!(top_vec, top_edge_slice, "top edge mismatch");
    assert_eq!(right_vec, right_edge_slice, "right edge mismatch");
    assert_eq!(bottom_vec, bottom_edge_slice, "bottom edge mismatch");
    assert_eq!(left_vec, left_edge_slice, "left edge mismatch");
}

#[test]
pub fn room_edge_terrain_get_xy_returns_expected_values() {
    let terrain = heterogeneous_terrain();

    // Pull the terrain for each edge
    let top_vec: Vec<Terrain> = (0..=49).map(|x| {
        let y = 0;
        let xy = screeps::RoomXY::checked_new(x, y).unwrap();
        library_terrain(terrain.get_xy(xy))
    }).collect();

    let right_vec: Vec<Terrain> = (0..=49).map(|y| {
        let x = 49;
        let xy = screeps::RoomXY::checked_new(x, y).unwrap();
        library_terrain(terrain.get_xy(xy))
    }).collect();

    let bottom_vec: Vec<Terrain> = (0..=49).map(|x| {
        let y = 49;
        let xy = screeps::RoomXY::checked_new(x, y).unwrap();
        library_terrain(terrain.get_xy(xy))
    }).collect();

    let left_vec: Vec<Terrain> = (0..=49).map(|y| {
        let x = 0;
        let xy = screeps::RoomXY::checked_new(x, y).unwrap();
        library_terrain(terrain.get_xy(xy))
    }).collect();

    // Construct the room edge terrain object
    let room_edge_terrain_res = RoomEdgeTerrain::new_from_terrain_slices(&top_vec, &right_vec, &bottom_vec, &left_vec);

    assert!(room_edge_terrain_res.is_ok());

    let room_edge_terrain = room_edge_terrain_res.unwrap();

    // Iterate over all edge positions and verify that they match in both terrain
    // objects
    for x in 0..ROOM_SIZE {
        for y in 0..ROOM_SIZE {
            let xy = screeps::RoomXY::checked_new(x, y).unwrap();
            let ret = room_edge_terrain.get_xy(library_xy(xy));
            if xy.is_room_edge() {
                let expected_terrain = match (x, y) {
                    (0, 0) | (0, 49) | (49, 0) | (49, 49) => Some(Terrain::Wall), // Corners are always Walls
                    _ => {
                        let tile = library_terrain(terrain.get_xy(xy));
                        if tile == Terrain::Swamp {
                            Some(Terrain::Plain)
                        } else {
                            Some(tile)
                        }
                    },
                };

                assert_eq!(expected_terrain, ret, "non-matching terrain; xy: {xy}");
            } else {
                assert!(ret.is_none(), "non-edge tiles should return none; xy: {xy}");
            }
        }
    }
}

#[test]
pub fn edge_codec_is_exact_for_a_plain_top_and_walls_elsewhere() {
    let top = [Terrain::Plain; 50];
    let walls = [Terrain::Wall; 50];
    let edges = RoomEdgeTerrain::new_from_terrain_slices(&top, &walls, &walls, &walls).unwrap();
    assert_eq!(edges.get_xy(RoomXY::checked_new(0, 0).unwrap()), Some(Terrain::Wall));
    assert_eq!(edges.get_xy(RoomXY::checked_new(49, 0).unwrap()), Some(Terrain::Wall));
    for x in 1..=48u8 {
        assert_eq!(edges.get_xy(RoomXY::checked_new(x, 0).unwrap()), Some(Terrain::Plain));
        assert_eq!(edges.get_xy(RoomXY::checked_new(x, 49).unwrap()), Some(Terrain::Wall));
    }
    for y in 1..=48u8 {
        assert_eq!(edges.get_xy(RoomXY::checked_new(0, y).unwrap()), Some(Terrain::Wall));
        assert_eq!(edges.get_xy(RoomXY::checked_new(49, y).unwrap()), Some(Terrain::Wall));
        assert_eq!(edges.get_xy(RoomXY::checked_new(1, y).unwrap()), None);
    }
    let mut expected = [0xffu8; 24];
    for byte in 0..6 {
        expected[byte] = 0;
    }
    assert_eq!(edges.get_raw_bytes(), expected);
}

#[test]
pub fn edge_of_length_49_is_reported_for_the_top_edge() {
    let short = [Terrain::Plain; 49];
    let full = [Terrain::Plain; 50];
    let made = RoomEdgeTerrain::new_from_terrain_slices(&short, &full, &full, &full);
    assert_eq!(made.err(), Some(RoomEdgeTerrainParseError::TopEdgeNotLength50));
}

#[test]
pub fn each_edge_has_its_own_length_error() {
    let short = [Terrain::Plain; 49];
    let long = [Terrain::Plain; 51];
    let full = [Terrain::Plain; 50];
    assert_eq!(
        RoomEdgeTerrain::new_from_terrain_slices(&full, &short, &full, &full).err(),
        Some(RoomEdgeTerrainParseError::RightEdgeNotLength50)
    );
    assert_eq!(
        RoomEdgeTerrain::new_from_terrain_slices(&full, &full, &long, &full).err(),
        Some(RoomEdgeTerrainParseError::BottomEdgeNotLength50)
    );
    assert_eq!(
        RoomEdgeTerrain::new_from_terrain_slices(&full, &full, &full, &[]).err(),
        Some(RoomEdgeTerrainParseError::LeftEdgeNotLength50)
    );
    assert_eq!(
        RoomEdgeTerrain::new_from_terrain_slices(&long, &short, &short, &short).err(),
        Some(RoomEdgeTerrainParseError::TopEdgeNotLength50)
    );
    assert_eq!(
        RoomEdgeTerrain::new_from_terrain_slices(&full, &full, &short, &long).err(),
        Some(RoomEdgeTerrainParseError::BottomEdgeNotLength50)
    );
}

#[test]
pub fn edge_bytes_hold_one_bit_for_each_tile_from_the_highest() {
    let mut top = [Terrain::Plain; 50];
    top[1] = Terrain::Wall;
    top[8] = Terrain::Wall;
    top[9] = Terrain::Wall;
    top[48] = Terrain::Wall;
    let mut left = [Terrain::Plain; 50];
    left[2] = Terrain::Wall;
    let plain = [Terrain::Plain; 50];
    let edges = RoomEdgeTerrain::new_from_terrain_slices(&top, &plain, &plain, &left).unwrap();
    let bytes = edges.get_raw_bytes();
    assert_eq!(bytes[0], 0b1000_0001);
    assert_eq!(bytes[1], 0b1000_0000);
    assert_eq!(bytes[5], 0b0000_0001);
    assert_eq!(bytes[18], 0b0100_0000);
    assert_eq!(edges.get_top_edge_bytes_slice(), [0b1000_0001, 0b1000_0000, 0, 0, 0, 1]);
    assert_eq!(edges.get_right_edge_bytes_slice(), [0; 6]);
    assert_eq!(edges.get_bottom_edge_bytes_slice(), [0; 6]);
    assert_eq!(edges.get_left_edge_bytes_slice(), [0b0100_0000, 0, 0, 0, 0, 0]);
}

#[test]
pub fn edge_ends_are_not_stored_and_read_as_walls() {
    let plain = [Terrain::Plain; 50];
    let edges = RoomEdgeTerrain::new_from_terrain_slices(&plain, &plain, &plain, &plain).unwrap();
    assert_eq!(edges.get_raw_bytes(), [0u8; 24]);
    let top = edges.get_top_edge_terrain();
    assert_eq!(top[0], Terrain::Wall);
    assert_eq!(top[49], Terrain::Wall);
    for position in 1..=48 {
        assert_eq!(top[position], Terrain::Plain);
    }
}

#[test]
pub fn swamps_on_an_edge_become_plains() {
    let swamp = [Terrain::Swamp; 50];
    let edges = RoomEdgeTerrain::new_from_terrain_slices(&swamp, &swamp, &swamp, &swamp).unwrap();
    assert_eq!(edges.get_raw_bytes(), [0u8; 24]);
    assert_eq!(edges.get_xy(RoomXY::checked_new(5, 0).unwrap()), Some(Terrain::Plain));
    assert_eq!(edges.get_xy(RoomXY::checked_new(49, 5).unwrap()), Some(Terrain::Plain));
    assert_eq!(edges.get_xy(RoomXY::checked_new(49, 49).unwrap()), Some(Terrain::Wall));
}

#[test]
pub fn edges_are_stored_in_the_order_top_right_bottom_left() {
    let mut data = [0u8; 24];
    data[0] = 0x80;
    data[6] = 0x40;
    data[12] = 0x20;
    data[18] = 0x10;
    let edges = RoomEdgeTerrain::new_from_raw_bytes(data);
    assert_eq!(edges.get_raw_bytes(), data);
    assert_eq!(edges.get_xy(RoomXY::checked_new(1, 0).unwrap()), Some(Terrain::Wall));
    assert_eq!(edges.get_xy(RoomXY::checked_new(2, 0).unwrap()), Some(Terrain::Plain));
    assert_eq!(edges.get_xy(RoomXY::checked_new(49, 2).unwrap()), Some(Terrain::Wall));
    assert_eq!(edges.get_xy(RoomXY::checked_new(49, 1).unwrap()), Some(Terrain::Plain));
    assert_eq!(edges.get_xy(RoomXY::checked_new(3, 49).unwrap()), Some(Terrain::Wall));
    assert_eq!(edges.get_xy(RoomXY::checked_new(0, 4).unwrap()), Some(Terrain::Wall));
    assert_eq!(edges.get_xy(RoomXY::checked_new(0, 3).unwrap()), Some(Terrain::Plain));
    assert_eq!(edges.get_right_edge_terrain()[2], Terrain::Wall);
    assert_eq!(edges.get_bottom_edge_terrain()[3], Terrain::Wall);
    assert_eq!(edges.get_left_edge_terrain()[4], Terrain::Wall);
}

#[test]
pub fn room_edge_terrain_memory_size_is_24_bytes() {
    let edges = RoomEdgeTerrain::new_from_raw_bytes([0u8; 24]);
    assert_eq!(edges.memory_size(), 24);
}
