use screeps_map_processing::compressed_terrain::compressed_room_edge_terrain::RoomEdgeTerrain;
use screeps_map_processing::terrain::Terrain;

#[test]
pub fn room_edge_terrain_get_edge_terrain_from_bytes_copies_data_correctly() {
    let num_permutations_tested = 1_000_000_usize;
    let mut state: u64 = 0x9e37_79b9_7f4a_7c15;

    for _ in 0..num_permutations_tested {
        // Generate the permutation array
        let mut bytes_arr = [0u8; 6];
        state ^= state << 13;
        state ^= state >> 7;
        state ^= state << 17;
        for (i, byte) in bytes_arr.iter_mut().enumerate() {
            *byte = (state >> (8 * i)) as u8;
        }

        // Construct the associated terrain from the permutation array
        let mut original_terrain: [Terrain; 48] = [Terrain::Plain; 48];
        (&bytes_arr).iter().enumerate().for_each(|(i, byte)| {
            for b_i in 0..8 {
                let bit = (byte >> (7 - b_i)) & 1;
                if bit > 0 {
                    let final_index = i * 8 + b_i;
                    original_terrain[final_index] = Terrain::Wall;
                }
            }
        });

        // Run the byte through the copy terrain function
        let output = RoomEdgeTerrain::get_edge_terrain_from_bytes(&bytes_arr);

        // Verify that the output matches the original bytes
        assert_eq!(output[0], Terrain::Wall);
        assert_eq!(output[49], Terrain::Wall);
        assert_eq!(output[1..=48], original_terrain);
    }
}
