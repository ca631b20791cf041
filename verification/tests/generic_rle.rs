use rle::MergableSpan;
use screeps_map_processing::run_length_encoding::generic_rle::BinarySearchRLE;
use screeps_map_processing::run_length_encoding::generic_rle::IndexedRLE;

#[test]
pub fn indexed_rle_can_append_accepts_valid_runs() {
    let max_start: usize = 1000;
    for start in 0..=max_start {
        for after in (start + 1)..=(max_start + 1) {
            let lower_rle: IndexedRLE<bool> = IndexedRLE::new(true, start);
            let higher_matching_rle: IndexedRLE<bool> = IndexedRLE::new(true, after);
            let higher_nonmatching_rle: IndexedRLE<bool> = IndexedRLE::new(false, after);

            assert!(lower_rle.can_append(&lower_rle), "Valid self append failed: {start} = {after}");
            assert!(lower_rle.can_append(&higher_matching_rle), "Valid append failed: {start} < {after}");
            assert!(!lower_rle.can_append(&higher_nonmatching_rle), "Non-matching token append succeeded");
            assert!(!higher_matching_rle.can_append(&lower_rle), "Out-of-order matching token append succeeded: {start} < {after}");
            assert!(!higher_nonmatching_rle.can_append(&lower_rle), "Out-of-order non-matching token append succeeded");
        }
    }
}

#[test]
pub fn binary_search_rle_append_run_merges_properly() {
    let mut rle_data = BinarySearchRLE::<bool>::new();

    let start = 10;
    let after = 20;

    let lower_rle: IndexedRLE<bool> = IndexedRLE::new(true, start);
    let higher_matching_rle: IndexedRLE<bool> = IndexedRLE::new(true, after);
    let higher_nonmatching_rle: IndexedRLE<bool> = IndexedRLE::new(false, after);

    assert_eq!(rle_data.num_runs(), 0); // There should be no runs before we've started anything

    // Add the initial run
    rle_data.append_run(lower_rle);
    assert_eq!(rle_data.num_runs(), 1);

    // Test that appending a matching token run doesn't increase the length of the internal
    // data vector
    rle_data.append_run(higher_matching_rle);
    assert_eq!(rle_data.num_runs(), 1); // We appended a matching run, so there should not be an increase in the total number of runs

    // Test that appending a non-matching token run increases the length of the internal data
    // vector
    rle_data.append_run(higher_nonmatching_rle);
    assert_eq!(rle_data.num_runs(), 2); // We appended a non-matching run, so there should be an increase in the total number of runs
}

#[test]
pub fn binary_search_rle_append_token_merges_properly() {
    let mut rle_data = BinarySearchRLE::<bool>::new();

    let start = 10;
    let after = 20;

    let matching_token = true;
    let nonmatching_token = false;

    let lower_rle: IndexedRLE<bool> = IndexedRLE::new(true, start);

    assert_eq!(rle_data.num_runs(), 0); // There should be no runs before we've started anything

    // Add the initial run
    rle_data.append_run(lower_rle);
    assert_eq!(rle_data.num_runs(), 1);

    // Test that appending a matching token doesn't increase the length of the internal
    // data vector
    rle_data.append_token(matching_token, after);
    assert_eq!(rle_data.num_runs(), 1); // We appended a matching token, so there should not be an increase in the total number of runs

    // Test that appending a non-matching token increases the length of the internal data
    // vector
    rle_data.append_token(nonmatching_token, after);
    assert_eq!(rle_data.num_runs(), 2); // We appended a non-matching token, so there should be an increase in the total number of runs
}

#[test]
pub fn binary_search_rle_find_token_at_index_returns_none_when_empty() {
    let rle_data = BinarySearchRLE::<bool>::new();
    assert_eq!(rle_data.find_token_at_index(0), None);
}

#[test]
pub fn binary_search_rle_find_token_at_index_returns_none_for_index_before_first_run() {
    let mut rle_data = BinarySearchRLE::<bool>::new();
    let rle: IndexedRLE<bool> = IndexedRLE::new(true, 10);
    rle_data.append_run(rle);
    assert_eq!(rle_data.num_runs(), 1);
    assert_eq!(rle_data.find_token_at_index(5), None);
}

#[test]
pub fn binary_search_rle_find_token_at_index_works() {
    let mut rle_data = BinarySearchRLE::<bool>::new();

    let (first_start, first_len) = (10, 4);
    let (second_start, second_len) = ((first_start + first_len), 13);
    let (third_start, third_len) = ((second_start + second_len), 2);
    let (fourth_start, fourth_len) = ((third_start + third_len), 1);
    let (fifth_start, fifth_len) = ((fourth_start + fourth_len), 21);

    let first_end_inclusive = second_start - 1;
    let second_end_inclusive = third_start - 1;
    let third_end_inclusive = fourth_start - 1;
    let fourth_end_inclusive = fifth_start - 1;
    let fifth_end_inclusive = fifth_start + fifth_len;

    let first_rle: IndexedRLE<bool> = IndexedRLE::new(true, first_start);
    let second_rle: IndexedRLE<bool> = IndexedRLE::new(false, second_start);
    let third_rle: IndexedRLE<bool> = IndexedRLE::new(true, third_start);
    let fourth_rle: IndexedRLE<bool> = IndexedRLE::new(false, fourth_start);
    let fifth_rle: IndexedRLE<bool> = IndexedRLE::new(true, fifth_start);

    let true_token_ranges: Vec<(usize, usize)> = vec!((first_start, second_start), (third_start, fourth_start), (fifth_start, fifth_end_inclusive+1));
    let false_token_ranges: Vec<(usize, usize)> = vec!((second_start, third_start), (fourth_start, fifth_start));

    println!("First range inclusive: {first_start} - {first_end_inclusive}");
    println!("Second range inclusive: {second_start} - {second_end_inclusive}");
    println!("Third range inclusive: {third_start} - {third_end_inclusive}");
    println!("Fourth range inclusive: {fourth_start} - {fourth_end_inclusive}");
    println!("Fifth range inclusive: {fifth_start} - {fifth_end_inclusive}");

    assert_eq!(rle_data.num_runs(), 0); // There should be no runs before we've started anything

    // Add the runs
    rle_data.append_run(first_rle);
    rle_data.append_run(second_rle);
    rle_data.append_run(third_rle);
    rle_data.append_run(fourth_rle);
    rle_data.append_run(fifth_rle);
    assert_eq!(rle_data.num_runs(), 5);

    // Validate that the known token ranges match
    for (range_start, range_end) in true_token_ranges {
        for token_index in range_start..range_end {
            assert_eq!(rle_data.find_token_at_index(token_index), Some(true), "Token index {token_index} expected to be true");
        }
    }

    for (range_start, range_end) in false_token_ranges {
        for token_index in range_start..range_end {
            assert_eq!(rle_data.find_token_at_index(token_index), Some(false), "Token index {token_index} expected to be false");
        }
    }
}

#[test]
pub fn binary_search_rle_finds_the_latest_run_at_or_before_each_index() {
    let mut rle_data = BinarySearchRLE::<bool>::new();
    let starts: [usize; 6] = [10, 14, 27, 29, 30, 51];
    let mut token = true;
    for start in starts {
        assert!(rle_data.append_token(token, start));
        token = !token;
    }
    assert_eq!(rle_data.num_runs(), 6);
    for index in 0..=60usize {
        let expected = if index < 10 {
            None
        } else if index < 14 {
            Some(true)
        } else if index < 27 {
            Some(false)
        } else if index < 29 {
            Some(true)
        } else if index < 30 {
            Some(false)
        } else if index < 51 {
            Some(true)
        } else {
            Some(false)
        };
        assert_eq!(rle_data.find_token_at_index(index), expected, "index {index}");
    }
}

#[test]
pub fn binary_search_rle_append_says_whether_a_run_was_added() {
    let mut rle_data = BinarySearchRLE::<u8, u16>::new();
    assert!(rle_data.append_token(7, 0));
    assert!(!rle_data.append_token(7, 1));
    assert!(!rle_data.append_token(7, 1));
    assert!(rle_data.append_token(8, 2));
    assert!(!rle_data.append_run(IndexedRLE::new(8, 300)));
    assert!(rle_data.append_run(IndexedRLE::new(7, 301)));
    assert_eq!(rle_data.num_runs(), 3);
    assert_eq!(rle_data.find_token_at_index(0), Some(7));
    assert_eq!(rle_data.find_token_at_index(1), Some(7));
    assert_eq!(rle_data.find_token_at_index(2), Some(8));
    assert_eq!(rle_data.find_token_at_index(300), Some(8));
    assert_eq!(rle_data.find_token_at_index(301), Some(7));
    assert_eq!(rle_data.find_token_at_index(u16::MAX), Some(7));
}

#[test]
pub fn indexed_rle_append_changes_nothing() {
    let mut run: IndexedRLE<bool> = IndexedRLE::new(true, 10);
    run.append(IndexedRLE::new(true, 20));
    assert_eq!(run.token, true);
    assert_eq!(run.start, 10);
}

#[test]
pub fn indexed_rle_prepend_takes_the_earlier_start() {
    let mut run: IndexedRLE<bool> = IndexedRLE::new(true, 10);
    run.prepend(IndexedRLE::new(true, 4));
    assert_eq!(run.start, 4);
    assert_eq!(run.token, true);
    run.prepend(IndexedRLE::new(true, 9));
    assert_eq!(run.start, 4);
    run.prepend(IndexedRLE::new(true, 4));
    assert_eq!(run.start, 4);
}

#[test]
pub fn indexed_rle_memory_size_adds_token_and_start() {
    let run: IndexedRLE<bool> = IndexedRLE::new(true, 10);
    assert_eq!(run.memory_size(), 1 + std::mem::size_of::<usize>());
    let small: IndexedRLE<u8, u16> = IndexedRLE::new(1, 10);
    assert_eq!(small.memory_size(), 3);
}

#[test]
pub fn binary_search_rle_memory_size_counts_runs_and_vector() {
    let mut rle_data = BinarySearchRLE::<bool>::new();
    let header = std::mem::size_of::<Vec<IndexedRLE<bool>>>();
    assert_eq!(rle_data.memory_size(), header);
    rle_data.append_token(true, 3);
    rle_data.append_token(false, 5);
    assert_eq!(rle_data.memory_size(), 2 * std::mem::size_of::<IndexedRLE<bool>>() + header);
}
