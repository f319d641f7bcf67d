use esp_csi_tui_rs::csi_packet::CsiPacket;
use esp_csi_tui_rs::heatmap::{
    capped_root_of, copy_rows, heat_bucket, live_row_of, normalize, Heatmap,
};

#[test]
fn identical_samples_give_an_all_zero_grid_of_the_same_shape() {
    let samples = vec![vec![25u64, 25, 25], vec![25, 25, 25], vec![25, 25, 25], vec![25, 25, 25]];
    assert_eq!(normalize(&samples), vec![vec![0u8; 3]; 4]);
}

#[test]
fn zero_and_hundred_scale_to_zero_and_hundred() {
    assert_eq!(normalize(&vec![vec![0], vec![100]]), vec![vec![0], vec![100]]);
}

#[test]
fn cells_are_scaled_over_the_whole_grid() {
    let samples = vec![vec![10u64, 20, 30], vec![40, 50, 110]];
    assert_eq!(normalize(&samples), vec![vec![0, 10, 20], vec![30, 40, 100]]);
}

#[test]
fn halves_round_upwards() {
    // 1/200 of the range is 0.5 on the scale; 3/200 is 1.5.
    let samples = vec![vec![0u64, 1, 3, 199, 200]];
    assert_eq!(normalize(&samples), vec![vec![0, 1, 2, 100, 100]]);
    // Thirds: 33.33 rounds down, 66.67 rounds up.
    assert_eq!(normalize(&vec![vec![0u64, 1, 2, 3]]), vec![vec![0, 33, 67, 100]]);
}

#[test]
fn no_rows_give_no_rows() {
    let empty: Vec<Vec<u64>> = Vec::new();
    assert_eq!(normalize(&empty), Vec::<Vec<u8>>::new());
}

#[test]
fn ragged_and_empty_rows_keep_their_shape() {
    let samples = vec![vec![], vec![4u64], vec![], vec![8, 6]];
    assert_eq!(normalize(&samples), vec![vec![], vec![0], vec![], vec![100, 50]]);
    assert_eq!(normalize(&vec![vec![], vec![]]), vec![Vec::<u8>::new(), Vec::new()]);
}

#[test]
fn a_single_cell_is_cold() {
    assert_eq!(normalize(&vec![vec![u64::MAX]]), vec![vec![0]]);
}

#[test]
fn the_widest_range_does_not_overflow() {
    let samples = vec![vec![0u64, u64::MAX, u64::MAX / 2, u64::MAX / 2 + 1]];
    assert_eq!(normalize(&samples), vec![vec![0, 100, 50, 50]]);
}

#[test]
fn heatmap_from_samples_holds_the_scaled_grid() {
    let map = Heatmap::from_samples(&vec![vec![1, 5], vec![9, 3]]);
    assert_eq!(map.values, vec![vec![0, 50], vec![100, 25]]);
    assert!(Heatmap::new().values.is_empty());
}

#[test]
fn buckets_are_two_wide_and_stop_at_hundred() {
    assert_eq!(heat_bucket(0), 0);
    assert_eq!(heat_bucket(1), 0);
    assert_eq!(heat_bucket(2), 2);
    assert_eq!(heat_bucket(57), 56);
    assert_eq!(heat_bucket(99), 98);
    assert_eq!(heat_bucket(100), 100);
    assert_eq!(heat_bucket(101), 100);
    assert_eq!(heat_bucket(255), 100);
}

#[test]
fn capped_root_is_the_whole_part_of_the_root() {
    assert_eq!(capped_root_of(0), 0);
    assert_eq!(capped_root_of(1), 1);
    assert_eq!(capped_root_of(3), 1);
    assert_eq!(capped_root_of(4), 2);
    assert_eq!(capped_root_of(24), 4);
    assert_eq!(capped_root_of(25), 5);
    assert_eq!(capped_root_of(3481), 59);
    assert_eq!(capped_root_of(9999), 99);
    assert_eq!(capped_root_of(10_000), 100);
    assert_eq!(capped_root_of(10_001), 100);
    assert_eq!(capped_root_of(u64::MAX), 100);
}

#[test]
fn live_row_holds_the_capped_amplitudes() {
    let packet = CsiPacket {
        esp_timestamp: 0,
        rssi: 0,
        csi_values: vec![3, 4, 0, 0, 59, 0, -60, 80, 1000, 1000, 1, 1, 7],
    };
    assert_eq!(live_row_of(&packet), vec![5, 0, 59, 100, 100, 1]);
}

#[test]
fn live_row_of_a_full_frame_has_a_cell_for_each_subcarrier() {
    let values: Vec<i32> = (0..128).map(|k| if k % 2 == 0 { k / 2 } else { 0 }).collect();
    let row = live_row_of(&CsiPacket { esp_timestamp: 0, rssi: 0, csi_values: values });
    let expected: Vec<u8> = (0..64).collect();
    assert_eq!(row, expected);
}

#[test]
fn copy_rows_copies_row_for_row() {
    let rows = vec![vec![1u8, 2], vec![], vec![3]];
    assert_eq!(copy_rows(&rows), rows);
}
