use esp_csi_tui_rs::read_data::{
    heatmap_from_table, load_csv_amplitude_series, load_csv_heatmap, subcarriers_of_table,
    LoadError, SeriesPoint,
};

fn point(elapsed_micros: u64, i: i32, q: i32) -> SeriesPoint {
    SeriesPoint { elapsed_micros, i, q }
}

fn strings(fields: &[&str]) -> Vec<String> {
    fields.iter().map(|f| f.to_string()).collect()
}

#[test]
fn series_takes_the_columns_of_its_subcarrier() {
    let table = "device_timestamp,signal_strength,i0,q0,i1,q1\n\
                 1000,-50,3,4,5,12\n\
                 3500,-51,6,8,-7,24\n";
    assert_eq!(
        load_csv_amplitude_series(table, 0).unwrap(),
        vec![point(0, 3, 4), point(2500, 6, 8)],
    );
    assert_eq!(
        load_csv_amplitude_series(table, 1).unwrap(),
        vec![point(0, 5, 12), point(2500, -7, 24)],
    );
    assert_eq!(load_csv_amplitude_series(table, 2).unwrap(), vec![]);
    assert_eq!(load_csv_amplitude_series(table, usize::MAX).unwrap(), vec![]);
}

#[test]
fn series_of_an_empty_table_fails() {
    match load_csv_amplitude_series("", 0) {
        Err(LoadError::EmptyFile) => {},
        other => panic!("unexpected {:?}", other),
    }
    assert_eq!(LoadError::EmptyFile.message(), "CSV file is empty");
    assert_eq!(LoadError::Csv(String::from("bad")).message(), "bad");
}

#[test]
fn series_of_a_header_alone_is_empty() {
    assert_eq!(load_csv_amplitude_series("h", 0).unwrap(), vec![]);
    assert_eq!(load_csv_amplitude_series("\n", 0).unwrap(), vec![]);
    assert_eq!(load_csv_amplitude_series("a,b,c,d\n", 0).unwrap(), vec![]);
}

#[test]
fn first_line_is_passed_over_whatever_it_holds() {
    let table = "1,2,3,4\n10,0,1,1\n";
    assert_eq!(load_csv_amplitude_series(table, 0).unwrap(), vec![point(0, 1, 1)]);
}

#[test]
fn rows_that_report_nothing_are_left_out() {
    let table = "h\n\
                 \n\
                 100,-1,1,2\n\
                 \r\n\
                 200,-1\n\
                 x,-1,3,4\n\
                 300,-1,a,4\n\
                 400,-1,5,\n\
                 -5,-1,5,6\n\
                 500,junk, 7 ,\t8\r\n\
                 600,-1,9,10";
    assert_eq!(
        load_csv_amplitude_series(table, 0).unwrap(),
        vec![point(0, 1, 2), point(400, 7, 8), point(500, 9, 10)],
    );
}

#[test]
fn time_is_counted_from_the_first_row_that_reports() {
    let table = "h\nbad\n5000,0,1,1\n5001,0,2,2\n4999,0,3,3\n";
    assert_eq!(
        load_csv_amplitude_series(table, 0).unwrap(),
        vec![point(0, 1, 1), point(1, 2, 2), point(u64::MAX, 3, 3)],
    );
}

#[test]
fn table_subcarriers_follow_the_header() {
    assert_eq!(subcarriers_of_table(0), 0);
    assert_eq!(subcarriers_of_table(3), 0);
    assert_eq!(subcarriers_of_table(4), 1);
    assert_eq!(subcarriers_of_table(5), 0);
    assert_eq!(subcarriers_of_table(6), 2);
    assert_eq!(subcarriers_of_table(7), 1);
    assert_eq!(subcarriers_of_table(130), 64);
    assert_eq!(subcarriers_of_table(usize::MAX), (usize::MAX - 2) / 2 - 1);
}

#[test]
fn heatmap_of_identical_pairs_is_all_zero() {
    let table = b"device_timestamp,signal_strength,i0,q0,i1,q1\n\
                  1,-5,3,4,3,4\n\
                  2,-5,3,4,3,4\n\
                  3,-5,3,4,3,4\n";
    assert_eq!(load_csv_heatmap(table).unwrap(), vec![vec![0, 0]; 3]);
}

#[test]
fn heatmap_of_zero_and_hundred_is_zero_and_hundred() {
    let table = b"device_timestamp,signal_strength,i0,q0\n1,-5,0,0\n2,-5,6,8\n";
    assert_eq!(load_csv_heatmap(table).unwrap(), vec![vec![0], vec![100]]);
}

#[test]
fn heatmap_scales_squared_amplitudes_over_the_table() {
    let table = b"t,s,i0,q0,i1,q1\n\
                  1,0, 0,0, 1,0\n\
                  2,0, 0,-2, 3,4\n\
                  3,0, 10,0, x,\n";
    // Squared amplitudes: 0 1 / 4 25 / 100 0.
    assert_eq!(load_csv_heatmap(table).unwrap(), vec![vec![0, 1], vec![4, 25], vec![100, 0]]);
}

#[test]
fn heatmap_leaves_out_short_rows() {
    let table = b"t,s,i0,q0,i1,q1\n1,0,0,0,1,0\n2,0,9,9\n3,0,0,0,0,2,extra\n";
    assert_eq!(load_csv_heatmap(table).unwrap(), vec![vec![0, 25], vec![0, 100]]);
}

#[test]
fn heatmap_of_a_narrow_or_empty_table_is_empty() {
    assert_eq!(load_csv_heatmap(b"").unwrap(), Vec::<Vec<u8>>::new());
    assert_eq!(load_csv_heatmap(b"t,s,i0\n1,2,3\n").unwrap(), Vec::<Vec<u8>>::new());
    assert_eq!(load_csv_heatmap(b"t,s,i0,q0,i1\n1,2,3,4,5\n").unwrap(), Vec::<Vec<u8>>::new());
    assert_eq!(load_csv_heatmap(b"t,s,i0,q0\n").unwrap(), Vec::<Vec<u8>>::new());
}

#[test]
fn heatmap_with_a_stray_column_drops_the_last_pair_too() {
    let table = b"t,s,i0,q0,i1,q1,stray\n1,0,0,0,9,9,9\n2,0,0,5,9,9,9\n";
    assert_eq!(load_csv_heatmap(table).unwrap(), vec![vec![0], vec![100]]);
}

#[test]
fn heatmap_reads_quoted_fields_as_the_csv_reader_does() {
    let table = b"t,s,i0,q0\n1,0,\"3\",\"4\"\n2,0,\"0\",\" 0 \"\n";
    assert_eq!(load_csv_heatmap(table).unwrap(), vec![vec![100], vec![0]]);
}

#[test]
fn heatmap_of_bytes_that_are_no_text_fails() {
    match load_csv_heatmap(b"t,s,i0,q0\n1,0,\xff,4\n") {
        Err(LoadError::Csv(text)) => assert!(text.contains("CSV parse error"), "{text}"),
        other => panic!("unexpected {:?}", other),
    }
    match load_csv_heatmap(b"t,\xff,i0,q0\n1,0,3,4\n") {
        Err(LoadError::Csv(_)) => {},
        other => panic!("unexpected {:?}", other),
    }
}

#[test]
fn heatmap_from_table_takes_header_and_records() {
    let header = strings(&["t", "s", "i0", "q0"]);
    let records = vec![
        strings(&["1", "0", "3", "4"]),
        strings(&["2", "0"]),
        strings(&["3", "0", " -5 ", "+12"]),
        strings(&["4", "0", "1.5", "7"]),
    ];
    // Squared amplitudes 25, 169, 49; the short record is left out.
    assert_eq!(heatmap_from_table(&header, &records), vec![vec![0], vec![100], vec![17]]);
    assert_eq!(heatmap_from_table(&strings(&["t", "s"]), &records), Vec::<Vec<u8>>::new());
}
