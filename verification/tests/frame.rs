use esp_csi_tui_rs::csi_packet::{squared_amplitude_of, CsiPacket};
use esp_csi_tui_rs::detect_motion::{
    iq_for_subcarrier, squared_amplitude_for_subcarrier, time_in_micros,
};

fn packet(values: Vec<i32>) -> CsiPacket {
    CsiPacket { esp_timestamp: 1_000, rssi: -50, csi_values: values }
}

#[test]
fn iq_pairs_pair_up_consecutive_values() {
    let p = packet(vec![3, 4, -5, 6, 0, -1]);
    assert_eq!(p.get_iq_pairs(), vec![(3, 4), (-5, 6), (0, -1)]);
}

#[test]
fn iq_pairs_leave_out_a_value_without_partner() {
    assert_eq!(packet(vec![1, 2, 3]).get_iq_pairs(), vec![(1, 2)]);
    assert_eq!(packet(vec![1]).get_iq_pairs(), vec![]);
    assert_eq!(packet(vec![]).get_iq_pairs(), vec![]);
}

#[test]
fn squared_amplitude_of_three_four_is_twenty_five() {
    assert_eq!(packet(vec![3, 4]).get_squared_amplitudes(), vec![25]);
    // The amplitude itself is the root of it.
    assert_eq!((25f64).sqrt(), 5.0);
}

#[test]
fn squared_amplitudes_are_exact_at_the_limits() {
    let p = packet(vec![i32::MIN, i32::MIN, i32::MAX, -1, 0, 0]);
    assert_eq!(
        p.get_squared_amplitudes(),
        vec![1u64 << 63, 4_611_686_014_132_420_609 + 1, 0],
    );
    assert_eq!(squared_amplitude_of(-7, 24), 625);
}

#[test]
fn derived_values_do_not_change_on_repetition() {
    let p = packet(vec![3, 4, 6, 8]);
    assert_eq!(p.get_squared_amplitudes(), p.get_squared_amplitudes());
    assert_eq!(p.get_iq_pairs(), p.get_iq_pairs());
    assert_eq!(p.csi_values, vec![3, 4, 6, 8]);
}

#[test]
fn clone_keeps_every_field() {
    let p = packet(vec![9, 8, 7, 6]);
    let q = p.clone();
    assert_eq!(q.esp_timestamp, 1_000);
    assert_eq!(q.rssi, -50);
    assert_eq!(q.csi_values, vec![9, 8, 7, 6]);
}

#[test]
fn subcarrier_is_found_by_its_index() {
    let p = packet(vec![3, 4, -5, 12, 8]);
    assert_eq!(iq_for_subcarrier(&p, 0), Some((3, 4)));
    assert_eq!(iq_for_subcarrier(&p, 1), Some((-5, 12)));
    assert_eq!(iq_for_subcarrier(&p, 2), None);
    assert_eq!(iq_for_subcarrier(&p, usize::MAX), None);
    assert_eq!(iq_for_subcarrier(&packet(vec![]), 0), None);
    assert_eq!(iq_for_subcarrier(&packet(vec![1]), 0), None);
    assert_eq!(squared_amplitude_for_subcarrier(&p, 1), Some(169));
    assert_eq!(squared_amplitude_for_subcarrier(&p, 2), None);
}

#[test]
fn time_since_first_frame_wraps_like_the_clock() {
    let p = packet(vec![]);
    assert_eq!(time_in_micros(400, &p), 600);
    assert_eq!(time_in_micros(1_000, &p), 0);
    assert_eq!(time_in_micros(1_001, &p), u64::MAX);
}

#[test]
fn amplitude_and_phase_follow_from_the_pairs() {
    let amplitudes: Vec<f32> = packet(vec![3, 4])
        .get_iq_pairs()
        .iter()
        .map(|(i, q)| ((*i as f32).powi(2) + (*q as f32).powi(2)).sqrt())
        .collect();
    assert_eq!(amplitudes, vec![5.0]);
    let phases: Vec<f32> = packet(vec![0, 1])
        .get_iq_pairs()
        .iter()
        .map(|(i, q)| (*q as f32).atan2(*i as f32))
        .collect();
    assert_eq!(phases.len(), 1);
    assert!((phases[0] - std::f32::consts::FRAC_PI_2).abs() < 1e-6);
}
