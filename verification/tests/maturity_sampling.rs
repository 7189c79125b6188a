use spx_vix_calibration::sampling::{simulation_steps, spx_sample, vix_sample, SpxSample, VixSample};
use spx_vix_calibration::black_scholes::OptionType;

#[test]
fn spx_sample_at_start_has_zero_gradient() {
    assert_eq!(spx_sample(0, 10), SpxSample { state: 0, state_grad: None });
}

#[test]
fn spx_sample_reads_previous_history_slot() {
    assert_eq!(spx_sample(5, 10), SpxSample { state: 5, state_grad: Some(4) });
    assert_eq!(spx_sample(10, 10), SpxSample { state: 10, state_grad: Some(9) });
}

#[test]
fn vix_sample_at_start() {
    assert_eq!(
        vix_sample(0, 3, 10),
        VixSample { state: 0, window_end: 3, state_grad: None, window_end_grad: 2 }
    );
}

#[test]
fn vix_sample_inside_path() {
    assert_eq!(
        vix_sample(4, 3, 10),
        VixSample { state: 4, window_end: 7, state_grad: Some(3), window_end_grad: 6 }
    );
}

#[test]
fn vix_sample_with_empty_window() {
    assert_eq!(
        vix_sample(2, 0, 2),
        VixSample { state: 2, window_end: 2, state_grad: Some(1), window_end_grad: 1 }
    );
}

#[test]
fn simulation_covers_horizon_and_window() {
    assert_eq!(simulation_steps(30, 21), Some(51));
    assert_eq!(simulation_steps(0, 0), Some(0));
    assert_eq!(simulation_steps(usize::MAX, 1), None);
    let n = simulation_steps(14, 16).unwrap();
    for step in 0..=14usize {
        let s = spx_sample(step, n);
        assert!(s.state <= n);
        let v = vix_sample(step, 16, n);
        assert!(v.window_end <= n && v.window_end_grad < n);
    }
}

#[test]
fn option_type_is_copyable() {
    let a = OptionType::Call;
    let b = a;
    assert_eq!(a, b);
    assert_ne!(OptionType::Call, OptionType::Put);
}
