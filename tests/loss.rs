use peq_optim::filters::{FilterParameter, FilterType, PeqModel};
use peq_optim::loss::{mean_square_deviation, spacing_penalty, Objective};

fn peak(freq: i64, gain: i64) -> FilterParameter {
    FilterParameter { filter_type: FilterType::Peak, freq, q: 1000, gain }
}

fn objective(min_spacing: i64, weight: u64) -> Objective {
    Objective {
        freq: vec![8000, 9000, 10000],
        input: vec![0, -6000, 0],
        target: vec![0, 0, 0],
        model: PeqModel::Pk,
        free_types: vec![],
        num_filters: 2,
        min_freq: 1,
        max_freq: 20_000,
        min_spacing,
        spacing_weight: weight,
        smooth_half_width: None,
    }
}

#[test]
fn coincident_bands_pay_the_full_penalty() {
    let f = vec![peak(5000, 0), peak(5000, 0)];
    assert_eq!(spacing_penalty(&f, 500, 20), 20 * 500 * 500);
}

#[test]
fn close_bands_pay_the_shortfall() {
    let f = vec![peak(5000, 0), peak(5300, 0)];
    assert_eq!(spacing_penalty(&f, 500, 20), 20 * 200 * 200);
}

#[test]
fn spaced_bands_pay_nothing() {
    let f = vec![peak(5000, 0), peak(5600, 0), peak(6100, 0)];
    assert_eq!(spacing_penalty(&f, 500, 20), 0);
}

#[test]
fn penalty_sums_over_pairs() {
    let f = vec![peak(5000, 0), peak(5000, 0), peak(5000, 0)];
    assert_eq!(spacing_penalty(&f, 100, 1), 3 * 100 * 100);
}

#[test]
fn mean_square_within_range() {
    let freq = vec![1000, 2000, 3000];
    let levels = vec![1000, -2000, 0];
    let target = vec![0, 0, 0];
    assert_eq!(mean_square_deviation(&freq, &levels, &target, 0, 20_000), 1_666_666);
    assert_eq!(mean_square_deviation(&freq, &levels, &target, 1500, 20_000), 2_000_000);
    assert_eq!(mean_square_deviation(&freq, &levels, &target, 4000, 20_000), 0);
}

#[test]
fn loss_of_a_matching_chain() {
    let obj = objective(0, 0);
    // A 6 dB peak at 9000 fills the dip; the band at 14000 adds almost nothing.
    let x = vec![9000, 1000, 6000, 14000, 1000, 0];
    assert_eq!(obj.base_loss(&x), (1200 * 1200 + 1200 * 1200) / 3);
    assert_eq!(obj.loss(&x), obj.base_loss(&x));
}

#[test]
fn crowded_bands_lose_to_spaced_ones() {
    let obj = objective(500, 20);
    let crowded = vec![9000, 1000, 0, 9000, 1000, 0];
    let spaced = vec![9000, 1000, 0, 9600, 1000, 0];
    assert_eq!(obj.base_loss(&crowded), obj.base_loss(&spaced));
    assert!(obj.loss(&crowded) > obj.loss(&spaced));
    assert_eq!(obj.loss(&crowded) - obj.base_loss(&crowded), 20 * 500 * 500);
}

#[test]
fn smoothing_changes_what_is_compared() {
    let mut obj = objective(0, 0);
    let x = vec![9000, 1000, 0, 14000, 1000, 0];
    assert_eq!(obj.base_loss(&x), 6000 * 6000 / 3);
    obj.smooth_half_width = Some(2000);
    // Every sample then sees the mean of the three levels: -2000.
    assert_eq!(obj.base_loss(&x), 2000 * 2000);
}
