use peq_optim::filters::{
    band_response_at, chain_response, chain_response_at, decode, encode, FilterParameter,
    FilterType, PeqModel,
};

fn peak(freq: i64, q: i64, gain: i64) -> FilterParameter {
    FilterParameter { filter_type: FilterType::Peak, freq, q, gain }
}

#[test]
fn decode_all_peaks() {
    let params = vec![5000, 700, 3000, 8000, 1000, -2000];
    let f = decode(&params, PeqModel::Pk, &vec![]);
    assert_eq!(f, vec![peak(5000, 700, 3000), peak(8000, 1000, -2000)]);
}

#[test]
fn decode_high_pass_peak_low_pass() {
    let params = vec![5000, 700, 3000, 8000, 1000, -2000, 13000, 700, 1500];
    let f = decode(&params, PeqModel::HpPkLp, &vec![]);
    assert_eq!(f[0], FilterParameter { filter_type: FilterType::HighPass, freq: 5000, q: 700, gain: 0 });
    assert_eq!(f[1], peak(8000, 1000, -2000));
    assert_eq!(f[2], FilterParameter { filter_type: FilterType::LowPass, freq: 13000, q: 700, gain: 0 });
}

#[test]
fn decode_high_pass_then_peaks() {
    let params = vec![5000, 700, 3000, 8000, 1000, -2000];
    let f = decode(&params, PeqModel::HpPk, &vec![]);
    assert_eq!(f[0].filter_type, FilterType::HighPass);
    assert_eq!(f[0].gain, 0);
    assert_eq!(f[1], peak(8000, 1000, -2000));
}

#[test]
fn decode_free_topology_uses_listed_kinds() {
    let params = vec![5000, 700, 3000, 8000, 1000, -2000];
    let f = decode(&params, PeqModel::Free, &vec![FilterType::LowPass, FilterType::Peak]);
    assert_eq!(f[0], FilterParameter { filter_type: FilterType::LowPass, freq: 5000, q: 700, gain: 0 });
    assert_eq!(f[1], peak(8000, 1000, -2000));
}

#[test]
fn encode_lists_slots_in_order() {
    let f = vec![peak(5000, 700, 3000), peak(8000, 1000, -2000)];
    assert_eq!(encode(&f), vec![5000, 700, 3000, 8000, 1000, -2000]);
}

#[test]
fn decode_of_encode_round_trips() {
    let f = vec![
        FilterParameter { filter_type: FilterType::HighPass, freq: 5000, q: 700, gain: 0 },
        peak(9000, 2500, -4500),
        peak(11000, 800, 1200),
        FilterParameter { filter_type: FilterType::LowPass, freq: 14000, q: 700, gain: 0 },
    ];
    assert_eq!(decode(&encode(&f), PeqModel::HpPkLp, &vec![]), f);
}

#[test]
fn peak_response_values() {
    let p = peak(9000, 1000, 6000);
    assert_eq!(band_response_at(&p, 9000), 6000);
    assert_eq!(band_response_at(&p, 9500), 3000);
    assert_eq!(band_response_at(&p, 8500), 3000);
    assert_eq!(band_response_at(&p, 10000), 1200);
    let n = peak(9000, 1000, -6000);
    assert_eq!(band_response_at(&n, 9500), -3000);
}

#[test]
fn pass_band_skirts() {
    let hp = FilterParameter { filter_type: FilterType::HighPass, freq: 5000, q: 700, gain: 0 };
    assert_eq!(band_response_at(&hp, 4000), -12000);
    assert_eq!(band_response_at(&hp, 5000), 0);
    assert_eq!(band_response_at(&hp, 6000), 0);
    let lp = FilterParameter { filter_type: FilterType::LowPass, freq: 5000, q: 700, gain: 0 };
    assert_eq!(band_response_at(&lp, 5500), -6000);
    assert_eq!(band_response_at(&lp, 4000), 0);
}

#[test]
fn chain_sums_bands() {
    let f = vec![peak(9000, 1000, 6000), peak(9500, 1000, -1000)];
    assert_eq!(chain_response_at(&f, 9500), 3000 - 1000);
    assert_eq!(chain_response(&f, &vec![9000, 9500]), vec![6000 - 500, 2000]);
    assert_eq!(chain_response_at(&vec![], 9500), 0);
}

#[test]
fn sort_orders_by_frequency_and_keeps_ties() {
    let a = peak(9000, 1000, 100);
    let b = peak(5000, 1000, 200);
    let c = peak(9000, 2000, 300);
    let d = peak(7000, 1000, 400);
    let sorted = peq_optim::filters::sort_by_frequency(&vec![a, b, c, d]);
    assert_eq!(sorted, vec![b, d, a, c]);
    assert_eq!(peq_optim::filters::sort_by_frequency(&vec![]), vec![]);
}

#[test]
fn raw_params_become_sorted_bands() {
    let raw = vec![12000, 700, 0, 6000, 1500, -3000, 9000, 900, 2000];
    let f = peq_optim::filters::convert_raw_params_to_filters(&raw, PeqModel::HpPkLp, &vec![]);
    assert_eq!(f[0], peak(6000, 1500, -3000));
    assert_eq!(f[1], FilterParameter { filter_type: FilterType::LowPass, freq: 9000, q: 900, gain: 0 });
    assert_eq!(f[2], FilterParameter { filter_type: FilterType::HighPass, freq: 12000, q: 700, gain: 0 });
}
