use scres::distance::EuclWithScaledPt;
use scres::event::{Event, EventView, Particle, TypeSetView};
use scres::resampler::{CellRequest, Error, Resampler, ResamplerBuilder, Search};

fn bits(x: f64) -> u64 {
    x.to_bits()
}

fn values(w: &[u64]) -> Vec<f64> {
    w.iter().map(|b| f64::from_bits(*b)).collect()
}

fn momentum(p: [f64; 4]) -> [u64; 4] {
    [bits(p[0]), bits(p[1]), bits(p[2]), bits(p[3])]
}

fn event(weights: &[f64]) -> Event {
    Event::from_view(&EventView {
        id: 0,
        weights: weights.iter().map(|w| bits(*w)).collect(),
        type_sets: vec![TypeSetView {
            pid: 90,
            momenta: vec![momentum([86.04, 18.3, 50.78, -67.0])],
        }],
    })
}

fn resampler() -> Resampler<EuclWithScaledPt> {
    ResamplerBuilder::default().build()
}

#[test]
fn from_view_keeps_weights_and_flattens_type_sets() {
    let view = EventView {
        id: 7,
        weights: vec![bits(1.5), bits(-2.0), bits(0.25)],
        type_sets: vec![
            TypeSetView {
                pid: 90,
                momenta: vec![momentum([1.0, 2.0, 3.0, 4.0]), momentum([5.0, 6.0, 7.0, 8.0])],
            },
            TypeSetView { pid: 22, momenta: vec![] },
            TypeSetView { pid: -11, momenta: vec![momentum([9.0, 0.0, 0.0, 9.0])] },
        ],
    };
    let e = Event::from_view(&view);
    assert_eq!(values(&e.weights), vec![1.5, -2.0, 0.25]);
    assert_eq!(
        e.outgoing,
        vec![
            Particle { pid: 90, momentum: momentum([1.0, 2.0, 3.0, 4.0]) },
            Particle { pid: 90, momentum: momentum([5.0, 6.0, 7.0, 8.0]) },
            Particle { pid: -11, momentum: momentum([9.0, 0.0, 0.0, 9.0]) },
        ]
    );
}

#[test]
fn from_view_of_empty_view_is_empty() {
    let e = Event::from_view(&EventView { id: 0, weights: vec![], type_sets: vec![] });
    assert!(e.weights.is_empty());
    assert!(e.outgoing.is_empty());
}

#[test]
fn builder_defaults_and_setters() {
    let r = resampler();
    assert_eq!(r.neighbour_search(), Search::Tree);
    assert_eq!(f64::from_bits(r.distance().pt_weight), 0.0);
    assert!(r.is_empty());

    let r = ResamplerBuilder::default()
        .distance(EuclWithScaledPt::new(bits(0.5)))
        .neighbour_search(Search::Naive)
        .build();
    assert_eq!(r.neighbour_search(), Search::Naive);
    assert_eq!(f64::from_bits(r.distance().pt_weight), 0.5);
    assert_eq!(r.len(), 0);

    let r = ResamplerBuilder::new(3u8).build();
    assert_eq!(*r.distance(), 3u8);
    assert_eq!(r.neighbour_search(), Search::Tree);
}

#[test]
fn push_then_get_round_trip() {
    let mut r = resampler();
    let pushed: Vec<Vec<f64>> = vec![vec![-1.0], vec![2.0, 3.0], vec![], vec![0.5, -0.5, 4.0]];
    for w in &pushed {
        r.push(event(w));
    }
    assert_eq!(r.len(), 4);
    for (i, w) in pushed.iter().enumerate() {
        assert_eq!(r.get_num_weights(i), Ok(w.len()));
        assert_eq!(values(r.get_weights(i).unwrap()), *w);
    }
    // repeated queries give the same answer
    assert_eq!(values(r.get_weights(1).unwrap()), vec![2.0, 3.0]);
    assert_eq!(values(r.get_weights(1).unwrap()), vec![2.0, 3.0]);
}

#[test]
fn index_out_of_range() {
    let mut r = resampler();
    assert_eq!(r.get_num_weights(0), Err(Error::IndexOutOfRange { index: 0, len: 0 }));
    r.push(event(&[1.0]));
    assert_eq!(r.get_num_weights(1), Err(Error::IndexOutOfRange { index: 1, len: 1 }));
    assert_eq!(r.get_weights(3), Err(Error::IndexOutOfRange { index: 3, len: 1 }));
    assert_eq!(
        r.set_weights(1, &[bits(2.0)]),
        Err(Error::IndexOutOfRange { index: 1, len: 1 })
    );
    assert_eq!(values(r.get_weights(0).unwrap()), vec![1.0]);
}

#[test]
fn set_weights_overwrites_prefix_only() {
    let mut r = resampler();
    r.push(event(&[1.0, 2.0, 3.0]));
    r.push(event(&[4.0]));

    assert_eq!(r.set_weights(0, &[bits(-1.0), bits(-2.0)]), Ok(()));
    assert_eq!(values(r.get_weights(0).unwrap()), vec![-1.0, -2.0, 3.0]);

    assert_eq!(r.set_weights(1, &[bits(7.0), bits(8.0), bits(9.0)]), Ok(()));
    assert_eq!(values(r.get_weights(1).unwrap()), vec![7.0]);
    assert_eq!(r.get_num_weights(1), Ok(1));

    assert_eq!(r.set_weights(0, &[]), Ok(()));
    assert_eq!(values(r.get_weights(0).unwrap()), vec![-1.0, -2.0, 3.0]);
}

#[test]
fn clear_twice_and_index_after_clear() {
    let mut r = resampler();
    r.push(event(&[1.0]));
    r.push(event(&[2.0]));
    r.clear();
    assert!(r.is_empty());
    r.clear();
    assert!(r.is_empty());
    assert_eq!(r.get_num_weights(0), Err(Error::IndexOutOfRange { index: 0, len: 0 }));
    r.push(event(&[5.0, 6.0]));
    assert_eq!(r.get_num_weights(0), Ok(2));
    assert_eq!(values(r.get_weights(0).unwrap()), vec![5.0, 6.0]);
}

#[test]
fn reserve_keeps_events() {
    let mut r = resampler();
    r.reserve(2);
    r.push(event(&[1.0]));
    r.reserve(2);
    r.push(event(&[2.0]));
    r.reserve(10);
    r.reserve(100);
    assert_eq!(r.len(), 2);
    assert_eq!(values(r.get_weights(0).unwrap()), vec![1.0]);
    assert_eq!(values(r.get_weights(1).unwrap()), vec![2.0]);
}

#[test]
fn resample_cell_request_names_backend() {
    for search in [Search::Tree, Search::Naive] {
        let mut r = ResamplerBuilder::default().neighbour_search(search).build();
        r.push(event(&[-1.0]));
        r.push(event(&[1.0]));
        assert_eq!(
            r.resample_cell(1, bits(f64::MAX)),
            Ok(CellRequest { seed: 1, max_cell_size: bits(f64::MAX), neighbour_search: search })
        );
    }
}

#[test]
fn resample_cell_errors() {
    let mut r = resampler();
    assert_eq!(r.resample_cell(0, bits(1.0)), Err(Error::IndexOutOfRange { index: 0, len: 0 }));
    r.push(event(&[-1.0]));
    r.push(event(&[1.0, 2.0]));
    assert_eq!(r.resample_cell(2, bits(1.0)), Err(Error::IndexOutOfRange { index: 2, len: 2 }));

    let mut r = resampler();
    r.push(event(&[]));
    r.push(event(&[1.0]));
    assert_eq!(r.resample_cell(0, bits(1.0)), Err(Error::SeedWithoutWeights));
    assert!(r.resample_cell(1, bits(1.0)).is_ok());
}

#[test]
fn resample_cell_accepts_mixed_weight_counts() {
    let mut r = resampler();
    r.push(event(&[-1.0]));
    r.push(event(&[1.0]));
    r.push(event(&[1.0, 2.0]));
    assert_eq!(
        r.resample_cell(0, bits(f64::MAX)),
        Ok(CellRequest { seed: 0, max_cell_size: bits(f64::MAX), neighbour_search: Search::Tree })
    );
}

#[test]
fn set_resampled_weights_checks_shape() {
    let mut r = resampler();
    r.push(event(&[-1.0, -3.0]));
    r.push(event(&[1.0, 5.0]));
    let particles: Vec<Vec<Particle>> = r.events().iter().map(|e| e.outgoing.clone()).collect();

    assert_eq!(r.set_resampled_weights(&vec![vec![bits(0.0), bits(1.0)]]), Err(Error::ShapeMismatch));
    assert_eq!(
        r.set_resampled_weights(&vec![vec![bits(0.0), bits(1.0)], vec![bits(0.0)]]),
        Err(Error::ShapeMismatch)
    );
    assert_eq!(values(r.get_weights(0).unwrap()), vec![-1.0, -3.0]);
    assert_eq!(values(r.get_weights(1).unwrap()), vec![1.0, 5.0]);

    assert_eq!(
        r.set_resampled_weights(&vec![vec![bits(0.0), bits(1.0)], vec![bits(0.0), bits(1.0)]]),
        Ok(())
    );
    assert_eq!(values(r.get_weights(0).unwrap()), vec![0.0, 1.0]);
    assert_eq!(values(r.get_weights(1).unwrap()), vec![0.0, 1.0]);
    let after: Vec<Vec<Particle>> = r.events().iter().map(|e| e.outgoing.clone()).collect();
    assert_eq!(after, particles);
}

#[test]
fn two_events_cell_weights_cancel() {
    // A backend that resamples a cell holding both events sets each weight
    // to the cell's mean weight; the library hands the request out and
    // takes the result back.
    let mut r = resampler();
    r.reserve(2);
    r.push(event(&[-1.0]));
    r.push(event(&[1.0]));
    let request = r.resample_cell(0, bits(f64::MAX)).unwrap();
    assert_eq!(request.seed, 0);
    assert_eq!(request.neighbour_search, Search::Tree);

    let n = r.len();
    let sum: f64 = (0..n).map(|i| f64::from_bits(r.get_weights(i).unwrap()[0])).sum();
    assert_eq!(sum, 0.0);
    let mean = sum / n as f64;
    let new: Vec<Vec<u64>> = (0..n).map(|_| vec![bits(mean)]).collect();
    assert_eq!(r.set_resampled_weights(&new), Ok(()));

    assert_eq!(values(r.get_weights(0).unwrap()), vec![0.0]);
    assert_eq!(values(r.get_weights(1).unwrap()), vec![0.0]);
    r.clear();
    assert!(r.is_empty());
}
