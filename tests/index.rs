use bitpart::builder::BitPartBuilder;
use bitpart::exclusions::{BallExclusion, Exclusion, SheetExclusion, Side};
use bitpart::metric::{Manhattan, Metric};

/// A small deterministic generator (linear congruential).
struct Lcg(u64);

impl Lcg {
    fn next(&mut self) -> u64 {
        self.0 = self
            .0
            .wrapping_mul(6364136223846793005)
            .wrapping_add(1442695040888963407);
        self.0 >> 33
    }

    /// Roughly normal, in millionths: the sum of four uniforms, centred.
    fn coord(&mut self) -> i32 {
        let mut s: i64 = 0;
        for _ in 0..4 {
            s += (self.next() % 1_000_001) as i64;
        }
        ((s - 2_000_000) * 3 / 2) as i32
    }
}

fn synthetic<const N: usize>(seed: u64, n: usize) -> Vec<Manhattan<N>> {
    let mut g = Lcg(seed);
    (0..n)
        .map(|_| {
            let mut c = [0i32; N];
            for x in c.iter_mut() {
                *x = g.coord();
            }
            Manhattan::new(c)
        })
        .collect()
}

fn brute_force<T: Metric>(data: &[T], q: &T, tau: u64) -> Vec<(T, u64)> {
    data.iter()
        .map(|p| (*p, q.distance(p)))
        .filter(|(_, d)| *d <= tau)
        .collect()
}

fn same<const N: usize>(a: &[(Manhattan<N>, u64)], b: &[(Manhattan<N>, u64)]) -> bool {
    a.len() == b.len() && a.iter().zip(b).all(|(x, y)| x.0.coords == y.0.coords && x.1 == y.1)
}

fn pt1(x: i32) -> Manhattan<1> {
    Manhattan::new([x])
}

#[test]
fn manhattan_distance_exact() {
    let a = Manhattan::new([1, -2, 3]);
    let b = Manhattan::new([4, 2, -1]);
    assert_eq!(a.distance(&b), 3 + 4 + 4);
    assert_eq!(b.distance(&a), 11);
    assert_eq!(a.distance(&a), 0);
}

#[test]
fn manhattan_distance_extremes() {
    let a = Manhattan::new([i32::MIN, i32::MIN]);
    let b = Manhattan::new([i32::MAX, i32::MAX]);
    assert_eq!(a.distance(&b), 2 * (u32::MAX as u64));
}

#[test]
fn ball_predicates() {
    let e = BallExclusion::new(pt1(0), 10);
    assert!(e.is_in(&pt1(9)));
    assert!(!e.is_in(&pt1(10)));
    // d(c, q) = 3, tau = 6: 3 + 6 < 10.
    assert!(e.must_be_in(&pt1(3), 6));
    assert!(!e.must_be_in(&pt1(3), 7));
    // Boundary: d(c, q) = radius + tau must be out.
    assert!(e.must_be_out(&pt1(15), 5));
    assert!(!e.must_be_out(&pt1(14), 5));
    // A ball no larger than the disc never holds it.
    assert!(!e.must_be_in(&pt1(0), 10));
}

#[test]
fn sheet_predicates() {
    let three = SheetExclusion::new(pt1(0), pt1(100), 0, false);
    assert!(three.is_in(&pt1(49)));
    assert!(!three.is_in(&pt1(50)));
    // d(a, q) - d(b, q) = 10 - 90 = -80; -80 + 2 * 39 < 0.
    assert!(three.must_be_in(&pt1(10), 39));
    assert!(!three.must_be_in(&pt1(10), 40));
    // d(a, q) - d(b, q) = 90 - 10 = 80; 80 - 2 * 40 >= 0.
    assert!(three.must_be_out(&pt1(90), 40));
    assert!(!three.must_be_out(&pt1(90), 41));
    let four = SheetExclusion::new(pt1(0), pt1(100), 0, true);
    assert!(four.is_in(&pt1(10)));
    assert!(!four.must_be_in(&pt1(10), 0));
    assert!(!four.must_be_out(&pt1(90), 0));
}

#[test]
fn exclusion_sides() {
    let e = Exclusion::Ball(BallExclusion::new(pt1(0), 10));
    assert!(e.side(&pt1(2), 3) == Side::In);
    assert!(e.side(&pt1(20), 3) == Side::Out);
    assert!(e.side(&pt1(9), 3) == Side::Ambiguous);
    assert!(e.is_in(&pt1(2)));
}

#[test]
fn single_point_zero_threshold() {
    let q = Manhattan::new([5, 7]);
    let index = BitPartBuilder::new(vec![q]).ref_points(1).build();
    let res = index.range_search(q, 0);
    assert_eq!(res.len(), 1);
    assert_eq!(res[0].1, 0);
    assert_eq!(res[0].0.coords, [5, 7]);
    let par = BitPartBuilder::new(vec![q]).ref_points(1).build_parallel(Some(1));
    let res = par.range_search(q, 0);
    assert_eq!(res.len(), 1);
    assert_eq!(res[0].1, 0);
}

#[test]
fn duplicates_all_returned() {
    let q = pt1(3);
    let data = vec![pt1(3), pt1(8), pt1(3), pt1(-40), pt1(3)];
    let index = BitPartBuilder::new(data.clone()).ref_points(2).build();
    let res = index.range_search(q, 0);
    assert_eq!(res.len(), 3);
    assert!(res.iter().all(|(p, d)| p.coords == [3] && *d == 0));
    let par = BitPartBuilder::new(data).ref_points(2).build_parallel(None);
    assert_eq!(par.range_search(q, 0).len(), 3);
}

#[test]
fn large_threshold_returns_everything() {
    let data = synthetic::<3>(7, 200);
    let q = data[11];
    let index = BitPartBuilder::new(data.clone())
        .ref_points(10)
        .mean_distance(1_000_000)
        .radius_increment(200_000)
        .build();
    let res = index.range_search(q, u64::MAX);
    assert_eq!(res.len(), data.len());
    for (i, (p, d)) in res.iter().enumerate() {
        assert_eq!(p.coords, data[i].coords);
        assert_eq!(*d, q.distance(&data[i]));
    }
}

#[test]
fn small_threshold_matches_brute_force() {
    let data = synthetic::<2>(3, 500);
    let q = data[42];
    let tau = 400_000;
    let index = BitPartBuilder::new(data.clone()).build();
    let res = index.range_search(q, tau);
    let expected = brute_force(&data, &q, tau);
    assert!(same(&res, &expected));
    assert!(res.len() >= 1);
    assert!(res.len() < data.len());
}

#[test]
fn synthetic_20d_sequential_matches_brute_force() {
    let data = synthetic::<20>(20, 3000);
    let q = data[317];
    let tau = 20_000_000;
    let expected = brute_force(&data, &q, tau);
    let index = BitPartBuilder::new(data.clone()).build();
    let res = index.range_search(q, tau);
    assert!(same(&res, &expected));
    assert!(!expected.is_empty());
}

#[test]
fn synthetic_20d_parallel_matches_sequential() {
    let data = synthetic::<20>(21, 3000);
    let q = data[1000];
    let tau = 20_000_000;
    let seq = BitPartBuilder::new(data.clone()).build().range_search(q, tau);
    for job in [None, Some(0), Some(1), Some(64), Some(512)] {
        let par = BitPartBuilder::new(data.clone())
            .build_parallel(job)
            .range_search(q, tau);
        assert!(same(&seq, &par));
    }
}

#[test]
fn synthetic_ref_point_counts_agree() {
    let data = synthetic::<20>(22, 2000);
    let q = data[5];
    let tau = 22_000_000;
    let r40 = BitPartBuilder::new(data.clone()).ref_points(40).build().range_search(q, tau);
    let r20 = BitPartBuilder::new(data.clone()).ref_points(20).build().range_search(q, tau);
    assert!(same(&r40, &r20));
    assert!(same(&r40, &brute_force(&data, &q, tau)));
}

#[test]
fn three_point_sheets_keep_recall() {
    let data = synthetic::<4>(9, 800);
    let q = data[100];
    for tau in [0, 300_000, 1_000_000, 3_000_000] {
        let idx = BitPartBuilder::new(data.clone())
            .ref_points(12)
            .four_point(false)
            .mean_distance(2_000_000)
            .radius_increment(500_000)
            .build();
        assert!(same(&idx.range_search(q, tau), &brute_force(&data, &q, tau)));
        let par = BitPartBuilder::new(data.clone())
            .ref_points(12)
            .four_point(false)
            .build_parallel(Some(16));
        assert!(same(&par.range_search(q, tau), &brute_force(&data, &q, tau)));
    }
}

#[test]
fn building_twice_gives_same_answers() {
    let data = synthetic::<5>(11, 400);
    let q = data[0];
    let tau = 2_500_000;
    let a = BitPartBuilder::new(data.clone()).ref_points(15).build().range_search(q, tau);
    let b = BitPartBuilder::new(data.clone()).ref_points(15).build().range_search(q, tau);
    assert!(same(&a, &b));
}

#[test]
fn permuted_dataset_gives_same_multiset() {
    let data = synthetic::<3>(13, 300);
    let q = data[7];
    let tau = 1_500_000;
    let mut rev = data.clone();
    rev.reverse();
    let mut a = BitPartBuilder::new(data).ref_points(8).build().range_search(q, tau);
    let mut b = BitPartBuilder::new(rev).ref_points(8).build().range_search(q, tau);
    let key = |x: &(Manhattan<3>, u64)| (x.0.coords, x.1);
    a.sort_by_key(key);
    b.sort_by_key(key);
    assert!(same(&a, &b));
    assert!(!a.is_empty());
}

#[test]
fn zero_ref_points_is_linear_scan() {
    let data = synthetic::<2>(17, 100);
    let q = data[3];
    let tau = 800_000;
    let idx = BitPartBuilder::new(data.clone()).ref_points(0).build();
    assert!(same(&idx.range_search(q, tau), &brute_force(&data, &q, tau)));
}
