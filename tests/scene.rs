use raytracer::frame::image_height;
use raytracer::hittable_list::HittableList;
use raytracer::nearest_hit::{closest, ClosestHit, Nearest};
use raytracer::path::{next, start, Bounce, Step};

fn key(t: f64) -> Option<u64> {
    Some(t.to_bits())
}

#[test]
fn new_list_holds_its_item() {
    let list = HittableList::new(7u32);
    assert_eq!(list.len(), 1);
    assert_eq!(*list.get(0), 7);
}

#[test]
fn add_appends_in_order() {
    let mut list = HittableList::new("ground");
    list.add("small");
    list.add("glass");
    assert_eq!(list.len(), 3);
    assert_eq!(*list.get(0), "ground");
    assert_eq!(*list.get(1), "small");
    assert_eq!(*list.get(2), "glass");
}

#[test]
fn clear_removes_every_member() {
    let mut list = HittableList::new(1i64);
    list.add(2);
    list.clear();
    assert_eq!(list.len(), 0);
    list.add(3);
    assert_eq!(list.len(), 1);
    assert_eq!(*list.get(0), 3);
}

#[test]
fn closest_picks_least_t() {
    let keys = vec![key(1.0), key(0.5), None, key(2.0)];
    let n = closest(&keys).unwrap();
    assert_eq!(n.index, 1);
    assert_eq!(f64::from_bits(n.key), 0.5);
}

#[test]
fn closest_of_misses_is_none() {
    assert!(closest(&vec![None, None, None]).is_none());
    assert!(closest(&Vec::new()).is_none());
}

#[test]
fn closest_keeps_first_of_equal_hits() {
    let keys = vec![None, key(0.75), key(3.0), key(0.75)];
    assert_eq!(closest(&keys), Some(Nearest { index: 1, key: 0.75f64.to_bits() }));
}

#[test]
fn closest_does_not_depend_on_member_order() {
    let ts = [4.5, 0.001_5, 12.0, 1.0e-3 + 1.0e-9, 99.0];
    let forward: Vec<Option<u64>> = ts.iter().map(|t| key(*t)).collect();
    let backward: Vec<Option<u64>> = ts.iter().rev().map(|t| key(*t)).collect();
    let a = closest(&forward).unwrap();
    let b = closest(&backward).unwrap();
    assert_eq!(a.key, b.key);
    assert_eq!(f64::from_bits(a.key), 1.0e-3 + 1.0e-9);
    assert_eq!(a.index, 3);
    assert_eq!(b.index, 1);
}

#[test]
fn key_order_follows_t_order() {
    let ts = [0.001, 0.002, 0.5, 1.0, 1.5, 100.0, f64::INFINITY];
    for w in ts.windows(2) {
        assert!(w[0].to_bits() < w[1].to_bits());
    }
}

#[test]
fn query_shrinks_its_bound() {
    let mut q = ClosestHit::new();
    let t_max = f64::INFINITY.to_bits();
    assert_eq!(q.bound(t_max), t_max);
    assert!(q.offer(0, 2.0f64.to_bits()));
    assert_eq!(q.bound(t_max), 2.0f64.to_bits());
    assert!(!q.offer(1, 3.0f64.to_bits()));
    assert!(!q.offer(2, 2.0f64.to_bits()));
    assert!(q.offer(3, 0.25f64.to_bits()));
    assert_eq!(q.nearest(), Some(Nearest { index: 3, key: 0.25f64.to_bits() }));
}

#[test]
fn depth_zero_is_black() {
    assert_eq!(start(0), Step::Black);
    assert_eq!(start(-3), Step::Black);
    assert_eq!(start(50), Step::Trace { depth: 50 });
}

#[test]
fn next_step_per_bounce() {
    assert_eq!(next(5, Bounce::Miss), Step::Background);
    assert_eq!(next(5, Bounce::Absorbed), Step::Black);
    assert_eq!(next(5, Bounce::Scattered), Step::Trace { depth: 4 });
    assert_eq!(next(1, Bounce::Scattered), Step::Black);
    assert_eq!(next(1, Bounce::Miss), Step::Background);
}

#[test]
fn path_of_scatters_ends_after_depth_traces() {
    let mut traces = 0;
    let mut step = start(10);
    while let Step::Trace { depth } = step {
        traces += 1;
        step = next(depth, Bounce::Scattered);
    }
    assert_eq!(traces, 10);
    assert_eq!(step, Step::Black);
}

#[test]
fn single_bounce_path_sees_background_after_scatter() {
    let mut step = start(2);
    let mut seen = Vec::new();
    let events = [Bounce::Scattered, Bounce::Miss];
    let mut e = 0;
    while let Step::Trace { depth } = step {
        seen.push(depth);
        step = next(depth, events[e]);
        e += 1;
    }
    assert_eq!(seen, vec![2, 1]);
    assert_eq!(step, Step::Background);
}

#[test]
fn image_has_at_least_one_row() {
    assert_eq!(image_height(675), 675);
    assert_eq!(image_height(1), 1);
    assert_eq!(image_height(0), 1);
    assert_eq!(image_height(-4), 1);
}
