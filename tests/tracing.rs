use raytracer::{nearest_hit, walk_next, walk_start, Outcome, Step};

#[test]
fn nearest_of_nothing() {
    assert_eq!(nearest_hit(&vec![]), None);
    assert_eq!(nearest_hit(&vec![None, None, None]), None);
}

#[test]
fn nearest_picks_smallest_key() {
    assert_eq!(nearest_hit(&vec![Some(9), None, Some(4), Some(6)]), Some(2));
    assert_eq!(nearest_hit(&vec![Some(1)]), Some(0));
}

#[test]
fn nearest_tie_goes_to_last_scanned() {
    assert_eq!(nearest_hit(&vec![Some(5), Some(3), Some(3), None]), Some(2));
}

#[test]
fn nearest_same_key_in_either_order() {
    // Two overlapping spheres: the near one at distance 0.5, the far one at 1.5.
    let near = Some(0.5f64.to_bits());
    let far = Some(1.5f64.to_bits());
    let a = vec![near, far];
    let b = vec![far, near];
    let ia = nearest_hit(&a).unwrap();
    let ib = nearest_hit(&b).unwrap();
    assert_eq!(a[ia], b[ib]);
    assert_eq!(a[ia], near);
}

#[test]
fn walk_without_depth_is_black() {
    assert_eq!(walk_start(0), Step::Black);
    assert_eq!(walk_start(50), Step::Trace { depth: 50 });
}

#[test]
fn walk_miss_shows_sky() {
    assert_eq!(walk_next(50, Outcome::Missed), Step::Sky);
    assert_eq!(walk_next(1, Outcome::Missed), Step::Sky);
}

#[test]
fn walk_absorbed_is_black() {
    assert_eq!(walk_next(7, Outcome::Absorbed), Step::Black);
}

#[test]
fn walk_scatter_spends_one_query() {
    assert_eq!(walk_next(3, Outcome::Scattered), Step::Trace { depth: 2 });
    assert_eq!(walk_next(1, Outcome::Scattered), Step::Black);
}

#[test]
fn walk_always_scattering_ends_after_depth_queries() {
    let mut step = walk_start(10);
    let mut queries = 0;
    while let Step::Trace { depth } = step {
        queries += 1;
        step = walk_next(depth, Outcome::Scattered);
    }
    assert_eq!(step, Step::Black);
    assert_eq!(queries, 10);
}
