use itertools::Itertools;
use vstd::prelude::*;

verus! {

/// First and one-past-last grid column (x) of the small spheres.
pub const GRID_X_START: i32 = -10;
pub const GRID_X_END: i32 = 6;

/// First and one-past-last grid row (z) of the small spheres.
pub const GRID_Z_START: i32 = -10;
pub const GRID_Z_END: i32 = 10;

/// The three kinds of surface a sphere can have.
#[derive(Clone, Copy, Debug, PartialEq, Eq, Structural)]
pub enum MaterialKind {
    Diffuse,
    Reflective,
    Refractive,
}

/// A small sphere to be placed in the unit cell whose corner is `(x, z)`.
#[derive(Clone, Copy, Debug, PartialEq, Eq, Structural)]
pub struct Placement {
    pub x: i32,
    pub z: i32,
    pub kind: MaterialKind,
}

/// Every pair of the ranges `x0..x1` and `z0..z1`, the first coordinate varying slowest.
pub open spec fn grid_seq(x0: int, x1: int, z0: int, z1: int) -> Seq<(i32, i32)> {
    Seq::new(
        ((x1 - x0) * (z1 - z0)) as nat,
        |k: int| ((x0 + k / (z1 - z0)) as i32, (z0 + k % (z1 - z0)) as i32),
    )
}

/// Relies on itertools' `cartesian_product`, which yields, for each item of the first
/// iterator in turn, that item paired with each item of the second.
#[verifier::external_body]
fn cartesian(x0: i32, x1: i32, z0: i32, z1: i32) -> (r: Vec<(i32, i32)>)
    requires
        x0 <= x1,
        z0 <= z1,
        (x1 - x0) * (z1 - z0) <= usize::MAX,
    ensures
        r@ == grid_seq(x0 as int, x1 as int, z0 as int, z1 as int),
{
    (x0..x1).cartesian_product(z0..z1).collect()
}

/// Columns kept free of small spheres: the three large spheres stand there.
pub open spec fn is_reserved(x: int) -> bool {
    x == -4 || x == 0 || x == 4
}

/// The cells of `cells` outside the reserved columns, in their order.
pub open spec fn open_cells_of(cells: Seq<(i32, i32)>) -> Seq<(i32, i32)>
    decreases cells.len(),
{
    if cells.len() == 0 {
        Seq::empty()
    } else {
        let rest = open_cells_of(cells.drop_last());
        if is_reserved(cells.last().0 as int) {
            rest
        } else {
            rest.push(cells.last())
        }
    }
}

/// The cells that may receive a small sphere.
pub open spec fn candidate_cells() -> Seq<(i32, i32)> {
    open_cells_of(
        grid_seq(GRID_X_START as int, GRID_X_END as int, GRID_Z_START as int, GRID_Z_END as int),
    )
}

/// The surface chosen by a random byte: one chance in five for each kind,
/// and two in five for no sphere at all.
pub open spec fn kind_of(draw: u8) -> Option<MaterialKind> {
    if draw % 5 == 0 {
        Some(MaterialKind::Diffuse)
    } else if draw % 5 == 1 {
        Some(MaterialKind::Refractive)
    } else if draw % 5 == 2 {
        Some(MaterialKind::Reflective)
    } else {
        None
    }
}

/// The spheres placed when cell `cells[i]` is decided by byte `draws[i]`.
pub open spec fn placements(cells: Seq<(i32, i32)>, draws: Seq<u8>) -> Seq<Placement>
    decreases cells.len(),
{
    if cells.len() == 0 || draws.len() == 0 {
        Seq::empty()
    } else {
        let rest = placements(cells.drop_last(), draws.drop_last());
        match kind_of(draws.last()) {
            Some(kind) => rest.push(Placement { x: cells.last().0, z: cells.last().1, kind }),
            None => rest,
        }
    }
}

/// Relies on rand's `random`, a value drawn from the thread-local generator; nothing
/// is known of which.
pub assume_specification<T>[ rand::random::<T> ]() -> (r: T)
    where
        rand::distributions::Standard: rand::distributions::Distribution<T>,
;

/// Whether column `x` is kept free of small spheres.
pub fn is_reserved_column(x: i32) -> (r: bool)
    ensures
        r == is_reserved(x as int),
{
    x == -4 || x == 0 || x == 4
}

/// The surface chosen by the random byte `draw`.
pub fn kind_for_draw(draw: u8) -> (r: Option<MaterialKind>)
    ensures
        r == kind_of(draw),
{
    let m: u8 = draw % 5;
    if m == 0 {
        Some(MaterialKind::Diffuse)
    } else if m == 1 {
        Some(MaterialKind::Refractive)
    } else if m == 2 {
        Some(MaterialKind::Reflective)
    } else {
        None
    }
}

/// The cells that may receive a small sphere, row by row.
pub fn open_cells() -> (r: Vec<(i32, i32)>)
    ensures
        r@ == candidate_cells(),
{
    let all = cartesian(GRID_X_START, GRID_X_END, GRID_Z_START, GRID_Z_END);
    let mut out: Vec<(i32, i32)> = Vec::new();
    let n = all.len();
    let mut k: usize = 0;
    while k < n
        invariant
            n == all@.len(),
            k <= n,
            out@ == open_cells_of(all@.take(k as int)),
        decreases n - k,
    {
        let cell = all[k];
        proof {
            let s = all@.take(k + 1);
            assert(s.drop_last() =~= all@.take(k as int));
            assert(s.last() == cell);
        }
        if !is_reserved_column(cell.0) {
            out.push(cell);
        }
        k = k + 1;
    }
    assert(all@.take(n as int) =~= all@);
    out
}

/// The spheres placed when each cell `cells[i]` is decided by the byte `draws[i]`.
pub fn place_spheres(cells: &Vec<(i32, i32)>, draws: &Vec<u8>) -> (r: Vec<Placement>)
    requires
        cells@.len() == draws@.len(),
    ensures
        r@ == placements(cells@, draws@),
{
    let mut out: Vec<Placement> = Vec::new();
    let n = cells.len();
    let mut k: usize = 0;
    while k < n
        invariant
            n == cells@.len(),
            n == draws@.len(),
            k <= n,
            out@ == placements(cells@.take(k as int), draws@.take(k as int)),
        decreases n - k,
    {
        let cell = cells[k];
        let draw = draws[k];
        proof {
            let c = cells@.take(k + 1);
            let d = draws@.take(k + 1);
            assert(c.drop_last() =~= cells@.take(k as int));
            assert(d.drop_last() =~= draws@.take(k as int));
            assert(c.last() == cell);
            assert(d.last() == draw);
        }
        match kind_for_draw(draw) {
            Some(kind) => out.push(Placement { x: cell.0, z: cell.1, kind }),
            None => {},
        }
        k = k + 1;
    }
    assert(cells@.take(n as int) =~= cells@);
    assert(draws@.take(n as int) =~= draws@);
    out
}

/// A fresh random layout of the small spheres: one random byte decides each
/// candidate cell.
pub fn random_layout() -> (r: Vec<Placement>)
    ensures
        exists|draws: Seq<u8>|
            draws.len() == candidate_cells().len() && r@ == #[trigger] placements(
                candidate_cells(),
                draws,
            ),
{
    let cells = open_cells();
    let mut draws: Vec<u8> = Vec::new();
    let n = cells.len();
    let mut k: usize = 0;
    while k < n
        invariant
            n == cells@.len(),
            k <= n,
            draws@.len() == k,
        decreases n - k,
    {
        let draw: u8 = rand::random::<u8>();
        draws.push(draw);
        k = k + 1;
    }
    let r = place_spheres(&cells, &draws);
    assert(draws@.len() == candidate_cells().len() && r@ == placements(candidate_cells(), draws@));
    r
}

} // verus!
