//! Sharing a model among turtles: the nodes are clustered around as many
//! centres as there are turtles, on the grid of the model seen from above.

use vstd::prelude::*;
use rand::Rng;
use rand::SeedableRng;
use rand::rngs::StdRng;
use crate::scripts::model_builder::generation::{
    abs_diff,
    rows,
    spec_abs_diff,
    Block,
    Centroid,
    CoordXZ,
};

verus! {

/// Seed of the generator that picks the first centres.  It is fixed, so that
/// every turtle that loads the same model arrives at the same clusters.
pub const SEED: u64 = 32;

/// Number of rounds of the clustering.
pub const MAX_ITER: usize = 10_000;

/// A squared distance that is larger than the one between any two
/// coordinates.
pub const FAR: u64 = 8_589_672_451;

/// The indices that `StdRng`, seeded with `seed`, draws when it is asked
/// `count` times for an index below `len`.
pub uninterp spec fn seeded_indices(seed: u64, count: usize, len: usize) -> Seq<usize>;

/// Seeds rand's `StdRng` with `seed` (`SeedableRng::seed_from_u64`) and draws
/// `count` indices with `Rng::gen_range(0..len)`.  The generator is
/// deterministic, so the draws depend on the arguments alone; each of them is
/// below `len`, as `gen_range` promises for a range that is not empty.  The
/// range is sampled as `u64`, which is what `usize` is on the machines that
/// run a controller.
#[verifier::external_body]
fn seeded_draws(seed: u64, count: usize, len: usize) -> (r: Vec<usize>)
    requires
        len > 0,
    ensures
        r@ == seeded_indices(seed, count, len),
        r@.len() == count,
        forall|i: int| 0 <= i < r@.len() ==> #[trigger] r@[i] < len,
{
    let mut rng = StdRng::seed_from_u64(seed);
    (0..count).map(|_| rng.gen_range(0..len as u64) as usize).collect()
}

/// Number of nodes at the coordinate `c` among the first `m` nodes of a layer.
pub open spec fn layer_weight(layer: Seq<(CoordXZ, Block)>, c: CoordXZ, m: int) -> nat
    decreases m,
{
    if m <= 0 {
        0
    } else {
        layer_weight(layer, c, m - 1) + if layer[m - 1].0 == c {
            1nat
        } else {
            0nat
        }
    }
}

/// Number of nodes at the coordinate `c` in the first `m` layers of a model.
pub open spec fn model_weight(model: Seq<Seq<(CoordXZ, Block)>>, c: CoordXZ, m: int) -> nat
    decreases m,
{
    if m <= 0 {
        0
    } else {
        model_weight(model, c, m - 1) + layer_weight(model[m - 1], c, model[m - 1].len() as int)
    }
}

/// Number of nodes in the first `m` layers of a model.
pub open spec fn total_nodes(model: Seq<Seq<(CoordXZ, Block)>>, m: int) -> nat
    decreases m,
{
    if m <= 0 {
        0
    } else {
        total_nodes(model, m - 1) + model[m - 1].len()
    }
}

/// Every node lies within the grid of the given dimensions.
pub open spec fn nodes_in_dims(model: Seq<Seq<(CoordXZ, Block)>>, dims: (u16, u16, u16)) -> bool {
    forall|li: int, k: int|
        0 <= li < model.len() && 0 <= k < model[li].len() ==> (#[trigger] model[li][k]).0.0
            < dims.0 && model[li][k].0.1 < dims.2
}

/// The grid of weights: for each coordinate the number of nodes of the model
/// that stand there, on whatever layer.
pub open spec fn weights(model: Seq<Seq<(CoordXZ, Block)>>, dims: (u16, u16, u16)) -> Seq<
    Seq<usize>,
> {
    Seq::new(
        dims.0 as nat,
        |x: int|
            Seq::new(
                dims.2 as nat,
                |z: int| model_weight(model, (x as u16, z as u16), model.len() as int) as usize,
            ),
    )
}

/// A grid has rows of equal length, and both of its sides fit a coordinate.
pub open spec fn grid_wf(w: Seq<Seq<usize>>, nz: int) -> bool {
    &&& w.len() <= 65535
    &&& 0 <= nz <= 65535
    &&& forall|x: int| 0 <= x < w.len() ==> (#[trigger] w[x]).len() == nz
}

/// Sum of the first `m` weights of row `x`.
pub open spec fn row_total(w: Seq<Seq<usize>>, x: int, m: int) -> nat
    decreases m,
{
    if m <= 0 {
        0
    } else {
        row_total(w, x, m - 1) + w[x][m - 1] as nat
    }
}

/// Sum of the weights of the first `m` rows.
pub open spec fn grid_total(w: Seq<Seq<usize>>, nz: int, m: int) -> nat
    decreases m,
{
    if m <= 0 {
        0
    } else {
        grid_total(w, nz, m - 1) + row_total(w, m - 1, nz)
    }
}

/// Square of the distance between two coordinates.
pub open spec fn spec_dist2(a: CoordXZ, b: CoordXZ) -> int {
    spec_abs_diff(a.0, b.0) * spec_abs_diff(a.0, b.0) + spec_abs_diff(a.1, b.1) * spec_abs_diff(
        a.1,
        b.1,
    )
}

/// The centre that is nearest to `p` among the first `m`, with its squared
/// distance.  Of two centres at the same distance the earlier one wins.
pub open spec fn closest(centroids: Seq<Centroid>, p: CoordXZ, m: int) -> (int, int)
    decreases m,
{
    if m <= 0 {
        (FAR as int, 0)
    } else {
        let b = closest(centroids, p, m - 1);
        let d = spec_dist2(centroids[m - 1].0, p);
        if d < b.0 {
            (d, m - 1)
        } else {
            b
        }
    }
}

/// Index of the centre that is nearest to `p`.
pub open spec fn closest_centroid(centroids: Seq<Centroid>, p: CoordXZ) -> int {
    closest(centroids, p, centroids.len() as int).1
}

/// What a centre gathers: the weighted sums of the coordinates that are
/// assigned to it, and their weight.
pub struct Sums {
    pub x: int,
    pub z: int,
    pub weight: int,
}

/// The sums after a cell of weight `w` at `(x, z)` was gathered.
pub open spec fn add_cell(s: Sums, x: int, z: int, w: int) -> Sums {
    Sums { x: s.x + x * w, z: s.z + z * w, weight: s.weight + w }
}

/// What centre `i` gathers from the first `m` cells of row `x`, on top of
/// `start`.
pub open spec fn row_sums(
    centroids: Seq<Centroid>,
    w: Seq<Seq<usize>>,
    i: int,
    x: int,
    m: int,
    start: Sums,
) -> Sums
    decreases m,
{
    if m <= 0 {
        start
    } else {
        let prev = row_sums(centroids, w, i, x, m - 1, start);
        if closest_centroid(centroids, (x as u16, (m - 1) as u16)) == i {
            add_cell(prev, x, m - 1, w[x][m - 1] as int)
        } else {
            prev
        }
    }
}

/// What centre `i` gathers from the first `m` rows of the grid.
pub open spec fn grid_sums(
    centroids: Seq<Centroid>,
    w: Seq<Seq<usize>>,
    nz: int,
    i: int,
    m: int,
) -> Sums
    decreases m,
{
    if m <= 0 {
        Sums { x: 0, z: 0, weight: 0 }
    } else {
        row_sums(centroids, w, i, m - 1, nz, grid_sums(centroids, w, nz, i, m - 1))
    }
}

/// A centre moves to the weighted mean of what it gathered, rounded down, and
/// takes that weight.  A centre that gathered nothing stays as it is.
pub open spec fn moved(c: Centroid, s: Sums) -> Centroid {
    if s.weight == 0 {
        c
    } else {
        (((s.x / s.weight) as u16, (s.z / s.weight) as u16), s.weight as usize)
    }
}

/// One round of the clustering: every cell of the grid is assigned to its
/// nearest centre, and every centre moves.
pub open spec fn kmeans_step(centroids: Seq<Centroid>, w: Seq<Seq<usize>>, nz: int) -> Seq<
    Centroid,
> {
    Seq::new(
        centroids.len(),
        |i: int| moved(centroids[i], grid_sums(centroids, w, nz, i, w.len() as int)),
    )
}

/// `n` rounds of the clustering.
pub open spec fn kmeans_iterate(centroids: Seq<Centroid>, w: Seq<Seq<usize>>, nz: int, n: nat) -> Seq<
    Centroid,
>
    decreases n,
{
    if n == 0 {
        centroids
    } else {
        kmeans_step(kmeans_iterate(centroids, w, nz, (n - 1) as nat), w, nz)
    }
}

/// The first centres: the nodes of a layer at the drawn indices, with no
/// weight.
pub open spec fn seed_centroids(layer: Seq<(CoordXZ, Block)>, draws: Seq<usize>) -> Seq<Centroid> {
    Seq::new(draws.len(), |i: int| (layer[draws[i] as int].0, 0usize))
}

/// The centres of a model after all rounds, from the given draws.
pub open spec fn spec_k_means(
    model: Seq<Seq<(CoordXZ, Block)>>,
    dims: (u16, u16, u16),
    draws: Seq<usize>,
) -> Seq<Centroid> {
    if draws.len() == 0 {
        Seq::empty()
    } else {
        kmeans_iterate(
            seed_centroids(model[0], draws),
            weights(model, dims),
            dims.2 as int,
            MAX_ITER as nat,
        )
    }
}

/// The model can be clustered: its nodes lie within the grid, and its size
/// leaves room for the sums.
pub open spec fn k_means_ready(model: Seq<Seq<(CoordXZ, Block)>>, dims: (u16, u16, u16)) -> bool {
    &&& nodes_in_dims(model, dims)
    &&& total_nodes(model, model.len() as int) <= usize::MAX
    &&& grid_total(weights(model, dims), dims.2 as int, dims.0 as int) * 65536 <= usize::MAX
}

/// Centres that a round does not move are not moved by any number of rounds.
pub proof fn lemma_converged_stays(centroids: Seq<Centroid>, w: Seq<Seq<usize>>, nz: int, n: nat)
    requires
        kmeans_step(centroids, w, nz) == centroids,
    ensures
        kmeans_iterate(centroids, w, nz, n) == centroids,
    decreases n,
{
    if n > 0 {
        lemma_converged_stays(centroids, w, nz, (n - 1) as nat);
    }
}

/// More layers hold no fewer nodes.
pub proof fn lemma_total_nodes_mono(model: Seq<Seq<(CoordXZ, Block)>>, a: int, b: int)
    requires
        0 <= a <= b <= model.len(),
    ensures
        total_nodes(model, a) <= total_nodes(model, b),
    decreases b - a,
{
    if a < b {
        lemma_total_nodes_mono(model, a, b - 1);
    }
}

proof fn lemma_layer_weight_bound(layer: Seq<(CoordXZ, Block)>, c: CoordXZ, m: int)
    requires
        0 <= m,
    ensures
        layer_weight(layer, c, m) <= m,
    decreases m,
{
    if m > 0 {
        lemma_layer_weight_bound(layer, c, m - 1);
    }
}

proof fn lemma_model_weight_bound(model: Seq<Seq<(CoordXZ, Block)>>, c: CoordXZ, m: int)
    requires
        0 <= m <= model.len(),
    ensures
        model_weight(model, c, m) <= total_nodes(model, m),
    decreases m,
{
    if m > 0 {
        lemma_model_weight_bound(model, c, m - 1);
        lemma_layer_weight_bound(model[m - 1], c, model[m - 1].len() as int);
    }
}

/// Counts the nodes of a model at each coordinate of the grid.
pub fn weight_grid(model_arr: &Vec<Vec<(CoordXZ, Block)>>, dims: (u16, u16, u16)) -> (grid: Vec<
    Vec<usize>,
>)
    requires
        nodes_in_dims(rows(model_arr@), dims),
        total_nodes(rows(model_arr@), model_arr@.len() as int) <= usize::MAX,
    ensures
        rows(grid@) == weights(rows(model_arr@), dims),
{
    let ghost model = rows(model_arr@);
    let mut grid: Vec<Vec<usize>> = Vec::new();
    let mut x: u16 = 0;
    while x < dims.0
        invariant
            0 <= x <= dims.0,
            grid.len() == x,
            forall|a: int| 0 <= a < x ==> (#[trigger] grid[a]).len() == dims.2,
            forall|a: int, b: int| 0 <= a < x && 0 <= b < dims.2 ==> #[trigger] grid[a][b] == 0,
        decreases dims.0 - x,
    {
        let mut row: Vec<usize> = Vec::new();
        let mut z: u16 = 0;
        while z < dims.2
            invariant
                0 <= z <= dims.2,
                row.len() == z,
                forall|b: int| 0 <= b < z ==> #[trigger] row[b] == 0,
            decreases dims.2 - z,
        {
            row.push(0);
            z = z + 1;
        }
        grid.push(row);
        x = x + 1;
    }
    let mut li: usize = 0;
    while li < model_arr.len()
        invariant
            0 <= li <= model_arr.len(),
            model == rows(model_arr@),
            nodes_in_dims(model, dims),
            total_nodes(model, model.len() as int) <= usize::MAX,
            grid.len() == dims.0,
            forall|a: int| 0 <= a < dims.0 ==> (#[trigger] grid[a]).len() == dims.2,
            forall|a: int, b: int|
                0 <= a < dims.0 && 0 <= b < dims.2 ==> #[trigger] grid[a][b] == model_weight(
                    model,
                    (a as u16, b as u16),
                    li as int,
                ),
        decreases model_arr.len() - li,
    {
        let layer = &model_arr[li];
        assert(layer@ == model[li as int]);
        let mut k: usize = 0;
        while k < layer.len()
            invariant
                0 <= k <= layer.len(),
                0 <= li < model.len(),
                layer@ == model[li as int],
                nodes_in_dims(model, dims),
                total_nodes(model, model.len() as int) <= usize::MAX,
                grid.len() == dims.0,
                forall|a: int| 0 <= a < dims.0 ==> (#[trigger] grid[a]).len() == dims.2,
                forall|a: int, b: int|
                    0 <= a < dims.0 && 0 <= b < dims.2 ==> #[trigger] grid[a][b] == model_weight(
                        model,
                        (a as u16, b as u16),
                        li as int,
                    ) + layer_weight(layer@, (a as u16, b as u16), k as int),
            decreases layer.len() - k,
        {
            let point = layer[k].0;
            assert(model[li as int][k as int].0 == point);
            let px = point.0 as usize;
            let pz = point.1 as usize;
            proof {
                lemma_model_weight_bound(model, point, li as int);
                lemma_layer_weight_bound(layer@, point, k as int);
                lemma_total_nodes_mono(model, li + 1, model.len() as int);
                assert(grid[px as int][pz as int] == model_weight(model, (px as u16, pz as u16), li as int)
                    + layer_weight(layer@, (px as u16, pz as u16), k as int));
            }
            let old_weight = grid[px][pz];
            grid[px][pz] = old_weight + 1;
            k = k + 1;
        }
        li = li + 1;
    }
    proof {
        let w = weights(model, dims);
        assert forall|a: int| 0 <= a < dims.0 implies #[trigger] rows(grid@)[a] =~= w[a] by {
            assert forall|b: int| 0 <= b < dims.2 implies rows(grid@)[a][b] == w[a][b] by {
                assert(grid[a][b] == model_weight(model, (a as u16, b as u16), model.len() as int));
            }
        }
        assert(rows(grid@) =~= w);
    }
    grid
}


proof fn lemma_row_total_mono(w: Seq<Seq<usize>>, x: int, a: int, b: int)
    requires
        0 <= a <= b,
    ensures
        row_total(w, x, a) <= row_total(w, x, b),
    decreases b - a,
{
    if a < b {
        lemma_row_total_mono(w, x, a, b - 1);
    }
}

proof fn lemma_grid_total_mono(w: Seq<Seq<usize>>, nz: int, a: int, b: int)
    requires
        0 <= a <= b,
    ensures
        grid_total(w, nz, a) <= grid_total(w, nz, b),
    decreases b - a,
{
    if a < b {
        lemma_grid_total_mono(w, nz, a, b - 1);
    }
}

/// Where there is a centre, the nearest centre is one of them, and it is
/// nearer than far.
pub proof fn lemma_closest(centroids: Seq<Centroid>, p: CoordXZ, m: int)
    requires
        0 <= m <= centroids.len(),
    ensures
        m > 0 ==> 0 <= closest(centroids, p, m).1 < m,
        m > 0 ==> closest(centroids, p, m).0 < FAR,
        m == 0 ==> closest(centroids, p, m) == (FAR as int, 0int),
    decreases m,
{
    if m > 0 {
        lemma_closest(centroids, p, m - 1);
        lemma_dist2_bound(centroids[m - 1].0, p);
    }
}

proof fn lemma_dist2_bound(a: CoordXZ, b: CoordXZ)
    ensures
        0 <= spec_dist2(a, b) < FAR,
{
    let dx = spec_abs_diff(a.0, b.0);
    let dz = spec_abs_diff(a.1, b.1);
    assert(0 <= dx * dx <= 65535 * 65535) by (nonlinear_arith)
        requires
            0 <= dx <= 65535,
    ;
    assert(0 <= dz * dz <= 65535 * 65535) by (nonlinear_arith)
        requires
            0 <= dz <= 65535,
    ;
}

/// Squared distance between two coordinates.
pub fn dist2(a: CoordXZ, b: CoordXZ) -> (r: u64)
    ensures
        r == spec_dist2(a, b),
        r < FAR,
{
    let dx = abs_diff(a.0, b.0) as u64;
    let dz = abs_diff(a.1, b.1) as u64;
    proof {
        lemma_dist2_bound(a, b);
        assert(0 <= dx * dx <= 65535 * 65535) by (nonlinear_arith)
            requires
                0 <= dx <= 65535,
        ;
        assert(0 <= dz * dz <= 65535 * 65535) by (nonlinear_arith)
            requires
                0 <= dz <= 65535,
        ;
    }
    dx * dx + dz * dz
}

/// Index of the centre that is nearest to `p`; 0 where there is no centre.
pub fn closest_cluster(centroids: &Vec<Centroid>, p: CoordXZ) -> (r: usize)
    ensures
        r == closest_centroid(centroids@, p),
        centroids.len() > 0 ==> r < centroids.len(),
{
    let mut min_distance = FAR;
    let mut closest_cluster: usize = 0;
    let mut i: usize = 0;
    while i < centroids.len()
        invariant
            0 <= i <= centroids.len(),
            (min_distance as int, closest_cluster as int) == closest(centroids@, p, i as int),
        decreases centroids.len() - i,
    {
        let distance = dist2(centroids[i].0, p);
        if distance < min_distance {
            min_distance = distance;
            closest_cluster = i;
        }
        i = i + 1;
    }
    proof {
        lemma_closest(centroids@, p, centroids.len() as int);
    }
    closest_cluster
}

proof fn lemma_mean_in_range(s: int, w: int)
    requires
        0 <= s <= 65535 * w,
        0 < w,
    ensures
        0 <= s / w <= 65535,
{
    assert(0 <= s / w <= 65535) by (nonlinear_arith)
        requires
            0 <= s <= 65535 * w,
            0 < w,
    ;
}

/// One round of the clustering: every cell of the grid is assigned to its
/// nearest centre, and every centre moves to the weighted mean of its cells.
pub fn k_means_round(centroids: &mut Vec<Centroid>, grid: &Vec<Vec<usize>>, nz: u16)
    requires
        grid_wf(rows(grid@), nz as int),
        grid_total(rows(grid@), nz as int, grid@.len() as int) * 65536 <= usize::MAX,
        old(centroids).len() > 0,
    ensures
        final(centroids)@ == kmeans_step(old(centroids)@, rows(grid@), nz as int),
{
    let ghost cs = centroids@;
    let ghost w = rows(grid@);
    let ghost total = grid_total(w, nz as int, w.len() as int);
    let k = centroids.len();
    let nx = grid.len();
    let mut sum_x: Vec<usize> = Vec::new();
    let mut sum_z: Vec<usize> = Vec::new();
    let mut sum_w: Vec<usize> = Vec::new();
    let mut i: usize = 0;
    while i < k
        invariant
            0 <= i <= k,
            sum_x.len() == i,
            sum_z.len() == i,
            sum_w.len() == i,
            forall|j: int| 0 <= j < i ==> #[trigger] sum_x[j] == 0,
            forall|j: int| 0 <= j < i ==> #[trigger] sum_z[j] == 0,
            forall|j: int| 0 <= j < i ==> #[trigger] sum_w[j] == 0,
        decreases k - i,
    {
        sum_x.push(0);
        sum_z.push(0);
        sum_w.push(0);
        i = i + 1;
    }
    let mut x: usize = 0;
    while x < nx
        invariant
            0 <= x <= nx,
            nx == grid.len(),
            k == centroids.len(),
            k > 0,
            cs == centroids@,
            w == rows(grid@),
            grid_wf(w, nz as int),
            total == grid_total(w, nz as int, w.len() as int),
            total * 65536 <= usize::MAX,
            sum_x.len() == k,
            sum_z.len() == k,
            sum_w.len() == k,
            forall|j: int|
                0 <= j < k ==> (Sums {
                    x: #[trigger] sum_x[j] as int,
                    z: sum_z[j] as int,
                    weight: sum_w[j] as int,
                }) == grid_sums(cs, w, nz as int, j, x as int),
            forall|j: int|
                0 <= j < k ==> #[trigger] sum_w[j] <= grid_total(w, nz as int, x as int)
                    && sum_x[j] <= 65535 * sum_w[j] && sum_z[j] <= 65535 * sum_w[j],
        decreases nx - x,
    {
        let row = &grid[x];
        assert(row@ == w[x as int]);
        let mut z: u16 = 0;
        while z < nz
            invariant
                0 <= z <= nz,
                0 <= x < nx,
                nx == grid.len(),
                k == centroids.len(),
                k > 0,
                cs == centroids@,
                w == rows(grid@),
                row@ == w[x as int],
                grid_wf(w, nz as int),
                total == grid_total(w, nz as int, w.len() as int),
                total * 65536 <= usize::MAX,
                sum_x.len() == k,
                sum_z.len() == k,
                sum_w.len() == k,
                forall|j: int|
                    0 <= j < k ==> (Sums {
                        x: #[trigger] sum_x[j] as int,
                        z: sum_z[j] as int,
                        weight: sum_w[j] as int,
                    }) == row_sums(
                        cs,
                        w,
                        j,
                        x as int,
                        z as int,
                        grid_sums(cs, w, nz as int, j, x as int),
                    ),
                forall|j: int|
                    0 <= j < k ==> #[trigger] sum_w[j] <= grid_total(w, nz as int, x as int)
                        + row_total(w, x as int, z as int) && sum_x[j] <= 65535 * sum_w[j]
                        && sum_z[j] <= 65535 * sum_w[j],
            decreases nz - z,
        {
            let num_points = row[z as usize];
            let c = closest_cluster(centroids, (x as u16, z));
            proof {
                lemma_row_total_mono(w, x as int, z + 1, nz as int);
                lemma_grid_total_mono(w, nz as int, x + 1, w.len() as int);
                assert(grid_total(w, nz as int, x + 1) == grid_total(w, nz as int, x as int)
                    + row_total(w, x as int, nz as int));
                assert(row_total(w, x as int, z + 1) == row_total(w, x as int, z as int)
                    + num_points);
                let sw = sum_w[c as int] as int;
                let np = num_points as int;
                let xi = x as int;
                let zi = z as int;
                assert(sw + np <= total);
                assert(xi * np <= 65535 * np && zi * np <= 65535 * np && 0 <= xi * np && 0
                    <= zi * np) by (nonlinear_arith)
                    requires
                        0 <= xi <= 65535,
                        0 <= zi <= 65535,
                        0 <= np,
                ;
            }
            sum_x[c] = sum_x[c] + x * num_points;
            sum_z[c] = sum_z[c] + z as usize * num_points;
            sum_w[c] = sum_w[c] + num_points;
            z = z + 1;
        }
        x = x + 1;
    }
    // Update the centres.
    i = 0;
    while i < k
        invariant
            0 <= i <= k,
            k == centroids.len(),
            k == cs.len(),
            sum_x.len() == k,
            sum_z.len() == k,
            sum_w.len() == k,
            forall|j: int|
                0 <= j < k ==> (Sums {
                    x: #[trigger] sum_x[j] as int,
                    z: sum_z[j] as int,
                    weight: sum_w[j] as int,
                }) == grid_sums(cs, w, nz as int, j, w.len() as int),
            forall|j: int|
                0 <= j < k ==> #[trigger] sum_x[j] <= 65535 * sum_w[j] && sum_z[j] <= 65535
                    * sum_w[j],
            forall|j: int| 0 <= j < i ==> #[trigger] centroids[j] == kmeans_step(cs, w, nz as int)[j],
            forall|j: int| i <= j < k ==> #[trigger] centroids[j] == cs[j],
        decreases k - i,
    {
        let count = sum_w[i];
        assert((Sums { x: sum_x[i as int] as int, z: sum_z[i as int] as int, weight: sum_w[i as int] as int })
            == grid_sums(cs, w, nz as int, i as int, w.len() as int));
        if count != 0 {
            proof {
                lemma_mean_in_range(sum_x[i as int] as int, count as int);
                lemma_mean_in_range(sum_z[i as int] as int, count as int);
            }
            let mx = (sum_x[i] / count) as u16;
            let mz = (sum_z[i] / count) as u16;
            centroids[i] = ((mx, mz), count);
        }
        i = i + 1;
    }
    assert(centroids@ =~= kmeans_step(cs, w, nz as int));
}

/// Clusters the nodes of a model around the centres that begin at the nodes
/// of the lowest layer with the indices `seeds`.
pub fn k_means_from(
    seeds: &Vec<usize>,
    model_arr: &Vec<Vec<(CoordXZ, Block)>>,
    dims: (u16, u16, u16),
) -> (centroids: Vec<Centroid>)
    requires
        k_means_ready(rows(model_arr@), dims),
        seeds@.len() > 0 ==> model_arr@.len() > 0,
        forall|i: int| 0 <= i < seeds@.len() ==> #[trigger] seeds@[i] < model_arr@[0]@.len(),
    ensures
        centroids@ == spec_k_means(rows(model_arr@), dims, seeds@),
{
    let ghost model = rows(model_arr@);
    let mut centroids: Vec<Centroid> = Vec::new();
    let k = seeds.len();
    if k == 0 {
        return centroids;
    }
    let layer = &model_arr[0];
    let mut i: usize = 0;
    while i < k
        invariant
            0 <= i <= k,
            k == seeds.len(),
            layer@ == model[0],
            centroids.len() == i,
            forall|i: int| 0 <= i < seeds@.len() ==> #[trigger] seeds@[i] < layer@.len(),
            forall|j: int| 0 <= j < i ==> #[trigger] centroids[j] == seed_centroids(model[0], seeds@)[j],
        decreases k - i,
    {
        let point = layer[seeds[i]].0;
        centroids.push((point, 0));
        i = i + 1;
    }
    assert(centroids@ =~= seed_centroids(model[0], seeds@));
    let grid = weight_grid(model_arr, dims);
    let ghost w = weights(model, dims);
    assert(grid@.len() == w.len());
    let mut round: usize = 0;
    while round < MAX_ITER
        invariant
            0 <= round <= MAX_ITER,
            centroids.len() == k,
            k > 0,
            rows(grid@) == w,
            w == weights(model, dims),
            grid@.len() == dims.0,
            grid_wf(w, dims.2 as int),
            grid_total(w, dims.2 as int, dims.0 as int) * 65536 <= usize::MAX,
            centroids@ == kmeans_iterate(
                seed_centroids(model[0], seeds@),
                w,
                dims.2 as int,
                round as nat,
            ),
        decreases MAX_ITER - round,
    {
        k_means_round(&mut centroids, &grid, dims.2);
        round = round + 1;
    }
    centroids
}

/// Clusters the nodes of a model around `k` centres.  The centres begin at
/// nodes of the lowest layer, drawn by a generator with a fixed seed, and
/// move for a fixed number of rounds.
pub fn k_means(model_arr: &Vec<Vec<(CoordXZ, Block)>>, dims: (u16, u16, u16), k: usize) -> (centroids:
    Vec<Centroid>)
    requires
        k_means_ready(rows(model_arr@), dims),
        k > 0 ==> model_arr@.len() > 0 && model_arr@[0]@.len() > 0,
    ensures
        k == 0 ==> centroids@.len() == 0,
        k > 0 ==> centroids@ == spec_k_means(
            rows(model_arr@),
            dims,
            seeded_indices(SEED, k, model_arr@[0]@.len() as usize),
        ),
{
    if k == 0 {
        return Vec::new();
    }
    let seeds = seeded_draws(SEED, k, model_arr[0].len());
    k_means_from(&seeds, model_arr, dims)
}


/// Says whether a model can be clustered on a grid of the given dimensions.
pub fn model_fits(model_arr: &Vec<Vec<(CoordXZ, Block)>>, dims: (u16, u16, u16)) -> (ok: bool)
    ensures
        ok == k_means_ready(rows(model_arr@), dims),
{
    let ghost model = rows(model_arr@);
    let mut total: usize = 0;
    let mut li: usize = 0;
    while li < model_arr.len()
        invariant
            0 <= li <= model_arr.len(),
            model == rows(model_arr@),
            total == total_nodes(model, li as int),
            forall|l: int, k: int|
                0 <= l < li && 0 <= k < model[l].len() ==> (#[trigger] model[l][k]).0.0 < dims.0
                    && model[l][k].0.1 < dims.2,
        decreases model_arr.len() - li,
    {
        let layer = &model_arr[li];
        assert(layer@ == model[li as int]);
        if layer.len() > usize::MAX - total {
            proof {
                lemma_total_nodes_mono(model, li + 1, model.len() as int);
            }
            return false;
        }
        let mut k: usize = 0;
        while k < layer.len()
            invariant
                0 <= k <= layer.len(),
                layer@ == model[li as int],
                0 <= li < model.len(),
                model == rows(model_arr@),
                forall|j: int|
                    0 <= j < k ==> (#[trigger] layer@[j]).0.0 < dims.0 && layer@[j].0.1 < dims.2,
            decreases layer.len() - k,
        {
            let point = layer[k].0;
            if point.0 >= dims.0 || point.1 >= dims.2 {
                assert(model[li as int][k as int].0 == point);
                assert(!nodes_in_dims(model, dims));
                return false;
            }
            k = k + 1;
        }
        total = total + layer.len();
        li = li + 1;
    }
    assert(nodes_in_dims(model, dims));
    let grid = weight_grid(model_arr, dims);
    let ghost w = weights(model, dims);
    assert(rows(grid@).len() == grid@.len());
    let limit: usize = usize::MAX / 65536;
    let mut acc: usize = 0;
    let mut x: usize = 0;
    while x < grid.len()
        invariant
            0 <= x <= grid.len(),
            grid@.len() == dims.0,
            rows(grid@) == w,
            w == weights(model, dims),
            model == rows(model_arr@),
            limit == usize::MAX / 65536,
            acc == grid_total(w, dims.2 as int, x as int),
            acc <= limit,
        decreases grid.len() - x,
    {
        let row = &grid[x];
        assert(row@ == w[x as int]);
        let mut z: usize = 0;
        while z < row.len()
            invariant
                0 <= z <= row.len(),
                0 <= x < grid.len(),
                grid@.len() == dims.0,
                w.len() == dims.0,
                w == weights(model, dims),
                model == rows(model_arr@),
                row@ == w[x as int],
                row@.len() == dims.2,
                limit == usize::MAX / 65536,
                acc == grid_total(w, dims.2 as int, x as int) + row_total(w, x as int, z as int),
                acc <= limit,
            decreases row.len() - z,
        {
            if row[z] > limit - acc {
                proof {
                    lemma_row_total_mono(w, x as int, z + 1, dims.2 as int);
                    lemma_grid_total_mono(w, dims.2 as int, x + 1, dims.0 as int);
                    assert(row_total(w, x as int, z + 1) == row_total(w, x as int, z as int)
                        + row@[z as int]);
                    assert(grid_total(w, dims.2 as int, x + 1) == grid_total(
                        w,
                        dims.2 as int,
                        x as int,
                    ) + row_total(w, x as int, dims.2 as int));
                    assert(grid_total(w, dims.2 as int, dims.0 as int) > limit);
                }
                return false;
            }
            acc = acc + row[z];
            z = z + 1;
        }
        x = x + 1;
    }
    true
}

/// The nodes among the first `m` of a layer whose nearest centre is `g`, in
/// their order.
pub open spec fn assigned(
    layer: Seq<(CoordXZ, Block)>,
    centroids: Seq<Centroid>,
    g: int,
    m: int,
) -> Seq<(CoordXZ, Block)>
    decreases m,
{
    if m <= 0 {
        Seq::empty()
    } else {
        let prev = assigned(layer, centroids, g, m - 1);
        if closest_centroid(centroids, layer[m - 1].0) == g {
            prev.push(layer[m - 1])
        } else {
            prev
        }
    }
}

/// The layers of the group of centre `g`: as many as the model is high, each
/// with the nodes of that layer whose nearest centre is `g`.
pub open spec fn group_layers(
    model: Seq<Seq<(CoordXZ, Block)>>,
    centroids: Seq<Centroid>,
    g: int,
    ny: nat,
) -> Seq<Seq<(CoordXZ, Block)>> {
    Seq::new(
        ny,
        |l: int|
            if l < model.len() {
                assigned(model[l], centroids, g, model[l].len() as int)
            } else {
                Seq::empty()
            },
    )
}

/// Number of nodes of the first `m` layers whose nearest centre is `g`.
pub open spec fn group_size(
    model: Seq<Seq<(CoordXZ, Block)>>,
    centroids: Seq<Centroid>,
    g: int,
    m: int,
) -> nat
    decreases m,
{
    if m <= 0 {
        0
    } else {
        group_size(model, centroids, g, m - 1) + assigned(
            model[m - 1],
            centroids,
            g,
            model[m - 1].len() as int,
        ).len()
    }
}

proof fn lemma_assigned_len(layer: Seq<(CoordXZ, Block)>, centroids: Seq<Centroid>, g: int, m: int)
    requires
        0 <= m,
    ensures
        assigned(layer, centroids, g, m).len() <= m,
    decreases m,
{
    if m > 0 {
        lemma_assigned_len(layer, centroids, g, m - 1);
    }
}

proof fn lemma_group_size_bound(
    model: Seq<Seq<(CoordXZ, Block)>>,
    centroids: Seq<Centroid>,
    g: int,
    m: int,
)
    requires
        0 <= m <= model.len(),
    ensures
        group_size(model, centroids, g, m) <= total_nodes(model, m),
    decreases m,
{
    if m > 0 {
        lemma_group_size_bound(model, centroids, g, m - 1);
        lemma_assigned_len(model[m - 1], centroids, g, model[m - 1].len() as int);
    }
}

/// Shares the nodes of a model among the centres: every node goes to the
/// group of its nearest centre, on its own layer.  Each group comes with the
/// number of its nodes.
pub fn centroids_to_groupings(
    nodes: Vec<Vec<(CoordXZ, Block)>>,
    centroids: Vec<Centroid>,
    dims: (u16, u16, u16),
) -> (groupings: Vec<(Vec<Vec<(CoordXZ, Block)>>, usize)>)
    requires
        nodes@.len() <= dims.1,
        total_nodes(rows(nodes@), nodes@.len() as int) <= usize::MAX,
        centroids@.len() > 0 || total_nodes(rows(nodes@), nodes@.len() as int) == 0,
    ensures
        groupings@.len() == centroids@.len(),
        forall|g: int|
            0 <= g < groupings@.len() ==> rows((#[trigger] groupings@[g]).0@) == group_layers(
                rows(nodes@),
                centroids@,
                g,
                dims.1 as nat,
            ),
        forall|g: int|
            0 <= g < groupings@.len() ==> (#[trigger] groupings@[g]).1 == group_size(
                rows(nodes@),
                centroids@,
                g,
                nodes@.len() as int,
            ),
{
    let ghost model = rows(nodes@);
    let ghost cs = centroids@;
    let k = centroids.len();
    let mut groupings: Vec<(Vec<Vec<(CoordXZ, Block)>>, usize)> = Vec::new();
    let mut g: usize = 0;
    while g < k
        invariant
            0 <= g <= k,
            groupings.len() == g,
            forall|j: int| 0 <= j < g ==> (#[trigger] groupings[j]).0.len() == dims.1,
            forall|j: int, l: int|
                0 <= j < g && 0 <= l < dims.1 ==> (#[trigger] groupings[j].0[l])@ == Seq::<
                    (CoordXZ, Block),
                >::empty(),
            forall|j: int| 0 <= j < g ==> (#[trigger] groupings[j]).1 == 0,
        decreases k - g,
    {
        let mut layers: Vec<Vec<(CoordXZ, Block)>> = Vec::new();
        let mut y: u16 = 0;
        while y < dims.1
            invariant
                0 <= y <= dims.1,
                layers.len() == y,
                forall|l: int| 0 <= l < y ==> (#[trigger] layers[l])@ == Seq::<(CoordXZ, Block)>::empty(),
            decreases dims.1 - y,
        {
            layers.push(Vec::new());
            y = y + 1;
        }
        groupings.push((layers, 0));
        g = g + 1;
    }
    let mut li: usize = 0;
    while li < nodes.len()
        invariant
            0 <= li <= nodes.len(),
            model == rows(nodes@),
            cs == centroids@,
            k == centroids.len(),
            nodes@.len() <= dims.1,
            total_nodes(model, model.len() as int) <= usize::MAX,
            k > 0 || total_nodes(model, model.len() as int) == 0,
            groupings.len() == k,
            forall|j: int| 0 <= j < k ==> (#[trigger] groupings[j]).0.len() == dims.1,
            forall|j: int, l: int|
                0 <= j < k && 0 <= l < dims.1 ==> (#[trigger] groupings[j].0[l])@ == if l < li {
                    assigned(model[l], cs, j, model[l].len() as int)
                } else {
                    Seq::empty()
                },
            forall|j: int|
                0 <= j < k ==> (#[trigger] groupings[j]).1 == group_size(model, cs, j, li as int),
        decreases nodes.len() - li,
    {
        let layer = &nodes[li];
        assert(layer@ == model[li as int]);
        let mut n: usize = 0;
        while n < layer.len()
            invariant
                0 <= n <= layer.len(),
                0 <= li < nodes.len(),
                model == rows(nodes@),
                layer@ == model[li as int],
                cs == centroids@,
                k == centroids.len(),
                nodes@.len() <= dims.1,
                total_nodes(model, model.len() as int) <= usize::MAX,
                k > 0 || total_nodes(model, model.len() as int) == 0,
                groupings.len() == k,
                forall|j: int| 0 <= j < k ==> (#[trigger] groupings[j]).0.len() == dims.1,
                forall|j: int, l: int|
                    0 <= j < k && 0 <= l < dims.1 ==> (#[trigger] groupings[j].0[l])@ == if l
                        < li {
                        assigned(model[l], cs, j, model[l].len() as int)
                    } else if l == li {
                        assigned(layer@, cs, j, n as int)
                    } else {
                        Seq::empty()
                    },
                forall|j: int|
                    0 <= j < k ==> (#[trigger] groupings[j]).1 == group_size(
                        model,
                        cs,
                        j,
                        li as int,
                    ) + assigned(layer@, cs, j, n as int).len(),
            decreases layer.len() - n,
        {
            let (point, block) = layer[n];
            proof {
                lemma_total_nodes_mono(model, li + 1, model.len() as int);
                lemma_total_nodes_mono(model, 0, li as int);
                assert(total_nodes(model, model.len() as int) > 0);
            }
            let closest = closest_cluster(&centroids, point);
            proof {
                lemma_group_size_bound(model, cs, closest as int, li as int);
                lemma_assigned_len(layer@, cs, closest as int, n as int);
            }
            let count = groupings[closest].1;
            groupings[closest].1 = count + 1;
            groupings[closest].0[li].push((point, block));
            n = n + 1;
        }
        li = li + 1;
    }
    proof {
        assert forall|g: int| 0 <= g < groupings@.len() implies rows((#[trigger] groupings@[g]).0@)
            == group_layers(model, cs, g, dims.1 as nat) by {
            assert(rows(groupings@[g].0@) =~= group_layers(model, cs, g, dims.1 as nat)) by {
                assert forall|l: int| 0 <= l < dims.1 implies rows(groupings@[g].0@)[l]
                    == group_layers(model, cs, g, dims.1 as nat)[l] by {
                    assert(rows(groupings@[g].0@)[l] == (groupings[g].0[l])@);
                }
            }
        }
    }
    groupings
}

/// A voxel grid: for each cell the id of the block that stands there, 0 for
/// empty space.
#[derive(Debug)]
pub struct ArrayModel {
    /// Extent of the grid along x, y and z.
    pub dims: (u16, u16, u16),
    /// The blocks, indexed by x, then y, then z.
    pub cells: Vec<Vec<Vec<Block>>>,
}

impl ArrayModel {
    /// The grid holds a cell for every coordinate within its dimensions.
    pub open spec fn wf(&self) -> bool {
        &&& self.cells@.len() == self.dims.0
        &&& forall|x: int| 0 <= x < self.dims.0 ==> (#[trigger] self.cells@[x])@.len() == self.dims.1
        &&& forall|x: int, y: int|
            0 <= x < self.dims.0 && 0 <= y < self.dims.1 ==> (#[trigger] self.cells@[x]@[y])@.len()
                == self.dims.2
    }

    /// The block at a coordinate.
    pub open spec fn spec_get(&self, x: int, y: int, z: int) -> Block {
        self.cells@[x]@[y]@[z]
    }

    /// A grid of empty space.
    pub fn new(dims: (u16, u16, u16)) -> (r: ArrayModel)
        ensures
            r.wf(),
            r.dims == dims,
            forall|x: int, y: int, z: int|
                0 <= x < dims.0 && 0 <= y < dims.1 && 0 <= z < dims.2 ==> #[trigger] r.spec_get(
                    x,
                    y,
                    z,
                ) == 0,
    {
        let mut cells: Vec<Vec<Vec<Block>>> = Vec::new();
        let mut x: u16 = 0;
        while x < dims.0
            invariant
                0 <= x <= dims.0,
                cells.len() == x,
                forall|a: int| 0 <= a < x ==> (#[trigger] cells@[a])@.len() == dims.1,
                forall|a: int, b: int|
                    0 <= a < x && 0 <= b < dims.1 ==> (#[trigger] cells@[a]@[b])@.len() == dims.2,
                forall|a: int, b: int, c: int|
                    0 <= a < x && 0 <= b < dims.1 && 0 <= c < dims.2
                        ==> #[trigger] cells@[a]@[b]@[c] == 0,
            decreases dims.0 - x,
        {
            let mut plane: Vec<Vec<Block>> = Vec::new();
            let mut y: u16 = 0;
            while y < dims.1
                invariant
                    0 <= y <= dims.1,
                    plane.len() == y,
                    forall|b: int| 0 <= b < y ==> (#[trigger] plane@[b])@.len() == dims.2,
                    forall|b: int, c: int|
                        0 <= b < y && 0 <= c < dims.2 ==> #[trigger] plane@[b]@[c] == 0,
                decreases dims.1 - y,
            {
                let mut line: Vec<Block> = Vec::new();
                let mut z: u16 = 0;
                while z < dims.2
                    invariant
                        0 <= z <= dims.2,
                        line.len() == z,
                        forall|c: int| 0 <= c < z ==> #[trigger] line@[c] == 0,
                    decreases dims.2 - z,
                {
                    line.push(0);
                    z = z + 1;
                }
                plane.push(line);
                y = y + 1;
            }
            cells.push(plane);
            x = x + 1;
        }
        ArrayModel { dims, cells }
    }

    /// The block at a coordinate.
    pub fn get(&self, at: (usize, usize, usize)) -> (r: Block)
        requires
            self.wf(),
            at.0 < self.dims.0,
            at.1 < self.dims.1,
            at.2 < self.dims.2,
        ensures
            r == self.spec_get(at.0 as int, at.1 as int, at.2 as int),
    {
        self.cells[at.0][at.1][at.2]
    }

    /// Puts a block at a coordinate.
    pub fn set(&mut self, at: (usize, usize, usize), block: Block)
        requires
            old(self).wf(),
            at.0 < old(self).dims.0,
            at.1 < old(self).dims.1,
            at.2 < old(self).dims.2,
        ensures
            final(self).wf(),
            final(self).dims == old(self).dims,
            forall|x: int, y: int, z: int|
                0 <= x < old(self).dims.0 && 0 <= y < old(self).dims.1 && 0 <= z < old(
                    self,
                ).dims.2 ==> #[trigger] final(self).spec_get(x, y, z) == if x == at.0 && y == at.1
                    && z == at.2 {
                    block
                } else {
                    old(self).spec_get(x, y, z)
                },
    {
        self.cells[at.0][at.1][at.2] = block;
    }
}

/// The nodes of layer `y` in column `x`, as far as their `z` is below `m`.
pub open spec fn column_nodes(a: ArrayModel, x: int, y: int, m: int) -> Seq<(CoordXZ, Block)>
    decreases m,
{
    if m <= 0 {
        Seq::empty()
    } else {
        let prev = column_nodes(a, x, y, m - 1);
        if a.spec_get(x, y, m - 1) != 0 {
            prev.push(((x as u16, (m - 1) as u16), a.spec_get(x, y, m - 1)))
        } else {
            prev
        }
    }
}

/// The nodes of layer `y` in the columns below `m`: every cell that is not
/// empty, ordered by `x`, then by `z`.
pub open spec fn layer_nodes(a: ArrayModel, y: int, m: int) -> Seq<(CoordXZ, Block)>
    decreases m,
{
    if m <= 0 {
        Seq::empty()
    } else {
        layer_nodes(a, y, m - 1) + column_nodes(a, m - 1, y, a.dims.2 as int)
    }
}

/// Lists the nodes of a voxel grid, layer by layer from the bottom.
pub fn array_model_to_nodes(array_model: ArrayModel) -> (layers: Vec<Vec<(CoordXZ, Block)>>)
    requires
        array_model.wf(),
    ensures
        layers@.len() == array_model.dims.1,
        forall|y: int|
            0 <= y < array_model.dims.1 ==> (#[trigger] layers@[y])@ == layer_nodes(
                array_model,
                y,
                array_model.dims.0 as int,
            ),
{
    let dims = array_model.dims;
    let mut layer_nodes_all: Vec<Vec<(CoordXZ, Block)>> = Vec::new();
    let mut y: u16 = 0;
    while y < dims.1
        invariant
            0 <= y <= dims.1,
            dims == array_model.dims,
            array_model.wf(),
            layer_nodes_all.len() == y,
            forall|b: int|
                0 <= b < y ==> (#[trigger] layer_nodes_all@[b])@ == layer_nodes(
                    array_model,
                    b,
                    dims.0 as int,
                ),
        decreases dims.1 - y,
    {
        let mut nodes: Vec<(CoordXZ, Block)> = Vec::new();
        let mut x: u16 = 0;
        while x < dims.0
            invariant
                0 <= x <= dims.0,
                0 <= y < dims.1,
                dims == array_model.dims,
                array_model.wf(),
                nodes@ == layer_nodes(array_model, y as int, x as int),
            decreases dims.0 - x,
        {
            let ghost before = nodes@;
            let mut z: u16 = 0;
            while z < dims.2
                invariant
                    0 <= z <= dims.2,
                    0 <= x < dims.0,
                    0 <= y < dims.1,
                    dims == array_model.dims,
                    array_model.wf(),
                    nodes@ == before + column_nodes(array_model, x as int, y as int, z as int),
                decreases dims.2 - z,
            {
                let block = array_model.get((x as usize, y as usize, z as usize));
                if block != 0 {
                    nodes.push(((x, z), block));
                    assert(nodes@ =~= before + column_nodes(
                        array_model,
                        x as int,
                        y as int,
                        z + 1,
                    ));
                }
                z = z + 1;
            }
            x = x + 1;
        }
        layer_nodes_all.push(nodes);
        y = y + 1;
    }
    layer_nodes_all
}

} // verus!
