use prototurtle_rs::scripts::model_builder::clustering::{
    array_model_to_nodes, centroids_to_groupings, closest_cluster, k_means, k_means_from, k_means_round,
    model_fits, weight_grid, ArrayModel,
};
use prototurtle_rs::scripts::model_builder::generation::{
    join_paths_greedily, layer_path, manhatten_turtle, mst_to_paths, nodes_to_mst, Block, CoordXZ,
};
use prototurtle_rs::scripts::model_builder::export::CoordsExport;
use prototurtle_rs::sorting::sort_indices;

fn grid3() -> Vec<(CoordXZ, Block)> {
    let mut nodes = vec![];
    for x in 0..3 {
        for z in 0..3 {
            nodes.push(((x, z), 1));
        }
    }
    nodes
}

fn reachable(adj: &Vec<Vec<usize>>, root: usize) -> Vec<bool> {
    let mut seen = vec![false; adj.len()];
    let mut stack = vec![root];
    while let Some(n) = stack.pop() {
        if !seen[n] {
            seen[n] = true;
            for c in &adj[n] {
                stack.push(*c);
            }
        }
    }
    seen
}

#[test]
fn turtle_distance() {
    assert_eq!(manhatten_turtle((0, 0), (0, 0)), 0);
    assert_eq!(manhatten_turtle((0, 0), (3, 0)), 3);
    assert_eq!(manhatten_turtle((0, 5), (0, 1)), 4);
    assert_eq!(manhatten_turtle((1, 1), (2, 2)), 3);
    assert_eq!(manhatten_turtle((6, 5), (0, 0)), 12);
    assert_eq!(manhatten_turtle((0, 0), (65535, 65535)), 131071);
}

#[test]
fn mst_on_a_3x3_grid() {
    let nodes = grid3();
    let mst = nodes_to_mst(&nodes);
    assert_eq!(mst.len(), 9);
    let mut edges = 0;
    let mut cost = 0;
    for (a, children) in mst.iter().enumerate() {
        for b in children {
            edges += 1;
            cost += manhatten_turtle(nodes[a].0, nodes[*b].0);
            assert!(a < *b);
        }
    }
    assert_eq!(edges, 8);
    assert_eq!(cost, 8);
    assert!(reachable(&mst, 0).iter().all(|r| *r));
    assert_eq!(
        mst,
        vec![vec![1, 3], vec![2, 4], vec![5], vec![6], vec![7], vec![8], vec![], vec![], vec![]]
    );
}

#[test]
fn mst_of_one_node_is_empty() {
    let nodes = vec![((4, 4), 1)];
    let mst = nodes_to_mst(&nodes);
    assert_eq!(mst, vec![Vec::<usize>::new()]);
    let paths = mst_to_paths(mst);
    assert_eq!(paths, vec![vec![0]]);
    assert_eq!(join_paths_greedily((0, 0), paths, &nodes), vec![0]);
    assert_eq!(layer_path((9, 9), &nodes), Some(vec![0]));
}

#[test]
fn mst_of_no_node() {
    let nodes: Vec<(CoordXZ, Block)> = vec![];
    assert!(nodes_to_mst(&nodes).is_empty());
    assert!(mst_to_paths(vec![]).is_empty());
    assert_eq!(layer_path((0, 0), &nodes), Some(vec![]));
}

#[test]
fn mst_takes_cheap_edges_first() {
    // 0 and 2 are neighbours on an axis; 1 is a diagonal step away from both.
    let nodes = vec![((0, 0), 1), ((1, 1), 1), ((0, 1), 1)];
    assert_eq!(nodes_to_mst(&nodes), vec![vec![2], vec![2], vec![]]);
}

#[test]
fn paths_of_the_3x3_grid() {
    let paths = mst_to_paths(nodes_to_mst(&grid3()));
    // The walk from node 0 sees 0, 3, 6 and stalls, then 1, 4, 7, then 2, 5, 8.
    assert_eq!(paths, vec![vec![0, 3, 6], vec![1, 4, 7], vec![2, 5, 8]]);
}

#[test]
fn paths_keep_unreached_nodes() {
    // Node 1 has the most children, so the walk starts there and never sees node 0.
    let adj = vec![vec![1], vec![2, 3], vec![], vec![]];
    let paths = mst_to_paths(adj);
    assert_eq!(paths, vec![vec![0, 1, 3], vec![2]]);
    let mut all: Vec<usize> = paths.concat();
    all.sort();
    assert_eq!(all, vec![0, 1, 2, 3]);
}

#[test]
fn greedy_stitch_of_two_paths() {
    let nodes = vec![((0, 0), 1), ((1, 0), 1), ((2, 0), 1), ((5, 5), 1), ((6, 5), 1)];
    let paths = vec![vec![0, 1, 2], vec![3, 4]];
    assert_eq!(join_paths_greedily((0, 0), paths.clone(), &nodes), vec![0, 1, 2, 3, 4]);
    // From (6, 5) the back of the second path is nearest; from its front, (5, 5), the back of
    // the first path, (2, 0), is nearer than its front, (0, 0).
    assert_eq!(join_paths_greedily((6, 5), paths, &nodes), vec![4, 3, 2, 1, 0]);
}

#[test]
fn greedy_stitch_prefers_the_front_on_a_tie() {
    let nodes = vec![((0, 0), 1), ((2, 0), 1)];
    assert_eq!(join_paths_greedily((1, 0), vec![vec![0, 1]], &nodes), vec![0, 1]);
    assert_eq!(join_paths_greedily((1, 0), vec![vec![1], vec![0]], &nodes), vec![1, 0]);
}

#[test]
fn layer_path_visits_every_node_once() {
    let mut nodes = vec![];
    for i in 0..40u16 {
        nodes.push((((i * 7) % 13, (i * 5) % 11), 1));
    }
    for start in [(0, 0), (12, 10), (6, 3)] {
        let mut path = layer_path(start, &nodes).unwrap();
        assert_eq!(path.len(), nodes.len());
        path.sort();
        assert_eq!(path, (0..nodes.len()).collect::<Vec<_>>());
    }
}

#[test]
fn layer_path_of_the_3x3_grid() {
    assert_eq!(layer_path((0, 0), &grid3()), Some(vec![0, 3, 6, 7, 4, 1, 2, 5, 8]));
}

#[test]
fn indices_are_ordered_by_key_and_stay_in_order() {
    assert_eq!(sort_indices(&vec![3, 1, 2, 1, 0, 3]), vec![4, 1, 3, 2, 0, 5]);
    assert_eq!(sort_indices(&vec![]), Vec::<usize>::new());
    assert_eq!(sort_indices(&vec![7, 7, 7]), vec![0, 1, 2]);
}

fn cube() -> Vec<Vec<(CoordXZ, Block)>> {
    vec![grid3(), grid3(), grid3()]
}

#[test]
fn weights_count_nodes_across_layers() {
    let grid = weight_grid(&cube(), (3, 3, 3));
    assert_eq!(grid, vec![vec![3, 3, 3], vec![3, 3, 3], vec![3, 3, 3]]);
    assert!(model_fits(&cube(), (3, 3, 3)));
    assert!(!model_fits(&cube(), (3, 3, 2)));
    assert!(!model_fits(&cube(), (2, 3, 3)));
}

#[test]
fn closest_centre_is_the_first_of_the_nearest() {
    let centres = vec![((0, 0), 0), ((2, 2), 0), ((2, 2), 0)];
    assert_eq!(closest_cluster(&centres, (0, 1)), 0);
    assert_eq!(closest_cluster(&centres, (2, 1)), 1);
    assert_eq!(closest_cluster(&centres, (1, 1)), 0);
    assert_eq!(closest_cluster(&vec![], (1, 1)), 0);
}

#[test]
fn one_round_moves_centres_to_the_weighted_mean() {
    let grid = vec![vec![1, 0, 0], vec![0, 0, 0], vec![0, 2, 4]];
    let mut centres = vec![((0, 0), 0), ((2, 2), 0), ((1, 0), 7)];
    k_means_round(&mut centres, &grid, 3);
    // Centre 0 gathers the cell (0, 0); centre 1 gathers (2, 1) twice and (2, 2) four times:
    // x = 12 / 6, z = 10 / 6.  Centre 2 gathers nothing of weight and stays.
    assert_eq!(centres, vec![((0, 0), 1), ((2, 1), 6), ((1, 0), 7)]);
    let before = centres.clone();
    k_means_round(&mut centres, &grid, 3);
    k_means_round(&mut centres, &grid, 3);
    assert_eq!(centres, before);
}

#[test]
fn k_means_from_given_seeds() {
    let model = cube();
    let centres = k_means_from(&vec![0, 8], &model, (3, 3, 3));
    assert_eq!(centres.len(), 2);
    let total: usize = centres.iter().map(|c| c.1).sum();
    assert_eq!(total, 27);
    let mut again = centres.clone();
    k_means_round(&mut again, &weight_grid(&model, (3, 3, 3)), 3);
    assert_eq!(again, centres);
    assert!(k_means_from(&vec![], &model, (3, 3, 3)).is_empty());
}

#[test]
fn k_means_is_reproducible() {
    let model = cube();
    let a = k_means(&model, (3, 3, 3), 3);
    let b = k_means(&model, (3, 3, 3), 3);
    assert_eq!(a.len(), 3);
    assert_eq!(a, b);
    assert!(k_means(&model, (3, 3, 3), 0).is_empty());
}

#[test]
fn k_means_draws_differ_from_the_first_index() {
    // With one node per draw the centres would all sit on one node if the draws were constant.
    let layer: Vec<(CoordXZ, Block)> = (0..200u16).map(|i| ((i, 0), 1)).collect();
    let model = vec![layer];
    let seeds = k_means(&model, (200, 1, 1), 8);
    assert_eq!(seeds.len(), 8);
    let mut xs: Vec<u16> = seeds.iter().map(|c| c.0 .0).collect();
    xs.dedup();
    assert!(xs.len() > 1);
}

#[test]
fn groupings_share_every_node() {
    let model = cube();
    let centres = vec![((0, 0), 0), ((2, 2), 0)];
    let groups = centroids_to_groupings(model, centres, (3, 3, 3));
    assert_eq!(groups.len(), 2);
    assert_eq!(groups[0].0.len(), 3);
    assert_eq!(groups[0].1 + groups[1].1, 27);
    // Of the nine cells of a layer, six are at least as near to (0, 0) as to (2, 2).
    assert_eq!(groups[0].1, 18);
    assert_eq!(
        groups[1].0[0],
        vec![((1, 2), 1), ((2, 1), 1), ((2, 2), 1)]
    );
}

#[test]
fn voxels_become_nodes_layer_by_layer() {
    let mut model = ArrayModel::new((2, 2, 3));
    model.set((0, 0, 1), 5);
    model.set((1, 0, 0), 6);
    model.set((1, 1, 2), 7);
    assert_eq!(model.get((1, 1, 2)), 7);
    assert_eq!(model.get((0, 1, 2)), 0);
    let layers = array_model_to_nodes(model);
    assert_eq!(layers, vec![vec![((0, 1), 5), ((1, 0), 6)], vec![((1, 2), 7)]]);
}

#[test]
fn groupings_are_written_out() {
    let groupings = vec![
        (vec![vec![((1, 2), 7), ((3, 4), 8)], vec![]], 2),
        (vec![vec![], vec![((5, 6), 9)]], 1),
    ];
    let out = CoordsExport::from_groupings(groupings);
    assert_eq!(out.groupings.len(), 2);
    assert_eq!(out.groupings[0].layers.len(), 2);
    assert_eq!(out.groupings[0].layers[0].y, 0);
    assert_eq!(out.groupings[0].layers[1].y, 1);
    let first: Vec<Vec<u16>> = out.groupings[0].layers[0].blocks.iter().map(|b| b.b.clone()).collect();
    assert_eq!(first, vec![vec![1, 2], vec![3, 4]]);
    assert!(out.groupings[0].layers[1].blocks.is_empty());
    assert!(out.groupings[1].layers[0].blocks.is_empty());
    assert_eq!(out.groupings[1].layers[1].blocks[0].b, vec![5, 6]);
    assert!(CoordsExport::from_groupings(vec![]).groupings.is_empty());
}
