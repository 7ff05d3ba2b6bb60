//! The groupings of a model in the shape in which they are written out for
//! display.

use vstd::prelude::*;
use crate::scripts::model_builder::generation::{rows, Block, CoordXZ};

verus! {

/// One block: its `x` and its `z`.
#[derive(Debug)]
pub struct B {
    pub b: Vec<u16>,
}

/// The blocks of one layer, with the number of the layer.
#[derive(Debug)]
pub struct Layer {
    pub y: usize,
    pub blocks: Vec<B>,
}

/// The layers of the group of one turtle.
#[derive(Debug)]
pub struct Grouping {
    pub layers: Vec<Layer>,
}

/// The groups of all turtles.
#[derive(Debug)]
pub struct CoordsExport {
    pub groupings: Vec<Grouping>,
}

/// The layer is the given one, written out: it bears the number `y` and holds
/// the coordinates of the nodes, in their order.
pub open spec fn layer_is(l: Layer, y: int, nodes: Seq<(CoordXZ, Block)>) -> bool {
    &&& l.y == y
    &&& l.blocks@.len() == nodes.len()
    &&& forall|k: int|
        0 <= k < nodes.len() ==> (#[trigger] l.blocks@[k]).b@ == seq![nodes[k].0.0, nodes[k].0.1]
}

/// The group is the given one, written out, layer by layer.
pub open spec fn grouping_is(g: Grouping, layers: Seq<Seq<(CoordXZ, Block)>>) -> bool {
    &&& g.layers@.len() == layers.len()
    &&& forall|y: int| 0 <= y < layers.len() ==> layer_is(#[trigger] g.layers@[y], y, layers[y])
}

impl CoordsExport {
    /// Writes groupings out: every node becomes its two coordinates, every
    /// layer gets its number, and the counts are left out.
    pub fn from_groupings(groupings: Vec<(Vec<Vec<(CoordXZ, Block)>>, usize)>) -> (r: Self)
        ensures
            r.groupings@.len() == groupings@.len(),
            forall|g: int|
                0 <= g < groupings@.len() ==> grouping_is(
                    #[trigger] r.groupings@[g],
                    rows(groupings@[g].0@),
                ),
    {
        let mut groupings_export: Vec<Grouping> = Vec::new();
        let mut g: usize = 0;
        while g < groupings.len()
            invariant
                0 <= g <= groupings.len(),
                groupings_export.len() == g,
                forall|i: int|
                    0 <= i < g ==> grouping_is(
                        #[trigger] groupings_export@[i],
                        rows(groupings@[i].0@),
                    ),
            decreases groupings.len() - g,
        {
            let grouping = &groupings[g].0;
            let mut layers: Vec<Layer> = Vec::new();
            let mut y: usize = 0;
            while y < grouping.len()
                invariant
                    0 <= y <= grouping.len(),
                    layers.len() == y,
                    forall|i: int|
                        0 <= i < y ==> layer_is(#[trigger] layers@[i], i, rows(grouping@)[i]),
                decreases grouping.len() - y,
            {
                let layer = &grouping[y];
                let mut blocks: Vec<B> = Vec::new();
                let mut k: usize = 0;
                while k < layer.len()
                    invariant
                        0 <= k <= layer.len(),
                        blocks.len() == k,
                        forall|i: int|
                            0 <= i < k ==> (#[trigger] blocks@[i]).b@ == seq![
                                layer@[i].0.0,
                                layer@[i].0.1,
                            ],
                    decreases layer.len() - k,
                {
                    let point = layer[k].0;
                    let mut b: Vec<u16> = Vec::new();
                    b.push(point.0);
                    b.push(point.1);
                    assert(b@ =~= seq![point.0, point.1]);
                    blocks.push(B { b });
                    k = k + 1;
                }
                layers.push(Layer { y, blocks });
                y = y + 1;
            }
            groupings_export.push(Grouping { layers });
            g = g + 1;
        }
        CoordsExport { groupings: groupings_export }
    }
}

} // verus!
