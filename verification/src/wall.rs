use vstd::prelude::*;
use crate::level_data::{find_layer, AuthoringError, LayerInstance};
use crate::walls::{merged_ok, spawn_wall_collision, walls_in_bounds, GridCoords, Rect};

verus! {

/// Marker component for one wall cell of the collision grid.
#[derive(Debug, Clone, Copy, PartialEq, Eq, Structural)]
pub struct Wall;

/// Marker for the wall-merging subsystem in the variant of the game whose
/// collision layer is named "Walls".
pub struct WallPlugin;

impl WallPlugin {
    /// The wall pass for a freshly imported level: find the layer named
    /// "Walls", merge the wall cells reported for it, and hand back the
    /// merged rectangles with the layer's cell size. A level without that
    /// layer is a fatal authoring error.
    pub fn step(layers: &Vec<LayerInstance>, walls: &Vec<GridCoords>) -> (r: Result<
        (i32, Vec<Rect>),
        AuthoringError,
    >)
        requires
            forall|i: int|
                (0 <= i < layers@.len() && (#[trigger] layers@[i]).identifier@ == "Walls"@ && (
                forall|j: int| 0 <= j < i ==> (#[trigger] layers@[j]).identifier@ != "Walls"@))
                    ==> (0 <= layers@[i].c_wid < i32::MAX && 0 <= layers@[i].c_hei < i32::MAX
                    && walls_in_bounds(walls@, layers@[i].c_wid as int, layers@[i].c_hei as int)),
        ensures
            match r {
                Ok(res) => exists|i: int|
                    {
                        &&& 0 <= i < layers@.len()
                        &&& (#[trigger] layers@[i]).identifier@ == "Walls"@
                        &&& forall|j: int|
                            0 <= j < i ==> (#[trigger] layers@[j]).identifier@ != "Walls"@
                        &&& res.0 == layers@[i].grid_size
                        &&& merged_ok(
                            res.1@,
                            walls@,
                            layers@[i].c_wid as int,
                            layers@[i].c_hei as int,
                        )
                    },
                Err(e) => e == AuthoringError::MissingLayer && forall|i: int|
                    0 <= i < layers@.len() ==> (#[trigger] layers@[i]).identifier@ != "Walls"@,
            },
    {
        let name = "Walls".to_string();
        match find_layer(layers, &name) {
            None => Err(AuthoringError::MissingLayer),
            Some(i) => {
                let width = layers[i].c_wid;
                let height = layers[i].c_hei;
                let rects = spawn_wall_collision(walls, width, height);
                Ok((layers[i].grid_size, rects))
            },
        }
    }
}

} // verus!
