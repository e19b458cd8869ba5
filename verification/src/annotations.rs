use vstd::prelude::*;

verus! {

/// All annotations of a die, in the older layout that lists nets, cell
/// types, cells and grids.
#[derive(Debug, Clone, PartialEq)]
pub struct Annotations {
    pub version: u32,
    /// Incremented every time the annotations are written; clients compare
    /// it with the revision a notification carries to spot a stale copy.
    pub revision: u32,
    pub nets: Vec<Net>,
    pub cell_types: Vec<CellType>,
    pub cells: Vec<Cell>,
    pub grids: Vec<Grid>,
    pub pins: Vec<()>,
    pub annotations: Vec<()>,
    pub rios: Vec<()>,
    pub ignores: Vec<()>,
    /// Cell-placement guides.
    pub guides: Vec<()>,
}

#[derive(Debug, Clone, PartialEq)]
pub struct Net {
    pub id: u128,
    pub name: String,
    pub node: Vec<NetNode>,
    pub edges: Vec<NetEdge>,
}

#[derive(Debug, Clone, Copy, PartialEq, Eq, Structural)]
pub struct NetNode {
    pub id: u128,
    pub x: u32,
    pub y: u32,
}

#[derive(Debug, Clone, Copy, PartialEq, Eq, Structural)]
pub struct NetEdge {
    pub id: u128,
    pub from: u128,
    pub to: u128,
    /// `None` when the layer is unknown; stamped per segment when drawn and
    /// editable later.
    pub layer: Option<WireLayer>,
}

#[derive(Debug, Clone, Copy, PartialEq, Eq, Structural)]
pub enum WireLayer {
    Poly,
    Metal1,
    Metal2,
}

#[derive(Debug, Clone, PartialEq)]
pub struct CellType {
    pub id: u128,
    pub name: String,
    pub crop_rect: Rect,
    pub layers: Option<()>,
    /// `Some(true)` once promoted to a confirmed type with the merge-cells
    /// tool; otherwise an automatically created placeholder.
    pub matched: Option<bool>,
}

#[derive(Debug, Clone, Copy, PartialEq, Eq, Structural)]
pub struct Cell {
    pub id: u128,
    pub cell_type_id: u128,
    pub x: u32,
    pub y: u32,
    /// Vertical mirror.
    pub flipped_vertical: Option<bool>,
    /// Horizontal mirror, applied for display and machine-learning export.
    pub flipped_horizontal: Option<bool>,
    /// Orientation in degrees clockwise.
    pub rotation: u32,
    /// Set once the instance is classified and confirmed.
    pub merged: Option<bool>,
}

#[derive(Debug, Clone, Copy, PartialEq, Eq, Structural)]
pub struct Rect {}

#[derive(Debug, Clone, PartialEq)]
pub struct Grid {
    pub id: u128,
    pub name: String,
    pub columns: Vec<GridColumn>,
    pub row_height: u32,
    pub column_offsets: Vec<u32>,
}

#[derive(Debug, Clone, Copy, PartialEq, Eq, Structural)]
pub struct GridColumn {
    pub x: u32,
    pub width: u32,
}

impl Default for Annotations {
    /// Format version 2 at revision 0, with nothing in it.
    fn default() -> (r: Self)
        ensures
            r.version == 2,
            r.revision == 0,
            r.nets@.len() == 0,
            r.cell_types@.len() == 0,
            r.cells@.len() == 0,
            r.grids@.len() == 0,
            r.pins@.len() == 0,
            r.annotations@.len() == 0,
            r.rios@.len() == 0,
            r.ignores@.len() == 0,
            r.guides@.len() == 0,
    {
        Annotations {
            version: 2,
            revision: 0,
            nets: Vec::new(),
            cell_types: Vec::new(),
            cells: Vec::new(),
            grids: Vec::new(),
            annotations: Vec::new(),
            guides: Vec::new(),
            ignores: Vec::new(),
            pins: Vec::new(),
            rios: Vec::new(),
        }
    }
}

} // verus!
