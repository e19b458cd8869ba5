use vstd::prelude::*;

use crate::die::db::DieParamKind;
use crate::params::domain::{Cell, CellType, Rect};

verus! {

/// The first cell of the given type, if any.
pub open spec fn first_of_type(cells: Seq<Cell>, cell_type_id: u128) -> Option<Cell>
    decreases cells.len(),
{
    if cells.len() == 0 {
        None
    } else if cells[0].cell_type_id == cell_type_id {
        Some(cells[0])
    } else {
        first_of_type(cells.drop_first(), cell_type_id)
    }
}

impl Cell {
    /// The part of the shot to clip for this cell: the crop size of its type
    /// at the cell's position.
    pub fn clip_rect(&self, cell_type: &CellType) -> (r: Rect)
        ensures
            r == (Rect {
                x: self.x,
                y: self.y,
                width: cell_type.crop_rect.width,
                height: cell_type.crop_rect.height,
            }),
    {
        Rect { x: self.x, y: self.y, width: cell_type.crop_rect.width, height: cell_type.crop_rect.height }
    }
}

impl CellType {
    /// Whether the crop rectangle still sits at the origin with a width,
    /// so that its clip is placed over a cell of this type instead.
    pub open spec fn spec_needs_anchor(&self) -> bool {
        self.crop_rect.x == 0 && self.crop_rect.y == 0 && self.crop_rect.width > 0
    }

    /// See `spec_needs_anchor`.
    pub fn needs_anchor(&self) -> (r: bool)
        ensures
            r == self.spec_needs_anchor(),
            r == (self.crop_rect.x == 0 && self.crop_rect.y == 0 && self.crop_rect.width > 0),
    {
        self.crop_rect.x == 0 && self.crop_rect.y == 0 && self.crop_rect.width > 0
    }

    /// The part of the shot to clip for this cell type: its crop rectangle,
    /// moved to the first of `cells` of this type when the rectangle needs
    /// an anchor and there is such a cell.
    pub fn clip_rect(&self, cells: &Vec<Cell>) -> (r: Rect)
        ensures
            self.crop_rect.x != 0 || self.crop_rect.y != 0 || self.crop_rect.width == 0 ==> r
                == self.crop_rect,
            r == (if self.spec_needs_anchor() {
                match first_of_type(cells@, self.id) {
                    Some(c) => Rect { x: c.x, y: c.y, ..self.crop_rect },
                    None => self.crop_rect,
                }
            } else {
                self.crop_rect
            }),
    {
        let mut rect = self.crop_rect;
        if self.needs_anchor() {
            let mut i: usize = 0;
            proof {
                assert(cells@.skip(0) =~= cells@);
            }
            while i < cells.len()
                invariant
                    i <= cells@.len(),
                    first_of_type(cells@, self.id) == first_of_type(cells@.skip(i as int), self.id),
                    rect == self.crop_rect,
                    self.spec_needs_anchor(),
                decreases cells@.len() - i,
            {
                proof {
                    assert(cells@.skip(i as int).drop_first() =~= cells@.skip(i + 1));
                    assert(cells@.skip(i as int)[0] == cells@[i as int]);
                }
                if cells[i].cell_type_id == self.id {
                    proof {
                        assert(first_of_type(cells@.skip(i as int), self.id) == Some(cells@[i as int]));
                    }
                    rect.x = cells[i].x;
                    rect.y = cells[i].y;
                    return rect;
                }
                i = i + 1;
            }
            proof {
                assert(cells@.skip(i as int).len() == 0);
            }
        }
        rect
    }
}

/// Why the clip of a parameter cannot be cut.
#[derive(Debug, Clone, Copy, PartialEq, Eq, Structural)]
pub enum ClipError {
    /// The cell's type is not stored.
    NoCellType,
    /// The owner is neither a stored cell nor a stored cell type.
    ParameterNotFound,
}

impl ClipError {
    /// `no type for cell` or `Parameter not found`.
    pub fn message(&self) -> (m: &'static str)
        ensures
            m@ == (match self {
                ClipError::NoCellType => "no type for cell"@,
                ClipError::ParameterNotFound => "Parameter not found"@,
            }),
    {
        match self {
            ClipError::NoCellType => "no type for cell",
            ClipError::ParameterNotFound => "Parameter not found",
        }
    }
}

/// What `clip_for` gives; see there.
pub open spec fn clip_for_spec(
    cell: Option<Cell>,
    cell_type: Option<CellType>,
    cells: Seq<Cell>,
) -> Result<(Rect, DieParamKind), ClipError> {
    match (cell, cell_type) {
        (Some(c), Some(t)) => Ok((
            Rect { x: c.x, y: c.y, width: t.crop_rect.width, height: t.crop_rect.height },
            DieParamKind::Cell,
        )),
        (Some(_), None) => Err(ClipError::NoCellType),
        (None, Some(t)) => Ok((
            if t.spec_needs_anchor() {
                match first_of_type(cells, t.id) {
                    Some(c) => Rect { x: c.x, y: c.y, ..t.crop_rect },
                    None => t.crop_rect,
                }
            } else {
                t.crop_rect
            },
            DieParamKind::CellType,
        )),
        (None, None) => Err(ClipError::ParameterNotFound),
    }
}

/// What to clip for the owner of a clip job, and under which kind the clip
/// is stored. `cell` is the stored cell with the owner's id, if any;
/// `cell_type` is then the stored type of that cell, and otherwise the
/// stored cell type with the owner's id; `cells` are the die's cells (only
/// read when a cell type's crop needs an anchor). A cell is clipped at its
/// place with its type's crop size, a cell type by `CellType::clip_rect`.
pub fn clip_for(
    cell: Option<Cell>,
    cell_type: Option<CellType>,
    cells: &Vec<Cell>,
) -> (r: Result<(Rect, DieParamKind), ClipError>)
    ensures
        r == clip_for_spec(cell, cell_type, cells@),
{
    match cell {
        Some(c) => match cell_type {
            Some(t) => Ok((c.clip_rect(&t), DieParamKind::Cell)),
            None => Err(ClipError::NoCellType),
        },
        None => match cell_type {
            Some(t) => Ok((t.clip_rect(cells), DieParamKind::CellType)),
            None => Err(ClipError::ParameterNotFound),
        },
    }
}

/// The first cell of a type is a cell of that type among the given ones,
/// and no cell before it has that type; there is none exactly when no cell
/// has the type.
pub proof fn first_of_type_is_the_earliest(cells: Seq<Cell>, cell_type_id: u128)
    ensures
        match first_of_type(cells, cell_type_id) {
            Some(c) => exists|i: int|
                0 <= i < cells.len() && cells[i] == c && c.cell_type_id == cell_type_id && forall|j: int|
                    0 <= j < i ==> (#[trigger] cells[j]).cell_type_id != cell_type_id,
            None => forall|j: int| 0 <= j < cells.len() ==> (#[trigger] cells[j]).cell_type_id != cell_type_id,
        },
    decreases cells.len(),
{
    if cells.len() > 0 {
        let rest = cells.drop_first();
        first_of_type_is_the_earliest(rest, cell_type_id);
        if cells[0].cell_type_id != cell_type_id {
            match first_of_type(rest, cell_type_id) {
                Some(c) => {
                    let i = choose|i: int|
                        0 <= i < rest.len() && rest[i] == c && c.cell_type_id == cell_type_id && forall|j: int|
                            0 <= j < i ==> (#[trigger] rest[j]).cell_type_id != cell_type_id;
                    assert(cells[i + 1] == c);
                    assert forall|j: int| 0 <= j < i + 1 implies (#[trigger] cells[j]).cell_type_id
                        != cell_type_id by {
                        if j > 0 {
                            assert(cells[j] == rest[j - 1]);
                        }
                    }
                },
                None => {
                    assert forall|j: int| 0 <= j < cells.len() implies (#[trigger] cells[j]).cell_type_id
                        != cell_type_id by {
                        if j > 0 {
                            assert(cells[j] == rest[j - 1]);
                        }
                    }
                },
            }
        }
    }
}

/// The clip of a cell type is its crop rectangle as it is, unless the
/// rectangle sits at the origin `(0, 0)` with a width; only then is it moved
/// onto the first cell of the type, keeping its size, when there is one.
/// The clip of a cell is at the cell's place with its type's crop size.
pub proof fn clips_are_anchored_only_at_the_origin(
    cell: Option<Cell>,
    cell_type: Option<CellType>,
    cells: Seq<Cell>,
    t: CellType,
)
    ensures
        ({
            let at_origin = t.crop_rect.x == 0 && t.crop_rect.y == 0 && t.crop_rect.width > 0;
            let r = clip_for_spec(None, Some(t), cells);
            &&& !at_origin ==> r == Ok::<(Rect, DieParamKind), ClipError>((t.crop_rect, DieParamKind::CellType))
            &&& at_origin ==> match first_of_type(cells, t.id) {
                Some(c) => r == Ok::<(Rect, DieParamKind), ClipError>((
                    Rect { x: c.x, y: c.y, width: t.crop_rect.width, height: t.crop_rect.height },
                    DieParamKind::CellType,
                )),
                None => r == Ok::<(Rect, DieParamKind), ClipError>((t.crop_rect, DieParamKind::CellType)),
            }
        }),
        (cell is Some && cell_type is Some) ==> clip_for_spec(cell, cell_type, cells) == Ok::<
            (Rect, DieParamKind),
            ClipError,
        >((
            Rect {
                x: cell->0.x,
                y: cell->0.y,
                width: cell_type->0.crop_rect.width,
                height: cell_type->0.crop_rect.height,
            },
            DieParamKind::Cell,
        )),
{
}

} // verus!
