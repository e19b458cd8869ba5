use vstd::prelude::*;

verus! {

/// Machine-learning settings of a die.
#[derive(Debug, Clone, Copy, PartialEq, Eq, Structural)]
pub struct MLConfig {
    /// Via radius in source px; the Gaussian sigma is half of it. Chip-global.
    pub point_via_size: u32,
    /// Default trace stroke width in source px. Chip-global.
    pub trace_width: u32,
}

/// How far the tiling of a die has come.
#[derive(Debug, Clone, Copy, PartialEq, Eq, Structural)]
pub struct DieTileProgress {
    pub total_tiles: u32,
    pub completed_tiles: u32,
    pub percentage: u32,
}

/// The kinds of parameters stored for a die; each is stored under its name.
#[derive(Debug, Clone, Copy, PartialEq, Eq, Structural)]
pub enum DieParamKind {
    Net,
    CellType,
    Cell,
    Grid,
    Pin,
    HumanAnnotation,
    ROI,
    IgnoreRect,
    Guide,
}

/// One level of a die's zoom pyramid, as stored with the die.
#[derive(Debug, Clone, Copy, PartialEq, Eq, Structural)]
pub struct ZoomLevel {
    pub z: u32,
    pub width: u32,
    pub height: u32,
    pub columns: u32,
    pub rows: u32,
    pub scale: u32,
}

impl DieParamKind {
    /// The name a parameter kind is stored under.
    pub open spec fn spec_name(self) -> Seq<char> {
        match self {
            DieParamKind::Net => "net"@,
            DieParamKind::CellType => "cell_type"@,
            DieParamKind::Cell => "cell"@,
            DieParamKind::Grid => "grid"@,
            DieParamKind::Pin => "pin"@,
            DieParamKind::HumanAnnotation => "annotation"@,
            DieParamKind::ROI => "roi"@,
            DieParamKind::IgnoreRect => "ignore"@,
            DieParamKind::Guide => "guide"@,
        }
    }

    /// The name the parameter kind is stored under.
    pub fn as_ref(&self) -> (name: &'static str)
        ensures
            name@ == self.spec_name(),
    {
        match self {
            DieParamKind::Net => "net",
            DieParamKind::CellType => "cell_type",
            DieParamKind::Cell => "cell",
            DieParamKind::Grid => "grid",
            DieParamKind::Pin => "pin",
            DieParamKind::HumanAnnotation => "annotation",
            DieParamKind::ROI => "roi",
            DieParamKind::IgnoreRect => "ignore",
            DieParamKind::Guide => "guide",
        }
    }
}

impl DieParamKind {
    /// Whether a change to a parameter of this kind asks for its image clip
    /// to be cut anew: so it is for cells and cell types.
    pub fn needs_clip(&self) -> (r: bool)
        ensures
            r == (*self == DieParamKind::Cell || *self == DieParamKind::CellType),
    {
        match self {
            DieParamKind::Cell | DieParamKind::CellType => true,
            _ => false,
        }
    }
}

/// Two different parameter kinds are stored under different names, so the
/// stored name tells the kind.
pub proof fn param_kind_names_distinct(a: DieParamKind, b: DieParamKind)
    requires
        a != b,
    ensures
        a.spec_name() != b.spec_name(),
{
    reveal_strlit("net");
    reveal_strlit("cell_type");
    reveal_strlit("cell");
    reveal_strlit("grid");
    reveal_strlit("pin");
    reveal_strlit("annotation");
    reveal_strlit("roi");
    reveal_strlit("ignore");
    reveal_strlit("guide");
    if a.spec_name() == b.spec_name() {
        let n = a.spec_name();
        assert(n.len() == b.spec_name().len());
        assert(n[0] == b.spec_name()[0]);
        if n.len() > 1 {
            assert(n[1] == b.spec_name()[1]);
        }
        if n.len() > 4 {
            assert(n[4] == b.spec_name()[4]);
        }
    }
}

} // verus!
