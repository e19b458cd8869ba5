use vstd::prelude::*;
use vstd::std_specs::convert::{FromSpec, FromSpecImpl};
use vstd::string::StringExecFns;

use crate::params::domain::{
    Cell, CellRotation, CellType, Guide, GuideKind, GuideKindLineAxis, HumanAnnotation,
    HumanAnnotationClass, HumanAnnotationShape, HumanAnnotationSource, IgnoreRect, LayerKind,
    LayerShape, Net, NetEdge, NetNode, Pin, ROI, Rect, Shape, ShapeLabel,
};

verus! {

/// The answer to a change of a die's parameters: the revision the
/// annotations reached, or why the change failed.
#[derive(Debug, Clone, PartialEq)]
pub enum ParamChangeResponse {
    Changed { ok: bool, new_revision: u32 },
    Failed { error: String },
}

/// A cell instance as the editor sends and receives it.
#[derive(Debug, Clone, Copy, PartialEq, Eq, Structural)]
pub struct CellInstanceRequest {
    pub id: u128,
    pub cell_type_id: u128,
    pub x: u32,
    pub y: u32,
}

/// A new cell from the editor is neither flipped, rotated nor merged.
impl From<(u128, CellInstanceRequest)> for Cell {
    fn from(value: (u128, CellInstanceRequest)) -> (r: Self) {
        Cell {
            id: value.1.id,
            cell_type_id: value.1.cell_type_id,
            x: value.1.x,
            y: value.1.y,
            flipped_vertical: false,
            flipped_horizontal: false,
            rotation: CellRotation::Rot0,
            merged: false,
        }
    }
}

impl FromSpecImpl<(u128, CellInstanceRequest)> for Cell {
    open spec fn obeys_from_spec() -> bool {
        true
    }

    open spec fn from_spec(value: (u128, CellInstanceRequest)) -> Self {
        Cell {
            id: value.1.id,
            cell_type_id: value.1.cell_type_id,
            x: value.1.x,
            y: value.1.y,
            flipped_vertical: false,
            flipped_horizontal: false,
            rotation: CellRotation::Rot0,
            merged: false,
        }
    }
}

impl From<Cell> for CellInstanceRequest {
    fn from(value: Cell) -> (r: Self) {
        CellInstanceRequest { id: value.id, cell_type_id: value.cell_type_id, x: value.x, y: value.y }
    }
}

impl FromSpecImpl<Cell> for CellInstanceRequest {
    open spec fn obeys_from_spec() -> bool {
        true
    }

    open spec fn from_spec(value: Cell) -> Self {
        CellInstanceRequest { id: value.id, cell_type_id: value.cell_type_id, x: value.x, y: value.y }
    }
}

/// A shape of a cell type as the editor sends and receives it: a `kind`
/// name and the fields that kind uses.
#[derive(Debug, Clone, PartialEq)]
pub struct CellTypeLayerShape {
    pub id: u128,
    pub kind: String,
    pub x: Option<u32>,
    pub y: Option<u32>,
    pub width: Option<u32>,
    pub height: Option<u32>,
    pub label: Option<ShapeLabel>,
}

/// A field that a rectangle shape from the editor lacks.
#[derive(Debug, Clone, Copy, PartialEq, Eq, Structural)]
pub enum MissingShapeField {
    X,
    Y,
    Width,
    Height,
}

impl MissingShapeField {
    /// `no x`, `no y`, `no width` or `no height`.
    pub fn message(&self) -> (m: &'static str)
        ensures
            m@ == (match self {
                MissingShapeField::X => "no x"@,
                MissingShapeField::Y => "no y"@,
                MissingShapeField::Width => "no width"@,
                MissingShapeField::Height => "no height"@,
            }),
    {
        match self {
            MissingShapeField::X => "no x",
            MissingShapeField::Y => "no y",
            MissingShapeField::Width => "no width",
            MissingShapeField::Height => "no height",
        }
    }
}

/// The first field, in the order x, y, width, height, that a rectangle
/// from the editor lacks.
pub open spec fn missing_field(v: CellTypeLayerShape) -> Option<MissingShapeField> {
    if v.x is None {
        Some(MissingShapeField::X)
    } else if v.y is None {
        Some(MissingShapeField::Y)
    } else if v.width is None {
        Some(MissingShapeField::Width)
    } else if v.height is None {
        Some(MissingShapeField::Height)
    } else {
        None
    }
}

/// The stored form of a complete rectangle from the editor: no forced
/// diffusion type, no custom name.
pub open spec fn request_to_shape(v: CellTypeLayerShape) -> LayerShape {
    LayerShape {
        id: v.id,
        shape: Shape::Rect {
            x: v.x->0,
            y: v.y->0,
            width: v.width->0,
            height: v.height->0,
        },
        label: v.label,
        forced_type: None,
        custom_name: None,
    }
}

impl CellTypeLayerShape {
    /// The editor's form of a shape, which must be a rectangle: kind `rect`
    /// with all four fields set. (Other shapes have no form yet.)
    pub fn from(v: LayerShape) -> (r: Self)
        requires
            v.shape is Rect,
        ensures
            r.id == v.id,
            r.kind@ == "rect"@,
            r.x == Some(v.shape->Rect_x),
            r.y == Some(v.shape->Rect_y),
            r.width == Some(v.shape->Rect_width),
            r.height == Some(v.shape->Rect_height),
            r.label == v.label,
    {
        match v.shape {
            Shape::Rect { x, y, width, height } => CellTypeLayerShape {
                id: v.id,
                kind: String::from_str("rect"),
                x: Some(x),
                y: Some(y),
                width: Some(width),
                height: Some(height),
                label: v.label,
            },
            _ => {
                proof {
                    assert(false);
                }
                CellTypeLayerShape {
                    id: v.id,
                    kind: String::new(),
                    x: None,
                    y: None,
                    width: None,
                    height: None,
                    label: None,
                }
            },
        }
    }
}

impl LayerShape {
    /// The stored form of a shape from the editor, which must be of kind
    /// `rect` (other kinds have no stored form yet). Fails on the first of
    /// x, y, width, height that is missing.
    pub fn try_from(value: CellTypeLayerShape) -> (r: Result<LayerShape, MissingShapeField>)
        requires
            value.kind@ == "rect"@,
        ensures
            match missing_field(value) {
                Some(f) => r == Err::<LayerShape, MissingShapeField>(f),
                None => r == Ok::<LayerShape, MissingShapeField>(request_to_shape(value)),
            },
    {
        let x = match value.x {
            Some(x) => x,
            None => return Err(MissingShapeField::X),
        };
        let y = match value.y {
            Some(y) => y,
            None => return Err(MissingShapeField::Y),
        };
        let width = match value.width {
            Some(w) => w,
            None => return Err(MissingShapeField::Width),
        };
        let height = match value.height {
            Some(h) => h,
            None => return Err(MissingShapeField::Height),
        };
        Ok(LayerShape {
            id: value.id,
            shape: Shape::Rect { x, y, width, height },
            label: value.label,
            forced_type: None,
            custom_name: None,
        })
    }
}

/// `r` is the editor's form of the rectangle `v`.
pub open spec fn is_request_of(r: CellTypeLayerShape, v: LayerShape) -> bool {
    &&& v.shape is Rect
    &&& r.id == v.id
    &&& r.kind@ == "rect"@
    &&& r.x == Some(v.shape->Rect_x)
    &&& r.y == Some(v.shape->Rect_y)
    &&& r.width == Some(v.shape->Rect_width)
    &&& r.height == Some(v.shape->Rect_height)
    &&& r.label == v.label
}

/// A cell type as the editor sends and receives it.
#[derive(Debug, Clone, PartialEq)]
pub struct CellTypeRequest {
    pub id: u128,
    pub name: String,
    pub crop_rect: Rect,
    pub layers: Vec<(LayerKind, Vec<CellTypeLayerShape>)>,
}

/// Every shape on every layer is a rectangle.
pub open spec fn all_rects(layers: Seq<(LayerKind, Vec<LayerShape>)>) -> bool {
    forall|i: int, j: int|
        0 <= i < layers.len() && 0 <= j < layers[i].1@.len() ==> (#[trigger] layers[i].1@[j]).shape is Rect
}

/// Every shape from the editor on every layer is of kind `rect`.
pub open spec fn all_rect_requests(layers: Seq<(LayerKind, Vec<CellTypeLayerShape>)>) -> bool {
    forall|i: int, j: int|
        0 <= i < layers.len() && 0 <= j < layers[i].1@.len() ==> (#[trigger] layers[i].1@[j]).kind@
            == "rect"@
}

/// The shapes of all layers, layer after layer.
pub open spec fn flat_shapes(layers: Seq<(LayerKind, Vec<CellTypeLayerShape>)>) -> Seq<CellTypeLayerShape>
    decreases layers.len(),
{
    if layers.len() == 0 {
        Seq::empty()
    } else {
        flat_shapes(layers.drop_last()) + layers.last().1@
    }
}

/// The missing field of the first shape that lacks one.
pub open spec fn first_missing(shapes: Seq<CellTypeLayerShape>) -> Option<MissingShapeField>
    decreases shapes.len(),
{
    if shapes.len() == 0 {
        None
    } else {
        match first_missing(shapes.drop_last()) {
            Some(f) => Some(f),
            None => missing_field(shapes.last()),
        }
    }
}

proof fn lemma_flat_shapes_add(
    a: Seq<(LayerKind, Vec<CellTypeLayerShape>)>,
    b: Seq<(LayerKind, Vec<CellTypeLayerShape>)>,
)
    ensures
        flat_shapes(a + b) == flat_shapes(a) + flat_shapes(b),
    decreases b.len(),
{
    if b.len() == 0 {
        assert(a + b =~= a);
        assert(flat_shapes(a) + flat_shapes(b) =~= flat_shapes(a));
    } else {
        assert((a + b).drop_last() =~= a + b.drop_last());
        lemma_flat_shapes_add(a, b.drop_last());
        assert(flat_shapes(a + b) =~= flat_shapes(a) + flat_shapes(b));
    }
}

proof fn lemma_first_missing_add(a: Seq<CellTypeLayerShape>, b: Seq<CellTypeLayerShape>)
    ensures
        first_missing(a + b) == (if first_missing(a) is Some {
            first_missing(a)
        } else {
            first_missing(b)
        }),
    decreases b.len(),
{
    if b.len() == 0 {
        assert(a + b =~= a);
    } else {
        assert((a + b).drop_last() =~= a + b.drop_last());
        lemma_first_missing_add(a, b.drop_last());
    }
}

/// `r` is the editor's form of the cell type `v`: the same id, name and crop
/// rectangle, the same layers in the same order, each shape in its editor
/// form.
pub open spec fn is_cell_type_request_of(r: CellTypeRequest, v: CellType) -> bool {
    &&& r.id == v.id
    &&& r.name@ == v.name@
    &&& r.crop_rect == v.crop_rect
    &&& r.layers@.len() == v.layers@.len()
    &&& forall|i: int|
        0 <= i < v.layers@.len() ==> {
            &&& (#[trigger] r.layers@[i]).0 == v.layers@[i].0
            &&& r.layers@[i].1@.len() == v.layers@[i].1@.len()
            &&& forall|j: int|
                0 <= j < v.layers@[i].1@.len() ==> is_request_of(
                    #[trigger] r.layers@[i].1@[j],
                    v.layers@[i].1@[j],
                )
        }
}

impl CellTypeRequest {
    /// The editor's form of a cell type whose shapes are all rectangles: the
    /// same layers in the same order, each shape in its editor form.
    pub fn from(v: CellType) -> (r: Self)
        requires
            all_rects(v.layers@),
        ensures
            is_cell_type_request_of(r, v),
    {
        let CellType { id, name, crop_rect, layers: mut rest, matched: _ } = v;
        let ghost orig = rest@;
        let n = rest.len();
        let mut out: Vec<(LayerKind, Vec<CellTypeLayerShape>)> = Vec::new();
        let mut i: usize = 0;
        while rest.len() > 0
            invariant
                n == orig.len(),
                i <= n,
                rest@.len() == n - i,
                rest@ == orig.skip(i as int),
                all_rects(orig),
                out@.len() == i,
                forall|a: int|
                    0 <= a < i ==> {
                        &&& (#[trigger] out@[a]).0 == orig[a].0
                        &&& out@[a].1@.len() == orig[a].1@.len()
                        &&& forall|j: int|
                            0 <= j < orig[a].1@.len() ==> is_request_of(
                                #[trigger] out@[a].1@[j],
                                orig[a].1@[j],
                            )
                    },
            decreases rest@.len(),
        {
            let (kind, mut shapes) = rest.remove(0);
            proof {
                assert(orig.skip(i + 1) =~= orig.skip(i as int).remove(0));
            }
            let ghost src = shapes@;
            let m = shapes.len();
            let mut converted: Vec<CellTypeLayerShape> = Vec::new();
            let mut j: usize = 0;
            while shapes.len() > 0
                invariant
                    src == orig[i as int].1@,
                    i < n,
                    n == orig.len(),
                    all_rects(orig),
                    m == src.len(),
                    j <= m,
                    shapes@.len() == m - j,
                    shapes@ == src.skip(j as int),
                    converted@.len() == j,
                    forall|b: int| 0 <= b < j ==> is_request_of(#[trigger] converted@[b], src[b]),
                decreases shapes@.len(),
            {
                let s = shapes.remove(0);
                proof {
                    assert(src[j as int] == s);
                    assert(s.shape is Rect);
                    assert(src.skip(j + 1) =~= src.skip(j as int).remove(0));
                }
                converted.push(CellTypeLayerShape::from(s));
                j = j + 1;
            }
            out.push((kind, converted));
            i = i + 1;
        }
        CellTypeRequest { id, name, crop_rect, layers: out }
    }
}

/// The stored form of the editor's layers: the same layers in the same
/// order, each shape in its stored form.
pub open spec fn layers_stored_as(
    stored: Seq<(LayerKind, Vec<LayerShape>)>,
    sent: Seq<(LayerKind, Vec<CellTypeLayerShape>)>,
) -> bool {
    &&& stored.len() == sent.len()
    &&& forall|i: int|
        0 <= i < sent.len() ==> {
            &&& (#[trigger] stored[i]).0 == sent[i].0
            &&& stored[i].1@ == sent[i].1@.map_values(|s: CellTypeLayerShape| request_to_shape(s))
        }
}

impl CellType {
    /// The stored form of a cell type from the editor, whose shapes must all
    /// be of kind `rect`; it starts out unmatched. Fails with the missing
    /// field of the first shape, layer after layer, that lacks one.
    pub fn try_from(value: (u128, CellTypeRequest)) -> (r: Result<CellType, MissingShapeField>)
        requires
            all_rect_requests(value.1.layers@),
        ensures
            match first_missing(flat_shapes(value.1.layers@)) {
                Some(f) => r == Err::<CellType, MissingShapeField>(f),
                None => r matches Ok(c) && c.id == value.1.id && c.name@ == value.1.name@
                    && c.crop_rect == value.1.crop_rect && !c.matched && layers_stored_as(
                    c.layers@,
                    value.1.layers@,
                ),
            },
    {
        let ghost input = value.1.layers@;
        let (_, request) = value;
        let CellTypeRequest { id, name, crop_rect, layers: mut rest } = request;
        let ghost orig = rest@;
        assert(orig == input);
        let n = rest.len();
        let mut out: Vec<(LayerKind, Vec<LayerShape>)> = Vec::new();
        let mut i: usize = 0;
        while rest.len() > 0
            invariant
                n == orig.len(),
                orig == input,
                input == value.1.layers@,
                i <= n,
                rest@.len() == n - i,
                rest@ == orig.skip(i as int),
                all_rect_requests(orig),
                first_missing(flat_shapes(orig.take(i as int))) is None,
                layers_stored_as(out@, orig.take(i as int)),
            decreases rest@.len(),
        {
            let (kind, mut shapes) = rest.remove(0);
            proof {
                assert(orig.skip(i + 1) =~= orig.skip(i as int).remove(0));
                assert(orig.take(i + 1).drop_last() =~= orig.take(i as int));
            }
            let ghost src = shapes@;
            let m = shapes.len();
            let mut converted: Vec<LayerShape> = Vec::new();
            let mut j: usize = 0;
            while shapes.len() > 0
                invariant
                    src == orig[i as int].1@,
                    orig == input,
                    input == value.1.layers@,
                input == value.1.layers@,
                    i < n,
                    n == orig.len(),
                    all_rect_requests(orig),
                    first_missing(flat_shapes(orig.take(i as int))) is None,
                    m == src.len(),
                    j <= m,
                    shapes@.len() == m - j,
                    shapes@ == src.skip(j as int),
                    first_missing(src.take(j as int)) is None,
                    converted@ == src.take(j as int).map_values(|s: CellTypeLayerShape| request_to_shape(s)),
                decreases shapes@.len(),
            {
                let s = shapes.remove(0);
                proof {
                    assert(src[j as int] == s);
                    assert(src.skip(j + 1) =~= src.skip(j as int).remove(0));
                    assert(src.take(j + 1).drop_last() =~= src.take(j as int));
                }
                match LayerShape::try_from(s) {
                    Ok(shape) => {
                        converted.push(shape);
                        proof {
                            assert(converted@ =~= src.take(j + 1).map_values(|s: CellTypeLayerShape| request_to_shape(s)));
                        }
                    },
                    Err(e) => {
                        proof {
                            assert(first_missing(src.take(j + 1)) == Some(e));
                            assert(src =~= src.take(j + 1) + src.skip(j + 1));
                            lemma_first_missing_add(src.take(j + 1), src.skip(j + 1));
                            assert(orig =~= orig.take(i as int) + (seq![orig[i as int]] + orig.skip(i + 1)));
                            lemma_flat_shapes_add(orig.take(i as int), seq![orig[i as int]] + orig.skip(i + 1));
                            lemma_flat_shapes_add(seq![orig[i as int]], orig.skip(i + 1));
                            assert(flat_shapes(seq![orig[i as int]]) =~= src) by {
                                let one = seq![orig[i as int]];
                                assert(one.drop_last() =~= Seq::<(LayerKind, Vec<CellTypeLayerShape>)>::empty());
                                assert(flat_shapes(one.drop_last()) =~= Seq::<CellTypeLayerShape>::empty());
                                assert(one.last() == orig[i as int]);
                            }
                            lemma_first_missing_add(src, flat_shapes(orig.skip(i + 1)));
                            lemma_first_missing_add(flat_shapes(orig.take(i as int)), src + flat_shapes(orig.skip(i + 1)));
                            assert(first_missing(src) == Some(e));
                            assert(first_missing(src + flat_shapes(orig.skip(i + 1))) == Some(e));
                            assert(flat_shapes(orig) == flat_shapes(orig.take(i as int)) + (src + flat_shapes(orig.skip(i + 1))));
                            assert(first_missing(flat_shapes(orig)) == Some(e));
                        }
                        return Err(e);
                    },
                }
                j = j + 1;
            }
            proof {
                assert(src.take(m as int) =~= src);
                lemma_first_missing_add(flat_shapes(orig.take(i as int)), src);
                assert(orig.take(i + 1).last() == orig[i as int]);
            }
            out.push((kind, converted));
            i = i + 1;
        }
        proof {
            assert(orig.take(n as int) =~= orig);
        }
        Ok(CellType { id, name, crop_rect, layers: out, matched: false })
    }
}

/// A net as the editor sends and receives it.
#[derive(Debug, Clone, PartialEq)]
pub struct NetRequest {
    pub id: u128,
    pub name: String,
    pub nodes: Vec<NetNode>,
    pub edges: Vec<NetEdge>,
}

impl From<Net> for NetRequest {
    fn from(value: Net) -> (r: Self) {
        NetRequest { id: value.id, name: value.name, nodes: value.nodes, edges: value.edges }
    }
}

impl FromSpecImpl<Net> for NetRequest {
    open spec fn obeys_from_spec() -> bool {
        true
    }

    open spec fn from_spec(value: Net) -> Self {
        NetRequest { id: value.id, name: value.name, nodes: value.nodes, edges: value.edges }
    }
}

impl From<(u128, NetRequest)> for Net {
    fn from(value: (u128, NetRequest)) -> (r: Self) {
        let (_, v) = value;
        Net { id: v.id, name: v.name, nodes: v.nodes, edges: v.edges }
    }
}

impl FromSpecImpl<(u128, NetRequest)> for Net {
    open spec fn obeys_from_spec() -> bool {
        true
    }

    open spec fn from_spec(value: (u128, NetRequest)) -> Self {
        Net { id: value.1.id, name: value.1.name, nodes: value.1.nodes, edges: value.1.edges }
    }
}

/// A grid as the editor sends and receives it; only its id so far, and it
/// has no conversion to or from the stored grid yet.
#[derive(Debug, Clone, Copy, PartialEq, Eq, Structural)]
pub struct GridRequest {
    pub id: u128,
}

/// A pin as the editor sends and receives it.
#[derive(Debug, Clone, PartialEq)]
pub struct PinRequest {
    pub id: u128,
    pub name: String,
    pub x: u32,
    pub y: u32,
    pub pin: u32,
}

impl From<Pin> for PinRequest {
    fn from(value: Pin) -> (r: Self) {
        PinRequest { id: value.id, name: value.name, pin: value.pin, x: value.x, y: value.y }
    }
}

impl FromSpecImpl<Pin> for PinRequest {
    open spec fn obeys_from_spec() -> bool {
        true
    }

    open spec fn from_spec(value: Pin) -> Self {
        PinRequest { id: value.id, name: value.name, pin: value.pin, x: value.x, y: value.y }
    }
}

impl From<(u128, PinRequest)> for Pin {
    fn from(value: (u128, PinRequest)) -> (r: Self) {
        let (_, v) = value;
        Pin { id: v.id, name: v.name, pin: v.pin, x: v.x, y: v.y }
    }
}

impl FromSpecImpl<(u128, PinRequest)> for Pin {
    open spec fn obeys_from_spec() -> bool {
        true
    }

    open spec fn from_spec(value: (u128, PinRequest)) -> Self {
        Pin { id: value.1.id, name: value.1.name, pin: value.1.pin, x: value.1.x, y: value.1.y }
    }
}

/// A human annotation as the editor sends and receives it.
#[derive(Debug, Clone, PartialEq)]
pub struct HumanAnnotationRequest {
    pub id: u128,
    pub class: HumanAnnotationClass,
    pub source: Option<HumanAnnotationSource>,
    pub geometry: HumanAnnotationShape,
}

impl From<HumanAnnotation> for HumanAnnotationRequest {
    fn from(value: HumanAnnotation) -> (r: Self) {
        HumanAnnotationRequest { id: value.id, class: value.class, source: value.source, geometry: value.geometry }
    }
}

impl FromSpecImpl<HumanAnnotation> for HumanAnnotationRequest {
    open spec fn obeys_from_spec() -> bool {
        true
    }

    open spec fn from_spec(value: HumanAnnotation) -> Self {
        HumanAnnotationRequest { id: value.id, class: value.class, source: value.source, geometry: value.geometry }
    }
}

impl From<(u128, HumanAnnotationRequest)> for HumanAnnotation {
    fn from(value: (u128, HumanAnnotationRequest)) -> (r: Self) {
        let (_, v) = value;
        HumanAnnotation { id: v.id, class: v.class, source: v.source, geometry: v.geometry }
    }
}

impl FromSpecImpl<(u128, HumanAnnotationRequest)> for HumanAnnotation {
    open spec fn obeys_from_spec() -> bool {
        true
    }

    open spec fn from_spec(value: (u128, HumanAnnotationRequest)) -> Self {
        HumanAnnotation { id: value.1.id, class: value.1.class, source: value.1.source, geometry: value.1.geometry }
    }
}

/// A region of interest as the editor sends and receives it, with its
/// rectangle spelled out.
#[derive(Debug, Clone, PartialEq)]
pub struct ROIRequest {
    pub id: u128,
    pub classes: Vec<HumanAnnotationClass>,
    pub x: u32,
    pub y: u32,
    pub width: u32,
    pub height: u32,
}

impl From<ROI> for ROIRequest {
    fn from(value: ROI) -> (r: Self) {
        ROIRequest {
            id: value.id,
            classes: value.classes,
            x: value.rect.x,
            y: value.rect.y,
            width: value.rect.width,
            height: value.rect.height,
        }
    }
}

impl FromSpecImpl<ROI> for ROIRequest {
    open spec fn obeys_from_spec() -> bool {
        true
    }

    open spec fn from_spec(value: ROI) -> Self {
        ROIRequest {
            id: value.id,
            classes: value.classes,
            x: value.rect.x,
            y: value.rect.y,
            width: value.rect.width,
            height: value.rect.height,
        }
    }
}

impl From<(u128, ROIRequest)> for ROI {
    fn from(value: (u128, ROIRequest)) -> (r: Self) {
        let (_, v) = value;
        ROI { id: v.id, rect: Rect { x: v.x, y: v.y, width: v.width, height: v.height }, classes: v.classes }
    }
}

impl FromSpecImpl<(u128, ROIRequest)> for ROI {
    open spec fn obeys_from_spec() -> bool {
        true
    }

    open spec fn from_spec(value: (u128, ROIRequest)) -> Self {
        ROI {
            id: value.1.id,
            rect: Rect { x: value.1.x, y: value.1.y, width: value.1.width, height: value.1.height },
            classes: value.1.classes,
        }
    }
}

/// An ignored rectangle as the editor sends and receives it, spelled out.
#[derive(Debug, Clone, Copy, PartialEq, Eq, Structural)]
pub struct IgnoreRectRequest {
    pub id: u128,
    pub x: u32,
    pub y: u32,
    pub width: u32,
    pub height: u32,
}

impl From<IgnoreRect> for IgnoreRectRequest {
    fn from(value: IgnoreRect) -> (r: Self) {
        IgnoreRectRequest {
            id: value.id,
            x: value.rect.x,
            y: value.rect.y,
            width: value.rect.width,
            height: value.rect.height,
        }
    }
}

impl FromSpecImpl<IgnoreRect> for IgnoreRectRequest {
    open spec fn obeys_from_spec() -> bool {
        true
    }

    open spec fn from_spec(value: IgnoreRect) -> Self {
        IgnoreRectRequest {
            id: value.id,
            x: value.rect.x,
            y: value.rect.y,
            width: value.rect.width,
            height: value.rect.height,
        }
    }
}

impl From<(u128, IgnoreRectRequest)> for IgnoreRect {
    fn from(value: (u128, IgnoreRectRequest)) -> (r: Self) {
        IgnoreRect {
            id: value.1.id,
            rect: Rect { x: value.1.x, y: value.1.y, width: value.1.width, height: value.1.height },
        }
    }
}

impl FromSpecImpl<(u128, IgnoreRectRequest)> for IgnoreRect {
    open spec fn obeys_from_spec() -> bool {
        true
    }

    open spec fn from_spec(value: (u128, IgnoreRectRequest)) -> Self {
        IgnoreRect {
            id: value.1.id,
            rect: Rect { x: value.1.x, y: value.1.y, width: value.1.width, height: value.1.height },
        }
    }
}

/// A guide as the editor sends and receives it: its kind with the id
/// alongside.
#[derive(Debug, Clone, Copy, PartialEq, Eq, Structural)]
pub enum GuideRequest {
    Line { id: u128, axis: GuideKindLineAxis, pos: u32 },
    Segment { id: u128, x1: u32, y1: u32, x2: u32, y2: u32 },
}

impl From<Guide> for GuideRequest {
    fn from(value: Guide) -> (r: Self) {
        match value.kind {
            GuideKind::Line { axis, pos } => GuideRequest::Line { id: value.id, axis, pos },
            GuideKind::Segment { x1, y1, x2, y2 } => GuideRequest::Segment { id: value.id, x1, y1, x2, y2 },
        }
    }
}

impl FromSpecImpl<Guide> for GuideRequest {
    open spec fn obeys_from_spec() -> bool {
        true
    }

    open spec fn from_spec(value: Guide) -> Self {
        match value.kind {
            GuideKind::Line { axis, pos } => GuideRequest::Line { id: value.id, axis, pos },
            GuideKind::Segment { x1, y1, x2, y2 } => GuideRequest::Segment { id: value.id, x1, y1, x2, y2 },
        }
    }
}

impl From<(u128, GuideRequest)> for Guide {
    fn from(value: (u128, GuideRequest)) -> (r: Self) {
        match value.1 {
            GuideRequest::Line { id, axis, pos } => Guide { id, kind: GuideKind::Line { axis, pos } },
            GuideRequest::Segment { id, x1, y1, x2, y2 } => Guide {
                id,
                kind: GuideKind::Segment { x1, y1, x2, y2 },
            },
        }
    }
}

impl FromSpecImpl<(u128, GuideRequest)> for Guide {
    open spec fn obeys_from_spec() -> bool {
        true
    }

    open spec fn from_spec(value: (u128, GuideRequest)) -> Self {
        match value.1 {
            GuideRequest::Line { id, axis, pos } => Guide { id, kind: GuideKind::Line { axis, pos } },
            GuideRequest::Segment { id, x1, y1, x2, y2 } => Guide {
                id,
                kind: GuideKind::Segment { x1, y1, x2, y2 },
            },
        }
    }
}

/// Converts every item, keeping the order.
fn convert_all<T, U: From<T>>(items: Vec<T>) -> (r: Vec<U>)
    requires
        <U as FromSpec<T>>::obeys_from_spec(),
    ensures
        r@ == items@.map_values(|x: T| <U as FromSpec<T>>::from_spec(x)),
{
    let ghost orig = items@;
    let mut rest = items;
    let n = rest.len();
    let mut out: Vec<U> = Vec::new();
    let mut i: usize = 0;
    while rest.len() > 0
        invariant
            <U as FromSpec<T>>::obeys_from_spec(),
            n == orig.len(),
            i <= n,
            rest@.len() == n - i,
            rest@ == orig.skip(i as int),
            out@ == orig.take(i as int).map_values(|x: T| <U as FromSpec<T>>::from_spec(x)),
        decreases rest@.len(),
    {
        let x = rest.remove(0);
        proof {
            assert(orig.skip(i + 1) =~= orig.skip(i as int).remove(0));
            assert(orig[i as int] == x);
        }
        out.push(U::from(x));
        proof {
            assert(out@ =~= orig.take(i + 1).map_values(|x: T| <U as FromSpec<T>>::from_spec(x)));
        }
        i = i + 1;
    }
    proof {
        assert(orig.take(n as int) =~= orig);
    }
    out
}

/// All annotations of a die, as the editor loads them.
#[derive(Debug, Clone, PartialEq)]
pub struct Annotations {
    pub version: u32,
    /// Incremented every time the annotations are written; clients compare
    /// it with the revision a notification carries to spot a stale copy.
    pub revision: u32,
    pub nets: Vec<NetRequest>,
    pub cell_types: Vec<CellTypeRequest>,
    pub cells: Vec<CellInstanceRequest>,
    pub grids: Vec<GridRequest>,
    pub pins: Vec<PinRequest>,
    pub annotations: Vec<HumanAnnotationRequest>,
    pub rois: Vec<ROIRequest>,
    pub ignores: Vec<IgnoreRectRequest>,
    /// Cell-placement guides.
    pub guides: Vec<GuideRequest>,
}

impl Annotations {
    /// The annotations of a die at `revision`, format version 2, made of its
    /// stored parameters, each in the editor's form and in the order given.
    /// Grids have no editor form yet, so there must be none; and the shapes
    /// of the cell types must be rectangles.
    pub fn from_params(
        revision: u32,
        nets: Vec<Net>,
        cell_types: Vec<CellType>,
        cells: Vec<Cell>,
        grids: Vec<crate::params::domain::Grid>,
        pins: Vec<Pin>,
        annotations: Vec<HumanAnnotation>,
        rois: Vec<ROI>,
        ignores: Vec<IgnoreRect>,
        guides: Vec<Guide>,
    ) -> (r: Self)
        requires
            grids@.len() == 0,
            forall|i: int| 0 <= i < cell_types@.len() ==> all_rects((#[trigger] cell_types@[i]).layers@),
        ensures
            r.version == 2,
            r.revision == revision,
            r.nets@ == nets@.map_values(|x: Net| <NetRequest as FromSpec<Net>>::from_spec(x)),
            r.cell_types@.len() == cell_types@.len(),
            forall|i: int|
                0 <= i < cell_types@.len() ==> is_cell_type_request_of(
                    #[trigger] r.cell_types@[i],
                    cell_types@[i],
                ),
            r.cells@ == cells@.map_values(|x: Cell| <CellInstanceRequest as FromSpec<Cell>>::from_spec(x)),
            r.grids@.len() == 0,
            r.pins@ == pins@.map_values(|x: Pin| <PinRequest as FromSpec<Pin>>::from_spec(x)),
            r.annotations@ == annotations@.map_values(
                |x: HumanAnnotation| <HumanAnnotationRequest as FromSpec<HumanAnnotation>>::from_spec(x),
            ),
            r.rois@ == rois@.map_values(|x: ROI| <ROIRequest as FromSpec<ROI>>::from_spec(x)),
            r.ignores@ == ignores@.map_values(
                |x: IgnoreRect| <IgnoreRectRequest as FromSpec<IgnoreRect>>::from_spec(x),
            ),
            r.guides@ == guides@.map_values(|x: Guide| <GuideRequest as FromSpec<Guide>>::from_spec(x)),
    {
        let ghost orig = cell_types@;
        let mut rest = cell_types;
        let n = rest.len();
        let mut types_out: Vec<CellTypeRequest> = Vec::new();
        let mut i: usize = 0;
        while rest.len() > 0
            invariant
                n == orig.len(),
                i <= n,
                rest@.len() == n - i,
                rest@ == orig.skip(i as int),
                forall|k: int| 0 <= k < orig.len() ==> all_rects((#[trigger] orig[k]).layers@),
                types_out@.len() == i,
                forall|k: int| 0 <= k < i ==> is_cell_type_request_of(#[trigger] types_out@[k], orig[k]),
            decreases rest@.len(),
        {
            let c = rest.remove(0);
            proof {
                assert(orig.skip(i + 1) =~= orig.skip(i as int).remove(0));
                assert(orig[i as int] == c);
            }
            types_out.push(CellTypeRequest::from(c));
            i = i + 1;
        }
        Annotations {
            version: 2,
            revision,
            nets: convert_all(nets),
            cell_types: types_out,
            cells: convert_all(cells),
            grids: Vec::new(),
            pins: convert_all(pins),
            annotations: convert_all(annotations),
            rois: convert_all(rois),
            ignores: convert_all(ignores),
            guides: convert_all(guides),
        }
    }
}

/// A stored parameter sent to the editor and received back under any path
/// id is the parameter it was: the forms of nets, pins, human annotations,
/// regions of interest, ignored rectangles and guides lose nothing.
pub proof fn editor_forms_round_trip(
    id: u128,
    net: Net,
    pin: Pin,
    annotation: HumanAnnotation,
    roi: ROI,
    ignore: IgnoreRect,
    guide: Guide,
)
    ensures
        <Net as FromSpec<(u128, NetRequest)>>::from_spec((id, <NetRequest as FromSpec<Net>>::from_spec(net))) == net,
        <Pin as FromSpec<(u128, PinRequest)>>::from_spec((id, <PinRequest as FromSpec<Pin>>::from_spec(pin))) == pin,
        <HumanAnnotation as FromSpec<(u128, HumanAnnotationRequest)>>::from_spec(
            (id, <HumanAnnotationRequest as FromSpec<HumanAnnotation>>::from_spec(annotation)),
        ) == annotation,
        <ROI as FromSpec<(u128, ROIRequest)>>::from_spec((id, <ROIRequest as FromSpec<ROI>>::from_spec(roi))) == roi,
        <IgnoreRect as FromSpec<(u128, IgnoreRectRequest)>>::from_spec(
            (id, <IgnoreRectRequest as FromSpec<IgnoreRect>>::from_spec(ignore)),
        ) == ignore,
        <Guide as FromSpec<(u128, GuideRequest)>>::from_spec(
            (id, <GuideRequest as FromSpec<Guide>>::from_spec(guide)),
        ) == guide,
{
}

/// A cell sent to the editor and received back keeps its id, type and
/// position but comes back unflipped, unrotated and unmerged; a cell from
/// the editor, stored and sent back, is what the editor sent.
pub proof fn cell_forms_round_trip(id: u128, cell: Cell, request: CellInstanceRequest)
    ensures
        <Cell as FromSpec<(u128, CellInstanceRequest)>>::from_spec(
            (id, <CellInstanceRequest as FromSpec<Cell>>::from_spec(cell)),
        ) == (Cell {
            flipped_vertical: false,
            flipped_horizontal: false,
            rotation: CellRotation::Rot0,
            merged: false,
            ..cell
        }),
        <CellInstanceRequest as FromSpec<Cell>>::from_spec(
            <Cell as FromSpec<(u128, CellInstanceRequest)>>::from_spec((id, request)),
        ) == request,
{
}

/// Every shape of the flattened layers is a shape of one of the layers.
proof fn lemma_flat_shapes_from(layers: Seq<(LayerKind, Vec<CellTypeLayerShape>)>, k: int)
    requires
        0 <= k < flat_shapes(layers).len(),
    ensures
        exists|i: int, j: int|
            0 <= i < layers.len() && 0 <= j < layers[i].1@.len() && flat_shapes(layers)[k]
                == #[trigger] layers[i].1@[j],
    decreases layers.len(),
{
    let front = layers.drop_last();
    let n = flat_shapes(front).len();
    if k < n {
        lemma_flat_shapes_from(front, k);
        let (i, j) = choose|i: int, j: int|
            0 <= i < front.len() && 0 <= j < front[i].1@.len() && flat_shapes(front)[k]
                == #[trigger] front[i].1@[j];
        assert(layers[i] == front[i]);
    } else {
        let i = layers.len() - 1;
        assert(layers[i].1@[k - n] == flat_shapes(layers)[k]);
    }
}

/// No shape lacks a field, so none is the first to.
proof fn lemma_first_missing_none(shapes: Seq<CellTypeLayerShape>)
    requires
        forall|k: int| 0 <= k < shapes.len() ==> missing_field(#[trigger] shapes[k]) is None,
    ensures
        first_missing(shapes) is None,
    decreases shapes.len(),
{
    if shapes.len() > 0 {
        lemma_first_missing_none(shapes.drop_last());
        assert(shapes.last() == shapes[shapes.len() - 1]);
    }
}

/// A cell type whose shapes are all rectangles, sent to the editor and
/// received back, is stored again without error with the same layers in
/// the same order and the same rectangles; only its forced diffusion types
/// and custom shape names are dropped, and it becomes unmatched.
pub proof fn cell_type_form_round_trip(cell_type: CellType, request: CellTypeRequest)
    requires
        all_rects(cell_type.layers@),
        is_cell_type_request_of(request, cell_type),
    ensures
        all_rect_requests(request.layers@),
        first_missing(flat_shapes(request.layers@)) is None,
        forall|stored: Seq<(LayerKind, Vec<LayerShape>)>|
            layers_stored_as(stored, request.layers@) ==> {
                &&& stored.len() == cell_type.layers@.len()
                &&& forall|i: int|
                    0 <= i < stored.len() ==> {
                        &&& (#[trigger] stored[i]).0 == cell_type.layers@[i].0
                        &&& stored[i].1@ == cell_type.layers@[i].1@.map_values(
                            |s: LayerShape| LayerShape { forced_type: None, custom_name: None, ..s },
                        )
                    }
            },
{
    let ls = request.layers@;
    assert forall|i: int, j: int| 0 <= i < ls.len() && 0 <= j < ls[i].1@.len() implies (#[trigger] ls[i].1@[j]).kind@
        == "rect"@ && missing_field(ls[i].1@[j]) is None by {
        assert(is_request_of(ls[i].1@[j], cell_type.layers@[i].1@[j]));
    }
    let flat = flat_shapes(ls);
    assert forall|k: int| 0 <= k < flat.len() implies missing_field(#[trigger] flat[k]) is None by {
        lemma_flat_shapes_from(ls, k);
    }
    lemma_first_missing_none(flat);
    assert forall|stored: Seq<(LayerKind, Vec<LayerShape>)>| layers_stored_as(stored, ls) implies {
        &&& stored.len() == cell_type.layers@.len()
        &&& forall|i: int|
            0 <= i < stored.len() ==> {
                &&& (#[trigger] stored[i]).0 == cell_type.layers@[i].0
                &&& stored[i].1@ == cell_type.layers@[i].1@.map_values(
                    |s: LayerShape| LayerShape { forced_type: None, custom_name: None, ..s },
                )
            }
    } by {
        assert forall|i: int| 0 <= i < stored.len() implies {
            &&& (#[trigger] stored[i]).0 == cell_type.layers@[i].0
            &&& stored[i].1@ == cell_type.layers@[i].1@.map_values(
                |s: LayerShape| LayerShape { forced_type: None, custom_name: None, ..s },
            )
        } by {
            let a = stored[i].1@;
            let b = cell_type.layers@[i].1@.map_values(
                |s: LayerShape| LayerShape { forced_type: None, custom_name: None, ..s },
            );
            assert forall|j: int| 0 <= j < a.len() implies a[j] == b[j] by {
                assert(is_request_of(ls[i].1@[j], cell_type.layers@[i].1@[j]));
            }
            assert(a =~= b);
        }
    }
}

/// A pin and its editor form carry the same fields: the form of a stored
/// pin has the pin's id, name, position and pin number, and the pin stored
/// from a form takes each of them from the form's field of the same name
/// (x from x, y from y).
pub proof fn pin_forms_keep_fields(pin: Pin, id: u128, request: PinRequest)
    ensures
        ({
            let f = <PinRequest as FromSpec<Pin>>::from_spec(pin);
            &&& f.id == pin.id
            &&& f.name == pin.name
            &&& f.x == pin.x
            &&& f.y == pin.y
            &&& f.pin == pin.pin
        }),
        ({
            let p = <Pin as FromSpec<(u128, PinRequest)>>::from_spec((id, request));
            &&& p.id == request.id
            &&& p.name == request.name
            &&& p.x == request.x
            &&& p.y == request.y
            &&& p.pin == request.pin
        }),
{
}

/// A cell and its editor form carry the same id, type and position; a cell
/// stored from a form is neither flipped, rotated nor merged.
pub proof fn cell_forms_keep_fields(cell: Cell, id: u128, request: CellInstanceRequest)
    ensures
        ({
            let f = <CellInstanceRequest as FromSpec<Cell>>::from_spec(cell);
            &&& f.id == cell.id
            &&& f.cell_type_id == cell.cell_type_id
            &&& f.x == cell.x
            &&& f.y == cell.y
        }),
        ({
            let c = <Cell as FromSpec<(u128, CellInstanceRequest)>>::from_spec((id, request));
            &&& c.id == request.id
            &&& c.cell_type_id == request.cell_type_id
            &&& c.x == request.x
            &&& c.y == request.y
            &&& !c.flipped_vertical
            &&& !c.flipped_horizontal
            &&& c.rotation == CellRotation::Rot0
            &&& !c.merged
        }),
{
}

/// A region of interest and its editor form carry the same id, classes and
/// rectangle, the form spelling the rectangle out field by field.
pub proof fn roi_forms_keep_fields(roi: ROI, id: u128, request: ROIRequest)
    ensures
        ({
            let f = <ROIRequest as FromSpec<ROI>>::from_spec(roi);
            &&& f.id == roi.id
            &&& f.classes == roi.classes
            &&& f.x == roi.rect.x
            &&& f.y == roi.rect.y
            &&& f.width == roi.rect.width
            &&& f.height == roi.rect.height
        }),
        ({
            let r = <ROI as FromSpec<(u128, ROIRequest)>>::from_spec((id, request));
            &&& r.id == request.id
            &&& r.classes == request.classes
            &&& r.rect.x == request.x
            &&& r.rect.y == request.y
            &&& r.rect.width == request.width
            &&& r.rect.height == request.height
        }),
{
}

/// An ignored rectangle and its editor form carry the same id and
/// rectangle, field by field.
pub proof fn ignore_rect_forms_keep_fields(ignore: IgnoreRect, id: u128, request: IgnoreRectRequest)
    ensures
        ({
            let f = <IgnoreRectRequest as FromSpec<IgnoreRect>>::from_spec(ignore);
            &&& f.id == ignore.id
            &&& f.x == ignore.rect.x
            &&& f.y == ignore.rect.y
            &&& f.width == ignore.rect.width
            &&& f.height == ignore.rect.height
        }),
        ({
            let r = <IgnoreRect as FromSpec<(u128, IgnoreRectRequest)>>::from_spec((id, request));
            &&& r.id == request.id
            &&& r.rect.x == request.x
            &&& r.rect.y == request.y
            &&& r.rect.width == request.width
            &&& r.rect.height == request.height
        }),
{
}

/// A net, a human annotation and their editor forms carry the same fields.
pub proof fn net_and_annotation_forms_keep_fields(
    net: Net,
    net_request: NetRequest,
    annotation: HumanAnnotation,
    annotation_request: HumanAnnotationRequest,
    id: u128,
)
    ensures
        ({
            let f = <NetRequest as FromSpec<Net>>::from_spec(net);
            f.id == net.id && f.name == net.name && f.nodes == net.nodes && f.edges == net.edges
        }),
        ({
            let n = <Net as FromSpec<(u128, NetRequest)>>::from_spec((id, net_request));
            n.id == net_request.id && n.name == net_request.name && n.nodes == net_request.nodes
                && n.edges == net_request.edges
        }),
        ({
            let f = <HumanAnnotationRequest as FromSpec<HumanAnnotation>>::from_spec(annotation);
            f.id == annotation.id && f.class == annotation.class && f.source == annotation.source
                && f.geometry == annotation.geometry
        }),
        ({
            let a = <HumanAnnotation as FromSpec<(u128, HumanAnnotationRequest)>>::from_spec(
                (id, annotation_request),
            );
            a.id == annotation_request.id && a.class == annotation_request.class && a.source
                == annotation_request.source && a.geometry == annotation_request.geometry
        }),
{
}

/// A guide and its editor form carry the same id and the same line (axis
/// and position) or segment (both end points, each coordinate in place).
pub proof fn guide_forms_keep_fields(guide: Guide, id: u128, request: GuideRequest)
    ensures
        <GuideRequest as FromSpec<Guide>>::from_spec(guide) == (match guide.kind {
            GuideKind::Line { axis, pos } => GuideRequest::Line { id: guide.id, axis, pos },
            GuideKind::Segment { x1, y1, x2, y2 } => GuideRequest::Segment { id: guide.id, x1, y1, x2, y2 },
        }),
        <Guide as FromSpec<(u128, GuideRequest)>>::from_spec((id, request)) == (match request {
            GuideRequest::Line { id: i, axis, pos } => Guide { id: i, kind: GuideKind::Line { axis, pos } },
            GuideRequest::Segment { id: i, x1, y1, x2, y2 } => Guide {
                id: i,
                kind: GuideKind::Segment { x1, y1, x2, y2 },
            },
        }),
{
}

/// A complete rectangle from the editor is stored with the form's id and
/// label, each coordinate and size from the field of the same name.
pub proof fn editor_rect_keeps_fields(v: CellTypeLayerShape)
    requires
        missing_field(v) is None,
    ensures
        ({
            let s = request_to_shape(v);
            &&& s.id == v.id
            &&& s.label == v.label
            &&& s.shape matches Shape::Rect { x, y, width, height } && Some(x) == v.x && Some(y) == v.y
                && Some(width) == v.width && Some(height) == v.height
        }),
{
}

} // verus!
