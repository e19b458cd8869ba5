use vstd::prelude::*;
use vstd::string::StringExecFns;

use crate::die::db::DieParamKind;
use crate::util::str_eq;

verus! {

/// A parameter stored for a die: it has an id and is stored under the name
/// of its kind.
pub trait IsParamKind {
    spec fn spec_kind() -> DieParamKind;

    spec fn spec_id(&self) -> u128;

    /// The kind of parameter this is.
    fn kind() -> (k: DieParamKind)
        ensures
            k == Self::spec_kind(),
    ;

    /// The parameter's id.
    fn get_id(&self) -> (id: u128)
        ensures
            id == self.spec_id(),
    ;
}

/// A node of a net. Its coordinates are kept as the bit patterns of the
/// `f32` values the editor sends; nothing here reads them.
#[derive(Debug, Clone, Copy, PartialEq, Eq, Structural)]
pub struct NetNode {
    pub id: u128,
    pub x_bits: u32,
    pub y_bits: u32,
}

#[derive(Debug, Clone, Copy, PartialEq, Eq, Structural)]
pub enum WireLayer {
    Metal1,
    Metal2,
    Poly,
}

/// A wire between two nodes of a net; `layer` is `None` when unknown.
#[derive(Debug, Clone, Copy, PartialEq, Eq, Structural)]
pub struct NetEdge {
    pub id: u128,
    pub from: u128,
    pub to: u128,
    pub layer: Option<WireLayer>,
}

#[derive(Debug, Clone, PartialEq)]
pub struct Net {
    pub id: u128,
    pub name: String,
    pub nodes: Vec<NetNode>,
    pub edges: Vec<NetEdge>,
}

#[derive(Debug, Clone, Copy, PartialEq, Eq, Structural)]
pub enum CellRotation {
    Rot0,
    Rot90,
    Rot180,
    Rot270,
}

/// A placed instance of a cell type.
#[derive(Debug, Clone, Copy, PartialEq, Eq, Structural)]
pub struct Cell {
    pub id: u128,
    pub cell_type_id: u128,
    pub x: u32,
    pub y: u32,
    pub flipped_vertical: bool,
    pub flipped_horizontal: bool,
    pub rotation: CellRotation,
    pub merged: bool,
}

#[derive(Debug, Clone, Copy, PartialEq, Eq, Structural)]
pub struct Rect {
    pub x: u32,
    pub y: u32,
    pub width: u32,
    pub height: u32,
}

#[derive(Debug, Clone, Copy, PartialEq, Eq, Hash, Structural)]
pub enum LayerKind {
    Diffusion,
    Polysilicon,
    Metal1,
    Metal2,
    Contact,
    Via,
    WireHitbox,
}

/// A layer name that is not one of the known layers.
#[derive(Debug, Clone, PartialEq)]
pub struct InvalidLayer {
    pub name: String,
}

impl InvalidLayer {
    /// `invalid layer: <name>`.
    pub fn message(&self) -> (m: String)
        ensures
            m@ == "invalid layer: "@ + self.name@,
    {
        let mut m = String::from_str("invalid layer: ");
        m.append(self.name.as_str());
        m
    }
}

/// The layer a name denotes, if any.
pub open spec fn spec_layer_kind(s: Seq<char>) -> Option<LayerKind> {
    if s == "diffusion"@ {
        Some(LayerKind::Diffusion)
    } else if s == "polysilicon"@ {
        Some(LayerKind::Polysilicon)
    } else if s == "metal1"@ {
        Some(LayerKind::Metal1)
    } else if s == "metal2"@ {
        Some(LayerKind::Metal2)
    } else if s == "contact"@ {
        Some(LayerKind::Contact)
    } else if s == "via1"@ {
        Some(LayerKind::Via)
    } else if s == "wire_hitbox"@ {
        Some(LayerKind::WireHitbox)
    } else {
        None
    }
}

impl LayerKind {
    /// Parses a layer name: `diffusion`, `polysilicon`, `metal1`, `metal2`,
    /// `contact`, `via1` or `wire_hitbox`.
    pub fn from_str(s: &str) -> (r: Result<LayerKind, InvalidLayer>)
        ensures
            match r {
                Ok(k) => spec_layer_kind(s@) == Some(k),
                Err(e) => spec_layer_kind(s@) is None && e.name@ == s@,
            },
    {
        if str_eq(s, "diffusion") {
            Ok(LayerKind::Diffusion)
        } else if str_eq(s, "polysilicon") {
            Ok(LayerKind::Polysilicon)
        } else if str_eq(s, "metal1") {
            Ok(LayerKind::Metal1)
        } else if str_eq(s, "metal2") {
            Ok(LayerKind::Metal2)
        } else if str_eq(s, "contact") {
            Ok(LayerKind::Contact)
        } else if str_eq(s, "via1") {
            Ok(LayerKind::Via)
        } else if str_eq(s, "wire_hitbox") {
            Ok(LayerKind::WireHitbox)
        } else {
            Err(InvalidLayer { name: String::from_str(s) })
        }
    }
}

/// A shape drawn on one layer of a cell type.
#[derive(Debug, Clone, PartialEq)]
pub struct LayerShape {
    pub id: u128,
    pub shape: Shape,
    pub label: Option<ShapeLabel>,
    pub forced_type: Option<DiffusionType>,
    pub custom_name: Option<String>,
}

#[derive(Debug, Clone, PartialEq)]
pub enum Shape {
    Rect { x: u32, y: u32, width: u32, height: u32 },
    Line { x1: u32, x2: u32, y1: u32, y2: u32, width: u32 },
    Point { x: u32, y: u32, width: u32 },
    Circle { x: u32, y: u32, radius: u32 },
    Polygon { points: Vec<(u32, u32)> },
}

#[derive(Debug, Clone, Copy, PartialEq, Eq, Structural)]
pub enum DiffusionType {
    P,
    N,
}

#[derive(Debug, Clone, Copy, PartialEq, Eq, Structural)]
pub enum ShapeLabel {
    Vcc,
    Gnd,
    IO,
    Input,
    Output,
}

/// A cell type: its crop rectangle and the shapes drawn on each layer. Each
/// layer occurs at most once in `layers`.
#[derive(Debug, Clone, PartialEq)]
pub struct CellType {
    pub id: u128,
    pub name: String,
    pub crop_rect: Rect,
    pub layers: Vec<(LayerKind, Vec<LayerShape>)>,
    pub matched: bool,
}

#[derive(Debug, Clone, Copy, PartialEq, Eq, Structural)]
pub struct GridColumn {
    pub x: u32,
    pub width: u32,
}

#[derive(Debug, Clone, PartialEq)]
pub struct Grid {
    pub id: u128,
    pub name: String,
    pub columns: Vec<GridColumn>,
    pub row_height: u32,
    pub column_offsets: Vec<u32>,
}

#[derive(Debug, Clone, PartialEq)]
pub struct Pin {
    pub id: u128,
    pub name: String,
    pub x: u32,
    pub y: u32,
    pub pin: u32,
}

#[derive(Debug, Clone, Copy, PartialEq, Eq, Structural)]
pub enum HumanAnnotationClass {
    PointVia,
    IrregularVia,
    Trace,
}

#[derive(Debug, Clone, Copy, PartialEq, Eq, Structural)]
pub enum HumanAnnotationSource {
    Human,
}

#[derive(Debug, Clone, PartialEq)]
pub enum HumanAnnotationShape {
    Point { x: u32, y: u32 },
    Rectangle { x: u32, y: u32, width: u32, height: u32 },
    Polygon { points: Vec<Point> },
}

#[derive(Debug, Clone, Copy, PartialEq, Eq, Structural)]
pub struct Point {
    pub x: u32,
    pub y: u32,
}

#[derive(Debug, Clone, PartialEq)]
pub struct HumanAnnotation {
    pub id: u128,
    pub class: HumanAnnotationClass,
    pub geometry: HumanAnnotationShape,
    pub source: Option<HumanAnnotationSource>,
}

/// A region of interest and the annotation classes it is labelled for.
#[derive(Debug, Clone, PartialEq)]
pub struct ROI {
    pub id: u128,
    pub rect: Rect,
    pub classes: Vec<HumanAnnotationClass>,
}

#[derive(Debug, Clone, Copy, PartialEq, Eq, Structural)]
pub struct IgnoreRect {
    pub id: u128,
    pub rect: Rect,
}

#[derive(Debug, Clone, Copy, PartialEq, Eq, Structural)]
pub enum GuideKindLineAxis {
    X,
    Y,
}

#[derive(Debug, Clone, Copy, PartialEq, Eq, Structural)]
pub enum GuideKind {
    Line { axis: GuideKindLineAxis, pos: u32 },
    Segment { x1: u32, y1: u32, x2: u32, y2: u32 },
}

/// A cell-placement guide.
#[derive(Debug, Clone, Copy, PartialEq, Eq, Structural)]
pub struct Guide {
    pub id: u128,
    pub kind: GuideKind,
}

impl IsParamKind for Net {
    open spec fn spec_kind() -> DieParamKind {
        DieParamKind::Net
    }

    open spec fn spec_id(&self) -> u128 {
        self.id
    }

    fn kind() -> (k: DieParamKind) {
        DieParamKind::Net
    }

    fn get_id(&self) -> (id: u128) {
        self.id
    }
}

impl IsParamKind for Cell {
    open spec fn spec_kind() -> DieParamKind {
        DieParamKind::Cell
    }

    open spec fn spec_id(&self) -> u128 {
        self.id
    }

    fn kind() -> (k: DieParamKind) {
        DieParamKind::Cell
    }

    fn get_id(&self) -> (id: u128) {
        self.id
    }
}

impl IsParamKind for CellType {
    open spec fn spec_kind() -> DieParamKind {
        DieParamKind::CellType
    }

    open spec fn spec_id(&self) -> u128 {
        self.id
    }

    fn kind() -> (k: DieParamKind) {
        DieParamKind::CellType
    }

    fn get_id(&self) -> (id: u128) {
        self.id
    }
}

impl IsParamKind for Grid {
    open spec fn spec_kind() -> DieParamKind {
        DieParamKind::Grid
    }

    open spec fn spec_id(&self) -> u128 {
        self.id
    }

    fn kind() -> (k: DieParamKind) {
        DieParamKind::Grid
    }

    fn get_id(&self) -> (id: u128) {
        self.id
    }
}

impl IsParamKind for Pin {
    open spec fn spec_kind() -> DieParamKind {
        DieParamKind::Pin
    }

    open spec fn spec_id(&self) -> u128 {
        self.id
    }

    fn kind() -> (k: DieParamKind) {
        DieParamKind::Pin
    }

    fn get_id(&self) -> (id: u128) {
        self.id
    }
}

impl IsParamKind for ROI {
    open spec fn spec_kind() -> DieParamKind {
        DieParamKind::ROI
    }

    open spec fn spec_id(&self) -> u128 {
        self.id
    }

    fn kind() -> (k: DieParamKind) {
        DieParamKind::ROI
    }

    fn get_id(&self) -> (id: u128) {
        self.id
    }
}

impl IsParamKind for IgnoreRect {
    open spec fn spec_kind() -> DieParamKind {
        DieParamKind::IgnoreRect
    }

    open spec fn spec_id(&self) -> u128 {
        self.id
    }

    fn kind() -> (k: DieParamKind) {
        DieParamKind::IgnoreRect
    }

    fn get_id(&self) -> (id: u128) {
        self.id
    }
}

impl IsParamKind for Guide {
    open spec fn spec_kind() -> DieParamKind {
        DieParamKind::Guide
    }

    open spec fn spec_id(&self) -> u128 {
        self.id
    }

    fn kind() -> (k: DieParamKind) {
        DieParamKind::Guide
    }

    fn get_id(&self) -> (id: u128) {
        self.id
    }
}

impl IsParamKind for HumanAnnotation {
    open spec fn spec_kind() -> DieParamKind {
        DieParamKind::HumanAnnotation
    }

    open spec fn spec_id(&self) -> u128 {
        self.id
    }

    fn kind() -> (k: DieParamKind) {
        DieParamKind::HumanAnnotation
    }

    fn get_id(&self) -> (id: u128) {
        self.id
    }
}

/// Something found again by its id.
pub trait HasId {
    spec fn spec_id(&self) -> u128;

    fn id_of(&self) -> (id: u128)
        ensures
            id == self.spec_id(),
    ;
}

impl HasId for NetNode {
    open spec fn spec_id(&self) -> u128 {
        self.id
    }

    fn id_of(&self) -> (id: u128) {
        self.id
    }
}

impl HasId for NetEdge {
    open spec fn spec_id(&self) -> u128 {
        self.id
    }

    fn id_of(&self) -> (id: u128) {
        self.id
    }
}

impl HasId for LayerShape {
    open spec fn spec_id(&self) -> u128 {
        self.id
    }

    fn id_of(&self) -> (id: u128) {
        self.id
    }
}

/// The items whose id is not `id`, in their order.
pub open spec fn without_id<T: HasId>(items: Seq<T>, id: u128) -> Seq<T> {
    items.filter(|x: T| x.spec_id() != id)
}

/// Whether some item has id `id`.
pub open spec fn has_id<T: HasId>(items: Seq<T>, id: u128) -> bool {
    exists|i: int| 0 <= i < items.len() && (#[trigger] items[i]).spec_id() == id
}

/// Removing nothing leaves the items as they were.
proof fn lemma_without_absent_id<T: HasId>(items: Seq<T>, id: u128)
    requires
        !has_id(items, id),
    ensures
        without_id(items, id) == items,
    decreases items.len(),
{
    reveal(Seq::filter);
    if items.len() > 0 {
        let front = items.drop_last();
        assert(!has_id(front, id)) by {
            if has_id(front, id) {
                let i = choose|i: int| 0 <= i < front.len() && (#[trigger] front[i]).spec_id() == id;
                assert(items[i] == front[i]);
            }
        }
        lemma_without_absent_id(front, id);
        assert(items.last() == items[items.len() - 1]);
        assert(front.push(items.last()) =~= items);
    }
}

/// Adding an item whose id no other item has and then removing the items
/// with that id gives back the items as they were.
pub proof fn removing_fresh_item_undoes_adding<T: HasId>(items: Seq<T>, x: T)
    requires
        !has_id(items, x.spec_id()),
    ensures
        without_id(items.push(x), x.spec_id()) == items,
{
    reveal(Seq::filter);
    assert(items.push(x).drop_last() =~= items);
    lemma_without_absent_id(items, x.spec_id());
}

/// Removing the items with an id twice is removing them once, and afterwards
/// no item has that id.
pub proof fn removal_by_id_is_idempotent<T: HasId>(items: Seq<T>, id: u128)
    ensures
        without_id(without_id(items, id), id) == without_id(items, id),
        !has_id(without_id(items, id), id),
{
    broadcast use vstd::seq_lib::group_filter_ensures;
    let kept = without_id(items, id);
    assert(!has_id(kept, id)) by {
        if has_id(kept, id) {
            let i = choose|i: int| 0 <= i < kept.len() && (#[trigger] kept[i]).spec_id() == id;
            assert(kept[i].spec_id() != id);
        }
    }
    lemma_without_absent_id(kept, id);
}

/// Removes every item whose id is `id`, keeping the others in their order.
pub fn remove_with_id<T: HasId>(items: &mut Vec<T>, id: u128)
    ensures
        final(items)@ == without_id(old(items)@, id),
{
    let ghost orig = items@;
    let mut rest: Vec<T> = Vec::new();
    std::mem::swap(items, &mut rest);
    let mut k: usize = 0;
    let n = rest.len();
    while rest.len() > 0
        invariant
            n == orig.len(),
            k <= orig.len(),
            rest@.len() == orig.len() - k,
            rest@ == orig.skip(k as int),
            items@ == without_id(orig.take(k as int), id),
        decreases rest@.len(),
    {
        let x = rest.remove(0);
        proof {
            reveal(Seq::filter);
            assert(orig.take(k + 1).drop_last() =~= orig.take(k as int));
            assert(orig.take(k + 1).last() == x);
            assert(orig.skip(k + 1) =~= orig.skip(k as int).remove(0));
        }
        if x.id_of() != id {
            items.push(x);
        }
        k = k + 1;
    }
    proof {
        assert(orig.take(k as int) =~= orig);
    }
}

/// Whether some item has id `id`.
pub fn contains_id<T: HasId>(items: &Vec<T>, id: u128) -> (r: bool)
    ensures
        r == has_id(items@, id),
{
    let mut i: usize = 0;
    while i < items.len()
        invariant
            i <= items@.len(),
            forall|j: int| 0 <= j < i ==> (#[trigger] items@[j]).spec_id() != id,
        decreases items@.len() - i,
    {
        if items[i].id_of() == id {
            return true;
        }
        i = i + 1;
    }
    false
}

impl Net {
    /// Adds a node at the end of the net's nodes.
    pub fn add_node(&mut self, node: NetNode)
        ensures
            final(self).nodes@ == old(self).nodes@.push(node),
            final(self).edges@ == old(self).edges@,
            final(self).id == old(self).id,
            final(self).name@ == old(self).name@,
    {
        self.nodes.push(node);
    }

    /// Removes the nodes with id `node_id`; the rest keep their order.
    pub fn remove_node(&mut self, node_id: u128)
        ensures
            final(self).nodes@ == without_id(old(self).nodes@, node_id),
            final(self).edges@ == old(self).edges@,
            final(self).id == old(self).id,
            final(self).name@ == old(self).name@,
    {
        remove_with_id(&mut self.nodes, node_id);
    }

    /// Adds an edge at the end of the net's edges.
    pub fn add_edge(&mut self, edge: NetEdge)
        ensures
            final(self).edges@ == old(self).edges@.push(edge),
            final(self).nodes@ == old(self).nodes@,
            final(self).id == old(self).id,
            final(self).name@ == old(self).name@,
    {
        self.edges.push(edge);
    }

    /// Removes the edges with id `edge_id`; the rest keep their order.
    pub fn remove_edge(&mut self, edge_id: u128)
        ensures
            final(self).edges@ == without_id(old(self).edges@, edge_id),
            final(self).nodes@ == old(self).nodes@,
            final(self).id == old(self).id,
            final(self).name@ == old(self).name@,
    {
        remove_with_id(&mut self.edges, edge_id);
    }
}


/// The layers as a map from layer to its shapes; a later entry for the same
/// layer would win, though a well-formed cell type has none.
pub open spec fn layers_map(layers: Seq<(LayerKind, Vec<LayerShape>)>) -> Map<LayerKind, Seq<LayerShape>>
    decreases layers.len(),
{
    if layers.len() == 0 {
        Map::empty()
    } else {
        layers_map(layers.drop_last()).insert(layers.last().0, layers.last().1@)
    }
}

/// No layer occurs twice.
pub open spec fn layers_distinct(layers: Seq<(LayerKind, Vec<LayerShape>)>) -> bool {
    forall|i: int, j: int|
        0 <= i < layers.len() && 0 <= j < layers.len() && i != j ==> #[trigger] layers[i].0
            != #[trigger] layers[j].0
}

/// The map's layers are exactly the entries' layers, and with distinct
/// layers each maps to its entry's shapes.
proof fn lemma_layers_map(layers: Seq<(LayerKind, Vec<LayerShape>)>)
    ensures
        forall|k: LayerKind|
            #[trigger] layers_map(layers).dom().contains(k) <==> exists|i: int|
                0 <= i < layers.len() && layers[i].0 == k,
        layers_distinct(layers) ==> forall|i: int|
            0 <= i < layers.len() ==> layers_map(layers)[#[trigger] layers[i].0] == layers[i].1@,
    decreases layers.len(),
{
    if layers.len() > 0 {
        let front = layers.drop_last();
        lemma_layers_map(front);
        assert forall|k: LayerKind|
            #[trigger] layers_map(layers).dom().contains(k) <==> exists|i: int|
                0 <= i < layers.len() && layers[i].0 == k by {
            if layers_map(front).dom().contains(k) {
                let i = choose|i: int| 0 <= i < front.len() && front[i].0 == k;
                assert(layers[i] == front[i]);
            }
            if exists|i: int| 0 <= i < layers.len() && layers[i].0 == k {
                let i = choose|i: int| 0 <= i < layers.len() && layers[i].0 == k;
                if i < front.len() {
                    assert(front[i] == layers[i]);
                }
            }
        }
        if layers_distinct(layers) {
            assert(layers_distinct(front)) by {
                assert forall|i: int, j: int|
                    0 <= i < front.len() && 0 <= j < front.len() && i != j implies #[trigger] front[i].0
                    != #[trigger] front[j].0 by {
                    assert(front[i] == layers[i] && front[j] == layers[j]);
                }
            }
            assert forall|i: int| 0 <= i < layers.len() implies layers_map(layers)[#[trigger] layers[i].0]
                == layers[i].1@ by {
                if i < front.len() {
                    assert(front[i] == layers[i]);
                    assert(layers[i].0 != layers[layers.len() - 1].0);
                }
            }
        }
    }
}

/// Why a shape could not be removed from a cell type.
#[derive(Debug, Clone, Copy, PartialEq, Eq, Structural)]
pub enum ShapeEditError {
    /// The cell type has no such layer.
    NoLayer,
    /// The layer has no shape with that id.
    NoShape,
}

impl ShapeEditError {
    /// `no layer` or `no shape`.
    pub fn message(&self) -> (m: &'static str)
        ensures
            m@ == (match self {
                ShapeEditError::NoLayer => "no layer"@,
                ShapeEditError::NoShape => "no shape"@,
            }),
    {
        match self {
            ShapeEditError::NoLayer => "no layer",
            ShapeEditError::NoShape => "no shape",
        }
    }
}

impl CellType {
    /// The shapes of each layer.
    pub open spec fn shapes(self) -> Map<LayerKind, Seq<LayerShape>> {
        layers_map(self.layers@)
    }

    /// Each layer occurs at most once.
    pub open spec fn well_formed(self) -> bool {
        layers_distinct(self.layers@)
    }

    /// Whether each layer occurs at most once, that is `well_formed`.
    pub fn has_distinct_layers(&self) -> (r: bool)
        ensures
            r == self.well_formed(),
    {
        let n = self.layers.len();
        let mut i: usize = 0;
        while i < n
            invariant
                n == self.layers@.len(),
                i <= n,
                forall|a: int, b: int|
                    0 <= a < i && 0 <= b < n && a != b ==> #[trigger] self.layers@[a].0
                        != #[trigger] self.layers@[b].0,
            decreases n - i,
        {
            let mut j: usize = i + 1;
            while j < n
                invariant
                    n == self.layers@.len(),
                    i < n,
                    i + 1 <= j <= n,
                    forall|a: int, b: int|
                        0 <= a < i && 0 <= b < n && a != b ==> #[trigger] self.layers@[a].0
                            != #[trigger] self.layers@[b].0,
                    forall|b: int| i < b < j ==> self.layers@[i as int].0 != #[trigger] self.layers@[b].0,
                decreases n - j,
            {
                if self.layers[i].0 == self.layers[j].0 {
                    return false;
                }
                j = j + 1;
            }
            i = i + 1;
        }
        true
    }

    /// The index of `layer` among the entries, if it has one.
    fn find_layer(&self, layer: LayerKind) -> (r: Option<usize>)
        ensures
            match r {
                Some(i) => i < self.layers@.len() && self.layers@[i as int].0 == layer,
                None => forall|i: int| 0 <= i < self.layers@.len() ==> self.layers@[i].0 != layer,
            },
    {
        let mut i: usize = 0;
        while i < self.layers.len()
            invariant
                i <= self.layers@.len(),
                forall|j: int| 0 <= j < i ==> self.layers@[j].0 != layer,
            decreases self.layers@.len() - i,
        {
            if self.layers[i].0 == layer {
                return Some(i);
            }
            i = i + 1;
        }
        None
    }

    /// Changing only the shapes of entry `i` keeps the layers distinct and
    /// changes the map at that entry's layer alone.
    proof fn lemma_replace_entry(
        old_layers: Seq<(LayerKind, Vec<LayerShape>)>,
        new_layers: Seq<(LayerKind, Vec<LayerShape>)>,
        i: int,
    )
        requires
            layers_distinct(old_layers),
            0 <= i < old_layers.len(),
            new_layers.len() == old_layers.len(),
            new_layers[i].0 == old_layers[i].0,
            forall|j: int| 0 <= j < old_layers.len() && j != i ==> new_layers[j] == old_layers[j],
        ensures
            layers_distinct(new_layers),
            layers_map(new_layers) == layers_map(old_layers).insert(old_layers[i].0, new_layers[i].1@),
    {
        assert(layers_distinct(new_layers)) by {
            assert forall|a: int, b: int|
                0 <= a < new_layers.len() && 0 <= b < new_layers.len() && a != b implies #[trigger] new_layers[a].0
                != #[trigger] new_layers[b].0 by {
                assert(old_layers[a].0 != old_layers[b].0);
            }
        }
        lemma_layers_map(old_layers);
        lemma_layers_map(new_layers);
        let m1 = layers_map(new_layers);
        let m2 = layers_map(old_layers).insert(old_layers[i].0, new_layers[i].1@);
        assert forall|k: LayerKind| m1.dom().contains(k) <==> m2.dom().contains(k) by {
            if m1.dom().contains(k) {
                let j = choose|j: int| 0 <= j < new_layers.len() && new_layers[j].0 == k;
                if j != i {
                    assert(old_layers[j].0 == k);
                }
            }
            if layers_map(old_layers).dom().contains(k) {
                let j = choose|j: int| 0 <= j < old_layers.len() && old_layers[j].0 == k;
                if j != i {
                    assert(new_layers[j].0 == k);
                }
            }
        }
        assert forall|k: LayerKind| m1.dom().contains(k) implies m1[k] == m2[k] by {
            let j = choose|j: int| 0 <= j < new_layers.len() && new_layers[j].0 == k;
            assert(m1[new_layers[j].0] == new_layers[j].1@);
            if j != i {
                assert(old_layers[j] == new_layers[j]);
                assert(layers_map(old_layers)[old_layers[j].0] == old_layers[j].1@);
            }
        }
        assert(m1 =~= m2);
    }

    /// Adds a shape at the end of the shapes of `layer`, creating the layer
    /// if the cell type has none yet.
    pub fn add_shape(&mut self, layer: LayerKind, shape: LayerShape)
        requires
            old(self).well_formed(),
        ensures
            final(self).well_formed(),
            final(self).shapes() == old(self).shapes().insert(
                layer,
                if old(self).shapes().dom().contains(layer) {
                    old(self).shapes()[layer].push(shape)
                } else {
                    seq![shape]
                },
            ),
            final(self).id == old(self).id,
            final(self).name@ == old(self).name@,
            final(self).crop_rect == old(self).crop_rect,
            final(self).matched == old(self).matched,
    {
        proof {
            lemma_layers_map(self.layers@);
        }
        match self.find_layer(layer) {
            Some(i) => {
                let ghost old_layers = self.layers@;
                let (k, mut entry) = self.layers.remove(i);
                entry.push(shape);
                self.layers.insert(i, (k, entry));
                proof {
                    assert(old_layers[i as int].0 == layer);
                    Self::lemma_replace_entry(old_layers, self.layers@, i as int);
                }
            },
            None => {
                let mut entry: Vec<LayerShape> = Vec::new();
                entry.push(shape);
                let ghost old_layers = self.layers@;
                self.layers.push((layer, entry));
                proof {
                    assert(self.layers@.drop_last() =~= old_layers);
                    assert(entry@ =~= seq![shape]);
                    assert forall|a: int, b: int|
                        0 <= a < self.layers@.len() && 0 <= b < self.layers@.len() && a != b implies #[trigger] self.layers@[a].0
                        != #[trigger] self.layers@[b].0 by {
                        if a < old_layers.len() && b < old_layers.len() {
                            assert(old_layers[a].0 != old_layers[b].0);
                        }
                    }
                }
            },
        }
    }

    /// Removes the shapes with id `shape_id` from `layer`, and succeeds
    /// exactly when the layer holds such a shape. Fails, changing nothing,
    /// when the cell type has no such layer or the layer no such shape. The
    /// layer stays even when it ends up empty.
    pub fn remove_shape(&mut self, layer: LayerKind, shape_id: u128) -> (r: Result<(), ShapeEditError>)
        requires
            old(self).well_formed(),
        ensures
            final(self).well_formed(),
            !old(self).shapes().dom().contains(layer) ==> r == Err::<(), ShapeEditError>(ShapeEditError::NoLayer),
            old(self).shapes().dom().contains(layer) && !has_id(old(self).shapes()[layer], shape_id)
                ==> r == Err::<(), ShapeEditError>(ShapeEditError::NoShape),
            old(self).shapes().dom().contains(layer) && has_id(old(self).shapes()[layer], shape_id)
                ==> r is Ok,
            r is Err ==> final(self).shapes() == old(self).shapes(),
            r is Ok ==> old(self).shapes().dom().contains(layer) && has_id(old(self).shapes()[layer], shape_id)
                && final(self).shapes() == old(self).shapes().insert(
                layer,
                without_id(old(self).shapes()[layer], shape_id),
            ),
            final(self).id == old(self).id,
            final(self).name@ == old(self).name@,
            final(self).crop_rect == old(self).crop_rect,
            final(self).matched == old(self).matched,
    {
        proof {
            lemma_layers_map(self.layers@);
        }
        let i = match self.find_layer(layer) {
            Some(i) => i,
            None => {
                return Err(ShapeEditError::NoLayer);
            },
        };
        proof {
            assert(self.shapes()[layer] == self.layers@[i as int].1@);
        }
        if !contains_id(&self.layers[i].1, shape_id) {
            return Err(ShapeEditError::NoShape);
        }
        let ghost old_layers = self.layers@;
        let (k, mut entry) = self.layers.remove(i);
        remove_with_id(&mut entry, shape_id);
        self.layers.insert(i, (k, entry));
        proof {
            Self::lemma_replace_entry(old_layers, self.layers@, i as int);
        }
        Ok(())
    }
}

} // verus!
