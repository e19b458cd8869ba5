use backend2::die::db::DieParamKind;
use backend2::params::domain::{
    remove_with_id, Cell, CellRotation, CellType, Guide, GuideKind, GuideKindLineAxis,
    HumanAnnotation, HumanAnnotationClass, HumanAnnotationShape, IgnoreRect, IsParamKind,
    LayerKind, LayerShape, Net, NetEdge, NetNode, Pin, Rect, Shape, ShapeEditError, ShapeLabel,
    WireLayer, ROI,
};
use backend2::params::request::{
    Annotations, CellInstanceRequest, CellTypeLayerShape, CellTypeRequest, GuideRequest,
    IgnoreRectRequest, MissingShapeField, NetRequest, PinRequest, ROIRequest,
};

fn rect_shape(id: u128, x: u32) -> LayerShape {
    LayerShape {
        id,
        shape: Shape::Rect { x, y: 2, width: 3, height: 4 },
        label: Some(ShapeLabel::Vcc),
        forced_type: None,
        custom_name: None,
    }
}

fn cell_type(layers: Vec<(LayerKind, Vec<LayerShape>)>) -> CellType {
    CellType {
        id: 7,
        name: "nand".to_string(),
        crop_rect: Rect { x: 0, y: 0, width: 20, height: 30 },
        layers,
        matched: true,
    }
}

fn request_shape(id: u128, x: Option<u32>, y: Option<u32>, w: Option<u32>, h: Option<u32>) -> CellTypeLayerShape {
    CellTypeLayerShape { id, kind: "rect".to_string(), x, y, width: w, height: h, label: None }
}

#[test]
fn layer_names() {
    assert_eq!(LayerKind::from_str("diffusion"), Ok(LayerKind::Diffusion));
    assert_eq!(LayerKind::from_str("polysilicon"), Ok(LayerKind::Polysilicon));
    assert_eq!(LayerKind::from_str("metal1"), Ok(LayerKind::Metal1));
    assert_eq!(LayerKind::from_str("metal2"), Ok(LayerKind::Metal2));
    assert_eq!(LayerKind::from_str("contact"), Ok(LayerKind::Contact));
    assert_eq!(LayerKind::from_str("via1"), Ok(LayerKind::Via));
    assert_eq!(LayerKind::from_str("wire_hitbox"), Ok(LayerKind::WireHitbox));
}

#[test]
fn unknown_layer_is_refused() {
    let e = LayerKind::from_str("via").unwrap_err();
    assert_eq!(e.name, "via");
    assert_eq!(e.message(), "invalid layer: via");
    assert!(LayerKind::from_str("Metal1").is_err());
    assert!(LayerKind::from_str("").is_err());
}

#[test]
fn param_kind_names() {
    let all = [
        (DieParamKind::Net, "net"),
        (DieParamKind::CellType, "cell_type"),
        (DieParamKind::Cell, "cell"),
        (DieParamKind::Grid, "grid"),
        (DieParamKind::Pin, "pin"),
        (DieParamKind::HumanAnnotation, "annotation"),
        (DieParamKind::ROI, "roi"),
        (DieParamKind::IgnoreRect, "ignore"),
        (DieParamKind::Guide, "guide"),
    ];
    for (k, name) in all {
        assert_eq!(k.as_ref(), name);
    }
    let mut names: Vec<&str> = all.iter().map(|(k, _)| k.as_ref()).collect();
    names.sort();
    names.dedup();
    assert_eq!(names.len(), 9);
}

#[test]
fn only_cells_and_cell_types_need_clips() {
    assert!(DieParamKind::Cell.needs_clip());
    assert!(DieParamKind::CellType.needs_clip());
    assert!(!DieParamKind::Net.needs_clip());
    assert!(!DieParamKind::Guide.needs_clip());
    assert_eq!(Cell::kind(), DieParamKind::Cell);
    assert_eq!(CellType::kind(), DieParamKind::CellType);
    assert_eq!(HumanAnnotation::kind(), DieParamKind::HumanAnnotation);
}

#[test]
fn add_shape_appends_and_creates_layers() {
    let mut ct = cell_type(vec![(LayerKind::Metal1, vec![rect_shape(1, 0)])]);
    ct.add_shape(LayerKind::Metal1, rect_shape(2, 5));
    ct.add_shape(LayerKind::Contact, rect_shape(3, 6));
    assert_eq!(ct.layers.len(), 2);
    assert_eq!(ct.layers[0].0, LayerKind::Metal1);
    assert_eq!(ct.layers[0].1, vec![rect_shape(1, 0), rect_shape(2, 5)]);
    assert_eq!(ct.layers[1], (LayerKind::Contact, vec![rect_shape(3, 6)]));
    assert_eq!(ct.get_id(), 7);
}

#[test]
fn remove_shape_outcomes() {
    let mut ct = cell_type(vec![(LayerKind::Metal1, vec![rect_shape(1, 0), rect_shape(2, 1), rect_shape(1, 9)])]);
    assert_eq!(ct.remove_shape(LayerKind::Via, 1), Err(ShapeEditError::NoLayer));
    assert_eq!(ct.remove_shape(LayerKind::Metal1, 5), Err(ShapeEditError::NoShape));
    assert_eq!(ct.layers[0].1.len(), 3);
    assert_eq!(ct.remove_shape(LayerKind::Metal1, 1), Ok(()));
    assert_eq!(ct.layers[0].1, vec![rect_shape(2, 1)]);
    assert_eq!(ct.remove_shape(LayerKind::Metal1, 2), Ok(()));
    assert_eq!(ct.layers, vec![(LayerKind::Metal1, vec![])]);
    assert_eq!(ShapeEditError::NoLayer.message(), "no layer");
    assert_eq!(ShapeEditError::NoShape.message(), "no shape");
}

#[test]
fn net_edits() {
    let mut net = Net { id: 1, name: "vcc".to_string(), nodes: vec![], edges: vec![] };
    let n = |id| NetNode { id, x_bits: 1.5f32.to_bits(), y_bits: 2.0f32.to_bits() };
    net.add_node(n(10));
    net.add_node(n(11));
    net.add_node(n(10));
    net.remove_node(10);
    assert_eq!(net.nodes, vec![n(11)]);
    let e = |id| NetEdge { id, from: 10, to: 11, layer: Some(WireLayer::Metal2) };
    net.add_edge(e(20));
    net.add_edge(e(21));
    net.remove_edge(20);
    net.remove_edge(99);
    assert_eq!(net.edges, vec![e(21)]);
    assert_eq!(f32::from_bits(net.nodes[0].x_bits), 1.5);
}

#[test]
fn remove_with_id_keeps_order() {
    let mut v = vec![rect_shape(1, 0), rect_shape(2, 1), rect_shape(3, 2), rect_shape(2, 3)];
    remove_with_id(&mut v, 2);
    assert_eq!(v, vec![rect_shape(1, 0), rect_shape(3, 2)]);
}

#[test]
fn cell_requests() {
    let rq = CellInstanceRequest { id: 1, cell_type_id: 2, x: 3, y: 4 };
    let cell: Cell = (99, rq).into();
    assert_eq!(
        cell,
        Cell {
            id: 1,
            cell_type_id: 2,
            x: 3,
            y: 4,
            flipped_vertical: false,
            flipped_horizontal: false,
            rotation: CellRotation::Rot0,
            merged: false
        }
    );
    let back: CellInstanceRequest = Cell { merged: true, ..cell }.into();
    assert_eq!(back, rq);
}

#[test]
fn shape_requests() {
    let r = CellTypeLayerShape::from(rect_shape(5, 1));
    assert_eq!(r.kind, "rect");
    assert_eq!((r.x, r.y, r.width, r.height), (Some(1), Some(2), Some(3), Some(4)));
    assert_eq!(r.label, Some(ShapeLabel::Vcc));
    let back = LayerShape::try_from(r).unwrap();
    assert_eq!(back, rect_shape(5, 1));
    assert_eq!(
        LayerShape::try_from(request_shape(1, Some(1), None, None, Some(4))),
        Err(MissingShapeField::Y)
    );
    assert_eq!(
        LayerShape::try_from(request_shape(1, Some(1), Some(2), Some(3), None)),
        Err(MissingShapeField::Height)
    );
    assert_eq!(MissingShapeField::Width.message(), "no width");
}

#[test]
fn cell_type_requests() {
    let ct = cell_type(vec![
        (LayerKind::Metal1, vec![rect_shape(1, 0), rect_shape(2, 1)]),
        (LayerKind::Diffusion, vec![rect_shape(3, 2)]),
    ]);
    let rq = CellTypeRequest::from(ct.clone());
    assert_eq!(rq.id, 7);
    assert_eq!(rq.name, "nand");
    assert_eq!(rq.layers.len(), 2);
    assert_eq!(rq.layers[1].0, LayerKind::Diffusion);
    assert_eq!(rq.layers[0].1[1].x, Some(1));
    let back = CellType::try_from((7, rq)).unwrap();
    assert_eq!(back, CellType { matched: false, ..ct });

    let bad = CellTypeRequest {
        id: 1,
        name: "x".to_string(),
        crop_rect: Rect { x: 0, y: 0, width: 1, height: 1 },
        layers: vec![
            (LayerKind::Metal1, vec![request_shape(1, Some(1), Some(1), Some(1), Some(1))]),
            (LayerKind::Metal2, vec![request_shape(2, Some(1), Some(1), None, Some(1)), request_shape(3, None, None, None, None)]),
        ],
    };
    assert_eq!(CellType::try_from((1, bad)), Err(MissingShapeField::Width));
}

#[test]
fn other_requests_round_trip() {
    let net = Net { id: 1, name: "n".to_string(), nodes: vec![], edges: vec![] };
    let rq: NetRequest = net.clone().into();
    let back: Net = (0, rq).into();
    assert_eq!(back, net);

    let pin = Pin { id: 2, name: "A".to_string(), x: 1, y: 2, pin: 3 };
    let rq: PinRequest = pin.clone().into();
    assert_eq!(rq.pin, 3);
    let back: Pin = (0, rq).into();
    assert_eq!(back, pin);

    let roi = ROI { id: 3, rect: Rect { x: 1, y: 2, width: 3, height: 4 }, classes: vec![HumanAnnotationClass::Trace] };
    let rq: ROIRequest = roi.clone().into();
    assert_eq!((rq.x, rq.y, rq.width, rq.height), (1, 2, 3, 4));
    let back: ROI = (0, rq).into();
    assert_eq!(back, roi);

    let ig = IgnoreRect { id: 4, rect: Rect { x: 5, y: 6, width: 7, height: 8 } };
    let rq: IgnoreRectRequest = ig.into();
    assert_eq!(rq, IgnoreRectRequest { id: 4, x: 5, y: 6, width: 7, height: 8 });
    let back: IgnoreRect = (0, rq).into();
    assert_eq!(back, ig);

    let g = Guide { id: 5, kind: GuideKind::Line { axis: GuideKindLineAxis::Y, pos: 40 } };
    let rq: GuideRequest = g.into();
    assert_eq!(rq, GuideRequest::Line { id: 5, axis: GuideKindLineAxis::Y, pos: 40 });
    let back: Guide = (0, rq).into();
    assert_eq!(back, g);
    let seg: GuideRequest = Guide { id: 6, kind: GuideKind::Segment { x1: 1, y1: 2, x2: 3, y2: 4 } }.into();
    assert_eq!(seg, GuideRequest::Segment { id: 6, x1: 1, y1: 2, x2: 3, y2: 4 });
}

#[test]
fn annotations_from_params() {
    let a = HumanAnnotation {
        id: 9,
        class: HumanAnnotationClass::PointVia,
        geometry: HumanAnnotationShape::Point { x: 1, y: 2 },
        source: None,
    };
    let ann = Annotations::from_params(
        42,
        vec![Net { id: 1, name: "n".to_string(), nodes: vec![], edges: vec![] }],
        vec![cell_type(vec![(LayerKind::Via, vec![rect_shape(1, 1)])])],
        vec![],
        vec![],
        vec![Pin { id: 2, name: "p".to_string(), x: 0, y: 0, pin: 1 }],
        vec![a],
        vec![],
        vec![IgnoreRect { id: 4, rect: Rect { x: 0, y: 0, width: 1, height: 1 } }],
        vec![],
    );
    assert_eq!(ann.version, 2);
    assert_eq!(ann.revision, 42);
    assert_eq!(ann.nets.len(), 1);
    assert_eq!(ann.cell_types[0].layers[0].1[0].kind, "rect");
    assert_eq!(ann.pins[0].name, "p");
    assert_eq!(ann.annotations[0].id, 9);
    assert_eq!(ann.ignores[0].id, 4);
    assert!(ann.grids.is_empty() && ann.cells.is_empty() && ann.rois.is_empty() && ann.guides.is_empty());
}

#[test]
fn removing_a_fresh_item_undoes_adding_it() {
    let mut net = Net { id: 1, name: "n".to_string(), nodes: vec![], edges: vec![] };
    net.add_node(NetNode { id: 1, x_bits: 0, y_bits: 0 });
    let before = net.clone();
    net.add_node(NetNode { id: 2, x_bits: 3, y_bits: 4 });
    net.remove_node(2);
    assert_eq!(net, before);
    net.remove_node(2);
    assert_eq!(net, before);
}

#[test]
fn empty_stored_annotations() {
    let a = backend2::annotations::Annotations::default();
    assert_eq!(a.version, 2);
    assert_eq!(a.revision, 0);
    assert!(a.nets.is_empty() && a.cell_types.is_empty() && a.cells.is_empty());
    assert!(a.grids.is_empty() && a.pins.is_empty() && a.annotations.is_empty());
    assert!(a.rios.is_empty() && a.ignores.is_empty() && a.guides.is_empty());
}

#[test]
fn distinct_layers_are_checked() {
    let ok = cell_type(vec![(LayerKind::Metal1, vec![]), (LayerKind::Via, vec![rect_shape(1, 0)])]);
    assert!(ok.has_distinct_layers());
    let twice = cell_type(vec![
        (LayerKind::Metal1, vec![]),
        (LayerKind::Via, vec![]),
        (LayerKind::Metal1, vec![rect_shape(1, 0)]),
    ]);
    assert!(!twice.has_distinct_layers());
    assert!(cell_type(vec![]).has_distinct_layers());
}
