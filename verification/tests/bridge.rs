use flexy_reds::elem::{Elem, ElemKind};
use flexy_reds::layout_tree::{build, LayoutNode};
use flexy_reds::render::{flatten, render_plan, GeomNode, RenderStep};

fn leaf(text: &str) -> Elem {
    Elem::new_text(text, None, None)
}

#[test]
fn build_preserves_tree_shape() {
    let tree = Elem::new_box(
        vec![leaf("a"), Elem::new_box(vec![leaf("b"), leaf("c")], None), leaf("d")],
        None,
    );
    let node = build(&tree);
    assert_eq!(node.children.len(), 3);
    assert_eq!(node.children[0].children.len(), 0);
    assert_eq!(node.children[1].children.len(), 2);
    assert_eq!(node.children[2].children.len(), 0);
    assert!(matches!(node.context, ElemKind::Box { .. }));
    assert!(matches!(
        &node.children[1].children[0].context,
        ElemKind::Text { content, .. } if content == "b"
    ));
}

#[test]
fn build_extracts_seventeen_properties() {
    let node = build(&leaf("x"));
    assert_eq!(node.props.len(), 17);
    assert!(node.children.is_empty());
}

fn geom(tag: &str, xy: (f32, f32), children: Vec<GeomNode<String, (f32, f32)>>) -> GeomNode<
    String,
    (f32, f32),
> {
    GeomNode { context: tag.to_string(), geom: xy, children }
}

#[test]
fn render_plan_orders_whole_walk() {
    // root(0) { a(1) { b(2) }, c(3) }
    let t = geom(
        "root",
        (0.0, 0.0),
        vec![geom("a", (1.0, 1.0), vec![geom("b", (2.0, 2.0), vec![])]), geom(
            "c",
            (3.0, 3.0),
            vec![],
        )],
    );
    let plan = render_plan(&t);
    assert_eq!(
        plan,
        vec![
            RenderStep::Materialize { node: 0 },
            RenderStep::Materialize { node: 1 },
            RenderStep::Materialize { node: 2 },
            RenderStep::Attach { parent: 1, child: 2 },
            RenderStep::Attach { parent: 0, child: 1 },
            RenderStep::Materialize { node: 3 },
            RenderStep::Attach { parent: 0, child: 3 },
        ]
    );
}

#[test]
fn render_plan_single_node_only_materializes() {
    let t = geom("only", (5.0, 6.0), vec![]);
    assert_eq!(render_plan(&t), vec![RenderStep::Materialize { node: 0 }]);
}

#[test]
fn flatten_lists_nodes_in_preorder() {
    let t = geom(
        "root",
        (0.0, 0.0),
        vec![geom("a", (1.0, 1.0), vec![geom("b", (2.0, 2.0), vec![])]), geom(
            "c",
            (3.0, 3.0),
            vec![],
        )],
    );
    let flat = flatten(&t);
    let names: Vec<&str> = flat.iter().map(|(c, _)| c.as_str()).collect();
    assert_eq!(names, vec!["root", "a", "b", "c"]);
    assert_eq!(*flat[2].1, (2.0, 2.0));
}

#[test]
fn plan_attaches_every_widget_once_under_its_parent() {
    // a wider tree: root(0) { a(1), b(2) { c(3), d(4) }, e(5) }
    let t = geom(
        "root",
        (0.0, 0.0),
        vec![
            geom("a", (0.0, 1.0), vec![]),
            geom("b", (0.0, 2.0), vec![geom("c", (0.0, 3.0), vec![]), geom(
                "d",
                (0.0, 4.0),
                vec![],
            )]),
            geom("e", (0.0, 5.0), vec![]),
        ],
    );
    let plan = render_plan(&t);
    let mats: Vec<usize> = plan
        .iter()
        .filter_map(|s| match s {
            RenderStep::Materialize { node } => Some(*node),
            _ => None,
        })
        .collect();
    assert_eq!(mats, vec![0, 1, 2, 3, 4, 5]);
    let mut attached: Vec<(usize, usize)> = plan
        .iter()
        .filter_map(|s| match s {
            RenderStep::Attach { parent, child } => Some((*parent, *child)),
            _ => None,
        })
        .collect();
    assert_eq!(attached.len(), 5);
    attached.sort();
    assert_eq!(attached, vec![(0, 1), (0, 2), (0, 5), (2, 3), (2, 4)]);
}

#[test]
fn build_then_plan_cover_every_element() {
    // the bridge end to end: element tree -> layout tree -> (mock geometry) -> plan
    let tree = Elem::new_box(vec![leaf("a"), Elem::new_box(vec![leaf("b")], None)], None);
    let lt = build(&tree);
    let gt = mock_geometry(&lt);
    let plan = render_plan(&gt);
    let mats = plan
        .iter()
        .filter(|s| matches!(s, RenderStep::Materialize { .. }))
        .count();
    assert_eq!(mats, 4);
}

/// A stub layout engine: gives every node a zero geometry, keeping shape.
fn mock_geometry(n: &LayoutNode) -> GeomNode<ElemKind, (f32, f32, f32, f32)> {
    GeomNode {
        context: n.context.clone(),
        geom: (0.0, 0.0, 0.0, 0.0),
        children: n.children.iter().map(mock_geometry).collect(),
    }
}
