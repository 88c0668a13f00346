use road_render::cli::{detect_file_kind, log_filter_for, ColorChoice, OutputKind};
use road_render::compositor::{render, RenderParams};
use road_render::fixed::{Q16, Q32};
use road_render::raster::Rgba;
use road_render::rotation::Matrix3;
use road_render::scene::{
    alpha_from_transparency, get_descendants, select_draw_commands, PropValue, RenderConfig,
    SceneError, SceneTree, SelectionRule,
};

fn identity() -> Matrix3 {
    Matrix3 { r00: Q32, r01: 0, r02: 0, r10: 0, r11: Q32, r12: 0, r20: 0, r21: 0, r22: Q32 }
}

fn part_props(px: i64, pz: i64, sx: i64, sz: i64, color: (u8, u8, u8), transparency: i64) -> Vec<(String, PropValue)> {
    vec![
        (
            "CFrame".to_owned(),
            PropValue::Transform { pos_x: px, pos_y: 0, pos_z: pz, rot: identity() },
        ),
        ("Size".to_owned(), PropValue::Vec3 { x: sx, y: Q16, z: sz }),
        (
            "Color".to_owned(),
            PropValue::Color3 { r: color.0, g: color.1, b: color.2 },
        ),
        ("Transparency".to_owned(), PropValue::Scalar { v: transparency }),
    ]
}

#[test]
fn descendants_are_preorder() {
    let mut t = SceneTree::new("Root".to_owned(), "DataModel".to_owned());
    let a = t.add_node(0, "A".to_owned(), "Folder".to_owned(), Vec::new());
    let a1 = t.add_node(a, "A1".to_owned(), "Folder".to_owned(), Vec::new());
    let b = t.add_node(0, "B".to_owned(), "Folder".to_owned(), Vec::new());
    let order = get_descendants(&t, 0);
    assert_eq!(order, vec![a, a1, b]);
}

#[test]
fn exhaustive_mode_emits_parts_in_order() {
    let mut t = SceneTree::new("Root".to_owned(), "DataModel".to_owned());
    let ws = t.add_node(0, "Workspace".to_owned(), "Workspace".to_owned(), Vec::new());
    t.add_node(ws, "First".to_owned(), "Part".to_owned(), part_props(Q16, Q16, Q16, Q16, (1, 2, 3), 0));
    let folder = t.add_node(ws, "Folder".to_owned(), "Folder".to_owned(), Vec::new());
    t.add_node(folder, "Second".to_owned(), "Part".to_owned(), part_props(2 * Q16, 0, Q16, Q16, (4, 5, 6), 0));
    let cmds = select_draw_commands(&t, &RenderConfig::Everything).unwrap();
    assert_eq!(cmds.len(), 2);
    assert_eq!(cmds[0].pos_x, Q16);
    assert_eq!(cmds[0].color, Rgba { r: 1, g: 2, b: 3, a: 255 });
    assert_eq!(cmds[1].pos_x, 2 * Q16);
    assert_eq!(cmds[1].color, Rgba { r: 4, g: 5, b: 6, a: 255 });
}

#[test]
fn exhaustive_mode_needs_workspace() {
    let t = SceneTree::new("Root".to_owned(), "DataModel".to_owned());
    let r = select_draw_commands(&t, &RenderConfig::Everything);
    assert_eq!(r.unwrap_err(), SceneError::MissingWorkspace);
}

#[test]
fn exhaustive_mode_fails_on_part_without_size() {
    let mut t = SceneTree::new("Root".to_owned(), "DataModel".to_owned());
    let ws = t.add_node(0, "Workspace".to_owned(), "Workspace".to_owned(), Vec::new());
    let props = vec![(
        "CFrame".to_owned(),
        PropValue::Transform { pos_x: 0, pos_y: 0, pos_z: 0, rot: identity() },
    )];
    t.add_node(ws, "Broken".to_owned(), "Part".to_owned(), props);
    let r = select_draw_commands(&t, &RenderConfig::Everything);
    assert_eq!(r.unwrap_err(), SceneError::MissingProperty);
}

#[test]
fn transparency_becomes_alpha() {
    let mut t = SceneTree::new("Root".to_owned(), "DataModel".to_owned());
    let ws = t.add_node(0, "Workspace".to_owned(), "Workspace".to_owned(), Vec::new());
    // Transparency 0.5 rounds to alpha 128.
    t.add_node(ws, "Glass".to_owned(), "Part".to_owned(), part_props(0, 0, Q16, Q16, (9, 9, 9), Q16 / 2));
    let cmds = select_draw_commands(&t, &RenderConfig::Everything).unwrap();
    assert_eq!(cmds[0].color.a, 128);
}

#[test]
fn alpha_from_transparency_values() {
    assert_eq!(alpha_from_transparency(0), 255);
    assert_eq!(alpha_from_transparency(Q16), 0);
    assert_eq!(alpha_from_transparency(Q16 / 2), 128);
    // Out-of-range transparencies clamp.
    assert_eq!(alpha_from_transparency(-Q16), 255);
    assert_eq!(alpha_from_transparency(10 * Q16), 0);
}

fn road_tree() -> SceneTree {
    let mut t = SceneTree::new("Root".to_owned(), "DataModel".to_owned());
    let ws = t.add_node(0, "Workspace".to_owned(), "Workspace".to_owned(), Vec::new());
    let map = t.add_node(ws, "Map".to_owned(), "Folder".to_owned(), Vec::new());
    let roads = t.add_node(map, "Roads".to_owned(), "Folder".to_owned(), Vec::new());
    let seg = t.add_node(roads, "RoadSegment".to_owned(), "Model".to_owned(), Vec::new());
    t.add_node(seg, "Base".to_owned(), "Part".to_owned(), part_props(3 * Q16, 4 * Q16, 2 * Q16, Q16, (99, 88, 77), 0));
    t
}

#[test]
fn selective_mode_uses_rule_color() {
    let t = road_tree();
    let rule = SelectionRule {
        color_r: 10,
        color_g: 20,
        color_b: 30,
        path: vec!["Workspace".to_owned(), "Map".to_owned(), "Roads".to_owned()],
        part_name: "Base".to_owned(),
    };
    let cmds = select_draw_commands(&t, &RenderConfig::Rules(vec![rule])).unwrap();
    assert_eq!(cmds.len(), 1);
    assert_eq!(cmds[0].pos_x, 3 * Q16);
    assert_eq!(cmds[0].pos_z, 4 * Q16);
    // The rule's color wins over the node's own color property.
    assert_eq!(cmds[0].color, Rgba { r: 10, g: 20, b: 30, a: 255 });
}

#[test]
fn selective_mode_missing_segment_fails() {
    let t = road_tree();
    // The path is resolved from the tree root, whose only child is
    // "Workspace", so a path that starts at "Map" cannot resolve.
    let rule = SelectionRule {
        color_r: 10,
        color_g: 20,
        color_b: 30,
        path: vec!["Map".to_owned(), "Roads".to_owned()],
        part_name: "Base".to_owned(),
    };
    let r = select_draw_commands(&t, &RenderConfig::Rules(vec![rule]));
    assert_eq!(r.unwrap_err(), SceneError::MissingPathSegment);
}

#[test]
fn render_everything_paints_a_part() {
    let mut t = SceneTree::new("Root".to_owned(), "DataModel".to_owned());
    let ws = t.add_node(0, "Workspace".to_owned(), "Workspace".to_owned(), Vec::new());
    t.add_node(ws, "Slab".to_owned(), "Part".to_owned(), part_props(8 * Q16, 8 * Q16, 4 * Q16, 4 * Q16, (255, 0, 0), 0));
    let params = RenderParams { width: 16, height: 16, scale: Q16, center_x: 0, center_z: 0 };
    let cv = render(&t, &RenderConfig::Everything, params).unwrap();
    let at = |px: usize, pz: usize| {
        let base = (pz * 16 + px) * 4;
        (cv.data[base], cv.data[base + 1], cv.data[base + 2], cv.data[base + 3])
    };
    assert_eq!(at(8, 8), (255, 0, 0, 255));
    assert_eq!(at(6, 6), (255, 0, 0, 255));
    assert_eq!(at(5, 8), (0, 0, 0, 0));
    assert_eq!(at(8, 9), (255, 0, 0, 255));
    assert_eq!(at(8, 10), (0, 0, 0, 0));
}

#[test]
fn render_reports_selection_errors() {
    let t = SceneTree::new("Root".to_owned(), "DataModel".to_owned());
    let params = RenderParams { width: 4, height: 4, scale: Q16, center_x: 0, center_z: 0 };
    let r = render(&t, &RenderConfig::Everything, params);
    assert_eq!(r.unwrap_err(), SceneError::MissingWorkspace);
}

#[test]
fn file_kind_detection() {
    assert_eq!(detect_file_kind("place.rbxl"), Some(OutputKind::Rbxl));
    assert_eq!(detect_file_kind("maps/town.rbxlx"), Some(OutputKind::Rbxlx));
    assert_eq!(detect_file_kind("place.txt"), None);
    assert_eq!(detect_file_kind("rbxl"), None);
    assert_eq!(detect_file_kind(""), None);
}

#[test]
fn file_kind_follows_extension_semantics() {
    // A final component that begins with the dot has no extension.
    assert_eq!(detect_file_kind(".rbxl"), None);
    assert_eq!(detect_file_kind("/.rbxl"), None);
    assert_eq!(detect_file_kind("maps/.rbxlx"), None);
    // Trailing separators are stripped before the component is read.
    assert_eq!(detect_file_kind("place.rbxl/"), Some(OutputKind::Rbxl));
    assert_eq!(detect_file_kind("place.rbxlx///"), Some(OutputKind::Rbxlx));
    // A dotted name with an earlier dot does have an extension.
    assert_eq!(detect_file_kind("..rbxl"), Some(OutputKind::Rbxl));
    // Only the final component counts.
    assert_eq!(detect_file_kind("dir.rbxl/file.txt"), None);
    assert_eq!(detect_file_kind("/"), None);
}

#[test]
fn color_choice_parsing() {
    assert_eq!(ColorChoice::from_str("auto").unwrap(), ColorChoice::Auto);
    assert_eq!(ColorChoice::from_str("always").unwrap(), ColorChoice::Always);
    assert_eq!(ColorChoice::from_str("never").unwrap(), ColorChoice::Never);
    let err = ColorChoice::from_str("sometimes").unwrap_err();
    assert_eq!(err.attempted, "sometimes");
    assert!(err.message().contains("auto"));
}

#[test]
fn log_filter_per_verbosity() {
    assert_eq!(log_filter_for(0), "info");
    assert_eq!(log_filter_for(1), "info,librojo=debug");
    assert_eq!(log_filter_for(2), "info,librojo=trace");
    assert_eq!(log_filter_for(7), "trace");
}

#[test]
fn selective_mode_applies_rules_in_order() {
    // Two rules on the same tree: their command blocks come out in rule
    // order, so the later rule paints over the earlier one.
    let t = road_tree();
    let mk = |r: u8, name: &str| SelectionRule {
        color_r: r,
        color_g: 0,
        color_b: 0,
        path: vec!["Workspace".to_owned(), "Map".to_owned()],
        part_name: name.to_owned(),
    };
    let cmds = select_draw_commands(
        &t,
        &RenderConfig::Rules(vec![mk(1, "Base"), mk(2, "Base")]),
    )
    .unwrap();
    assert_eq!(cmds.len(), 2);
    assert_eq!(cmds[0].color.r, 1);
    assert_eq!(cmds[1].color.r, 2);
}
