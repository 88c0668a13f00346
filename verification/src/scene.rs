//! The scene tree and the two selection modes that turn it into draw
//! commands.
//!
//! Nodes live in an arena and refer to their children by index; a
//! well-formed tree's child indices always exceed the parent's, which both
//! rules out cycles and gives every traversal an obvious termination
//! measure. Each node carries a property bag of typed values queried by
//! name. Selection walks the tree in pre-order and emits draw commands in
//! traversal order; there is no depth test, so later commands paint over
//! earlier ones.

use vstd::prelude::*;

verus! {

use crate::rotation::{Matrix3, wf_matrix};
use crate::raster::Rgba;
use crate::project::MAX_WORLD_Q16;

/// A typed property value: vector, transform, color triple or scalar.
#[derive(Debug)]
pub enum PropValue {
    /// A 3D vector, components `Q16`.
    Vec3 { x: i64, y: i64, z: i64 },
    /// A position (`Q16`) with a rotation matrix (`Q32`).
    Transform { pos_x: i64, pos_y: i64, pos_z: i64, rot: Matrix3 },
    /// An RGB byte triple.
    Color3 { r: u8, g: u8, b: u8 },
    /// A scalar, `Q16`.
    Scalar { v: i64 },
}

/// Numeric sanity of a property value: vectors and positions within the
/// world range, matrices with entries in `[-1, 1]`.
pub open spec fn wf_prop(p: PropValue) -> bool {
    match p {
        PropValue::Vec3 { x, y, z } => {
            &&& -MAX_WORLD_Q16 <= x <= MAX_WORLD_Q16
            &&& -MAX_WORLD_Q16 <= y <= MAX_WORLD_Q16
            &&& -MAX_WORLD_Q16 <= z <= MAX_WORLD_Q16
        },
        PropValue::Transform { pos_x, pos_y, pos_z, rot } => {
            &&& -MAX_WORLD_Q16 <= pos_x <= MAX_WORLD_Q16
            &&& -MAX_WORLD_Q16 <= pos_y <= MAX_WORLD_Q16
            &&& -MAX_WORLD_Q16 <= pos_z <= MAX_WORLD_Q16
            &&& wf_matrix(rot)
        },
        PropValue::Color3 { .. } => true,
        PropValue::Scalar { .. } => true,
    }
}

/// A named node with a class tag, child references and a property bag.
#[derive(Debug)]
pub struct SceneNode {
    pub name: String,
    pub class: String,
    pub children: Vec<usize>,
    pub props: Vec<(String, PropValue)>,
}

/// The arena of nodes; index 0 is the root.
#[derive(Debug)]
pub struct SceneTree {
    pub nodes: Vec<SceneNode>,
}

/// Well-formed tree: nonempty, every child index exceeds its parent's and
/// stays in range, and every property value is numerically sane.
pub open spec fn wf_tree(t: SceneTree) -> bool {
    &&& t.nodes.len() >= 1
    &&& forall|i: int, k: int|
        0 <= i < t.nodes.len() && 0 <= k < t.nodes[i].children.len()
            ==> i < #[trigger] t.nodes[i].children[k] < t.nodes.len()
    &&& forall|i: int, k: int|
        0 <= i < t.nodes.len() && 0 <= k < t.nodes[i].props.len()
            ==> wf_prop(#[trigger] t.nodes[i].props[k].1)
}

/// Index of the first property with the given name, if any, scanning from
/// position `j`.
pub open spec fn spec_find_prop_from(props: Seq<(String, PropValue)>, name: Seq<char>, j: int) -> Option<int>
    decreases props.len() - j,
{
    if j < 0 || j >= props.len() {
        None
    } else if props[j].0@ == name {
        Some(j)
    } else {
        spec_find_prop_from(props, name, j + 1)
    }
}

/// The first property value stored under the given name, if any.
pub open spec fn spec_lookup(props: Seq<(String, PropValue)>, name: Seq<char>) -> Option<PropValue> {
    match spec_find_prop_from(props, name, 0) {
        Some(j) => Some(props[j].1),
        None => None,
    }
}

impl SceneNode {
    /// Finds the first property with the given name.
    pub fn find_prop(&self, name: &String) -> (r: Option<usize>)
        ensures
            (r is Some <==> spec_find_prop_from(self.props@, name@, 0) is Some),
            r is Some ==> r->0 as int == spec_find_prop_from(self.props@, name@, 0)->0
                && 0 <= r->0 < self.props@.len(),
    {
        let n = self.props.len();
        let mut j: usize = 0;
        while j < n
            invariant
                j <= n,
                n == self.props@.len(),
                spec_find_prop_from(self.props@, name@, 0) == spec_find_prop_from(self.props@, name@, j as int),
            decreases n - j,
        {
            if self.props[j].0 == *name {
                return Some(j);
            }
            j = j + 1;
        }
        None
    }
}

/// The descendants of the node, in pre-order, not including the node
/// itself: each child followed by its own descendants, in sibling order.
pub open spec fn spec_descendants(t: SceneTree, idx: int) -> Seq<usize>
    decreases t.nodes.len() - idx, t.nodes[idx].children.len() + 1,
        when wf_tree(t) && 0 <= idx < t.nodes.len()
{
    spec_descendants_from(t, idx, 0)
}

/// The part of the pre-order listing contributed by children `k..` of node
/// `idx`.
pub open spec fn spec_descendants_from(t: SceneTree, idx: int, k: int) -> Seq<usize>
    decreases t.nodes.len() - idx, t.nodes[idx].children.len() - k,
        when wf_tree(t) && 0 <= idx < t.nodes.len() && 0 <= k
{
    if k >= t.nodes[idx].children.len() {
        Seq::empty()
    } else {
        let c = t.nodes[idx].children[k];
        seq![c] + spec_descendants(t, c as int) + spec_descendants_from(t, idx, k + 1)
    }
}

/// Appends the pre-order descendants of node `idx` to `out`.
fn push_descendants(t: &SceneTree, idx: usize, out: &mut Vec<usize>)
    requires
        wf_tree(*t),
        idx < t.nodes@.len(),
    ensures
        final(out)@ == old(out)@ + spec_descendants(*t, idx as int),
    decreases t.nodes@.len() - idx, t.nodes@[idx as int].children@.len() + 1,
{
    push_descendants_from(t, idx, 0, out);
}

/// Appends the descendants contributed by children `k..` of node `idx`.
fn push_descendants_from(t: &SceneTree, idx: usize, k: usize, out: &mut Vec<usize>)
    requires
        wf_tree(*t),
        idx < t.nodes@.len(),
    ensures
        final(out)@ == old(out)@ + spec_descendants_from(*t, idx as int, k as int),
    decreases t.nodes@.len() - idx, t.nodes@[idx as int].children@.len() - k,
{
    let node_children = t.nodes[idx].children.len();
    if k >= node_children {
        proof {
            assert(out@ =~= old(out)@ + spec_descendants_from(*t, idx as int, k as int));
        }
        return;
    }
    let c = t.nodes[idx].children[k];
    out.push(c);
    push_descendants(t, c, out);
    push_descendants_from(t, idx, k + 1, out);
    proof {
        assert(out@ =~= old(out)@ + spec_descendants_from(*t, idx as int, k as int));
    }
}

/// All descendants of the node, in pre-order, not including the node
/// itself.
pub fn get_descendants(t: &SceneTree, idx: usize) -> (r: Vec<usize>)
    requires
        wf_tree(*t),
        idx < t.nodes@.len(),
    ensures
        r@ == spec_descendants(*t, idx as int),
{
    let mut out: Vec<usize> = Vec::new();
    push_descendants(t, idx, &mut out);
    out
}

/// Every listed descendant is a valid index beyond its ancestor.
pub proof fn lemma_descendants_in_range(t: SceneTree, idx: int)
    requires
        wf_tree(t),
        0 <= idx < t.nodes.len(),
    ensures
        forall|j: int| 0 <= j < spec_descendants(t, idx).len()
            ==> idx < #[trigger] spec_descendants(t, idx)[j] < t.nodes.len(),
    decreases t.nodes.len() - idx, t.nodes[idx].children.len() + 1,
{
    lemma_descendants_from_in_range(t, idx, 0);
    let s = spec_descendants(t, idx);
    assert(s == spec_descendants_from(t, idx, 0));
    assert forall|j: int| 0 <= j < s.len() implies idx < #[trigger] s[j] < t.nodes.len() by {
        assert(s[j] == spec_descendants_from(t, idx, 0)[j]);
    }
}

/// Range lemma for the suffix form.
proof fn lemma_descendants_from_in_range(t: SceneTree, idx: int, k: int)
    requires
        wf_tree(t),
        0 <= idx < t.nodes.len(),
        0 <= k,
    ensures
        forall|j: int| 0 <= j < spec_descendants_from(t, idx, k).len()
            ==> idx < #[trigger] spec_descendants_from(t, idx, k)[j] < t.nodes.len(),
    decreases t.nodes.len() - idx, t.nodes[idx].children.len() - k,
{
    if k < t.nodes[idx].children.len() {
        let c = t.nodes[idx].children[k];
        lemma_descendants_in_range(t, c as int);
        lemma_descendants_from_in_range(t, idx, k + 1);
        let s = spec_descendants_from(t, idx, k);
        let mid = spec_descendants(t, c as int);
        let rest = spec_descendants_from(t, idx, k + 1);
        assert forall|j: int| 0 <= j < s.len() implies idx < #[trigger] s[j] < t.nodes.len() by {
            if j == 0 {
                assert(s[j] == c);
            } else if j < 1 + mid.len() {
                assert(s[j] == mid[j - 1]);
            } else {
                assert(s[j] == rest[j - 1 - mid.len()]);
            }
        }
    }
}

/// The first child of node `idx` named `name`, scanning children from
/// position `k`.
pub open spec fn spec_find_child_from(t: SceneTree, idx: int, name: Seq<char>, k: int) -> Option<usize>
    decreases t.nodes[idx].children.len() - k,
{
    if k < 0 || idx < 0 || idx >= t.nodes.len() || k >= t.nodes[idx].children.len() {
        None
    } else {
        let c = t.nodes[idx].children[k];
        if c < t.nodes.len() && t.nodes[c as int].name@ == name {
            Some(c)
        } else {
            spec_find_child_from(t, idx, name, k + 1)
        }
    }
}

/// The first child of node `idx` whose name matches.
pub open spec fn spec_find_child(t: SceneTree, idx: int, name: Seq<char>) -> Option<usize> {
    spec_find_child_from(t, idx, name, 0)
}

/// Finds the first child of `idx` with the given name.
pub fn find_child(t: &SceneTree, idx: usize, name: &String) -> (r: Option<usize>)
    requires
        wf_tree(*t),
        idx < t.nodes@.len(),
    ensures
        r == spec_find_child(*t, idx as int, name@),
        r is Some ==> idx < r->0 < t.nodes@.len(),
{
    let n = t.nodes[idx].children.len();
    let mut k: usize = 0;
    while k < n
        invariant
            wf_tree(*t),
            idx < t.nodes@.len(),
            k <= n,
            n == t.nodes@[idx as int].children@.len(),
            spec_find_child(*t, idx as int, name@) == spec_find_child_from(*t, idx as int, name@, k as int),
        decreases n - k,
    {
        let c = t.nodes[idx].children[k];
        if t.nodes[c].name == *name {
            return Some(c);
        }
        k = k + 1;
    }
    None
}

/// Resolves the path segments `path[j..]` by repeated child-name lookup
/// starting at node `idx`: every segment must match exactly one first
/// child, else the whole resolution fails.
pub open spec fn spec_resolve_from(t: SceneTree, idx: int, path: Seq<String>, j: int) -> Option<usize>
    decreases path.len() - j,
{
    if j < 0 || j >= path.len() {
        if 0 <= idx < t.nodes.len() {
            Some(idx as usize)
        } else {
            None
        }
    } else {
        match spec_find_child(t, idx, path[j]@) {
            Some(c) => spec_resolve_from(t, c as int, path, j + 1),
            None => None,
        }
    }
}

/// Resolves an ordered path of child names from the root.
pub fn resolve_path(t: &SceneTree, path: &Vec<String>) -> (r: Option<usize>)
    requires
        wf_tree(*t),
    ensures
        r == spec_resolve_from(*t, 0, path@, 0),
        r is Some ==> r->0 < t.nodes@.len(),
{
    let mut idx: usize = 0;
    let n = path.len();
    let mut j: usize = 0;
    while j < n
        invariant
            wf_tree(*t),
            j <= n,
            n == path@.len(),
            idx < t.nodes@.len(),
            spec_resolve_from(*t, 0, path@, 0) == spec_resolve_from(*t, idx as int, path@, j as int),
        decreases n - j,
    {
        match find_child(t, idx, &path[j]) {
            Some(c) => {
                idx = c;
            },
            None => {
                return None;
            },
        }
        j = j + 1;
    }
    Some(idx)
}

/// Why a selection pass failed, mirroring which lookup came up empty.
#[derive(Clone, Copy, Debug, PartialEq, Eq, Structural)]
pub enum SceneError {
    /// Exhaustive mode found no child of the root named "Workspace".
    MissingWorkspace,
    /// A rule's path segment matched no child.
    MissingPathSegment,
    /// A selected node lacked a required property or carried it with the
    /// wrong type.
    MissingProperty,
}

/// One draw command: a footprint in world space plus its color. Commands
/// are applied strictly in emission order.
#[derive(Clone, Copy, Debug)]
pub struct DrawCommand {
    pub pos_x: i64,
    pub pos_y: i64,
    pub pos_z: i64,
    pub size_x: i64,
    pub size_y: i64,
    pub size_z: i64,
    pub rot: Matrix3,
    pub color: Rgba,
}

/// A command whose numbers the projector and rasterizer accept.
pub open spec fn wf_command(c: DrawCommand) -> bool {
    &&& -MAX_WORLD_Q16 <= c.pos_x <= MAX_WORLD_Q16
    &&& -MAX_WORLD_Q16 <= c.pos_y <= MAX_WORLD_Q16
    &&& -MAX_WORLD_Q16 <= c.pos_z <= MAX_WORLD_Q16
    &&& -MAX_WORLD_Q16 <= c.size_x <= MAX_WORLD_Q16
    &&& -MAX_WORLD_Q16 <= c.size_y <= MAX_WORLD_Q16
    &&& -MAX_WORLD_Q16 <= c.size_z <= MAX_WORLD_Q16
    &&& wf_matrix(c.rot)
}

/// One selection rule: a color, a path of child names from the root, and
/// the part name to match within the resolved subtree.
#[derive(Debug)]
pub struct SelectionRule {
    pub color_r: u8,
    pub color_g: u8,
    pub color_b: u8,
    pub path: Vec<String>,
    pub part_name: String,
}

/// The rule's color as an opaque RGBA value.
pub open spec fn spec_rule_color(r: SelectionRule) -> Rgba {
    Rgba { r: r.color_r, g: r.color_g, b: r.color_b, a: 255 }
}

/// Which nodes to render: everything under "Workspace", or the nodes named
/// by an ordered list of rules. Exactly one mode is active.
#[derive(Debug)]
pub enum RenderConfig {
    /// Draw every node of class "Part" under the root's "Workspace" child.
    Everything,
    /// Draw the nodes each rule selects, in rule order, with rule colors.
    Rules(Vec<SelectionRule>),
}

/// Alpha byte from a `Q16` transparency: `(1 - transparency) * 255`,
/// rounded to nearest, with transparency clamped into `[0, 1]` first.
pub open spec fn spec_alpha(tv: int) -> int {
    let t = if tv < 0 { 0 } else if tv > 65536 { 65536 } else { tv };
    ((65536 - t) * 255 + 32768) / 65536
}

/// Computes the alpha byte for a transparency value.
pub fn alpha_from_transparency(tv: i64) -> (a: u8)
    ensures
        a as int == spec_alpha(tv as int),
{
    let t: i64 = if tv < 0 { 0 } else if tv > 65536 { 65536 } else { tv };
    let num: u64 = ((65536 - t) as u64) * 255 + 32768;
    proof {
        vstd::arithmetic::div_mod::lemma_div_pos_is_pos(num as int, 65536);
        vstd::arithmetic::div_mod::lemma_div_is_ordered(num as int, 16744448int, 65536);
        vstd::arithmetic::div_mod::lemma_div_multiples_vanish_fancy(255, 32768, 65536);
    }
    (num / 65536) as u8
}

/// The draw command a node of interest yields: its transform and size,
/// with either the given override color (opaque) or the node's own color
/// and transparency. `None` when a required property is missing or has the
/// wrong type.
pub open spec fn spec_part_command(node: SceneNode, over: Option<Rgba>) -> Option<DrawCommand> {
    match spec_lookup(node.props@, "CFrame"@) {
        Some(PropValue::Transform { pos_x, pos_y, pos_z, rot }) => match spec_lookup(node.props@, "Size"@) {
            Some(PropValue::Vec3 { x, y, z }) => match over {
                Some(col) => Some(DrawCommand {
                    pos_x, pos_y, pos_z, size_x: x, size_y: y, size_z: z, rot, color: col,
                }),
                None => match spec_lookup(node.props@, "Color"@) {
                    Some(PropValue::Color3 { r, g, b }) => match spec_lookup(node.props@, "Transparency"@) {
                        Some(PropValue::Scalar { v }) => Some(DrawCommand {
                            pos_x, pos_y, pos_z, size_x: x, size_y: y, size_z: z, rot,
                            color: (Rgba { r, g, b, a: spec_alpha(v as int) as u8 }),
                        }),
                        _ => None,
                    },
                    _ => None,
                },
            },
            _ => None,
        },
        _ => None,
    }
}

/// Reads one node's footprint properties into a draw command.
pub fn part_command(node: &SceneNode, over: Option<Rgba>) -> (r: Option<DrawCommand>)
    requires
        forall|k: int| 0 <= k < node.props@.len() ==> wf_prop(#[trigger] node.props@[k].1),
    ensures
        r == spec_part_command(*node, over),
        r is Some ==> wf_command(r->0),
{
    let cf_key: String = "CFrame".to_owned();
    let size_key: String = "Size".to_owned();
    let (pos_x, pos_y, pos_z, rot) = match node.find_prop(&cf_key) {
        Some(i) => match &node.props[i].1 {
            PropValue::Transform { pos_x, pos_y, pos_z, rot } => (*pos_x, *pos_y, *pos_z, *rot),
            _ => {
                return None;
            },
        },
        None => {
            return None;
        },
    };
    let (size_x, size_y, size_z) = match node.find_prop(&size_key) {
        Some(i) => match &node.props[i].1 {
            PropValue::Vec3 { x, y, z } => (*x, *y, *z),
            _ => {
                return None;
            },
        },
        None => {
            return None;
        },
    };
    let color = match over {
        Some(col) => col,
        None => {
            let color_key: String = "Color".to_owned();
            let transp_key: String = "Transparency".to_owned();
            let (cr, cg, cb) = match node.find_prop(&color_key) {
                Some(i) => match &node.props[i].1 {
                    PropValue::Color3 { r, g, b } => (*r, *g, *b),
                    _ => {
                        return None;
                    },
                },
                None => {
                    return None;
                },
            };
            let tv = match node.find_prop(&transp_key) {
                Some(i) => match &node.props[i].1 {
                    PropValue::Scalar { v } => *v,
                    _ => {
                        return None;
                    },
                },
                None => {
                    return None;
                },
            };
            Rgba { r: cr, g: cg, b: cb, a: alpha_from_transparency(tv) }
        },
    };
    Some(DrawCommand { pos_x, pos_y, pos_z, size_x, size_y, size_z, rot, color })
}

/// The commands contributed by nodes `list[j..]` in exhaustive mode: every
/// node of class "Part" must yield a command, in list order.
pub open spec fn spec_collect_all(t: SceneTree, list: Seq<usize>, j: int) -> Option<Seq<DrawCommand>>
    decreases list.len() - j,
{
    if j < 0 || j >= list.len() {
        Some(Seq::empty())
    } else if list[j] >= t.nodes.len() {
        None
    } else if t.nodes[list[j] as int].class@ == "Part"@ {
        match spec_part_command(t.nodes[list[j] as int], None) {
            Some(c) => match spec_collect_all(t, list, j + 1) {
                Some(rest) => Some(seq![c] + rest),
                None => None,
            },
            None => None,
        }
    } else {
        spec_collect_all(t, list, j + 1)
    }
}

/// The commands contributed by nodes `list[j..]` in selective mode: every
/// node named `name` must yield a command with the rule's color.
pub open spec fn spec_collect_named(t: SceneTree, list: Seq<usize>, j: int, name: Seq<char>, col: Rgba) -> Option<Seq<DrawCommand>>
    decreases list.len() - j,
{
    if j < 0 || j >= list.len() {
        Some(Seq::empty())
    } else if list[j] >= t.nodes.len() {
        None
    } else if t.nodes[list[j] as int].name@ == name {
        match spec_part_command(t.nodes[list[j] as int], Some(col)) {
            Some(c) => match spec_collect_named(t, list, j + 1, name, col) {
                Some(rest) => Some(seq![c] + rest),
                None => None,
            },
            None => None,
        }
    } else {
        spec_collect_named(t, list, j + 1, name, col)
    }
}

/// Exhaustive selection: locate the root's "Workspace" child (an error if
/// absent), then collect every "Part" among its descendants in pre-order.
pub open spec fn spec_select_all(t: SceneTree) -> Result<Seq<DrawCommand>, SceneError> {
    match spec_find_child(t, 0, "Workspace"@) {
        None => Err(SceneError::MissingWorkspace),
        Some(w) => match spec_collect_all(t, spec_descendants(t, w as int), 0) {
            None => Err(SceneError::MissingProperty),
            Some(cs) => Ok(cs),
        },
    }
}

/// Selective mode for rules `j..`: resolve each rule's path from the root
/// (an error if any segment is missing), collect its matching descendants
/// with the rule's color, and append across rules in order.
pub open spec fn spec_select_rules(t: SceneTree, rules: Seq<SelectionRule>, j: int) -> Result<Seq<DrawCommand>, SceneError>
    decreases rules.len() - j,
{
    if j < 0 || j >= rules.len() {
        Ok(Seq::empty())
    } else {
        match spec_resolve_from(t, 0, rules[j].path@, 0) {
            None => Err(SceneError::MissingPathSegment),
            Some(n) => match spec_collect_named(t, spec_descendants(t, n as int), 0, rules[j].part_name@, spec_rule_color(rules[j])) {
                None => Err(SceneError::MissingProperty),
                Some(cs) => match spec_select_rules(t, rules, j + 1) {
                    Err(e) => Err(e),
                    Ok(rest) => Ok(cs + rest),
                },
            },
        }
    }
}

/// The draw commands a configuration yields on a tree, or the first error.
pub open spec fn spec_select(t: SceneTree, cfg: RenderConfig) -> Result<Seq<DrawCommand>, SceneError> {
    match cfg {
        RenderConfig::Everything => spec_select_all(t),
        RenderConfig::Rules(rules) => spec_select_rules(t, rules@, 0),
    }
}

/// Collects the exhaustive-mode commands for a descendant list.
fn collect_all(t: &SceneTree, list: &Vec<usize>) -> (r: Option<Vec<DrawCommand>>)
    requires
        wf_tree(*t),
        forall|j: int| 0 <= j < list@.len() ==> #[trigger] list@[j] < t.nodes@.len(),
    ensures
        (r is Some <==> spec_collect_all(*t, list@, 0) is Some),
        r is Some ==> r->0@ == spec_collect_all(*t, list@, 0)->0,
        r is Some ==> forall|k: int| 0 <= k < r->0@.len() ==> wf_command(#[trigger] r->0@[k]),
{
    let part_tag: String = "Part".to_owned();
    let n = list.len();
    let mut acc: Vec<DrawCommand> = Vec::new();
    let mut j: usize = 0;
    while j < n
        invariant
            wf_tree(*t),
            j <= n,
            n == list@.len(),
            forall|jj: int| 0 <= jj < list@.len() ==> #[trigger] list@[jj] < t.nodes@.len(),
            part_tag@ == "Part"@,
            forall|k: int| 0 <= k < acc@.len() ==> wf_command(#[trigger] acc@[k]),
            spec_collect_all(*t, list@, j as int) is Some
                ==> spec_collect_all(*t, list@, 0) == Some(acc@ + spec_collect_all(*t, list@, j as int)->0),
            spec_collect_all(*t, list@, j as int) is None
                ==> spec_collect_all(*t, list@, 0) is None,
        decreases n - j,
    {
        let i = list[j];
        if t.nodes[i].class == part_tag {
            match part_command(&t.nodes[i], None) {
                Some(c) => {
                    let ghost pre = acc@;
                    acc.push(c);
                    proof {
                        if spec_collect_all(*t, list@, j + 1) is Some {
                            let rest = spec_collect_all(*t, list@, j + 1)->0;
                            assert(pre + (seq![c] + rest) =~= acc@ + rest);
                        }
                    }
                },
                None => {
                    return None;
                },
            }
        }
        j = j + 1;
    }
    Some(acc)
}

/// Collects the selective-mode commands for a descendant list.
fn collect_named(t: &SceneTree, list: &Vec<usize>, name: &String, col: Rgba) -> (r: Option<Vec<DrawCommand>>)
    requires
        wf_tree(*t),
        forall|j: int| 0 <= j < list@.len() ==> #[trigger] list@[j] < t.nodes@.len(),
    ensures
        (r is Some <==> spec_collect_named(*t, list@, 0, name@, col) is Some),
        r is Some ==> r->0@ == spec_collect_named(*t, list@, 0, name@, col)->0,
        r is Some ==> forall|k: int| 0 <= k < r->0@.len() ==> wf_command(#[trigger] r->0@[k]),
{
    let n = list.len();
    let mut acc: Vec<DrawCommand> = Vec::new();
    let mut j: usize = 0;
    while j < n
        invariant
            wf_tree(*t),
            j <= n,
            n == list@.len(),
            forall|jj: int| 0 <= jj < list@.len() ==> #[trigger] list@[jj] < t.nodes@.len(),
            forall|k: int| 0 <= k < acc@.len() ==> wf_command(#[trigger] acc@[k]),
            spec_collect_named(*t, list@, j as int, name@, col) is Some
                ==> spec_collect_named(*t, list@, 0, name@, col)
                    == Some(acc@ + spec_collect_named(*t, list@, j as int, name@, col)->0),
            spec_collect_named(*t, list@, j as int, name@, col) is None
                ==> spec_collect_named(*t, list@, 0, name@, col) is None,
        decreases n - j,
    {
        let i = list[j];
        if t.nodes[i].name == *name {
            match part_command(&t.nodes[i], Some(col)) {
                Some(c) => {
                    let ghost pre = acc@;
                    acc.push(c);
                    proof {
                        if spec_collect_named(*t, list@, j + 1, name@, col) is Some {
                            let rest = spec_collect_named(*t, list@, j + 1, name@, col)->0;
                            assert(pre + (seq![c] + rest) =~= acc@ + rest);
                        }
                    }
                },
                None => {
                    return None;
                },
            }
        }
        j = j + 1;
    }
    Some(acc)
}

/// Walks the tree as the configuration directs and yields the ordered draw
/// commands, or the first error: a missing "Workspace" child, a missing
/// path segment, or a selected node without its required properties.
pub fn select_draw_commands(t: &SceneTree, cfg: &RenderConfig) -> (r: Result<Vec<DrawCommand>, SceneError>)
    requires
        wf_tree(*t),
    ensures
        (r is Ok <==> spec_select(*t, *cfg) is Ok),
        r is Ok ==> r->Ok_0@ == spec_select(*t, *cfg)->Ok_0,
        r is Err ==> r->Err_0 == spec_select(*t, *cfg)->Err_0,
        r is Ok ==> forall|k: int| 0 <= k < r->Ok_0@.len() ==> wf_command(#[trigger] r->Ok_0@[k]),
{
    match cfg {
        RenderConfig::Everything => {
            let ws_key: String = "Workspace".to_owned();
            match find_child(t, 0, &ws_key) {
                None => Err(SceneError::MissingWorkspace),
                Some(w) => {
                    proof {
                        lemma_descendants_in_range(*t, w as int);
                    }
                    let list = get_descendants(t, w);
                    match collect_all(t, &list) {
                        Some(v) => Ok(v),
                        None => Err(SceneError::MissingProperty),
                    }
                },
            }
        },
        RenderConfig::Rules(rules) => {
            proof {
                assert(spec_select(*t, *cfg) == spec_select_rules(*t, rules@, 0));
            }
            let n = rules.len();
            let mut acc: Vec<DrawCommand> = Vec::new();
            let mut j: usize = 0;
            while j < n
                invariant
                    wf_tree(*t),
                    j <= n,
                    n == rules@.len(),
                    spec_select(*t, *cfg) == spec_select_rules(*t, rules@, 0),
                    forall|k: int| 0 <= k < acc@.len() ==> wf_command(#[trigger] acc@[k]),
                    spec_select_rules(*t, rules@, j as int) is Ok
                        ==> spec_select_rules(*t, rules@, 0)
                            == Ok::<Seq<DrawCommand>, SceneError>(acc@ + spec_select_rules(*t, rules@, j as int)->Ok_0),
                    spec_select_rules(*t, rules@, j as int) is Err
                        ==> spec_select_rules(*t, rules@, 0) == spec_select_rules(*t, rules@, j as int),
                decreases n - j,
            {
                let rule = &rules[j];
                match resolve_path(t, &rule.path) {
                    None => {
                        return Err(SceneError::MissingPathSegment);
                    },
                    Some(node) => {
                        proof {
                            lemma_descendants_in_range(*t, node as int);
                        }
                        let list = get_descendants(t, node);
                        let col = Rgba { r: rule.color_r, g: rule.color_g, b: rule.color_b, a: 255 };
                        match collect_named(t, &list, &rule.part_name, col) {
                            None => {
                                return Err(SceneError::MissingProperty);
                            },
                            Some(mut v) => {
                                let ghost pre = acc@;
                                let ghost cs = v@;
                                acc.append(&mut v);
                                proof {
                                    if spec_select_rules(*t, rules@, j + 1) is Ok {
                                        let rest = spec_select_rules(*t, rules@, j + 1)->Ok_0;
                                        assert(pre + (cs + rest) =~= acc@ + rest);
                                    }
                                }
                            },
                        }
                    },
                }
                j = j + 1;
            }
            Ok(acc)
        },
    }
}

impl SceneTree {
    /// A tree holding only a root node with the given name and class.
    pub fn new(root_name: String, root_class: String) -> (t: SceneTree)
        ensures
            wf_tree(t),
            t.nodes@.len() == 1,
            t.nodes@[0].name@ == root_name@,
            t.nodes@[0].class@ == root_class@,
            t.nodes@[0].children@.len() == 0,
            t.nodes@[0].props@.len() == 0,
    {
        let root = SceneNode { name: root_name, class: root_class, children: Vec::new(), props: Vec::new() };
        let mut nodes: Vec<SceneNode> = Vec::new();
        nodes.push(root);
        SceneTree { nodes }
    }

    /// Appends a node under `parent` and returns its index, which is always
    /// past the parent's, keeping the tree well-formed.
    pub fn add_node(&mut self, parent: usize, name: String, class: String, props: Vec<(String, PropValue)>) -> (idx: usize)
        requires
            wf_tree(*old(self)),
            parent < old(self).nodes@.len(),
            old(self).nodes@.len() < 0x10000000,
            forall|k: int| 0 <= k < props@.len() ==> wf_prop(#[trigger] props@[k].1),
        ensures
            wf_tree(*final(self)),
            idx == old(self).nodes@.len(),
            final(self).nodes@.len() == old(self).nodes@.len() + 1,
            final(self).nodes@[idx as int].name@ == name@,
            final(self).nodes@[idx as int].class@ == class@,
            final(self).nodes@[idx as int].children@.len() == 0,
            final(self).nodes@[idx as int].props@ == props@,
            final(self).nodes@[parent as int].children@ == old(self).nodes@[parent as int].children@.push(idx),
            final(self).nodes@[parent as int].name@ == old(self).nodes@[parent as int].name@,
            final(self).nodes@[parent as int].class@ == old(self).nodes@[parent as int].class@,
            final(self).nodes@[parent as int].props@ == old(self).nodes@[parent as int].props@,
            forall|i: int| 0 <= i < old(self).nodes@.len() && i != parent
                ==> final(self).nodes@[i] == old(self).nodes@[i],
    {
        let idx = self.nodes.len();
        let node = SceneNode { name, class, children: Vec::new(), props };
        self.nodes.push(node);
        let parent_node = &mut self.nodes[parent];
        parent_node.children.push(idx);
        idx
    }
}

} // verus!
