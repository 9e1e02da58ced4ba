//! The hierarchy of editor tools: an immutable tree of named entries, each a
//! terminal tool or a nested group, addressed by a selection path of indices.
//!
//! A selection path interprets its first index within the root layer and each
//! later index within the group the previous indices reached. A valid path
//! never runs past a terminal entry; resolution tolerates excess indices after
//! a terminal by returning that terminal.

use vstd::prelude::*;

use crate::tiles::Tile;

verus! {

broadcast use vstd::std_specs::vec::group_vec_axioms;

/// A tool that acts on a region of the board.
#[derive(Clone, Copy, Debug, PartialEq, Eq, Structural)]
pub enum AreaTool {
    Move,
    Delete,
    Fill,
}

/// A terminal editor tool.
#[derive(Clone, Copy, Debug, PartialEq, Eq, Structural)]
pub enum Tool {
    Tile(Tile),
    AreaTool(AreaTool),
    Save,
}

impl Tool {
    /// The display name of a tool.
    pub fn name(&self) -> (r: &'static str)
        ensures
            r@ == self.name_spec(),
    {
        match self {
            Tool::Tile(tile) => match tile {
                Tile::Empty => "Empty",
                Tile::Wall => "Wall",
                Tile::Box => "Box",
            },
            Tool::AreaTool(area_tool) => match area_tool {
                AreaTool::Move => "Move",
                AreaTool::Delete => "Delete",
                AreaTool::Fill => "Fill",
            },
            Tool::Save => "Save",
        }
    }

    pub open spec fn name_spec(self) -> Seq<char> {
        match self {
            Tool::Tile(tile) => match tile {
                Tile::Empty => "Empty"@,
                Tile::Wall => "Wall"@,
                Tile::Box => "Box"@,
            },
            Tool::AreaTool(area_tool) => match area_tool {
                AreaTool::Move => "Move"@,
                AreaTool::Delete => "Delete"@,
                AreaTool::Fill => "Fill"@,
            },
            Tool::Save => "Save"@,
        }
    }
}

/// One entry of the tool tree: a terminal tool or a nested group.
pub enum MenuValue {
    Terminal(Tool),
    Nested(MenuLayer),
}

/// A named group of sibling entries.
pub struct MenuLayer {
    pub name: &'static str,
    pub sub_menu: Vec<MenuValue>,
}

/// A well-formed entry: every group in it holds at least one child.
pub open spec fn node_wf(v: MenuValue) -> bool
    decreases v,
{
    match v {
        MenuValue::Terminal(_) => true,
        MenuValue::Nested(l) => layer_wf(l),
    }
}

/// A well-formed layer: nonempty, and every child is well formed.
pub open spec fn layer_wf(l: MenuLayer) -> bool
    decreases l,
{
    &&& l.sub_menu@.len() >= 1
    &&& forall|i: int| 0 <= i < l.sub_menu@.len() ==> node_wf(#[trigger] l.sub_menu@[i])
}

/// Resolution from an entry `v`, consuming the path indices from position `k`
/// on: a terminal absorbs all remaining indices; a group follows the next
/// index into its children, or fails when that index is out of bounds.
pub open spec fn resolve_value_at(v: MenuValue, p: Seq<usize>, k: int) -> Option<MenuValue>
    decreases p.len() - k,
{
    if !(0 <= k < p.len()) {
        Some(v)
    } else {
        match v {
            MenuValue::Terminal(_) => Some(v),
            MenuValue::Nested(g) => {
                if (p[k] as int) < g.sub_menu@.len() {
                    resolve_value_at(g.sub_menu@[p[k] as int], p, k + 1)
                } else {
                    None
                }
            },
        }
    }
}

/// Resolution of a whole path against a root layer: the first index selects
/// within the root layer, the rest are consumed from there.
pub open spec fn resolve(l: MenuLayer, p: Seq<usize>) -> Option<MenuValue> {
    if 0 < p.len() && (p[0] as int) < l.sub_menu@.len() {
        resolve_value_at(l.sub_menu@[p[0] as int], p, 1)
    } else {
        None
    }
}

/// Validity of the path tail `p[k..]` against the entry `v` standing just
/// after index `k - 1` was consumed: every index is in bounds for the group
/// it selects in, and the path never extends past a terminal.
pub open spec fn path_valid_from(v: MenuValue, p: Seq<usize>, k: int) -> bool
    decreases p.len() - k,
{
    k >= p.len() || (match v {
        MenuValue::Terminal(_) => false,
        MenuValue::Nested(g) => (p[k] as int) < g.sub_menu@.len() && path_valid_from(
            g.sub_menu@[p[k] as int],
            p,
            k + 1,
        ),
    })
}

/// A valid selection path: nonempty, in bounds at every level, and never
/// extending past a terminal entry.
pub open spec fn path_valid(l: MenuLayer, p: Seq<usize>) -> bool {
    &&& p.len() >= 1
    &&& (p[0] as int) < l.sub_menu@.len()
    &&& path_valid_from(l.sub_menu@[p[0] as int], p, 1)
}

/// The number of children of the group within which the path's last index
/// selects (starting from `v` just after index `k - 1`); `0` when the walk
/// runs into a terminal.
pub open spec fn arity_from(v: MenuValue, p: Seq<usize>, k: int) -> int
    decreases p.len() - k,
{
    match v {
        MenuValue::Terminal(_) => 0,
        MenuValue::Nested(g) => {
            if k + 1 >= p.len() {
                g.sub_menu@.len() as int
            } else {
                arity_from(g.sub_menu@[p[k] as int], p, k + 1)
            }
        },
    }
}

/// The number of siblings among which the path's last index selects.
pub open spec fn sibling_count(l: MenuLayer, p: Seq<usize>) -> int {
    if p.len() <= 1 {
        l.sub_menu@.len() as int
    } else {
        arity_from(l.sub_menu@[p[0] as int], p, 1)
    }
}

/// Cyclic successor of index `i` among `n` siblings.
pub open spec fn cycle_next(i: usize, n: int) -> int {
    if i + 1 < n {
        i + 1
    } else {
        0
    }
}

/// Cyclic predecessor of index `i` among `n` siblings.
pub open spec fn cycle_prev(i: usize, n: int) -> int {
    if i == 0 {
        n - 1
    } else {
        i - 1
    }
}

/// The path after a sibling-next move: the last index is replaced by its
/// cyclic successor within its group.
pub open spec fn sibling_next_spec(l: MenuLayer, p: Seq<usize>) -> Seq<usize> {
    p.update(p.len() - 1, cycle_next(p[p.len() - 1], sibling_count(l, p)) as usize)
}

/// The path after a sibling-previous move.
pub open spec fn sibling_prev_spec(l: MenuLayer, p: Seq<usize>) -> Seq<usize> {
    p.update(p.len() - 1, cycle_prev(p[p.len() - 1], sibling_count(l, p)) as usize)
}

/// The path after descending: when the path addresses a group, a first-child
/// index is appended; a terminal leaves the path unchanged.
pub open spec fn descend_spec(l: MenuLayer, p: Seq<usize>) -> Seq<usize> {
    if resolve(l, p) matches Some(MenuValue::Nested(_)) {
        p.push(0)
    } else {
        p
    }
}

/// The path after ascending: the trailing index is removed, unless that
/// would shorten the path to the mandatory root level or below.
pub open spec fn ascend_spec(p: Seq<usize>) -> Seq<usize> {
    if p.len() > 2 {
        p.take(p.len() - 1)
    } else {
        p
    }
}

/// Every valid path resolves: resolution is defined, with no out-of-bounds
/// step, on all valid selection paths.
pub proof fn lemma_valid_path_resolves(l: MenuLayer, p: Seq<usize>)
    requires
        path_valid(l, p),
    ensures
        resolve(l, p) is Some,
{
    lemma_valid_from_resolves(l.sub_menu@[p[0] as int], p, 1);
}

proof fn lemma_valid_from_resolves(v: MenuValue, p: Seq<usize>, k: int)
    requires
        0 <= k,
        path_valid_from(v, p, k),
    ensures
        resolve_value_at(v, p, k) is Some,
    decreases p.len() - k,
{
    if k < p.len() {
        match v {
            MenuValue::Terminal(_) => {},
            MenuValue::Nested(g) => {
                lemma_valid_from_resolves(g.sub_menu@[p[k] as int], p, k + 1);
            },
        }
    }
}

/// Resolution within a well-formed tree yields a well-formed entry.
pub proof fn lemma_resolve_wf(l: MenuLayer, p: Seq<usize>)
    requires
        layer_wf(l),
        resolve(l, p) is Some,
    ensures
        node_wf(resolve(l, p)->Some_0),
{
    lemma_resolve_value_wf(l.sub_menu@[p[0] as int], p, 1);
}

proof fn lemma_resolve_value_wf(v: MenuValue, p: Seq<usize>, k: int)
    requires
        node_wf(v),
        resolve_value_at(v, p, k) is Some,
    ensures
        node_wf(resolve_value_at(v, p, k)->Some_0),
    decreases p.len() - k,
{
    if 0 <= k < p.len() {
        match v {
            MenuValue::Terminal(_) => {},
            MenuValue::Nested(g) => {
                lemma_resolve_value_wf(g.sub_menu@[p[k] as int], p, k + 1);
            },
        }
    }
}

/// On a valid path the last index lies within its sibling group, which is
/// nonempty.
pub proof fn lemma_sibling_in_range(l: MenuLayer, p: Seq<usize>)
    requires
        path_valid(l, p),
    ensures
        1 <= sibling_count(l, p),
        (p[p.len() - 1] as int) < sibling_count(l, p),
        sibling_count(l, p) <= usize::MAX,
{
    if p.len() > 1 {
        lemma_arity_in_range(l.sub_menu@[p[0] as int], p, 1);
    } else {
        assert(l.sub_menu@.len() == vstd::std_specs::vec::spec_vec_len(&l.sub_menu));
    }
}

proof fn lemma_arity_in_range(v: MenuValue, p: Seq<usize>, k: int)
    requires
        0 <= k < p.len(),
        path_valid_from(v, p, k),
    ensures
        1 <= arity_from(v, p, k),
        (p[p.len() - 1] as int) < arity_from(v, p, k),
        arity_from(v, p, k) <= usize::MAX,
    decreases p.len() - k,
{
    match v {
        MenuValue::Terminal(_) => {
            assert(false);
        },
        MenuValue::Nested(g) => {
            if k + 1 < p.len() {
                lemma_arity_in_range(g.sub_menu@[p[k] as int], p, k + 1);
            } else {
                assert(g.sub_menu@.len() == vstd::std_specs::vec::spec_vec_len(&g.sub_menu));
            }
        },
    }
}

/// Replacing the last index of a valid path by any index within its sibling
/// group keeps the path valid, and keeps the sibling group itself.
pub proof fn lemma_update_last(l: MenuLayer, p: Seq<usize>, m: usize)
    requires
        path_valid(l, p),
        (m as int) < sibling_count(l, p),
    ensures
        path_valid(l, p.update(p.len() - 1, m)),
        sibling_count(l, p.update(p.len() - 1, m)) == sibling_count(l, p),
{
    let q = p.update(p.len() - 1, m);
    if p.len() == 1 {
        assert(q[0] == m);
        assert(path_valid_from(l.sub_menu@[m as int], q, 1));
    } else {
        assert(q[0] == p[0]);
        lemma_update_last_from(l.sub_menu@[p[0] as int], p, 1, m);
    }
}

proof fn lemma_update_last_from(v: MenuValue, p: Seq<usize>, k: int, m: usize)
    requires
        0 <= k < p.len(),
        path_valid_from(v, p, k),
        (m as int) < arity_from(v, p, k),
    ensures
        path_valid_from(v, p.update(p.len() - 1, m), k),
        arity_from(v, p.update(p.len() - 1, m), k) == arity_from(v, p, k),
    decreases p.len() - k,
{
    let q = p.update(p.len() - 1, m);
    match v {
        MenuValue::Terminal(_) => {
            assert(false);
        },
        MenuValue::Nested(g) => {
            if k + 1 < p.len() {
                assert(q[k] == p[k]);
                lemma_update_last_from(g.sub_menu@[p[k] as int], p, k + 1, m);
            } else {
                assert(q[k] == m);
                assert(path_valid_from(g.sub_menu@[m as int], q, k + 1));
            }
        },
    }
}

/// Appending a first-child index to a valid path that addresses a nonempty
/// group keeps the path valid.
pub proof fn lemma_descend_valid(l: MenuLayer, p: Seq<usize>)
    requires
        layer_wf(l),
        path_valid(l, p),
        resolve(l, p) matches Some(MenuValue::Nested(_)),
    ensures
        path_valid(l, p.push(0)),
{
    lemma_resolve_wf(l, p);
    let q = p.push(0);
    assert(q[0] == p[0]);
    lemma_descend_valid_from(l.sub_menu@[p[0] as int], p, 1);
}

proof fn lemma_descend_valid_from(v: MenuValue, p: Seq<usize>, k: int)
    requires
        0 < k <= p.len(),
        path_valid_from(v, p, k),
        resolve_value_at(v, p, k) matches Some(MenuValue::Nested(g)) && g.sub_menu@.len() >= 1,
    ensures
        path_valid_from(v, p.push(0), k),
    decreases p.len() - k,
{
    let q = p.push(0);
    if k == p.len() {
        assert(q[k] == 0);
        match v {
            MenuValue::Terminal(_) => {
                assert(false);
            },
            MenuValue::Nested(g) => {
                assert(path_valid_from(g.sub_menu@[0], q, k + 1));
            },
        }
    } else {
        match v {
            MenuValue::Terminal(_) => {
                assert(false);
            },
            MenuValue::Nested(g) => {
                assert(q[k] == p[k]);
                lemma_descend_valid_from(g.sub_menu@[p[k] as int], p, k + 1);
            },
        }
    }
}

/// Removing the trailing index of a valid path of length at least two keeps
/// it valid.
pub proof fn lemma_prefix_valid(l: MenuLayer, p: Seq<usize>)
    requires
        path_valid(l, p),
        p.len() >= 2,
    ensures
        path_valid(l, p.take(p.len() - 1)),
{
    let q = p.take(p.len() - 1);
    assert(q[0] == p[0]);
    lemma_prefix_valid_from(l.sub_menu@[p[0] as int], p, 1);
}

proof fn lemma_prefix_valid_from(v: MenuValue, p: Seq<usize>, k: int)
    requires
        0 < k <= p.len() - 1,
        path_valid_from(v, p, k),
    ensures
        path_valid_from(v, p.take(p.len() - 1), k),
    decreases p.len() - k,
{
    let q = p.take(p.len() - 1);
    if k < p.len() - 1 {
        match v {
            MenuValue::Terminal(_) => {
                assert(false);
            },
            MenuValue::Nested(g) => {
                assert(q[k] == p[k]);
                lemma_prefix_valid_from(g.sub_menu@[p[k] as int], p, k + 1);
            },
        }
    }
}

impl MenuValue {
    /// The display name of an entry.
    pub fn name(&self) -> (r: &str)
        ensures
            r@ == self.name_spec(),
    {
        match self {
            MenuValue::Terminal(tool) => tool.name(),
            MenuValue::Nested(menu_layer) => menu_layer.name,
        }
    }

    pub open spec fn name_spec(self) -> Seq<char> {
        match self {
            MenuValue::Terminal(tool) => tool.name_spec(),
            MenuValue::Nested(menu_layer) => menu_layer.name@,
        }
    }

    /// Look an entry up from this entry, consuming the path from its second
    /// index on (the first index is the caller's position within its own
    /// parent and is not interpreted here).
    pub fn get_value(&self, position: &Vec<usize>) -> (r: Option<&MenuValue>)
        ensures
            match r {
                Some(v) => resolve_value_at(*self, position@, 1) == Some(*v),
                None => resolve_value_at(*self, position@, 1) is None,
            },
    {
        let mut cur: &MenuValue = self;
        let mut k: usize = 1;
        while k < position.len()
            invariant
                1 <= k,
                resolve_value_at(*self, position@, 1) == resolve_value_at(*cur, position@, k as int),
            decreases position@.len() - k,
        {
            match cur {
                MenuValue::Terminal(_) => {
                    return Some(cur);
                },
                MenuValue::Nested(l) => {
                    let i = position[k];
                    if i >= l.sub_menu.len() {
                        return None;
                    }
                    cur = &l.sub_menu[i];
                },
            }
            k += 1;
        }
        Some(cur)
    }
}

impl MenuLayer {
    /// Look an entry up by a full selection path: the first index selects
    /// within this layer, the rest descend from there.
    pub fn get_value(&self, position: &Vec<usize>) -> (r: Option<&MenuValue>)
        ensures
            match r {
                Some(v) => resolve(*self, position@) == Some(*v),
                None => resolve(*self, position@) is None,
            },
    {
        if position.len() == 0 {
            return None;
        }
        let i0 = position[0];
        if i0 >= self.sub_menu.len() {
            return None;
        }
        self.sub_menu[i0].get_value(position)
    }
}

/// The number of siblings among which the path's last index selects.
pub fn sibling_arity(layer: &MenuLayer, path: &Vec<usize>) -> (r: usize)
    requires
        path_valid(*layer, path@),
    ensures
        r as int == sibling_count(*layer, path@),
{
    if path.len() == 1 {
        layer.sub_menu.len()
    } else {
        arity_walk(&layer.sub_menu[path[0]], path, 1)
    }
}

fn arity_walk<'a>(v: &'a MenuValue, path: &Vec<usize>, k: usize) -> (r: usize)
    requires
        (k as int) < path@.len(),
        path_valid_from(*v, path@, k as int),
    ensures
        r as int == arity_from(*v, path@, k as int),
    decreases path@.len() - k,
{
    let plen = path.len();
    match v {
        MenuValue::Nested(g) => {
            if k + 1 >= plen {
                g.sub_menu.len()
            } else {
                arity_walk(&g.sub_menu[path[k]], path, k + 1)
            }
        },
        MenuValue::Terminal(_) => {
            proof {
                assert(false);
            }
            0
        },
    }
}

/// Replace the path's last index by its cyclic successor within its sibling
/// group. Defined on every valid path; with a single sibling it is a no-op.
pub fn sibling_next(layer: &MenuLayer, path: &mut Vec<usize>)
    requires
        path_valid(*layer, old(path)@),
    ensures
        final(path)@ == sibling_next_spec(*layer, old(path)@),
        path_valid(*layer, final(path)@),
{
    proof {
        lemma_sibling_in_range(*layer, path@);
    }
    let n = sibling_arity(layer, path);
    let last = path.len() - 1;
    let i = path[last];
    let ni = if i + 1 < n {
        i + 1
    } else {
        0
    };
    path[last] = ni;
    proof {
        lemma_update_last(*layer, old(path)@, ni);
    }
}

/// Replace the path's last index by its cyclic predecessor within its
/// sibling group. Defined on every valid path; with a single sibling it is a
/// no-op.
pub fn sibling_prev(layer: &MenuLayer, path: &mut Vec<usize>)
    requires
        path_valid(*layer, old(path)@),
    ensures
        final(path)@ == sibling_prev_spec(*layer, old(path)@),
        path_valid(*layer, final(path)@),
{
    proof {
        lemma_sibling_in_range(*layer, path@);
    }
    let n = sibling_arity(layer, path);
    let last = path.len() - 1;
    let i = path[last];
    let ni = if i == 0 {
        n - 1
    } else {
        i - 1
    };
    path[last] = ni;
    proof {
        lemma_update_last(*layer, old(path)@, ni);
    }
}

/// Descend one level: when the path addresses a group, select that group's
/// first child; a terminal leaves the path unchanged.
pub fn descend(layer: &MenuLayer, path: &mut Vec<usize>)
    requires
        layer_wf(*layer),
        path_valid(*layer, old(path)@),
    ensures
        final(path)@ == descend_spec(*layer, old(path)@),
        path_valid(*layer, final(path)@),
{
    let is_group = match layer.get_value(path) {
        Some(MenuValue::Nested(_)) => true,
        _ => false,
    };
    if is_group {
        proof {
            lemma_descend_valid(*layer, path@);
        }
        path.push(0);
    }
}

/// Ascend one level: remove the trailing index, unless the path is already
/// at length two or less (it never shrinks to the bare root level).
pub fn ascend(layer: &MenuLayer, path: &mut Vec<usize>)
    requires
        path_valid(*layer, old(path)@),
    ensures
        final(path)@ == ascend_spec(old(path)@),
        path_valid(*layer, final(path)@),
{
    if path.len() > 2 {
        proof {
            lemma_prefix_valid(*layer, path@);
        }
        let _ = path.pop();
        proof {
            assert(path@ =~= old(path)@.take(old(path)@.len() - 1));
        }
    }
}

/// A sibling-next move followed by a sibling-previous move (and vice versa)
/// returns any valid path to itself; when the sibling group has exactly one
/// child, both moves are no-ops already.
pub proof fn lemma_sibling_moves_invert(l: MenuLayer, p: Seq<usize>)
    requires
        path_valid(l, p),
    ensures
        sibling_prev_spec(l, sibling_next_spec(l, p)) == p,
        sibling_next_spec(l, sibling_prev_spec(l, p)) == p,
        sibling_count(l, p) == 1 ==> sibling_next_spec(l, p) == p && sibling_prev_spec(l, p) == p,
{
    lemma_sibling_in_range(l, p);
    let n = sibling_count(l, p);
    let last = p.len() - 1;
    let i = p[last];
    let pn = sibling_next_spec(l, p);
    let pp = sibling_prev_spec(l, p);
    lemma_update_last(l, p, cycle_next(i, n) as usize);
    lemma_update_last(l, p, cycle_prev(i, n) as usize);
    assert(pn[last] == cycle_next(i, n) as usize);
    assert(pp[last] == cycle_prev(i, n) as usize);
    assert(sibling_prev_spec(l, pn) =~= p);
    assert(sibling_next_spec(l, pp) =~= p);
    if n == 1 {
        assert(pn =~= p);
        assert(pp =~= p);
    }
}

/// Descending from a path of length at least two that addresses a group and
/// then ascending returns to the original path.
pub proof fn lemma_descend_ascend(l: MenuLayer, p: Seq<usize>)
    requires
        layer_wf(l),
        path_valid(l, p),
        p.len() >= 2,
        resolve(l, p) matches Some(MenuValue::Nested(_)),
    ensures
        ascend_spec(descend_spec(l, p)) == p,
{
    assert(ascend_spec(p.push(0)) =~= p);
}

/// The tool tree the editor offers: tile painting, area operations and save.
pub fn start_layer() -> (r: MenuLayer)
    ensures
        layer_wf(r),
        r.name@ == "Root"@,
        r.sub_menu@.len() == 3,
        r.sub_menu@[0] matches MenuValue::Nested(g) && g.name@ == "Tiles"@ && g.sub_menu@ == (seq![
            MenuValue::Terminal(Tool::Tile(Tile::Empty)),
            MenuValue::Terminal(Tool::Tile(Tile::Wall)),
            MenuValue::Terminal(Tool::Tile(Tile::Box)),
        ]),
        r.sub_menu@[1] matches MenuValue::Nested(g) && g.name@ == "Area Select"@ && g.sub_menu@
            == (seq![
            MenuValue::Terminal(Tool::AreaTool(AreaTool::Move)),
            MenuValue::Terminal(Tool::AreaTool(AreaTool::Delete)),
            MenuValue::Terminal(Tool::AreaTool(AreaTool::Fill)),
        ]),
        r.sub_menu@[2] == MenuValue::Terminal(Tool::Save),
{
    let tiles = MenuLayer {
        name: "Tiles",
        sub_menu: vec![
            MenuValue::Terminal(Tool::Tile(Tile::Empty)),
            MenuValue::Terminal(Tool::Tile(Tile::Wall)),
            MenuValue::Terminal(Tool::Tile(Tile::Box)),
        ],
    };
    let area = MenuLayer {
        name: "Area Select",
        sub_menu: vec![
            MenuValue::Terminal(Tool::AreaTool(AreaTool::Move)),
            MenuValue::Terminal(Tool::AreaTool(AreaTool::Delete)),
            MenuValue::Terminal(Tool::AreaTool(AreaTool::Fill)),
        ],
    };
    proof {
        assert forall|i: int| 0 <= i < tiles.sub_menu@.len() implies node_wf(
            #[trigger] tiles.sub_menu@[i],
        ) by {
            assert(tiles.sub_menu@[i] matches MenuValue::Terminal(_));
        }
        assert forall|i: int| 0 <= i < area.sub_menu@.len() implies node_wf(
            #[trigger] area.sub_menu@[i],
        ) by {
            assert(area.sub_menu@[i] matches MenuValue::Terminal(_));
        }
        assert(layer_wf(tiles));
        assert(layer_wf(area));
    }
    let root = MenuLayer {
        name: "Root",
        sub_menu: vec![
            MenuValue::Nested(tiles),
            MenuValue::Nested(area),
            MenuValue::Terminal(Tool::Save),
        ],
    };
    proof {
        assert forall|i: int| 0 <= i < root.sub_menu@.len() implies node_wf(
            #[trigger] root.sub_menu@[i],
        ) by {
            if i == 2 {
                assert(root.sub_menu@[i] matches MenuValue::Terminal(_));
            }
        }
    }
    root
}

} // verus!
