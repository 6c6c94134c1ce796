//! The sync planner: from a listing of source items and a snapshot of the
//! destination, the minimal set of transfer actions and the count of items
//! actually written.
//!
//! Both sync directions share this shape. The directory walker (local or
//! remote) flattens the source into `SourceItem`s — one per leaf file or
//! object and one per empty-directory marker — and the caller snapshots what
//! already stands at each destination path. Planning consults the
//! change-detection policy per item against that snapshot; executing the
//! planned actions (the actual I/O) is the caller's part.

use vstd::prelude::*;

use crate::errors::Error;
use crate::paths::SEP;
use crate::policy::ObjectMeta;
use crate::policy::needs_transfer;
use crate::policy::needs_transfer_spec;

verus! {

/// One unit of source work: a leaf file or object, or the marker standing
/// for an empty directory.
#[derive(Debug)]
pub enum SourceItem {
    /// A file or object with its destination-relative path and content
    /// metadata.
    File { path: Vec<u8>, meta: ObjectMeta },
    /// An empty directory, keyed by its marker path (ending in the
    /// separator).
    DirMarker { path: Vec<u8> },
}

impl SourceItem {
    /// The destination-relative path the item maps to.
    pub open spec fn path_spec(self) -> Seq<u8> {
        match self {
            SourceItem::File { path, .. } => path@,
            SourceItem::DirMarker { path } => path@,
        }
    }

    /// What the destination holds at the item's path once the item has been
    /// transferred.
    pub open spec fn node_spec(self) -> DstNode {
        match self {
            SourceItem::File { meta, .. } => DstNode::File { meta },
            SourceItem::DirMarker { .. } => DstNode::Dir,
        }
    }
}

/// What stands at one destination path: a file or object with readable
/// metadata, or a directory (locally a real directory, remotely a marker
/// object).
#[derive(Debug, Clone, Copy, PartialEq, Eq, Structural)]
pub enum DstNode {
    File { meta: ObjectMeta },
    Dir,
}

/// What one destination path maps to in a snapshot sequence: the last entry
/// for a key wins, as a later record of a path supersedes an earlier one.
pub open spec fn assoc_map(s: Seq<(Vec<u8>, DstNode)>) -> Map<Seq<u8>, DstNode>
    decreases s.len(),
{
    if s.len() == 0 {
        Map::empty()
    } else {
        assoc_map(s.drop_last()).insert(s.last().0@, s.last().1)
    }
}

/// A snapshot of the destination: what stands at each path, as reported by
/// the caller before planning. Viewed as a map from path to node.
#[derive(Debug)]
pub struct DstState {
    nodes: Vec<(Vec<u8>, DstNode)>,
}

impl View for DstState {
    type V = Map<Seq<u8>, DstNode>;

    closed spec fn view(&self) -> Map<Seq<u8>, DstNode> {
        assoc_map(self.nodes@)
    }
}

/// Entries from index `i` on leave a key they never mention untouched.
proof fn lemma_assoc_map_skip(s: Seq<(Vec<u8>, DstNode)>, k: Seq<u8>, i: int)
    requires
        0 <= i <= s.len(),
        forall|j: int| i <= j < s.len() ==> s[j].0@ != k,
    ensures
        assoc_map(s).contains_key(k) == assoc_map(s.subrange(0, i)).contains_key(k),
        assoc_map(s).contains_key(k) ==> assoc_map(s)[k] == assoc_map(s.subrange(0, i))[k],
    decreases s.len() - i,
{
    if i == s.len() {
        assert(s.subrange(0, i) =~= s);
    } else {
        lemma_assoc_map_skip(s, k, i + 1);
        assert(s.subrange(0, i + 1).drop_last() =~= s.subrange(0, i));
        assert(s.subrange(0, i + 1).last() == s[i]);
    }
}

/// Byte-string equality.
pub fn bytes_eq(a: &Vec<u8>, b: &Vec<u8>) -> (r: bool)
    ensures
        r == (a@ == b@),
{
    if a.len() != b.len() {
        return false;
    }
    let mut i: usize = 0;
    while i < a.len()
        invariant
            i <= a.len(),
            a@.len() == b@.len(),
            forall|j: int| 0 <= j < i ==> a@[j] == b@[j],
        decreases a.len() - i,
    {
        if a[i] != b[i] {
            return false;
        }
        i += 1;
    }
    proof {
        assert(a@ =~= b@);
    }
    true
}

impl DstState {
    /// An empty destination: nothing stands at any path.
    pub fn new() -> (r: Self)
        ensures
            r@ == Map::<Seq<u8>, DstNode>::empty(),
    {
        DstState { nodes: Vec::new() }
    }

    /// What stands at `path`, if anything.
    pub fn lookup(&self, path: &Vec<u8>) -> (r: Option<DstNode>)
        ensures
            match r {
                Some(node) => self@.contains_key(path@) && self@[path@] == node,
                None => !self@.contains_key(path@),
            },
    {
        let mut i: usize = self.nodes.len();
        while i > 0
            invariant
                i <= self.nodes.len(),
                forall|j: int| i <= j < self.nodes@.len() ==> self.nodes@[j].0@ != path@,
            decreases i,
        {
            i = i - 1;
            if bytes_eq(&self.nodes[i].0, path) {
                proof {
                    lemma_assoc_map_skip(self.nodes@, path@, i + 1);
                    assert(self.nodes@.subrange(0, i + 1).drop_last() =~= self.nodes@.subrange(
                        0,
                        i as int,
                    ));
                    assert(self.nodes@.subrange(0, i + 1).last() == self.nodes@[i as int]);
                }
                return Some(self.nodes[i].1);
            }
        }
        proof {
            lemma_assoc_map_skip(self.nodes@, path@, 0);
            assert(self.nodes@.subrange(0, 0) =~= Seq::<(Vec<u8>, DstNode)>::empty());
        }
        None
    }

    /// Records that `node` now stands at `path`.
    pub fn record(&mut self, path: Vec<u8>, node: DstNode)
        ensures
            final(self)@ == old(self)@.insert(path@, node),
    {
        let ghost prior = self.nodes@;
        self.nodes.push((path, node));
        proof {
            assert(self.nodes@.drop_last() =~= prior);
        }
    }
}

/// What the plan does with one item.
#[derive(Debug, Clone, Copy, PartialEq, Eq, Structural)]
pub enum Action {
    /// The destination already matches: no write.
    Skip,
    /// Transfer the file's content to its destination path.
    Transfer,
    /// Create the directory marker (a local directory, or a zero-length
    /// marker object).
    CreateMarker,
}

/// How many destination writes an action costs: markers count like
/// transfers when newly created.
pub open spec fn action_count(a: Action) -> int {
    match a {
        Action::Skip => 0,
        Action::Transfer => 1,
        Action::CreateMarker => 1,
    }
}

/// The decision for one item against what stands at its destination path,
/// or nothing when the destination conflicts: a marker cannot replace an
/// existing non-directory unless overwriting is forced.
///
/// A destination directory never matches a source file, so such an item is
/// handed to the transfer; whatever filesystem conflict that meets surfaces
/// when the action is executed.
pub open spec fn plan_item_spec(force: bool, item: SourceItem, dst: Option<DstNode>) -> Option<
    Action,
> {
    match item {
        SourceItem::File { path, meta } => match dst {
            Some(DstNode::File { meta: d }) => if needs_transfer_spec(force, meta, Some(d)) {
                Some(Action::Transfer)
            } else {
                Some(Action::Skip)
            },
            Some(DstNode::Dir) => Some(Action::Transfer),
            None => Some(Action::Transfer),
        },
        SourceItem::DirMarker { .. } => match dst {
            Some(DstNode::Dir) => Some(Action::Skip),
            Some(DstNode::File { .. }) => if force {
                Some(Action::CreateMarker)
            } else {
                None
            },
            None => Some(Action::CreateMarker),
        },
    }
}

/// Decides one item, or reports the destination conflict.
pub fn plan_item(force: bool, item: &SourceItem, dst: Option<DstNode>) -> (r: Result<Action, Error>)
    ensures
        match r {
            Ok(a) => plan_item_spec(force, *item, dst) == Some(a),
            Err(e) => plan_item_spec(force, *item, dst) is None && (e matches Error::AlreadyExists {
                path,
            } && path@ == item.path_spec()),
        },
{
    match item {
        SourceItem::File { path: _, meta } => match dst {
            Some(DstNode::File { meta: d }) => {
                if needs_transfer(force, *meta, Some(d)) {
                    Ok(Action::Transfer)
                } else {
                    Ok(Action::Skip)
                }
            },
            Some(DstNode::Dir) => Ok(Action::Transfer),
            None => Ok(Action::Transfer),
        },
        SourceItem::DirMarker { path } => match dst {
            Some(DstNode::Dir) => Ok(Action::Skip),
            Some(DstNode::File { .. }) => {
                if force {
                    Ok(Action::CreateMarker)
                } else {
                    Err(Error::AlreadyExists { path: path.clone() })
                }
            },
            None => Ok(Action::CreateMarker),
        },
    }
}

/// What a snapshot reports for a path.
pub open spec fn dst_lookup(dst: Map<Seq<u8>, DstNode>, path: Seq<u8>) -> Option<DstNode> {
    if dst.contains_key(path) {
        Some(dst[path])
    } else {
        None
    }
}

/// The whole plan: one action per item, each decided against the snapshot,
/// or nothing as soon as any item meets a destination conflict.
pub open spec fn plan_spec(force: bool, items: Seq<SourceItem>, dst: Map<Seq<u8>, DstNode>) -> Option<
    Seq<Action>,
>
    decreases items.len(),
{
    if items.len() == 0 {
        Some(Seq::empty())
    } else {
        match plan_item_spec(force, items[0], dst_lookup(dst, items[0].path_spec())) {
            None => None,
            Some(a) => match plan_spec(force, items.drop_first(), dst) {
                None => None,
                Some(rest) => Some(seq![a] + rest),
            },
        }
    }
}

/// The count of destination writes a plan performs.
pub open spec fn count_actions(acts: Seq<Action>) -> int
    decreases acts.len(),
{
    if acts.len() == 0 {
        0
    } else {
        count_actions(acts.drop_last()) + action_count(acts.last())
    }
}

/// A successful plan has one action per item, each the item's own decision.
pub proof fn lemma_plan_spec_index(
    force: bool,
    items: Seq<SourceItem>,
    dst: Map<Seq<u8>, DstNode>,
    acts: Seq<Action>,
    i: int,
)
    requires
        plan_spec(force, items, dst) == Some(acts),
        0 <= i < items.len(),
    ensures
        acts.len() == items.len(),
        plan_item_spec(force, items[i], dst_lookup(dst, items[i].path_spec())) == Some(acts[i]),
    decreases items.len(),
{
    let rest = plan_spec(force, items.drop_first(), dst);
    if i > 0 {
        lemma_plan_spec_index(force, items.drop_first(), dst, rest.unwrap(), i - 1);
    } else if items.len() > 1 {
        lemma_plan_spec_index(force, items.drop_first(), dst, rest.unwrap(), 0);
    }
}

/// Pointwise decisions assemble into the whole plan.
proof fn lemma_plan_spec_build(
    force: bool,
    items: Seq<SourceItem>,
    dst: Map<Seq<u8>, DstNode>,
    acts: Seq<Action>,
)
    requires
        acts.len() == items.len(),
        forall|j: int|
            0 <= j < items.len() ==> plan_item_spec(
                force,
                items[j],
                dst_lookup(dst, items[j].path_spec()),
            ) == Some(acts[j]),
    ensures
        plan_spec(force, items, dst) == Some(acts),
    decreases items.len(),
{
    if items.len() == 0 {
        assert(acts =~= Seq::<Action>::empty());
    } else {
        lemma_plan_spec_build(force, items.drop_first(), dst, acts.drop_first());
        assert(acts =~= seq![acts[0]] + acts.drop_first());
    }
}

/// A conflict at any item, with every earlier item conflict-free, fails the
/// whole plan.
proof fn lemma_plan_spec_fails(
    force: bool,
    items: Seq<SourceItem>,
    dst: Map<Seq<u8>, DstNode>,
    i: int,
)
    requires
        0 <= i < items.len(),
        plan_item_spec(force, items[i], dst_lookup(dst, items[i].path_spec())) is None,
    ensures
        plan_spec(force, items, dst) is None,
    decreases items.len(),
{
    if i > 0 {
        lemma_plan_spec_fails(force, items.drop_first(), dst, i - 1);
    }
}

/// Appending one action adds its count.
proof fn lemma_count_actions_push(acts: Seq<Action>, a: Action)
    ensures
        count_actions(acts.push(a)) == count_actions(acts) + action_count(a),
{
    assert(acts.push(a).drop_last() =~= acts);
}

/// A plan's count never exceeds one write per item.
pub proof fn lemma_count_actions_bounds(acts: Seq<Action>)
    ensures
        0 <= count_actions(acts) <= acts.len(),
    decreases acts.len(),
{
    if acts.len() > 0 {
        lemma_count_actions_bounds(acts.drop_last());
    }
}

/// The result of planning: the per-item actions and the count of
/// destination writes they perform.
#[derive(Debug)]
pub struct SyncPlan {
    pub actions: Vec<Action>,
    pub op_count: usize,
}

/// Plans a whole sync: decides every item against the destination snapshot,
/// and aborts on the first destination conflict, as the engine's fail-fast
/// policy asks.
pub fn plan_sync(force: bool, items: &Vec<SourceItem>, dst: &DstState) -> (r: Result<
    SyncPlan,
    Error,
>)
    ensures
        match r {
            Ok(p) => plan_spec(force, items@, dst@) == Some(p.actions@) && p.op_count
                == count_actions(p.actions@),
            Err(e) => plan_spec(force, items@, dst@) is None && e matches Error::AlreadyExists {
                ..
            },
        },
{
    let mut actions: Vec<Action> = Vec::new();
    let mut op_count: usize = 0;
    let mut i: usize = 0;
    while i < items.len()
        invariant
            i <= items.len(),
            actions@.len() == i,
            forall|j: int|
                0 <= j < i ==> plan_item_spec(
                    force,
                    items@[j],
                    dst_lookup(dst@, items@[j].path_spec()),
                ) == Some(actions@[j]),
            op_count == count_actions(actions@),
            0 <= op_count <= i,
        decreases items.len() - i,
    {
        let item = &items[i];
        let found = match item {
            SourceItem::File { path, .. } => dst.lookup(path),
            SourceItem::DirMarker { path } => dst.lookup(path),
        };
        match plan_item(force, item, found) {
            Ok(a) => {
                let ghost prior = actions@;
                let cost: usize = match a {
                    Action::Skip => 0,
                    Action::Transfer => 1,
                    Action::CreateMarker => 1,
                };
                actions.push(a);
                op_count += cost;
                proof {
                    lemma_count_actions_push(prior, a);
                }
            },
            Err(e) => {
                proof {
                    lemma_plan_spec_fails(force, items@, dst@, i as int);
                }
                return Err(e);
            },
        }
        i += 1;
    }
    proof {
        lemma_plan_spec_build(force, items@, dst@, actions@);
    }
    Ok(SyncPlan { actions, op_count })
}

/// No two items map to the same destination path: the walker's prefix
/// stripping must never let two work items silently collide.
pub open spec fn distinct_paths(items: Seq<SourceItem>) -> bool {
    forall|i: int, j: int|
        0 <= i < j < items.len() ==> items[i].path_spec() != items[j].path_spec()
}

/// The destination after a plan's writes have been executed: every item's
/// path holds what the item put there (a skipped item's path already held
/// exactly that).
pub open spec fn apply_spec(items: Seq<SourceItem>, dst: Map<Seq<u8>, DstNode>) -> Map<
    Seq<u8>,
    DstNode,
>
    decreases items.len(),
{
    if items.len() == 0 {
        dst
    } else {
        apply_spec(items.drop_first(), dst.insert(items[0].path_spec(), items[0].node_spec()))
    }
}

/// A path no item maps to is untouched by the writes.
proof fn lemma_apply_preserves(items: Seq<SourceItem>, dst: Map<Seq<u8>, DstNode>, k: Seq<u8>)
    requires
        forall|i: int| 0 <= i < items.len() ==> items[i].path_spec() != k,
    ensures
        apply_spec(items, dst).contains_key(k) == dst.contains_key(k),
        dst.contains_key(k) ==> apply_spec(items, dst)[k] == dst[k],
    decreases items.len(),
{
    if items.len() > 0 {
        lemma_apply_preserves(
            items.drop_first(),
            dst.insert(items[0].path_spec(), items[0].node_spec()),
            k,
        );
    }
}

/// With no two items colliding, each item's path holds the item's own node
/// after the writes.
pub proof fn lemma_apply_result(items: Seq<SourceItem>, dst: Map<Seq<u8>, DstNode>, i: int)
    requires
        distinct_paths(items),
        0 <= i < items.len(),
    ensures
        apply_spec(items, dst).contains_key(items[i].path_spec()),
        apply_spec(items, dst)[items[i].path_spec()] == items[i].node_spec(),
    decreases items.len(),
{
    let dst1 = dst.insert(items[0].path_spec(), items[0].node_spec());
    if i == 0 {
        assert(forall|j: int|
            0 <= j < items.drop_first().len() ==> items.drop_first()[j].path_spec() != items[
                0
            ].path_spec());
        lemma_apply_preserves(items.drop_first(), dst1, items[0].path_spec());
    } else {
        lemma_apply_result(items.drop_first(), dst1, i - 1);
    }
}

/// Against a destination where every item already stands, nothing is
/// transferred: every decision is a skip, under any force setting of the
/// run that put the items there.
proof fn lemma_plan_on_matching(items: Seq<SourceItem>, dst: Map<Seq<u8>, DstNode>)
    requires
        forall|i: int|
            0 <= i < items.len() ==> #[trigger] dst_lookup(dst, items[i].path_spec()) == Some(
                items[i].node_spec(),
            ),
    ensures
        plan_spec(false, items, dst) == Some(Seq::new(items.len(), |i: int| Action::Skip)),
    decreases items.len(),
{
    let acts = Seq::new(items.len(), |i: int| Action::Skip);
    if items.len() == 0 {
        assert(acts =~= Seq::<Action>::empty());
    } else {
        lemma_plan_on_matching(items.drop_first(), dst);
        assert(plan_item_spec(false, items[0], dst_lookup(dst, items[0].path_spec())) == Some(
            Action::Skip,
        ));
        assert(acts =~= seq![Action::Skip] + Seq::new(
            items.drop_first().len(),
            |i: int| Action::Skip,
        ));
    }
}

/// A plan of skips writes nothing.
proof fn lemma_count_skips(acts: Seq<Action>)
    requires
        forall|i: int| 0 <= i < acts.len() ==> acts[i] == Action::Skip,
    ensures
        count_actions(acts) == 0,
    decreases acts.len(),
{
    if acts.len() > 0 {
        lemma_count_skips(acts.drop_last());
    }
}

/// Idempotence: after one run's writes, a second run with no forcing plans
/// no write at all — every item is found already matching and skipped,
/// whatever the first run's force setting was and whatever stood at the
/// destination before it.
pub proof fn lemma_sync_idempotent(items: Seq<SourceItem>, dst: Map<Seq<u8>, DstNode>)
    requires
        distinct_paths(items),
    ensures
        plan_spec(false, items, apply_spec(items, dst)) matches Some(acts) && count_actions(acts)
            == 0,
{
    let dst2 = apply_spec(items, dst);
    assert forall|i: int| 0 <= i < items.len() implies #[trigger] dst_lookup(
        dst2,
        items[i].path_spec(),
    ) == Some(items[i].node_spec()) by {
        lemma_apply_result(items, dst, i);
    }
    lemma_plan_on_matching(items, dst2);
    lemma_count_skips(Seq::new(items.len(), |i: int| Action::Skip));
}

/// A first run against a destination holding none of the items transfers
/// every one of them: the count equals the number of leaf files plus newly
/// created markers, i.e. the number of items.
pub proof fn lemma_fresh_sync_counts_all(
    force: bool,
    items: Seq<SourceItem>,
    dst: Map<Seq<u8>, DstNode>,
)
    requires
        forall|i: int| 0 <= i < items.len() ==> !dst.contains_key(#[trigger] items[i].path_spec()),
    ensures
        plan_spec(force, items, dst) matches Some(acts) && count_actions(acts) == items.len(),
    decreases items.len(),
{
    if items.len() > 0 {
        lemma_fresh_sync_counts_all(force, items.drop_first(), dst);
        let rest = plan_spec(force, items.drop_first(), dst).unwrap();
        let a = plan_item_spec(force, items[0], dst_lookup(dst, items[0].path_spec())).unwrap();
        let acts = seq![a] + rest;
        assert(acts.drop_first() =~= rest);
        lemma_count_nonskip_first(acts);
    }
}

/// Splitting a count at the first action.
proof fn lemma_count_nonskip_first(acts: Seq<Action>)
    requires
        acts.len() > 0,
    ensures
        count_actions(acts) == action_count(acts[0]) + count_actions(acts.drop_first()),
    decreases acts.len(),
{
    if acts.len() == 1 {
        assert(acts.drop_last() =~= Seq::<Action>::empty());
        assert(acts.drop_first() =~= Seq::<Action>::empty());
    } else {
        lemma_count_nonskip_first(acts.drop_last());
        assert(acts.drop_last().drop_first() =~= acts.drop_first().drop_last());
        assert(acts.drop_first().last() == acts.last());
        assert(acts.drop_last()[0] == acts[0]);
    }
}

/// Force-overwrite at the plan level: a forced run re-transfers every file,
/// whatever stands at its destination — even a byte-identical copy. (An
/// already-present directory marker is the one thing kept as is: creating a
/// directory that exists is a no-op, not a write.)
pub proof fn lemma_force_retransfers_files(
    items: Seq<SourceItem>,
    dst: Map<Seq<u8>, DstNode>,
    acts: Seq<Action>,
    i: int,
)
    requires
        plan_spec(true, items, dst) == Some(acts),
        0 <= i < items.len(),
        items[i] is File,
    ensures
        acts[i] == Action::Transfer,
{
    lemma_plan_spec_index(true, items, dst, acts, i);
}

/// The marker a directory level emits: one when the level turned out to
/// hold no entry at all — empty directories are represented at the
/// destination by exactly this item — and none otherwise.
pub fn empty_dir_marker(entry_count: usize, dir_path: &Vec<u8>) -> (r: Option<SourceItem>)
    ensures
        match r {
            Some(item) => entry_count == 0 && (item matches SourceItem::DirMarker { path } && path@
                == dir_path@.push(SEP)),
            None => entry_count != 0,
        },
{
    if entry_count == 0 {
        let mut path = dir_path.clone();
        path.push(SEP);
        Some(SourceItem::DirMarker { path })
    } else {
        None
    }
}

/// Empty-directory propagation: a marker item at a fresh destination path
/// is created exactly once — the first run plans one marker write for it,
/// and a rerun after the writes skips it.
pub proof fn lemma_empty_dir_propagation(
    force: bool,
    items: Seq<SourceItem>,
    dst: Map<Seq<u8>, DstNode>,
    i: int,
    acts: Seq<Action>,
)
    requires
        distinct_paths(items),
        0 <= i < items.len(),
        items[i] is DirMarker,
        !dst.contains_key(items[i].path_spec()),
        plan_spec(force, items, dst) == Some(acts),
    ensures
        acts[i] == Action::CreateMarker,
        plan_spec(false, items, apply_spec(items, dst)) matches Some(reruns) && reruns[i]
            == Action::Skip && count_actions(reruns) == 0,
{
    lemma_plan_spec_index(force, items, dst, acts, i);
    lemma_sync_idempotent(items, dst);
    let dst2 = apply_spec(items, dst);
    let reruns = plan_spec(false, items, dst2).unwrap();
    lemma_apply_result(items, dst, i);
    lemma_plan_spec_index(false, items, dst2, reruns, i);
}

} // verus!
