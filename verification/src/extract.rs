//! Planning the extraction of the image's nodes (all of them, or those a
//! glob pattern selects) under a target directory.
use vstd::prelude::*;

use crate::squashfs::{
    entries_view, image_read, read_image_entries, EntryFields, EntryKind, ImageError, ImageRead,
    SquashfsEntry,
};
use crate::bytepath::{
    has_prefix, join_bytes, lemma_rootless_relative, path_join, path_text, rootless, strip_root_bytes,
    utf8_str,
};

verus! {

/// Whether `glob::Pattern::new` accepts `pattern`.
pub uninterp spec fn glob_pattern_ok(pattern: Seq<char>) -> bool;

/// Whether the compiled glob `pattern` matches `path` (`Pattern::matches`).
pub uninterp spec fn glob_match(pattern: Seq<char>, path: Seq<char>) -> bool;

/// `glob::Pattern::new(pattern).is_ok()`.
#[verifier::external_body]
pub(crate) fn glob_compiles(pattern: &str) -> (ok: bool)
    ensures
        ok == glob_pattern_ok(pattern@),
{
    glob::Pattern::new(pattern).is_ok()
}

/// Compiles `pattern` with `glob::Pattern::new` and tests `path` with
/// `Pattern::matches`; a pattern that does not compile matches nothing.
#[verifier::external_body]
fn glob_matches(pattern: &str, path: &str) -> (m: bool)
    ensures
        glob_pattern_ok(pattern@) ==> m == glob_match(pattern@, path@),
        !glob_pattern_ok(pattern@) ==> !m,
{
    match glob::Pattern::new(pattern) {
        Ok(p) => p.matches(path),
        Err(_) => false,
    }
}

/// What extraction does for one node.
pub enum StepAction {
    /// Create the file and copy the node's contents into it.
    WriteFile,
    CreateDir,
    /// Create a symbolic link to this target.
    Symlink(Vec<u8>),
    /// Nothing can be created for this kind of node; it is reported.
    Unsupported,
}

/// One step of an extraction: the node (by its index among the image's
/// nodes), the path it is extracted to, what is created there, and the
/// modification time and permissions the result gets.
pub struct ExtractStep {
    pub node: usize,
    pub path: Vec<u8>,
    pub action: StepAction,
    pub mtime: u32,
    pub permissions: u16,
}

/// Why extraction stops.
pub enum ExtractError {
    /// The path of a selected node does not start at the root; the path.
    NotRooted(Vec<u8>),
    /// A pattern is given and a node's path is not UTF-8; the path.
    NotText(Vec<u8>),
}

/// The abstract form of why extraction stops.
pub enum PlannedStop {
    NotRooted(Seq<u8>),
    NotText(Seq<u8>),
}

/// The steps of an extraction, in node order, and the error it stops on.
pub struct ExtractPlan {
    pub steps: Vec<ExtractStep>,
    pub error: Option<ExtractError>,
}

/// The abstract form of a step's action.
pub enum PlannedAction {
    WriteFile,
    CreateDir,
    Symlink(Seq<u8>),
    Unsupported,
}

/// The abstract form of a step.
pub struct PlannedStep {
    pub node: int,
    pub path: Seq<u8>,
    pub action: PlannedAction,
    pub mtime: u32,
    pub permissions: u16,
}

/// What is created for a node, by its kind.
pub open spec fn action_for(e: EntryFields) -> PlannedAction {
    if e.1 == 0 {
        PlannedAction::WriteFile
    } else if e.1 == 1 {
        PlannedAction::CreateDir
    } else if e.1 == 2 {
        PlannedAction::Symlink(e.2)
    } else {
        PlannedAction::Unsupported
    }
}

impl StepAction {
    pub open spec fn planned(self) -> PlannedAction {
        match self {
            StepAction::WriteFile => PlannedAction::WriteFile,
            StepAction::CreateDir => PlannedAction::CreateDir,
            StepAction::Symlink(t) => PlannedAction::Symlink(t@),
            StepAction::Unsupported => PlannedAction::Unsupported,
        }
    }
}

impl ExtractStep {
    pub open spec fn planned(self) -> PlannedStep {
        PlannedStep {
            node: self.node as int,
            path: self.path@,
            action: self.action.planned(),
            mtime: self.mtime,
            permissions: self.permissions,
        }
    }
}

impl ExtractPlan {
    /// The steps in abstract form, and the path of the node it stops on.
    pub open spec fn planned(self) -> (Seq<PlannedStep>, Option<PlannedStop>) {
        (
            self.steps@.map_values(|s: ExtractStep| s.planned()),
            match self.error {
                Some(ExtractError::NotRooted(p)) => Some(PlannedStop::NotRooted(p@)),
                Some(ExtractError::NotText(p)) => Some(PlannedStop::NotText(p@)),
                None => None,
            },
        )
    }
}

/// The text of an optional pattern.
pub open spec fn pattern_text(pattern: Option<&str>) -> Option<Seq<char>> {
    match pattern {
        Some(p) => Some(p@),
        None => None,
    }
}

/// Whether extraction takes a node with this path: every node when no
/// pattern is given; else, for a path that is text, whether the glob
/// pattern matches it, and `None` for a path that is not text.
pub open spec fn selected(pattern: Option<Seq<char>>, path: Seq<u8>) -> Option<bool> {
    match pattern {
        None => Some(true),
        Some(p) => match path_text(path) {
            None => None,
            Some(t) => Some(glob_pattern_ok(p) && glob_match(p, t)),
        },
    }
}

/// Which of `entries` a pattern selects.
pub open spec fn selection(entries: Seq<EntryFields>, pattern: Option<Seq<char>>) -> Seq<Option<bool>> {
    Seq::new(entries.len(), |i: int| selected(pattern, entries[i].0))
}

/// The step for node `i` with fields `e`, extracted under `target`.
pub open spec fn step_for(i: int, e: EntryFields, rel: Seq<u8>, target: Seq<u8>) -> PlannedStep {
    PlannedStep { node: i, path: path_join(target, rel), action: action_for(e), mtime: e.3, permissions: e.4 }
}

/// The extraction of `entries` given which of them are selected: nodes are
/// taken in order; a selected node goes to its path with the root taken off,
/// joined onto `target`; the first node whose path is not text (where that
/// is asked) or, selected, is not rooted stops the extraction.
pub open spec fn extraction(entries: Seq<EntryFields>, selection: Seq<Option<bool>>, target: Seq<u8>) -> (Seq<PlannedStep>, Option<PlannedStop>)
    decreases entries.len(),
{
    if entries.len() == 0 {
        (Seq::empty(), None)
    } else {
        let prev = extraction(entries.drop_last(), selection.drop_last(), target);
        let i = entries.len() - 1;
        let e = entries.last();
        if prev.1 is Some {
            prev
        } else {
            match selection[i] {
                None => (prev.0, Some(PlannedStop::NotText(e.0))),
                Some(false) => prev,
                Some(true) => match rootless(e.0) {
                    None => (prev.0, Some(PlannedStop::NotRooted(e.0))),
                    Some(rel) => (prev.0.push(step_for(i, e, rel, target)), None),
                },
            }
        }
    }
}

/// Which entries a pattern selects, in order.
pub fn select_entries(entries: &Vec<SquashfsEntry>, pattern: Option<&str>) -> (sel: Vec<Option<bool>>)
    ensures
        sel@ == selection(entries_view(entries@), pattern_text(pattern)),
{
    let mut sel: Vec<Option<bool>> = Vec::new();
    let n = entries.len();
    for i in 0..n
        invariant
            n == entries@.len(),
            sel@.len() == i,
            forall|j: int| 0 <= j < i ==>
                sel@[j] == selected(pattern_text(pattern), #[trigger] entries@[j].path@),
    {
        let take = match pattern {
            None => Some(true),
            Some(p) => match utf8_str(entries[i].path.as_slice()) {
                None => None,
                Some(t) => Some(glob_matches(p, t)),
            },
        };
        sel.push(take);
    }
    assert(sel@ =~= selection(entries_view(entries@), pattern_text(pattern)));
    sel
}

/// The kind of step for an entry.
fn step_action(e: &SquashfsEntry) -> (a: StepAction)
    ensures
        a.planned() == action_for(e.fields()),
{
    match &e.kind {
        EntryKind::File => StepAction::WriteFile,
        EntryKind::Dir => StepAction::CreateDir,
        EntryKind::Symlink(t) => StepAction::Symlink(t.clone()),
        EntryKind::Other => StepAction::Unsupported,
    }
}

/// Plans the extraction of the selected entries under `target`.
pub fn plan_selected(entries: &Vec<SquashfsEntry>, selection: &Vec<Option<bool>>, target: &[u8]) -> (plan: ExtractPlan)
    requires
        selection@.len() == entries@.len(),
    ensures
        plan.planned() == extraction(entries_view(entries@), selection@, target@),
{
    let ghost es = entries_view(entries@);
    let n = entries.len();
    let mut steps: Vec<ExtractStep> = Vec::new();
    let mut i: usize = 0;
    while i < n
        invariant
            n == entries@.len(),
            es == entries_view(entries@),
            selection@.len() == n,
            i <= n,
            extraction(es.take(i as int), selection@.take(i as int), target@)
                == (steps@.map_values(|s: ExtractStep| s.planned()), None::<PlannedStop>),
        decreases n - i,
    {
        assert(es.take(i + 1).drop_last() =~= es.take(i as int));
        assert(selection@.take(i + 1).drop_last() =~= selection@.take(i as int));
        assert(es.take(i + 1).last() == entries@[i as int].fields());
        let e = &entries[i];
        match selection[i] {
            None => {
                let plan = ExtractPlan { steps, error: Some(ExtractError::NotText(e.path.clone())) };
                proof {
                    lemma_extraction_stops(es, selection@, target@, i as int);
                }
                return plan;
            },
            Some(false) => {},
            Some(true) => match strip_root_bytes(e.path.as_slice()) {
                None => {
                    let plan = ExtractPlan { steps, error: Some(ExtractError::NotRooted(e.path.clone())) };
                    proof {
                        lemma_extraction_stops(es, selection@, target@, i as int);
                    }
                    return plan;
                },
                Some(rel) => {
                    let path = join_bytes(target, rel.as_slice());
                    let ghost before = steps@;
                    let step = ExtractStep {
                        node: i,
                        path,
                        action: step_action(e),
                        mtime: e.mtime,
                        permissions: e.permissions,
                    };
                    let ghost planned = step.planned();
                    assert(planned == step_for(i as int, es[i as int], rel@, target@));
                    steps.push(step);
                    assert(steps@.map_values(|s: ExtractStep| s.planned())
                        =~= before.map_values(|s: ExtractStep| s.planned()).push(planned));
                },
            },
        }
        i = i + 1;
    }
    assert(es.take(n as int) =~= es);
    assert(selection@.take(n as int) =~= selection@);
    ExtractPlan { steps, error: None }
}

/// Once the extraction stops on an entry, later entries change nothing.
proof fn lemma_extraction_stops(entries: Seq<EntryFields>, selection: Seq<Option<bool>>, target: Seq<u8>, i: int)
    requires
        0 <= i < entries.len(),
        selection.len() == entries.len(),
        extraction(entries.take(i + 1), selection.take(i + 1), target).1 is Some,
    ensures
        extraction(entries, selection, target) == extraction(entries.take(i + 1), selection.take(i + 1), target),
    decreases entries.len() - i,
{
    if i + 1 < entries.len() {
        assert(entries.drop_last().take(i + 1) =~= entries.take(i + 1));
        assert(selection.drop_last().take(i + 1) =~= selection.take(i + 1));
        lemma_extraction_stops(entries.drop_last(), selection.drop_last(), target, i);
    } else {
        assert(entries.take(i + 1) =~= entries);
        assert(selection.take(i + 1) =~= selection);
    }
}

/// Plans the extraction of the given nodes under `target`: all of them, or,
/// given a pattern, those whose full path it matches.
pub fn plan_extraction(entries: &Vec<SquashfsEntry>, pattern: Option<&str>, target: &[u8]) -> (plan: ExtractPlan)
    ensures
        plan.planned() == extraction(
            entries_view(entries@),
            selection(entries_view(entries@), pattern_text(pattern)),
            target@,
        ),
{
    let sel = select_entries(entries, pattern);
    plan_selected(entries, &sel, target)
}

/// Reads the nodes of the image that starts at `fs_offset` in `image` and
/// plans their extraction under `target`: all of them, or, given a
/// pattern, those whose full path it matches.
pub fn plan_image_extraction(image: &[u8], fs_offset: u64, pattern: Option<&str>, target: &[u8]) -> (r: Result<ExtractPlan, ImageError>)
    ensures
        match image_read(image@, fs_offset) {
            ImageRead::Entries(es) => r matches Ok(p)
                && p.planned() == extraction(es, selection(es, pattern_text(pattern)), target@),
            other => r matches Err(e) && e.matches_read(other),
        },
{
    match read_image_entries(image, fs_offset) {
        Ok(entries) => Ok(plan_extraction(&entries, pattern, target)),
        Err(e) => Err(e),
    }
}

/// Extraction never leaves the target directory: every step goes to a path
/// that starts with `target`, and belongs to a selected node, taken in
/// increasing node order.
pub proof fn lemma_extraction_stays_in_target(entries: Seq<EntryFields>, selection: Seq<Option<bool>>, target: Seq<u8>)
    requires
        selection.len() == entries.len(),
    ensures
        forall|k: int| 0 <= k < extraction(entries, selection, target).0.len() ==> {
            let step = #[trigger] extraction(entries, selection, target).0[k];
            &&& has_prefix(target, step.path)
            &&& 0 <= step.node < entries.len()
            &&& selection[step.node] == Some(true)
            &&& step == step_for(step.node, entries[step.node], rootless(entries[step.node].0).unwrap(), target)
        },
        forall|k: int, l: int| 0 <= k < l < extraction(entries, selection, target).0.len() ==>
            extraction(entries, selection, target).0[k].node < extraction(entries, selection, target).0[l].node,
    decreases entries.len(),
{
    if entries.len() > 0 {
        let prev_entries = entries.drop_last();
        let prev_sel = selection.drop_last();
        lemma_extraction_stays_in_target(prev_entries, prev_sel, target);
        let i = entries.len() - 1;
        let e = entries.last();
        lemma_rootless_relative(e.0);
        let prev = extraction(prev_entries, prev_sel, target);
        let cur = extraction(entries, selection, target);
        assert forall|k: int| 0 <= k < prev.0.len() implies
            prev.0[k].node < i && entries[prev.0[k].node] == prev_entries[prev.0[k].node]
            && selection[prev.0[k].node] == prev_sel[prev.0[k].node] by {
            let _ = prev.0[k];
        }
        if prev.1 is None && selection[i] == Some(true) {
            if let Some(rel) = rootless(e.0) {
                let joined = path_join(target, rel);
                assert(joined.subrange(0, target.len() as int) =~= target);
                assert forall|k: int| 0 <= k < cur.0.len() implies {
                    let step = #[trigger] cur.0[k];
                    &&& has_prefix(target, step.path)
                    &&& 0 <= step.node < entries.len()
                    &&& selection[step.node] == Some(true)
                    &&& step == step_for(step.node, entries[step.node], rootless(entries[step.node].0).unwrap(), target)
                } by {
                    if k < prev.0.len() {
                        assert(cur.0[k] == prev.0[k]);
                    }
                }
                assert forall|k: int, l: int| 0 <= k < l < cur.0.len() implies cur.0[k].node < cur.0[l].node by {
                    assert(cur.0[k] == prev.0[k]);
                    if l < prev.0.len() {
                        assert(cur.0[l] == prev.0[l]);
                    }
                }
            }
        }
    }
}

/// Every selected node is extracted when every path was read (none is
/// `None` in the selection) and all selected paths are rooted: the
/// extraction does not stop, and each selected node has a step.
pub proof fn lemma_selected_nodes_extracted(entries: Seq<EntryFields>, selection: Seq<Option<bool>>, target: Seq<u8>)
    requires
        selection.len() == entries.len(),
        forall|i: int| 0 <= i < entries.len() ==> #[trigger] selection[i] is Some,
        forall|i: int| 0 <= i < entries.len() && #[trigger] selection[i] == Some(true) ==> rootless(entries[i].0) is Some,
    ensures
        extraction(entries, selection, target).1 is None,
        forall|i: int| 0 <= i < entries.len() && #[trigger] selection[i] == Some(true) ==>
            exists|k: int| 0 <= k < extraction(entries, selection, target).0.len()
                && #[trigger] extraction(entries, selection, target).0[k].node == i,
    decreases entries.len(),
{
    if entries.len() > 0 {
        let prev_entries = entries.drop_last();
        let prev_sel = selection.drop_last();
        assert forall|i: int| 0 <= i < prev_entries.len() implies #[trigger] prev_sel[i] is Some by {
            assert(prev_sel[i] == selection[i]);
        }
        assert forall|i: int| 0 <= i < prev_entries.len() && #[trigger] prev_sel[i] == Some(true) implies rootless(prev_entries[i].0) is Some by {
            assert(prev_sel[i] == selection[i]);
            assert(prev_entries[i] == entries[i]);
        }
        lemma_selected_nodes_extracted(prev_entries, prev_sel, target);
        let n = entries.len() - 1;
        let prev = extraction(prev_entries, prev_sel, target);
        let cur = extraction(entries, selection, target);
        assert(selection[n] is Some);
        assert forall|i: int| 0 <= i < entries.len() && #[trigger] selection[i] == Some(true) implies
            exists|k: int| 0 <= k < cur.0.len() && #[trigger] cur.0[k].node == i by {
            if i < n {
                assert(prev_sel[i] == selection[i]);
                let k = choose|k: int| 0 <= k < prev.0.len() && #[trigger] prev.0[k].node == i;
                assert(cur.0[k] == prev.0[k]);
            } else {
                assert(cur.0[prev.0.len() as int].node == n);
            }
        }
    }
}

/// Without a pattern every node is extracted, in order, unless a node's path
/// is not rooted: then the extraction stops on the first such node.
pub proof fn lemma_extract_all(entries: Seq<EntryFields>, target: Seq<u8>)
    ensures
        (forall|i: int| 0 <= i < entries.len() ==> rootless(#[trigger] entries[i].0) is Some) ==> {
            let plan = extraction(entries, selection(entries, None), target);
            &&& plan.1 is None
            &&& plan.0.len() == entries.len()
            &&& forall|k: int| 0 <= k < entries.len() ==> #[trigger] plan.0[k].node == k
        },
    decreases entries.len(),
{
    if entries.len() > 0 {
        let prev_entries = entries.drop_last();
        assert(selection(entries, None).drop_last() =~= selection(prev_entries, None));
        lemma_extract_all(prev_entries, target);
        if forall|i: int| 0 <= i < entries.len() ==> rootless(#[trigger] entries[i].0) is Some {
            assert forall|i: int| 0 <= i < prev_entries.len() implies rootless(#[trigger] prev_entries[i].0) is Some by {
                assert(prev_entries[i] == entries[i]);
            }
            assert(rootless(entries[entries.len() - 1].0) is Some);
            let plan = extraction(entries, selection(entries, None), target);
            let prev = extraction(prev_entries, selection(prev_entries, None), target);
            assert forall|k: int| 0 <= k < entries.len() implies #[trigger] plan.0[k].node == k by {
                if k < prev_entries.len() {
                    assert(plan.0[k] == prev.0[k]);
                }
            }
        }
    } else {
        assert(selection(entries, None) =~= Seq::<Option<bool>>::empty());
    }
}

/// Every step carries its node's own modification time and permissions,
/// goes to the node's path with the root taken off, joined onto the target,
/// and creates what the node's kind asks for: a file for a file, a
/// directory for a directory, a link to the node's target for a symbolic
/// link, nothing for any other kind.
pub proof fn lemma_steps_follow_their_nodes(entries: Seq<EntryFields>, selection: Seq<Option<bool>>, target: Seq<u8>)
    requires
        selection.len() == entries.len(),
    ensures
        forall|k: int| 0 <= k < extraction(entries, selection, target).0.len() ==> {
            let step = #[trigger] extraction(entries, selection, target).0[k];
            let node = entries[step.node];
            &&& 0 <= step.node < entries.len()
            &&& step.mtime == node.3
            &&& step.permissions == node.4
            &&& step.path == path_join(target, rootless(node.0).unwrap())
            &&& (node.1 == 0 ==> step.action == PlannedAction::WriteFile)
            &&& (node.1 == 1 ==> step.action == PlannedAction::CreateDir)
            &&& (node.1 == 2 ==> step.action == PlannedAction::Symlink(node.2))
            &&& (node.1 > 2 ==> step.action == PlannedAction::Unsupported)
        },
{
    lemma_extraction_stays_in_target(entries, selection, target);
}

} // verus!
