//! Editor state: the canvas, its identity, undo and redo, and change tracking.
use crate::boundary::{BoundaryView, GraphBoundary};
use crate::canvas::{built, canvas_to_graph, graph_to_snarl, node_at, pictures, Canvas};
use crate::canvas_edit::joined;
use crate::graph::Graph;
use crate::ids::GraphKind;
use crate::slots::NodeId;
use vstd::prelude::*;

verus! {

/// The most undo entries kept, counting those that were undone and may be
/// redone.
pub const UNDO_DEPTH: usize = 100;

/// How many frames a message is shown.
pub const TOAST_FRAMES: u32 = 180;

/// An action that can be undone or redone: its label, and the graph to return
/// to.
#[derive(Debug)]
pub struct UndoEntry {
    /// Short, human-readable label.
    pub label: String,
    /// The graph on the other side of the action.
    pub snapshot: Graph,
}

/// What one frame of the canvas brought.
#[derive(Debug)]
pub struct Frame {
    /// The graph as it was before the frame.
    pub before: Graph,
    /// Labels of the structural actions performed.
    pub actions: Vec<String>,
    /// Whether a parameter changed.
    pub edited: bool,
    /// Display name of the node whose parameter changed.
    pub edited_node: Option<String>,
    /// Whether the pointer is down or a widget has the focus.
    pub interacting: bool,
    /// The node whose header was clicked.
    pub clicked: Option<usize>,
}

/// All editor state.
#[derive(Debug)]
pub struct EditorState {
    canvas: Canvas,
    kind: GraphKind,
    boundary: GraphBoundary,
    dirty: bool,
    modified: bool,
    undo: Vec<UndoEntry>,
    redo: Vec<UndoEntry>,
    toast: Option<(String, u32)>,
    revision: u64,
    selected: Option<usize>,
    param_baseline: Option<Graph>,
    param_edit_label: Option<String>,
}

/// An undo entry, with its label as characters.
pub struct EntryView {
    /// Label characters.
    pub label: Seq<char>,
    /// The graph to return to.
    pub snapshot: Graph,
}

/// The entries of a stack, oldest first.
pub open spec fn entry_views(entries: Seq<UndoEntry>) -> Seq<EntryView> {
    entries.map_values(|e: UndoEntry| EntryView { label: e.label@, snapshot: e.snapshot })
}

/// Editor state, as plain values.
pub struct EditorView {
    /// The canvas.
    pub canvas: Canvas,
    /// The role the graph plays, which no node can hold.
    pub kind: GraphKind,
    /// The boundary the graph declares, which no node can hold.
    pub boundary: BoundaryView,
    /// Whether the canvas changed since it was last asked.
    pub dirty: bool,
    /// Whether there are unsaved changes.
    pub modified: bool,
    /// What can be undone, oldest first.
    pub undo: Seq<EntryView>,
    /// What can be redone, oldest undone first.
    pub redo: Seq<EntryView>,
    /// The message shown, and for how many more frames.
    pub toast: Option<(Seq<char>, u32)>,
    /// Counts edits and changes of selection, wrapping around.
    pub revision: u64,
    /// The selected node.
    pub selected: Option<usize>,
    /// The graph before the parameter interaction in flight.
    pub baseline: Option<Graph>,
    /// The label of the parameter interaction in flight.
    pub edit_label: Option<Seq<char>>,
}

/// The counter one further.
pub open spec fn next_revision(revision: u64) -> u64 {
    if revision == u64::MAX {
        0
    } else {
        (revision + 1) as u64
    }
}

/// A stack with one more entry on top; a full stack forgets its oldest.
pub open spec fn stacked(stack: Seq<EntryView>, entry: EntryView) -> Seq<EntryView> {
    if stack.len() >= UNDO_DEPTH {
        stack.skip(1).push(entry)
    } else {
        stack.push(entry)
    }
}

/// Labels joined by commas.
pub open spec fn comma_list(labels: Seq<String>) -> Seq<char>
    decreases labels.len(),
{
    if labels.len() == 0 {
        Seq::empty()
    } else if labels.len() == 1 {
        labels[0]@
    } else {
        comma_list(labels.drop_last()) + ", "@ + labels.last()@
    }
}

impl EditorView {
    /// Whether both stacks together hold no more than [`UNDO_DEPTH`] entries.
    pub open spec fn bounded(self) -> bool {
        self.undo.len() + self.redo.len() <= UNDO_DEPTH
    }

    /// The state after something changed.
    pub open spec fn touched(self) -> EditorView {
        EditorView {
            dirty: true,
            modified: true,
            revision: next_revision(self.revision),
            ..self
        }
    }

    /// The state after an undo entry is pushed.
    pub open spec fn pushed(self, label: Seq<char>, before: Graph) -> EditorView {
        EditorView {
            undo: stacked(self.undo, EntryView { label, snapshot: before }),
            redo: Seq::empty(),
            ..self.touched()
        }
    }

    /// The state after the parameter interaction in flight, if any, is made an
    /// undo entry.
    pub open spec fn committed(self) -> EditorView {
        match self.baseline {
            Some(before) => EditorView { baseline: None, edit_label: None, ..self }.pushed(
                match self.edit_label {
                    Some(label) => label,
                    None => "Edit parameter"@,
                },
                before,
            ),
            None => self,
        }
    }

    /// The state after a parameter changed in a frame: the first change of an
    /// interaction keeps the graph from before it.
    pub open spec fn edited(self, before: Graph, node: Option<Seq<char>>) -> EditorView {
        if self.baseline is None {
            EditorView {
                baseline: Some(before),
                edit_label: match node {
                    Some(name) => Some("Edit "@ + name),
                    None => None,
                },
                ..self
            }.touched()
        } else {
            self.touched()
        }
    }

    /// The state after a click on a node's header.
    pub open spec fn clicked(self, node: Option<usize>) -> EditorView {
        if node is Some && node != self.selected {
            EditorView { selected: node, revision: next_revision(self.revision), ..self }
        } else {
            self
        }
    }

    /// The state after a frame: structural actions fold into one undo entry;
    /// parameter changes accumulate until the interaction ends.
    pub open spec fn settled(self, frame: Frame) -> EditorView {
        let shown = if frame.actions@.len() > 0 {
            self.committed().pushed(comma_list(frame.actions@), frame.before)
        } else if frame.edited {
            self.edited(
                frame.before,
                match frame.edited_node {
                    Some(name) => Some(name@),
                    None => None,
                },
            )
        } else if !frame.interacting {
            self.committed()
        } else {
            self
        };
        shown.clicked(frame.clicked)
    }

    /// Whether a graph is what the canvas and the identity beside it stand for.
    pub open spec fn stands_for(self, graph: Graph) -> bool {
        &&& graph.kind == self.kind
        &&& graph.boundary@ == self.boundary
        &&& exists|ids: Seq<NodeId>| #[trigger] built(graph, self.canvas, ids)
    }

    /// Whether undoing leads to a state: the newest undo entry moves to the redo
    /// stack with the graph it replaces, and its snapshot is drawn.
    pub open spec fn undone(self, after: EditorView) -> bool {
        &&& self.undo.len() > 0
        &&& after.undo == self.undo.drop_last()
        &&& after.redo.len() == self.redo.len() + 1
        &&& after.redo.drop_last() == self.redo
        &&& after.redo.last().label == self.undo.last().label
        &&& self.stands_for(after.redo.last().snapshot)
        &&& pictures(after.canvas, self.undo.last().snapshot)
        &&& after == (EditorView {
            canvas: after.canvas,
            undo: after.undo,
            redo: after.redo,
            baseline: None,
            edit_label: None,
            ..self.touched()
        })
    }

    /// Whether redoing leads to a state: the newest redo entry moves to the undo
    /// stack with the graph it replaces, and its snapshot is drawn.
    pub open spec fn redone(self, after: EditorView) -> bool {
        &&& self.redo.len() > 0
        &&& after.redo == self.redo.drop_last()
        &&& after.undo.len() == self.undo.len() + 1
        &&& after.undo.drop_last() == self.undo
        &&& after.undo.last().label == self.redo.last().label
        &&& self.stands_for(after.undo.last().snapshot)
        &&& pictures(after.canvas, self.redo.last().snapshot)
        &&& after == (EditorView {
            canvas: after.canvas,
            undo: after.undo,
            redo: after.redo,
            baseline: None,
            edit_label: None,
            ..self.touched()
        })
    }
}

fn joined_labels(labels: &Vec<String>) -> (r: String)
    ensures
        r@ == comma_list(labels@),
{
    let mut out = String::new();
    let mut k: usize = 0;
    while k < labels.len()
        invariant
            k <= labels@.len(),
            out@ == comma_list(labels@.take(k as int)),
        decreases labels@.len() - k,
    {
        proof {
            assert(labels@.take(k + 1).drop_last() =~= labels@.take(k as int));
        }
        if k > 0 {
            out.append(", ");
        }
        let ghost before = out@;
        out.append(labels[k].as_str());
        proof {
            if k == 0 {
                assert(before =~= Seq::<char>::empty());
                assert(out@ =~= labels@[0]@);
            }
        }
        k = k + 1;
    }
    assert(labels@.take(k as int) =~= labels@);
    out
}

impl EditorState {
    /// The state as plain values.
    pub closed spec fn view(&self) -> EditorView {
        EditorView {
            canvas: self.canvas,
            kind: self.kind,
            boundary: self.boundary@,
            dirty: self.dirty,
            modified: self.modified,
            undo: entry_views(self.undo@),
            redo: entry_views(self.redo@),
            toast: match self.toast {
                Some(t) => Some((t.0@, t.1)),
                None => None,
            },
            revision: self.revision,
            selected: self.selected,
            baseline: self.param_baseline,
            edit_label: match self.param_edit_label {
                Some(l) => Some(l@),
                None => None,
            },
        }
    }

    #[verifier::type_invariant]
    spec fn bounded(self) -> bool {
        self.undo@.len() + self.redo@.len() <= UNDO_DEPTH
    }

    /// Empty editor with no nodes.
    pub fn new() -> (r: Self)
        ensures
            r@.canvas.nodes@.len() == 0,
            r@.canvas.wires@.len() == 0,
            r@.kind == GraphKind::Biome,
            r@.boundary == (BoundaryView { inputs: Seq::empty(), outputs: Seq::empty() }),
            !r@.dirty,
            !r@.modified,
            r@.undo.len() == 0,
            r@.redo.len() == 0,
            r@.toast is None,
            r@.revision == 0,
            r@.selected is None,
            r@.baseline is None,
            r@.edit_label is None,
    {
        EditorState::over(Canvas::new(), GraphKind::Biome, GraphBoundary::default())
    }

    fn over(canvas: Canvas, kind: GraphKind, boundary: GraphBoundary) -> (r: Self)
        ensures
            r@ == (EditorView {
                canvas,
                kind,
                boundary: boundary@,
                dirty: false,
                modified: false,
                undo: Seq::empty(),
                redo: Seq::empty(),
                toast: None,
                revision: 0,
                selected: None,
                baseline: None,
                edit_label: None,
            }),
    {
        let r = EditorState {
            canvas,
            kind,
            boundary,
            dirty: false,
            modified: false,
            undo: Vec::new(),
            redo: Vec::new(),
            toast: None,
            revision: 0,
            selected: None,
            param_baseline: None,
            param_edit_label: None,
        };
        assert(entry_views(r.undo@) =~= Seq::<EntryView>::empty());
        assert(entry_views(r.redo@) =~= Seq::<EntryView>::empty());
        r
    }

    /// Build from an existing graph.
    pub fn from_graph(graph: &Graph) -> (r: Self)
        ensures
            pictures(r@.canvas, *graph),
            r@ == (EditorView {
                canvas: r@.canvas,
                kind: graph.kind,
                boundary: graph.boundary@,
                dirty: false,
                modified: false,
                undo: Seq::empty(),
                redo: Seq::empty(),
                toast: None,
                revision: 0,
                selected: None,
                baseline: None,
                edit_label: None,
            }),
    {
        EditorState::over(graph_to_snarl(graph), graph.kind, graph.boundary.clone())
    }

    /// The canvas.
    pub fn canvas(&self) -> (r: &Canvas)
        ensures
            *r == self@.canvas,
    {
        &self.canvas
    }

    /// Replace the canvas, as a frame left it.
    pub fn set_canvas(&mut self, canvas: Canvas)
        ensures
            final(self)@ == (EditorView { canvas, ..old(self)@ }),
    {
        proof {
            use_type_invariant(&*self);
        }
        self.canvas = canvas;
    }

    /// The graph the canvas stands for, with the kind and boundary beside it,
    /// and the graph identity of each node of the canvas in canvas order.
    pub fn canvas_graph(&self) -> (r: (Graph, Vec<NodeId>))
        requires
            self@.canvas.nodes@.len() < 0xffff_fffe,
        ensures
            r.0.kind == self@.kind,
            r.0.boundary@ == self@.boundary,
            built(r.0, self@.canvas, r.1@),
            self@.stands_for(r.0),
    {
        let (mut graph, ids) = canvas_to_graph(self.kind, &self.canvas);
        graph.boundary = self.boundary.clone();
        assert(built(graph, self.canvas, ids@));
        (graph, ids)
    }

    /// The graph the canvas stands for.
    pub fn build_graph(&self) -> (r: Graph)
        requires
            self@.canvas.nodes@.len() < 0xffff_fffe,
        ensures
            self@.stands_for(r),
    {
        self.canvas_graph().0
    }

    /// Counts edits and changes of selection, wrapping around.
    pub fn revision(&self) -> (r: u64)
        ensures
            r == self@.revision,
    {
        self.revision
    }

    /// The selected node.
    pub fn selected(&self) -> (r: Option<usize>)
        ensures
            r == self@.selected,
    {
        self.selected
    }

    /// The graph the canvas stands for, with the identity in it of the node
    /// selected on the canvas, if that node is still there.
    pub fn build_graph_with_selection(&self) -> (r: (Graph, Option<NodeId>))
        requires
            self@.canvas.nodes@.len() < 0xffff_fffe,
        ensures
            r.0.kind == self@.kind,
            r.0.boundary@ == self@.boundary,
            exists|ids: Seq<NodeId>|
                #![trigger built(r.0, self@.canvas, ids)]
                built(r.0, self@.canvas, ids) && r.1 == (match self@.selected {
                    Some(s) => match node_at(self@.canvas.nodes@, s) {
                        Some(k) => Some(ids[k]),
                        None => None,
                    },
                    None => None,
                }),
    {
        let (graph, ids) = self.canvas_graph();
        let selected: Option<NodeId> = match self.selected {
            Some(s) => match self.canvas.find(s) {
                Some(k) => Some(ids[k]),
                None => None,
            },
            None => None,
        };
        assert(built(graph, self.canvas, ids@));
        (graph, selected)
    }

    /// Push an undo entry whose snapshot is the graph before the action. What
    /// was undone can no longer be redone.
    pub fn push_undo(&mut self, label: String, pre_snapshot: Graph)
        ensures
            final(self)@ == old(self)@.pushed(label@, pre_snapshot),
            final(self)@.bounded(),
    {
        proof {
            use_type_invariant(&*self);
        }
        let ghost before = self.undo@;
        let ghost entry = EntryView { label: label@, snapshot: pre_snapshot };
        let mut redo: Vec<UndoEntry> = Vec::new();
        std::mem::swap(&mut redo, &mut self.redo);
        let mut undo: Vec<UndoEntry> = Vec::new();
        std::mem::swap(&mut undo, &mut self.undo);
        if undo.len() >= UNDO_DEPTH {
            undo.remove(0);
        }
        undo.push(UndoEntry { label, snapshot: pre_snapshot });
        proof {
            assert(entry_views(undo@) =~= stacked(entry_views(before), entry));
            assert(entry_views(self.redo@) =~= Seq::<EntryView>::empty());
        }
        self.undo = undo;
        self.touch();
    }

    fn touch(&mut self)
        ensures
            final(self)@ == old(self)@.touched(),
    {
        proof {
            use_type_invariant(&*self);
        }
        self.dirty = true;
        self.modified = true;
        self.revision = self.revision.wrapping_add(1);
    }

    /// Mark that the canvas changed, without an undo entry.
    pub fn mark_dirty(&mut self)
        ensures
            final(self)@ == old(self)@.touched(),
    {
        self.touch();
    }

    /// Make the parameter interaction in flight, if any, one undo entry.
    pub fn commit_param_edit(&mut self)
        ensures
            final(self)@ == old(self)@.committed(),
            final(self)@.bounded(),
    {
        proof {
            use_type_invariant(&*self);
        }
        let mut baseline: Option<Graph> = None;
        std::mem::swap(&mut baseline, &mut self.param_baseline);
        if let Some(before) = baseline {
            let mut label: Option<String> = None;
            std::mem::swap(&mut label, &mut self.param_edit_label);
            let text = match label {
                Some(l) => l,
                None => String::from_str("Edit parameter"),
            };
            self.push_undo(text, before);
        }
    }

    /// Fold what a frame brought into the state: structural actions become one
    /// undo entry, after any parameter interaction in flight; a first parameter
    /// change keeps the graph from before it; an ended interaction becomes an
    /// undo entry; a click selects.
    pub fn settle_frame(&mut self, frame: Frame)
        ensures
            final(self)@ == old(self)@.settled(frame),
            final(self)@.bounded(),
    {
        proof {
            use_type_invariant(&*self);
        }
        if frame.actions.len() > 0 {
            self.commit_param_edit();
            let label = joined_labels(&frame.actions);
            self.push_undo(label, frame.before);
        } else if frame.edited {
            if self.param_baseline.is_none() {
                let label: Option<String> = match &frame.edited_node {
                    Some(name) => Some(joined("Edit ", name.as_str())),
                    None => None,
                };
                self.param_baseline = Some(frame.before);
                self.param_edit_label = label;
            }
            self.touch();
        } else if !frame.interacting {
            self.commit_param_edit();
        }
        proof {
            use_type_invariant(&*self);
        }
        if frame.clicked.is_some() && frame.clicked != self.selected {
            self.selected = frame.clicked;
            self.revision = self.revision.wrapping_add(1);
        }
    }

    /// Whether the canvas changed since the last call.
    pub fn consume_dirty(&mut self) -> (r: bool)
        ensures
            r == old(self)@.dirty,
            final(self)@ == (EditorView { dirty: false, ..old(self)@ }),
    {
        proof {
            use_type_invariant(&*self);
        }
        let was = self.dirty;
        self.dirty = false;
        was
    }

    /// Whether there are edits since the last `mark_saved`.
    pub fn is_modified(&self) -> (r: bool)
        ensures
            r == self@.modified,
    {
        self.modified
    }

    /// Note that the graph was saved.
    pub fn mark_saved(&mut self)
        ensures
            final(self)@ == (EditorView { modified: false, ..old(self)@ }),
    {
        proof {
            use_type_invariant(&*self);
        }
        self.modified = false;
    }

    /// Undo the most recent action. Returns its label, or `None` when there is
    /// nothing to undo.
    pub fn undo(&mut self) -> (r: Option<String>)
        requires
            old(self)@.canvas.nodes@.len() < 0xffff_fffe,
        ensures
            match r {
                Some(label) => {
                    &&& old(self)@.undo.len() > 0
                    &&& label@ == old(self)@.undo.last().label
                    &&& old(self)@.undone(final(self)@)
                },
                None => old(self)@.undo.len() == 0 && final(self)@ == old(self)@,
            },
            final(self)@.bounded(),
    {
        proof {
            use_type_invariant(&*self);
        }
        let ghost start = self@;
        let mut undo: Vec<UndoEntry> = Vec::new();
        std::mem::swap(&mut undo, &mut self.undo);
        let ghost all = undo@;
        match undo.pop() {
            None => {
                self.undo = undo;
                assert(self@.undo =~= start.undo);
                None
            },
            Some(entry) => {
                let mut redo: Vec<UndoEntry> = Vec::new();
                std::mem::swap(&mut redo, &mut self.redo);
                let ghost stack = redo@;
                let current = self.build_graph();
                redo.push(UndoEntry { label: entry.label.clone(), snapshot: current });
                proof {
                    assert(entry_views(redo@).drop_last() =~= entry_views(stack));
                    assert(entry_views(undo@) =~= entry_views(all).drop_last());
                    assert(entry_views(all).last() == (EntryView {
                        label: entry.label@,
                        snapshot: entry.snapshot,
                    }));
                }
                self.undo = undo;
                self.redo = redo;
                self.canvas = graph_to_snarl(&entry.snapshot);
                self.param_baseline = None;
                self.param_edit_label = None;
                self.touch();
                Some(entry.label)
            },
        }
    }

    /// Redo the last undone action. Returns its label, or `None` when there is
    /// nothing to redo.
    pub fn redo(&mut self) -> (r: Option<String>)
        requires
            old(self)@.canvas.nodes@.len() < 0xffff_fffe,
        ensures
            match r {
                Some(label) => {
                    &&& old(self)@.redo.len() > 0
                    &&& label@ == old(self)@.redo.last().label
                    &&& old(self)@.redone(final(self)@)
                },
                None => old(self)@.redo.len() == 0 && final(self)@ == old(self)@,
            },
            final(self)@.bounded(),
    {
        proof {
            use_type_invariant(&*self);
        }
        let ghost start = self@;
        let mut redo: Vec<UndoEntry> = Vec::new();
        std::mem::swap(&mut redo, &mut self.redo);
        let ghost all = redo@;
        match redo.pop() {
            None => {
                self.redo = redo;
                assert(self@.redo =~= start.redo);
                None
            },
            Some(entry) => {
                let mut undo: Vec<UndoEntry> = Vec::new();
                std::mem::swap(&mut undo, &mut self.undo);
                let ghost stack = undo@;
                let current = self.build_graph();
                undo.push(UndoEntry { label: entry.label.clone(), snapshot: current });
                proof {
                    assert(entry_views(undo@).drop_last() =~= entry_views(stack));
                    assert(entry_views(redo@) =~= entry_views(all).drop_last());
                    assert(entry_views(all).last() == (EntryView {
                        label: entry.label@,
                        snapshot: entry.snapshot,
                    }));
                }
                self.redo = redo;
                self.undo = undo;
                self.canvas = graph_to_snarl(&entry.snapshot);
                self.param_baseline = None;
                self.param_edit_label = None;
                self.touch();
                Some(entry.label)
            },
        }
    }

    /// Label of the action the next undo would revert.
    pub fn peek_undo(&self) -> (r: Option<&str>)
        ensures
            match r {
                Some(label) => self@.undo.len() > 0 && label@ == self@.undo.last().label,
                None => self@.undo.len() == 0,
            },
    {
        if self.undo.len() == 0 {
            None
        } else {
            Some(self.undo[self.undo.len() - 1].label.as_str())
        }
    }

    /// Label of the action the next redo would repeat.
    pub fn peek_redo(&self) -> (r: Option<&str>)
        ensures
            match r {
                Some(label) => self@.redo.len() > 0 && label@ == self@.redo.last().label,
                None => self@.redo.len() == 0,
            },
    {
        if self.redo.len() == 0 {
            None
        } else {
            Some(self.redo[self.redo.len() - 1].label.as_str())
        }
    }

    /// Briefly show a message.
    pub fn toast(&mut self, message: String)
        ensures
            final(self)@ == (EditorView {
                toast: Some((message@, TOAST_FRAMES)),
                ..old(self)@
            }),
    {
        proof {
            use_type_invariant(&*self);
        }
        self.toast = Some((message, TOAST_FRAMES));
    }

    /// The message to show in this frame; it lives one frame less afterwards.
    pub fn tick_toast(&mut self) -> (r: Option<String>)
        ensures
            match old(self)@.toast {
                Some(t) => {
                    &&& r is Some
                    &&& r->0@ == t.0
                    &&& final(self)@ == (EditorView {
                        toast: if t.1 == 0 {
                            None
                        } else {
                            Some((t.0, (t.1 - 1) as u32))
                        },
                        ..old(self)@
                    })
                },
                None => r is None && final(self)@ == old(self)@,
            },
    {
        proof {
            use_type_invariant(&*self);
        }
        let mut current: Option<(String, u32)> = None;
        std::mem::swap(&mut current, &mut self.toast);
        match current {
            None => None,
            Some((message, left)) => {
                let shown = message.clone();
                if left > 0 {
                    self.toast = Some((message, left - 1));
                }
                Some(shown)
            },
        }
    }
}

impl Default for EditorState {
    fn default() -> (r: Self)
        ensures
            r@.canvas.nodes@.len() == 0,
            r@.canvas.wires@.len() == 0,
            r@.kind == GraphKind::Biome,
            r@.boundary == (BoundaryView { inputs: Seq::empty(), outputs: Seq::empty() }),
            !r@.dirty,
            !r@.modified,
            r@.undo.len() == 0,
            r@.redo.len() == 0,
            r@.toast is None,
            r@.revision == 0,
            r@.selected is None,
            r@.baseline is None,
            r@.edit_label is None,
    {
        EditorState::new()
    }
}

} // verus!
