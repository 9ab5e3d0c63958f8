//! Committing a bulk load, one step at a time: every buffer is flushed,
//! then the deferred indexes are rebuilt label by label or scheduled in the
//! background, then the snapshot is written. The runner performs each
//! action (the writes, rebuilds and scheduling are storage work) and reports
//! back; the step decides what comes next.
use vstd::prelude::*;
use crate::bulk::{BulkConfig, BulkWriter, EdgeEntry, IndexPlan};
use crate::text::texts;
use crate::value::Value;

verus! {

/// How a commit builds the indexes whose building was deferred.
#[derive(Debug, Clone, Copy, PartialEq, Eq, Structural)]
pub enum IndexMode {
    /// Nothing was deferred.
    NoRebuild,
    /// Each touched label is rebuilt before the commit returns.
    Blocking,
    /// The rebuilds of the touched labels are scheduled in the background.
    Background,
}

/// Where a commit stands.
#[derive(Debug, Clone, Copy, PartialEq, Eq, Structural)]
pub enum CommitStage {
    Flushing,
    Rebuilding,
    Scheduling,
    Snapshot,
    Done,
}

/// What the runner reports after performing the last action.
pub enum CommitEvent {
    /// The action was performed.
    Proceed,
    /// The background rebuilds were scheduled under these task ids.
    Scheduled(Vec<String>),
}

/// What the runner is to do next.
pub enum CommitAction {
    /// Write these buffered rows of `label`.
    WriteVertices { label: String, rows: Vec<(u64, Vec<(String, Value)>)> },
    /// Write these buffered edges of `edge_type`.
    WriteEdges { edge_type: String, edges: Vec<EdgeEntry> },
    /// Rebuild the indexes of `label`.
    RebuildIndexes { label: String },
    /// Schedule background rebuilds of `labels`.
    ScheduleRebuilds { labels: Vec<String> },
    /// Record the row counts of these labels and edge types in a new snapshot.
    WriteSnapshot { labels: Vec<String>, edge_types: Vec<String> },
    /// The commit is complete.
    Done,
}

/// Whether index building was deferred.
pub open spec fn defers(c: BulkConfig) -> bool {
    c.defer_vector_indexes || c.defer_scalar_indexes
}

/// How a commit with configuration `c` that wrote to the labels `touched`
/// builds indexes.
pub open spec fn mode_for(c: BulkConfig, touched: Set<Seq<char>>) -> IndexMode {
    if !defers(c) {
        IndexMode::NoRebuild
    } else if c.async_indexes && touched.len() > 0 {
        IndexMode::Background
    } else {
        IndexMode::Blocking
    }
}

/// `a` asks for the snapshot of every label and edge type `w` wrote to,
/// each once.
pub open spec fn writes_snapshot(a: CommitAction, w: BulkWriter) -> bool {
    a matches CommitAction::WriteSnapshot { labels, edge_types } && texts(labels@).to_set()
        == w.touched_labels() && texts(labels@).no_duplicates() && texts(edge_types@).to_set()
        == w.touched_edge_types() && texts(edge_types@).no_duplicates()
}

/// Nothing is left buffered in `w`.
pub open spec fn drained(w: BulkWriter) -> bool {
    w.vertex_buffers().dom() == Set::<Seq<char>>::empty() && w.edge_buffers().dom() == Set::<
        Seq<char>,
    >::empty()
}

/// The progress of one commit.
pub struct CommitProgress {
    stage: CommitStage,
    mode: IndexMode,
    labels: Vec<String>,
    next: usize,
    base_rebuilt: usize,
    base_pending: bool,
}

impl CommitProgress {
    pub closed spec fn stage_of(&self) -> CommitStage {
        self.stage
    }

    pub closed spec fn mode_of(&self) -> IndexMode {
        self.mode
    }

    /// The labels whose indexes are rebuilt or scheduled, in order.
    pub closed spec fn planned(&self) -> Seq<Seq<char>> {
        texts(self.labels@)
    }

    /// How many planned labels were rebuilt.
    pub closed spec fn rebuilt_so_far(&self) -> nat {
        self.next as nat
    }

    /// The rebuild count and the pending flag when the indexes were planned.
    pub closed spec fn base_rebuilt(&self) -> nat {
        self.base_rebuilt as nat
    }

    pub closed spec fn base_pending(&self) -> bool {
        self.base_pending
    }

    /// What holds of the writer `w` at this point of the commit.
    pub closed spec fn consistent(&self, w: BulkWriter) -> bool {
        let touched = w.touched_labels();
        let planned = texts(self.labels@);
        let stats = w.spec_stats();
        &&& w.wf()
        &&& match self.stage {
            CommitStage::Flushing => stats.indexes_rebuilt + touched.len() <= usize::MAX,
            CommitStage::Rebuilding => {
                &&& drained(w)
                &&& self.mode == IndexMode::Blocking
                &&& mode_for(w.spec_config(), touched) == IndexMode::Blocking
                &&& planned.to_set() == touched
                &&& planned.no_duplicates()
                &&& planned.len() == touched.len()
                &&& self.next < planned.len()
                &&& stats.indexes_rebuilt == self.base_rebuilt + self.next
                &&& self.base_rebuilt + planned.len() <= usize::MAX
                &&& stats.indexes_pending == self.base_pending
            },
            CommitStage::Scheduling => {
                &&& drained(w)
                &&& self.mode == IndexMode::Background
                &&& mode_for(w.spec_config(), touched) == IndexMode::Background
                &&& planned.to_set() == touched
                &&& planned.no_duplicates()
                &&& stats.indexes_rebuilt == self.base_rebuilt
            },
            _ => {
                &&& drained(w)
                &&& self.mode == mode_for(w.spec_config(), touched)
                &&& self.mode == IndexMode::Background ==> stats.indexes_pending && stats.indexes_rebuilt
                    == self.base_rebuilt
                &&& self.mode == IndexMode::Blocking ==> stats.indexes_rebuilt == self.base_rebuilt
                    + touched.len() && stats.indexes_pending == self.base_pending
                &&& self.mode == IndexMode::NoRebuild ==> stats.indexes_rebuilt == self.base_rebuilt
                    && stats.indexes_pending == self.base_pending
            },
        }
    }

    /// A commit that has not started.
    pub fn new() -> (r: Self)
        ensures
            r.stage_of() == CommitStage::Flushing,
    {
        CommitProgress {
            stage: CommitStage::Flushing,
            mode: IndexMode::NoRebuild,
            labels: Vec::new(),
            next: 0,
            base_rebuilt: 0,
            base_pending: false,
        }
    }

    /// Where the commit stands.
    pub fn stage(&self) -> (r: CommitStage)
        ensures
            r == self.stage_of(),
    {
        self.stage
    }
}

/// A commit run to the end has flushed every buffer. When index building
/// was deferred, it either scheduled the touched labels' rebuilds in the
/// background (asynchronous indexes and some label written: indexes are
/// then pending and none was rebuilt) or rebuilt each touched label exactly
/// once, counting each; otherwise it rebuilt nothing.
pub proof fn law_commit_outcome(p: CommitProgress, w: BulkWriter)
    requires
        p.consistent(w),
        p.stage_of() == CommitStage::Done,
    ensures
        drained(w),
        defers(w.spec_config()) && w.spec_config().async_indexes && w.touched_labels().len() > 0
            ==> w.spec_stats().indexes_pending && w.spec_stats().indexes_rebuilt == p.base_rebuilt(),
        defers(w.spec_config()) && !(w.spec_config().async_indexes && w.touched_labels().len() > 0)
            ==> w.spec_stats().indexes_rebuilt == p.base_rebuilt() + w.touched_labels().len()
            && w.spec_stats().indexes_pending == p.base_pending(),
        !defers(w.spec_config()) ==> w.spec_stats().indexes_rebuilt == p.base_rebuilt()
            && w.spec_stats().indexes_pending == p.base_pending(),
{
}

fn snapshot_action(w: &BulkWriter) -> (r: CommitAction)
    requires
        w.wf(),
    ensures
        writes_snapshot(r, *w),
{
    CommitAction::WriteSnapshot { labels: w.touched_label_list(), edge_types: w.touched_edge_type_list() }
}

impl BulkWriter {
    /// One step of committing the load, given what the runner reports of
    /// the last action.
    ///
    /// While anything is buffered, each step hands out one buffer (vertex
    /// buffers first) to be written, removing it. Once all is flushed the
    /// indexes are planned: nothing deferred goes straight to the snapshot;
    /// asynchronous indexes with some label written are scheduled in the
    /// background (the reported task ids are recorded and indexes are then
    /// pending); otherwise each touched label is rebuilt in turn, counted as
    /// each rebuild is reported. The snapshot of every touched label and edge
    /// type comes next, and then the commit is done.
    pub fn commit_step(&mut self, progress: &mut CommitProgress, event: CommitEvent) -> (r: CommitAction)
        requires
            old(progress).consistent(*old(self)),
        ensures
            final(progress).consistent(*final(self)),
            final(self).spec_config() == old(self).spec_config(),
            final(self).touched_labels() == old(self).touched_labels(),
            final(self).touched_edge_types() == old(self).touched_edge_types(),
            final(self).table_versions() == old(self).table_versions(),
            final(self).is_committed() == old(self).is_committed(),
            final(self).spec_stats().vertices_inserted == old(self).spec_stats().vertices_inserted,
            final(self).spec_stats().edges_inserted == old(self).spec_stats().edges_inserted,
            old(progress).stage_of() == CommitStage::Flushing && old(self).vertex_buffers().dom()
                != Set::<Seq<char>>::empty() ==> {
                &&& r matches CommitAction::WriteVertices { label, rows } && old(self).vertex_buffers().contains_key(
                    label@,
                ) && rows@ == old(self).vertex_buffers()[label@] && final(self).vertex_buffers()
                    == old(self).vertex_buffers().remove(label@)
                &&& final(self).edge_buffers() == old(self).edge_buffers()
                &&& final(self).spec_stats() == old(self).spec_stats()
                &&& *final(progress) == *old(progress)
            },
            old(progress).stage_of() == CommitStage::Flushing && old(self).vertex_buffers().dom()
                == Set::<Seq<char>>::empty() && old(self).edge_buffers().dom() != Set::<Seq<char>>::empty() ==> {
                &&& r matches CommitAction::WriteEdges { edge_type, edges } && old(self).edge_buffers().contains_key(
                    edge_type@,
                ) && edges@ == old(self).edge_buffers()[edge_type@] && final(self).edge_buffers()
                    == old(self).edge_buffers().remove(edge_type@)
                &&& final(self).vertex_buffers() == old(self).vertex_buffers()
                &&& final(self).spec_stats() == old(self).spec_stats()
                &&& *final(progress) == *old(progress)
            },
            old(progress).stage_of() == CommitStage::Flushing && drained(*old(self)) ==> {
                &&& final(self).spec_stats() == old(self).spec_stats()
                &&& final(progress).mode_of() == mode_for(old(self).spec_config(), old(self).touched_labels())
                &&& final(progress).base_rebuilt() == old(self).spec_stats().indexes_rebuilt
                &&& final(progress).base_pending() == old(self).spec_stats().indexes_pending
                &&& match mode_for(old(self).spec_config(), old(self).touched_labels()) {
                    IndexMode::Background => final(progress).stage_of() == CommitStage::Scheduling && (r matches CommitAction::ScheduleRebuilds {
                        labels,
                    } && texts(labels@).to_set() == old(self).touched_labels() && texts(labels@).no_duplicates()),
                    IndexMode::Blocking => if old(self).touched_labels().len() == 0 {
                        final(progress).stage_of() == CommitStage::Snapshot && writes_snapshot(r, *old(self))
                    } else {
                        final(progress).stage_of() == CommitStage::Rebuilding && (r matches CommitAction::RebuildIndexes {
                            label,
                        } && label@ == final(progress).planned()[0])
                    },
                    IndexMode::NoRebuild => final(progress).stage_of() == CommitStage::Snapshot && writes_snapshot(
                        r,
                        *old(self),
                    ),
                }
            },
            old(progress).stage_of() == CommitStage::Rebuilding ==> {
                let n = old(progress).rebuilt_so_far() + 1;
                &&& final(self).spec_stats().indexes_rebuilt == old(self).spec_stats().indexes_rebuilt + 1
                &&& final(self).spec_stats().indexes_pending == old(self).spec_stats().indexes_pending
                &&& final(progress).planned() == old(progress).planned()
                &&& if n < old(progress).planned().len() {
                    final(progress).stage_of() == CommitStage::Rebuilding && (r matches CommitAction::RebuildIndexes {
                        label,
                    } && label@ == old(progress).planned()[n as int])
                } else {
                    final(progress).stage_of() == CommitStage::Snapshot && writes_snapshot(r, *old(self))
                }
            },
            old(progress).stage_of() == CommitStage::Scheduling ==> {
                &&& final(self).spec_stats().index_task_ids@ == match event {
                    CommitEvent::Scheduled(ids) => ids@,
                    CommitEvent::Proceed => Seq::<String>::empty(),
                }
                &&& final(self).spec_stats().indexes_pending
                &&& final(self).spec_stats().indexes_rebuilt == old(self).spec_stats().indexes_rebuilt
                &&& final(progress).stage_of() == CommitStage::Snapshot
                &&& writes_snapshot(r, *old(self))
            },
            old(progress).stage_of() == CommitStage::Snapshot ==> r is Done && final(progress).stage_of()
                == CommitStage::Done && final(self).spec_stats() == old(self).spec_stats(),
            old(progress).stage_of() == CommitStage::Done ==> r is Done && *final(progress) == *old(progress)
                && final(self).spec_stats() == old(self).spec_stats(),
    {
        match progress.stage {
            CommitStage::Flushing => self.flush_or_plan(progress),
            CommitStage::Rebuilding => {
                self.note_index_rebuilt();
                progress.next = progress.next + 1;
                if progress.next < progress.labels.len() {
                    let label = progress.labels[progress.next].clone();
                    CommitAction::RebuildIndexes { label }
                } else {
                    progress.stage = CommitStage::Snapshot;
                    snapshot_action(self)
                }
            },
            CommitStage::Scheduling => {
                let ids = match event {
                    CommitEvent::Scheduled(ids) => ids,
                    CommitEvent::Proceed => Vec::new(),
                };
                self.note_background_tasks(ids);
                progress.stage = CommitStage::Snapshot;
                snapshot_action(self)
            },
            CommitStage::Snapshot => {
                progress.stage = CommitStage::Done;
                CommitAction::Done
            },
            CommitStage::Done => CommitAction::Done,
        }
    }

    fn flush_or_plan(&mut self, progress: &mut CommitProgress) -> (r: CommitAction)
        requires
            old(progress).consistent(*old(self)),
            old(progress).stage_of() == CommitStage::Flushing,
        ensures
            final(progress).consistent(*final(self)),
            final(self).spec_config() == old(self).spec_config(),
            final(self).touched_labels() == old(self).touched_labels(),
            final(self).touched_edge_types() == old(self).touched_edge_types(),
            final(self).table_versions() == old(self).table_versions(),
            final(self).is_committed() == old(self).is_committed(),
            final(self).spec_stats() == old(self).spec_stats(),
            old(self).vertex_buffers().dom() != Set::<Seq<char>>::empty() ==> {
                &&& r matches CommitAction::WriteVertices { label, rows } && old(self).vertex_buffers().contains_key(
                    label@,
                ) && rows@ == old(self).vertex_buffers()[label@] && final(self).vertex_buffers()
                    == old(self).vertex_buffers().remove(label@)
                &&& final(self).edge_buffers() == old(self).edge_buffers()
                &&& *final(progress) == *old(progress)
            },
            old(self).vertex_buffers().dom() == Set::<Seq<char>>::empty() && old(self).edge_buffers().dom()
                != Set::<Seq<char>>::empty() ==> {
                &&& r matches CommitAction::WriteEdges { edge_type, edges } && old(self).edge_buffers().contains_key(
                    edge_type@,
                ) && edges@ == old(self).edge_buffers()[edge_type@] && final(self).edge_buffers()
                    == old(self).edge_buffers().remove(edge_type@)
                &&& final(self).vertex_buffers() == old(self).vertex_buffers()
                &&& *final(progress) == *old(progress)
            },
            drained(*old(self)) ==> {
                &&& final(progress).mode_of() == mode_for(old(self).spec_config(), old(self).touched_labels())
                &&& final(progress).base_rebuilt() == old(self).spec_stats().indexes_rebuilt
                &&& final(progress).base_pending() == old(self).spec_stats().indexes_pending
                &&& match mode_for(old(self).spec_config(), old(self).touched_labels()) {
                    IndexMode::Background => final(progress).stage_of() == CommitStage::Scheduling && (r matches CommitAction::ScheduleRebuilds {
                        labels,
                    } && texts(labels@).to_set() == old(self).touched_labels() && texts(labels@).no_duplicates()),
                    IndexMode::Blocking => if old(self).touched_labels().len() == 0 {
                        final(progress).stage_of() == CommitStage::Snapshot && writes_snapshot(r, *old(self))
                    } else {
                        final(progress).stage_of() == CommitStage::Rebuilding && (r matches CommitAction::RebuildIndexes {
                            label,
                        } && label@ == final(progress).planned()[0])
                    },
                    IndexMode::NoRebuild => final(progress).stage_of() == CommitStage::Snapshot && writes_snapshot(
                        r,
                        *old(self),
                    ),
                }
            },
    {
        let vl = self.pending_labels();
        if vl.len() > 0 {
            let label = vl[0].clone();
            proof {
                assert(texts(vl@).to_set().contains(texts(vl@)[0]));
            }
            match self.take_vertex_buffer(label.as_str()) {
                Some(rows) => {
                    return CommitAction::WriteVertices { label, rows };
                },
                None => {
                    proof {
                        assert(false);
                    }
                    return CommitAction::Done;
                },
            }
        }
        proof {
            assert(texts(vl@) =~= Seq::<Seq<char>>::empty());
            assert(texts(vl@).to_set() =~= Set::<Seq<char>>::empty());
        }
        let el = self.pending_edge_types();
        if el.len() > 0 {
            let edge_type = el[0].clone();
            proof {
                assert(texts(el@).to_set().contains(texts(el@)[0]));
            }
            match self.take_edge_buffer(edge_type.as_str()) {
                Some(edges) => {
                    return CommitAction::WriteEdges { edge_type, edges };
                },
                None => {
                    proof {
                        assert(false);
                    }
                    return CommitAction::Done;
                },
            }
        }
        proof {
            assert(texts(el@) =~= Seq::<Seq<char>>::empty());
            assert(texts(el@).to_set() =~= Set::<Seq<char>>::empty());
        }
        progress.base_rebuilt = self.stats().indexes_rebuilt;
        progress.base_pending = self.stats().indexes_pending;
        match self.index_plan() {
            IndexPlan::NoRebuild => {
                progress.mode = IndexMode::NoRebuild;
                progress.stage = CommitStage::Snapshot;
                snapshot_action(self)
            },
            IndexPlan::Background(labels) => {
                progress.mode = IndexMode::Background;
                progress.stage = CommitStage::Scheduling;
                progress.labels = crate::text::copy_strings(&labels);
                CommitAction::ScheduleRebuilds { labels }
            },
            IndexPlan::Blocking(labels) => {
                progress.mode = IndexMode::Blocking;
                proof {
                    texts(labels@).unique_seq_to_set();
                }
                if labels.len() == 0 {
                    progress.stage = CommitStage::Snapshot;
                    snapshot_action(self)
                } else {
                    let first = labels[0].clone();
                    progress.labels = labels;
                    progress.next = 0;
                    progress.stage = CommitStage::Rebuilding;
                    CommitAction::RebuildIndexes { label: first }
                }
            },
        }
    }
}

} // verus!
