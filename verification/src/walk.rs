use vstd::prelude::*;
use crate::classify::is_text_bytes;
use crate::classify::is_text_sample;
use crate::limiter::AdmitDecision;
use crate::limiter::Limiter;
use crate::limiter::Limits;
use crate::limiter::SkipReason;
use crate::limiter::admit_decision;
use crate::limiter::commit_step;
use crate::tree::TreeItem;
use crate::tree::TreeItemModel;
use crate::tree::item_wf;
use crate::tree::render_tree;
use crate::tree::tree_display;

verus! {

/// A file that passed every check: its path as shown in messages, its path
/// relative to the traversal root, its final path segment, the on-disk size
/// that admission measured, and its content read as text.
#[derive(Debug)]
pub struct AdmittedFile {
    pub path: String,
    pub rel: String,
    pub name: String,
    pub size: u64,
    pub content: String,
}

#[verifier::ext_equal]
pub struct AdmittedFileModel {
    pub path: Seq<char>,
    pub rel: Seq<char>,
    pub name: Seq<char>,
    pub size: u64,
    pub content: Seq<char>,
}

impl View for AdmittedFile {
    type V = AdmittedFileModel;

    open spec fn view(&self) -> AdmittedFileModel {
        AdmittedFileModel {
            path: self.path@,
            rel: self.rel@,
            name: self.name@,
            size: self.size,
            content: self.content@,
        }
    }
}

impl DeepView for AdmittedFile {
    type V = AdmittedFileModel;

    open spec fn deep_view(&self) -> AdmittedFileModel {
        self.view()
    }
}

/// Why one file was excluded, recorded in traversal order and never retried.
/// `detail` carries the text of an I/O error where one was the cause, and is
/// empty for limit rejections.
#[derive(Debug)]
pub struct SkipRecord {
    pub path: String,
    pub reason: SkipReason,
    pub detail: String,
}

#[verifier::ext_equal]
pub struct SkipRecordModel {
    pub path: Seq<char>,
    pub reason: SkipReason,
    pub detail: Seq<char>,
}

impl View for SkipRecord {
    type V = SkipRecordModel;

    open spec fn view(&self) -> SkipRecordModel {
        SkipRecordModel { path: self.path@, reason: self.reason, detail: self.detail@ }
    }
}

impl DeepView for SkipRecord {
    type V = SkipRecordModel;

    open spec fn deep_view(&self) -> SkipRecordModel {
        self.view()
    }
}

/// Where the walker stands between events: scanning the stream, or holding
/// one admitted candidate while its sample or its content is fetched.
#[derive(Debug)]
pub enum Phase {
    Scanning,
    AwaitingSample { path: String, rel: String, depth: usize, name: String, size: u64 },
    AwaitingContent { path: String, rel: String, depth: usize, name: String, size: u64 },
}

#[verifier::ext_equal]
pub enum PhaseModel {
    Scanning,
    AwaitingSample { path: Seq<char>, rel: Seq<char>, depth: int, name: Seq<char>, size: u64 },
    AwaitingContent { path: Seq<char>, rel: Seq<char>, depth: int, name: Seq<char>, size: u64 },
}

impl View for Phase {
    type V = PhaseModel;

    open spec fn view(&self) -> PhaseModel {
        match self {
            Phase::Scanning => PhaseModel::Scanning,
            Phase::AwaitingSample { path, rel, depth, name, size } => PhaseModel::AwaitingSample {
                path: path@,
                rel: rel@,
                depth: *depth as int,
                name: name@,
                size: *size,
            },
            Phase::AwaitingContent { path, rel, depth, name, size } => PhaseModel::AwaitingContent {
                path: path@,
                rel: rel@,
                depth: *depth as int,
                name: name@,
                size: *size,
            },
        }
    }
}

/// One step of input for the walker. `Root`, `Directory` and `File` are the
/// entries the external traversal yields, in its order; `Sample` and
/// `Content` answer the walker's `ReadSample` and `ReadContent` requests for
/// the file it holds pending. An `Err` carries the text of the I/O error.
#[derive(Debug)]
pub enum Event {
    Root { name: String },
    Directory { depth: usize, name: String },
    File { path: String, rel: String, depth: usize, name: String, size: Result<u64, String> },
    Sample { bytes: Result<Vec<u8>, String> },
    Content { text: Result<String, String> },
}

#[verifier::ext_equal]
pub enum EventModel {
    Root { name: Seq<char> },
    Directory { depth: int, name: Seq<char> },
    File {
        path: Seq<char>,
        rel: Seq<char>,
        depth: int,
        name: Seq<char>,
        size: Result<u64, Seq<char>>,
    },
    Sample { bytes: Result<Seq<u8>, Seq<char>> },
    Content { text: Result<Seq<char>, Seq<char>> },
}

impl View for Event {
    type V = EventModel;

    open spec fn view(&self) -> EventModel {
        match self {
            Event::Root { name } => EventModel::Root { name: name@ },
            Event::Directory { depth, name } => EventModel::Directory {
                depth: *depth as int,
                name: name@,
            },
            Event::File { path, rel, depth, name, size } => EventModel::File {
                path: path@,
                rel: rel@,
                depth: *depth as int,
                name: name@,
                size: match size {
                    Ok(n) => Ok(*n),
                    Err(e) => Err(e@),
                },
            },
            Event::Sample { bytes } => EventModel::Sample {
                bytes: match bytes {
                    Ok(b) => Ok(b@),
                    Err(e) => Err(e@),
                },
            },
            Event::Content { text } => EventModel::Content {
                text: match text {
                    Ok(t) => Ok(t@),
                    Err(e) => Err(e@),
                },
            },
        }
    }
}

/// What the walker asks of its driver after an event: go on to the next
/// entry, or fetch the pending file's leading bytes or full text.
#[derive(Debug, Clone, Copy, PartialEq, Eq, Structural)]
pub enum Action {
    Continue,
    ReadSample,
    ReadContent,
}

/// Depths handed in by the driver count path segments under the root, so
/// they are at least one.
pub open spec fn event_wf(e: EventModel) -> bool {
    match e {
        EventModel::Directory { depth, .. } => depth >= 1,
        EventModel::File { depth, .. } => depth >= 1,
        _ => true,
    }
}

/// Whether an event is the kind the walker expects in its current phase.
/// Any other event is ignored.
pub open spec fn event_fits(s: WalkModel, e: EventModel) -> bool {
    match e {
        EventModel::Root { .. } => s.phase is Scanning,
        EventModel::Directory { .. } => s.phase is Scanning,
        EventModel::File { .. } => s.phase is Scanning,
        EventModel::Sample { .. } => s.phase is AwaitingSample,
        EventModel::Content { .. } => s.phase is AwaitingContent,
    }
}

/// The walker's full state: the limiter with its running totals, the tree
/// lines so far, the admitted files and skip records in traversal order, the
/// count of entries received, and the phase.
#[verifier::ext_equal]
pub struct WalkModel {
    pub limiter: Limiter,
    pub tree: Seq<TreeItemModel>,
    pub admitted: Seq<AdmittedFileModel>,
    pub skips: Seq<SkipRecordModel>,
    pub entries: int,
    pub phase: PhaseModel,
}

/// Count of root and directory lines in the tree.
pub open spec fn dir_lines(t: Seq<TreeItemModel>) -> int
    decreases t.len(),
{
    if t.len() == 0 {
        0
    } else {
        dir_lines(t.drop_last()) + (match t.last() {
            TreeItemModel::Root { .. } => 1int,
            TreeItemModel::Dir { .. } => 1int,
            _ => 0int,
        })
    }
}

/// Count of binary-annotated file lines in the tree.
pub open spec fn binary_lines(t: Seq<TreeItemModel>) -> int
    decreases t.len(),
{
    if t.len() == 0 {
        0
    } else {
        binary_lines(t.drop_last()) + (match t.last() {
            TreeItemModel::BinaryFile { .. } => 1int,
            _ => 0int,
        })
    }
}

/// The names on the plain (admitted) file lines of the tree, in order.
pub open spec fn text_line_names(t: Seq<TreeItemModel>) -> Seq<Seq<char>>
    decreases t.len(),
{
    if t.len() == 0 {
        Seq::empty()
    } else {
        text_line_names(t.drop_last()) + (match t.last() {
            TreeItemModel::TextFile { name, .. } => seq![name],
            _ => Seq::empty(),
        })
    }
}

/// Sum of the measured sizes of the admitted files.
pub open spec fn sum_sizes(fs: Seq<AdmittedFileModel>) -> int
    decreases fs.len(),
{
    if fs.len() == 0 {
        0
    } else {
        sum_sizes(fs.drop_last()) + fs.last().size
    }
}

/// Everything accounted for so far: each entry the traversal yielded ends as
/// exactly one of a tree line for the root or a directory, a binary
/// annotation, an admitted file, or a skip record.
pub open spec fn accounted(s: WalkModel) -> int {
    dir_lines(s.tree) + binary_lines(s.tree) + s.admitted.len() + s.skips.len()
}

impl WalkModel {
    /// The walker's invariant, established at construction and preserved by
    /// every step:
    /// - the running totals never pass their ceilings;
    /// - the file counter equals the count of admitted files, and the byte
    ///   counter equals the sum of their measured sizes;
    /// - no admitted file's measured size exceeds the per-file ceiling;
    /// - every tree line is well formed, and the plain file lines match the
    ///   admitted files name for name, in order;
    /// - every entry received is accounted for exactly once, counting a
    ///   pending candidate as its entry already received;
    /// - a pending candidate has a standing positive admission decision.
    pub open spec fn wf(self) -> bool {
        &&& self.limiter.wf()
        &&& self.limiter.files_admitted == self.admitted.len()
        &&& self.limiter.bytes_admitted == sum_sizes(self.admitted)
        &&& forall|i: int|
            0 <= i < self.admitted.len() ==> (#[trigger] self.admitted[i]).size
                <= self.limiter.limits.max_file_size
        &&& forall|i: int| 0 <= i < self.tree.len() ==> item_wf(#[trigger] self.tree[i])
        &&& text_line_names(self.tree) == self.admitted.map_values(|f: AdmittedFileModel| f.name)
        &&& self.entries == accounted(self) + (if self.phase is Scanning {
            0int
        } else {
            1int
        })
        &&& 0 <= self.entries
        &&& match self.phase {
            PhaseModel::Scanning => true,
            PhaseModel::AwaitingSample { depth, size, .. } => admit_decision(self.limiter, size)
                is Admit && depth >= 1,
            PhaseModel::AwaitingContent { depth, size, .. } => admit_decision(self.limiter, size)
                is Admit && depth >= 1,
        }
    }
}

/// The fresh state for one run under the given limits.
pub open spec fn init_model(limits: Limits) -> WalkModel {
    WalkModel {
        limiter: Limiter { limits, files_admitted: 0, bytes_admitted: 0 },
        tree: Seq::empty(),
        admitted: Seq::empty(),
        skips: Seq::empty(),
        entries: 0,
        phase: PhaseModel::Scanning,
    }
}

/// The transition function: what one event does to the walker's state.
///
/// A root or directory entry gets its tree line. A file entry is measured
/// and put to the limiter, in the fixed order of checks; a rejection or a
/// failed size read becomes a skip record, an admission makes the file
/// pending. A sample answer classifies the pending file: binary files get an
/// annotated tree line and are dropped without touching the totals; text
/// files stay pending for their content. A content answer either records a
/// read error, or commits the file: totals rise, the content is stored, and
/// the plain tree line appears.
pub open spec fn step_model(s: WalkModel, e: EventModel) -> WalkModel {
    if !event_fits(s, e) {
        s
    } else {
        match e {
            EventModel::Root { name } => WalkModel {
                tree: s.tree.push(TreeItemModel::Root { name }),
                entries: s.entries + 1,
                ..s
            },
            EventModel::Directory { depth, name } => WalkModel {
                tree: s.tree.push(TreeItemModel::Dir { depth, name }),
                entries: s.entries + 1,
                ..s
            },
            EventModel::File { path, rel, depth, name, size } => match size {
                Err(detail) => WalkModel {
                    skips: s.skips.push(
                        SkipRecordModel { path, reason: SkipReason::ReadError, detail },
                    ),
                    entries: s.entries + 1,
                    ..s
                },
                Ok(sz) => match admit_decision(s.limiter, sz) {
                    AdmitDecision::Reject(reason) => WalkModel {
                        skips: s.skips.push(SkipRecordModel { path, reason, detail: Seq::empty() }),
                        entries: s.entries + 1,
                        ..s
                    },
                    AdmitDecision::Admit => WalkModel {
                        phase: PhaseModel::AwaitingSample { path, rel, depth, name, size: sz },
                        entries: s.entries + 1,
                        ..s
                    },
                },
            },
            EventModel::Sample { bytes } => match s.phase {
                PhaseModel::AwaitingSample { path, rel, depth, name, size } => match bytes {
                    Err(detail) => WalkModel {
                        skips: s.skips.push(
                            SkipRecordModel { path, reason: SkipReason::ClassificationError, detail },
                        ),
                        phase: PhaseModel::Scanning,
                        ..s
                    },
                    Ok(bs) => if is_text_bytes(bs) {
                        WalkModel {
                            phase: PhaseModel::AwaitingContent { path, rel, depth, name, size },
                            ..s
                        }
                    } else {
                        WalkModel {
                            tree: s.tree.push(TreeItemModel::BinaryFile { depth, name }),
                            phase: PhaseModel::Scanning,
                            ..s
                        }
                    },
                },
                _ => s,
            },
            EventModel::Content { text } => match s.phase {
                PhaseModel::AwaitingContent { path, rel, depth, name, size } => match text {
                    Err(detail) => WalkModel {
                        skips: s.skips.push(
                            SkipRecordModel { path, reason: SkipReason::ReadError, detail },
                        ),
                        phase: PhaseModel::Scanning,
                        ..s
                    },
                    Ok(content) => WalkModel {
                        limiter: commit_step(s.limiter, size),
                        admitted: s.admitted.push(
                            AdmittedFileModel { path, rel, name, size, content },
                        ),
                        tree: s.tree.push(TreeItemModel::TextFile { depth, name }),
                        phase: PhaseModel::Scanning,
                        ..s
                    },
                },
                _ => s,
            },
        }
    }
}

/// What the walker asks for after an event: a sample for a freshly admitted
/// file, the content for a pending file whose sample was text, otherwise the
/// next entry.
pub open spec fn step_action(s: WalkModel, e: EventModel) -> Action {
    if !event_fits(s, e) {
        Action::Continue
    } else {
        match e {
            EventModel::File { size, .. } => match size {
                Ok(sz) => if admit_decision(s.limiter, sz) is Admit {
                    Action::ReadSample
                } else {
                    Action::Continue
                },
                Err(_) => Action::Continue,
            },
            EventModel::Sample { bytes } => match bytes {
                Ok(bs) => if is_text_bytes(bs) {
                    Action::ReadContent
                } else {
                    Action::Continue
                },
                Err(_) => Action::Continue,
            },
            _ => Action::Continue,
        }
    }
}

/// The state after a whole sequence of events.
pub open spec fn replay(s: WalkModel, es: Seq<EventModel>) -> WalkModel
    decreases es.len(),
{
    if es.len() == 0 {
        s
    } else {
        replay(step_model(s, es[0]), es.subrange(1, es.len() as int))
    }
}

/// How one pushed tree item moves the counts: the name lists and counters
/// change only for the matching kind of item.
proof fn lemma_counts_push(t: Seq<TreeItemModel>, it: TreeItemModel)
    ensures
        dir_lines(t.push(it)) == dir_lines(t) + (match it {
            TreeItemModel::Root { .. } => 1int,
            TreeItemModel::Dir { .. } => 1int,
            _ => 0int,
        }),
        binary_lines(t.push(it)) == binary_lines(t) + (match it {
            TreeItemModel::BinaryFile { .. } => 1int,
            _ => 0int,
        }),
        it matches TreeItemModel::TextFile { name, .. } ==> text_line_names(t.push(it))
            == text_line_names(t).push(name),
        !(it is TextFile) ==> text_line_names(t.push(it)) == text_line_names(t),
{
    assert(t.push(it).drop_last() =~= t);
    assert(t.push(it).last() == it);
    match it {
        TreeItemModel::TextFile { name, .. } => {
            assert(text_line_names(t) + seq![name] =~= text_line_names(t).push(name));
        },
        _ => {
            assert(text_line_names(t) + Seq::<Seq<char>>::empty() =~= text_line_names(t));
        },
    }
}

proof fn lemma_sum_sizes_push(fs: Seq<AdmittedFileModel>, f: AdmittedFileModel)
    ensures
        sum_sizes(fs.push(f)) == sum_sizes(fs) + f.size,
{
    assert(fs.push(f).drop_last() =~= fs);
    assert(fs.push(f).last() == f);
}

/// The walker. The driver feeds it the traversal's entries and the answers
/// to its read requests; the walker makes every decision and owns every
/// accumulator.
#[derive(Debug)]
pub struct Walk {
    pub limiter: Limiter,
    pub tree: Vec<TreeItem>,
    pub admitted: Vec<AdmittedFile>,
    pub skips: Vec<SkipRecord>,
    pub entries: usize,
    pub phase: Phase,
}

impl View for Walk {
    type V = WalkModel;

    open spec fn view(&self) -> WalkModel {
        WalkModel {
            limiter: self.limiter,
            tree: self.tree.deep_view(),
            admitted: self.admitted.deep_view(),
            skips: self.skips.deep_view(),
            entries: self.entries as int,
            phase: self.phase@,
        }
    }
}

impl Walk {
    pub fn new(limits: Limits) -> (r: Walk)
        ensures
            r@ == init_model(limits),
            r@.wf(),
    {
        let r = Walk {
            limiter: Limiter::new(limits),
            tree: Vec::new(),
            admitted: Vec::new(),
            skips: Vec::new(),
            entries: 0,
            phase: Phase::Scanning,
        };
        proof {
            assert(r@ =~~= init_model(limits));
            assert(text_line_names(r@.tree) =~= r@.admitted.map_values(
                |f: AdmittedFileModel| f.name,
            ));
        }
        r
    }

    /// Feed one event to the walker, and learn what to do next. The state
    /// moves exactly as `step_model` says, and the returned action is
    /// exactly `step_action`; the invariant is preserved.
    pub fn step(&mut self, e: Event) -> (r: Action)
        requires
            old(self)@.wf(),
            event_wf(e@),
            old(self).entries < usize::MAX,
        ensures
            final(self)@ == step_model(old(self)@, e@),
            r == step_action(old(self)@, e@),
            final(self)@.wf(),
    {
        let ghost s0 = self@;
        let ghost ev = e@;
        match e {
            Event::Root { name } => {
                match &self.phase {
                    Phase::Scanning => {},
                    _ => {
                        return Action::Continue;
                    },
                }
                self.tree.push(TreeItem::Root { name });
                self.entries = self.entries + 1;
                proof {
                    lemma_counts_push(s0.tree, TreeItemModel::Root { name: self.tree@.last()@->Root_name });
                    assert(self@.tree =~= s0.tree.push(self.tree@.last()@));
                    assert(self@ =~~= step_model(s0, ev));
                }
                Action::Continue
            },
            Event::Directory { depth, name } => {
                match &self.phase {
                    Phase::Scanning => {},
                    _ => {
                        return Action::Continue;
                    },
                }
                self.tree.push(TreeItem::Dir { depth, name });
                self.entries = self.entries + 1;
                proof {
                    lemma_counts_push(s0.tree, self.tree@.last()@);
                    assert(self@.tree =~= s0.tree.push(self.tree@.last()@));
                    assert(self@ =~~= step_model(s0, ev));
                }
                Action::Continue
            },
            Event::File { path, rel, depth, name, size } => {
                match &self.phase {
                    Phase::Scanning => {},
                    _ => {
                        return Action::Continue;
                    },
                }
                match size {
                    Err(detail) => {
                        self.skips.push(
                            SkipRecord { path, reason: SkipReason::ReadError, detail },
                        );
                        self.entries = self.entries + 1;
                        proof {
                            assert(self@.skips =~= s0.skips.push(self.skips@.last()@));
                            assert(self@ =~~= step_model(s0, ev));
                        }
                        Action::Continue
                    },
                    Ok(sz) => {
                        match self.limiter.decide(sz) {
                            AdmitDecision::Reject(reason) => {
                                self.skips.push(
                                    SkipRecord { path, reason, detail: String::new() },
                                );
                                self.entries = self.entries + 1;
                                proof {
                                    assert(self@.skips =~= s0.skips.push(self.skips@.last()@));
                                    assert(self@ =~~= step_model(s0, ev));
                                }
                                Action::Continue
                            },
                            AdmitDecision::Admit => {
                                self.phase = Phase::AwaitingSample {
                                    path,
                                    rel,
                                    depth,
                                    name,
                                    size: sz,
                                };
                                self.entries = self.entries + 1;
                                proof {
                                    assert(self@ =~~= step_model(s0, ev));
                                }
                                Action::ReadSample
                            },
                        }
                    },
                }
            },
            Event::Sample { bytes } => {
                let (path, rel, depth, name, size) = match &self.phase {
                    Phase::AwaitingSample { path, rel, depth, name, size } => (
                        path.clone(),
                        rel.clone(),
                        *depth,
                        name.clone(),
                        *size,
                    ),
                    _ => {
                        return Action::Continue;
                    },
                };
                match bytes {
                    Err(detail) => {
                        self.skips.push(
                            SkipRecord { path, reason: SkipReason::ClassificationError, detail },
                        );
                        self.phase = Phase::Scanning;
                        proof {
                            assert(self@.skips =~= s0.skips.push(self.skips@.last()@));
                            assert(self@ =~~= step_model(s0, ev));
                        }
                        Action::Continue
                    },
                    Ok(bs) => {
                        if is_text_sample(bs.as_slice()) {
                            self.phase = Phase::AwaitingContent { path, rel, depth, name, size };
                            proof {
                                assert(self@ =~~= step_model(s0, ev));
                            }
                            Action::ReadContent
                        } else {
                            self.tree.push(TreeItem::BinaryFile { depth, name });
                            self.phase = Phase::Scanning;
                            proof {
                                lemma_counts_push(s0.tree, self.tree@.last()@);
                                assert(self@.tree =~= s0.tree.push(self.tree@.last()@));
                                assert(self@ =~~= step_model(s0, ev));
                            }
                            Action::Continue
                        }
                    },
                }
            },
            Event::Content { text } => {
                let (path, rel, depth, name, size) = match &self.phase {
                    Phase::AwaitingContent { path, rel, depth, name, size } => (
                        path.clone(),
                        rel.clone(),
                        *depth,
                        name.clone(),
                        *size,
                    ),
                    _ => {
                        return Action::Continue;
                    },
                };
                match text {
                    Err(detail) => {
                        self.skips.push(
                            SkipRecord { path, reason: SkipReason::ReadError, detail },
                        );
                        self.phase = Phase::Scanning;
                        proof {
                            assert(self@.skips =~= s0.skips.push(self.skips@.last()@));
                            assert(self@ =~~= step_model(s0, ev));
                        }
                        Action::Continue
                    },
                    Ok(content) => {
                        self.limiter.commit(size);
                        let ghost nm = name@;
                        self.admitted.push(
                            AdmittedFile { path, rel, name: name.clone(), size, content },
                        );
                        self.tree.push(TreeItem::TextFile { depth, name });
                        self.phase = Phase::Scanning;
                        proof {
                            lemma_counts_push(s0.tree, self.tree@.last()@);
                            lemma_sum_sizes_push(s0.admitted, self.admitted@.last()@);
                            assert(self@.tree =~= s0.tree.push(self.tree@.last()@));
                            assert(self@.admitted =~= s0.admitted.push(self.admitted@.last()@));
                            assert(self@ =~~= step_model(s0, ev));
                            assert(self@.admitted.map_values(|f: AdmittedFileModel| f.name) =~=
                                s0.admitted.map_values(|f: AdmittedFileModel| f.name).push(nm));
                        }
                        Action::Continue
                    },
                }
            },
        }
    }

    /// The rendered tree block for everything seen so far.
    pub fn tree_text(&self) -> (r: String)
        requires
            self@.wf(),
        ensures
            r@ == tree_display(self@.tree),
    {
        render_tree(&self.tree)
    }
}

/// Running totals always match the stored contents: the byte total is the
/// sum of the admitted files' measured sizes, and the file total is their
/// count.
pub proof fn lemma_totals_match_admitted(s: WalkModel)
    requires
        s.wf(),
    ensures
        s.limiter.bytes_admitted == sum_sizes(s.admitted),
        s.limiter.files_admitted == s.admitted.len(),
{
}

/// The configured ceilings hold at every reachable state: never more
/// admitted files than `max_files`, never more admitted bytes than
/// `max_total_size`.
pub proof fn lemma_ceilings_hold(s: WalkModel)
    requires
        s.wf(),
    ensures
        s.limiter.files_admitted <= s.limiter.limits.max_files,
        s.limiter.bytes_admitted <= s.limiter.limits.max_total_size,
{
}

/// No admitted file's measured size exceeds the per-file ceiling.
pub proof fn lemma_per_file_ceiling(s: WalkModel)
    requires
        s.wf(),
    ensures
        forall|i: int|
            0 <= i < s.admitted.len() ==> (#[trigger] s.admitted[i]).size
                <= s.limiter.limits.max_file_size,
{
}

/// Every entry the traversal yielded is accounted for exactly once: as a
/// root or directory line, a binary annotation, an admitted file, or a skip
/// record.
pub proof fn lemma_entries_accounted(s: WalkModel)
    requires
        s.wf(),
        s.phase is Scanning,
    ensures
        s.entries == dir_lines(s.tree) + binary_lines(s.tree) + s.admitted.len() + s.skips.len(),
{
}

/// The plain file lines of the tree are exactly the admitted files, name
/// for name, in the same order.
pub proof fn lemma_tree_matches_admitted(s: WalkModel)
    requires
        s.wf(),
    ensures
        text_line_names(s.tree) == s.admitted.map_values(|f: AdmittedFileModel| f.name),
{
}

/// Runs are reproducible: two walkers that start from the same limits and
/// receive the same events end in the same state, so an unchanged tree
/// walked twice with identical flags yields identical output.
pub proof fn lemma_replay_deterministic(
    a: WalkModel,
    b: WalkModel,
    ea: Seq<EventModel>,
    eb: Seq<EventModel>,
)
    requires
        a == b,
        ea == eb,
    ensures
        replay(a, ea) == replay(b, eb),
{
}

} // verus!
