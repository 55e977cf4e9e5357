//! One session file: its lines folded into a graph of messages, and the
//! conversations in it.

use crate::claude_session::line::{
    kind_of, line_of, node, node_of, read_line, ClaudeNode, NodeKind, NodeView,
};
use crate::json::{text_opt, Json, JsonView};
use crate::order::{add_sorted, ascending, keys_of, text_key, Keyed};
use crate::paths::{file_name, name_of, stem, stem_of};
use crate::text::{blank, is_blank, lines, same, split_lines, texts};
use vstd::hash_map::StringHashMap;
use vstd::prelude::*;

verus! {

/// A pull request opened during the session.
#[derive(Debug, PartialEq, Eq)]
pub struct PrLink {
    pub number: u64,
    pub repository: String,
    pub url: String,
}

pub struct PrView {
    pub number: u64,
    pub repository: Seq<char>,
    pub url: Seq<char>,
}

impl View for PrLink {
    type V = PrView;

    open spec fn view(&self) -> PrView {
        PrView { number: self.number, repository: self.repository@, url: self.url@ }
    }
}

/// The sidecar lines, of which the last of each type holds.
#[derive(Debug, PartialEq, Eq)]
pub struct SessionMeta {
    /// The title shown in a resume picker.
    pub ai_title: Option<String>,
    /// The tip to resume from.
    pub leaf_uuid: Option<String>,
    /// The prompt that produced it.
    pub last_prompt: Option<String>,
    pub mode: Option<String>,
    pub permission_mode: Option<String>,
    pub agent_name: Option<String>,
    /// Every pull request recorded, in file order.
    pub pr_links: Vec<PrLink>,
}

pub struct MetaView {
    pub ai_title: Option<Seq<char>>,
    pub leaf_uuid: Option<Seq<char>>,
    pub last_prompt: Option<Seq<char>>,
    pub mode: Option<Seq<char>>,
    pub permission_mode: Option<Seq<char>>,
    pub agent_name: Option<Seq<char>>,
    pub pr_links: Seq<PrView>,
}

impl View for SessionMeta {
    type V = MetaView;

    open spec fn view(&self) -> MetaView {
        MetaView {
            ai_title: text_opt(self.ai_title),
            leaf_uuid: text_opt(self.leaf_uuid),
            last_prompt: text_opt(self.last_prompt),
            mode: text_opt(self.mode),
            permission_mode: text_opt(self.permission_mode),
            agent_name: text_opt(self.agent_name),
            pr_links: self.pr_links@.map_values(|x: PrLink| x@),
        }
    }
}

pub open spec fn nodes_view(n: Seq<ClaudeNode>) -> Seq<NodeView> {
    n.map_values(|x: ClaudeNode| x@)
}

/// How often each unknown type was met, in the order first met.
pub open spec fn counts_view(c: Seq<(String, usize)>) -> Seq<(Seq<char>, nat)> {
    c.map_values(|x: (String, usize)| (x.0@, x.1 as nat))
}

/// One more of a name.
pub open spec fn counted(c: Seq<(Seq<char>, nat)>, name: Seq<char>) -> Seq<(Seq<char>, nat)>
    decreases c.len(),
{
    if c.len() == 0 {
        seq![(name, 1nat)]
    } else if c[0].0 == name {
        seq![(name, c[0].1 + 1)] + c.drop_first()
    } else {
        seq![c[0]] + counted(c.drop_first(), name)
    }
}

/// What the lines read so far add up to.
pub struct Fold {
    pub nodes: Seq<NodeView>,
    pub meta: MetaView,
    pub session_id: Option<Seq<char>>,
    pub malformed: nat,
    pub unknown: Seq<(Seq<char>, nat)>,
}

impl MetaView {
    /// A file's sidecars before its first line.
    pub open spec fn none() -> MetaView {
        MetaView {
            ai_title: None,
            leaf_uuid: None,
            last_prompt: None,
            mode: None,
            permission_mode: None,
            agent_name: None,
            pr_links: Seq::empty(),
        }
    }

    /// A sidecar line; the types that are known and left alone say nothing.
    pub open spec fn with_sidecar(self, kind: Seq<char>, j: JsonView) -> MetaView {
        if kind == "last-prompt"@ {
            MetaView {
                leaf_uuid: if j.field_text("leafUuid"@) is Some {
                    j.field_text("leafUuid"@)
                } else {
                    self.leaf_uuid
                },
                last_prompt: if j.field_text("lastPrompt"@) is Some {
                    j.field_text("lastPrompt"@)
                } else {
                    self.last_prompt
                },
                ..self
            }
        } else if kind == "ai-title"@ {
            MetaView { ai_title: j.field_text("aiTitle"@), ..self }
        } else if kind == "mode"@ {
            MetaView { mode: j.field_text("mode"@), ..self }
        } else if kind == "permission-mode"@ {
            MetaView { permission_mode: j.field_text("permissionMode"@), ..self }
        } else if kind == "agent-name"@ {
            MetaView { agent_name: j.field_text("agentName"@), ..self }
        } else if kind == "pr-link"@ {
            match (j.field("prNumber"@), j.field_text("prRepository"@), j.field_text("prUrl"@)) {
                (Some(JsonView::Number(Some(number), _)), Some(repository), Some(url)) => MetaView {
                    pr_links: self.pr_links.push(PrView { number, repository, url }),
                    ..self
                },
                _ => self,
            }
        } else {
            self
        }
    }
}

/// Whether a type is one of the sidecars that are read, or known and left
/// alone.
pub open spec fn is_sidecar(kind: Seq<char>) -> bool {
    ||| kind == "last-prompt"@
    ||| kind == "ai-title"@
    ||| kind == "mode"@
    ||| kind == "permission-mode"@
    ||| kind == "agent-name"@
    ||| kind == "pr-link"@
    ||| kind == "file-history-snapshot"@
    ||| kind == "file-history-delta"@
    ||| kind == "queue-operation"@
}

impl Fold {
    /// Nothing read.
    pub open spec fn start() -> Fold {
        Fold {
            nodes: Seq::empty(),
            meta: MetaView::none(),
            session_id: None,
            malformed: 0,
            unknown: Seq::empty(),
        }
    }

    pub open spec fn spoiled(self) -> Fold {
        Fold { malformed: self.malformed + 1, ..self }
    }

    /// A decoded line.
    pub open spec fn with_line(self, index: usize, j: JsonView) -> Fold {
        let s = if self.session_id is None {
            Fold { session_id: j.field_text("sessionId"@), ..self }
        } else {
            self
        };
        match j.field_text("type"@) {
            None => s.spoiled(),
            Some(kind) => match kind_of(kind) {
                Some(k) => match j.field_text("uuid"@) {
                    None => s.spoiled(),
                    Some(uuid) => Fold { nodes: s.nodes.push(node_of(index, uuid, k, j)), ..s },
                },
                None => if is_sidecar(kind) {
                    Fold { meta: s.meta.with_sidecar(kind, j), ..s }
                } else {
                    Fold { unknown: counted(s.unknown, kind), ..s }
                },
            },
        }
    }

    /// One line of the file; damage costs that line and nothing more.
    pub open spec fn with_text(self, index: usize, raw: Seq<char>) -> Fold {
        if is_blank(raw) {
            self
        } else {
            match line_of(raw) {
                None => self.spoiled(),
                Some(j) => self.with_line(index, j),
            }
        }
    }
}

/// What a file's lines add up to.
pub open spec fn folded(ls: Seq<Seq<char>>) -> Fold
    decreases ls.len(),
{
    if ls.len() == 0 {
        Fold::start()
    } else {
        folded(ls.drop_last()).with_text((ls.len() - 1) as usize, ls.last())
    }
}

/// Accumulates lines into a session.
struct Builder {
    nodes: Vec<ClaudeNode>,
    meta: SessionMeta,
    session_id: Option<String>,
    malformed_lines: usize,
    unknown_types: Vec<(String, usize)>,
}

impl View for Builder {
    type V = Fold;

    closed spec fn view(&self) -> Fold {
        Fold {
            nodes: nodes_view(self.nodes@),
            meta: self.meta@,
            session_id: text_opt(self.session_id),
            malformed: self.malformed_lines as nat,
            unknown: counts_view(self.unknown_types@),
        }
    }
}

/// No count is above `n`.
spec fn bounded(f: Fold, n: int) -> bool {
    &&& f.malformed <= n
    &&& forall|i: int| 0 <= i < f.unknown.len() ==> (#[trigger] f.unknown[i]).1 <= n
}

fn field_text(j: &Json, key: &str) -> (r: Option<String>)
    ensures
        text_opt(r) == j@.field_text(key@),
{
    match j.get_text(key) {
        Some(t) => Some(t.clone()),
        None => None,
    }
}

/// Counting a name where it stands.
proof fn lemma_counted(c: Seq<(Seq<char>, nat)>, name: Seq<char>, at: int)
    requires
        0 <= at <= c.len(),
        forall|i: int| 0 <= i < at ==> (#[trigger] c[i]).0 != name,
        at < c.len() ==> c[at].0 == name,
    ensures
        counted(c, name) == (if at < c.len() {
            c.update(at, (name, c[at].1 + 1))
        } else {
            c.push((name, 1nat))
        }),
    decreases c.len(),
{
    if c.len() == 0 {
        assert(counted(c, name) =~= c.push((name, 1nat)));
    } else if at == 0 {
        assert(counted(c, name) =~= c.update(0, (name, c[0].1 + 1)));
    } else {
        let rest = c.drop_first();
        assert forall|i: int| 0 <= i < at - 1 implies (#[trigger] rest[i]).0 != name by {
            assert(rest[i] == c[i + 1]);
        }
        lemma_counted(rest, name, at - 1);
        assert(c[0].0 != name);
        assert(counted(c, name) =~= (if at < c.len() {
            c.update(at, (name, c[at].1 + 1))
        } else {
            c.push((name, 1nat))
        }));
    }
}

fn count(c: &mut Vec<(String, usize)>, name: String)
    requires
        forall|i: int| 0 <= i < old(c)@.len() ==> (#[trigger] old(c)@[i]).1 < usize::MAX,
    ensures
        counts_view(final(c)@) == counted(counts_view(old(c)@), name@),
{
    let ghost all = counts_view(c@);
    let mut i: usize = 0;
    while i < c.len()
        invariant
            i <= c.len(),
            c@ == old(c)@,
            all == counts_view(c@),
            forall|k: int| 0 <= k < c@.len() ==> (#[trigger] c@[k]).1 < usize::MAX,
            forall|k: int| 0 <= k < i ==> (#[trigger] all[k]).0 != name@,
        decreases c.len() - i,
    {
        assert(all[i as int] == (c@[i as int].0@, c@[i as int].1 as nat));
        if same(&c[i].0, &name) {
            let n = c[i].1 + 1;
            proof {
                lemma_counted(all, name@, i as int);
            }
            c.set(i, (name, n));
            assert(counts_view(c@) =~= all.update(i as int, (name@, n as nat)));
            return ;
        }
        i += 1;
    }
    proof {
        lemma_counted(all, name@, i as int);
    }
    c.push((name, 1));
    assert(counts_view(c@) =~= all.push((name@, 1nat)));
}

impl SessionMeta {
    fn take_sidecar(&mut self, kind: &str, j: &Json)
        ensures
            final(self)@ == old(self)@.with_sidecar(kind@, j@),
    {
        if same(kind, "last-prompt") {
            if let Some(leaf) = field_text(j, "leafUuid") {
                self.leaf_uuid = Some(leaf);
            }
            if let Some(prompt) = field_text(j, "lastPrompt") {
                self.last_prompt = Some(prompt);
            }
        } else if same(kind, "ai-title") {
            self.ai_title = field_text(j, "aiTitle");
        } else if same(kind, "mode") {
            self.mode = field_text(j, "mode");
        } else if same(kind, "permission-mode") {
            self.permission_mode = field_text(j, "permissionMode");
        } else if same(kind, "agent-name") {
            self.agent_name = field_text(j, "agentName");
        } else if same(kind, "pr-link") {
            let number = match j.get("prNumber") {
                Some(Json::Number(Some(n), _)) => Some(*n),
                _ => None,
            };
            match (number, field_text(j, "prRepository"), field_text(j, "prUrl")) {
                (Some(number), Some(repository), Some(url)) => {
                    let ghost was = self.pr_links@;
                    self.pr_links.push(PrLink { number, repository, url });
                    assert(self@.pr_links =~= old(self)@.pr_links.push(
                        PrView { number, repository: repository@, url: url@ },
                    ));
                },
                _ => {},
            }
        }
    }
}

fn reads_sidecar(kind: &str) -> (r: bool)
    ensures
        r == is_sidecar(kind@),
{
    same(kind, "last-prompt") || same(kind, "ai-title") || same(kind, "mode") || same(
        kind,
        "permission-mode",
    ) || same(kind, "agent-name") || same(kind, "pr-link") || same(kind, "file-history-snapshot")
        || same(kind, "file-history-delta") || same(kind, "queue-operation")
}

/// Counting keeps the counts below their bound.
proof fn lemma_counted_bound(c: Seq<(Seq<char>, nat)>, name: Seq<char>, n: int)
    requires
        0 <= n,
        forall|i: int| 0 <= i < c.len() ==> (#[trigger] c[i]).1 <= n,
    ensures
        forall|i: int|
            0 <= i < counted(c, name).len() ==> (#[trigger] counted(c, name)[i]).1 <= n + 1,
    decreases c.len(),
{
    if c.len() > 0 && c[0].0 != name {
        let rest = c.drop_first();
        assert forall|i: int| 0 <= i < rest.len() implies (#[trigger] rest[i]).1 <= n by {
            assert(rest[i] == c[i + 1]);
        }
        lemma_counted_bound(rest, name, n);
        let r = counted(rest, name);
        assert forall|i: int| 0 <= i < counted(c, name).len() implies (#[trigger] counted(
            c,
            name,
        )[i]).1 <= n + 1 by {
            if i > 0 {
                assert(counted(c, name)[i] == r[i - 1]);
            }
        }
    } else if c.len() > 0 {
        let rest = c.drop_first();
        assert forall|i: int| 0 <= i < counted(c, name).len() implies (#[trigger] counted(
            c,
            name,
        )[i]).1 <= n + 1 by {
            if i > 0 {
                assert(counted(c, name)[i] == rest[i - 1]);
                assert(rest[i - 1] == c[i]);
            }
        }
    }
}

impl Builder {
    fn new() -> (r: Builder)
        ensures
            r@ == Fold::start(),
    {
        let meta = SessionMeta {
            ai_title: None,
            leaf_uuid: None,
            last_prompt: None,
            mode: None,
            permission_mode: None,
            agent_name: None,
            pr_links: Vec::new(),
        };
        assert(meta@.pr_links =~= Seq::empty());
        let r = Builder {
            nodes: Vec::new(),
            meta,
            session_id: None,
            malformed_lines: 0,
            unknown_types: Vec::new(),
        };
        assert(r@.nodes =~= Seq::empty());
        assert(r@.unknown =~= Seq::empty());
        r
    }

    fn take_line(&mut self, index: usize, line: &Json)
        requires
            bounded(old(self)@, index as int),
            index < usize::MAX,
        ensures
            final(self)@ == old(self)@.with_line(index, line@),
            bounded(final(self)@, index + 1),
    {
        if self.session_id.is_none() {
            self.session_id = field_text(line, "sessionId");
        }
        let kind = match field_text(line, "type") {
            Some(k) => k,
            None => {
                self.malformed_lines += 1;
                return ;
            },
        };
        if let Some(k) = NodeKind::from_type(&kind) {
            match field_text(line, "uuid") {
                Some(uuid) => {
                    let ghost was = self.nodes@;
                    let n = node(index, uuid, k, line);
                    self.nodes.push(n);
                    assert(self@.nodes =~= old(self)@.nodes.push(n@));
                },
                None => {
                    self.malformed_lines += 1;
                },
            }
            return ;
        }
        if reads_sidecar(&kind) {
            self.meta.take_sidecar(&kind, line);
        } else {
            proof {
                lemma_counted_bound(self@.unknown, kind@, index as int);
                assert forall|i: int| 0 <= i < self.unknown_types@.len() implies (
                #[trigger] self.unknown_types@[i]).1 < usize::MAX by {
                    assert(self@.unknown[i].1 == self.unknown_types@[i].1);
                }
            }
            count(&mut self.unknown_types, kind);
        }
    }

    fn ingest(&mut self, index: usize, raw: &str)
        requires
            bounded(old(self)@, index as int),
            index < usize::MAX,
        ensures
            final(self)@ == old(self)@.with_text(index, raw@),
            bounded(final(self)@, index + 1),
    {
        if blank(raw) {
            return ;
        }
        match read_line(raw) {
            None => {
                self.malformed_lines += 1;
            },
            Some(j) => {
                self.take_line(index, &j);
            },
        }
    }
}

/// The position of the first node with a uuid.
pub open spec fn first(nodes: Seq<NodeView>, uuid: Seq<char>) -> Option<int>
    decreases nodes.len(),
{
    if nodes.len() == 0 {
        None
    } else {
        match first(nodes.drop_last(), uuid) {
            Some(i) => Some(i),
            None => if nodes.last().uuid == uuid {
                Some(nodes.len() - 1)
            } else {
                None
            },
        }
    }
}

/// What is found first stands where it is said to, and nothing before it has
/// its uuid; what is not found is nowhere.
pub proof fn lemma_first(nodes: Seq<NodeView>, uuid: Seq<char>)
    ensures
        match first(nodes, uuid) {
            Some(i) => 0 <= i < nodes.len() && nodes[i].uuid == uuid && forall|k: int|
                0 <= k < i ==> (#[trigger] nodes[k]).uuid != uuid,
            None => forall|k: int| 0 <= k < nodes.len() ==> (#[trigger] nodes[k]).uuid != uuid,
        },
    decreases nodes.len(),
{
    if nodes.len() > 0 {
        let init = nodes.drop_last();
        lemma_first(init, uuid);
        assert forall|k: int| 0 <= k < init.len() implies init[k] == #[trigger] nodes[k] by {}
    }
}

/// Why a parent-chain walk stopped.
#[derive(Debug, Clone, PartialEq, Eq)]
pub enum ChainStop {
    /// At a line without a parent.
    Root,
    /// At a line whose parent is not in the file.
    MissingParent(String),
    /// Back at a line it had visited.
    Cycle(String),
    /// The leaf names no line of the file.
    UnknownLeaf(String),
}

pub enum StopView {
    Root,
    MissingParent(Seq<char>),
    Cycle(Seq<char>),
    UnknownLeaf(Seq<char>),
}

impl View for ChainStop {
    type V = StopView;

    open spec fn view(&self) -> StopView {
        match self {
            ChainStop::Root => StopView::Root,
            ChainStop::MissingParent(u) => StopView::MissingParent(u@),
            ChainStop::Cycle(u) => StopView::Cycle(u@),
            ChainStop::UnknownLeaf(u) => StopView::UnknownLeaf(u@),
        }
    }
}

/// Whether a path of positions has visited a uuid.
pub open spec fn visited(nodes: Seq<NodeView>, path: Seq<int>, uuid: Seq<char>) -> bool {
    exists|i: int| 0 <= i < path.len() && nodes[#[trigger] path[i]].uuid == uuid
}

/// Whether a path holds positions of nodes with different uuids.
pub open spec fn simple(nodes: Seq<NodeView>, path: Seq<int>) -> bool {
    &&& forall|i: int| 0 <= i < path.len() ==> 0 <= #[trigger] path[i] < nodes.len()
    &&& forall|i: int, j: int|
        0 <= i < j < path.len() ==> nodes[#[trigger] path[i]].uuid != nodes[#[trigger] path[j]].uuid
}

/// A simple path is no longer than the list of nodes.
pub proof fn lemma_simple(nodes: Seq<NodeView>, path: Seq<int>)
    requires
        simple(nodes, path),
    ensures
        path.len() <= nodes.len(),
{
    let range = vstd::set_lib::set_int_range(0, nodes.len() as int);
    vstd::set_lib::lemma_int_range(0, nodes.len() as int);
    assert(path.no_duplicates()) by {
        assert forall|i: int, j: int| 0 <= i < path.len() && 0 <= j < path.len() && i
            != j implies path[i] != path[j] by {
            if i < j {
                assert(nodes[path[i]].uuid != nodes[path[j]].uuid);
            } else {
                assert(nodes[path[j]].uuid != nodes[path[i]].uuid);
            }
        }
    }
    path.unique_seq_to_set();
    assert(path.to_set().subset_of(range));
    vstd::set_lib::lemma_len_subset(path.to_set(), range);
}

/// The walk from a node towards its root, after a path already walked: the
/// whole path, and why it ends.
pub open spec fn walk(nodes: Seq<NodeView>, at: int, path: Seq<int>) -> (Seq<int>, StopView)
    decreases nodes.len() - path.len(),
    when simple(nodes, path) && 0 <= at < nodes.len()
    via walk_decreases
{
    let n = nodes[at];
    if visited(nodes, path, n.uuid) {
        (path, StopView::Cycle(n.uuid))
    } else {
        let longer = path.push(at);
        match n.parent_uuid {
            None => (longer, StopView::Root),
            Some(parent) => match first(nodes, parent) {
                None => (longer, StopView::MissingParent(parent)),
                Some(next) => walk(nodes, next, longer),
            },
        }
    }
}

#[via_fn]
proof fn walk_decreases(nodes: Seq<NodeView>, at: int, path: Seq<int>) {
    if !visited(nodes, path, nodes[at].uuid) {
        lemma_step(nodes, at, path);
        lemma_simple(nodes, path.push(at));
        if let Some(parent) = nodes[at].parent_uuid {
            lemma_first(nodes, parent);
        }
    }
}

proof fn lemma_step(nodes: Seq<NodeView>, at: int, path: Seq<int>)
    requires
        simple(nodes, path),
        0 <= at < nodes.len(),
        !visited(nodes, path, nodes[at].uuid),
    ensures
        simple(nodes, path.push(at)),
{
    let longer = path.push(at);
    assert forall|i: int, j: int| 0 <= i < j < longer.len() implies nodes[#[trigger] longer[i]].uuid
        != nodes[#[trigger] longer[j]].uuid by {
        if j == path.len() {
            assert(longer[i] == path[i]);
        } else {
            assert(longer[i] == path[i] && longer[j] == path[j]);
        }
    }
}

/// A conversation's positions, root first, and why its walk stopped.
pub struct ChainView {
    pub positions: Seq<int>,
    pub stop: StopView,
}

/// The conversation that ends in the node `leaf`.
pub open spec fn chain_of(nodes: Seq<NodeView>, leaf: Seq<char>) -> ChainView {
    match first(nodes, leaf) {
        None => ChainView { positions: Seq::empty(), stop: StopView::UnknownLeaf(leaf) },
        Some(start) => {
            let (path, stop) = walk(nodes, start, Seq::empty());
            ChainView { positions: path.reverse(), stop }
        },
    }
}

/// A conversation: one root-to-leaf path through the graph.
#[derive(Debug, PartialEq, Eq)]
pub struct Chain {
    /// Positions among the session's nodes, root first.
    pub positions: Vec<usize>,
    pub stop: ChainStop,
}

impl View for Chain {
    type V = ChainView;

    open spec fn view(&self) -> ChainView {
        ChainView {
            positions: self.positions@.map_values(|p: usize| p as int),
            stop: self.stop@,
        }
    }
}

/// The nodes at positions that exist and that `wanted` holds of, in order.
pub open spec fn picked(
    nodes: Seq<NodeView>,
    positions: Seq<int>,
    wanted: spec_fn(NodeView) -> bool,
) -> Seq<NodeView>
    decreases positions.len(),
{
    if positions.len() == 0 {
        Seq::empty()
    } else {
        let init = picked(nodes, positions.drop_last(), wanted);
        let p = positions.last();
        if 0 <= p < nodes.len() && wanted(nodes[p]) {
            init.push(nodes[p])
        } else {
            init
        }
    }
}

/// The views of borrowed nodes.
pub open spec fn refs_view(r: Seq<&ClaudeNode>) -> Seq<NodeView> {
    r.map_values(|x: &ClaudeNode| x@)
}

pub open spec fn any_node() -> spec_fn(NodeView) -> bool {
    |n: NodeView| true
}

pub open spec fn replayed() -> spec_fn(NodeView) -> bool {
    |n: NodeView| n.replayable()
}

impl Chain {
    pub fn is_empty(&self) -> (r: bool)
        ensures
            r == (self@.positions.len() == 0),
    {
        self.positions.len() == 0
    }

    pub fn len(&self) -> (r: usize)
        ensures
            r == self@.positions.len(),
    {
        self.positions.len()
    }

    /// The chain's nodes, root first.
    pub fn nodes<'s>(&self, session: &'s ClaudeSession) -> (r: Vec<&'s ClaudeNode>)
        ensures
            refs_view(r@) == picked(session@.nodes, self@.positions, any_node()),
    {
        let ghost all = self@.positions;
        let mut out: Vec<&'s ClaudeNode> = Vec::new();
        let mut i: usize = 0;
        assert(all.take(0) =~= Seq::empty());
        assert(refs_view(out@) =~= Seq::empty());
        while i < self.positions.len()
            invariant
                i <= self.positions.len(),
                all == self@.positions,
                refs_view(out@) == picked(session@.nodes, all.take(i as int), any_node()),
            decreases self.positions.len() - i,
        {
            assert(all.take(i + 1).drop_last() =~= all.take(i as int));
            assert(all.take(i + 1).last() == self.positions@[i as int]);
            let p = self.positions[i];
            if p < session.nodes.len() {
                let ghost was = out@;
                out.push(&session.nodes[p]);
                assert(refs_view(out@) =~= refs_view(was).push(session@.nodes[p as int]));
            }
            i += 1;
        }
        assert(all.take(all.len() as int) =~= all);
        out
    }

    /// The chain's nodes that a resume should replay.
    pub fn replayable<'s>(&self, session: &'s ClaudeSession) -> (r: Vec<&'s ClaudeNode>)
        ensures
            refs_view(r@) == picked(session@.nodes, self@.positions, replayed()),
    {
        let ghost all = self@.positions;
        let mut out: Vec<&'s ClaudeNode> = Vec::new();
        let mut i: usize = 0;
        assert(all.take(0) =~= Seq::empty());
        assert(refs_view(out@) =~= Seq::empty());
        while i < self.positions.len()
            invariant
                i <= self.positions.len(),
                all == self@.positions,
                refs_view(out@) == picked(session@.nodes, all.take(i as int), replayed()),
            decreases self.positions.len() - i,
        {
            assert(all.take(i + 1).drop_last() =~= all.take(i as int));
            assert(all.take(i + 1).last() == self.positions@[i as int]);
            let p = self.positions[i];
            if p < session.nodes.len() {
                assert(session@.nodes[p as int] == session.nodes@[p as int]@);
                if session.nodes[p].is_replayable() {
                    let ghost was = out@;
                    out.push(&session.nodes[p]);
                    assert(refs_view(out@) =~= refs_view(was).push(session@.nodes[p as int]));
                }
            }
            i += 1;
        }
        assert(all.take(all.len() as int) =~= all);
        out
    }
}

/// A parent with more than one child: where the history forked.
#[derive(Debug, PartialEq, Eq)]
pub struct BranchPoint {
    /// Not necessarily a line of the file.
    pub parent: String,
    /// In file order.
    pub children: Vec<String>,
}

/// The uuids of a parent's children, in file order.
pub open spec fn children(nodes: Seq<NodeView>, parent: Seq<char>) -> Seq<Seq<char>>
    decreases nodes.len(),
{
    if nodes.len() == 0 {
        Seq::empty()
    } else {
        let init = children(nodes.drop_last(), parent);
        if nodes.last().parent_uuid == Some(parent) {
            init.push(nodes.last().uuid)
        } else {
            init
        }
    }
}

/// Where a fork comes among the forks: by its parent's place in the file, those
/// without one last, and by the parent's name.
pub open spec fn fork_key(nodes: Seq<NodeView>, parent: Seq<char>) -> Seq<u64> {
    seq![
        match first(nodes, parent) {
            Some(i) => i as u64,
            None => u64::MAX,
        },
    ] + text_key(parent)
}

/// Whether `points` lists the forks of a file, each once and in order.
pub open spec fn lists_forks(points: Seq<BranchPoint>, nodes: Seq<NodeView>) -> bool {
    &&& ascending(points.map_values(|b: BranchPoint| fork_key(nodes, b.parent@)))
    &&& forall|i: int|
        0 <= i < points.len() ==> {
            &&& texts((#[trigger] points[i]).children@) == children(nodes, points[i].parent@)
            &&& children(nodes, points[i].parent@).len() > 1
        }
    &&& forall|p: Seq<char>| #[trigger]
        children(nodes, p).len() > 1 ==> exists|i: int|
            0 <= i < points.len() && (#[trigger] points[i]).parent@ == p
}

/// One parsed session file.  Its nodes are in file order, which is not
/// conversation order.
pub struct ClaudeSession {
    pub path: String,
    /// The id recorded, or the file's stem.
    pub session_id: String,
    /// Every chain-bearing line, in file order.
    pub nodes: Vec<ClaudeNode>,
    pub meta: SessionMeta,
    /// How many lines could not be read.
    pub malformed_lines: usize,
    /// The types that are not known, with their counts, in the order first met.
    pub unknown_types: Vec<(String, usize)>,
    /// The first position of each uuid.
    pub index: StringHashMap<usize>,
}

pub struct SessionView {
    pub path: Seq<char>,
    pub session_id: Seq<char>,
    pub nodes: Seq<NodeView>,
    pub meta: MetaView,
    pub malformed_lines: nat,
    pub unknown_types: Seq<(Seq<char>, nat)>,
}

impl View for ClaudeSession {
    type V = SessionView;

    open spec fn view(&self) -> SessionView {
        SessionView {
            path: self.path@,
            session_id: self.session_id@,
            nodes: nodes_view(self.nodes@),
            meta: self.meta@,
            malformed_lines: self.malformed_lines as nat,
            unknown_types: counts_view(self.unknown_types@),
        }
    }
}

/// Whether an index gives the first position of each uuid.
pub open spec fn indexes(index: Map<Seq<char>, usize>, nodes: Seq<NodeView>) -> bool {
    forall|u: Seq<char>| #[trigger]
        index.contains_key(u) == (first(nodes, u) is Some) && (index.contains_key(u)
            ==> index[u] == first(nodes, u)->0)
}

/// The session id of a file whose lines name none.
pub open spec fn id_of_path(path: Seq<char>) -> Seq<char> {
    match file_name(path) {
        Some(name) => stem(name),
        None => Seq::empty(),
    }
}

/// The session that a file's text holds.
pub open spec fn session_of(path: Seq<char>, text: Seq<char>) -> SessionView {
    let f = folded(lines(text));
    SessionView {
        path,
        session_id: match f.session_id {
            Some(id) => id,
            None => id_of_path(path),
        },
        nodes: f.nodes,
        meta: f.meta,
        malformed_lines: f.malformed,
        unknown_types: f.unknown,
    }
}

fn index_nodes(nodes: &Vec<ClaudeNode>) -> (r: StringHashMap<usize>)
    ensures
        indexes(r@, nodes_view(nodes@)),
{
    let ghost all = nodes_view(nodes@);
    let mut index: StringHashMap<usize> = StringHashMap::new();
    let mut i: usize = 0;
    assert(all.take(0) =~= Seq::empty());
    while i < nodes.len()
        invariant
            i <= nodes.len(),
            all == nodes_view(nodes@),
            indexes(index@, all.take(i as int)),
        decreases nodes.len() - i,
    {
        let ghost shorter = all.take(i as int);
        let ghost longer = all.take(i + 1);
        assert(longer.drop_last() =~= shorter);
        assert(longer.last() == nodes@[i as int]@);
        let ghost was = index@;
        if !index.contains_key(&nodes[i].uuid) {
            index.insert(nodes[i].uuid.clone(), i);
        }
        assert forall|u: Seq<char>| #[trigger]
            index@.contains_key(u) == (first(longer, u) is Some) && (index@.contains_key(u)
                ==> index@[u] == first(longer, u)->0) by {
            assert(was.contains_key(u) == (first(shorter, u) is Some));
        }
        i += 1;
    }
    assert(all.take(all.len() as int) =~= all);
    index
}

impl SessionView {
    /// The leaf to resume from: the last one recorded where the file has it,
    /// else the last node in file order.
    pub open spec fn tip(self) -> Option<Seq<char>> {
        if self.meta.leaf_uuid is Some && first(self.nodes, self.meta.leaf_uuid->0) is Some {
            self.meta.leaf_uuid
        } else if self.nodes.len() > 0 {
            Some(self.nodes.last().uuid)
        } else {
            None
        }
    }

    /// The conversation to resume.
    pub open spec fn resume_chain(self) -> ChainView {
        match self.tip() {
            Some(leaf) => chain_of(self.nodes, leaf),
            None => ChainView {
                positions: Seq::empty(),
                stop: StopView::UnknownLeaf(Seq::empty()),
            },
        }
    }

    /// Whether some node names this uuid as its parent.
    pub open spec fn has_child(self, uuid: Seq<char>) -> bool {
        exists|i: int|
            0 <= i < self.nodes.len() && (#[trigger] self.nodes[i]).parent_uuid == Some(uuid)
    }
}

/// One fork, in its place among the forks.
struct Fork {
    place: u64,
    point: BranchPoint,
}

impl Keyed for Fork {
    closed spec fn key(&self) -> Seq<u64> {
        seq![self.place] + text_key(self.point.parent@)
    }

    fn sort_key(&self) -> (r: Vec<u64>) {
        let mut out: Vec<u64> = Vec::new();
        out.push(self.place);
        let mut rest = self.point.parent.sort_key();
        assert(out@ =~= seq![self.place]);
        out.append(&mut rest);
        out
    }
}

impl ClaudeSession {
    /// The index gives the first position of each uuid.
    pub open spec fn wf(self) -> bool {
        indexes(self.index@, nodes_view(self.nodes@))
    }

    /// Parse an already-loaded session file.
    pub fn parse(path: &str, text: &str) -> (r: ClaudeSession)
        ensures
            r@ == session_of(path@, text@),
            r.wf(),
    {
        let all = split_lines(text);
        let ghost ls = texts(all@);
        let mut builder = Builder::new();
        let mut i: usize = 0;
        assert(ls.take(0) =~= Seq::empty());
        while i < all.len()
            invariant
                i <= all.len(),
                ls == texts(all@),
                builder@ == folded(ls.take(i as int)),
                bounded(builder@, i as int),
            decreases all.len() - i,
        {
            assert(ls.take(i + 1).drop_last() =~= ls.take(i as int));
            assert(ls.take(i + 1).last() == all@[i as int]@);
            builder.ingest(i, &all[i]);
            i += 1;
        }
        assert(ls.take(ls.len() as int) =~= ls);
        let session_id = match builder.session_id {
            Some(id) => id,
            None => match name_of(path) {
                Some(name) => stem_of(&name),
                None => {
                    let s = String::new();
                    assert(s@ =~= Seq::empty());
                    s
                },
            },
        };
        let index = index_nodes(&builder.nodes);
        ClaudeSession {
            path: path.to_string(),
            session_id,
            nodes: builder.nodes,
            meta: builder.meta,
            malformed_lines: builder.malformed_lines,
            unknown_types: builder.unknown_types,
            index,
        }
    }

    fn position(&self, uuid: &str) -> (r: Option<usize>)
        requires
            self.wf(),
        ensures
            match r {
                Some(i) => i < self.nodes@.len() && first(self@.nodes, uuid@) == Some(i as int),
                None => first(self@.nodes, uuid@) is None,
            },
    {
        proof {
            lemma_first(self@.nodes, uuid@);
        }
        match self.index.get(uuid) {
            Some(i) => Some(*i),
            None => None,
        }
    }

    /// The node with this uuid, if the file has one.
    pub fn node(&self, uuid: &str) -> (r: Option<&ClaudeNode>)
        requires
            self.wf(),
        ensures
            match r {
                Some(n) => first(self@.nodes, uuid@) is Some && n@ == self@.nodes[first(
                    self@.nodes,
                    uuid@,
                )->0],
                None => first(self@.nodes, uuid@) is None,
            },
    {
        match self.position(uuid) {
            Some(i) => Some(&self.nodes[i]),
            None => None,
        }
    }

    /// Walk the parents from `leaf` back to a root and return the path, root
    /// first, together with why the walk stopped.  A walk takes no more steps
    /// than the file has nodes.
    pub fn resolve_chain(&self, leaf: &str) -> (r: Chain)
        requires
            self.wf(),
        ensures
            r@ == chain_of(self@.nodes, leaf@),
    {
        let ghost nodes = self@.nodes;
        let start = match self.position(leaf) {
            Some(i) => i,
            None => {
                let r = Chain {
                    positions: Vec::new(),
                    stop: ChainStop::UnknownLeaf(leaf.to_string()),
                };
                assert(r@.positions =~= Seq::empty());
                return r;
            },
        };
        let mut seen: StringHashMap<bool> = StringHashMap::new();
        let mut walked: Vec<usize> = Vec::new();
        let mut at: usize = start;
        let ghost mut path: Seq<int> = Seq::empty();
        assert(walked@.map_values(|p: usize| p as int) =~= path);
        loop
            invariant
                self.wf(),
                nodes == self@.nodes,
                at < self.nodes.len(),
                simple(nodes, path),
                path == walked@.map_values(|p: usize| p as int),
                forall|u: Seq<char>| #[trigger] seen@.contains_key(u) <==> visited(nodes, path, u),
                walk(nodes, at as int, path) == walk(nodes, start as int, Seq::empty()),
                first(nodes, leaf@) == Some(start as int),
            decreases nodes.len() - path.len(),
        {
            let node = &self.nodes[at];
            assert(nodes[at as int] == node@);
            if seen.contains_key(&node.uuid) {
                let positions = reversed(&walked);
                return Chain { positions, stop: ChainStop::Cycle(node.uuid.clone()) };
            }
            seen.insert(node.uuid.clone(), true);
            walked.push(at);
            proof {
                lemma_step(nodes, at as int, path);
                lemma_simple(nodes, path.push(at as int));
                let longer = path.push(at as int);
                assert(walked@.map_values(|p: usize| p as int) =~= longer);
                assert forall|u: Seq<char>| #[trigger]
                    seen@.contains_key(u) <==> visited(nodes, longer, u) by {
                    if visited(nodes, path, u) {
                        let i = choose|i: int|
                            0 <= i < path.len() && nodes[#[trigger] path[i]].uuid == u;
                        assert(longer[i] == path[i]);
                    }
                    assert(longer[path.len() as int] == at);
                    if visited(nodes, longer, u) && u != node@.uuid {
                        let i = choose|i: int|
                            0 <= i < longer.len() && nodes[#[trigger] longer[i]].uuid == u;
                        assert(longer[i] == path[i]);
                    }
                }
                path = longer;
            }
            match &node.parent_uuid {
                None => {
                    let positions = reversed(&walked);
                    return Chain { positions, stop: ChainStop::Root };
                },
                Some(parent) => match self.position(parent) {
                    None => {
                        let positions = reversed(&walked);
                        return Chain { positions, stop: ChainStop::MissingParent(parent.clone()) };
                    },
                    Some(next) => {
                        at = next;
                    },
                },
            }
        }
    }

    /// The leaf that a resume should start from.
    pub fn tip(&self) -> (r: Option<&str>)
        requires
            self.wf(),
        ensures
            match r {
                Some(u) => self@.tip() == Some(u@),
                None => self@.tip() is None,
            },
    {
        if let Some(leaf) = &self.meta.leaf_uuid {
            if self.position(leaf).is_some() {
                return Some(leaf.as_str());
            }
        }
        assert(self@.nodes.len() == self.nodes@.len());
        if self.nodes.len() > 0 {
            let last = self.nodes.len() - 1;
            assert(self@.nodes.last() == self.nodes@[last as int]@);
            Some(self.nodes[last].uuid.as_str())
        } else {
            None
        }
    }

    /// The conversation to resume; empty when the file has no nodes.
    pub fn resume_chain(&self) -> (r: Chain)
        requires
            self.wf(),
        ensures
            r@ == self@.resume_chain(),
    {
        match self.tip() {
            Some(leaf) => self.resolve_chain(leaf),
            None => {
                let none = String::new();
                assert(none@ =~= Seq::empty());
                let r = Chain { positions: Vec::new(), stop: ChainStop::UnknownLeaf(none) };
                assert(r@.positions =~= Seq::empty());
                r
            },
        }
    }

    /// Every node without a parent.
    pub fn roots(&self) -> (r: Vec<&ClaudeNode>)
        ensures
            refs_view(r@) == self@.nodes.filter(|n: NodeView| n.parent_uuid is None),
    {
        let ghost all = self@.nodes;
        let ghost wanted = |n: NodeView| n.parent_uuid is None;
        let mut out: Vec<&ClaudeNode> = Vec::new();
        let mut i: usize = 0;
        reveal(Seq::filter);
        assert(all.take(0) =~= Seq::empty());
        assert(refs_view(out@) =~= all.take(0).filter(wanted));
        while i < self.nodes.len()
            invariant
                i <= self.nodes.len(),
                all == self@.nodes,
                wanted == (|n: NodeView| n.parent_uuid is None),
                refs_view(out@) == all.take(i as int).filter(wanted),
            decreases self.nodes.len() - i,
        {
            reveal(Seq::filter);
            assert(all.take(i + 1).drop_last() =~= all.take(i as int));
            assert(all.take(i + 1).last() == self.nodes@[i as int]@);
            if self.nodes[i].parent_uuid.is_none() {
                let ghost was = out@;
                out.push(&self.nodes[i]);
                assert(refs_view(out@) =~= refs_view(was).push(self.nodes@[i as int]@));
            }
            i += 1;
        }
        assert(all.take(all.len() as int) =~= all);
        out
    }

    /// Every node whose parent is named but absent from the file.
    pub fn orphans(&self) -> (r: Vec<&ClaudeNode>)
        requires
            self.wf(),
        ensures
            refs_view(r@) == self@.nodes.filter(
                |n: NodeView|
                    n.parent_uuid is Some && first(self@.nodes, n.parent_uuid->0) is None,
            ),
    {
        let ghost all = self@.nodes;
        let ghost wanted = |n: NodeView|
            n.parent_uuid is Some && first(all, n.parent_uuid->0) is None;
        let mut out: Vec<&ClaudeNode> = Vec::new();
        let mut i: usize = 0;
        reveal(Seq::filter);
        assert(all.take(0) =~= Seq::empty());
        assert(refs_view(out@) =~= all.take(0).filter(wanted));
        while i < self.nodes.len()
            invariant
                i <= self.nodes.len(),
                self.wf(),
                all == self@.nodes,
                wanted == (|n: NodeView|
                    n.parent_uuid is Some && first(all, n.parent_uuid->0) is None),
                refs_view(out@) == all.take(i as int).filter(wanted),
            decreases self.nodes.len() - i,
        {
            reveal(Seq::filter);
            assert(all.take(i + 1).drop_last() =~= all.take(i as int));
            assert(all.take(i + 1).last() == self.nodes@[i as int]@);
            let lost = match &self.nodes[i].parent_uuid {
                Some(parent) => self.position(parent).is_none(),
                None => false,
            };
            if lost {
                let ghost was = out@;
                out.push(&self.nodes[i]);
                assert(refs_view(out@) =~= refs_view(was).push(self.nodes@[i as int]@));
            }
            i += 1;
        }
        assert(all.take(all.len() as int) =~= all);
        out
    }

    /// Every node that no node names as its parent: the tips that a picker can
    /// offer.
    pub fn leaves(&self) -> (r: Vec<&ClaudeNode>)
        ensures
            refs_view(r@) == self@.nodes.filter(|n: NodeView| !self@.has_child(n.uuid)),
    {
        let ghost all = self@.nodes;
        let parents = self.parents();
        let ghost wanted = |n: NodeView| !self@.has_child(n.uuid);
        let mut out: Vec<&ClaudeNode> = Vec::new();
        let mut i: usize = 0;
        reveal(Seq::filter);
        assert(all.take(0) =~= Seq::empty());
        assert(refs_view(out@) =~= all.take(0).filter(wanted));
        while i < self.nodes.len()
            invariant
                i <= self.nodes.len(),
                all == self@.nodes,
                forall|u: Seq<char>| #[trigger]
                    parents@.contains_key(u) <==> self@.has_child(u),
                wanted == (|n: NodeView| !self@.has_child(n.uuid)),
                refs_view(out@) == all.take(i as int).filter(wanted),
            decreases self.nodes.len() - i,
        {
            reveal(Seq::filter);
            assert(all.take(i + 1).drop_last() =~= all.take(i as int));
            assert(all.take(i + 1).last() == self.nodes@[i as int]@);
            if !parents.contains_key(&self.nodes[i].uuid) {
                let ghost was = out@;
                out.push(&self.nodes[i]);
                assert(refs_view(out@) =~= refs_view(was).push(self.nodes@[i as int]@));
            }
            i += 1;
        }
        assert(all.take(all.len() as int) =~= all);
        out
    }

    /// How many children each parent has.
    fn parents(&self) -> (r: StringHashMap<usize>)
        ensures
            forall|u: Seq<char>| #[trigger] r@.contains_key(u) <==> self@.has_child(u),
            forall|u: Seq<char>| #[trigger]
                r@.contains_key(u) ==> r@[u] == children(self@.nodes, u).len(),
            forall|u: Seq<char>| #[trigger]
                children(self@.nodes, u).len() > 0 ==> r@.contains_key(u),
    {
        let ghost all = self@.nodes;
        let mut counts: StringHashMap<usize> = StringHashMap::new();
        let mut i: usize = 0;
        assert(all.take(0) =~= Seq::empty());
        while i < self.nodes.len()
            invariant
                i <= self.nodes.len(),
                all == self@.nodes,
                forall|u: Seq<char>| #[trigger]
                    counts@.contains_key(u) <==> children(all.take(i as int), u).len() > 0,
                forall|u: Seq<char>| #[trigger]
                    counts@.contains_key(u) ==> counts@[u] == children(all.take(i as int), u).len(),
                forall|u: Seq<char>| (#[trigger] children(all.take(i as int), u)).len() <= i,
            decreases self.nodes.len() - i,
        {
            let ghost longer = all.take(i + 1);
            assert(longer.drop_last() =~= all.take(i as int));
            assert(longer.last() == self.nodes@[i as int]@);
            let ghost was = counts@;
            if let Some(parent) = &self.nodes[i].parent_uuid {
                let n: usize = match counts.get(parent) {
                    Some(n) => *n,
                    None => 0,
                };
                assert(n == children(all.take(i as int), parent@).len());
                counts.insert(parent.clone(), n + 1);
            }
            proof {
                assert forall|u: Seq<char>| #[trigger]
                    counts@.contains_key(u) <==> children(longer, u).len() > 0 by {
                    assert(was.contains_key(u) <==> children(all.take(i as int), u).len() > 0);
                }
                assert forall|u: Seq<char>| #[trigger] counts@.contains_key(u) implies counts@[u]
                    == children(longer, u).len() by {
                    assert(was.contains_key(u) ==> was[u] == children(all.take(i as int), u).len());
                }
                assert forall|u: Seq<char>| (#[trigger] children(longer, u)).len() <= i + 1 by {
                    assert(children(all.take(i as int), u).len() <= i);
                }
            }
            i += 1;
        }
        proof {
            assert(all.take(all.len() as int) =~= all);
            assert forall|u: Seq<char>| #[trigger]
                counts@.contains_key(u) <==> self@.has_child(u) by {
                lemma_has_child(all, u);
            }
            assert forall|u: Seq<char>| #[trigger] children(self@.nodes, u).len()
                > 0 implies counts@.contains_key(u) by {
                assert(counts@.contains_key(u) <==> children(all, u).len() > 0);
            }
        }
        counts
    }

    /// Every uuid with more than one child, in file order of the parent: the
    /// points where an edit or a rewind forked the history.  A parent that is
    /// not itself in the file still counts.
    pub fn branch_points(&self) -> (r: Vec<BranchPoint>)
        requires
            self.wf(),
        ensures
            lists_forks(r@, self@.nodes),
    {
        let ghost all = self@.nodes;
        let parents = self.parents();
        let mut forks: Vec<Fork> = Vec::new();
        let mut i: usize = 0;
        assert(keys_of(forks@) =~= Seq::empty());
        while i < self.nodes.len()
            invariant
                i <= self.nodes.len(),
                self.wf(),
                all == self@.nodes,
                forall|u: Seq<char>| #[trigger]
                    parents@.contains_key(u) ==> parents@[u] == children(all, u).len(),
                forall|u: Seq<char>| #[trigger]
                    children(all, u).len() > 0 ==> parents@.contains_key(u),
                forks_listed(forks@, all, i as int),
            decreases self.nodes.len() - i,
        {
            assert(all[i as int] == self.nodes@[i as int]@);
            if let Some(parent) = &self.nodes[i].parent_uuid {
                let many = match parents.get(parent) {
                    Some(n) => *n > 1,
                    None => false,
                };
                assert(children(all, parent@).len() > 0 ==> parents@.contains_key(parent@));
                if many {
                    let place: u64 = match self.position(parent) {
                        Some(at) => at as u64,
                        None => u64::MAX,
                    };
                    let kids = self.children(parent);
                    let fork = Fork {
                        place,
                        point: BranchPoint { parent: parent.clone(), children: kids },
                    };
                    assert(fork.key() == fork_key(all, parent@));
                    let ghost was = forks@;
                    let ghost f = fork;
                    let added = add_sorted(&mut forks, fork);
                    proof {
                        lemma_fork_added(was, forks@, f, added, all, i as int);
                    }
                }
            }
            proof {
                lemma_fork_step(forks@, all, i as int);
            }
            i += 1;
        }
        let ghost sorted = forks@;
        let mut out: Vec<BranchPoint> = Vec::new();
        for fork in it: forks
            invariant
                it.seq() == sorted,
                out@ == sorted.take(it.index() as int).map_values(|f: Fork| f.point),
        {
            assert(sorted.take(it.index() + 1) =~= sorted.take(it.index() as int).push(fork));
            out.push(fork.point);
            assert(out@ =~= sorted.take(it.index() + 1).map_values(|f: Fork| f.point));
        }
        proof {
            assert(sorted.take(sorted.len() as int) =~= sorted);
            lemma_forks(sorted, out@, all);
        }
        out
    }

    fn children(&self, parent: &str) -> (r: Vec<String>)
        ensures
            texts(r@) == children(self@.nodes, parent@),
    {
        let ghost all = self@.nodes;
        let mut out: Vec<String> = Vec::new();
        let mut i: usize = 0;
        assert(all.take(0) =~= Seq::empty());
        assert(texts(out@) =~= Seq::empty());
        while i < self.nodes.len()
            invariant
                i <= self.nodes.len(),
                all == self@.nodes,
                texts(out@) == children(all.take(i as int), parent@),
            decreases self.nodes.len() - i,
        {
            assert(all.take(i + 1).drop_last() =~= all.take(i as int));
            assert(all.take(i + 1).last() == self.nodes@[i as int]@);
            if let Some(p) = &self.nodes[i].parent_uuid {
                if same(p, parent) {
                    let ghost was = out@;
                    out.push(self.nodes[i].uuid.clone());
                    assert(texts(out@) =~= texts(was).push(self.nodes@[i as int].uuid@));
                }
            }
            i += 1;
        }
        assert(all.take(all.len() as int) =~= all);
        out
    }
}

/// Whether a sorted list holds the forks among the parents that the first `n`
/// nodes name.
spec fn forks_listed(forks: Seq<Fork>, nodes: Seq<NodeView>, n: int) -> bool {
    &&& ascending(keys_of(forks))
    &&& forall|k: int|
        0 <= k < forks.len() ==> is_fork(#[trigger] forks[k], nodes)
    &&& forall|k: int|
        0 <= k < n && (#[trigger] nodes[k]).parent_uuid is Some && children(
            nodes,
            nodes[k].parent_uuid->0,
        ).len() > 1 ==> has_fork(forks, nodes[k].parent_uuid->0)
}

spec fn is_fork(f: Fork, nodes: Seq<NodeView>) -> bool {
    &&& f.key() == fork_key(nodes, f.point.parent@)
    &&& texts(f.point.children@) == children(nodes, f.point.parent@)
    &&& children(nodes, f.point.parent@).len() > 1
}

spec fn has_fork(forks: Seq<Fork>, parent: Seq<char>) -> bool {
    exists|i: int| 0 <= i < forks.len() && (#[trigger] forks[i]).point.parent@ == parent
}

/// Forks with one key have one parent.
proof fn lemma_fork_key(nodes: Seq<NodeView>, a: Seq<char>, b: Seq<char>)
    requires
        fork_key(nodes, a) == fork_key(nodes, b),
    ensures
        a == b,
{
    assert(fork_key(nodes, a).drop_first() =~= text_key(a));
    assert(fork_key(nodes, b).drop_first() =~= text_key(b));
    crate::order::lemma_text_key(a, b);
}

proof fn lemma_fork_added(
    was: Seq<Fork>,
    now: Seq<Fork>,
    f: Fork,
    added: bool,
    nodes: Seq<NodeView>,
    n: int,
)
    requires
        0 <= n < nodes.len(),
        forks_listed(was, nodes, n),
        is_fork(f, nodes),
        ascending(keys_of(now)),
        added == !keys_of(was).contains(f.key()),
        !added ==> now == was,
        added ==> exists|i: int|
            #![trigger was.insert(i, f)]
            0 <= i <= was.len() && now == was.insert(i, f),
    ensures
        forks_listed(now, nodes, n),
        has_fork(now, f.point.parent@),
{
    if added {
        let at = choose|i: int|
            #![trigger was.insert(i, f)]
            0 <= i <= was.len() && now == was.insert(i, f);
        assert(now[at] == f);
        assert forall|k: int| 0 <= k < now.len() implies is_fork(#[trigger] now[k], nodes) by {
            if k != at {
                assert(now[k] == was[if k < at { k } else { k - 1 }]);
            }
        }
        assert forall|k: int|
            0 <= k < n && (#[trigger] nodes[k]).parent_uuid is Some && children(
                nodes,
                nodes[k].parent_uuid->0,
            ).len() > 1 implies has_fork(now, nodes[k].parent_uuid->0) by {
            let p = nodes[k].parent_uuid->0;
            assert(has_fork(was, p));
            let i = choose|i: int| 0 <= i < was.len() && (#[trigger] was[i]).point.parent@ == p;
            assert(now[if i < at { i } else { i + 1 }] == was[i]);
        }
    } else {
        let i = keys_of(was).index_of(f.key());
        assert(keys_of(was)[i] == was[i].key());
        assert(is_fork(was[i], nodes));
        lemma_fork_key(nodes, was[i].point.parent@, f.point.parent@);
    }
}

proof fn lemma_fork_step(forks: Seq<Fork>, nodes: Seq<NodeView>, n: int)
    requires
        0 <= n < nodes.len(),
        forks_listed(forks, nodes, n),
        nodes[n].parent_uuid is Some && children(nodes, nodes[n].parent_uuid->0).len() > 1
            ==> has_fork(forks, nodes[n].parent_uuid->0),
    ensures
        forks_listed(forks, nodes, n + 1),
{
}

proof fn lemma_forks(forks: Seq<Fork>, points: Seq<BranchPoint>, nodes: Seq<NodeView>)
    requires
        forks_listed(forks, nodes, nodes.len() as int),
        points == forks.map_values(|f: Fork| f.point),
    ensures
        lists_forks(points, nodes),
{
    let keys = points.map_values(|b: BranchPoint| fork_key(nodes, b.parent@));
    assert forall|i: int| 0 <= i < forks.len() implies #[trigger] keys[i] == keys_of(forks)[i] by {
        assert(is_fork(forks[i], nodes));
    }
    assert(keys =~= keys_of(forks));
    assert forall|i: int| 0 <= i < points.len() implies {
        &&& texts((#[trigger] points[i]).children@) == children(nodes, points[i].parent@)
        &&& children(nodes, points[i].parent@).len() > 1
    } by {
        assert(is_fork(forks[i], nodes));
    }
    assert forall|p: Seq<char>| #[trigger] children(nodes, p).len() > 1 implies exists|i: int|
        0 <= i < points.len() && (#[trigger] points[i]).parent@ == p by {
        lemma_has_child(nodes, p);
        let k = choose|k: int|
            0 <= k < nodes.len() && (#[trigger] nodes[k]).parent_uuid == Some(p);
        assert(has_fork(forks, p));
        let i = choose|i: int| 0 <= i < forks.len() && (#[trigger] forks[i]).point.parent@ == p;
        assert(points[i].parent@ == p);
    }
}

/// Who has a child is named as a parent.
proof fn lemma_has_child(nodes: Seq<NodeView>, u: Seq<char>)
    ensures
        children(nodes, u).len() > 0 <==> exists|i: int|
            0 <= i < nodes.len() && (#[trigger] nodes[i]).parent_uuid == Some(u),
    decreases nodes.len(),
{
    if nodes.len() > 0 {
        let init = nodes.drop_last();
        lemma_has_child(init, u);
        if children(init, u).len() > 0 {
            let i = choose|i: int|
                0 <= i < init.len() && (#[trigger] init[i]).parent_uuid == Some(u);
            assert(nodes[i] == init[i]);
        }
        if nodes.last().parent_uuid == Some(u) {
            assert(nodes[nodes.len() - 1].parent_uuid == Some(u));
        }
        if exists|i: int| 0 <= i < nodes.len() && (#[trigger] nodes[i]).parent_uuid == Some(u) {
            let i = choose|i: int|
                0 <= i < nodes.len() && (#[trigger] nodes[i]).parent_uuid == Some(u);
            if i < init.len() {
                assert(init[i] == nodes[i]);
            }
        }
    }
}

/// Whether the node after place `i` of a walked path is the parent of the one
/// there.
pub open spec fn steps_up(nodes: Seq<NodeView>, path: Seq<int>, i: int) -> bool {
    &&& nodes[path[i]].parent_uuid is Some
    &&& first(nodes, nodes[path[i]].parent_uuid->0) == Some(path[i + 1])
}

/// Whether the node at place `i` of a chain is a child of the one before.
pub open spec fn is_child(nodes: Seq<NodeView>, positions: Seq<int>, i: int) -> bool {
    nodes[positions[i]].parent_uuid == Some(nodes[positions[i - 1]].uuid)
}

/// What a walk keeps: it extends the path it was given, by positions of nodes
/// with different uuids, each the parent of the one before.
proof fn lemma_walk(nodes: Seq<NodeView>, at: int, path: Seq<int>)
    requires
        simple(nodes, path),
        0 <= at < nodes.len(),
        path.len() > 0 ==> nodes[path.last()].parent_uuid is Some && first(
            nodes,
            nodes[path.last()].parent_uuid->0,
        ) == Some(at),
        forall|i: int| 0 <= i < path.len() - 1 ==> #[trigger] steps_up(nodes, path, i),
    ensures
        ({
            let (whole, stop) = walk(nodes, at, path);
            &&& simple(nodes, whole)
            &&& whole.len() >= path.len()
            &&& whole.len() > 0
            &&& whole[0] == (if path.len() > 0 {
                path[0]
            } else {
                at
            })
            &&& forall|i: int| 0 <= i < whole.len() - 1 ==> #[trigger] steps_up(nodes, whole, i)
            &&& ended(nodes, whole, stop)
        }),
    decreases nodes.len() - path.len(),
{
    let n = nodes[at];
    if visited(nodes, path, n.uuid) {
        assert(path.len() > 0);
        lemma_first(nodes, nodes[path.last()].parent_uuid->0);
    } else {
        lemma_step(nodes, at, path);
        lemma_simple(nodes, path.push(at));
        let longer = path.push(at);
        assert(longer.last() == at);
        assert forall|i: int| 0 <= i < longer.len() - 1 implies #[trigger] steps_up(
            nodes,
            longer,
            i,
        ) by {
            assert(longer[i] == path[i]);
            if i + 1 < path.len() {
                assert(steps_up(nodes, path, i));
                assert(longer[i + 1] == path[i + 1]);
            } else {
                assert(path[i] == path.last());
            }
        }
        if let Some(parent) = n.parent_uuid {
            lemma_first(nodes, parent);
            if let Some(next) = first(nodes, parent) {
                lemma_walk(nodes, next, longer);
            }
        }
    }
}

/// Why a walked path ends where it does.
pub open spec fn ended(nodes: Seq<NodeView>, whole: Seq<int>, stop: StopView) -> bool {
    let end = nodes[whole.last()];
    match stop {
        StopView::Root => end.parent_uuid is None,
        StopView::MissingParent(p) => end.parent_uuid == Some(p) && first(nodes, p) is None,
        StopView::Cycle(u) => end.parent_uuid == Some(u) && visited(nodes, whole, u),
        StopView::UnknownLeaf(_) => false,
    }
}

/// A conversation is root first and linked from parent to child, ends in its
/// leaf, holds no line twice, is no longer than the file, and stops only where
/// there is no parent, the parent is missing, or the walk came back to a line
/// that it holds.  It is empty only for a leaf that the file does not have.
pub proof fn law_chain_is_a_path(nodes: Seq<NodeView>, leaf: Seq<char>)
    ensures
        ({
            let c = chain_of(nodes, leaf);
            if first(nodes, leaf) is None {
                c.positions.len() == 0 && c.stop == StopView::UnknownLeaf(leaf)
            } else {
                &&& 0 < c.positions.len() <= nodes.len()
                &&& nodes[c.positions.last()].uuid == leaf
                &&& simple(nodes, c.positions)
                &&& forall|i: int|
                    0 < i < c.positions.len() ==> #[trigger] is_child(nodes, c.positions, i)
                &&& ended(nodes, c.positions.reverse(), c.stop)
            }
        }),
{
    lemma_first(nodes, leaf);
    if let Some(start) = first(nodes, leaf) {
        lemma_walk(nodes, start, Seq::empty());
        let (whole, stop) = walk(nodes, start, Seq::empty());
        let c = chain_of(nodes, leaf);
        lemma_simple(nodes, whole);
        assert(c.positions.last() == whole[0]);
        assert(c.positions.reverse() =~= whole);
        assert forall|i: int, j: int| 0 <= i < j < c.positions.len() implies nodes[
        #[trigger] c.positions[i]].uuid != nodes[#[trigger] c.positions[j]].uuid by {
            assert(c.positions[i] == whole[whole.len() - 1 - i]);
            assert(c.positions[j] == whole[whole.len() - 1 - j]);
        }
        assert forall|i: int| 0 < i < c.positions.len() implies #[trigger] is_child(
            nodes,
            c.positions,
            i,
        ) by {
            let k = whole.len() - 1 - i;
            assert(steps_up(nodes, whole, k));
            assert(c.positions[i] == whole[k]);
            assert(c.positions[i - 1] == whole[k + 1]);
            lemma_first(nodes, nodes[whole[k]].parent_uuid->0);
        }
    }
}

/// The tip of a file is always one of its lines, so a file with a line has a
/// conversation to resume, and it ends in the tip.
pub proof fn law_resume_ends_in_the_tip(s: SessionView)
    ensures
        s.tip() is None <==> s.nodes.len() == 0,
        s.tip() is Some ==> s.resume_chain().positions.len() > 0 && s.nodes[
        s.resume_chain().positions.last()].uuid == s.tip()->0,
{
    if s.tip() is Some {
        let leaf = s.tip()->0;
        lemma_first(s.nodes, leaf);
        if s.nodes.len() > 0 {
            assert(s.nodes[s.nodes.len() - 1] == s.nodes.last());
        }
        law_chain_is_a_path(s.nodes, leaf);
    }
    if s.meta.leaf_uuid is Some {
        lemma_first(s.nodes, s.meta.leaf_uuid->0);
    }
}

fn reversed(v: &Vec<usize>) -> (r: Vec<usize>)
    ensures
        r@.map_values(|p: usize| p as int) == v@.map_values(|p: usize| p as int).reverse(),
{
    let mut out: Vec<usize> = Vec::new();
    let mut i: usize = v.len();
    while i > 0
        invariant
            i <= v.len(),
            out@.len() == v.len() - i,
            forall|k: int| 0 <= k < out@.len() ==> out@[k] == v@[v.len() - 1 - k],
        decreases i,
    {
        i -= 1;
        out.push(v[i]);
    }
    assert(out@.map_values(|p: usize| p as int) =~= v@.map_values(|p: usize| p as int).reverse());
    out
}

} // verus!
