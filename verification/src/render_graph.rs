//! A render graph: a mutable set of named passes, each declaring which
//! logical resources it reads and writes, compiled into a linear execution
//! order that honours every read-after-write dependency.
//!
//! Two passes with no declared dependency between them commute; to keep the
//! compiled order reproducible from frame to frame, ties are broken by
//! insertion order: the compiler always picks the earliest-inserted pass
//! whose dependencies are already scheduled.

use vstd::prelude::*;
use vstd::pervasive::VecAdditionalExecFns;

use crate::gpu;
use crate::gpu::GpuQueue;
use crate::resource_manager::ResourceManager;

verus! {

/// Identifier for a render pass.
#[derive(Debug, Eq, Hash)]
pub struct PassId(String);

impl View for PassId {
    type V = Seq<char>;

    closed spec fn view(&self) -> Seq<char> {
        self.0@
    }
}

impl Clone for PassId {
    fn clone(&self) -> (r: Self)
        ensures
            r@ == self@,
    {
        PassId(self.0.clone())
    }
}

impl PartialEq for PassId {
    fn eq(&self, other: &PassId) -> (r: bool) {
        self.0 == other.0
    }
}

impl vstd::std_specs::cmp::PartialEqSpecImpl for PassId {
    open spec fn obeys_eq_spec() -> bool {
        true
    }

    open spec fn eq_spec(&self, other: &PassId) -> bool {
        self@ == other@
    }
}

impl PassId {
    pub fn new(name: &str) -> (r: Self)
        ensures
            r@ == name@,
    {
        PassId(name.to_owned())
    }

    /// The pass name this identifier wraps.
    pub fn as_str(&self) -> (r: &str)
        ensures
            r@ == self@,
    {
        self.0.as_str()
    }
}

/// Identifier for a logical resource slot within the graph. Two passes that
/// use the same `ResourceId` depend on the same slot, whatever backend
/// object happens to sit behind it in a given frame.
#[derive(Debug, Eq, Hash)]
pub struct ResourceId(String);

impl View for ResourceId {
    type V = Seq<char>;

    closed spec fn view(&self) -> Seq<char> {
        self.0@
    }
}

impl Clone for ResourceId {
    fn clone(&self) -> (r: Self)
        ensures
            r@ == self@,
    {
        ResourceId(self.0.clone())
    }
}

impl PartialEq for ResourceId {
    fn eq(&self, other: &ResourceId) -> (r: bool) {
        self.0 == other.0
    }
}

impl vstd::std_specs::cmp::PartialEqSpecImpl for ResourceId {
    open spec fn obeys_eq_spec() -> bool {
        true
    }

    open spec fn eq_spec(&self, other: &ResourceId) -> bool {
        self@ == other@
    }
}

impl ResourceId {
    pub fn new(name: &str) -> (r: Self)
        ensures
            r@ == name@,
    {
        ResourceId(name.to_owned())
    }

    /// The slot name this identifier wraps.
    pub fn as_str(&self) -> (r: &str)
        ensures
            r@ == self@,
    {
        self.0.as_str()
    }
}

/// How a pass uses a resource.
#[derive(Debug, PartialEq, Eq, Structural)]
pub enum ResourceUsage {
    Read,
    Write,
    ReadWrite,
}

impl Clone for ResourceUsage {
    fn clone(&self) -> (r: Self)
        ensures
            r == *self,
    {
        match self {
            ResourceUsage::Read => ResourceUsage::Read,
            ResourceUsage::Write => ResourceUsage::Write,
            ResourceUsage::ReadWrite => ResourceUsage::ReadWrite,
        }
    }
}

/// Resource declaration for a render pass.
#[derive(Debug)]
pub struct ResourceDeclaration {
    pub id: ResourceId,
    pub usage: ResourceUsage,
}

impl Clone for ResourceDeclaration {
    fn clone(&self) -> (r: Self)
        ensures
            r.id@ == self.id@,
            r.usage == self.usage,
    {
        ResourceDeclaration { id: self.id.clone(), usage: self.usage.clone() }
    }
}

/// Errors that can occur during render graph operations.
#[derive(Debug)]
pub enum RenderGraphError {
    CyclicDependency,
    PassNotFound(PassId),
    ResourceNotFound(ResourceId),
    CompilationFailed(String),
    ExecutionFailed(String),
}

impl RenderGraphError {
    /// A human-readable description of the error.
    pub fn message(&self) -> (r: String)
        ensures
            (self is CyclicDependency ==> r@ == "Cyclic dependency detected in render graph"@),
            (self matches RenderGraphError::PassNotFound(id) ==> r@ == "Render pass not found: "@
                + id@),
            (self matches RenderGraphError::ResourceNotFound(id) ==> r@
                == "Resource not found: "@ + id@),
            (self matches RenderGraphError::CompilationFailed(m) ==> r@
                == "Render graph compilation failed: "@ + m@),
            (self matches RenderGraphError::ExecutionFailed(m) ==> r@
                == "Render graph execution failed: "@ + m@),
    {
        match self {
            RenderGraphError::CyclicDependency => {
                "Cyclic dependency detected in render graph".to_owned()
            },
            RenderGraphError::PassNotFound(id) => {
                "Render pass not found: ".to_owned().concat(id.as_str())
            },
            RenderGraphError::ResourceNotFound(id) => {
                "Resource not found: ".to_owned().concat(id.as_str())
            },
            RenderGraphError::CompilationFailed(m) => {
                "Render graph compilation failed: ".to_owned().concat(m.as_str())
            },
            RenderGraphError::ExecutionFailed(m) => {
                "Render graph execution failed: ".to_owned().concat(m.as_str())
            },
        }
    }
}

/// Whether a declaration with this usage writes its resource.
pub open spec fn usage_writes(u: ResourceUsage) -> bool {
    u is Write || u is ReadWrite
}

/// Whether a declaration with this usage reads its resource.
pub open spec fn usage_reads(u: ResourceUsage) -> bool {
    u is Read || u is ReadWrite
}

/// The set of resource names a declaration list writes.
pub open spec fn writes_of(decls: Seq<ResourceDeclaration>) -> Set<Seq<char>> {
    Set::new(
        |res: Seq<char>|
            exists|j: int|
                0 <= j < decls.len() && (#[trigger] decls[j]).id@ == res && usage_writes(
                    decls[j].usage,
                ),
    )
}

/// The set of resource names a declaration list reads.
pub open spec fn reads_of(decls: Seq<ResourceDeclaration>) -> Set<Seq<char>> {
    Set::new(
        |res: Seq<char>|
            exists|j: int|
                0 <= j < decls.len() && (#[trigger] decls[j]).id@ == res && usage_reads(
                    decls[j].usage,
                ),
    )
}

/// Appending a declaration adds its resource to the written (read) set
/// exactly when its usage writes (reads).
pub proof fn lemma_usage_sets_of_push(decls: Seq<ResourceDeclaration>, d: ResourceDeclaration)
    ensures
        writes_of(decls.push(d)) == if usage_writes(d.usage) {
            writes_of(decls).insert(d.id@)
        } else {
            writes_of(decls)
        },
        reads_of(decls.push(d)) == if usage_reads(d.usage) {
            reads_of(decls).insert(d.id@)
        } else {
            reads_of(decls)
        },
{
    let s1 = decls.push(d);
    let n = decls.len() as int;
    assert(forall|j: int| 0 <= j < n ==> s1[j] == decls[j]);
    assert(s1[n] == d);
    assert forall|res: Seq<char>| #[trigger] writes_of(s1).contains(res) implies writes_of(
        decls,
    ).contains(res) || (usage_writes(d.usage) && res == d.id@) by {
        let j = choose|j: int|
            0 <= j < s1.len() && (#[trigger] s1[j]).id@ == res && usage_writes(s1[j].usage);
        if j < n {
            assert(decls[j].id@ == res && usage_writes(decls[j].usage));
        }
    }
    assert forall|res: Seq<char>| #[trigger] writes_of(decls).contains(res) implies writes_of(
        s1,
    ).contains(res) by {
        let j = choose|j: int|
            0 <= j < decls.len() && (#[trigger] decls[j]).id@ == res && usage_writes(
                decls[j].usage,
            );
        assert(s1[j].id@ == res && usage_writes(s1[j].usage));
    }
    assert forall|res: Seq<char>| #[trigger] reads_of(s1).contains(res) implies reads_of(
        decls,
    ).contains(res) || (usage_reads(d.usage) && res == d.id@) by {
        let j = choose|j: int|
            0 <= j < s1.len() && (#[trigger] s1[j]).id@ == res && usage_reads(s1[j].usage);
        if j < n {
            assert(decls[j].id@ == res && usage_reads(decls[j].usage));
        }
    }
    assert forall|res: Seq<char>| #[trigger] reads_of(decls).contains(res) implies reads_of(
        s1,
    ).contains(res) by {
        let j = choose|j: int|
            0 <= j < decls.len() && (#[trigger] decls[j]).id@ == res && usage_reads(
                decls[j].usage,
            );
        assert(s1[j].id@ == res && usage_reads(s1[j].usage));
    }
    if usage_writes(d.usage) {
        assert(writes_of(s1).contains(d.id@)) by {
            assert(s1[n].id@ == d.id@ && usage_writes(s1[n].usage));
        }
        assert(writes_of(s1) =~= writes_of(decls).insert(d.id@));
    } else {
        assert(writes_of(s1) =~= writes_of(decls));
    }
    if usage_reads(d.usage) {
        assert(reads_of(s1).contains(d.id@)) by {
            assert(s1[n].id@ == d.id@ && usage_reads(s1[n].usage));
        }
        assert(reads_of(s1) =~= reads_of(decls).insert(d.id@));
    } else {
        assert(reads_of(s1) =~= reads_of(decls));
    }
}

/// Two declaration lists equal in names and usages declare the same
/// written and read sets.
pub proof fn lemma_usage_sets_from_fields(a: Seq<ResourceDeclaration>, b: Seq<ResourceDeclaration>)
    requires
        a.len() == b.len(),
        forall|i: int|
            0 <= i < a.len() ==> (#[trigger] a[i]).id@ == b[i].id@ && a[i].usage == b[i].usage,
    ensures
        writes_of(a) == writes_of(b),
        reads_of(a) == reads_of(b),
{
    assert forall|res: Seq<char>| #[trigger] writes_of(a).contains(res) implies writes_of(
        b,
    ).contains(res) by {
        let j = choose|j: int|
            0 <= j < a.len() && (#[trigger] a[j]).id@ == res && usage_writes(a[j].usage);
        assert(b[j].id@ == res && usage_writes(b[j].usage));
    }
    assert forall|res: Seq<char>| #[trigger] writes_of(b).contains(res) implies writes_of(
        a,
    ).contains(res) by {
        let j = choose|j: int|
            0 <= j < b.len() && (#[trigger] b[j]).id@ == res && usage_writes(b[j].usage);
        assert(a[j].id@ == res && usage_writes(a[j].usage));
    }
    assert forall|res: Seq<char>| #[trigger] reads_of(a).contains(res) implies reads_of(
        b,
    ).contains(res) by {
        let j = choose|j: int|
            0 <= j < a.len() && (#[trigger] a[j]).id@ == res && usage_reads(a[j].usage);
        assert(b[j].id@ == res && usage_reads(b[j].usage));
    }
    assert forall|res: Seq<char>| #[trigger] reads_of(b).contains(res) implies reads_of(
        a,
    ).contains(res) by {
        let j = choose|j: int|
            0 <= j < b.len() && (#[trigger] b[j]).id@ == res && usage_reads(b[j].usage);
        assert(a[j].id@ == res && usage_reads(a[j].usage));
    }
    assert(writes_of(a) =~= writes_of(b));
    assert(reads_of(a) =~= reads_of(b));
}

/// What the graph knows about one pass: its name and the resource names it
/// declared as written and read.
pub struct PassModel {
    pub id: Seq<char>,
    pub writes: Set<Seq<char>>,
    pub reads: Set<Seq<char>>,
}

/// A dependency edge from pass `w` to pass `r`: `r` reads a resource that
/// `w` writes, so `r` must run no earlier than `w`.
pub open spec fn edge(g: Seq<PassModel>, w: int, r: int) -> bool {
    &&& 0 <= w < g.len()
    &&& 0 <= r < g.len()
    &&& w != r
    &&& exists|res: Seq<char>|
        (#[trigger] g[w].writes.contains(res)) && g[r].reads.contains(res)
}

/// `ord` is a complete execution order for the passes `g`: it lists every
/// pass exactly once, and every dependency edge points forward in it.
pub open spec fn is_execution_order(g: Seq<PassModel>, ord: Seq<int>) -> bool {
    &&& ord.len() == g.len()
    &&& forall|p: int| 0 <= p < ord.len() ==> 0 <= #[trigger] ord[p] < g.len()
    &&& ord.no_duplicates()
    &&& forall|v: int| 0 <= v < g.len() ==> ord.contains(v)
    &&& forall|p: int, q: int|
        0 <= p < ord.len() && 0 <= q < ord.len() && edge(g, ord[p], ord[q]) ==> p < q
}

/// A non-empty set of passes each of which depends on another pass in the
/// set. No execution order can schedule any of them first, so such a set
/// witnesses a dependency cycle.
pub open spec fn is_stuck_set(g: Seq<PassModel>, s: Set<int>) -> bool {
    &&& exists|i: int| s.contains(i)
    &&& forall|i: int| #[trigger] s.contains(i) ==> 0 <= i < g.len()
    &&& forall|i: int| #[trigger] s.contains(i) ==> exists|j: int| s.contains(j) && edge(g, j, i)
}

/// The declared dependencies are cyclic.
pub open spec fn has_cycle(g: Seq<PassModel>) -> bool {
    exists|s: Set<int>| is_stuck_set(g, s)
}

/// The position at which an order schedules pass `v`.
pub open spec fn position_in(ord: Seq<int>, v: int) -> int {
    choose|p: int| 0 <= p < ord.len() && ord[p] == v
}

/// No prefix of an execution order contains a member of a stuck set: each
/// stuck pass waits on another stuck pass, so the earliest-scheduled one
/// would have a dependency scheduled even earlier, inside the set again.
proof fn lemma_stuck_set_unscheduled(g: Seq<PassModel>, ord: Seq<int>, s: Set<int>, k: int)
    requires
        is_execution_order(g, ord),
        is_stuck_set(g, s),
        0 <= k <= ord.len(),
    ensures
        forall|p: int| 0 <= p < k ==> !s.contains(#[trigger] ord[p]),
    decreases k,
{
    if k > 0 {
        lemma_stuck_set_unscheduled(g, ord, s, k - 1);
        if s.contains(ord[k - 1]) {
            let j = choose|j: int| s.contains(j) && edge(g, j, ord[k - 1]);
            let pj = choose|p: int| 0 <= p < ord.len() && ord[p] == j;
            assert(ord.contains(j));
            assert(edge(g, ord[pj], ord[k - 1]));
            assert(pj < k - 1);
            assert(!s.contains(ord[pj]));
            assert(false);
        }
    }
}

/// A set of passes with a complete execution order has no stuck set: in
/// particular, any graph that compiles is free of dependency cycles.
pub proof fn lemma_execution_order_excludes_cycle(g: Seq<PassModel>, ord: Seq<int>)
    requires
        is_execution_order(g, ord),
    ensures
        !has_cycle(g),
{
    if has_cycle(g) {
        let s = choose|s: Set<int>| is_stuck_set(g, s);
        let u = choose|i: int| s.contains(i);
        assert(ord.contains(u));
        let p = choose|p: int| 0 <= p < ord.len() && ord[p] == u;
        lemma_stuck_set_unscheduled(g, ord, s, ord.len() as int);
        assert(!s.contains(ord[p]));
        assert(false);
    }
}

/// In any execution order, a pass that writes a resource is scheduled
/// before every other pass that reads that resource.
pub proof fn lemma_order_respects_dependencies(
    g: Seq<PassModel>,
    ord: Seq<int>,
    w: int,
    r: int,
    res: Seq<char>,
)
    requires
        is_execution_order(g, ord),
        0 <= w < g.len(),
        0 <= r < g.len(),
        w != r,
        g[w].writes.contains(res),
        g[r].reads.contains(res),
    ensures
        0 <= position_in(ord, w) < ord.len(),
        0 <= position_in(ord, r) < ord.len(),
        ord[position_in(ord, w)] == w,
        ord[position_in(ord, r)] == r,
        position_in(ord, w) < position_in(ord, r),
{
    assert(ord.contains(w));
    assert(ord.contains(r));
    let pw = position_in(ord, w);
    let pr = position_in(ord, r);
    assert(0 <= pw < ord.len() && ord[pw] == w);
    assert(0 <= pr < ord.len() && ord[pr] == r);
    assert(edge(g, ord[pw], ord[pr]));
}

/// The capability a render pass offers the graph: a stable identifier, its
/// resource declarations, a one-time initialization step, and the execution
/// step that records the pass's work into the shared command encoder.
pub trait RenderPass: Send + Sync {
    /// The pass name, as the graph's contracts see it. A pass type that
    /// wants the graph's contracts to speak of it precisely overrides
    /// this; by default the name is left unspecified.
    open spec fn spec_id(&self) -> Seq<char> {
        arbitrary()
    }

    /// The resource names this pass declares it writes.
    open spec fn spec_writes(&self) -> Set<Seq<char>> {
        arbitrary()
    }

    /// The resource names this pass declares it reads.
    open spec fn spec_reads(&self) -> Set<Seq<char>> {
        arbitrary()
    }

    /// Get the unique identifier for this pass.
    fn id(&self) -> (r: PassId)
        ensures
            r@ == self.spec_id(),
    ;

    /// Get the resource declarations for this pass.
    fn resources(&self) -> (r: Vec<ResourceDeclaration>)
        ensures
            writes_of(r@) == self.spec_writes(),
            reads_of(r@) == self.spec_reads(),
    ;

    /// Initialize the render pass with GPU resources (called once before
    /// first execution).
    fn initialize(
        &mut self,
        device: &wgpu::Device,
        resource_manager: &ResourceManager,
    ) -> Result<(), RenderGraphError>;

    /// Execute the render pass, recording its work into `encoder`.
    fn execute(
        &self,
        device: &wgpu::Device,
        queue: &wgpu::Queue,
        resource_manager: &ResourceManager,
        encoder: &mut wgpu::CommandEncoder,
    ) -> Result<(), RenderGraphError>;
}


/// Compiled render graph: an immutable snapshot of a valid execution order,
/// plus, for diagnostics, which passes write each resource.
pub struct CompiledRenderGraph {
    passes: Vec<PassId>,
    resource_dependencies: Vec<(ResourceId, Vec<PassId>)>,
    order: Ghost<Seq<int>>,
}

impl CompiledRenderGraph {
    /// The scheduled pass indices, in execution order.
    pub closed spec fn spec_order(&self) -> Seq<int> {
        self.order@
    }

}

/// Dynamic render graph that manages render passes and their dependencies.
///
/// The pass name and declarations are snapshotted into plain tables when a
/// pass is added, so the schedule cannot drift from what was declared even
/// if a pass object later changes its answers. The three tables line up
/// index for index.
pub struct RenderGraph {
    ids: Vec<PassId>,
    declarations: Vec<Vec<ResourceDeclaration>>,
    passes: Vec<Box<dyn RenderPass>>,
    compiled: Option<CompiledRenderGraph>,
}

impl RenderGraph {
    /// The declaration set the graph currently holds, in insertion order.
    pub closed spec fn passes_view(&self) -> Seq<PassModel> {
        Seq::new(
            self.ids@.len(),
            |i: int|
                PassModel {
                    id: self.ids@[i]@,
                    writes: writes_of(self.declarations@[i]@),
                    reads: reads_of(self.declarations@[i]@),
                },
        )
    }

    /// Whether the graph holds a compiled schedule for its current passes.
    pub closed spec fn spec_compiled(&self) -> bool {
        self.compiled is Some
    }

    /// The compiled schedule, as pass indices into `passes_view`.
    pub closed spec fn compiled_order(&self) -> Seq<int> {
        self.compiled->Some_0.spec_order()
    }

    spec fn compiled_matches(g: Seq<PassModel>, c: CompiledRenderGraph) -> bool {
        &&& is_execution_order(g, c.order@)
        &&& c.passes@.len() == c.order@.len()
        &&& forall|p: int| 0 <= p < c.order@.len() ==> c.passes@[p]@ == g[c.order@[p]].id
    }

    spec fn tables_line_up(&self) -> bool {
        self.declarations@.len() == self.ids@.len()
    }

    /// Pass names are unique, and any cached schedule is a valid execution
    /// order for exactly the current pass set.
    pub closed spec fn wf(&self) -> bool {
        &&& self.tables_line_up()
        &&& forall|i: int, j: int|
            0 <= i < j < self.passes_view().len() ==> self.passes_view()[i].id
                != self.passes_view()[j].id
        &&& match self.compiled {
            Some(c) => Self::compiled_matches(self.passes_view(), c),
            None => true,
        }
    }

    /// Create a new, empty render graph.
    pub fn new() -> (g: Self)
        ensures
            g.wf(),
            g.passes_view() == Seq::<PassModel>::empty(),
            !g.spec_compiled(),
    {
        let g = RenderGraph {
            ids: Vec::new(),
            declarations: Vec::new(),
            passes: Vec::new(),
            compiled: None,
        };
        proof {
            assert(g.passes_view() =~= Seq::<PassModel>::empty());
        }
        g
    }

    /// Add a render pass to the graph, replacing any pass with the same id.
    /// Any compiled schedule is invalidated.
    pub fn add_pass(&mut self, pass: Box<dyn RenderPass>)
        requires
            old(self).wf(),
        ensures
            final(self).wf(),
            !final(self).spec_compiled(),
            ({
                let m = PassModel {
                    id: pass.spec_id(),
                    writes: pass.spec_writes(),
                    reads: pass.spec_reads(),
                };
                let g = old(self).passes_view();
                if exists|k: int| 0 <= k < g.len() && g[k].id == m.id {
                    final(self).passes_view() == g.update(
                        choose|k: int| 0 <= k < g.len() && g[k].id == m.id,
                        m,
                    )
                } else {
                    final(self).passes_view() == g.push(m)
                }
            }),
    {
        let id = pass.id();
        let decls = pass.resources();
        let ghost g0 = self.passes_view();
        let ghost m = PassModel { id: id@, writes: writes_of(decls@), reads: reads_of(decls@) };
        let n = self.ids.len();
        let mut k: usize = 0;
        while k < n
            invariant
                k <= n,
                n == self.ids@.len(),
                old(self).tables_line_up(),
                forall|t: int| 0 <= t < k ==> self.passes_view()[t].id != id@,
                self.ids@ == old(self).ids@,
                self.declarations@ == old(self).declarations@,
                self.compiled == old(self).compiled,
                old(self).wf(),
                self.passes_view() == g0,
                forall|i: int, j: int| 0 <= i < j < g0.len() ==> g0[i].id != g0[j].id,
                m == (PassModel { id: id@, writes: writes_of(decls@), reads: reads_of(decls@) }),
                id@ == pass.spec_id(),
                writes_of(decls@) == pass.spec_writes(),
                reads_of(decls@) == pass.spec_reads(),
            decreases n - k,
        {
            if self.ids[k] == id {
                let ghost ids0 = self.ids@;
                let ghost decls0 = self.declarations@;
                let ghost idsnap = id;
                let ghost declsnap = decls;
                proof {
                    assert(self.passes_view()[k as int].id == self.ids@[k as int]@);
                    assert(g0[k as int].id == m.id);
                    assert forall|i: int| 0 <= i < g0.len() implies g0[i] == (PassModel {
                        id: ids0[i]@,
                        writes: writes_of(decls0[i]@),
                        reads: reads_of(decls0[i]@),
                    }) by {
                        assert(g0[i] == self.passes_view()[i]);
                    }
                }
                self.ids.set(k, id);
                self.declarations.set(k, decls);
                // The pass object sits at the same index as its id; the guard
                // keeps the access bounds-checked.
                if k < self.passes.len() {
                    let slot = &mut self.passes[k];
                    *slot = pass;
                }
                self.compiled = None;
                proof {
                    assert(self.ids@ == ids0.update(k as int, idsnap));
                    assert(self.declarations@ == decls0.update(k as int, declsnap));
                    assert forall|i: int| 0 <= i < self.ids@.len() implies self.passes_view()[i]
                        == g0.update(k as int, m)[i] by {
                        if i == k {
                            assert(ids0.update(k as int, idsnap)[i] == idsnap);
                            assert(decls0.update(k as int, declsnap)[i] == declsnap);
                        } else {
                            assert(ids0.update(k as int, idsnap)[i] == ids0[i]);
                            assert(decls0.update(k as int, declsnap)[i] == decls0[i]);
                        }
                    }
                    assert(self.passes_view() =~= g0.update(k as int, m));
                    let kk = choose|t: int| 0 <= t < g0.len() && g0[t].id == m.id;
                    if kk != k {
                        assert(g0[kk].id == g0[k as int].id);
                        assert(false);
                    }
                }
                return ;
            }
            k = k + 1;
        }
        let ghost ids0 = self.ids@;
        let ghost decls0 = self.declarations@;
        let ghost idsnap = id;
        let ghost declsnap = decls;
        proof {
            assert forall|i: int| 0 <= i < g0.len() implies g0[i] == (PassModel {
                id: ids0[i]@,
                writes: writes_of(decls0[i]@),
                reads: reads_of(decls0[i]@),
            }) by {
                assert(g0[i] == self.passes_view()[i]);
            }
        }
        self.ids.push(id);
        self.declarations.push(decls);
        self.passes.push(pass);
        self.compiled = None;
        proof {
            assert(self.ids@ == ids0.push(idsnap));
            assert(self.declarations@ == decls0.push(declsnap));
            assert forall|i: int| 0 <= i < self.ids@.len() implies self.passes_view()[i]
                == g0.push(m)[i] by {
                if i < g0.len() {
                    assert(ids0.push(idsnap)[i] == ids0[i]);
                    assert(decls0.push(declsnap)[i] == decls0[i]);
                } else {
                    assert(ids0.push(idsnap)[i] == idsnap);
                    assert(decls0.push(declsnap)[i] == declsnap);
                }
            }
            assert(self.passes_view() =~= g0.push(m));
            if exists|t: int| 0 <= t < g0.len() && g0[t].id == m.id {
                let t = choose|t: int| 0 <= t < g0.len() && g0[t].id == m.id;
                assert(false);
            }
        }
    }

    /// Remove a render pass from the graph. Returns whether a pass with
    /// that id was present; if one was, the compiled schedule is invalidated.
    pub fn remove_pass(&mut self, id: &PassId) -> (removed: bool)
        requires
            old(self).wf(),
        ensures
            final(self).wf(),
            removed == exists|k: int|
                0 <= k < old(self).passes_view().len() && old(self).passes_view()[k].id == id@,
            removed ==> !final(self).spec_compiled() && exists|k: int|
                {
                    &&& 0 <= k < old(self).passes_view().len()
                    &&& old(self).passes_view()[k].id == id@
                    &&& final(self).passes_view() == old(self).passes_view().remove(k)
                },
            !removed ==> {
                &&& final(self).passes_view() == old(self).passes_view()
                &&& final(self).spec_compiled() == old(self).spec_compiled()
                &&& final(self).compiled_order() == old(self).compiled_order()
            },
    {
        let ghost g0 = self.passes_view();
        let n = self.ids.len();
        let mut k: usize = 0;
        while k < n
            invariant
                k <= n,
                n == self.ids@.len(),
                old(self).tables_line_up(),
                forall|t: int| 0 <= t < k ==> self.passes_view()[t].id != id@,
                self.ids@ == old(self).ids@,
                self.declarations@ == old(self).declarations@,
                self.compiled == old(self).compiled,
                old(self).wf(),
                self.passes_view() == g0,
                forall|i: int, j: int| 0 <= i < j < g0.len() ==> g0[i].id != g0[j].id,
            decreases n - k,
        {
            if self.ids[k] == *id {
                let ghost ids0 = self.ids@;
                let ghost decls0 = self.declarations@;
                proof {
                    assert(self.passes_view()[k as int].id == self.ids@[k as int]@);
                    assert(g0[k as int].id == id@);
                    assert forall|i: int| 0 <= i < g0.len() implies g0[i] == (PassModel {
                        id: ids0[i]@,
                        writes: writes_of(decls0[i]@),
                        reads: reads_of(decls0[i]@),
                    }) by {
                        assert(g0[i] == self.passes_view()[i]);
                    }
                }
                self.ids.remove(k);
                self.declarations.remove(k);
                // Keep the object table in step with the id table.
                if k < self.passes.len() {
                    self.passes.remove(k);
                }
                self.compiled = None;
                proof {
                    assert(self.ids@ == ids0.remove(k as int));
                    assert(self.declarations@ == decls0.remove(k as int));
                    assert forall|i: int| 0 <= i < self.ids@.len() implies self.passes_view()[i]
                        == g0.remove(k as int)[i] by {
                        if i < k {
                            assert(ids0.remove(k as int)[i] == ids0[i]);
                            assert(decls0.remove(k as int)[i] == decls0[i]);
                            assert(g0.remove(k as int)[i] == g0[i]);
                        } else {
                            assert(ids0.remove(k as int)[i] == ids0[i + 1]);
                            assert(decls0.remove(k as int)[i] == decls0[i + 1]);
                            assert(g0.remove(k as int)[i] == g0[i + 1]);
                        }
                    }
                    assert(self.passes_view() =~= g0.remove(k as int));
                }
                return true;
            }
            k = k + 1;
        }
        false
    }

    /// Clear all passes from the graph.
    pub fn clear(&mut self)
        ensures
            final(self).wf(),
            final(self).passes_view() == Seq::<PassModel>::empty(),
            !final(self).spec_compiled(),
    {
        self.ids = Vec::new();
        self.declarations = Vec::new();
        self.passes = Vec::new();
        self.compiled = None;
        proof {
            assert(self.passes_view() =~= Seq::<PassModel>::empty());
        }
    }

    /// Get the number of passes in the graph.
    pub fn pass_count(&self) -> (n: usize)
        ensures
            n == self.passes_view().len(),
    {
        self.ids.len()
    }

    /// Check if the graph is compiled.
    pub fn is_compiled(&self) -> (r: bool)
        ensures
            r == self.spec_compiled(),
    {
        self.compiled.is_some()
    }

    /// Get the execution order of passes (only available after compilation):
    /// the scheduled pass names, every pass exactly once, dependencies
    /// always before their dependents.
    pub fn execution_order(&self) -> (r: Option<&[PassId]>)
        requires
            self.wf(),
        ensures
            match r {
                Some(s) => {
                    &&& self.spec_compiled()
                    &&& is_execution_order(self.passes_view(), self.compiled_order())
                    &&& s@.len() == self.compiled_order().len()
                    &&& forall|p: int|
                        0 <= p < s@.len() ==> s@[p]@ == self.passes_view()[self.compiled_order()[p]].id
                },
                None => !self.spec_compiled(),
            },
    {
        match &self.compiled {
            Some(c) => Some(c.passes.as_slice()),
            None => None,
        }
    }

    /// Initialize all render passes with GPU resources. The graph structure
    /// and any compiled schedule are untouched; on an empty graph there is
    /// nothing to do and the call succeeds. Otherwise the first pass
    /// failure is returned and later passes are left uninitialized.
    pub fn initialize_passes(
        &mut self,
        device: &wgpu::Device,
        resource_manager: &ResourceManager,
    ) -> (r: Result<(), RenderGraphError>)
        requires
            old(self).wf(),
        ensures
            final(self).wf(),
            final(self).passes_view() == old(self).passes_view(),
            final(self).spec_compiled() == old(self).spec_compiled(),
            final(self).compiled_order() == old(self).compiled_order(),
            old(self).passes_view().len() == 0 ==> r is Ok,
    {
        let n = self.ids.len();
        let mut i: usize = 0;
        while i < n
            invariant
                i <= n,
                n == self.ids@.len(),
                old(self).wf(),
                self.ids@ == old(self).ids@,
                self.declarations@ == old(self).declarations@,
                self.compiled == old(self).compiled,
            decreases n - i,
        {
            // The pass object sits at the same index as its id; the guard
            // keeps the access bounds-checked.
            if i < self.passes.len() {
                let entry = &mut self.passes[i];
                let r = entry.initialize(device, resource_manager);
                if r.is_err() {
                    proof {
                        assert(self.passes_view() =~= old(self).passes_view());
                    }
                    return r;
                }
            }
            i = i + 1;
        }
        proof {
            assert(self.passes_view() =~= old(self).passes_view());
        }
        Ok(())
    }
}


/// Pass index `v` appears somewhere in the schedule prefix `s`.
pub open spec fn scheduled(s: Seq<usize>, v: int) -> bool {
    exists|p: int| 0 <= p < s.len() && s[p] as int == v
}

/// The schedule prefix as mathematical integers.
pub open spec fn ints_of(s: Seq<usize>) -> Seq<int> {
    Seq::new(s.len(), |p: int| s[p] as int)
}

/// Every id in `ws` names a pass in `g` that writes resource `rid`.
pub open spec fn writer_list_ok(g: Seq<PassModel>, rid: Seq<char>, ws: Seq<PassId>) -> bool {
    forall|t: int|
        0 <= t < ws.len() ==> exists|i: int|
            {
                &&& 0 <= i < g.len()
                &&& g[i].id == (#[trigger] ws[t])@
                &&& g[i].writes.contains(rid)
            }
}

/// A sequence of `n` distinct values drawn from `0..n` contains every value
/// in that range.
proof fn lemma_distinct_range_seq_covers(vals: Seq<int>, n: int)
    requires
        vals.no_duplicates(),
        vals.len() == n,
        forall|p: int| 0 <= p < n ==> 0 <= #[trigger] vals[p] < n,
    ensures
        forall|v: int| 0 <= v < n ==> vals.contains(v),
{
    broadcast use vstd::seq_lib::seq_to_set_is_finite;

    vals.unique_seq_to_set();
    vstd::set_lib::lemma_int_range(0, n);
    assert forall|v: int| 0 <= v < n implies vals.contains(v) by {
        if !vals.contains(v) {
            assert forall|x: int| vals.to_set().contains(x) implies vstd::set_lib::set_int_range(
                0,
                n,
            ).contains(x) by {
                let p = choose|p: int| 0 <= p < vals.len() && vals[p] == x;
                assert(0 <= vals[p] < n);
            }
            vals.to_set().lemma_subset_not_in_lt(vstd::set_lib::set_int_range(0, n), v);
            assert(false);
        }
    }
}

/// A sequence shorter than `n` misses some value in `0..n`.
proof fn lemma_short_seq_misses_value(vals: Seq<int>, n: int)
    requires
        0 <= vals.len() < n,
    ensures
        exists|v: int| 0 <= v < n && !vals.contains(v),
{
    broadcast use vstd::seq_lib::seq_to_set_is_finite;

    if forall|v: int| 0 <= v < n ==> #[trigger] vals.contains(v) {
        vstd::set_lib::lemma_int_range(0, n);
        assert(vstd::set_lib::set_int_range(0, n).subset_of(vals.to_set()));
        vstd::set_lib::lemma_len_subset(vstd::set_lib::set_int_range(0, n), vals.to_set());
        vals.lemma_cardinality_of_set();
        assert(false);
    }
}

/// Pass `i` is ready to be scheduled after the prefix `s`: it is not yet
/// scheduled and every pass it depends on is.
pub open spec fn spec_ready(g: Seq<PassModel>, s: Seq<usize>, i: int) -> bool {
    &&& 0 <= i < g.len()
    &&& !scheduled(s, i)
    &&& forall|j: int| edge(g, j, i) ==> scheduled(s, j)
}

/// Pass `i` is ready to run after the passes in the prefix `ord`: it is
/// not among them and every pass it depends on is.
pub open spec fn ready_after(g: Seq<PassModel>, ord: Seq<int>, i: int) -> bool {
    &&& 0 <= i < g.len()
    &&& !ord.contains(i)
    &&& forall|j: int| edge(g, j, i) ==> ord.contains(j)
}

/// The order schedules, at every step, the earliest-inserted pass that is
/// ready. At most one complete order does so: this is the deterministic
/// tie-break between passes with no dependency between them.
pub open spec fn is_first_ready_order(g: Seq<PassModel>, ord: Seq<int>) -> bool {
    forall|q: int|
        0 <= q < ord.len() ==> {
            &&& ready_after(g, ord.take(q), #[trigger] ord[q])
            &&& forall|t: int| 0 <= t < ord[q] ==> !ready_after(g, ord.take(q), t)
        }
}

proof fn lemma_first_ready_prefix_eq(g: Seq<PassModel>, a: Seq<int>, b: Seq<int>, q: int)
    requires
        is_execution_order(g, a),
        is_first_ready_order(g, a),
        is_execution_order(g, b),
        is_first_ready_order(g, b),
        0 <= q <= a.len(),
    ensures
        a.take(q) == b.take(q),
    decreases q,
{
    if q > 0 {
        lemma_first_ready_prefix_eq(g, a, b, q - 1);
        assert(a.take(q - 1) == b.take(q - 1));
        assert(ready_after(g, a.take(q - 1), a[q - 1]));
        assert(ready_after(g, b.take(q - 1), b[q - 1]));
        if a[q - 1] < b[q - 1] {
            assert(!ready_after(g, b.take(q - 1), a[q - 1]));
            assert(false);
        }
        if b[q - 1] < a[q - 1] {
            assert(!ready_after(g, a.take(q - 1), b[q - 1]));
            assert(false);
        }
        assert forall|p: int| 0 <= p < q implies a.take(q)[p] == b.take(q)[p] by {
            if p < q - 1 {
                assert(a.take(q - 1)[p] == b.take(q - 1)[p]);
            }
        }
        assert(a.take(q) =~= b.take(q));
    } else {
        assert(a.take(0) =~= b.take(0));
    }
}

/// At most one complete execution order schedules, at every step, the
/// earliest-inserted ready pass: the compiled schedule is the unique
/// dependency-respecting insertion-order schedule for its pass set.
pub proof fn lemma_first_ready_order_unique(g: Seq<PassModel>, a: Seq<int>, b: Seq<int>)
    requires
        is_execution_order(g, a),
        is_first_ready_order(g, a),
        is_execution_order(g, b),
        is_first_ready_order(g, b),
    ensures
        a == b,
{
    lemma_first_ready_prefix_eq(g, a, b, a.len() as int);
    assert(a.take(a.len() as int) =~= a);
    assert(b.take(b.len() as int) =~= b);
}

/// A pass is scheduled in a prefix exactly when its index is among the
/// prefix's values read as integers.
proof fn lemma_scheduled_iff_contains(s: Seq<usize>, v: int)
    ensures
        scheduled(s, v) == ints_of(s).contains(v),
{
    if scheduled(s, v) {
        let p = choose|p: int| 0 <= p < s.len() && (#[trigger] s[p]) as int == v;
        assert(ints_of(s)[p] == v);
    }
    if ints_of(s).contains(v) {
        let p = choose|p: int| 0 <= p < ints_of(s).len() && (#[trigger] ints_of(s)[p]) == v;
        assert(s[p] as int == v);
    }
}

/// Readiness agrees between the two readings of a schedule prefix.
proof fn lemma_ready_bridge(g: Seq<PassModel>, s: Seq<usize>, i: int)
    ensures
        spec_ready(g, s, i) == ready_after(g, ints_of(s), i),
{
    lemma_scheduled_iff_contains(s, i);
    if spec_ready(g, s, i) {
        assert forall|j: int| edge(g, j, i) implies ints_of(s).contains(j) by {
            lemma_scheduled_iff_contains(s, j);
        }
        assert(ready_after(g, ints_of(s), i));
    }
    if ready_after(g, ints_of(s), i) {
        assert forall|j: int| edge(g, j, i) implies scheduled(s, j) by {
            lemma_scheduled_iff_contains(s, j);
        }
        assert(spec_ready(g, s, i));
    }
}

/// A well-formed schedule prefix: indices in range, no repeats, and every
/// dependency of a scheduled pass scheduled strictly before it.
spec fn partial_schedule(g: Seq<PassModel>, s: Seq<usize>) -> bool {
    &&& s.len() <= g.len()
    &&& forall|p: int| 0 <= p < s.len() ==> (#[trigger] s[p]) < g.len()
    &&& forall|p: int, q: int| 0 <= p < q < s.len() ==> s[p] != s[q]
    &&& forall|q: int, j: int|
        0 <= q < s.len() && edge(g, j, s[q] as int) ==> exists|p: int|
            0 <= p < q && (#[trigger] s[p]) as int == j
}

/// Appending a ready pass keeps a schedule prefix well-formed.
proof fn lemma_schedule_push(g: Seq<PassModel>, s0: Seq<usize>, s1: Seq<usize>, i: usize)
    requires
        partial_schedule(g, s0),
        s1 == s0.push(i),
        (i as int) < g.len(),
        s0.len() < g.len(),
        !scheduled(s0, i as int),
        forall|j: int| edge(g, j, i as int) ==> scheduled(s0, j),
    ensures
        partial_schedule(g, s1),
{
    assert(forall|p: int| 0 <= p < s0.len() ==> s1[p] == s0[p]);
    assert(s1[s1.len() - 1] == i);
    assert forall|p: int, q: int| 0 <= p < q < s1.len() implies s1[p] != s1[q] by {
        if q == s1.len() - 1 {
            if s1[p] == i {
                assert(scheduled(s0, i as int));
            }
        }
    }
    assert forall|q: int, j: int|
        0 <= q < s1.len() && edge(g, j, s1[q] as int) implies exists|p: int|
        0 <= p < q && (#[trigger] s1[p]) as int == j by {
        if q < s1.len() - 1 {
            assert(edge(g, j, s0[q] as int));
            let p = choose|p: int| 0 <= p < q && (#[trigger] s0[p]) as int == j;
            assert(s1[p] as int == j);
        } else {
            assert(edge(g, j, i as int));
            assert(scheduled(s0, j));
            let p = choose|p: int| 0 <= p < s0.len() && (#[trigger] s0[p]) as int == j;
            assert(s1[p] as int == j);
        }
    }
}

/// Appending the earliest ready pass keeps a schedule an
/// earliest-ready-first order.
proof fn lemma_first_ready_extend(g: Seq<PassModel>, s0: Seq<usize>, s1: Seq<usize>, i: usize)
    requires
        is_first_ready_order(g, ints_of(s0)),
        s1 == s0.push(i),
        spec_ready(g, s0, i as int),
        forall|t: int| 0 <= t < i ==> !spec_ready(g, s0, t),
    ensures
        is_first_ready_order(g, ints_of(s1)),
{
    let o0 = ints_of(s0);
    let o1 = ints_of(s1);
    assert(o1.len() == s0.len() + 1);
    assert(forall|p: int| 0 <= p < s0.len() ==> s1[p] == s0[p]);
    assert(o1[s0.len() as int] == i as int);
    assert forall|q: int| 0 <= q < o1.len() implies {
        &&& ready_after(g, o1.take(q), #[trigger] o1[q])
        &&& forall|t: int| 0 <= t < o1[q] ==> !ready_after(g, o1.take(q), t)
    } by {
        if q < s0.len() {
            assert(o1.take(q) =~= o0.take(q));
            assert(o1[q] == o0[q]);
        } else {
            assert(o1.take(q) =~= o0);
            lemma_ready_bridge(g, s0, i as int);
            assert(ready_after(g, o0, i as int));
            assert forall|t: int| 0 <= t < o1[q] implies !ready_after(g, o1.take(q), t) by {
                lemma_ready_bridge(g, s0, t);
            }
        }
    }
}

/// A full-length schedule prefix is a complete execution order.
proof fn lemma_complete_schedule_is_order(g: Seq<PassModel>, s: Seq<usize>)
    requires
        partial_schedule(g, s),
        s.len() == g.len(),
    ensures
        is_execution_order(g, ints_of(s)),
{
    let ord = ints_of(s);
    assert forall|p: int, q: int|
        0 <= p < ord.len() && 0 <= q < ord.len() && p != q implies ord[p] != ord[q] by {
        if p < q {
            assert(s[p] != s[q]);
        } else {
            assert(s[q] != s[p]);
        }
    }
    assert(ord.no_duplicates());
    lemma_distinct_range_seq_covers(ord, g.len() as int);
    assert forall|p: int, q: int|
        0 <= p < ord.len() && 0 <= q < ord.len() && edge(g, ord[p], ord[q]) implies p < q by {
        let j = ord[p];
        assert(edge(g, j, s[q] as int));
        let p2 = choose|p2: int| 0 <= p2 < q && (#[trigger] s[p2]) as int == j;
        if p2 != p {
            if p2 < p {
                assert(s[p2] != s[p]);
            } else {
                assert(s[p] != s[p2]);
            }
        }
    }
}

/// If the scheduler stalls before placing every pass, the unscheduled
/// passes form a stuck set, so the declarations are cyclic.
proof fn lemma_stalled_schedule_has_cycle(g: Seq<PassModel>, s: Seq<usize>)
    requires
        s.len() < g.len(),
        forall|t: int|
            0 <= t < g.len() && !scheduled(s, t) ==> exists|j: int|
                edge(g, j, t) && !scheduled(s, j),
    ensures
        has_cycle(g),
{
    lemma_short_seq_misses_value(ints_of(s), g.len() as int);
    let stuck = Set::new(|t: int| 0 <= t < g.len() && !scheduled(s, t));
    let v = choose|v: int| 0 <= v < g.len() && !(#[trigger] ints_of(s).contains(v));
    assert(!scheduled(s, v)) by {
        if scheduled(s, v) {
            let pp = choose|pp: int| 0 <= pp < s.len() && (#[trigger] s[pp]) as int == v;
            assert(ints_of(s)[pp] == v);
            assert(ints_of(s).contains(v));
        }
    }
    assert(stuck.contains(v));
    assert forall|t: int| #[trigger] stuck.contains(t) implies exists|j: int|
        stuck.contains(j) && edge(g, j, t) by {
        let j = choose|j: int| edge(g, j, t) && !scheduled(s, j);
        assert(stuck.contains(j) && edge(g, j, t));
    }
    assert(is_stuck_set(g, stuck));
}

/// Whether `v` already appears in the schedule prefix.
fn schedule_contains(s: &Vec<usize>, v: usize) -> (r: bool)
    ensures
        r == scheduled(s@, v as int),
{
    let n = s.len();
    let mut p: usize = 0;
    while p < n
        invariant
            p <= n,
            n == s@.len(),
            forall|t: int| 0 <= t < p ==> #[trigger] s@[t] != v,
        decreases n - p,
    {
        if s[p] == v {
            return true;
        }
        p = p + 1;
    }
    false
}

/// Whether the declaration list reads the given resource.
fn decls_read(decls: &Vec<ResourceDeclaration>, res: &ResourceId) -> (r: bool)
    ensures
        r == reads_of(decls@).contains(res@),
{
    let n = decls.len();
    let mut j: usize = 0;
    while j < n
        invariant
            j <= n,
            n == decls@.len(),
            forall|t: int|
                0 <= t < j ==> !((#[trigger] decls@[t]).id@ == res@ && usage_reads(
                    decls@[t].usage,
                )),
        decreases n - j,
    {
        let d = &decls[j];
        let is_read = match d.usage {
            ResourceUsage::Read => true,
            ResourceUsage::ReadWrite => true,
            ResourceUsage::Write => false,
        };
        if is_read && d.id == *res {
            return true;
        }
        j = j + 1;
    }
    proof {
        if reads_of(decls@).contains(res@) {
            let t = choose|t: int|
                0 <= t < decls@.len() && (#[trigger] decls@[t]).id@ == res@ && usage_reads(
                    decls@[t].usage,
                );
            assert(false);
        }
    }
    false
}

impl RenderGraph {
    /// Whether pass `r` reads any resource that pass `w` writes.
    fn has_edge(&self, w: usize, r: usize) -> (b: bool)
        requires
            self.wf(),
            (w as int) < self.passes_view().len(),
            (r as int) < self.passes_view().len(),
        ensures
            b == edge(self.passes_view(), w as int, r as int),
    {
        let ghost g = self.passes_view();
        if w == r {
            return false;
        }
        proof {
            assert(g[w as int] == self.passes_view()[w as int]);
            assert(g[r as int] == self.passes_view()[r as int]);
        }
        let wd = &self.declarations[w];
        let n = wd.len();
        let mut j: usize = 0;
        while j < n
            invariant
                j <= n,
                n == wd@.len(),
                w != r,
                0 <= w < g.len(),
                0 <= r < g.len(),
                (r as int) < self.declarations@.len(),
                wd@ == self.declarations@[w as int]@,
                g == self.passes_view(),
                g[w as int].writes == writes_of(wd@),
                g[r as int].reads == reads_of(self.declarations@[r as int]@),
                forall|t: int|
                    0 <= t < j ==> !(usage_writes((#[trigger] wd@[t]).usage) && reads_of(
                        self.declarations@[r as int]@,
                    ).contains(wd@[t].id@)),
            decreases n - j,
        {
            let d = &wd[j];
            let is_write = match d.usage {
                ResourceUsage::Write => true,
                ResourceUsage::ReadWrite => true,
                ResourceUsage::Read => false,
            };
            if is_write {
                if decls_read(&self.declarations[r], &d.id) {
                    proof {
                        assert(g[w as int].writes.contains(d.id@));
                        assert(g[r as int].reads.contains(d.id@));
                    }
                    return true;
                }
            }
            j = j + 1;
        }
        proof {
            if edge(g, w as int, r as int) {
                let res = choose|res: Seq<char>|
                    (#[trigger] g[w as int].writes.contains(res)) && g[r as int].reads.contains(
                        res,
                    );
                let t = choose|t: int|
                    0 <= t < wd@.len() && (#[trigger] wd@[t]).id@ == res && usage_writes(
                        wd@[t].usage,
                    );
                assert(false);
            }
        }
        false
    }

    /// Whether every pass that the given pass depends on is already in the
    /// schedule prefix.
    fn deps_scheduled(&self, schedule: &Vec<usize>, i: usize) -> (r: bool)
        requires
            self.wf(),
            (i as int) < self.passes_view().len(),
        ensures
            r == (forall|j: int|
                edge(self.passes_view(), j, i as int) ==> scheduled(schedule@, j)),
    {
        let n = self.ids.len();
        let mut j: usize = 0;
        while j < n
            invariant
                j <= n,
                n == self.ids@.len(),
                n == self.passes_view().len(),
                self.wf(),
                (i as int) < self.passes_view().len(),
                forall|t: int|
                    0 <= t < j && edge(self.passes_view(), t, i as int) ==> scheduled(
                        schedule@,
                        t,
                    ),
            decreases n - j,
        {
            if !schedule_contains(schedule, j) {
                if self.has_edge(j, i) {
                    proof {
                        assert(edge(self.passes_view(), j as int, i as int) && !scheduled(
                            schedule@,
                            j as int,
                        ));
                    }
                    return false;
                }
            }
            j = j + 1;
        }
        proof {
            assert forall|j: int|
                edge(self.passes_view(), j, i as int) implies scheduled(schedule@, j) by {
                assert(0 <= j < n);
            }
        }
        true
    }

    /// Find the earliest-inserted pass that is not yet scheduled and whose
    /// dependencies are all scheduled.
    fn find_ready(&self, schedule: &Vec<usize>) -> (r: Option<usize>)
        requires
            self.wf(),
        ensures
            match r {
                Some(i) => {
                    &&& spec_ready(self.passes_view(), schedule@, i as int)
                    &&& forall|t: int|
                        0 <= t < i ==> !spec_ready(self.passes_view(), schedule@, t)
                },
                None => forall|t: int| !spec_ready(self.passes_view(), schedule@, t),
            },
    {
        let n = self.ids.len();
        let mut i: usize = 0;
        while i < n
            invariant
                i <= n,
                n == self.ids@.len(),
                n == self.passes_view().len(),
                self.wf(),
                forall|t: int| 0 <= t < i ==> !spec_ready(self.passes_view(), schedule@, t),
            decreases n - i,
        {
            if !schedule_contains(schedule, i) {
                if self.deps_scheduled(schedule, i) {
                    return Some(i);
                }
            }
            i = i + 1;
        }
        None
    }

    /// The ids of every pass that writes the given resource, in insertion
    /// order.
    fn writers_of(&self, res: &ResourceId) -> (ws: Vec<PassId>)
        requires
            self.wf(),
        ensures
            writer_list_ok(self.passes_view(), res@, ws@),
    {
        let ghost g = self.passes_view();
        let n = self.ids.len();
        let mut ws: Vec<PassId> = Vec::new();
        let mut i: usize = 0;
        while i < n
            invariant
                i <= n,
                n == self.ids@.len(),
                n == self.passes_view().len(),
                self.wf(),
                g == self.passes_view(),
                writer_list_ok(g, res@, ws@),
            decreases n - i,
        {
            let ghost ws0 = ws@;
            let mut writes_it = false;
            let decls = &self.declarations[i];
            let dn = decls.len();
            let mut j: usize = 0;
            while j < dn
                invariant
                    j <= dn,
                    dn == decls@.len(),
                    writes_it ==> writes_of(decls@).contains(res@),
                decreases dn - j,
            {
                let d = &decls[j];
                let is_write = match d.usage {
                    ResourceUsage::Write => true,
                    ResourceUsage::ReadWrite => true,
                    ResourceUsage::Read => false,
                };
                if is_write && d.id == *res {
                    writes_it = true;
                }
                j = j + 1;
            }
            if writes_it {
                proof {
                    assert(g[i as int] == self.passes_view()[i as int]);
                    assert(g[i as int].writes.contains(res@));
                }
                ws.push(self.ids[i].clone());
                proof {
                    assert forall|t: int| 0 <= t < ws@.len() implies exists|ii: int|
                        {
                            &&& 0 <= ii < g.len()
                            &&& g[ii].id == (#[trigger] ws@[t])@
                            &&& g[ii].writes.contains(res@)
                        } by {
                        if t < ws0.len() {
                            assert(ws@[t] == ws0[t]);
                        } else {
                            assert(ws@[t]@ == g[i as int].id);
                            assert(0 <= i < g.len() && g[i as int].id == ws@[t]@ && g[
                                i as int
                            ].writes.contains(res@));
                        }
                    }
                }
            }
            i = i + 1;
        }
        ws
    }

    /// For diagnostics: each resource that at least one pass writes, with
    /// the ids of all its writers.
    fn build_resource_dependencies(&self) -> (deps: Vec<(ResourceId, Vec<PassId>)>)
        requires
            self.wf(),
        ensures
            forall|e: int|
                0 <= e < deps@.len() ==> writer_list_ok(
                    self.passes_view(),
                    (#[trigger] deps@[e]).0@,
                    deps@[e].1@,
                ),
    {
        let ghost g = self.passes_view();
        let n = self.ids.len();
        let mut deps: Vec<(ResourceId, Vec<PassId>)> = Vec::new();
        let mut i: usize = 0;
        while i < n
            invariant
                i <= n,
                n == self.ids@.len(),
                n == self.passes_view().len(),
                self.wf(),
                g == self.passes_view(),
                forall|e: int|
                    0 <= e < deps@.len() ==> writer_list_ok(g, (#[trigger] deps@[e]).0@, deps@[e].1@),
            decreases n - i,
        {
            let decls = &self.declarations[i];
            let dn = decls.len();
            let mut j: usize = 0;
            while j < dn
                invariant
                    j <= dn,
                    dn == decls@.len(),
                    self.wf(),
                    n == self.passes_view().len(),
                    g == self.passes_view(),
                    forall|e: int|
                        0 <= e < deps@.len() ==> writer_list_ok(
                            g,
                            (#[trigger] deps@[e]).0@,
                            deps@[e].1@,
                        ),
                decreases dn - j,
            {
                let d = &decls[j];
                let is_write = match d.usage {
                    ResourceUsage::Write => true,
                    ResourceUsage::ReadWrite => true,
                    ResourceUsage::Read => false,
                };
                if is_write {
                    let mut seen = false;
                    let en = deps.len();
                    let mut e: usize = 0;
                    while e < en
                        invariant
                            e <= en,
                            en == deps@.len(),
                        decreases en - e,
                    {
                        if deps[e].0 == d.id {
                            seen = true;
                        }
                        e = e + 1;
                    }
                    if !seen {
                        let ghost deps0 = deps@;
                        let ws = self.writers_of(&d.id);
                        deps.push((d.id.clone(), ws));
                        proof {
                            assert forall|t: int|
                                0 <= t < deps@.len() implies writer_list_ok(
                                g,
                                (#[trigger] deps@[t]).0@,
                                deps@[t].1@,
                            ) by {
                                if t < deps0.len() {
                                    assert(deps@[t] == deps0[t]);
                                } else {
                                    assert(deps@[t].0@ == d.id@ && deps@[t].1@ == ws@);
                                }
                            }
                        }
                    }
                }
                j = j + 1;
            }
            i = i + 1;
        }
        deps
    }

    /// Compile the render graph: find an execution order for the declared
    /// passes that schedules every dependency before its dependent, or
    /// report that the declarations are cyclic. Between passes that no
    /// dependency orders, the earliest-inserted one runs first, so the
    /// schedule is the same from frame to frame. On success the order is
    /// cached; on failure the graph stays uncompiled.
    pub fn compile(&mut self) -> (r: Result<(), RenderGraphError>)
        requires
            old(self).wf(),
        ensures
            final(self).wf(),
            final(self).passes_view() == old(self).passes_view(),
            match r {
                Ok(_) => {
                    &&& final(self).spec_compiled()
                    &&& is_execution_order(final(self).passes_view(), final(self).compiled_order())
                    &&& is_first_ready_order(
                        final(self).passes_view(),
                        final(self).compiled_order(),
                    )
                    &&& !has_cycle(old(self).passes_view())
                },
                Err(e) => {
                    &&& e is CyclicDependency
                    &&& has_cycle(old(self).passes_view())
                    &&& !final(self).spec_compiled()
                },
            },
    {
        let ghost g = self.passes_view();
        let n = self.ids.len();
        let mut schedule: Vec<usize> = Vec::new();
        while schedule.len() < n
            invariant_except_break
                n == self.ids@.len(),
                n == self.passes_view().len(),
                self.wf(),
                self.ids@ == old(self).ids@,
                self.declarations@ == old(self).declarations@,
                self.compiled == old(self).compiled,
                g == self.passes_view(),
                old(self).wf(),
                partial_schedule(g, schedule@),
                is_first_ready_order(g, ints_of(schedule@)),
            ensures
                n == self.ids@.len(),
                n == self.passes_view().len(),
                self.wf(),
                self.ids@ == old(self).ids@,
                self.declarations@ == old(self).declarations@,
                self.compiled == old(self).compiled,
                g == self.passes_view(),
                old(self).wf(),
                partial_schedule(g, schedule@),
                is_first_ready_order(g, ints_of(schedule@)),
                schedule@.len() == n || (forall|t: int|
                    0 <= t < n && !scheduled(schedule@, t) ==> exists|j: int|
                        edge(g, j, t) && !scheduled(schedule@, j)),
            decreases n - schedule@.len(),
        {
            let ghost s0 = schedule@;
            match self.find_ready(&schedule) {
                Some(i) => {
                    schedule.push(i);
                    proof {
                        lemma_schedule_push(g, s0, schedule@, i);
                        lemma_first_ready_extend(g, s0, schedule@, i);
                    }
                },
                None => {
                    proof {
                        assert forall|t: int|
                            0 <= t < n && !scheduled(schedule@, t) implies exists|j: int|
                            edge(g, j, t) && !scheduled(schedule@, j) by {
                            assert(!spec_ready(g, schedule@, t));
                        }
                    }
                    break ;
                },
            }
        }
        if schedule.len() == n {
            let ghost ord = ints_of(schedule@);
            proof {
                lemma_complete_schedule_is_order(g, schedule@);
            }
            let mut out: Vec<PassId> = Vec::new();
            let mut p: usize = 0;
            while p < n
                invariant
                    p <= n,
                    n == self.ids@.len(),
                    n == self.passes_view().len(),
                    self.wf(),
                    g == self.passes_view(),
                    n == schedule@.len(),
                    out@.len() == p,
                    partial_schedule(g, schedule@),
                    ord == ints_of(schedule@),
                    forall|t: int| 0 <= t < p ==> (#[trigger] out@[t])@ == g[ord[t]].id,
                decreases n - p,
            {
                let idx = schedule[p];
                let ghost out0 = out@;
                out.push(self.ids[idx].clone());
                proof {
                    assert(forall|t: int| 0 <= t < out0.len() ==> out@[t] == out0[t]);
                    assert(g[ord[p as int]] == self.passes_view()[idx as int]);
                    assert(out@[p as int]@ == g[ord[p as int]].id);
                }
                p = p + 1;
            }
            let resource_dependencies = self.build_resource_dependencies();
            let compiled = CompiledRenderGraph {
                passes: out,
                resource_dependencies,
                order: Ghost(ord),
            };
            self.compiled = Some(compiled);
            proof {
                lemma_execution_order_excludes_cycle(g, ord);
                assert(self.passes_view() =~= g);
            }
            Ok(())
        } else {
            proof {
                lemma_stalled_schedule_has_cycle(g, schedule@);
            }
            self.compiled = None;
            proof {
                assert(self.passes_view() =~= g);
            }
            Err(RenderGraphError::CyclicDependency)
        }
    }

    /// Execute the compiled render graph: open one command recording
    /// context, run every scheduled pass in order, and submit the recorded
    /// batch to the queue exactly once. If the graph is not compiled, or
    /// any pass fails, nothing is submitted. A compiled graph with no
    /// passes has nothing that can fail: the empty batch is submitted and
    /// the call succeeds.
    pub fn execute(
        &self,
        device: &wgpu::Device,
        queue: &mut GpuQueue,
        resource_manager: &ResourceManager,
    ) -> (r: Result<(), RenderGraphError>)
        requires
            self.wf(),
        ensures
            match r {
                Ok(_) => self.spec_compiled() && final(queue).submission_count() == old(
                    queue,
                ).submission_count() + 1,
                Err(e) => {
                    &&& final(queue).submission_count() == old(queue).submission_count()
                    &&& !self.spec_compiled() ==> e is CompilationFailed
                    &&& self.spec_compiled() ==> (e is ExecutionFailed || e is PassNotFound)
                },
            },
            self.spec_compiled() && self.passes_view().len() == 0 ==> r is Ok,
    {
        let compiled = match &self.compiled {
            Some(c) => c,
            None => {
                return Err(RenderGraphError::CompilationFailed("Graph not compiled".to_owned()));
            },
        };
        let mut encoder = gpu::create_command_encoder(device, "Render Graph Command Encoder");
        let np = compiled.passes.len();
        proof {
            assert(np == self.passes_view().len());
        }
        let mut p: usize = 0;
        while p < np
            invariant
                p <= np,
                np == compiled.passes@.len(),
                np == self.passes_view().len(),
                self.spec_compiled(),
                queue.submission_count() == old(queue).submission_count(),
            decreases np - p,
        {
            let pass_id = &compiled.passes[p];
            let mut found: Option<usize> = None;
            let n = self.ids.len();
            let mut k: usize = 0;
            while k < n
                invariant
                    k <= n,
                    n == self.ids@.len(),
                    self.spec_compiled(),
                    queue.submission_count() == old(queue).submission_count(),
                    match found {
                        Some(f) => (f as int) < self.ids@.len(),
                        None => true,
                    },
                decreases n - k,
            {
                if self.ids[k] == *pass_id {
                    found = Some(k);
                }
                k = k + 1;
            }
            match found {
                Some(f) => {
                    if f < self.passes.len() {
                        let res = self.passes[f].execute(
                            device,
                            queue.backend(),
                            resource_manager,
                            &mut encoder,
                        );
                        match res {
                            Ok(_) => {},
                            Err(e) => {
                                let msg = "Pass ".to_owned().concat(pass_id.as_str()).concat(
                                    " failed: ",
                                ).concat(e.message().as_str());
                                return Err(RenderGraphError::ExecutionFailed(msg));
                            },
                        }
                    } else {
                        return Err(RenderGraphError::PassNotFound(pass_id.clone()));
                    }
                },
                None => {
                    return Err(RenderGraphError::PassNotFound(pass_id.clone()));
                },
            }
            p = p + 1;
        }
        queue.submit(gpu::encoder_finish(encoder));
        Ok(())
    }
}

impl Default for RenderGraph {
    fn default() -> (g: Self)
        ensures
            g.wf(),
            g.passes_view() == Seq::<PassModel>::empty(),
            !g.spec_compiled(),
    {
        Self::new()
    }
}

} // verus!
