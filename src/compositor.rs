use vstd::prelude::*;

verus! {

/// Where a layer object's contribution to the presented image comes from.
#[derive(Clone, Copy, Debug, PartialEq, Eq, Structural)]
pub enum Mode {
    /// The layer owns an off-screen cache image, copied whole into the target.
    Copy,
    /// The layer renders straight into the target image every frame.
    Direct,
}

/// The off-screen surface of a cached layer: raw image and memory handles,
/// and whether the image must be re-rendered before the next composite.
#[derive(Clone, Copy, Debug, PartialEq, Eq, Structural)]
pub struct LayerCache {
    pub image: u64,
    pub memory: u64,
    pub damage: bool,
}

/// A registered layer, with the cache it renders into when it has one.
/// Without a cache the layer is live: it renders into the target every frame.
pub struct LayerObject<L> {
    pub layer: L,
    pub cache: Option<LayerCache>,
}

pub open spec fn mode_of<L>(o: LayerObject<L>) -> Mode {
    if o.cache is Some {
        Mode::Copy
    } else {
        Mode::Direct
    }
}

pub open spec fn modes<L>(objs: Seq<LayerObject<L>>) -> Seq<Mode> {
    objs.map_values(|o: LayerObject<L>| mode_of(o))
}

/// True when `o` has a cache whose image is stale.
pub open spec fn is_damaged<L>(o: LayerObject<L>) -> bool {
    o.cache matches Some(c) && c.damage
}

/// `o` with its damage flag, if it has one, set to `damage`.
pub open spec fn with_damage<L>(o: LayerObject<L>, damage: bool) -> LayerObject<L> {
    LayerObject {
        layer: o.layer,
        cache: match o.cache {
            Some(c) => Some(LayerCache { image: c.image, memory: c.memory, damage }),
            None => None,
        },
    }
}

/// Every cached object of `objs` marked damaged.
pub open spec fn all_damaged<L>(objs: Seq<LayerObject<L>>) -> Seq<LayerObject<L>> {
    objs.map_values(|o: LayerObject<L>| with_damage(o, true))
}

/// Every cached object of `objs` marked clean.
pub open spec fn undamaged<L>(objs: Seq<LayerObject<L>>) -> Seq<LayerObject<L>> {
    objs.map_values(|o: LayerObject<L>| with_damage(o, false))
}

/// Image layouts that the frame plan moves images between.
#[derive(Clone, Copy, Debug, PartialEq, Eq, Structural)]
pub enum Layout {
    Undefined,
    TransferDst,
    TransferSrc,
    PresentSrc,
}

/// An image that a barrier applies to.
#[derive(Clone, Copy, Debug, PartialEq, Eq, Structural)]
pub enum ImageRef {
    /// The presentation-target image acquired for this frame.
    Target,
    /// The cache image of the layer object at this index.
    Cache(usize),
}

/// One step of a frame's command recording.
#[derive(Clone, Copy, Debug, PartialEq, Eq, Structural)]
pub enum Command {
    /// Record the drawing commands of layer `layer` into its output number `slot`.
    Render { layer: usize, slot: usize },
    /// A layout transition of one image.
    Barrier { image: ImageRef, from: Layout, to: Layout },
    /// Clear the target image to the background colour; it is in `TransferDst`.
    ClearTarget,
    /// Copy the whole cache image of layer `layer` into the target.
    CopyToTarget { layer: usize },
}

pub open spec fn enter_transfer() -> Command {
    Command::Barrier { image: ImageRef::Target, from: Layout::PresentSrc, to: Layout::TransferDst }
}

pub open spec fn leave_transfer() -> Command {
    Command::Barrier { image: ImageRef::Target, from: Layout::TransferDst, to: Layout::PresentSrc }
}

/// What the re-render pass records for object `i`: a render into its cache when it is damaged.
pub open spec fn rerender_step<L>(objs: Seq<LayerObject<L>>, i: int) -> Seq<Command> {
    if is_damaged(objs[i]) {
        seq![Command::Render { layer: i as usize, slot: 0 }]
    } else {
        seq![]
    }
}

pub open spec fn rerender_prefix<L>(objs: Seq<LayerObject<L>>, n: int) -> Seq<Command>
    decreases n,
{
    if n <= 0 {
        seq![]
    } else {
        rerender_prefix(objs, n - 1) + rerender_step(objs, n - 1)
    }
}

/// The re-render pass: each damaged cache re-rendered, in registration order.
pub open spec fn rerender_pass<L>(objs: Seq<LayerObject<L>>) -> Seq<Command> {
    rerender_prefix(objs, objs.len() as int)
}

/// The target cleared to the background, left presentable.
pub open spec fn clear_pass() -> Seq<Command> {
    seq![
        Command::Barrier { image: ImageRef::Target, from: Layout::Undefined, to: Layout::TransferDst },
        Command::ClearTarget,
        leave_transfer(),
    ]
}

/// What the merge walk records for the object at `i`, given the modes of all objects.
/// The target enters the transfer layout where a run of copies starts and
/// leaves it where a run of direct renders starts.
pub open spec fn merge_step(m: Seq<Mode>, i: int, target: usize) -> Seq<Command> {
    if m[i] == Mode::Copy {
        let enter: Seq<Command> = if i == 0 || m[i - 1] == Mode::Direct {
            seq![enter_transfer()]
        } else {
            seq![]
        };
        enter + seq![
            Command::Barrier {
                image: ImageRef::Cache(i as usize),
                from: Layout::PresentSrc,
                to: Layout::TransferSrc,
            },
            Command::CopyToTarget { layer: i as usize },
        ]
    } else {
        let leave: Seq<Command> = if i > 0 && m[i - 1] == Mode::Copy {
            seq![leave_transfer()]
        } else {
            seq![]
        };
        leave + seq![Command::Render { layer: i as usize, slot: target }]
    }
}

pub open spec fn merge_prefix(m: Seq<Mode>, n: int, target: usize) -> Seq<Command>
    decreases n,
{
    if n <= 0 {
        seq![]
    } else {
        merge_prefix(m, n - 1, target) + merge_step(m, n - 1, target)
    }
}

/// The target left presentable when the last run is a run of copies.
pub open spec fn merge_tail(m: Seq<Mode>) -> Seq<Command> {
    if m.len() > 0 && m.last() == Mode::Copy {
        seq![leave_transfer()]
    } else {
        seq![]
    }
}

/// The merge pass over objects of modes `m` into the target acquired as slot `target`.
pub open spec fn merge_pass(m: Seq<Mode>, target: usize) -> Seq<Command> {
    merge_prefix(m, m.len() as int, target) + merge_tail(m)
}

/// Everything one frame records for `objs`, into the target acquired as slot `target`.
pub open spec fn frame_commands<L>(objs: Seq<LayerObject<L>>, target: usize) -> Seq<Command> {
    rerender_pass(objs) + clear_pass() + merge_pass(modes(objs), target)
}

proof fn lemma_modes_undamaged<L>(objs: Seq<LayerObject<L>>)
    ensures
        modes(undamaged(objs)) == modes(objs),
{
    assert(modes(undamaged(objs)) =~= modes(objs));
}

/// One step of releasing a compositor's GPU resources.
#[derive(Clone, Copy, Debug, PartialEq, Eq, Structural)]
pub enum Teardown {
    /// Wait until the device has finished all submitted work.
    WaitIdle,
    /// Destroy the image with this raw handle.
    DestroyImage(u64),
    /// Free the device memory with this raw handle.
    FreeMemory(u64),
}

/// The resources of one object, destroyed image first, then its memory.
pub open spec fn cache_teardown<L>(o: LayerObject<L>) -> Seq<Teardown> {
    match o.cache {
        Some(c) => seq![Teardown::DestroyImage(c.image), Teardown::FreeMemory(c.memory)],
        None => seq![],
    }
}

pub open spec fn teardown_prefix<L>(objs: Seq<LayerObject<L>>, n: int) -> Seq<Teardown>
    decreases n,
{
    if n <= 0 {
        seq![]
    } else {
        teardown_prefix(objs, n - 1) + cache_teardown(objs[n - 1])
    }
}

/// The device drained first, then every cache released in registration order.
pub open spec fn teardown_plan<L>(objs: Seq<LayerObject<L>>) -> Seq<Teardown> {
    seq![Teardown::WaitIdle] + teardown_prefix(objs, objs.len() as int)
}

impl<L> LayerObject<L> {
    /// A live layer object: no cache, rendered into the target every frame.
    pub fn new(layer: L) -> (r: Self)
        ensures
            r.layer == layer,
            r.cache is None,
    {
        LayerObject { layer, cache: None }
    }

    /// Gives the object the off-screen image `image`, backed by `memory`,
    /// as its cache; the cache starts damaged so that the first frame renders it.
    pub fn build_cache(self, image: u64, memory: u64) -> (r: Self)
        ensures
            r.layer == self.layer,
            r.cache == Some(LayerCache { image, memory, damage: true }),
    {
        LayerObject { layer: self.layer, cache: Some(LayerCache { image, memory, damage: true }) }
    }

    /// Releases the object: the device is drained before its cache, if any, is destroyed.
    pub fn release(self) -> (r: Vec<Teardown>)
        ensures
            r@ == seq![Teardown::WaitIdle] + cache_teardown(self),
    {
        let mut r: Vec<Teardown> = Vec::new();
        r.push(Teardown::WaitIdle);
        if let Some(c) = self.cache {
            r.push(Teardown::DestroyImage(c.image));
            r.push(Teardown::FreeMemory(c.memory));
        }
        assert(r@ =~= seq![Teardown::WaitIdle] + cache_teardown(self));
        r
    }

    pub fn mode(&self) -> (r: Mode)
        ensures
            r == mode_of(*self),
    {
        if self.cache.is_some() {
            Mode::Copy
        } else {
            Mode::Direct
        }
    }
}

/// The ordered layer objects of one presentation surface, back to front.
pub struct LayerCompositor<L> {
    los: Vec<LayerObject<L>>,
}

impl<L> View for LayerCompositor<L> {
    type V = Seq<LayerObject<L>>;

    closed spec fn view(&self) -> Seq<LayerObject<L>> {
        self.los@
    }
}

impl<L> LayerCompositor<L> {
    pub fn new() -> (r: Self)
        ensures
            r@ == Seq::<LayerObject<L>>::empty(),
    {
        LayerCompositor { los: Vec::new() }
    }

    /// Appends a live layer on top; returns its index.
    pub fn new_layer(&mut self, layer: L) -> (idx: usize)
        ensures
            idx == old(self)@.len(),
            final(self)@ == old(self)@.push(LayerObject { layer, cache: None }),
    {
        let idx = self.los.len();
        self.los.push(LayerObject::new(layer));
        idx
    }

    /// Appends on top a layer cached in `image`, backed by `memory`; returns its index.
    pub fn new_cached_layer(&mut self, layer: L, image: u64, memory: u64) -> (idx: usize)
        ensures
            idx == old(self)@.len(),
            final(self)@ == old(self)@.push(
                LayerObject { layer, cache: Some(LayerCache { image, memory, damage: true }) },
            ),
    {
        let idx = self.los.len();
        self.los.push(LayerObject::new(layer).build_cache(image, memory));
        idx
    }

    /// Marks every cached layer for re-rendering.
    pub fn update_all(&mut self)
        ensures
            final(self)@ == all_damaged(old(self)@),
    {
        let ghost orig = self.los@;
        let n = self.los.len();
        let mut i: usize = 0;
        while i < n
            invariant
                n == orig.len(),
                i <= n,
                self.los@.len() == n,
                forall|j: int| 0 <= j < i ==> self.los@[j] == with_damage(orig[j], true),
                forall|j: int| i <= j < n ==> self.los@[j] == orig[j],
            decreases n - i,
        {
            if let Some(c) = self.los[i].cache {
                self.los[i].cache = Some(LayerCache { image: c.image, memory: c.memory, damage: true });
            }
            i += 1;
        }
        assert(self.los@ =~= all_damaged(orig));
    }

    /// Marks the layer at `idx` for re-rendering; a live layer is left as it is.
    pub fn mark_update(&mut self, idx: usize)
        requires
            idx < old(self)@.len(),
        ensures
            final(self)@ == old(self)@.update(idx as int, with_damage(old(self)@[idx as int], true)),
    {
        if let Some(c) = self.los[idx].cache {
            self.los[idx].cache = Some(LayerCache { image: c.image, memory: c.memory, damage: true });
        }
        assert(self.los@ =~= old(self)@.update(idx as int, with_damage(old(self)@[idx as int], true)));
    }

    /// Plans one frame into the target acquired as slot `target`: re-renders the
    /// damaged caches, clearing their damage, clears the target, then merges every
    /// layer into it in registration order.
    pub fn render(&mut self, target: usize) -> (cmds: Vec<Command>)
        ensures
            cmds@ == frame_commands(old(self)@, target),
            final(self)@ == undamaged(old(self)@),
    {
        let ghost orig = self.los@;
        let mut cmds: Vec<Command> = Vec::new();
        let n = self.los.len();
        let mut i: usize = 0;
        while i < n
            invariant
                n == orig.len(),
                i <= n,
                self.los@.len() == n,
                forall|j: int| 0 <= j < i ==> self.los@[j] == with_damage(orig[j], false),
                forall|j: int| i <= j < n ==> self.los@[j] == orig[j],
                cmds@ == rerender_prefix(orig, i as int),
            decreases n - i,
        {
            if let Some(c) = self.los[i].cache {
                if c.damage {
                    cmds.push(Command::Render { layer: i, slot: 0 });
                    self.los[i].cache = Some(LayerCache { image: c.image, memory: c.memory, damage: false });
                }
            }
            i += 1;
        }
        assert(self.los@ =~= undamaged(orig));
        proof {
            lemma_modes_undamaged(orig);
        }
        let ghost m = modes(orig);
        cmds.push(Command::Barrier { image: ImageRef::Target, from: Layout::Undefined, to: Layout::TransferDst });
        cmds.push(Command::ClearTarget);
        cmds.push(Command::Barrier { image: ImageRef::Target, from: Layout::TransferDst, to: Layout::PresentSrc });
        let ghost head = cmds@;
        assert(head =~= rerender_pass(orig) + clear_pass());
        let mut prev_copy = false;
        let mut i: usize = 0;
        while i < n
            invariant
                n == orig.len(),
                m == modes(orig),
                self.los@ == undamaged(orig),
                i <= n,
                prev_copy == (i > 0 && m[i - 1] == Mode::Copy),
                cmds@ == head + merge_prefix(m, i as int, target),
            decreases n - i,
        {
            let ghost before = cmds@;
            if self.los[i].cache.is_some() {
                if !prev_copy {
                    cmds.push(Command::Barrier { image: ImageRef::Target, from: Layout::PresentSrc, to: Layout::TransferDst });
                }
                prev_copy = true;
                cmds.push(Command::Barrier { image: ImageRef::Cache(i), from: Layout::PresentSrc, to: Layout::TransferSrc });
                cmds.push(Command::CopyToTarget { layer: i });
            } else {
                if prev_copy {
                    cmds.push(Command::Barrier { image: ImageRef::Target, from: Layout::TransferDst, to: Layout::PresentSrc });
                }
                prev_copy = false;
                cmds.push(Command::Render { layer: i, slot: target });
            }
            assert(cmds@ =~= before + merge_step(m, i as int, target));
            assert(head + merge_prefix(m, i + 1, target) =~= head + merge_prefix(m, i as int, target) + merge_step(m, i as int, target));
            i += 1;
        }
        if prev_copy {
            cmds.push(Command::Barrier { image: ImageRef::Target, from: Layout::TransferDst, to: Layout::PresentSrc });
        }
        assert(cmds@ =~= frame_commands(orig, target));
        cmds
    }

    /// Releases the compositor: the device is drained once, then each cache is
    /// destroyed, image before memory, in registration order.
    pub fn release(self) -> (r: Vec<Teardown>)
        ensures
            r@ == teardown_plan(self@),
    {
        let mut r: Vec<Teardown> = Vec::new();
        r.push(Teardown::WaitIdle);
        let n = self.los.len();
        let mut i: usize = 0;
        while i < n
            invariant
                n == self.los@.len(),
                i <= n,
                r@ == seq![Teardown::WaitIdle] + teardown_prefix(self.los@, i as int),
            decreases n - i,
        {
            if let Some(c) = self.los[i].cache {
                r.push(Teardown::DestroyImage(c.image));
                r.push(Teardown::FreeMemory(c.memory));
            }
            assert(r@ =~= seq![Teardown::WaitIdle] + teardown_prefix(self.los@, i + 1));
            i += 1;
        }
        r
    }

    pub fn len(&self) -> (r: usize)
        ensures
            r == self@.len(),
    {
        self.los.len()
    }

    pub fn layer(&self, idx: usize) -> (r: &L)
        requires
            idx < self@.len(),
        ensures
            *r == self@[idx as int].layer,
    {
        &self.los[idx].layer
    }

    pub fn cache(&self, idx: usize) -> (r: Option<LayerCache>)
        requires
            idx < self@.len(),
        ensures
            r == self@[idx as int].cache,
    {
        self.los[idx].cache
    }
}

/// True when `c` records drawing commands of layer `i`.
pub open spec fn renders(c: Command, i: int) -> bool {
    c matches Command::Render { layer, .. } && layer as int == i
}

/// True when `c` is a layout transition of the target image.
pub open spec fn is_target_barrier(c: Command) -> bool {
    c matches Command::Barrier { image, .. } && image == ImageRef::Target
}

/// Number of commands of `cmds` that satisfy `p`.
pub open spec fn count(cmds: Seq<Command>, p: spec_fn(Command) -> bool) -> nat
    decreases cmds.len(),
{
    if cmds.len() == 0 {
        0
    } else {
        count(cmds.drop_last(), p) + if p(cmds.last()) {
            1nat
        } else {
            0nat
        }
    }
}

/// Number of commands of `cmds` that draw layer `i`, into any slot.
pub open spec fn render_count(cmds: Seq<Command>, i: int) -> nat {
    count(cmds, |c: Command| renders(c, i))
}

/// Number of layout transitions of the target image in `cmds`.
pub open spec fn target_barrier_count(cmds: Seq<Command>) -> nat {
    count(cmds, |c: Command| is_target_barrier(c))
}

/// The layer indices that `cmds` draws or copies, in the order it does so.
pub open spec fn visited(cmds: Seq<Command>) -> Seq<usize>
    decreases cmds.len(),
{
    if cmds.len() == 0 {
        seq![]
    } else {
        visited(cmds.drop_last()) + match cmds.last() {
            Command::Render { layer, .. } => seq![layer],
            Command::CopyToTarget { layer } => seq![layer],
            _ => Seq::<usize>::empty(),
        }
    }
}

/// True when a maximal run of equal modes starts at `i`.
pub open spec fn starts_run(m: Seq<Mode>, i: int) -> bool {
    i == 0 || m[i] != m[i - 1]
}

pub open spec fn runs_prefix(m: Seq<Mode>, n: int) -> nat
    decreases n,
{
    if n <= 0 {
        0
    } else {
        runs_prefix(m, n - 1) + if starts_run(m, n - 1) {
            1nat
        } else {
            0nat
        }
    }
}

pub open spec fn copy_runs_prefix(m: Seq<Mode>, n: int) -> nat
    decreases n,
{
    if n <= 0 {
        0
    } else {
        copy_runs_prefix(m, n - 1) + if starts_run(m, n - 1) && m[n - 1] == Mode::Copy {
            1nat
        } else {
            0nat
        }
    }
}

/// Number of maximal runs of equal modes in `m`.
pub open spec fn runs(m: Seq<Mode>) -> nat {
    runs_prefix(m, m.len() as int)
}

/// Number of maximal runs of `Copy` in `m`.
pub open spec fn copy_runs(m: Seq<Mode>) -> nat {
    copy_runs_prefix(m, m.len() as int)
}

proof fn lemma_count_concat(a: Seq<Command>, b: Seq<Command>, p: spec_fn(Command) -> bool)
    ensures
        count(a + b, p) == count(a, p) + count(b, p),
    decreases b.len(),
{
    if b.len() > 0 {
        assert((a + b).drop_last() =~= a + b.drop_last());
        lemma_count_concat(a, b.drop_last(), p);
    } else {
        assert(a + b =~= a);
    }
}

proof fn lemma_visited_concat(a: Seq<Command>, b: Seq<Command>)
    ensures
        visited(a + b) == visited(a) + visited(b),
    decreases b.len(),
{
    if b.len() > 0 {
        assert((a + b).drop_last() =~= a + b.drop_last());
        lemma_visited_concat(a, b.drop_last());
        assert(visited(a + b) =~= visited(a) + visited(b));
    } else {
        assert(a + b =~= a);
        assert(visited(a) + visited(b) =~= visited(a));
    }
}

/// Counts of a sequence of at most three commands, one by one.
proof fn lemma_count_small(cmds: Seq<Command>, p: spec_fn(Command) -> bool)
    requires
        cmds.len() <= 3,
    ensures
        count(cmds, p) == (if cmds.len() > 0 && p(cmds[0]) { 1nat } else { 0nat })
            + (if cmds.len() > 1 && p(cmds[1]) { 1nat } else { 0nat })
            + (if cmds.len() > 2 && p(cmds[2]) { 1nat } else { 0nat }),
{
    reveal_with_fuel(count, 4);
    if cmds.len() > 0 {
        assert(cmds.drop_last().len() == cmds.len() - 1);
        if cmds.len() > 1 {
            assert(cmds.drop_last().drop_last().len() == cmds.len() - 2);
            if cmds.len() > 2 {
                assert(cmds.drop_last().drop_last().drop_last().len() == 0);
            }
        }
    }
}

proof fn lemma_visited_small(cmds: Seq<Command>)
    requires
        cmds.len() <= 3,
    ensures
        visited(cmds) == (if cmds.len() > 0 { visited(seq![cmds[0]]) } else { seq![] })
            + (if cmds.len() > 1 { visited(seq![cmds[1]]) } else { seq![] })
            + (if cmds.len() > 2 { visited(seq![cmds[2]]) } else { seq![] }),
{
    if cmds.len() == 0 {
        assert(visited(cmds) =~= Seq::<usize>::empty() + Seq::<usize>::empty() + Seq::<usize>::empty());
    } else if cmds.len() == 1 {
        assert(cmds =~= seq![cmds[0]]);
        assert(visited(cmds) =~= visited(seq![cmds[0]]) + Seq::<usize>::empty() + Seq::<usize>::empty());
    } else if cmds.len() == 2 {
        assert(cmds =~= seq![cmds[0]] + seq![cmds[1]]);
        lemma_visited_concat(seq![cmds[0]], seq![cmds[1]]);
        assert(visited(cmds) =~= visited(seq![cmds[0]]) + visited(seq![cmds[1]]) + Seq::<usize>::empty());
    } else {
        assert(cmds =~= seq![cmds[0]] + seq![cmds[1]] + seq![cmds[2]]);
        lemma_visited_concat(seq![cmds[0]], seq![cmds[1]]);
        lemma_visited_concat(seq![cmds[0]] + seq![cmds[1]], seq![cmds[2]]);
    }
}

proof fn lemma_visited_merge_step(m: Seq<Mode>, i: int, target: usize)
    requires
        0 <= i < m.len(),
    ensures
        visited(merge_step(m, i, target)) == seq![i as usize],
{
    let s = merge_step(m, i, target);
    lemma_visited_small(s);
    reveal_with_fuel(visited, 2);
    assert(visited(seq![enter_transfer()]) =~= Seq::<usize>::empty());
    assert(visited(seq![leave_transfer()]) =~= Seq::<usize>::empty());
    let b = Command::Barrier { image: ImageRef::Cache(i as usize), from: Layout::PresentSrc, to: Layout::TransferSrc };
    assert(visited(seq![b]) =~= Seq::<usize>::empty());
    assert(visited(seq![Command::CopyToTarget { layer: i as usize }]) =~= seq![i as usize]);
    assert(visited(seq![Command::Render { layer: i as usize, slot: target }]) =~= seq![i as usize]);
    assert(visited(s) =~= seq![i as usize]);
}

proof fn lemma_visited_merge_prefix(m: Seq<Mode>, n: int, target: usize)
    requires
        0 <= n <= m.len(),
    ensures
        visited(merge_prefix(m, n, target)) == Seq::new(n as nat, |j: int| j as usize),
    decreases n,
{
    if n == 0 {
        assert(visited(merge_prefix(m, n, target)) =~= Seq::new(n as nat, |j: int| j as usize));
    } else {
        lemma_visited_merge_prefix(m, n - 1, target);
        lemma_visited_concat(merge_prefix(m, n - 1, target), merge_step(m, n - 1, target));
        lemma_visited_merge_step(m, n - 1, target);
        assert(visited(merge_prefix(m, n, target)) =~= Seq::new(n as nat, |j: int| j as usize));
    }
}

/// The merge pass visits the layer objects exactly once each, in registration
/// order, whatever mix of cached and live objects they are.
pub proof fn lemma_merge_order(m: Seq<Mode>, target: usize)
    ensures
        visited(merge_pass(m, target)) == Seq::new(m.len(), |j: int| j as usize),
{
    lemma_visited_merge_prefix(m, m.len() as int, target);
    lemma_visited_concat(merge_prefix(m, m.len() as int, target), merge_tail(m));
    reveal_with_fuel(visited, 2);
    assert(visited(seq![leave_transfer()]) =~= Seq::<usize>::empty());
    assert(visited(merge_pass(m, target)) =~= Seq::new(m.len(), |j: int| j as usize));
}

proof fn lemma_target_barriers_merge_prefix(m: Seq<Mode>, n: int, target: usize)
    requires
        0 <= n <= m.len(),
    ensures
        target_barrier_count(merge_prefix(m, n, target)) + (if n > 0 && m[n - 1] == Mode::Copy {
            1nat
        } else {
            0nat
        }) == 2 * copy_runs_prefix(m, n),
    decreases n,
{
    if n > 0 {
        let p = |c: Command| is_target_barrier(c);
        lemma_target_barriers_merge_prefix(m, n - 1, target);
        lemma_count_concat(merge_prefix(m, n - 1, target), merge_step(m, n - 1, target), p);
        lemma_count_small(merge_step(m, n - 1, target), p);
    }
}

/// The merge pass moves the target into the transfer layout once per run of
/// cached objects and back once after it: its transitions of the target come in
/// pairs, one pair per run of copies, however many objects a run holds. So their
/// number follows the number of runs of equal modes, never the number of
/// objects: twice the runs of copies, which is the number of runs, plus one
/// when the first run copies, less one when the last run renders directly.
pub proof fn lemma_merge_barriers(m: Seq<Mode>, target: usize)
    ensures
        target_barrier_count(merge_pass(m, target)) == 2 * copy_runs(m),
        copy_runs(m) <= runs(m),
        runs(m) <= m.len(),
        m.len() > 0 ==> 2 * copy_runs(m) + (if m.last() == Mode::Direct {
            1nat
        } else {
            0nat
        }) == runs(m) + (if m[0] == Mode::Copy {
            1nat
        } else {
            0nat
        }),
{
    let p = |c: Command| is_target_barrier(c);
    lemma_target_barriers_merge_prefix(m, m.len() as int, target);
    lemma_count_concat(merge_prefix(m, m.len() as int, target), merge_tail(m), p);
    lemma_count_small(merge_tail(m), p);
    lemma_runs_bounds(m, m.len() as int);
    if m.len() > 0 {
        lemma_runs_alternate(m, m.len() as int);
    }
}

/// Runs alternate in mode, so the runs of copies are half of all runs,
/// rounded by the modes of the first and the last run.
proof fn lemma_runs_alternate(m: Seq<Mode>, n: int)
    requires
        0 < n <= m.len(),
    ensures
        2 * copy_runs_prefix(m, n) + (if m[n - 1] == Mode::Direct {
            1nat
        } else {
            0nat
        }) == runs_prefix(m, n) + (if m[0] == Mode::Copy {
            1nat
        } else {
            0nat
        }),
    decreases n,
{
    reveal_with_fuel(runs_prefix, 2);
    reveal_with_fuel(copy_runs_prefix, 2);
    if n > 1 {
        lemma_runs_alternate(m, n - 1);
    }
}

proof fn lemma_runs_bounds(m: Seq<Mode>, n: int)
    requires
        0 <= n <= m.len(),
    ensures
        copy_runs_prefix(m, n) <= runs_prefix(m, n) <= n,
    decreases n,
{
    if n > 0 {
        lemma_runs_bounds(m, n - 1);
    }
}

proof fn lemma_render_count_rerender<L>(objs: Seq<LayerObject<L>>, n: int, i: int)
    requires
        objs.len() <= usize::MAX,
        0 <= n <= objs.len(),
        0 <= i < objs.len(),
    ensures
        render_count(rerender_prefix(objs, n), i) == (if i < n && is_damaged(objs[i]) {
            1nat
        } else {
            0nat
        }),
    decreases n,
{
    if n > 0 {
        let p = |c: Command| renders(c, i);
        lemma_render_count_rerender(objs, n - 1, i);
        lemma_count_concat(rerender_prefix(objs, n - 1), rerender_step(objs, n - 1), p);
        lemma_count_small(rerender_step(objs, n - 1), p);
    }
}

proof fn lemma_render_count_merge<L>(m: Seq<Mode>, n: int, target: usize, i: int)
    requires
        m.len() <= usize::MAX,
        0 <= n <= m.len(),
        0 <= i < m.len(),
    ensures
        render_count(merge_prefix(m, n, target), i) == (if i < n && m[i] == Mode::Direct {
            1nat
        } else {
            0nat
        }),
    decreases n,
{
    if n > 0 {
        let p = |c: Command| renders(c, i);
        lemma_render_count_merge::<L>(m, n - 1, target, i);
        lemma_count_concat(merge_prefix(m, n - 1, target), merge_step(m, n - 1, target), p);
        lemma_count_small(merge_step(m, n - 1, target), p);
    }
}

/// How often one frame draws the object at `i`: once into its cache when it is
/// damaged, once into the target when it is live, never otherwise.
proof fn lemma_frame_render_count<L>(objs: Seq<LayerObject<L>>, target: usize, i: int)
    requires
        objs.len() <= usize::MAX,
        0 <= i < objs.len(),
    ensures
        render_count(frame_commands(objs, target), i) == (if is_damaged(objs[i]) {
            1nat
        } else {
            0nat
        }) + (if objs[i].cache is None {
            1nat
        } else {
            0nat
        }),
{
    let p = |c: Command| renders(c, i);
    let m = modes(objs);
    lemma_render_count_rerender(objs, objs.len() as int, i);
    lemma_render_count_merge::<L>(m, m.len() as int, target, i);
    lemma_count_small(clear_pass(), p);
    lemma_count_small(merge_tail(m), p);
    lemma_count_concat(merge_prefix(m, m.len() as int, target), merge_tail(m), p);
    lemma_count_concat(rerender_pass(objs), clear_pass(), p);
    lemma_count_concat(rerender_pass(objs) + clear_pass(), merge_pass(m, target), p);
}

/// Rendering twice with no damage marked in between draws a cached object at
/// most once: on the first frame, only if it was damaged, and never on the
/// second, which leaves the state as the first left it.
pub proof fn lemma_damage_idempotent<L>(objs: Seq<LayerObject<L>>, first: usize, second: usize, i: int)
    requires
        objs.len() <= usize::MAX,
        0 <= i < objs.len(),
        objs[i].cache is Some,
    ensures
        render_count(frame_commands(objs, first), i) == (if is_damaged(objs[i]) {
            1nat
        } else {
            0nat
        }),
        render_count(frame_commands(undamaged(objs), second), i) == 0,
        undamaged(undamaged(objs)) == undamaged(objs),
{
    lemma_frame_render_count(objs, first, i);
    lemma_frame_render_count(undamaged(objs), second, i);
    assert(undamaged(undamaged(objs)) =~= undamaged(objs));
}

/// After `update_all` one frame draws every object exactly once, cached or
/// live, and leaves no cache damaged.
pub proof fn lemma_update_all_coverage<L>(objs: Seq<LayerObject<L>>, target: usize, i: int)
    requires
        objs.len() <= usize::MAX,
        0 <= i < objs.len(),
    ensures
        render_count(frame_commands(all_damaged(objs), target), i) == 1,
        !is_damaged(undamaged(all_damaged(objs))[i]),
{
    lemma_frame_render_count(all_damaged(objs), target, i);
}

} // verus!
