//! Frame-graph integration: each target's rendering pipeline is an ordered
//! list of named stages; the blur compositing node is inserted at a fixed
//! position — after the stage whose output it should blur, before the stage
//! that must see the blurred image. Pipeline variants are keyed by pass
//! direction and by the destination color format, cached for the process
//! lifetime, and created lazily on first encounter.

use vstd::prelude::*;

verus! {

/// First position of a stage label, scanning from the front.
pub open spec fn stage_index(stages: Seq<u64>, label: u64) -> Option<int>
    decreases stages.len(),
{
    if stages.len() == 0 {
        Option::None
    } else if stages[0] == label {
        Option::Some(0int)
    } else {
        match stage_index(stages.drop_first(), label) {
            Option::Some(i) => Option::Some(i + 1),
            Option::None => Option::None,
        }
    }
}

/// A label occurring first at `i` has that stage index.
proof fn lemma_stage_index_some(stages: Seq<u64>, label: u64, i: int)
    requires
        0 <= i < stages.len(),
        stages[i] == label,
        forall|j: int| 0 <= j < i ==> stages[j] != label,
    ensures
        stage_index(stages, label) == Option::Some(i),
    decreases stages.len(),
{
    if i > 0 {
        lemma_stage_index_some(stages.drop_first(), label, i - 1);
    }
}

/// A label occurring nowhere has no stage index.
proof fn lemma_stage_index_none(stages: Seq<u64>, label: u64)
    requires
        forall|j: int| 0 <= j < stages.len() ==> stages[j] != label,
    ensures
        stage_index(stages, label) == Option::<int>::None,
    decreases stages.len(),
{
    if stages.len() > 0 {
        lemma_stage_index_none(stages.drop_first(), label);
    }
}

/// What a found stage index means.
pub proof fn lemma_stage_index_spec(stages: Seq<u64>, label: u64)
    ensures
        match stage_index(stages, label) {
            Option::Some(i) => 0 <= i < stages.len() && stages[i] == label,
            Option::None => forall|j: int| 0 <= j < stages.len() ==> stages[j] != label,
        },
    decreases stages.len(),
{
    if stages.len() > 0 && stages[0] != label {
        lemma_stage_index_spec(stages.drop_first(), label);
        match stage_index(stages.drop_first(), label) {
            Option::Some(i) => {
                assert(stages[i + 1] == stages.drop_first()[i]);
            },
            Option::None => {
                assert forall|j: int| 0 <= j < stages.len() implies stages[j] != label by {
                    if j > 0 {
                        assert(stages.drop_first()[j - 1] == stages[j]);
                    }
                }
            },
        }
    }
}

/// Every directive of an insertion must hold for it to take place: both
/// anchors present, the anchor to go after standing before the anchor to
/// go before, and the new label not yet present.
pub open spec fn insert_allowed(stages: Seq<u64>, after: u64, before: u64, label: u64) -> bool {
    &&& stage_index(stages, after) is Some
    &&& stage_index(stages, before) is Some
    &&& stage_index(stages, label) is None
    &&& stage_index(stages, after)->0 < stage_index(stages, before)->0
}

/// The stage order after a successful insertion: the new label directly
/// follows the stage it was anchored after.
pub open spec fn inserted_stages(stages: Seq<u64>, after: u64, label: u64) -> Seq<u64> {
    stages.insert(stage_index(stages, after)->0 + 1, label)
}

/// One target's ordered rendering stage sequence.
pub struct StageGraph {
    stages: Vec<u64>,
}

impl View for StageGraph {
    type V = Seq<u64>;

    closed spec fn view(&self) -> Seq<u64> {
        self.stages@
    }
}

/// Find a label's first position in executable code.
fn find_stage(stages: &Vec<u64>, label: u64) -> (found: Option<usize>)
    ensures
        match found {
            Option::Some(i) => stage_index(stages@, label) == Option::Some(i as int),
            Option::None => stage_index(stages@, label) == Option::<int>::None,
        },
{
    let mut i: usize = 0;
    while i < stages.len()
        invariant
            i <= stages@.len(),
            forall|j: int| 0 <= j < i ==> stages@[j] != label,
        decreases stages@.len() - i,
    {
        if stages[i] == label {
            proof {
                lemma_stage_index_some(stages@, label, i as int);
            }
            return Some(i);
        }
        i = i + 1;
    }
    proof {
        lemma_stage_index_none(stages@, label);
    }
    None
}

impl StageGraph {
    /// No stage label occurs twice.
    pub open spec fn wf(self) -> bool {
        forall|i: int, j: int| 0 <= i < j < self@.len() ==> self@[i] != self@[j]
    }

    /// An empty stage sequence.
    pub fn new() -> (out: StageGraph)
        ensures
            out@ == Seq::<u64>::empty(),
            out.wf(),
    {
        StageGraph { stages: Vec::new() }
    }

    /// Append a stage at the end of the sequence; refused if the label is
    /// already present.
    pub fn push_stage(&mut self, label: u64) -> (ok: bool)
        requires
            old(self).wf(),
        ensures
            final(self).wf(),
            ok == (stage_index(old(self)@, label) is None),
            ok ==> final(self)@ == old(self)@.push(label),
            !ok ==> final(self)@ == old(self)@,
    {
        match find_stage(&self.stages, label) {
            Option::Some(_) => {
                proof {
                    lemma_stage_index_spec(old(self)@, label);
                }
                false
            },
            Option::None => {
                proof {
                    lemma_stage_index_spec(old(self)@, label);
                }
                self.stages.push(label);
                true
            },
        }
    }

    /// Resolve an insertion directive: place `label` directly after the
    /// stage `after`, provided `before` comes later in the sequence, so
    /// the compositing node runs between the two. When an anchor is
    /// missing, out of order, or the label is already present, the
    /// sequence is left untouched and the insertion reports failure.
    pub fn insert_between(&mut self, after: u64, before: u64, label: u64) -> (ok: bool)
        requires
            old(self).wf(),
        ensures
            final(self).wf(),
            ok == insert_allowed(old(self)@, after, before, label),
            ok ==> final(self)@ == inserted_stages(old(self)@, after, label),
            !ok ==> final(self)@ == old(self)@,
    {
        let found_after = find_stage(&self.stages, after);
        let found_before = find_stage(&self.stages, before);
        let found_label = find_stage(&self.stages, label);
        proof {
            lemma_stage_index_spec(old(self)@, after);
            lemma_stage_index_spec(old(self)@, before);
            lemma_stage_index_spec(old(self)@, label);
        }
        match (found_after, found_before, found_label) {
            (Option::Some(ia), Option::Some(ib), Option::None) => {
                if ia < ib {
                    self.stages.insert(ia + 1, label);
                    proof {
                        let prev = old(self)@;
                        let now = self@;
                        assert forall|i: int, j: int| 0 <= i < j < now.len() implies now[i]
                            != now[j] by {
                            let p = ia + 1;
                            if i < p && j < p {
                                assert(now[i] == prev[i] && now[j] == prev[j]);
                            } else if i < p && j == p {
                                assert(now[i] == prev[i] && now[j] == label);
                            } else if i < p && j > p {
                                assert(now[i] == prev[i] && now[j] == prev[j - 1]);
                            } else if i == p {
                                assert(now[i] == label && now[j] == prev[j - 1]);
                            } else {
                                assert(now[i] == prev[i - 1] && now[j] == prev[j - 1]);
                            }
                        }
                    }
                    true
                } else {
                    false
                }
            },
            _ => false,
        }
    }

    /// Read the stage order back.
    pub fn stage_at(&self, i: usize) -> (label: u64)
        requires
            i < self@.len(),
        ensures
            label == self@[i as int],
    {
        self.stages[i]
    }

    /// Number of stages.
    pub fn len(&self) -> (n: usize)
        ensures
            n == self@.len(),
    {
        self.stages.len()
    }
}

/// The two passes of the separable blur.
#[derive(Clone, Copy, Debug, PartialEq, Eq, Structural)]
pub enum BlurRegionsPassKey {
    Horizontal,
    Vertical,
}

/// What a compositing pipeline variant is keyed by: the pass direction
/// and whether the destination color target is high dynamic range, since
/// the output format decides pipeline compatibility.
#[derive(Clone, Copy, Debug, PartialEq, Eq, Structural)]
pub struct BlurRegionsPipelineKey {
    pub pass: BlurRegionsPassKey,
    pub hdr: bool,
}

/// One prepared render pass of a target: its variant key and the cached
/// pipeline object's identifier.
#[derive(Clone, Copy, Debug, PartialEq, Eq, Structural)]
pub struct BlurRegionsPass {
    pub key: BlurRegionsPipelineKey,
    pub pipeline: u64,
}

/// The pair of passes prepared for one target each frame: horizontal
/// first, vertical second.
#[derive(Clone, Copy, Debug, PartialEq, Eq, Structural)]
pub struct BlurRegionsPasses {
    pub horizontal: BlurRegionsPass,
    pub vertical: BlurRegionsPass,
}

/// One render target's view information that keys its pipeline variants.
#[derive(Clone, Copy, Debug, PartialEq, Eq, Structural)]
pub struct ViewInfo {
    pub id: u64,
    pub hdr: bool,
}

/// The cache holds the identifier `id` for `key`.
pub open spec fn cache_has(
    entries: Seq<(BlurRegionsPipelineKey, u64)>,
    key: BlurRegionsPipelineKey,
    id: u64,
) -> bool {
    exists|i: int| 0 <= i < entries.len() && entries[i] == (key, id)
}

/// The process-lifetime cache of compositing pipeline variants. An
/// identifier stands for one compiled pipeline object; identifiers are
/// allocated in encounter order and never evicted.
pub struct BlurRegionsPipelines {
    entries: Vec<(BlurRegionsPipelineKey, u64)>,
}

impl View for BlurRegionsPipelines {
    type V = Seq<(BlurRegionsPipelineKey, u64)>;

    closed spec fn view(&self) -> Seq<(BlurRegionsPipelineKey, u64)> {
        self.entries@
    }
}

impl BlurRegionsPipelines {
    /// Every key cached at most once, identifiers in allocation order.
    pub open spec fn wf(self) -> bool {
        &&& forall|i: int, j: int| 0 <= i < j < self@.len() ==> self@[i].0 != self@[j].0
        &&& forall|i: int| 0 <= i < self@.len() ==> (#[trigger] self@[i]).1 == i as u64
        &&& self@.len() <= u32::MAX
    }

    /// An empty cache.
    pub fn new() -> (out: BlurRegionsPipelines)
        ensures
            out@ == Seq::<(BlurRegionsPipelineKey, u64)>::empty(),
            out.wf(),
    {
        BlurRegionsPipelines { entries: Vec::new() }
    }

    /// The pipeline identifier for a variant key: the cached one when the
    /// key was seen before, else a fresh identifier appended to the cache
    /// — each variant is created once, on first encounter.
    pub fn specialize(&mut self, key: BlurRegionsPipelineKey) -> (id: u64)
        requires
            old(self).wf(),
        ensures
            final(self).wf(),
            cache_has(final(self)@, key, id),
            final(self)@.len() >= old(self)@.len(),
            final(self)@.subrange(0, old(self)@.len() as int) == old(self)@,
            (exists|i: int| 0 <= i < old(self)@.len() && (#[trigger] old(self)@[i]).0 == key)
                ==> final(self)@ == old(self)@ && cache_has(old(self)@, key, id),
            (forall|i: int| 0 <= i < old(self)@.len() ==> (#[trigger] old(self)@[i]).0 != key)
                ==> final(self)@ == old(self)@.push((key, old(self)@.len() as u64)) && id == old(
                self,
            )@.len() as u64,
    {
        let mut i: usize = 0;
        while i < self.entries.len()
            invariant
                i <= self@.len(),
                forall|j: int| 0 <= j < i ==> (#[trigger] self@[j]).0 != key,
                self@ == old(self)@,
                self.wf(),
            decreases self@.len() - i,
        {
            let entry = self.entries[i];
            if entry.0.pass == key.pass && entry.0.hdr == key.hdr {
                proof {
                    assert(entry.0 == key);
                    assert(self@[i as int] == (key, entry.1));
                    assert(self@.subrange(0, self@.len() as int) =~= self@);
                }
                return entry.1;
            }
            i = i + 1;
        }
        proof {
            // One entry per distinct key keeps the cache far below the
            // identifier bound.
            lemma_cache_is_small(self@);
        }
        let id = self.entries.len() as u64;
        self.entries.push((key, id));
        proof {
            assert(self@[old(self)@.len() as int] == (key, id));
            assert(cache_has(self@, key, id));
            assert(self@.subrange(0, old(self)@.len() as int) =~= old(self)@);
            assert forall|a: int, b: int| 0 <= a < b < self@.len() implies self@[a].0
                != self@[b].0 by {
                if b == self@.len() - 1 {
                    assert(self@[a] == old(self)@[a]);
                } else {
                    assert(self@[a] == old(self)@[a] && self@[b] == old(self)@[b]);
                }
            }
            assert(forall|a: int|
                0 <= a < self@.len() - 1 ==> (#[trigger] self@[a]) == old(self)@[a]);
        }
        id
    }
}

/// A well-formed cache has at most four entries: one per pass direction
/// and output format.
proof fn lemma_cache_is_small(entries: Seq<(BlurRegionsPipelineKey, u64)>)
    requires
        forall|i: int, j: int| 0 <= i < j < entries.len() ==> entries[i].0 != entries[j].0,
    ensures
        entries.len() <= 4,
{
    if entries.len() > 4 {
        assert(forall|i: int|
            0 <= i < entries.len() ==> ((#[trigger] entries[i]).0.pass
                == BlurRegionsPassKey::Horizontal || entries[i].0.pass
                == BlurRegionsPassKey::Vertical) && (entries[i].0.hdr == true || entries[i].0.hdr
                == false));
        assert(forall|i: int, j: int|
            0 <= i < entries.len() && 0 <= j < entries.len() && i != j ==> entries[i].0
                != entries[j].0);
        assert(entries[0].0 != entries[1].0 && entries[0].0 != entries[2].0 && entries[0].0
            != entries[3].0 && entries[0].0 != entries[4].0 && entries[1].0 != entries[2].0
            && entries[1].0 != entries[3].0 && entries[1].0 != entries[4].0 && entries[2].0
            != entries[3].0 && entries[2].0 != entries[4].0 && entries[3].0 != entries[4].0);
        assert(false);
    }
}

/// Prepare the two blur passes for every camera view this frame: one
/// horizontal and one vertical pipeline variant each, keyed by the view's
/// output format, taken from the cache or created on first encounter.
pub fn prepare_blur_regions_pipelines(
    pipelines: &mut BlurRegionsPipelines,
    views: &Vec<ViewInfo>,
) -> (passes: Vec<BlurRegionsPasses>)
    requires
        old(pipelines).wf(),
    ensures
        final(pipelines).wf(),
        final(pipelines)@.subrange(0, old(pipelines)@.len() as int) == old(pipelines)@,
        passes@.len() == views@.len(),
        forall|v: int|
            0 <= v < views@.len() ==> {
                let built = #[trigger] passes@[v];
                let hkey = BlurRegionsPipelineKey {
                    pass: BlurRegionsPassKey::Horizontal,
                    hdr: views@[v].hdr,
                };
                let vkey = BlurRegionsPipelineKey {
                    pass: BlurRegionsPassKey::Vertical,
                    hdr: views@[v].hdr,
                };
                &&& built.horizontal.key == hkey
                &&& built.vertical.key == vkey
                &&& cache_has(final(pipelines)@, hkey, built.horizontal.pipeline)
                &&& cache_has(final(pipelines)@, vkey, built.vertical.pipeline)
            },
{
    let mut passes: Vec<BlurRegionsPasses> = Vec::new();
    let mut v: usize = 0;
    while v < views.len()
        invariant
            v <= views@.len(),
            pipelines.wf(),
            pipelines@.len() >= old(pipelines)@.len(),
            pipelines@.subrange(0, old(pipelines)@.len() as int) == old(pipelines)@,
            passes@.len() == v,
            forall|w: int|
                0 <= w < v ==> {
                    let built = #[trigger] passes@[w];
                    let hkey = BlurRegionsPipelineKey {
                        pass: BlurRegionsPassKey::Horizontal,
                        hdr: views@[w].hdr,
                    };
                    let vkey = BlurRegionsPipelineKey {
                        pass: BlurRegionsPassKey::Vertical,
                        hdr: views@[w].hdr,
                    };
                    &&& built.horizontal.key == hkey
                    &&& built.vertical.key == vkey
                    &&& cache_has(pipelines@, hkey, built.horizontal.pipeline)
                    &&& cache_has(pipelines@, vkey, built.vertical.pipeline)
                },
        decreases views@.len() - v,
    {
        let hdr = views[v].hdr;
        let hkey = BlurRegionsPipelineKey { pass: BlurRegionsPassKey::Horizontal, hdr };
        let vkey = BlurRegionsPipelineKey { pass: BlurRegionsPassKey::Vertical, hdr };
        let ghost before_h = pipelines@;
        let h_id = pipelines.specialize(hkey);
        let ghost before_v = pipelines@;
        let v_id = pipelines.specialize(vkey);
        proof {
            lemma_cache_grows(before_h, before_v);
            lemma_cache_grows(before_v, pipelines@);
            lemma_subrange_chain(old(pipelines)@, before_h, before_v, pipelines@);
            assert(cache_has(pipelines@, hkey, h_id)) by {
                assert(cache_has(before_v, hkey, h_id));
            }
            assert forall|w: int| 0 <= w < passes@.len() implies {
                let built = #[trigger] passes@[w];
                cache_has(pipelines@, built.horizontal.key, built.horizontal.pipeline)
                    && cache_has(pipelines@, built.vertical.key, built.vertical.pipeline)
            } by {
                let built = passes@[w];
                assert(cache_has(before_h, built.horizontal.key, built.horizontal.pipeline));
                assert(cache_has(before_v, built.horizontal.key, built.horizontal.pipeline));
                assert(cache_has(before_h, built.vertical.key, built.vertical.pipeline));
                assert(cache_has(before_v, built.vertical.key, built.vertical.pipeline));
            }
        }
        passes.push(
            BlurRegionsPasses {
                horizontal: BlurRegionsPass { key: hkey, pipeline: h_id },
                vertical: BlurRegionsPass { key: vkey, pipeline: v_id },
            },
        );
        v = v + 1;
    }
    passes
}

/// Growth by one specialization preserves every existing entry.
proof fn lemma_cache_grows(
    shorter: Seq<(BlurRegionsPipelineKey, u64)>,
    longer: Seq<(BlurRegionsPipelineKey, u64)>,
)
    requires
        longer.subrange(0, shorter.len() as int) == shorter,
        longer.len() >= shorter.len(),
    ensures
        forall|k: BlurRegionsPipelineKey, i: u64|
            cache_has(shorter, k, i) ==> #[trigger] cache_has(longer, k, i),
{
    assert forall|k: BlurRegionsPipelineKey, i: u64|
        cache_has(shorter, k, i) implies #[trigger] cache_has(longer, k, i) by {
        let w = choose|w: int| 0 <= w < shorter.len() && shorter[w] == (k, i);
        assert(longer.subrange(0, shorter.len() as int)[w] == shorter[w]);
        assert(longer[w] == (k, i));
        assert(cache_has(longer, k, i));
    }
}

/// Prefix preservation composes across successive specializations.
proof fn lemma_subrange_chain(
    a: Seq<(BlurRegionsPipelineKey, u64)>,
    b: Seq<(BlurRegionsPipelineKey, u64)>,
    c: Seq<(BlurRegionsPipelineKey, u64)>,
    d: Seq<(BlurRegionsPipelineKey, u64)>,
)
    requires
        a.len() <= b.len() <= c.len() <= d.len(),
        b.subrange(0, a.len() as int) == a,
        c.subrange(0, b.len() as int) == b,
        d.subrange(0, c.len() as int) == c,
    ensures
        d.subrange(0, a.len() as int) == a,
{
    assert forall|w: int| 0 <= w < a.len() implies d[w] == a[w] by {
        assert(b.subrange(0, a.len() as int)[w] == b[w]);
        assert(c.subrange(0, b.len() as int)[w] == c[w]);
        assert(d.subrange(0, c.len() as int)[w] == d[w]);
    }
    assert(d.subrange(0, a.len() as int) =~= a);
}

} // verus!
