//! The layer store: an ordered mapping from layer id to drawable content
//! and per-layer render state.
//!
//! Iteration order equals insertion order, because later layers are
//! composited on top of earlier ones.  Ids grow monotonically, are never
//! reused, and zero is reserved as "none".

use crate::bitmap::Bitmap;
use vstd::prelude::*;

verus! {

/// Margin in pixels between repeats of a scrolling bitmap.
pub const SCROLL_MARGIN: usize = 30;

/// An opaque, monotonically increasing, process-local layer identifier.
/// Zero is reserved as "none/invalid".
#[derive(Clone, Copy, PartialEq, Eq, Structural, Hash, PartialOrd, Ord, Debug)]
pub struct LayerId(pub usize);

impl LayerId {
    /// The reserved "no layer" id.
    pub fn none() -> (r: LayerId)
        ensures
            r.0 == 0,
    {
        LayerId(0)
    }
}

/// One frame of an animation: a bitmap and an optional display delay in
/// milliseconds (GIF frames carry their own timing).
pub struct Frame {
    pub bitmap: Bitmap,
    pub delay_ms: Option<u64>,
}

/// A drawable layer: a fixed image, an animation, or a horizontally
/// scrolling bitmap whose x position is owned by the render state.
pub enum DrawLayer {
    Image { bitmap: Bitmap, x: isize, y: isize },
    Animation { frames: Vec<Frame>, x: isize, y: isize, follow_fps: bool },
    Scroll { bitmap: Bitmap, y: isize },
}

/// Every bitmap of the layer is well formed, and a scrolling bitmap is
/// narrow enough that its tiling arithmetic stays in machine range.
pub open spec fn layer_wf(l: DrawLayer) -> bool {
    match l {
        DrawLayer::Image { bitmap, .. } => bitmap@.wf(),
        DrawLayer::Animation { frames, .. } => forall|i: int|
            0 <= i < frames@.len() ==> (#[trigger] frames@[i].bitmap)@.wf(),
        DrawLayer::Scroll { bitmap, .. } => bitmap@.wf() && bitmap@.w + SCROLL_MARGIN
            <= isize::MAX,
    }
}

/// Per-layer state owned by the render thread: the animation tick counter,
/// the time of the next scheduled animation advance, and the scroll offset.
#[derive(Clone, Copy, PartialEq, Eq, Structural, Debug)]
pub struct LayerState {
    pub anim_ticks: usize,
    pub anim_next_ms: u64,
    pub scroll_x: isize,
}

/// The state a layer starts with: frame zero, the first timed advance due
/// now, and scrolling from the left edge.
pub open spec fn initial_state(now_ms: u64) -> LayerState {
    LayerState { anim_ticks: 0, anim_next_ms: now_ms, scroll_x: 0 }
}

/// The render state stays within the layer's own bounds: the animation
/// counter is reduced modulo the frame count, and the scroll offset stays
/// within one tile period of the left edge.
pub open spec fn state_wf(l: DrawLayer, s: LayerState) -> bool {
    match l {
        DrawLayer::Image { .. } => true,
        DrawLayer::Animation { frames, .. } => frames@.len() == 0 || s.anim_ticks < frames@.len(),
        DrawLayer::Scroll { bitmap, .. } => -(bitmap@.w + SCROLL_MARGIN) < s.scroll_x <= 0,
    }
}

/// One stored layer: its id, its content, and its render state.
pub struct LayerEntry {
    pub id: LayerId,
    pub layer: DrawLayer,
    pub state: LayerState,
}

/// Whether `ids` holds `id`.
pub open spec fn id_in(ids: Seq<LayerId>, id: LayerId) -> bool {
    exists|k: int| 0 <= k < ids.len() && ids[k] == id
}

/// The entries of `s` that satisfy `pred`, in order.
pub open spec fn seq_keep(s: Seq<LayerEntry>, pred: spec_fn(LayerEntry) -> bool) -> Seq<
    LayerEntry,
>
    decreases s.len(),
{
    if s.len() == 0 {
        s
    } else {
        let rest = seq_keep(s.drop_last(), pred);
        if pred(s.last()) {
            rest.push(s.last())
        } else {
            rest
        }
    }
}

proof fn lemma_seq_keep_membership(s: Seq<LayerEntry>, pred: spec_fn(LayerEntry) -> bool)
    ensures
        seq_keep(s, pred).len() <= s.len(),
        forall|i: int|
            0 <= i < seq_keep(s, pred).len()
                ==> exists|k: int| 0 <= k < s.len() && s[k] == #[trigger] seq_keep(s, pred)[i],
    decreases s.len(),
{
    if s.len() > 0 {
        lemma_seq_keep_membership(s.drop_last(), pred);
        let f = seq_keep(s, pred);
        let fd = seq_keep(s.drop_last(), pred);
        assert forall|i: int| 0 <= i < f.len() implies
            exists|k: int| 0 <= k < s.len() && s[k] == #[trigger] f[i] by {
            if i < fd.len() {
                let k = choose|k: int| 0 <= k < s.drop_last().len() && s.drop_last()[k] == fd[i];
                assert(s[k] == f[i]);
            } else {
                assert(s[s.len() - 1] == f[i]);
            }
        }
    }
}

proof fn lemma_seq_keep_order(s: Seq<LayerEntry>, pred: spec_fn(LayerEntry) -> bool)
    requires
        forall|a: int, b: int|
            0 <= a < b < s.len() ==> (#[trigger] s[a]).id.0 < (#[trigger] s[b]).id.0,
    ensures
        forall|a: int, b: int|
            0 <= a < b < seq_keep(s, pred).len()
                ==> (#[trigger] seq_keep(s, pred)[a]).id.0 < (#[trigger] seq_keep(s, pred)[b]).id.0,
        seq_keep(s, pred).len() > 0 && s.len() > 0 ==> seq_keep(s, pred).last().id.0
            <= s.last().id.0,
    decreases s.len(),
{
    if s.len() > 0 {
        lemma_seq_keep_order(s.drop_last(), pred);
        lemma_seq_keep_membership(s.drop_last(), pred);
        let f = seq_keep(s, pred);
        let fd = seq_keep(s.drop_last(), pred);
        if pred(s.last()) {
            assert forall|a: int, b: int| 0 <= a < b < f.len() implies
                (#[trigger] f[a]).id.0 < (#[trigger] f[b]).id.0 by {
                if b == f.len() - 1 {
                    let k = choose|k: int| 0 <= k < s.drop_last().len() && s.drop_last()[k] == fd[a];
                    assert(s[k].id.0 < s.last().id.0);
                }
            }
        }
    }
}

/// The ordered layer collection, shared between the producer and the
/// render thread (under the producer-side lock that app code supplies).
pub struct LayerStore {
    pub entries: Vec<LayerEntry>,
    pub next_id: usize,
}

impl LayerStore {
    /// Ids are nonzero, strictly increasing in insertion order, and all
    /// below the next id to hand out; every entry is well formed.
    pub open spec fn wf(self) -> bool {
        &&& 1 <= self.next_id
        &&& forall|i: int|
            0 <= i < self.entries@.len() ==> {
                let e = #[trigger] self.entries@[i];
                &&& e.id.0 != 0
                &&& e.id.0 < self.next_id
                &&& layer_wf(e.layer)
                &&& state_wf(e.layer, e.state)
            }
        &&& forall|i: int, j: int|
            0 <= i < j < self.entries@.len()
                ==> (#[trigger] self.entries@[i]).id.0 < (#[trigger] self.entries@[j]).id.0
    }

    /// Whether another layer can still get a fresh id.
    pub open spec fn can_add(self) -> bool {
        self.next_id < usize::MAX
    }

    /// An empty store.
    pub fn new() -> (r: LayerStore)
        ensures
            r.wf(),
            r.can_add(),
            r.entries@.len() == 0,
            r.next_id == 1,
    {
        LayerStore { entries: Vec::new(), next_id: 1 }
    }

    /// How many layers are stored.
    pub fn len(&self) -> (r: usize)
        ensures
            r == self.entries@.len(),
    {
        self.entries.len()
    }

    /// Appends a layer under a fresh id and returns that id.  The new id
    /// is nonzero and was never handed out before.
    pub fn add_layer(&mut self, layer: DrawLayer, now_ms: u64) -> (id: LayerId)
        requires
            old(self).wf(),
            old(self).can_add(),
            layer_wf(layer),
        ensures
            final(self).wf(),
            id.0 == old(self).next_id,
            id.0 != 0,
            final(self).next_id == old(self).next_id + 1,
            final(self).entries@ == old(self).entries@.push(
                LayerEntry { id, layer, state: initial_state(now_ms) },
            ),
            forall|i: int|
                0 <= i < old(self).entries@.len() ==> (#[trigger] old(self).entries@[i]).id != id,
    {
        let id = LayerId(self.next_id);
        self.next_id += 1;
        let state = LayerState { anim_ticks: 0, anim_next_ms: now_ms, scroll_x: 0 };
        self.entries.push(LayerEntry { id, layer, state });
        id
    }

    /// Removes the layer with the given id, if present; the order of the
    /// rest is kept.
    pub fn remove_layer(&mut self, id: LayerId)
        requires
            old(self).wf(),
        ensures
            final(self).wf(),
            final(self).next_id == old(self).next_id,
            final(self).entries@ == seq_keep(old(self).entries@, |e: LayerEntry| e.id != id),
    {
        let ghost pred = |e: LayerEntry| e.id != id;
        let mut idx: usize = 0;
        let ghost g: int = 0;
        while idx < self.entries.len()
            invariant
                old(self).wf(),
                self.next_id == old(self).next_id,
                0 <= g <= old(self).entries@.len(),
                idx == seq_keep(old(self).entries@.take(g), pred).len(),
                self.entries@ =~= seq_keep(old(self).entries@.take(g), pred)
                    + old(self).entries@.skip(g),
                pred == (|e: LayerEntry| e.id != id),
            decreases old(self).entries@.len() - g,
        {
            proof {
                lemma_seq_keep_membership(old(self).entries@.take(g), pred);
                assert(old(self).entries@.take(g + 1).drop_last() =~= old(self).entries@.take(g));
                assert(self.entries@[idx as int] == old(self).entries@[g]);
            }
            if self.entries[idx].id.0 == id.0 {
                self.entries.remove(idx);
                proof {
                    assert(self.entries@ =~= seq_keep(old(self).entries@.take(g + 1), pred)
                        + old(self).entries@.skip(g + 1));
                }
            } else {
                idx += 1;
                proof {
                    assert(self.entries@ =~= seq_keep(old(self).entries@.take(g + 1), pred)
                        + old(self).entries@.skip(g + 1));
                }
            }
            proof {
                g = g + 1;
            }
        }
        proof {
            assert(old(self).entries@.take(g) =~= old(self).entries@);
            assert(self.entries@ =~= seq_keep(old(self).entries@, pred));
            lemma_seq_keep_membership(old(self).entries@, pred);
            lemma_seq_keep_order(old(self).entries@, pred);
            assert forall|i: int| 0 <= i < self.entries@.len() implies {
                let e = #[trigger] self.entries@[i];
                &&& e.id.0 != 0
                &&& e.id.0 < self.next_id
                &&& layer_wf(e.layer)
                &&& state_wf(e.layer, e.state)
            } by {
                let k = choose|k: int|
                    0 <= k < old(self).entries@.len() && old(self).entries@[k]
                        == self.entries@[i];
            }
        }
    }

    /// Removes every layer whose id is listed; the order of the rest is
    /// kept.
    pub fn remove_layers(&mut self, ids: &Vec<LayerId>)
        requires
            old(self).wf(),
        ensures
            final(self).wf(),
            final(self).next_id == old(self).next_id,
            final(self).entries@ == seq_keep(
                old(self).entries@,
                |e: LayerEntry| !id_in(ids@, e.id),
            ),
    {
        let ghost pred = |e: LayerEntry| !id_in(ids@, e.id);
        let mut idx: usize = 0;
        let ghost g: int = 0;
        while idx < self.entries.len()
            invariant
                old(self).wf(),
                self.next_id == old(self).next_id,
                0 <= g <= old(self).entries@.len(),
                idx == seq_keep(old(self).entries@.take(g), pred).len(),
                self.entries@ =~= seq_keep(old(self).entries@.take(g), pred)
                    + old(self).entries@.skip(g),
                pred == (|e: LayerEntry| !id_in(ids@, e.id)),
            decreases old(self).entries@.len() - g,
        {
            proof {
                lemma_seq_keep_membership(old(self).entries@.take(g), pred);
                assert(old(self).entries@.take(g + 1).drop_last() =~= old(self).entries@.take(g));
                assert(self.entries@[idx as int] == old(self).entries@[g]);
            }
            let mut found: bool = false;
            let mut k: usize = 0;
            while k < ids.len()
                invariant
                    idx < self.entries@.len(),
                    k <= ids@.len(),
                    found <==> exists|k2: int|
                        0 <= k2 < k && ids@[k2] == self.entries@[idx as int].id,
                decreases ids@.len() - k,
            {
                if ids[k].0 == self.entries[idx].id.0 {
                    found = true;
                }
                k += 1;
            }
            proof {
                assert(found <==> id_in(ids@, self.entries@[idx as int].id));
            }
            if found {
                self.entries.remove(idx);
                proof {
                    assert(self.entries@ =~= seq_keep(old(self).entries@.take(g + 1), pred)
                        + old(self).entries@.skip(g + 1));
                }
            } else {
                idx += 1;
                proof {
                    assert(self.entries@ =~= seq_keep(old(self).entries@.take(g + 1), pred)
                        + old(self).entries@.skip(g + 1));
                }
            }
            proof {
                g = g + 1;
            }
        }
        proof {
            assert(old(self).entries@.take(g) =~= old(self).entries@);
            assert(self.entries@ =~= seq_keep(old(self).entries@, pred));
            lemma_seq_keep_membership(old(self).entries@, pred);
            lemma_seq_keep_order(old(self).entries@, pred);
            assert forall|i: int| 0 <= i < self.entries@.len() implies {
                let e = #[trigger] self.entries@[i];
                &&& e.id.0 != 0
                &&& e.id.0 < self.next_id
                &&& layer_wf(e.layer)
                &&& state_wf(e.layer, e.state)
            } by {
                let k = choose|k: int|
                    0 <= k < old(self).entries@.len() && old(self).entries@[k]
                        == self.entries@[i];
            }
        }
    }

    /// Replaces layers in one step: removes every layer whose id is
    /// listed, then appends the new layers under fresh ids.  Callers that
    /// hold the store's lock across this call never expose a tick to the
    /// half-edited state that separate remove and add calls would.
    pub fn replace_layers(&mut self, remove: &Vec<LayerId>, add: Vec<DrawLayer>, now_ms: u64) -> (ids: Vec<LayerId>)
        requires
            old(self).wf(),
            old(self).next_id + add@.len() <= usize::MAX,
            forall|k: int| 0 <= k < add@.len() ==> layer_wf(#[trigger] add@[k]),
        ensures
            final(self).wf(),
            final(self).next_id == old(self).next_id + add@.len(),
            ids@.len() == add@.len(),
            forall|k: int| 0 <= k < ids@.len() ==> (#[trigger] ids@[k]).0 == old(self).next_id + k,
            final(self).entries@.len() == seq_keep(
                old(self).entries@,
                |e: LayerEntry| !id_in(remove@, e.id),
            ).len() + add@.len(),
            forall|k: int|
                0 <= k < final(self).entries@.len() - add@.len()
                    ==> final(self).entries@[k] == seq_keep(
                    old(self).entries@,
                    |e: LayerEntry| !id_in(remove@, e.id),
                )[k],
            forall|k: int|
                0 <= k < add@.len() ==> {
                    let e = #[trigger] final(self).entries@[final(self).entries@.len() - add@.len()
                        + k];
                    &&& e.id.0 == old(self).next_id + k
                    &&& e.layer == add@[k]
                    &&& e.state == initial_state(now_ms)
                },
    {
        self.remove_layers(remove);
        let ghost kept = self.entries@;
        let mut add = add;
        let mut ids: Vec<LayerId> = Vec::new();
        let ghost n = add@.len();
        let ghost added = add@;
        let mut k: usize = 0;
        while add.len() > 0
            invariant
                self.wf(),
                n == added.len(),
                k + add@.len() == n,
                add@ =~= added.subrange(k as int, added.len() as int),
                self.next_id == old(self).next_id + k,
                old(self).next_id + n <= usize::MAX,
                forall|j: int| 0 <= j < n ==> layer_wf(#[trigger] added[j]),
                ids@.len() == k,
                forall|j: int| 0 <= j < k ==> (#[trigger] ids@[j]).0 == old(self).next_id + j,
                self.entries@.len() == kept.len() + k,
                forall|j: int| 0 <= j < kept.len() ==> #[trigger] self.entries@[j] == kept[j],
                forall|j: int|
                    0 <= j < k ==> {
                        let e = #[trigger] self.entries@[kept.len() + j];
                        &&& e.id.0 == old(self).next_id + j
                        &&& e.layer == added[j]
                        &&& e.state == initial_state(now_ms)
                    },
            decreases add@.len(),
        {
            let ghost pre_add = add@;
            let layer = add.remove(0);
            proof {
                assert(layer == pre_add[0]);
                assert(pre_add =~= added.subrange(k as int, added.len() as int));
                assert(pre_add.len() == added.len() - k);
                assert(pre_add[0] == added.subrange(k as int, added.len() as int)[0]);
                assert(added.subrange(k as int, added.len() as int)[0] == added[k as int + 0]);
                assert(layer == added[k as int]);
                assert(add@ =~= pre_add.remove(0));
                assert forall|j: int| 0 <= j < add@.len() implies add@[j] == added.subrange(
                    k + 1,
                    added.len() as int,
                )[j] by {
                    assert(add@[j] == pre_add[j + 1]);
                }
                assert(add@ =~= added.subrange(k + 1, added.len() as int));
            }
            let id = self.add_layer(layer, now_ms);
            ids.push(id);
            k += 1;
        }
        ids
    }

    /// Removes every layer.  Ids are still not reused afterwards.
    pub fn clear_layers(&mut self)
        requires
            old(self).wf(),
        ensures
            final(self).wf(),
            final(self).next_id == old(self).next_id,
            final(self).entries@.len() == 0,
    {
        self.entries.clear();
    }
}

} // verus!
