//! The draw engine's decision core: everything the render thread decides
//! each tick, as pure transitions over an explicit state.
//!
//! The loop around these decisions — channels, the mutex on the layer
//! store, the actual sleeps and USB writes — is ordinary Rust outside this
//! library.  The state machine here settles what that loop does: which
//! commands take effect, when a reconnect may be attempted, what one tick
//! composites, when a frame is sent, and which events the producer sees.

use crate::bitmap::Bitmap;
use crate::bitmap::BitmapView;
use crate::bitmap::blit_view;
use crate::layers::DrawLayer;
use crate::layers::LayerEntry;
use crate::layers::LayerState;
use crate::layers::LayerStore;
use crate::layers::SCROLL_MARGIN;
use crate::layers::layer_wf;
use crate::layers::state_wf;
use crate::transport::DeviceEvent;
use vstd::prelude::*;

verus! {

/// Wall-clock period of one anti-burn-in shift step.
pub const SHIFT_PERIOD_MS: u64 = 90_000;

/// How often a reconnect is attempted while disconnected.
pub const RECONNECT_PERIOD_MS: u64 = 1_000;

/// Heartbeat: a frame is re-sent after this long even if unchanged.
pub const REDRAW_PERIOD_MS: u64 = 1_000;

/// Number of positions in the anti-burn-in ring.
pub const SHIFT_COUNT: usize = 9;

/// Display delay assumed for an animation frame that carries none.
pub const DEFAULT_FRAME_DELAY_MS: u64 = 1_000;

/// Whether the anti-burn-in pixel offset cycle runs.
#[derive(Clone, Copy, PartialEq, Eq, Structural, Debug)]
pub enum ShiftMode {
    Off,
    Simple,
}

/// A producer-to-render-thread command.
#[derive(Clone, Copy, PartialEq, Eq, Structural, Debug)]
pub enum DrawCommand {
    Play,
    Pause,
    SetShiftMode(ShiftMode),
    Stop,
}

/// What the render thread reports back to the producer.
#[derive(Clone, Copy, PartialEq, Eq, Structural, Debug)]
pub enum DrawEvent {
    DeviceDisconnected,
    DeviceReconnected,
    DeviceEvent(DeviceEvent),
}

/// The fixed ring of anti-burn-in offsets, visited in order.
pub open spec fn shift_offset(i: int) -> (int, int) {
    if i == 0 {
        (0, 0)
    } else if i == 1 {
        (0, -1)
    } else if i == 2 {
        (1, -1)
    } else if i == 3 {
        (1, 0)
    } else if i == 4 {
        (1, 1)
    } else if i == 5 {
        (0, 1)
    } else if i == 6 {
        (-1, 1)
    } else if i == 7 {
        (-1, 0)
    } else {
        (-1, -1)
    }
}

/// The render thread's own state: playback, shift cycle, connection, and
/// the last frame actually sent.
pub struct EngineState {
    pub playing: bool,
    pub stop_requested: bool,
    pub shift_mode: ShiftMode,
    pub shift_index: usize,
    pub last_shift_ms: u64,
    pub connected: bool,
    pub last_attempt_ms: u64,
    pub last_draw_ms: u64,
    pub prev_screen: Bitmap,
}

/// What a command does to the state.  Draining a burst of commands folds
/// this left to right, so the last writer of each field wins.
pub open spec fn apply_command_spec(s: EngineState, cmd: DrawCommand) -> EngineState {
    match cmd {
        DrawCommand::Play => EngineState { playing: true, ..s },
        DrawCommand::Pause => EngineState { playing: false, ..s },
        DrawCommand::SetShiftMode(m) => EngineState { shift_mode: m, ..s },
        DrawCommand::Stop => EngineState { stop_requested: true, ..s },
    }
}

/// A burst of commands, applied in send order.
pub open spec fn apply_commands_spec(s: EngineState, cmds: Seq<DrawCommand>) -> EngineState
    decreases cmds.len(),
{
    if cmds.len() == 0 {
        s
    } else {
        apply_command_spec(apply_commands_spec(s, cmds.drop_last()), cmds.last())
    }
}

/// Advancing the shift cycle: under `Simple`, once the period has elapsed
/// the index moves one position round the ring and the clock restarts;
/// `Off` leaves the cycle alone.
pub open spec fn shift_advance_spec(s: EngineState, now_ms: u64) -> EngineState {
    match s.shift_mode {
        ShiftMode::Off => s,
        ShiftMode::Simple => if now_ms >= s.last_shift_ms + SHIFT_PERIOD_MS {
            EngineState {
                shift_index: ((s.shift_index + 1) % (SHIFT_COUNT as int)) as usize,
                last_shift_ms: now_ms,
                ..s
            }
        } else {
            s
        },
    }
}

/// The pixel offset the current tick composites with.
pub open spec fn current_shift(s: EngineState) -> (int, int) {
    match s.shift_mode {
        ShiftMode::Off => (0, 0),
        ShiftMode::Simple => shift_offset(s.shift_index as int),
    }
}

impl EngineState {
    /// The shift index stays on the ring and the last sent frame is a
    /// well-formed bitmap.
    pub open spec fn wf(self) -> bool {
        &&& self.shift_index < SHIFT_COUNT
        &&& self.prev_screen@.wf()
    }

    /// The state the render thread starts in: not playing, not stopping,
    /// shift off at ring position zero, connected (the transport was opened
    /// before the engine started), and an empty last frame so the first
    /// composite always differs.
    pub fn new(now_ms: u64) -> (r: EngineState)
        ensures
            r.wf(),
            !r.playing,
            !r.stop_requested,
            r.shift_mode == ShiftMode::Off,
            r.shift_index == 0,
            r.last_shift_ms == now_ms,
            r.connected,
            r.last_attempt_ms == now_ms,
            r.last_draw_ms == now_ms,
            r.prev_screen@.w == 0 && r.prev_screen@.h == 0,
    {
        EngineState {
            playing: false,
            stop_requested: false,
            shift_mode: ShiftMode::Off,
            shift_index: 0,
            last_shift_ms: now_ms,
            connected: true,
            last_attempt_ms: now_ms,
            last_draw_ms: now_ms,
            prev_screen: Bitmap::new(0, 0, false),
        }
    }

    /// Applies one drained command.
    pub fn apply_command(&mut self, cmd: DrawCommand)
        requires
            old(self).wf(),
        ensures
            final(self).wf(),
            *final(self) == apply_command_spec(*old(self), cmd),
    {
        match cmd {
            DrawCommand::Play => self.playing = true,
            DrawCommand::Pause => self.playing = false,
            DrawCommand::SetShiftMode(m) => self.shift_mode = m,
            DrawCommand::Stop => self.stop_requested = true,
        }
    }

    /// Applies a whole drained burst, in send order.
    pub fn apply_commands(&mut self, cmds: &Vec<DrawCommand>)
        requires
            old(self).wf(),
        ensures
            final(self).wf(),
            *final(self) == apply_commands_spec(*old(self), cmds@),
    {
        let mut i: usize = 0;
        while i < cmds.len()
            invariant
                self.wf(),
                i <= cmds@.len(),
                *self == apply_commands_spec(*old(self), cmds@.take(i as int)),
            decreases cmds@.len() - i,
        {
            proof {
                assert(cmds@.take(i + 1).drop_last() =~= cmds@.take(i as int));
            }
            self.apply_command(cmds[i]);
            i += 1;
        }
        proof {
            assert(cmds@.take(cmds@.len() as int) =~= cmds@);
        }
    }

    /// Whether the render thread should render at all this tick.
    pub fn should_render(&self) -> (r: bool)
        ensures
            r == (self.connected && self.playing),
    {
        self.connected && self.playing
    }

    /// Whether a reconnect is due: only while disconnected, and no more
    /// often than once per reconnect period.
    pub fn should_attempt_reconnect(&self, now_ms: u64) -> (r: bool)
        ensures
            r == (!self.connected && now_ms >= self.last_attempt_ms + RECONNECT_PERIOD_MS),
    {
        !self.connected
            && now_ms >= self.last_attempt_ms
            && now_ms - self.last_attempt_ms >= RECONNECT_PERIOD_MS
    }

    /// Records one reconnect attempt.  Success flips the state to
    /// connected and emits exactly one `DeviceReconnected`; failure leaves
    /// it disconnected and emits nothing, and either way the attempt clock
    /// restarts so the next try waits a full period.
    pub fn note_reconnect_attempt(&mut self, now_ms: u64, ok: bool) -> (ev: Option<DrawEvent>)
        requires
            old(self).wf(),
            !old(self).connected,
        ensures
            final(self).wf(),
            *final(self) == (EngineState {
                connected: ok,
                last_attempt_ms: now_ms,
                ..*old(self)
            }),
            ev == (if ok {
                Some(DrawEvent::DeviceReconnected)
            } else {
                None::<DrawEvent>
            }),
    {
        self.last_attempt_ms = now_ms;
        if ok {
            self.connected = true;
            Some(DrawEvent::DeviceReconnected)
        } else {
            None
        }
    }

    /// Advances the shift cycle for this tick and returns the offset to
    /// composite with.
    pub fn advance_shift(&mut self, now_ms: u64) -> (r: (isize, isize))
        requires
            old(self).wf(),
        ensures
            final(self).wf(),
            *final(self) == shift_advance_spec(*old(self), now_ms),
            (r.0 as int, r.1 as int) == current_shift(*final(self)),
    {
        match self.shift_mode {
            ShiftMode::Off => (0, 0),
            ShiftMode::Simple => {
                if now_ms >= self.last_shift_ms && now_ms - self.last_shift_ms >= SHIFT_PERIOD_MS
                {
                    self.shift_index = (self.shift_index + 1) % SHIFT_COUNT;
                    self.last_shift_ms = now_ms;
                }
                shift_offset_at(self.shift_index)
            },
        }
    }

    /// Whether the composited frame should actually be sent: it differs
    /// from the last sent frame, or the heartbeat period has passed.
    pub fn should_send(&self, screen: &Bitmap, now_ms: u64) -> (r: bool)
        ensures
            r == (!(screen@ =~= self.prev_screen@) || now_ms >= self.last_draw_ms
                + REDRAW_PERIOD_MS),
    {
        let heartbeat = now_ms >= self.last_draw_ms && now_ms - self.last_draw_ms
            >= REDRAW_PERIOD_MS;
        !screen.equals(&self.prev_screen) || heartbeat
    }

    /// Restarts the heartbeat clock; called once a send was decided on.
    pub fn mark_send(&mut self, now_ms: u64)
        requires
            old(self).wf(),
        ensures
            final(self).wf(),
            *final(self) == (EngineState { last_draw_ms: now_ms, ..*old(self) }),
    {
        self.last_draw_ms = now_ms;
    }

    /// Records the outcome of one frame write.  Success keeps the frame as
    /// the new reference for change detection and emits nothing; failure
    /// flips to disconnected and emits exactly one `DeviceDisconnected` —
    /// the error itself is never surfaced.
    pub fn note_draw_result(&mut self, screen: Bitmap, ok: bool) -> (ev: Option<DrawEvent>)
        requires
            old(self).wf(),
            old(self).connected,
            screen@.wf(),
        ensures
            final(self).wf(),
            *final(self) == (if ok {
                EngineState { prev_screen: screen, ..*old(self) }
            } else {
                EngineState { connected: false, ..*old(self) }
            }),
            ev == (if ok {
                None::<DrawEvent>
            } else {
                Some(DrawEvent::DeviceDisconnected)
            }),
    {
        if ok {
            self.prev_screen = screen;
            None
        } else {
            self.connected = false;
            Some(DrawEvent::DeviceDisconnected)
        }
    }

    /// Records the outcome of one status-report read: a failure is the
    /// same disconnect transition as a failed write.
    pub fn note_read_result(&mut self, ok: bool) -> (ev: Option<DrawEvent>)
        requires
            old(self).wf(),
            old(self).connected,
        ensures
            final(self).wf(),
            *final(self) == (if ok {
                *old(self)
            } else {
                EngineState { connected: false, ..*old(self) }
            }),
            ev == (if ok {
                None::<DrawEvent>
            } else {
                Some(DrawEvent::DeviceDisconnected)
            }),
    {
        if ok {
            None
        } else {
            self.connected = false;
            Some(DrawEvent::DeviceDisconnected)
        }
    }
}

/// The ring position's offset, as machine integers.
pub fn shift_offset_at(i: usize) -> (r: (isize, isize))
    requires
        i < SHIFT_COUNT,
    ensures
        (r.0 as int, r.1 as int) == shift_offset(i as int),
{
    if i == 0 {
        (0, 0)
    } else if i == 1 {
        (0, -1)
    } else if i == 2 {
        (1, -1)
    } else if i == 3 {
        (1, 0)
    } else if i == 4 {
        (1, 1)
    } else if i == 5 {
        (0, 1)
    } else if i == 6 {
        (-1, 1)
    } else if i == 7 {
        (-1, 0)
    } else {
        (-1, -1)
    }
}

/// An all-off screen.
pub open spec fn blank_view(w: int, h: int) -> BitmapView {
    BitmapView { w: w as nat, h: h as nat, bits: Seq::new((w * h) as nat, |i: int| false) }
}

/// Index of the last tile copy a scroll layer draws: enough copies to
/// cover the screen width, plus one.
pub open spec fn scroll_copies(screen_w: int, period: int) -> int {
    1 + screen_w / period
}

/// The screen after drawing `n` tile copies of `src`, the `t`-th at
/// `base_x + t * period`, each OR'd in.
pub open spec fn scroll_tiles(
    dst: BitmapView,
    src: BitmapView,
    base_x: int,
    y: int,
    period: int,
    n: nat,
) -> BitmapView
    decreases n,
{
    if n == 0 {
        dst
    } else {
        blit_view(
            scroll_tiles(dst, src, base_x, y, period, (n - 1) as nat),
            src,
            base_x + (n - 1) * period,
            y,
            false,
        )
    }
}

/// What one layer adds to the screen this tick, all blits transparent:
/// an image at its fixed position, an animation's current frame, or a
/// scroll layer's tiled repeats; everything offset by the shift.
pub open spec fn entry_composite(
    dst: BitmapView,
    e: LayerEntry,
    dx: int,
    dy: int,
    screen_w: int,
) -> BitmapView {
    match e.layer {
        DrawLayer::Image { bitmap, x, y } => blit_view(dst, bitmap@, x + dx, y + dy, false),
        DrawLayer::Animation { frames, x, y, .. } => if frames@.len() == 0 {
            dst
        } else {
            blit_view(
                dst,
                frames@[e.state.anim_ticks as int % frames@.len() as int].bitmap@,
                x + dx,
                y + dy,
                false,
            )
        },
        DrawLayer::Scroll { bitmap, y } => {
            let period = bitmap@.w + SCROLL_MARGIN;
            scroll_tiles(
                dst,
                bitmap@,
                e.state.scroll_x + dx,
                y + dy,
                period as int,
                (1 + scroll_copies(screen_w, period as int)) as nat,
            )
        },
    }
}

/// The whole composite of one tick: a blank screen, then every stored
/// layer in insertion order, later layers OR'd on top of earlier ones.
pub open spec fn composite(entries: Seq<LayerEntry>, w: int, h: int, dx: int, dy: int) -> BitmapView
    decreases entries.len(),
{
    if entries.len() == 0 {
        blank_view(w, h)
    } else {
        entry_composite(composite(entries.drop_last(), w, h, dx, dy), entries.last(), dx, dy, w)
    }
}

/// How one tick advances a layer's render state: an animation moves to
/// its next frame — every tick under `follow_fps`, otherwise once its own
/// schedule falls due, pushing the schedule on by the shown frame's delay
/// (or the default) — and a scroll layer moves one pixel left, wrapping
/// after a whole tile.
pub open spec fn step_state(l: DrawLayer, st: LayerState, now_ms: u64) -> LayerState {
    match l {
        DrawLayer::Image { .. } => st,
        DrawLayer::Animation { frames, follow_fps, .. } => if frames@.len() == 0 {
            st
        } else if follow_fps {
            LayerState {
                anim_ticks: ((st.anim_ticks + 1) % (frames@.len() as int)) as usize,
                ..st
            }
        } else if now_ms >= st.anim_next_ms {
            let delay = (match frames@[st.anim_ticks as int % frames@.len() as int].delay_ms {
                Some(d) => d,
                None => DEFAULT_FRAME_DELAY_MS,
            });
            LayerState {
                anim_ticks: ((st.anim_ticks + 1) % (frames@.len() as int)) as usize,
                anim_next_ms: (if st.anim_next_ms + delay > u64::MAX {
                    u64::MAX
                } else {
                    (st.anim_next_ms + delay) as u64
                }),
                ..st
            }
        } else {
            st
        },
        DrawLayer::Scroll { bitmap, .. } => LayerState {
            scroll_x: scroll_step(
                st.scroll_x as int,
                (bitmap@.w + SCROLL_MARGIN) as int,
            ) as isize,
            ..st
        },
    }
}

proof fn lemma_step_state_wf(l: DrawLayer, st: LayerState, now_ms: u64)
    requires
        layer_wf(l),
        state_wf(l, st),
    ensures
        state_wf(l, step_state(l, st, now_ms)),
{
}

proof fn lemma_store_step_wf(pre: LayerStore, post: LayerStore, now_ms: u64, upto: int)
    requires
        pre.wf(),
        post.next_id == pre.next_id,
        post.entries@.len() == pre.entries@.len(),
        forall|k: int|
            0 <= k < upto ==> {
                let e0 = #[trigger] pre.entries@[k];
                let e1 = post.entries@[k];
                &&& e1.id == e0.id
                &&& e1.layer == e0.layer
                &&& e1.state == step_state(e0.layer, e0.state, now_ms)
            },
        forall|k: int|
            upto <= k < post.entries@.len() ==> #[trigger] post.entries@[k] == pre.entries@[k],
    ensures
        post.wf(),
{
    assert forall|k: int| 0 <= k < post.entries@.len() implies {
        let e = #[trigger] post.entries@[k];
        &&& e.id.0 != 0
        &&& e.id.0 < post.next_id
        &&& layer_wf(e.layer)
        &&& state_wf(e.layer, e.state)
    } by {
        assert(pre.entries@[k] == pre.entries@[k]);
        if 0 <= k < upto {
            lemma_step_state_wf(pre.entries@[k].layer, pre.entries@[k].state, now_ms);
        }
    }
    assert forall|a: int, b: int| 0 <= a < b < post.entries@.len() implies
        (#[trigger] post.entries@[a]).id.0 < (#[trigger] post.entries@[b]).id.0 by {
        assert(post.entries@[a].id == pre.entries@[a].id);
        assert(post.entries@[b].id == pre.entries@[b].id);
    }
}

/// Composites every stored layer onto a blank screen for this tick and
/// advances each layer's render state by one tick.
pub fn compose_frame(
    store: &mut LayerStore,
    w: usize,
    h: usize,
    dx: isize,
    dy: isize,
    now_ms: u64,
) -> (screen: Bitmap)
    requires
        old(store).wf(),
        w * h <= usize::MAX,
        w <= 255,
    ensures
        final(store).wf(),
        final(store).next_id == old(store).next_id,
        final(store).entries@.len() == old(store).entries@.len(),
        forall|i: int|
            0 <= i < old(store).entries@.len() ==> {
                let e0 = #[trigger] old(store).entries@[i];
                let e1 = final(store).entries@[i];
                &&& e1.id == e0.id
                &&& e1.layer == e0.layer
                &&& e1.state == step_state(e0.layer, e0.state, now_ms)
            },
        screen@.wf(),
        screen@.w == w,
        screen@.h == h,
        screen@ =~= composite(old(store).entries@, w as int, h as int, dx as int, dy as int),
{
    let mut screen = Bitmap::new(w, h, false);
    proof {
        assert(screen@ =~= blank_view(w as int, h as int));
    }
    let mut i: usize = 0;
    while i < store.entries.len()
        invariant
            old(store).wf(),
            store.wf(),
            w * h <= usize::MAX,
            w <= 255,
            store.next_id == old(store).next_id,
            store.entries@.len() == old(store).entries@.len(),
            i <= store.entries@.len(),
            forall|k: int|
                0 <= k < i ==> {
                    let e0 = #[trigger] old(store).entries@[k];
                    let e1 = store.entries@[k];
                    &&& e1.id == e0.id
                    &&& e1.layer == e0.layer
                    &&& e1.state == step_state(e0.layer, e0.state, now_ms)
                },
            forall|k: int|
                i <= k < store.entries@.len() ==> #[trigger] store.entries@[k] == old(
                    store,
                ).entries@[k],
            screen@.wf(),
            screen@.w == w,
            screen@.h == h,
            screen@ =~= composite(
                old(store).entries@.take(i as int),
                w as int,
                h as int,
                dx as int,
                dy as int,
            ),
        decreases store.entries@.len() - i,
    {
        proof {
            assert(old(store).entries@.take(i + 1).drop_last() =~= old(store).entries@.take(
                i as int,
            ));
            assert(old(store).entries@.take(i + 1).last() == old(store).entries@[i as int]);
            assert(store.entries@[i as int] == old(store).entries@[i as int]);
        }
        let ghost pre_screen = screen@;
        let ghost e0 = store.entries@[i as int];
        let st = store.entries[i].state;
        let ns: LayerState = match &store.entries[i].layer {
            DrawLayer::Image { bitmap, x, y } => {
                screen.blit_wide(bitmap, *x as i128 + dx as i128, *y as i128 + dy as i128, false);
                st
            },
            DrawLayer::Animation { frames, x, y, follow_fps } => {
                if frames.len() == 0 {
                    st
                } else {
                    let idx = st.anim_ticks % frames.len();
                    screen.blit_wide(
                        &frames[idx].bitmap,
                        *x as i128 + dx as i128,
                        *y as i128 + dy as i128,
                        false,
                    );
                    if *follow_fps {
                        LayerState { anim_ticks: (st.anim_ticks + 1) % frames.len(), ..st }
                    } else if now_ms >= st.anim_next_ms {
                        let delay = (match frames[idx].delay_ms {
                            Some(d) => d,
                            None => DEFAULT_FRAME_DELAY_MS,
                        });
                        let next = (if delay > u64::MAX - st.anim_next_ms {
                            u64::MAX
                        } else {
                            st.anim_next_ms + delay
                        });
                        LayerState {
                            anim_ticks: (st.anim_ticks + 1) % frames.len(),
                            anim_next_ms: next,
                            ..st
                        }
                    } else {
                        st
                    }
                }
            },
            DrawLayer::Scroll { bitmap, y } => {
                let period: usize = bitmap.w + SCROLL_MARGIN;
                let copies: usize = 1 + w / period;
                let base: isize = st.scroll_x;
                let ghost tiles_dst = screen@;
                let mut t: usize = 0;
                while t <= copies
                    invariant
                        bitmap@.wf(),
                        bitmap@.w + SCROLL_MARGIN <= isize::MAX,
                        period == bitmap@.w + SCROLL_MARGIN,
                        copies == scroll_copies(w as int, period as int),
                        w <= 255,
                        copies <= 1 + w,
                        t <= copies + 1,
                        screen@.wf(),
                        screen@.w == w,
                        screen@.h == h,
                        screen@ =~= scroll_tiles(
                            tiles_dst,
                            bitmap@,
                            base as int + dx as int,
                            *y as int + dy as int,
                            period as int,
                            t as nat,
                        ),
                    decreases copies + 1 - t,
                {
                    proof {
                        assert(0 <= (t as i128) * (period as i128)
                            <= 257 * 0x8000000000000000i128) by (nonlinear_arith)
                            requires
                                0 <= (t as i128) <= 257,
                                0 <= (period as i128) <= 0x8000000000000000i128,
                        ;
                    }
                    screen.blit_wide(
                        bitmap,
                        base as i128 + dx as i128 + (t as i128) * (period as i128),
                        *y as i128 + dy as i128,
                        false,
                    );
                    t += 1;
                }
                let nx: isize = if base - 1 <= -(period as isize) {
                    base - 1 + period as isize
                } else {
                    base - 1
                };
                LayerState { scroll_x: nx, ..st }
            },
        };
        store.entries[i].state = ns;
        proof {
            assert(store.entries@[i as int].layer == e0.layer);
            assert(ns == step_state(e0.layer, e0.state, now_ms));
            assert(screen@ =~= entry_composite(pre_screen, e0, dx as int, dy as int, w as int));
            lemma_store_step_wf(*old(store), *store, now_ms, i + 1);
        }
        i += 1;
    }
    proof {
        assert(old(store).entries@.take(old(store).entries@.len() as int) =~= old(
            store,
        ).entries@);
    }
    screen
}

/// One scroll tick: the offset moves one pixel left and wraps back by one
/// tile period once a whole tile has scrolled off.
pub open spec fn scroll_step(x: int, period: int) -> int {
    if x - 1 <= -period {
        x - 1 + period
    } else {
        x - 1
    }
}

/// The scroll offset after `k` ticks.
pub open spec fn scroll_iter(x: int, period: int, k: nat) -> int
    decreases k,
{
    if k == 0 {
        x
    } else {
        scroll_step(scroll_iter(x, period, (k - 1) as nat), period)
    }
}

proof fn lemma_scroll_iter_value(x0: int, period: int, k: nat)
    requires
        2 <= period,
        -period < x0 <= 0,
        k <= period,
    ensures
        scroll_iter(x0, period, k) == (if x0 - k <= -period {
            x0 - k + period
        } else {
            x0 - k
        }),
        -period < scroll_iter(x0, period, k) <= 0,
    decreases k,
{
    if k > 0 {
        lemma_scroll_iter_value(x0, period, (k - 1) as nat);
    }
}

/// Scroll wrap law: a scroll layer over a bitmap of width `w` with margin
/// `m` returns to its starting offset after exactly `w + m` ticks, and at
/// no earlier tick.
pub proof fn lemma_scroll_wrap(x0: int, period: int, k: nat)
    requires
        2 <= period,
        -period < x0 <= 0,
        0 < k <= period,
    ensures
        scroll_iter(x0, period, k) == x0 <==> k == period,
{
    lemma_scroll_iter_value(x0, period, k);
}

/// The ring index after `k` sampled shift periods: each elapsed period
/// moves one position, exactly as `shift_advance_spec` does when the
/// period has passed.
pub open spec fn shift_index_iter(i0: int, k: nat) -> int
    decreases k,
{
    if k == 0 {
        i0
    } else {
        (shift_index_iter(i0, (k - 1) as nat) + 1) % 9
    }
}

proof fn lemma_shift_index_iter(i0: int, k: nat)
    requires
        0 <= i0 < 9,
    ensures
        shift_index_iter(i0, k) == (i0 + k) % 9,
    decreases k,
{
    if k > 0 {
        lemma_shift_index_iter(i0, (k - 1) as nat);
        assert(((i0 + (k - 1)) % 9 + 1) % 9 == (i0 + k) % 9) by (nonlinear_arith)
            requires
                0 <= i0,
                1 <= k,
        ;
    }
}

/// Shift cycle law: from any ring position, sampling the offset once per
/// elapsed period walks the ring one step at a time, the offsets of nine
/// consecutive samples are pairwise distinct — each of the nine fixed
/// offsets is visited exactly once — and the ninth sample returns to the
/// start, so the cycle then repeats.
pub proof fn lemma_shift_cycle(i0: int, k1: int, k2: int)
    requires
        0 <= i0 < 9,
        0 <= k1 < k2 < 9,
    ensures
        shift_index_iter(i0, k1 as nat) == (i0 + k1) % 9,
        shift_index_iter(i0, k2 as nat) == (i0 + k2) % 9,
        shift_offset((i0 + k1) % 9) != shift_offset((i0 + k2) % 9),
        shift_index_iter(i0, 9) == i0,
{
    lemma_shift_index_iter(i0, k1 as nat);
    lemma_shift_index_iter(i0, k2 as nat);
    lemma_shift_index_iter(i0, 9);
    assert((i0 + 9) % 9 == i0) by (nonlinear_arith)
        requires
            0 <= i0 < 9,
    ;
}

/// What an image layer shows at screen pixel `(sx, sy)` when composited
/// without a shift: whether its bitmap covers that pixel with a set pixel.
pub open spec fn image_shows(e: LayerEntry, sx: int, sy: int) -> bool {
    match e.layer {
        DrawLayer::Image { bitmap, x, y } => crate::bitmap::blit_covers(bitmap@, x as int, y as int, sx, sy)
            && bitmap@.px(sx - x, sy - y),
        _ => false,
    }
}

proof fn lemma_px_decomp(w: int, h: int, sx: int, sy: int)
    by (nonlinear_arith)
    requires
        0 <= sx < w,
        0 <= sy < h,
    ensures
        0 <= sy * w + sx < w * h,
        (sy * w + sx) % w == sx,
        (sy * w + sx) / w == sy,
{
}

proof fn lemma_blit_view_px(dst: BitmapView, src: BitmapView, x: int, y: int, opaque: bool, sx: int, sy: int)
    requires
        dst.bits.len() == dst.w * dst.h,
        0 <= sx < dst.w,
        0 <= sy < dst.h,
    ensures
        blit_view(dst, src, x, y, opaque).px(sx, sy) == crate::bitmap::blit_px(
            dst,
            src,
            x,
            y,
            opaque,
            sx,
            sy,
        ),
{
    lemma_px_decomp(dst.w as int, dst.h as int, sx, sy);
}

/// Layer ordering law: with two image layers stored in insertion order,
/// the later layer is drawn on top under OR semantics — the composite
/// shows a pixel exactly when either layer shows it, so at an overlap the
/// later layer's set pixels appear, and pixels only the earlier layer
/// sets stay visible beneath it.
pub proof fn lemma_layer_ordering(entries: Seq<LayerEntry>, w: int, h: int, sx: int, sy: int)
    requires
        entries.len() == 2,
        entries[0].layer is Image,
        entries[1].layer is Image,
        0 <= sx < w,
        0 <= sy < h,
    ensures
        composite(entries, w, h, 0, 0).px(sx, sy) == (image_shows(entries[0], sx, sy)
            || image_shows(entries[1], sx, sy)),
{
    let blank = blank_view(w, h);
    let c1 = composite(entries.drop_last().drop_last(), w, h, 0, 0);
    assert(entries.drop_last().drop_last().len() == 0);
    assert(c1 == blank);
    let c2 = composite(entries.drop_last(), w, h, 0, 0);
    assert(entries.drop_last().last() == entries[0]);
    assert(entries.last() == entries[1]);
    lemma_px_decomp(w, h, sx, sy);
    assert(blank.px(sx, sy) == false);
    match entries[0].layer {
        DrawLayer::Image { bitmap, x, y } => {
            lemma_blit_view_px(blank, bitmap@, x as int, y as int, false, sx, sy);
            assert(c2.px(sx, sy) == image_shows(entries[0], sx, sy));
            assert(c2.w == w && c2.h == h && c2.bits.len() == w * h);
            match entries[1].layer {
                DrawLayer::Image { bitmap: b2, x: x2, y: y2 } => {
                    lemma_blit_view_px(c2, b2@, x2 as int, y2 as int, false, sx, sy);
                },
                _ => {},
            }
        },
        _ => {},
    }
}

/// Reconnection law, glued from the tick transitions: a write failure in
/// a connected state moves to the disconnected state and emits exactly
/// one `DeviceDisconnected` (the ensures of `note_draw_result`); while
/// disconnected nothing is rendered, and at any time strictly within one
/// reconnect period of the last attempt no new attempt is due; a failed
/// attempt leaves the engine disconnected and emits nothing, and the
/// first successful attempt emits exactly one `DeviceReconnected` and
/// restores the connection (the ensures of `note_reconnect_attempt`).
pub proof fn lemma_disconnect_reconnect_cycle(
    s0: EngineState,
    t_idle: u64,
    t_fail_retry: u64,
    t_retry: u64,
)
    requires
        s0.connected,
    ensures
        ({
            let s1 = EngineState { connected: false, ..s0 };
            let s_failed = EngineState { connected: false, last_attempt_ms: t_fail_retry, ..s1 };
            let s2 = EngineState { connected: true, last_attempt_ms: t_retry, ..s_failed };
            &&& !(s1.connected && s1.playing)
            &&& t_idle < s1.last_attempt_ms + RECONNECT_PERIOD_MS
                ==> !(!s1.connected && t_idle >= s1.last_attempt_ms + RECONNECT_PERIOD_MS)
            &&& !(s_failed.connected && s_failed.playing)
            &&& s2.connected
        }),
{
}

} // verus!
