//! Placement decisions for drawn content: centering, and how rendered
//! text lines become layers (a too-wide line scrolls, others sit still).
//!
//! Glyph rasterization itself is a collaborator outside this library; it
//! hands over the pixel sizes of the rendered lines, and the decisions
//! here are made on those plain values.

use crate::engine::ShiftMode;
use vstd::prelude::*;

verus! {

/// Signed halving that rounds toward zero, as the centering arithmetic
/// of the peer hardware tooling does.
pub open spec fn div2_trunc(a: int) -> int {
    if a >= 0 {
        a / 2
    } else {
        -((-a) / 2)
    }
}

/// The offset that centers an extent of `inner` inside an extent of
/// `outer`: half the difference, rounded toward zero.
pub open spec fn center_offset(outer: int, inner: int) -> int {
    div2_trunc(outer - inner)
}

/// The signed position that centers a bitmap of size `bm_w` by `bm_h` on
/// a screen of size `screen_w` by `screen_h`.
pub fn center_bitmap(screen_w: usize, screen_h: usize, bm_w: usize, bm_h: usize) -> (r: (
    isize,
    isize,
))
    requires
        screen_w <= isize::MAX,
        screen_h <= isize::MAX,
        bm_w <= isize::MAX,
        bm_h <= isize::MAX,
    ensures
        r.0 == center_offset(screen_w as int, bm_w as int),
        r.1 == center_offset(screen_h as int, bm_h as int),
{
    let x: isize = if bm_w <= screen_w {
        ((screen_w - bm_w) / 2) as isize
    } else {
        -(((bm_w - screen_w) / 2) as isize)
    };
    let y: isize = if bm_h <= screen_h {
        ((screen_h - bm_h) / 2) as isize
    } else {
        -(((bm_h - screen_h) / 2) as isize)
    };
    (x, y)
}

/// Where one rendered text line goes: as a scrolling layer when it is at
/// least as wide as the screen, else as a fixed image at `(x, y)`.
#[derive(Clone, Copy, PartialEq, Eq, Structural, Debug)]
pub struct TextLinePlan {
    pub scroll: bool,
    pub x: isize,
    pub y: isize,
}

/// The vertical base of a block of `count` lines of height `line_height`:
/// the requested y, or centered on the screen.
pub open spec fn text_base_y(y: Option<isize>, screen_h: int, line_height: int, count: int) -> int {
    match y {
        Some(v) => v as int,
        None => center_offset(screen_h, line_height * count),
    }
}

/// Plans the layers for a block of rendered text lines, given each line's
/// pixel size: line `k` sits at the block base plus `k` line heights; a
/// line at least as wide as the screen scrolls, any other becomes a fixed
/// image at the requested x or centered.
pub fn plan_text_layers(
    screen_w: usize,
    screen_h: usize,
    sizes: &Vec<(usize, usize)>,
    line_height: usize,
    x: Option<isize>,
    y: Option<isize>,
) -> (r: Vec<TextLinePlan>)
    requires
        screen_w <= isize::MAX,
        screen_h + line_height * sizes@.len() <= isize::MAX,
        (match y {
            Some(v) => v + line_height * sizes@.len() <= isize::MAX,
            None => true,
        }),
        forall|k: int| 0 <= k < sizes@.len() ==> (#[trigger] sizes@[k]).0 <= isize::MAX,
    ensures
        r@.len() == sizes@.len(),
        forall|k: int|
            0 <= k < r@.len() ==> {
                let p = #[trigger] r@[k];
                let base = text_base_y(
                    y,
                    screen_h as int,
                    line_height as int,
                    sizes@.len() as int,
                );
                &&& p.y == base + k * line_height
                &&& p.scroll == (sizes@[k].0 >= screen_w)
                &&& (!p.scroll ==> p.x == (match x {
                    Some(v) => v as int,
                    None => center_offset(screen_w as int, sizes@[k].0 as int),
                }))
                &&& (p.scroll ==> p.x == 0)
            },
{
    let count = sizes.len();
    let base: isize = match y {
        Some(v) => v,
        None => {
            let block: usize = line_height * count;
            if block <= screen_h {
                ((screen_h - block) / 2) as isize
            } else {
                -(((block - screen_h) / 2) as isize)
            }
        },
    };
    let mut r: Vec<TextLinePlan> = Vec::new();
    let mut k: usize = 0;
    while k < count
        invariant
            count == sizes@.len(),
            screen_w <= isize::MAX,
            screen_h + line_height * sizes@.len() <= isize::MAX,
            (match y {
                Some(v) => v + line_height * sizes@.len() <= isize::MAX,
                None => true,
            }),
            forall|k2: int| 0 <= k2 < sizes@.len() ==> (#[trigger] sizes@[k2]).0 <= isize::MAX,
            base == text_base_y(y, screen_h as int, line_height as int, sizes@.len() as int),
            k <= count,
            r@.len() == k,
            forall|k2: int|
                0 <= k2 < k ==> {
                    let p = #[trigger] r@[k2];
                    &&& p.y == base + k2 * line_height
                    &&& p.scroll == (sizes@[k2].0 >= screen_w)
                    &&& (!p.scroll ==> p.x == (match x {
                        Some(v) => v as int,
                        None => center_offset(screen_w as int, sizes@[k2].0 as int),
                    }))
                    &&& (p.scroll ==> p.x == 0)
                },
        decreases count - k,
    {
        proof {
            let lh = line_height as int;
            let n = sizes@.len() as int;
            let b = base as int;
            assert(0 <= (k as int) * lh && (k as int) * lh <= lh * n) by (nonlinear_arith)
                requires
                    0 <= (k as int) < n,
                    0 <= lh,
            ;
            match y {
                Some(v) => {
                    assert(b == v as int);
                    assert(b + (k as int) * lh <= v + lh * n);
                },
                None => {
                    assert(b == div2_trunc(screen_h as int - lh * n));
                    if screen_h as int >= lh * n {
                        assert(b <= screen_h as int);
                    } else {
                        assert(b <= 0);
                    }
                    assert(b >= -(lh * n));
                },
            }
        }
        let line_y: isize = base + (k * line_height) as isize;
        let (lw, _lh) = sizes[k];
        let plan = if lw >= screen_w {
            TextLinePlan { scroll: true, x: 0, y: line_y }
        } else {
            let px: isize = match x {
                Some(v) => v,
                None => ((screen_w - lw) / 2) as isize,
            };
            TextLinePlan { scroll: false, x: px, y: line_y }
        };
        r.push(plan);
        proof {
            assert(r@.drop_last() =~= r@.take(r@.len() - 1));
        }
        k += 1;
    }
    r
}

/// A position requested on the command line: an exact coordinate, or
/// centered.
#[derive(Clone, Copy, PartialEq, Eq, Structural, Debug)]
pub enum DrawPos {
    Coord(isize),
    Center,
}

impl DrawPos {
    /// The coordinate, or `None` for centering.
    pub fn to_option(self) -> (r: Option<isize>)
        ensures
            r == (match self {
                DrawPos::Coord(c) => Some(c),
                DrawPos::Center => None::<isize>,
            }),
    {
        match self {
            DrawPos::Coord(c) => Some(c),
            DrawPos::Center => None,
        }
    }
}

/// The shift mode named in a configuration file.
#[derive(Clone, Copy, PartialEq, Eq, Structural, Debug)]
pub enum ConfigShiftMode {
    Off,
    Simple,
}

impl ConfigShiftMode {
    /// The engine mode this configuration value selects.
    pub fn to_api(self) -> (r: ShiftMode)
        ensures
            r == (match self {
                ConfigShiftMode::Off => ShiftMode::Off,
                ConfigShiftMode::Simple => ShiftMode::Simple,
            }),
    {
        match self {
            ConfigShiftMode::Off => ShiftMode::Off,
            ConfigShiftMode::Simple => ShiftMode::Simple,
        }
    }
}

impl Default for ConfigShiftMode {
    /// Anti-burn-in protection is on unless configured away.
    fn default() -> (r: Self)
        ensures
            r is Simple,
    {
        ConfigShiftMode::Simple
    }
}

/// What is playing, as shown on the screen's media widget.
#[derive(Clone, PartialEq, Eq, Debug)]
pub struct Media {
    pub title: String,
    pub artist: String,
}

/// Seconds since the last user input.  No idle probe is wired into the
/// library; the count is always zero here, and a desktop embedding
/// substitutes its own probe.
pub fn get_idle_seconds() -> (r: usize)
    ensures
        r == 0,
{
    0
}

} // verus!
