use vstd::prelude::*;
use vstd::arithmetic::div_mod::{lemma_div_by_multiple, lemma_div_is_ordered, lemma_fundamental_div_mod};
use vstd::utf8::encode_utf8;
use crate::config::{ColorsConfig, DisplayConfig};
use crate::native_interop::{color_from_hex_bytes, hex_pairs_on_char_boundaries, Color};
use crate::time_calc::Fraction;

verus! {

// ── Layout constants (at 96 DPI — scaled at runtime) ──────────────────────

/// Window width.
pub const BASE_W: i32 = 216;
/// Window height (designed to fit the taskbar).
pub const BASE_H: i32 = 44;
pub const PADDING: i32 = 4;
/// "Day" / "Wk " text area.
pub const LABEL_W: i32 = 24;
pub const LABEL_GAP: i32 = 4;
pub const BLOCK_W: i32 = 13;
pub const BLOCK_H: i32 = 10;
pub const BLOCK_GAP: i32 = 2;
/// Corner ellipse half-width/height.
pub const BLOCK_RADIUS: i32 = 2;
/// Height of each progress row.
pub const ROW_H: i32 = 14;
/// Gap between the two rows.
pub const ROW_GAP: i32 = 10;
pub const PCT_GAP: i32 = 4;
pub const PCT_W: i32 = 28;
/// Where the blocks start.
pub const BLOCKS_X: i32 = PADDING + LABEL_W + LABEL_GAP;

/// Context-menu command: open the configuration file.
pub const IDM_SETTINGS: u32 = 1001;
/// Context-menu command: quit.
pub const IDM_EXIT: u32 = 1002;
/// Id of the refresh timer.
pub const TIMER_REFRESH: usize = 1;
/// Redraw every 15 s.
pub const REFRESH_MS: u32 = 15_000;

// ── Messages and what they call for ────────────────────────────────────────

/// The window messages the widget reacts to.
#[derive(Clone, Copy, Debug, PartialEq, Eq, Structural)]
pub enum WindowMessage {
    Paint,
    EraseBackground,
    Timer { timer_id: usize },
    RightButtonUp,
    Command { wparam: usize },
    Destroy,
    Other,
}

/// What the window procedure does for a message.
#[derive(Clone, Copy, Debug, PartialEq, Eq, Structural)]
pub enum WindowAction {
    /// Render the widget.
    Paint,
    /// Report the background as erased (the widget paints it itself).
    SuppressErase,
    /// Recompute the progress and the theme, then redraw.
    Refresh,
    /// Show the right-click menu.
    ShowContextMenu,
    /// Open the configuration file, creating it first when missing.
    OpenSettings,
    /// Leave the message loop.
    Exit,
    /// Stop the timer, free the state and leave the message loop.
    Destroy,
    /// Handled, nothing to do.
    Nothing,
    /// Hand the message to the default window procedure.
    Default,
}

/// The command id carried in the low word of a `WM_COMMAND` parameter.
pub open spec fn command_id(wparam: usize) -> int {
    wparam as int % 0x10000
}

pub open spec fn spec_window_action(msg: WindowMessage) -> WindowAction {
    match msg {
        WindowMessage::Paint => WindowAction::Paint,
        WindowMessage::EraseBackground => WindowAction::SuppressErase,
        WindowMessage::Timer { timer_id } => if timer_id == TIMER_REFRESH {
            WindowAction::Refresh
        } else {
            WindowAction::Nothing
        },
        WindowMessage::RightButtonUp => WindowAction::ShowContextMenu,
        WindowMessage::Command { wparam } => if command_id(wparam) == IDM_SETTINGS {
            WindowAction::OpenSettings
        } else if command_id(wparam) == IDM_EXIT {
            WindowAction::Exit
        } else {
            WindowAction::Nothing
        },
        WindowMessage::Destroy => WindowAction::Destroy,
        WindowMessage::Other => WindowAction::Default,
    }
}

/// Decides what the window procedure does with a message.
pub fn window_action(msg: WindowMessage) -> (a: WindowAction)
    ensures
        a == spec_window_action(msg),
        // The same, message by message.
        msg == WindowMessage::Paint ==> a == WindowAction::Paint,
        msg == WindowMessage::EraseBackground ==> a == WindowAction::SuppressErase,
        msg == WindowMessage::RightButtonUp ==> a == WindowAction::ShowContextMenu,
        msg == WindowMessage::Destroy ==> a == WindowAction::Destroy,
        msg == WindowMessage::Other ==> a == WindowAction::Default,
        msg matches WindowMessage::Timer { timer_id } ==> (a == WindowAction::Refresh <==> timer_id
            == TIMER_REFRESH) && (a == WindowAction::Refresh || a == WindowAction::Nothing),
        msg matches WindowMessage::Command { wparam } ==> {
            &&& wparam % 0x10000 == IDM_SETTINGS ==> a == WindowAction::OpenSettings
            &&& wparam % 0x10000 == IDM_EXIT ==> a == WindowAction::Exit
            &&& wparam % 0x10000 != IDM_SETTINGS && wparam % 0x10000 != IDM_EXIT ==> a
                == WindowAction::Nothing
        },
{
    match msg {
        WindowMessage::Paint => WindowAction::Paint,
        WindowMessage::EraseBackground => WindowAction::SuppressErase,
        WindowMessage::Timer { timer_id } => {
            if timer_id == TIMER_REFRESH {
                WindowAction::Refresh
            } else {
                WindowAction::Nothing
            }
        },
        WindowMessage::RightButtonUp => WindowAction::ShowContextMenu,
        WindowMessage::Command { wparam } => {
            let cmd = wparam & 0xFFFF;
            assert(wparam & 0xFFFF == wparam % 0x10000) by (bit_vector);
            if cmd == IDM_SETTINGS as usize {
                WindowAction::OpenSettings
            } else if cmd == IDM_EXIT as usize {
                WindowAction::Exit
            } else {
                WindowAction::Nothing
            }
        },
        WindowMessage::Destroy => WindowAction::Destroy,
        WindowMessage::Other => WindowAction::Default,
    }
}

/// The value the window procedure returns for an action; `None` where the
/// default window procedure answers.
pub fn message_result(a: WindowAction) -> (r: Option<isize>)
    ensures
        r == (match a {
            WindowAction::Default => None,
            WindowAction::SuppressErase => Some(1isize),
            _ => Some(0isize),
        }),
{
    match a {
        WindowAction::Default => None,
        WindowAction::SuppressErase => Some(1),
        _ => Some(0),
    }
}

// ── Blocks ─────────────────────────────────────────────────────────────────

/// How one progress block is painted.
#[derive(Clone, Copy, Debug, PartialEq, Eq, Structural)]
pub enum BlockFill {
    /// In the filled color.
    Filled,
    /// A blend of the filled and the empty color, `num / den` of the way to
    /// the filled one.
    Partial { num: u64, den: u64 },
    /// In the empty color.
    Empty,
}

/// Whole blocks covered by `pct` of a row of `n` blocks: floor(pct * n).
pub open spec fn filled_blocks(pct: Fraction, n: int) -> int {
    (pct.num * n) / (pct.den as int)
}

/// What is left of `pct * n` past the whole blocks, in units of `1 / den`.
pub open spec fn partial_rest(pct: Fraction, n: int) -> int {
    (pct.num * n) % (pct.den as int)
}

/// Block `i` of a row of `n` blocks at progress `pct`: the whole blocks are
/// filled; the next one is blended when more than a hundredth of it is
/// covered; the rest are empty.
pub open spec fn block_fill(pct: Fraction, n: int, i: int) -> BlockFill {
    if i < filled_blocks(pct, n) {
        BlockFill::Filled
    } else if i == filled_blocks(pct, n) && 100 * partial_rest(pct, n) > pct.den {
        BlockFill::Partial { num: partial_rest(pct, n) as u64, den: pct.den as u64 }
    } else {
        BlockFill::Empty
    }
}

/// How each block of a row of `num_blocks` blocks is painted at progress `pct`.
pub fn row_fills(pct: Fraction, num_blocks: u8) -> (fills: Vec<BlockFill>)
    requires
        pct.wf(),
    ensures
        fills.len() == num_blocks,
        forall|i: int| 0 <= i < num_blocks ==> fills[i] == block_fill(pct, num_blocks as int, i),
        // The same, by multiplication: block i is filled when pct covers i + 1
        // blocks, blended when it covers more than a hundredth of block i.
        forall|i: int|
            0 <= i < num_blocks ==> ((fills[i] == BlockFill::Filled) <==> (i + 1) * pct.den
                <= pct.num * num_blocks),
        forall|i: int|
            0 <= i < num_blocks ==> ((fills[i] is Partial) <==> (i * pct.den <= pct.num
                * num_blocks < (i + 1) * pct.den && 100 * (pct.num * num_blocks - i * pct.den)
                > pct.den)),
        forall|i: int|
            0 <= i < num_blocks ==> (#[trigger] fills[i] matches BlockFill::Partial { num, den }
                ==> num == pct.num * num_blocks - i * pct.den && den == pct.den),
{
    let n = num_blocks as u64;
    let den = pct.den as u64;
    assert(pct.num * num_blocks <= 0x8000_0000 * 256) by (nonlinear_arith)
        requires
            0 <= pct.num < 0x8000_0000,
            num_blocks < 256,
    ;
    let covered = pct.num as u64 * n;
    let filled = covered / den;
    let rest = covered % den;
    let mut fills: Vec<BlockFill> = Vec::new();
    let mut i: u64 = 0;
    while i < n
        invariant
            n == num_blocks,
            pct.wf(),
            den == pct.den,
            covered == pct.num * num_blocks,
            filled == filled_blocks(pct, num_blocks as int),
            rest == partial_rest(pct, num_blocks as int),
            i <= n,
            fills.len() == i,
            forall|j: int| 0 <= j < i ==> fills[j] == block_fill(pct, num_blocks as int, j),
        decreases n - i,
    {
        let f = if i < filled {
            BlockFill::Filled
        } else if i == filled && 100 * rest > den {
            BlockFill::Partial { num: rest, den }
        } else {
            BlockFill::Empty
        };
        fills.push(f);
        i = i + 1;
    }
    proof {
        assert forall|i: int| 0 <= i < num_blocks implies #[trigger] fills[i] == block_fill(
            pct,
            num_blocks as int,
            i,
        ) && ((fills[i] == BlockFill::Filled) <==> (i + 1) * pct.den <= pct.num * num_blocks)
            && ((fills[i] is Partial) <==> (i * pct.den <= pct.num * num_blocks < (i + 1)
            * pct.den && 100 * (pct.num * num_blocks - i * pct.den) > pct.den)) && (
        fills[i] matches BlockFill::Partial { num, den } ==> num == pct.num * num_blocks - i
            * pct.den && den == pct.den) by {
            lemma_block_fill_by_multiplication(pct, num_blocks as int, i);
        }
    }
    fills
}

/// Block `i` of `n` is filled exactly when `pct` covers `i + 1` blocks, that
/// is `(i + 1) * den <= num * n`, so that floor(pct * n) blocks are filled;
/// it is blended exactly when `pct` ends inside it, past a hundredth of it,
/// and the blend is the part of it that is covered.
pub proof fn lemma_block_fill_by_multiplication(pct: Fraction, n: int, i: int)
    requires
        pct.wf(),
        0 <= n,
        0 <= i,
    ensures
        (block_fill(pct, n, i) == BlockFill::Filled) <==> (i + 1) * pct.den <= pct.num * n,
        (block_fill(pct, n, i) is Partial) <==> (i * pct.den <= pct.num * n < (i + 1) * pct.den
            && 100 * (pct.num * n - i * pct.den) > pct.den),
        block_fill(pct, n, i) matches BlockFill::Partial { num, den } ==> num == pct.num * n - i
            * pct.den && den == pct.den,
{
    let x = pct.num * n;
    let d = pct.den as int;
    let q = x / d;
    let r = x % d;
    lemma_fundamental_div_mod(x, d);
    assert(x == d * q + r);
    assert(0 <= r < d);
    assert(x >= 0) by (nonlinear_arith)
        requires
            pct.num >= 0,
            n >= 0,
            x == pct.num * n,
    ;
    assert((i < q) <==> ((i + 1) * d <= x)) by (nonlinear_arith)
        requires
            x == d * q + r,
            0 <= r < d,
            0 <= i,
    ;
    assert((i == q) <==> (i * d <= x < (i + 1) * d)) by (nonlinear_arith)
        requires
            x == d * q + r,
            0 <= r < d,
            0 <= i,
    ;
    assert(i == q ==> r == x - i * d) by (nonlinear_arith)
        requires
            x == d * q + r,
    ;
}

/// At full progress every block is filled.
pub proof fn lemma_full_row_all_filled(pct: Fraction, n: int, i: int)
    requires
        pct.wf(),
        pct.is_full(),
        0 <= i < n,
    ensures
        block_fill(pct, n, i) == BlockFill::Filled,
{
    lemma_div_by_multiple(n, pct.den as int);
    assert(pct.num * n == n * pct.den) by (nonlinear_arith)
        requires
            pct.num == pct.den,
    ;
}

/// At zero progress every block is empty.
pub proof fn lemma_zero_row_all_empty(pct: Fraction, n: int, i: int)
    requires
        pct.wf(),
        pct.num == 0,
        0 <= i < n,
    ensures
        block_fill(pct, n, i) == BlockFill::Empty,
{
    assert(pct.num * n == 0);
}

/// A block filled at some progress stays filled at any greater progress
/// measured in the same unit.
pub proof fn lemma_filled_block_stays_filled(a: Fraction, b: Fraction, n: int, i: int)
    requires
        a.wf(),
        b.wf(),
        a.den == b.den,
        a.num <= b.num,
        0 <= n,
        block_fill(a, n, i) == BlockFill::Filled,
    ensures
        block_fill(b, n, i) == BlockFill::Filled,
{
    assert(a.num * n <= b.num * n) by (nonlinear_arith)
        requires
            a.num <= b.num,
            0 <= n,
    ;
    lemma_div_is_ordered(a.num * n, b.num * n, a.den as int);
}

// ── Positioning ────────────────────────────────────────────────────────────

pub open spec fn fits_i32(v: int) -> bool {
    i32::MIN <= v <= i32::MAX
}

/// Where the widget sits: 8 px from the right edge of the screen and 4 px
/// above the bottom of the work area (the top of a bottom taskbar), never
/// off the top-left of the screen.
pub fn widget_position(screen_w: i32, work_area_bottom: i32, w: i32, h: i32) -> (pos: (i32, i32))
    requires
        fits_i32(screen_w - w),
        fits_i32(screen_w - w - 8),
        fits_i32(work_area_bottom - h),
        fits_i32(work_area_bottom - h - 4),
    ensures
        pos.0 == (if screen_w - w - 8 < 0 { 0 } else { screen_w - w - 8 }),
        pos.1 == (if work_area_bottom - h - 4 < 0 { 0 } else { work_area_bottom - h - 4 }),
{
    let x = screen_w - w - 8;
    let y = work_area_bottom - h - 4;
    (if x < 0 { 0 } else { x }, if y < 0 { 0 } else { y })
}

// ── Row layout ─────────────────────────────────────────────────────────────

/// A screen rectangle.
#[derive(Clone, Copy, Debug, PartialEq, Eq, Structural)]
pub struct Rect {
    pub left: i32,
    pub top: i32,
    pub right: i32,
    pub bottom: i32,
}

/// The measures of a row, already scaled to the window's DPI.
#[derive(Clone, Copy, Debug, PartialEq, Eq, Structural)]
pub struct RowMetrics {
    /// Scaled `PADDING`.
    pub padding: i32,
    /// Scaled `PADDING + LABEL_W`.
    pub label_right: i32,
    /// Scaled `ROW_H`.
    pub row_h: i32,
    /// Scaled `BLOCK_W`.
    pub block_w: i32,
    /// Scaled `BLOCK_H`.
    pub block_h: i32,
    /// Scaled `BLOCK_GAP`.
    pub block_gap: i32,
    /// Scaled `BLOCK_RADIUS`.
    pub radius: i32,
    /// Scaled `BLOCKS_X`.
    pub blocks_x: i32,
    /// Scaled `PCT_GAP`.
    pub pct_gap: i32,
    /// Scaled `PCT_W`.
    pub pct_w: i32,
}

/// Half of `v`, rounded toward zero (integer division by two).
pub open spec fn half_toward_zero(v: int) -> int {
    if v >= 0 {
        v / 2
    } else {
        -((-v) / 2)
    }
}

/// Top of the blocks: centred vertically in the row.
pub open spec fn block_top(m: RowMetrics, row_y: int) -> int {
    row_y + half_toward_zero(m.row_h - m.block_h)
}

/// Distance from one block to the next.
pub open spec fn block_step(m: RowMetrics) -> int {
    m.block_w + m.block_gap
}

/// Left edge of block `i`.
pub open spec fn block_left(m: RowMetrics, i: int) -> int {
    m.blocks_x + i * block_step(m)
}

/// The rectangle of block `i` of a row at `row_y`.
pub open spec fn block_rect(m: RowMetrics, row_y: int, i: int) -> Rect {
    Rect {
        left: block_left(m, i) as i32,
        top: block_top(m, row_y) as i32,
        right: (block_left(m, i) + m.block_w) as i32,
        bottom: (block_top(m, row_y) + m.block_h) as i32,
    }
}

/// No value computed in laying out `n` blocks leaves the range of `i32`.
pub open spec fn blocks_fit(m: RowMetrics, row_y: int, n: int) -> bool {
    &&& fits_i32(m.row_h - m.block_h)
    &&& fits_i32(block_top(m, row_y))
    &&& fits_i32(block_step(m))
    &&& fits_i32(block_top(m, row_y) + m.block_h)
    &&& n > 0 ==> fits_i32(m.radius * 2)
    &&& forall|i: int|
        0 <= i < n ==> fits_i32(#[trigger] (i * block_step(m))) && fits_i32(block_left(m, i))
            && fits_i32(block_left(m, i) + m.block_w)
}

/// The blocks of a row: their rectangles, and the diameter of their rounded
/// corners.
pub struct BlockLayout {
    pub rects: Vec<Rect>,
    pub corner_diameter: i32,
}

/// Lays out the `num_blocks` blocks of a row whose top is at `row_y`.
pub fn block_layout(m: &RowMetrics, row_y: i32, num_blocks: i32) -> (l: BlockLayout)
    requires
        blocks_fit(*m, row_y as int, num_blocks as int),
    ensures
        l.rects.len() == (if num_blocks < 0 { 0 } else { num_blocks as int }),
        forall|i: int| 0 <= i < l.rects.len() ==> l.rects[i] == block_rect(*m, row_y as int, i),
        l.corner_diameter == (if num_blocks > 0 { m.radius * 2 } else { 0 }),
        // The same, read directly off the metrics: blocks one `block_w +
        // block_gap` apart from `blocks_x`, `block_w` wide and `block_h` high,
        // centred in the row (integer halving, toward zero).
        forall|i: int|
            0 <= i < l.rects.len() ==> {
                &&& #[trigger] l.rects[i].left == m.blocks_x + i * (m.block_w + m.block_gap)
                &&& l.rects[i].right == l.rects[i].left + m.block_w
                &&& l.rects[i].bottom == l.rects[i].top + m.block_h
                &&& m.row_h - m.block_h >= 0 ==> l.rects[i].top == row_y + (m.row_h - m.block_h)
                    / 2
                &&& m.row_h - m.block_h < 0 ==> l.rects[i].top == row_y - (m.block_h - m.row_h)
                    / 2
            },
        forall|i: int|
            0 <= i < l.rects.len() - 1 ==> #[trigger] l.rects[i + 1].left - l.rects[i].left
                == m.block_w + m.block_gap,
{
    let diff = m.row_h - m.block_h;
    let half = diff / 2;
    let top = row_y + half;
    let bottom = top + m.block_h;
    let step = m.block_w + m.block_gap;
    let corner_diameter = if num_blocks > 0 { m.radius * 2 } else { 0 };
    let mut rects: Vec<Rect> = Vec::new();
    let mut i: i32 = 0;
    while i < num_blocks
        invariant
            blocks_fit(*m, row_y as int, num_blocks as int),
            0 <= i,
            num_blocks >= 0 ==> i <= num_blocks,
            num_blocks < 0 ==> i == 0,
            top == block_top(*m, row_y as int),
            bottom == top + m.block_h,
            step == block_step(*m),
            rects.len() == i,
            forall|j: int| 0 <= j < i ==> rects[j] == block_rect(*m, row_y as int, j),
        decreases num_blocks - i,
    {
        assert(fits_i32(i * block_step(*m)));
        let left = m.blocks_x + i * step;
        rects.push(Rect { left, top, right: left + m.block_w, bottom });
        i = i + 1;
    }
    proof {
        assert forall|i: int| 0 <= i < rects.len() implies {
            &&& #[trigger] rects[i].left == m.blocks_x + i * (m.block_w + m.block_gap)
            &&& rects[i].right == rects[i].left + m.block_w
            &&& rects[i].bottom == rects[i].top + m.block_h
            &&& m.row_h - m.block_h >= 0 ==> rects[i].top == row_y + (m.row_h - m.block_h) / 2
            &&& m.row_h - m.block_h < 0 ==> rects[i].top == row_y - (m.block_h - m.row_h) / 2
        } by {
            lemma_block_rect_placement(*m, row_y as int, i);
        }
        assert forall|i: int| 0 <= i < rects.len() - 1 implies #[trigger] rects[i + 1].left
            - rects[i].left == m.block_w + m.block_gap by {
            lemma_block_rect_placement(*m, row_y as int, i);
            lemma_block_rect_placement(*m, row_y as int, i + 1);
        }
    }
    BlockLayout { rects, corner_diameter }
}

/// Where block `i` lies, in terms of the metrics: `i` steps of `block_w +
/// block_gap` from `blocks_x`, `block_w` wide, `block_h` high, centred in the
/// row; consecutive blocks are one step apart.
pub proof fn lemma_block_rect_placement(m: RowMetrics, row_y: int, i: int)
    requires
        fits_i32(block_left(m, i)),
        fits_i32(block_left(m, i) + m.block_w),
        fits_i32(block_top(m, row_y)),
        fits_i32(block_top(m, row_y) + m.block_h),
    ensures
        block_rect(m, row_y, i).left == m.blocks_x + i * (m.block_w + m.block_gap),
        block_rect(m, row_y, i).right == block_rect(m, row_y, i).left + m.block_w,
        block_rect(m, row_y, i).bottom == block_rect(m, row_y, i).top + m.block_h,
        m.row_h - m.block_h >= 0 ==> block_rect(m, row_y, i).top == row_y + (m.row_h - m.block_h)
            / 2,
        m.row_h - m.block_h < 0 ==> block_rect(m, row_y, i).top == row_y - (m.block_h - m.row_h)
            / 2,
        block_left(m, i + 1) - block_left(m, i) == m.block_w + m.block_gap,
{
    assert((i + 1) * (m.block_w + m.block_gap) - i * (m.block_w + m.block_gap) == m.block_w
        + m.block_gap) by (nonlinear_arith);
}

/// Left edge of the percentage text: one gap after the last block.
pub open spec fn percent_left(m: RowMetrics, n: int) -> int {
    m.blocks_x + n * block_step(m) - m.block_gap + m.pct_gap
}

/// No value computed in placing the percentage text leaves the range of `i32`.
pub open spec fn percent_fits(m: RowMetrics, row_y: int, n: int) -> bool {
    &&& fits_i32(block_step(m))
    &&& fits_i32(n * block_step(m))
    &&& fits_i32(m.blocks_x + n * block_step(m))
    &&& fits_i32(m.blocks_x + n * block_step(m) - m.block_gap)
    &&& fits_i32(percent_left(m, n))
    &&& fits_i32(percent_left(m, n) + m.pct_w)
    &&& fits_i32(row_y + m.row_h)
}

/// Where the percentage (or weekend) text of a row of `num_blocks` blocks goes.
pub fn percent_rect(m: &RowMetrics, row_y: i32, num_blocks: i32) -> (r: Rect)
    requires
        percent_fits(*m, row_y as int, num_blocks as int),
    ensures
        r == (Rect {
            left: percent_left(*m, num_blocks as int) as i32,
            top: row_y,
            right: (percent_left(*m, num_blocks as int) + m.pct_w) as i32,
            bottom: (row_y + m.row_h) as i32,
        }),
        // The same, read directly off the metrics.
        r.left == m.blocks_x + num_blocks * (m.block_w + m.block_gap) - m.block_gap + m.pct_gap,
        r.right == r.left + m.pct_w,
        r.top == row_y,
        r.bottom == row_y + m.row_h,
{
    let left = m.blocks_x + num_blocks * (m.block_w + m.block_gap) - m.block_gap + m.pct_gap;
    Rect { left, top: row_y, right: left + m.pct_w, bottom: row_y + m.row_h }
}

/// Where the "Day" / "Wk " label of a row goes.
pub fn label_rect(m: &RowMetrics, row_y: i32) -> (r: Rect)
    requires
        fits_i32(row_y + m.row_h),
    ensures
        r == (Rect { left: m.padding, top: row_y, right: m.label_right, bottom: (row_y + m.row_h) as i32 }),
{
    Rect { left: m.padding, top: row_y, right: m.label_right, bottom: row_y + m.row_h }
}

// ── Row colors ─────────────────────────────────────────────────────────────

/// The two progress rows.
#[derive(Clone, Copy, Debug, PartialEq, Eq, Structural)]
pub enum Row {
    Day,
    Week,
}

impl Row {
    /// The text before the blocks.
    pub fn label(self) -> (s: &'static str)
        ensures
            s@ == (match self {
                Row::Day => "Day"@,
                Row::Week => "Wk "@,
            }),
    {
        match self {
            Row::Day => "Day",
            Row::Week => "Wk ",
        }
    }
}

/// The colors a row is drawn with.
#[derive(Clone, Copy, Debug, PartialEq, Eq, Structural)]
pub struct RowColors {
    pub filled: Color,
    pub empty: Color,
    pub text: Color,
}

/// The hex string of a row's filled blocks: the weekend color on weekends.
pub open spec fn filled_hex(c: ColorsConfig, row: Row, is_weekend: bool) -> Seq<char> {
    if is_weekend {
        c.weekend_filled@
    } else {
        match row {
            Row::Day => c.day_filled@,
            Row::Week => c.week_filled@,
        }
    }
}

/// The hex string of a row's empty blocks.
pub open spec fn empty_hex(c: ColorsConfig, row: Row) -> Seq<char> {
    match row {
        Row::Day => c.day_empty@,
        Row::Week => c.week_empty@,
    }
}

/// The colors of a row, read from the configured hex strings.
pub fn row_colors(colors: &ColorsConfig, row: Row, is_weekend: bool) -> (rc: RowColors)
    requires
        hex_pairs_on_char_boundaries(encode_utf8(filled_hex(*colors, row, is_weekend))),
        hex_pairs_on_char_boundaries(encode_utf8(empty_hex(*colors, row))),
        hex_pairs_on_char_boundaries(encode_utf8(colors.text_color@)),
    ensures
        rc.filled == color_from_hex_bytes(encode_utf8(filled_hex(*colors, row, is_weekend))),
        rc.empty == color_from_hex_bytes(encode_utf8(empty_hex(*colors, row))),
        rc.text == color_from_hex_bytes(encode_utf8(colors.text_color@)),
        // The same, read directly off the palette: on weekends every row is
        // filled with the weekend color.
        is_weekend ==> rc.filled == color_from_hex_bytes(encode_utf8(colors.weekend_filled@)),
        !is_weekend && row == Row::Day ==> rc.filled == color_from_hex_bytes(
            encode_utf8(colors.day_filled@),
        ),
        !is_weekend && row == Row::Week ==> rc.filled == color_from_hex_bytes(
            encode_utf8(colors.week_filled@),
        ),
        row == Row::Day ==> rc.empty == color_from_hex_bytes(encode_utf8(colors.day_empty@)),
        row == Row::Week ==> rc.empty == color_from_hex_bytes(encode_utf8(colors.week_empty@)),
{
    let filled_str = if is_weekend {
        colors.weekend_filled.as_str()
    } else {
        match row {
            Row::Day => colors.day_filled.as_str(),
            Row::Week => colors.week_filled.as_str(),
        }
    };
    let empty_str = match row {
        Row::Day => colors.day_empty.as_str(),
        Row::Week => colors.week_empty.as_str(),
    };
    RowColors {
        filled: Color::from_hex(filled_str),
        empty: Color::from_hex(empty_str),
        text: Color::from_hex(colors.text_color.as_str()),
    }
}

/// On weekends every row, the Day row included, is filled with the weekend
/// color; on weekdays each row has its own filled color; the empty color is
/// always the row's own.
pub proof fn lemma_row_color_sources(c: ColorsConfig, row: Row)
    ensures
        filled_hex(c, row, true) == c.weekend_filled@,
        filled_hex(c, Row::Day, false) == c.day_filled@,
        filled_hex(c, Row::Week, false) == c.week_filled@,
        empty_hex(c, Row::Day) == c.day_empty@,
        empty_hex(c, Row::Week) == c.week_empty@,
{
}

// ── Row text ───────────────────────────────────────────────────────────────

/// The text shown after a row's blocks.
#[derive(Clone, Debug, PartialEq, Eq)]
pub enum RowText {
    /// No text: percentages are switched off.
    Nothing,
    /// The configured weekend label.
    WeekendLabel(String),
    /// The row's progress as a percentage.
    Percentage,
}

/// Which text a row shows: nothing when percentages are switched off, the
/// weekend label on weekends, the percentage otherwise.
pub fn row_text(display: &DisplayConfig, is_weekend: bool) -> (t: RowText)
    ensures
        !display.show_percentage ==> t == RowText::Nothing,
        display.show_percentage && is_weekend ==> (t matches RowText::WeekendLabel(label)
            && label@ == display.weekend_label@),
        display.show_percentage && !is_weekend ==> t == RowText::Percentage,
{
    if !display.show_percentage {
        RowText::Nothing
    } else if is_weekend {
        RowText::WeekendLabel(display.weekend_label.clone())
    } else {
        RowText::Percentage
    }
}

} // verus!
