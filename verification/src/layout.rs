//! The arithmetic of the dashboard's layout: where the refresh control
//! goes, how tall the CPU panels are and how the information row is split.

use vstd::prelude::*;
use crate::decimal::{dec_digits, pow10};
use crate::draw::misc::digit_count;
use crate::ui::Rect;

verus! {

/// The width of the refresh control's text `"   - {ms}ms  +   "`.
pub open spec fn ticker_text_len(ms: u64) -> int {
    dec_digits(ms as nat).len() + 13int
}

/// Where the refresh control is drawn on a screen `frame_width` cells
/// wide: on the top line, its right end two cells from the right edge.
pub open spec fn ticker_area_spec(frame_width: u16, ms: u64) -> Rect {
    let len = ticker_text_len(ms);
    Rect {
        x: (if frame_width >= len + 2 { frame_width - (len + 2) } else { 0 }) as u16,
        y: 0,
        width: len as u16,
        height: 1,
    }
}

/// How many cores share a row of the core graph in a panel `panel_width`
/// cells wide (its border taken off): ten cells of label and at least ten
/// of bar each, at least one core.
pub open spec fn cores_per_row(panel_width: u16) -> int {
    let inner = if panel_width >= 2 { panel_width - 2 } else { 0 };
    if inner / 20 >= 1 { inner / 20 } else { 1 }
}

/// The rows `num_cores` cores take, `per_row` to a row.
pub open spec fn rows_needed(num_cores: int, per_row: int) -> int {
    (num_cores + per_row - 1) / per_row
}

/// The height of the core graph: its rows and the two borders, at least
/// five.
pub open spec fn cores_height_spec(num_cores: usize, panel_width: u16) -> u16 {
    let rows = rows_needed(num_cores as int, cores_per_row(panel_width));
    (if rows + 2 >= 5 { rows + 2 } else { 5 }) as u16
}

/// The height of the information row: the longer of the model and cache
/// lists, at least two lines, and the two borders.
pub open spec fn info_height_spec(model_lines: usize, cache_lines: usize) -> u16 {
    let m = if model_lines >= cache_lines { model_lines as int } else { cache_lines as int };
    ((if m >= 2 { m } else { 2 }) + 2) as u16
}

/// The height of the temperature row: none without sensors, else the
/// taller of the sensor list and the bars with one line more.
pub open spec fn temp_height_spec(has_temps: bool, widget_height: u16, bar_height: u16) -> u16 {
    if !has_temps {
        0
    } else if widget_height >= bar_height + 1 {
        widget_height
    } else {
        (bar_height + 1) as u16
    }
}

/// The widest of some line widths; zero where there is none.
pub open spec fn widest(lens: Seq<usize>) -> int
    decreases lens.len(),
{
    if lens.len() == 0 {
        0
    } else {
        let w = widest(lens.drop_last());
        if lens.last() >= w {
            lens.last() as int
        } else {
            w
        }
    }
}

/// The width a boxed list of lines asks for: its widest line (twenty
/// where it has none) and four cells of border and padding.
pub open spec fn content_width_spec(lens: Seq<usize>) -> int {
    (if lens.len() == 0 { 20 } else { widest(lens) }) + 4
}

/// The information row split into model, cache and memory boxes: the
/// model box as wide as its lines ask, at most the row; the cache box next
/// to it, at most what is left; the memory box takes the rest.
pub open spec fn info_row_spec(area: Rect, model_width: int, cache_width: int) -> (Rect, Rect, Rect) {
    let mw = if model_width <= area.width { model_width } else { area.width as int };
    let cw = if cache_width <= area.width - mw { cache_width } else { area.width - mw };
    (
        Rect { x: area.x, y: area.y, width: mw as u16, height: area.height },
        Rect { x: (area.x + mw) as u16, y: area.y, width: cw as u16, height: area.height },
        Rect {
            x: (area.x + mw + cw) as u16,
            y: area.y,
            width: (area.width - mw - cw) as u16,
            height: area.height,
        },
    )
}

/// Where the refresh control goes on a screen `frame_width` cells wide.
pub fn ticker_area(frame_width: u16, duration_ms: u64) -> (r: Rect)
    ensures
        r == ticker_area_spec(frame_width, duration_ms),
{
    let len = (digit_count(duration_ms) + 13) as u16;
    let x = if frame_width >= len + 2 {
        frame_width - (len + 2)
    } else {
        0
    };
    Rect { x, y: 0, width: len, height: 1 }
}

/// The height of the core graph for `num_cores` cores in a panel
/// `panel_width` cells wide.
pub fn cores_height(num_cores: usize, panel_width: u16) -> (h: u16)
    requires
        num_cores + cores_per_row(panel_width) + 1 <= usize::MAX,
    ensures
        h == cores_height_spec(num_cores, panel_width),
{
    let inner: usize = if panel_width >= 2 {
        (panel_width - 2) as usize
    } else {
        0
    };
    let per_row: usize = if inner / 20 >= 1 {
        inner / 20
    } else {
        1
    };
    let rows = (num_cores + per_row - 1) / per_row;
    proof {
        vstd::arithmetic::div_mod::lemma_div_is_ordered_by_denominator(
            (num_cores + per_row - 1) as int,
            1,
            per_row as int,
        );
    }
    let h = if rows + 2 >= 5 {
        rows + 2
    } else {
        5
    };
    h as u16
}

/// The height of the information row for the given numbers of model and
/// cache lines.
pub fn info_height(model_lines: usize, cache_lines: usize) -> (h: u16)
    requires
        model_lines + 2 <= usize::MAX,
        cache_lines + 2 <= usize::MAX,
    ensures
        h == info_height_spec(model_lines, cache_lines),
{
    let m = if model_lines >= cache_lines {
        model_lines
    } else {
        cache_lines
    };
    let m = if m >= 2 {
        m
    } else {
        2
    };
    (m + 2) as u16
}

/// The height of the temperature row.
pub fn temp_height(has_temps: bool, widget_height: u16, bar_height: u16) -> (h: u16)
    requires
        bar_height < u16::MAX,
    ensures
        h == temp_height_spec(has_temps, widget_height, bar_height),
{
    if !has_temps {
        0
    } else if widget_height >= bar_height + 1 {
        widget_height
    } else {
        bar_height + 1
    }
}

/// The width a boxed list of lines of the given widths asks for.
pub fn content_width(lens: &Vec<usize>) -> (w: usize)
    requires
        forall|i: int| 0 <= i < lens.len() ==> lens[i] + 4 <= usize::MAX,
    ensures
        w == content_width_spec(lens@),
{
    if lens.len() == 0 {
        return 24;
    }
    let mut m: usize = 0;
    let mut i: usize = 0;
    while i < lens.len()
        invariant
            i <= lens.len(),
            m == widest(lens@.take(i as int)),
            forall|k: int| 0 <= k < lens.len() ==> lens[k] + 4 <= usize::MAX,
            m + 4 <= usize::MAX,
        decreases lens.len() - i,
    {
        assert(lens@.take(i + 1).drop_last() =~= lens@.take(i as int));
        if lens[i] >= m {
            m = lens[i];
        }
        i = i + 1;
    }
    assert(lens@.take(lens.len() as int) =~= lens@);
    m + 4
}

/// The information row `area` split into model, cache and memory boxes,
/// the model and cache lists asking for the given widths.
pub fn info_row(area: Rect, model_width: usize, cache_width: usize) -> (r: (Rect, Rect, Rect))
    requires
        area.fits(),
    ensures
        r == info_row_spec(area, model_width as int, cache_width as int),
{
    let mw: u16 = if model_width <= area.width as usize {
        model_width as u16
    } else {
        area.width
    };
    let left: u16 = area.width - mw;
    let cw: u16 = if cache_width <= left as usize {
        cache_width as u16
    } else {
        left
    };
    (
        Rect { x: area.x, y: area.y, width: mw, height: area.height },
        Rect { x: area.x + mw, y: area.y, width: cw, height: area.height },
        Rect { x: area.x + mw + cw, y: area.y, width: area.width - mw - cw, height: area.height },
    )
}

/// The three boxes of the information row tile it: each starts where the
/// previous one ends, all share its top and height, and their widths add
/// up to its width.
pub proof fn lemma_info_row_tiles(area: Rect, model_width: int, cache_width: int)
    requires
        area.fits(),
        model_width >= 0,
        cache_width >= 0,
    ensures
        ({
            let (m, c, r) = info_row_spec(area, model_width, cache_width);
            &&& m.x == area.x && c.x == m.x + m.width && r.x == c.x + c.width
            &&& m.width + c.width + r.width == area.width
            &&& m.y == area.y && c.y == area.y && r.y == area.y
            &&& m.height == area.height && c.height == area.height && r.height == area.height
        }),
{
}

/// The core graph has room for every core: with its two borders taken
/// off, its rows hold at least `num_cores` cores, and it is the least such
/// height that is at least five, whenever that height fits a `u16`.
pub proof fn lemma_cores_fit(num_cores: usize, panel_width: u16)
    requires
        num_cores <= 65533 * cores_per_row(panel_width),
    ensures
        ({
            let h = cores_height_spec(num_cores, panel_width) as int;
            let p = cores_per_row(panel_width);
            &&& h >= 5
            &&& (h - 2) * p >= num_cores
            &&& h == 5 || (h - 3) * p < num_cores
        }),
{
    let p = cores_per_row(panel_width);
    let n = num_cores as int;
    assert(p >= 1);
    let rows = (n + p - 1) / p;
    vstd::arithmetic::div_mod::lemma_fundamental_div_mod(n + p - 1, p);
    let r = (n + p - 1) % p;
    assert(0 <= r < p) by {
        vstd::arithmetic::div_mod::lemma_mod_pos_bound(n + p - 1, p);
    }
    assert(rows * p >= n) by (nonlinear_arith)
        requires
            n + p - 1 == p * rows + r,
            r < p,
    ;
    assert((rows - 1) * p < n) by (nonlinear_arith)
        requires
            n + p - 1 == p * rows + r,
            0 <= r,
    ;
    assert(rows <= 65533) by (nonlinear_arith)
        requires
            rows * p - p < n,
            n <= 65533 * p,
            p >= 1,
    ;
    assert(rows >= 0) by (nonlinear_arith)
        requires
            n + p - 1 == p * rows + r,
            r < p,
            n >= 0,
            p >= 1,
    ;
    if rows + 2 < 5 {
        assert(5 * p >= rows * p + 2 * p) by (nonlinear_arith)
            requires
                rows < 3,
                p >= 1,
        ;
    }
}

/// The information row is tall enough for both lists and for two lines,
/// with its two borders, and no taller than the tallest of them.
pub proof fn lemma_info_fits(model_lines: usize, cache_lines: usize)
    requires
        model_lines <= 65533,
        cache_lines <= 65533,
    ensures
        ({
            let inside = info_height_spec(model_lines, cache_lines) - 2;
            &&& inside >= model_lines
            &&& inside >= cache_lines
            &&& inside >= 2
            &&& inside == model_lines || inside == cache_lines || inside == 2
        }),
{
}

/// The temperature row is empty without sensors; with them, it is as tall
/// as the sensor list and one line taller than the bars, and no taller
/// than the larger of those.
pub proof fn lemma_temp_row_fits(has_temps: bool, widget_height: u16, bar_height: u16)
    requires
        bar_height < u16::MAX,
    ensures
        !has_temps ==> temp_height_spec(has_temps, widget_height, bar_height) == 0,
        has_temps ==> {
            let h = temp_height_spec(has_temps, widget_height, bar_height);
            &&& h >= widget_height
            &&& h >= bar_height + 1
            &&& h == widget_height || h == bar_height + 1
        },
{
}

/// The widest of some line widths is at least each of them, and is one of
/// them where there is any.
pub proof fn lemma_widest_is_max(lens: Seq<usize>)
    ensures
        forall|i: int| 0 <= i < lens.len() ==> #[trigger] lens[i] <= widest(lens),
        lens.len() > 0 ==> exists|i: int| 0 <= i < lens.len() && #[trigger] lens[i] == widest(lens),
    decreases lens.len(),
{
    if lens.len() > 0 {
        let t = lens.drop_last();
        lemma_widest_is_max(t);
        assert forall|i: int| 0 <= i < lens.len() implies #[trigger] lens[i] <= widest(lens) by {
            if i < lens.len() - 1 {
                assert(lens[i] == t[i]);
            }
        }
        if lens.last() < widest(t) {
            let i = choose|i: int| 0 <= i < t.len() && #[trigger] t[i] == widest(t);
            assert(lens[i] == t[i]);
        }
    }
}

/// A number below ten to the `k` has at most `k` digits.
proof fn lemma_digits_within(n: nat, k: nat)
    requires
        k >= 1,
        n < pow10(k),
    ensures
        dec_digits(n).len() <= k,
    decreases n,
{
    if n >= 10 {
        assert(k >= 2) by {
            if k == 1 {
                assert(pow10(1) == 10 * pow10(0));
            }
        }
        assert(pow10(k) == 10 * pow10((k - 1) as nat));
        assert(n / 10 < pow10((k - 1) as nat));
        lemma_digits_within(n / 10, (k - 1) as nat);
    }
}

/// The refresh control sits on the top line, one line high and as wide as
/// its text; where the screen is wide enough its right end is two cells
/// from the right edge, else it starts at the left edge.
pub proof fn lemma_ticker_right_aligned(frame_width: u16, ms: u64)
    ensures
        ({
            let r = ticker_area_spec(frame_width, ms);
            let len = ticker_text_len(ms);
            &&& r.y == 0
            &&& r.height == 1
            &&& r.width == len
            &&& frame_width >= len + 2 ==> r.x + len + 2 == frame_width
            &&& frame_width < len + 2 ==> r.x == 0
        }),
{
    reveal_with_fuel(pow10, 21);
    assert(pow10(20) == 100000000000000000000);
    lemma_digits_within(ms as nat, 20);
}

} // verus!
