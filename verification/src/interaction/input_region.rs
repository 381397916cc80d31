//! The clickable input region of the pet image: transparent pixels let clicks
//! through, every other pixel of the rendered image takes them.

use vstd::prelude::*;

verus! {

/// An integer rectangle, in surface coordinates.
#[derive(Clone, Copy, Debug, PartialEq, Eq, Structural)]
pub struct RectangleInt {
    pub x: i32,
    pub y: i32,
    pub width: i32,
    pub height: i32,
}

/// The pixel data of the displayed image, as the image holds it.
pub struct PixelData {
    pub width: i32,
    pub height: i32,
    pub has_alpha: bool,
    pub n_channels: i32,
    pub rowstride: i32,
    /// The raw pixel bytes, when the image exposes them.
    pub bytes: Option<Vec<u8>>,
}

/// A pixel buffer whose layout the scan can index: at least one channel,
/// no negative size or stride, and every offset it computes fits in `usize`.
pub open spec fn pixel_layout_ok(p: &PixelData) -> bool {
    &&& p.n_channels >= 1
    &&& p.rowstride >= 0
    &&& p.width >= 0
    &&& p.height >= 0
    &&& p.height * p.rowstride + p.width * p.n_channels + p.n_channels <= usize::MAX
}

/// A render box whose rectangles have coordinates that fit in `i32`.
pub open spec fn render_box_ok(offset_x: i32, offset_y: i32, render_w: i32, render_h: i32) -> bool {
    (render_w > 0 && render_h > 0) ==> (offset_x + render_w <= i32::MAX + 1 && offset_y + render_h
        <= i32::MAX + 1)
}

/// The source coordinate that rendered coordinate `d` samples when a source
/// extent `src` is scaled to a rendered extent `render`.
pub open spec fn src_coord(d: int, src: int, render: int) -> int {
    (d * src) / render
}

/// The byte offset of the alpha channel of source pixel `(sx, sy)`.
pub open spec fn alpha_offset(p: &PixelData, sx: int, sy: int) -> int {
    sy * p.rowstride + sx * p.n_channels + (p.n_channels - 1)
}

/// Source pixel `(sx, sy)` has a nonzero alpha byte; a pixel whose alpha byte
/// lies past the end of the data counts as transparent.
pub open spec fn pixel_opaque(p: &PixelData, bytes: Seq<u8>, sx: int, sy: int) -> bool {
    let o = alpha_offset(p, sx, sy);
    o < bytes.len() && bytes[o] > 0
}

/// Whether rendered pixel `(dx, dy)` is opaque, for a render box of
/// `render_w` by `render_h`.
pub open spec fn rendered_opaque(
    p: &PixelData,
    bytes: Seq<u8>,
    render_w: int,
    render_h: int,
    dx: int,
    dy: int,
) -> bool {
    pixel_opaque(p, bytes, src_coord(dx, p.width as int, render_w), src_coord(dy, p.height as int, render_h))
}

/// Opacity of the rendered row `dy`, one entry per rendered column.
pub open spec fn scaled_row(p: &PixelData, bytes: Seq<u8>, render_w: int, render_h: int, dy: int) -> Seq<bool> {
    Seq::new(
        if render_w > 0 { render_w as nat } else { 0 },
        |dx: int| rendered_opaque(p, bytes, render_w, render_h, dx, dy),
    )
}

/// The end (exclusive) of the run of opaque entries that starts at `i`.
pub open spec fn run_end(row: Seq<bool>, i: int) -> int
    decreases row.len() - i,
{
    if i < 0 || i >= row.len() || !row[i] {
        i
    } else {
        run_end(row, i + 1)
    }
}

/// The maximal runs of opaque entries of `row` from position `i` on, each as
/// `(start, length)`, left to right.
pub open spec fn runs_from(row: Seq<bool>, i: int) -> Seq<(int, int)>
    decreases row.len() - i,
{
    if i < 0 || i >= row.len() {
        Seq::empty()
    } else if !row[i] {
        runs_from(row, i + 1)
    } else {
        let e = run_end(row, i);
        if e <= i || e > row.len() {
            Seq::empty()
        } else {
            seq![(i, e - i)].add(runs_from(row, e))
        }
    }
}

/// The rectangle of height one that a run of rendered row `dy` becomes.
pub open spec fn run_rect(run: (int, int), offset_x: int, offset_y: int, dy: int) -> RectangleInt {
    RectangleInt {
        x: (offset_x + run.0) as i32,
        y: (offset_y + dy) as i32,
        width: run.1 as i32,
        height: 1,
    }
}

/// The rectangles of a sequence of runs of rendered row `dy`.
pub open spec fn runs_rects(runs: Seq<(int, int)>, offset_x: int, offset_y: int, dy: int) -> Seq<RectangleInt> {
    runs.map_values(|r: (int, int)| run_rect(r, offset_x, offset_y, dy))
}

/// The rectangles of rendered row `dy`: one per maximal opaque run.
pub open spec fn row_rects(
    p: &PixelData,
    bytes: Seq<u8>,
    offset_x: int,
    offset_y: int,
    render_w: int,
    render_h: int,
    dy: int,
) -> Seq<RectangleInt> {
    runs_rects(runs_from(scaled_row(p, bytes, render_w, render_h, dy), 0), offset_x, offset_y, dy)
}

/// The rectangles of the rendered rows `0 .. rows`, top to bottom.
pub open spec fn rows_rects(
    p: &PixelData,
    bytes: Seq<u8>,
    offset_x: int,
    offset_y: int,
    render_w: int,
    render_h: int,
    rows: int,
) -> Seq<RectangleInt>
    decreases rows,
{
    if rows <= 0 {
        Seq::empty()
    } else {
        rows_rects(p, bytes, offset_x, offset_y, render_w, render_h, rows - 1).add(
            row_rects(p, bytes, offset_x, offset_y, render_w, render_h, rows - 1),
        )
    }
}

/// The whole render box as one rectangle.
pub open spec fn full_rect(offset_x: i32, offset_y: i32, render_w: i32, render_h: i32) -> RectangleInt {
    RectangleInt { x: offset_x, y: offset_y, width: render_w, height: render_h }
}

/// The clickable region of an image scaled into a render box: the opaque runs
/// of every rendered row; the whole box when the image has no alpha channel,
/// exposes no bytes, or has no opaque rendered pixel.
pub open spec fn scaled_region(
    p: &PixelData,
    offset_x: i32,
    offset_y: i32,
    render_w: i32,
    render_h: i32,
) -> Seq<RectangleInt> {
    let full = seq![full_rect(offset_x, offset_y, render_w, render_h)];
    if !p.has_alpha {
        full
    } else {
        match p.bytes {
            None => full,
            Some(b) => {
                let rs = rows_rects(
                    p,
                    b@,
                    offset_x as int,
                    offset_y as int,
                    render_w as int,
                    render_h as int,
                    render_h as int,
                );
                if rs.len() == 0 {
                    full
                } else {
                    rs
                }
            },
        }
    }
}

/// Facts about the end of an opaque run.
pub proof fn lemma_run_end(row: Seq<bool>, i: int)
    requires
        0 <= i <= row.len(),
    ensures
        i <= run_end(row, i) <= row.len(),
        forall|j: int| i <= j < run_end(row, i) ==> row[j],
        run_end(row, i) == row.len() || !row[run_end(row, i)],
    decreases row.len() - i,
{
    if i < row.len() && row[i] {
        lemma_run_end(row, i + 1);
    }
}

/// Scanning one more opaque entry continues the same run.
proof fn lemma_run_end_step(row: Seq<bool>, i: int)
    requires
        0 <= i < row.len(),
        row[i],
    ensures
        run_end(row, i) == run_end(row, i + 1),
{
}

/// The runs from an opaque entry start with the run at that entry.
proof fn lemma_runs_from_opaque(row: Seq<bool>, i: int)
    requires
        0 <= i < row.len(),
        row[i],
    ensures
        runs_from(row, i) == seq![(i, run_end(row, i) - i)].add(runs_from(row, run_end(row, i))),
{
    lemma_run_end(row, i + 1);
    lemma_run_end_step(row, i);
}

/// Rectangles of concatenated runs are the concatenated rectangles.
proof fn lemma_runs_rects_add(a: Seq<(int, int)>, b: Seq<(int, int)>, ox: int, oy: int, dy: int)
    ensures
        runs_rects(a.add(b), ox, oy, dy) == runs_rects(a, ox, oy, dy).add(runs_rects(b, ox, oy, dy)),
{
    assert(runs_rects(a.add(b), ox, oy, dy) =~= runs_rects(a, ox, oy, dy).add(runs_rects(b, ox, oy, dy)));
}

/// Multiplying a row index below `n` by `m` and dividing by `n` stays below
/// `m` (for positive `m`) and is never negative.
proof fn lemma_scaled_coord(d: int, m: int, n: int)
    requires
        0 <= d < n,
        0 <= m,
    ensures
        0 <= (d * m) / n,
        m > 0 ==> (d * m) / n < m,
        m == 0 ==> (d * m) / n == 0,
        d * m <= (n - 1) * m,
{
    assert(0 <= d * m) by (nonlinear_arith)
        requires
            0 <= d,
            0 <= m,
    ;
    assert(d * m <= (n - 1) * m) by (nonlinear_arith)
        requires
            0 <= d < n,
            0 <= m,
    ;
    assert(0 <= (d * m) / n) by (nonlinear_arith)
        requires
            0 <= d * m,
            0 < n,
    ;
    if m > 0 {
        assert((d * m) / n < m) by (nonlinear_arith)
            requires
                0 <= d < n,
                0 < m,
        ;
    }
    if m == 0 {
        assert(d * m == 0) by (nonlinear_arith)
            requires
                m == 0,
        ;
    }
}


/// The runs of `row` not yet emitted when the scan stands at `dx`, with an
/// open run starting at `start` if there is one.
pub open spec fn pending_runs(row: Seq<bool>, dx: int, start: Option<i32>) -> Seq<(int, int)> {
    match start {
        None => runs_from(row, dx),
        Some(s) => seq![(s as int, run_end(row, dx) - s)].add(runs_from(row, run_end(row, dx))),
    }
}

/// The source coordinate sampled by rendered coordinate `d`.
fn source_index(d: i32, src: i32, render: i32) -> (r: usize)
    requires
        0 <= d < render,
        0 <= src,
    ensures
        r as int == src_coord(d as int, src as int, render as int),
        r <= src,
        src > 0 ==> r < src,
{
    proof {
        lemma_scaled_coord(d as int, src as int, render as int);
        assert((d as u64) * (src as u64) <= 0x7fff_ffff * 0x7fff_ffff) by (nonlinear_arith)
            requires
                0 <= d <= 0x7fff_ffff,
                0 <= src <= 0x7fff_ffff,
        ;
    }
    let prod: u64 = (d as u64) * (src as u64);
    let q: u64 = prod / (render as u64);
    q as usize
}

/// Appends the rectangles of rendered row `dy` to `rects`.
fn scan_row(
    pixbuf: &PixelData,
    bytes: &Vec<u8>,
    offset_x: i32,
    offset_y: i32,
    render_w: i32,
    render_h: i32,
    dy: i32,
    rects: &mut Vec<RectangleInt>,
)
    requires
        pixel_layout_ok(pixbuf),
        render_box_ok(offset_x, offset_y, render_w, render_h),
        0 <= dy < render_h,
    ensures
        final(rects)@ == old(rects)@.add(
            row_rects(pixbuf, bytes@, offset_x as int, offset_y as int, render_w as int, render_h as int, dy as int),
        ),
{
    let ghost row = scaled_row(pixbuf, bytes@, render_w as int, render_h as int, dy as int);
    let ghost ox = offset_x as int;
    let ghost oy = offset_y as int;
    if render_w <= 0 {
        assert(runs_from(row, 0) =~= Seq::<(int, int)>::empty());
        assert(rects@ =~= old(rects)@.add(runs_rects(runs_from(row, 0), ox, oy, dy as int)));
        return;
    }
    let sy = source_index(dy, pixbuf.height, render_h);
    let channels = pixbuf.n_channels as usize;
    let rowstride = pixbuf.rowstride as usize;
    let alpha_idx = channels - 1;
    proof {
        assert(sy * rowstride <= pixbuf.height * pixbuf.rowstride) by (nonlinear_arith)
            requires
                sy <= pixbuf.height,
                0 <= rowstride,
                rowstride == pixbuf.rowstride,
        ;
    }
    let ghost all_runs = runs_from(row, 0);
    let mut run_start: Option<i32> = None;
    let mut dx: i32 = 0;
    while dx < render_w
        invariant
            pixel_layout_ok(pixbuf),
            render_box_ok(offset_x, offset_y, render_w, render_h),
            0 < render_w,
            0 <= dy < render_h,
            ox == offset_x,
            oy == offset_y,
            row == scaled_row(pixbuf, bytes@, render_w as int, render_h as int, dy as int),
            all_runs == runs_from(row, 0),
            sy as int == src_coord(dy as int, pixbuf.height as int, render_h as int),
            sy * rowstride <= pixbuf.height * pixbuf.rowstride,
            channels == pixbuf.n_channels,
            rowstride == pixbuf.rowstride,
            alpha_idx + 1 == channels,
            0 <= dx <= render_w,
            run_start matches Some(s) ==> 0 <= s < dx,
            old(rects)@.add(runs_rects(all_runs, ox, oy, dy as int)) == rects@.add(
                runs_rects(pending_runs(row, dx as int, run_start), ox, oy, dy as int),
            ),
        decreases render_w - dx,
    {
        let sx = source_index(dx, pixbuf.width, render_w);
        proof {
            assert(sx * channels <= pixbuf.width * pixbuf.n_channels) by (nonlinear_arith)
                requires
                    sx <= pixbuf.width,
                    0 <= channels,
                    channels == pixbuf.n_channels,
            ;
        }
        let offset = sy * rowstride + sx * channels;
        let opaque = if offset + alpha_idx < bytes.len() {
            bytes[offset + alpha_idx] > 0
        } else {
            false
        };
        assert(opaque == row[dx as int]);
        let ghost prev = rects@;
        match run_start {
            None => {
                if opaque {
                    proof {
                        lemma_runs_from_opaque(row, dx as int);
                        lemma_run_end_step(row, dx as int);
                    }
                    run_start = Some(dx);
                } else {
                }
            },
            Some(start) => {
                if !opaque {
                    let rect = RectangleInt {
                        x: offset_x + start,
                        y: offset_y + dy,
                        width: dx - start,
                        height: 1,
                    };
                    rects.push(rect);
                    proof {
                        let run = (start as int, dx - start);
                        assert(run_end(row, dx as int) == dx);
                        assert(rect == run_rect(run, ox, oy, dy as int));
                        lemma_runs_rects_add(seq![run], runs_from(row, dx as int), ox, oy, dy as int);
                        assert(runs_rects(seq![run], ox, oy, dy as int) =~= seq![rect]);
                        assert(prev.push(rect) =~= prev.add(seq![rect]));
                    }
                    run_start = None;
                } else {
                    proof {
                        lemma_run_end_step(row, dx as int);
                    }
                }
            },
        }
        dx = dx + 1;
    }
    if let Some(start) = run_start {
        let rect = RectangleInt {
            x: offset_x + start,
            y: offset_y + dy,
            width: render_w - start,
            height: 1,
        };
        rects.push(rect);
        proof {
            let run = (start as int, render_w - start);
            assert(run_end(row, dx as int) == dx);
            assert(runs_from(row, dx as int) =~= Seq::<(int, int)>::empty());
            assert(seq![run].add(Seq::<(int, int)>::empty()) =~= seq![run]);
            assert(runs_rects(seq![run], ox, oy, dy as int) =~= seq![rect]);
        }
    } else {
        assert(runs_from(row, dx as int) =~= Seq::<(int, int)>::empty());
        assert(runs_rects(Seq::<(int, int)>::empty(), ox, oy, dy as int) =~= Seq::<RectangleInt>::empty());
    }
}

/// The rectangles of all rendered rows, top to bottom.
fn scan_rows(
    pixbuf: &PixelData,
    bytes: &Vec<u8>,
    offset_x: i32,
    offset_y: i32,
    render_w: i32,
    render_h: i32,
) -> (rects: Vec<RectangleInt>)
    requires
        pixel_layout_ok(pixbuf),
        render_box_ok(offset_x, offset_y, render_w, render_h),
    ensures
        rects@ == rows_rects(
            pixbuf,
            bytes@,
            offset_x as int,
            offset_y as int,
            render_w as int,
            render_h as int,
            render_h as int,
        ),
{
    let mut rects: Vec<RectangleInt> = Vec::new();
    if render_h <= 0 {
        return rects;
    }
    let mut dy: i32 = 0;
    while dy < render_h
        invariant
            pixel_layout_ok(pixbuf),
            render_box_ok(offset_x, offset_y, render_w, render_h),
            0 <= dy <= render_h,
            rects@ == rows_rects(
                pixbuf,
                bytes@,
                offset_x as int,
                offset_y as int,
                render_w as int,
                render_h as int,
                dy as int,
            ),
        decreases render_h - dy,
    {
        scan_row(pixbuf, bytes, offset_x, offset_y, render_w, render_h, dy, &mut rects);
        dy = dy + 1;
    }
    rects
}

/// Scans the alpha channel of an image scaled into the render box at
/// `(offset_x, offset_y)` of `render_w` by `render_h`, and returns the
/// clickable region as rectangles of height one, one per maximal run of
/// opaque rendered pixels, row by row; the whole box when the image has no
/// alpha channel, exposes no bytes, or shows no opaque pixel.
pub fn create_region_from_pixbuf_scaled(
    pixbuf: &PixelData,
    offset_x: i32,
    offset_y: i32,
    render_w: i32,
    render_h: i32,
) -> (region: Vec<RectangleInt>)
    requires
        pixel_layout_ok(pixbuf),
        render_box_ok(offset_x, offset_y, render_w, render_h),
    ensures
        region@ == scaled_region(pixbuf, offset_x, offset_y, render_w, render_h),
{
    let full = RectangleInt { x: offset_x, y: offset_y, width: render_w, height: render_h };
    if !pixbuf.has_alpha {
        return vec![full];
    }
    let bytes = match &pixbuf.bytes {
        Some(b) => b,
        None => {
            return vec![full];
        },
    };
    let rects = scan_rows(pixbuf, bytes, offset_x, offset_y, render_w, render_h);
    if rects.len() == 0 {
        vec![full]
    } else {
        rects
    }
}

/// The input region for the image drawn at `(offset_x, offset_y)` with the
/// allocated size `render_w` by `render_h`: the scanned region when the
/// allocation is not empty, else the image's own extent at the origin.
pub open spec fn image_input_region_spec(
    pixbuf: &PixelData,
    offset_x: i32,
    offset_y: i32,
    render_w: i32,
    render_h: i32,
) -> Seq<RectangleInt> {
    if render_w > 0 && render_h > 0 {
        scaled_region(pixbuf, offset_x, offset_y, render_w, render_h)
    } else {
        seq![full_rect(0, 0, pixbuf.width, pixbuf.height)]
    }
}

/// The input region for the image drawn in the allocation at
/// `(offset_x, offset_y)` of `render_w` by `render_h`.
pub fn image_input_region(
    pixbuf: &PixelData,
    offset_x: i32,
    offset_y: i32,
    render_w: i32,
    render_h: i32,
) -> (region: Vec<RectangleInt>)
    requires
        pixel_layout_ok(pixbuf),
        render_box_ok(offset_x, offset_y, render_w, render_h),
    ensures
        region@ == image_input_region_spec(pixbuf, offset_x, offset_y, render_w, render_h),
{
    if render_w > 0 && render_h > 0 {
        create_region_from_pixbuf_scaled(pixbuf, offset_x, offset_y, render_w, render_h)
    } else {
        vec![RectangleInt { x: 0, y: 0, width: pixbuf.width, height: pixbuf.height }]
    }
}

/// A run `(start, length)` of `row` that is maximal: not empty, inside the
/// row, opaque throughout, and bounded by a transparent entry or the row's
/// edge on both sides.
pub open spec fn maximal_run(row: Seq<bool>, run: (int, int)) -> bool {
    &&& 0 <= run.0
    &&& 1 <= run.1
    &&& run.0 + run.1 <= row.len()
    &&& forall|j: int| run.0 <= j < run.0 + run.1 ==> row[j]
    &&& run.0 == 0 || !row[run.0 - 1]
    &&& run.0 + run.1 == row.len() || !row[run.0 + run.1]
}

/// Entry `x` lies in one of `runs`.
pub open spec fn covered_by(runs: Seq<(int, int)>, x: int) -> bool {
    exists|k: int| 0 <= k < runs.len() && #[trigger] runs[k].0 <= x < runs[k].0 + runs[k].1
}

/// The runs found from `i` on are the maximal runs that start at or after
/// `i`, left to right with a gap between neighbours, and they cover exactly
/// the opaque entries at or after `i`.
proof fn lemma_runs_from_exact(row: Seq<bool>, i: int)
    requires
        0 <= i <= row.len(),
        i == 0 || !row[i - 1] || i == row.len() || !row[i],
    ensures
        forall|k: int| 0 <= k < runs_from(row, i).len() ==> maximal_run(row, #[trigger] runs_from(row, i)[k])
            && runs_from(row, i)[k].0 >= i,
        forall|k: int|
            0 <= k < runs_from(row, i).len() - 1 ==> #[trigger] runs_from(row, i)[k].0 + runs_from(row, i)[k].1
                < runs_from(row, i)[k + 1].0,
        forall|x: int| i <= x < row.len() ==> (row[x] <==> covered_by(runs_from(row, i), x)),
    decreases row.len() - i,
{
    let rs = runs_from(row, i);
    if i == row.len() {
        assert(rs.len() == 0);
    } else if !row[i] {
        lemma_runs_from_exact(row, i + 1);
        assert(rs == runs_from(row, i + 1));
        assert forall|x: int| i <= x < row.len() implies (row[x] <==> covered_by(rs, x)) by {
            if x == i {
                if covered_by(rs, x) {
                    let k = choose|k: int| 0 <= k < rs.len() && #[trigger] rs[k].0 <= x < rs[k].0 + rs[k].1;
                    assert(rs[k].0 >= i + 1);
                }
            }
        }
    } else {
        lemma_run_end(row, i);
        let e = run_end(row, i);
        lemma_run_end_step(row, i);
        lemma_run_end(row, i + 1);
        assert(e > i);
        let tail = runs_from(row, e);
        lemma_runs_from_exact(row, e);
        assert(rs == seq![(i, e - i)].add(tail));
        assert forall|k: int| 0 <= k < rs.len() implies maximal_run(row, #[trigger] rs[k]) && rs[k].0 >= i by {
            if k > 0 {
                assert(rs[k] == tail[k - 1]);
            }
        }
        assert forall|k: int| 0 <= k < rs.len() - 1 implies #[trigger] rs[k].0 + rs[k].1 < rs[k + 1].0 by {
            if k > 0 {
                assert(rs[k] == tail[k - 1]);
                assert(rs[k + 1] == tail[k]);
            } else {
                assert(rs[1] == tail[0]);
                assert(tail[0].0 >= e);
                assert(!row[e]);
                assert(tail[0].0 != e);
            }
        }
        assert forall|x: int| i <= x < row.len() implies (row[x] <==> covered_by(rs, x)) by {
            if x < e {
                assert(rs[0].0 <= x < rs[0].0 + rs[0].1);
            } else {
                if row[x] {
                    assert(covered_by(tail, x));
                    let k = choose|k: int| 0 <= k < tail.len() && #[trigger] tail[k].0 <= x < tail[k].0 + tail[k].1;
                    assert(rs[k + 1] == tail[k]);
                }
                if covered_by(rs, x) {
                    let k = choose|k: int| 0 <= k < rs.len() && #[trigger] rs[k].0 <= x < rs[k].0 + rs[k].1;
                    if k == 0 {
                    } else {
                        assert(rs[k] == tail[k - 1]);
                        assert(maximal_run(row, tail[k - 1]));
                    }
                }
            }
        }
    }
}

/// The rectangles of one rendered row are exactly its opaque pixels: each is
/// one pixel high at the row's height, at least one pixel wide, lies in the
/// render box, and the rendered pixel `dx` of the row is opaque if and only if
/// some rectangle of the row covers it; neighbouring rectangles never touch.
pub proof fn lemma_row_region_exact(
    pixbuf: &PixelData,
    bytes: Seq<u8>,
    offset_x: i32,
    offset_y: i32,
    render_w: i32,
    render_h: i32,
    dy: int,
)
    requires
        render_box_ok(offset_x, offset_y, render_w, render_h),
        0 <= dy < render_h,
    ensures
        ({
            let rs = row_rects(
                pixbuf,
                bytes,
                offset_x as int,
                offset_y as int,
                render_w as int,
                render_h as int,
                dy,
            );
            &&& forall|k: int|
                0 <= k < rs.len() ==> {
                    &&& #[trigger] rs[k].y == offset_y + dy
                    &&& rs[k].height == 1
                    &&& rs[k].width >= 1
                    &&& offset_x <= rs[k].x
                    &&& rs[k].x + rs[k].width <= offset_x + render_w
                }
            &&& forall|k: int| 0 <= k < rs.len() - 1 ==> #[trigger] rs[k].x + rs[k].width < rs[k + 1].x
            &&& forall|dx: int|
                0 <= dx < render_w ==> (rendered_opaque(
                    pixbuf,
                    bytes,
                    render_w as int,
                    render_h as int,
                    dx,
                    dy,
                ) <==> exists|k: int|
                    0 <= k < rs.len() && #[trigger] rs[k].x <= offset_x + dx < rs[k].x + rs[k].width)
        }),
{
    let row = scaled_row(pixbuf, bytes, render_w as int, render_h as int, dy);
    let runs = runs_from(row, 0);
    let ox = offset_x as int;
    let oy = offset_y as int;
    let rs = row_rects(pixbuf, bytes, ox, oy, render_w as int, render_h as int, dy);
    if render_w <= 0 {
        assert(rs.len() == 0);
        return;
    }
    lemma_runs_from_exact(row, 0);
    assert(rs.len() == runs.len());
    assert forall|k: int| 0 <= k < rs.len() implies rs[k] == run_rect(runs[k], ox, oy, dy) && rs[k].x == ox
        + runs[k].0 && rs[k].width == runs[k].1 by {
        assert(maximal_run(row, runs[k]));
    }
    assert forall|k: int| 0 <= k < rs.len() - 1 implies #[trigger] rs[k].x + rs[k].width < rs[k + 1].x by {
        assert(rs[k].x == ox + runs[k].0 && rs[k].width == runs[k].1);
        assert(rs[k + 1].x == ox + runs[k + 1].0);
        assert(runs[k].0 + runs[k].1 < runs[k + 1].0);
    }
    assert forall|dx: int| 0 <= dx < render_w implies (rendered_opaque(
        pixbuf,
        bytes,
        render_w as int,
        render_h as int,
        dx,
        dy,
    ) <==> exists|k: int| 0 <= k < rs.len() && #[trigger] rs[k].x <= offset_x + dx < rs[k].x + rs[k].width) by {
        assert(row[dx] == rendered_opaque(pixbuf, bytes, render_w as int, render_h as int, dx, dy));
        if row[dx] {
            let k = choose|k: int| 0 <= k < runs.len() && #[trigger] runs[k].0 <= dx < runs[k].0 + runs[k].1;
            assert(rs[k].x == ox + runs[k].0 && rs[k].width == runs[k].1);
            assert(rs[k].x <= offset_x + dx < rs[k].x + rs[k].width);
        }
        if exists|k: int| 0 <= k < rs.len() && #[trigger] rs[k].x <= offset_x + dx < rs[k].x + rs[k].width {
            let k = choose|k: int| 0 <= k < rs.len() && #[trigger] rs[k].x <= offset_x + dx < rs[k].x + rs[k].width;
            assert(rs[k].x == ox + runs[k].0 && rs[k].width == runs[k].1);
            assert(covered_by(runs, dx));
        }
    }
}

/// Rectangle `r` covers the surface point `(x, y)`.
pub open spec fn rect_covers(r: RectangleInt, x: int, y: int) -> bool {
    r.x <= x < r.x + r.width && r.y <= y < r.y + r.height
}

/// The rectangles of the first `rows` rendered rows are one pixel high,
/// inside the render box, and cover exactly the opaque rendered pixels of
/// those rows.
proof fn lemma_rows_rects_exact(
    pixbuf: &PixelData,
    bytes: Seq<u8>,
    offset_x: i32,
    offset_y: i32,
    render_w: i32,
    render_h: i32,
    rows: int,
)
    requires
        render_box_ok(offset_x, offset_y, render_w, render_h),
        0 <= rows <= render_h,
    ensures
        ({
            let rs = rows_rects(
                pixbuf,
                bytes,
                offset_x as int,
                offset_y as int,
                render_w as int,
                render_h as int,
                rows,
            );
            &&& forall|k: int|
                0 <= k < rs.len() ==> {
                    &&& #[trigger] rs[k].height == 1
                    &&& rs[k].width >= 1
                    &&& offset_x <= rs[k].x
                    &&& rs[k].x + rs[k].width <= offset_x + render_w
                    &&& offset_y <= rs[k].y < offset_y + rows
                }
            &&& forall|dx: int, dy: int|
                0 <= dx < render_w && 0 <= dy < rows ==> (rendered_opaque(
                    pixbuf,
                    bytes,
                    render_w as int,
                    render_h as int,
                    dx,
                    dy,
                ) <==> exists|k: int|
                    0 <= k < rs.len() && #[trigger] rect_covers(rs[k], offset_x + dx, offset_y + dy))
        }),
    decreases rows,
{
    let ox = offset_x as int;
    let oy = offset_y as int;
    let rw = render_w as int;
    let rh = render_h as int;
    let rs = rows_rects(pixbuf, bytes, ox, oy, rw, rh, rows);
    if rows == 0 {
        assert(rs.len() == 0);
        return;
    }
    lemma_rows_rects_exact(pixbuf, bytes, offset_x, offset_y, render_w, render_h, rows - 1);
    lemma_row_region_exact(pixbuf, bytes, offset_x, offset_y, render_w, render_h, rows - 1);
    let prev = rows_rects(pixbuf, bytes, ox, oy, rw, rh, rows - 1);
    let last = row_rects(pixbuf, bytes, ox, oy, rw, rh, rows - 1);
    assert(rs == prev.add(last));
    assert forall|k: int| 0 <= k < rs.len() implies {
        &&& #[trigger] rs[k].height == 1
        &&& rs[k].width >= 1
        &&& offset_x <= rs[k].x
        &&& rs[k].x + rs[k].width <= offset_x + render_w
        &&& offset_y <= rs[k].y < offset_y + rows
    } by {
        if k < prev.len() {
            assert(rs[k] == prev[k]);
            assert(prev[k].height == 1);
        } else {
            let j = k - prev.len();
            assert(rs[k] == last[j]);
            assert(last[j].y == offset_y + rows - 1);
            assert(last[j].height == 1);
            assert(last[j].width >= 1);
            assert(offset_x <= last[j].x);
            assert(last[j].x + last[j].width <= offset_x + render_w);
        }
    }
    assert forall|dx: int, dy: int| 0 <= dx < render_w && 0 <= dy < rows implies (rendered_opaque(
        pixbuf,
        bytes,
        rw,
        rh,
        dx,
        dy,
    ) <==> exists|k: int| 0 <= k < rs.len() && #[trigger] rect_covers(rs[k], offset_x + dx, offset_y + dy)) by {
        if rendered_opaque(pixbuf, bytes, rw, rh, dx, dy) {
            if dy < rows - 1 {
                let k = choose|k: int| 0 <= k < prev.len() && #[trigger] rect_covers(prev[k], offset_x + dx, offset_y + dy);
                assert(rs[k] == prev[k]);
            } else {
                let j = choose|j: int| 0 <= j < last.len() && #[trigger] last[j].x <= offset_x + dx < last[j].x + last[j].width;
                assert(rs[prev.len() + j] == last[j]);
                assert(rect_covers(rs[prev.len() + j], offset_x + dx, offset_y + dy));
            }
        }
        if exists|k: int| 0 <= k < rs.len() && #[trigger] rect_covers(rs[k], offset_x + dx, offset_y + dy) {
            let k = choose|k: int| 0 <= k < rs.len() && #[trigger] rect_covers(rs[k], offset_x + dx, offset_y + dy);
            if k < prev.len() {
                assert(rs[k] == prev[k]);
                assert(rect_covers(prev[k], offset_x + dx, offset_y + dy));
            } else {
                let j = k - prev.len();
                assert(rs[k] == last[j]);
                assert(last[j].y == offset_y + rows - 1);
                assert(dy == rows - 1);
                assert(last[j].x <= offset_x + dx < last[j].x + last[j].width);
            }
        }
    }
}

/// The clickable region of an image with an alpha channel and exposed bytes
/// covers exactly its opaque rendered pixels: when some rendered pixel is
/// opaque, a point of the render box lies in a rectangle of the region if and
/// only if the pixel there is opaque, and every rectangle is one pixel high
/// and inside the box; when no rendered pixel is opaque, the region is the
/// whole box.
pub proof fn lemma_scaled_region_exact(
    pixbuf: &PixelData,
    offset_x: i32,
    offset_y: i32,
    render_w: i32,
    render_h: i32,
)
    requires
        render_box_ok(offset_x, offset_y, render_w, render_h),
        render_w > 0,
        render_h > 0,
        pixbuf.has_alpha,
        pixbuf.bytes is Some,
    ensures
        ({
            let bytes = pixbuf.bytes->0@;
            let region = scaled_region(pixbuf, offset_x, offset_y, render_w, render_h);
            let any_opaque = exists|dx: int, dy: int|
                0 <= dx < render_w && 0 <= dy < render_h && #[trigger] rendered_opaque(
                    pixbuf,
                    bytes,
                    render_w as int,
                    render_h as int,
                    dx,
                    dy,
                );
            &&& !any_opaque ==> region == seq![full_rect(offset_x, offset_y, render_w, render_h)]
            &&& any_opaque ==> forall|k: int|
                0 <= k < region.len() ==> {
                    &&& #[trigger] region[k].height == 1
                    &&& region[k].width >= 1
                    &&& offset_x <= region[k].x
                    &&& region[k].x + region[k].width <= offset_x + render_w
                    &&& offset_y <= region[k].y < offset_y + render_h
                }
            &&& any_opaque ==> forall|dx: int, dy: int|
                0 <= dx < render_w && 0 <= dy < render_h ==> (rendered_opaque(
                    pixbuf,
                    bytes,
                    render_w as int,
                    render_h as int,
                    dx,
                    dy,
                ) <==> exists|k: int|
                    0 <= k < region.len() && #[trigger] rect_covers(region[k], offset_x + dx, offset_y + dy))
        }),
{
    let bytes = pixbuf.bytes->0@;
    let rw = render_w as int;
    let rh = render_h as int;
    lemma_rows_rects_exact(pixbuf, bytes, offset_x, offset_y, render_w, render_h, rh);
    let rs = rows_rects(pixbuf, bytes, offset_x as int, offset_y as int, rw, rh, rh);
    if exists|dx: int, dy: int|
        0 <= dx < render_w && 0 <= dy < render_h && #[trigger] rendered_opaque(pixbuf, bytes, rw, rh, dx, dy) {
        let (dx, dy) = choose|dx: int, dy: int|
            0 <= dx < render_w && 0 <= dy < render_h && #[trigger] rendered_opaque(pixbuf, bytes, rw, rh, dx, dy);
        assert(exists|k: int| 0 <= k < rs.len() && #[trigger] rect_covers(rs[k], offset_x + dx, offset_y + dy));
        assert(rs.len() > 0);
        assert(scaled_region(pixbuf, offset_x, offset_y, render_w, render_h) == rs);
    } else {
        if rs.len() > 0 {
            assert(rs[0].height == 1);
            let dx = rs[0].x - offset_x;
            let dy = rs[0].y - offset_y;
            assert(rect_covers(rs[0], offset_x + dx, offset_y + dy));
            assert(rendered_opaque(pixbuf, bytes, rw, rh, dx, dy));
        }
        assert(scaled_region(pixbuf, offset_x, offset_y, render_w, render_h) == seq![
            full_rect(offset_x, offset_y, render_w, render_h),
        ]);
    }
}

} // verus!
