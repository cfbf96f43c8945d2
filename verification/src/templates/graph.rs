//! A line graph of player counts, drawn at the foot of a canvas.

use vstd::prelude::*;
use crate::canvas::Canvas;
use crate::color::Rgba;
use crate::layer::{layer_views, LayerView};

verus! {

/// Room that is left below the graph.
pub const GRAPH_PADDING_BOTTOM: u32 = 16;

/// How the graph is drawn.
pub struct PlayerGraphOpts {
    /// The count that reaches the top of the graph.
    pub max_players: u8,
    pub width: u32,
    pub height: u32,
    pub line_color: Rgba,
    pub line_width: u32,
}

/// The options that are used where none are given.
pub open spec fn default_graph_opts() -> PlayerGraphOpts {
    PlayerGraphOpts {
        max_players: 16,
        width: 700,
        height: 100,
        line_color: Rgba { r: 100, g: 180, b: 255, a: 255 },
        line_width: 4,
    }
}

impl Default for PlayerGraphOpts {
    fn default() -> (opts: PlayerGraphOpts)
        ensures
            opts == default_graph_opts(),
    {
        PlayerGraphOpts {
            max_players: 16,
            width: 700,
            height: 100,
            line_color: Rgba { r: 100, g: 180, b: 255, a: 255 },
            line_width: 4,
        }
    }
}

/// `a / d` rounded up, for a positive `d`.
pub open spec fn ceil_div(a: int, d: int) -> int {
    if a >= 0 {
        (a + d - 1) / d
    } else {
        -((-a) / d)
    }
}

/// A number brought into the range of 32 bits.
pub open spec fn clamp_u32(v: int) -> int {
    if v < 0 {
        0
    } else if v > u32::MAX {
        u32::MAX as int
    } else {
        v
    }
}

/// Whether a graph is drawn at all: it needs two points and a scale of
/// two players at least.
pub open spec fn graph_drawn(points: nat, opts: PlayerGraphOpts) -> bool {
    points >= 2 && opts.max_players >= 2
}

/// The room to the left of the graph: half of what the canvas is wider.
pub open spec fn graph_left(canvas_width: int, opts: PlayerGraphOpts) -> int {
    if canvas_width > opts.width {
        (canvas_width - opts.width) / 2
    } else {
        0
    }
}

/// The row of the graph's top edge.
pub open spec fn graph_top(canvas_height: int, opts: PlayerGraphOpts) -> int {
    canvas_height - opts.height - GRAPH_PADDING_BOTTOM
}

/// The column of point `i` of `points`: the points are spread evenly over
/// the graph's width.
pub open spec fn graph_x(canvas_width: int, points: int, opts: PlayerGraphOpts, i: int) -> int {
    clamp_u32(graph_left(canvas_width, opts) + (i * opts.width) / (points - 1))
}

/// The row of a count: the graph's foot for zero, its top for the largest
/// count, in proportion between and beyond.
pub open spec fn graph_y(canvas_height: int, opts: PlayerGraphOpts, players: int) -> int {
    clamp_u32(
        graph_top(canvas_height, opts) + opts.height - ceil_div(
            players * opts.height,
            opts.max_players as int,
        ),
    )
}

/// The layers `below` with the first `count` segments of the graph on top:
/// segment `i` runs from point `i` to point `i + 1`.
pub open spec fn graph_layers(
    below: Seq<LayerView>,
    data: Seq<i32>,
    count: int,
    canvas_width: int,
    canvas_height: int,
    opts: PlayerGraphOpts,
) -> Seq<LayerView>
    decreases count,
{
    if count <= 0 {
        below
    } else {
        graph_layers(below, data, count - 1, canvas_width, canvas_height, opts).push(
            LayerView::Line {
                x0: graph_x(canvas_width, data.len() as int, opts, count - 1),
                y0: graph_y(canvas_height, opts, data[count - 1] as int),
                x1: graph_x(canvas_width, data.len() as int, opts, count as int),
                y1: graph_y(canvas_height, opts, data[count as int] as int),
                width: opts.line_width as int,
                color: opts.line_color,
            },
        )
    }
}

/// The layers of a canvas after the graph was added to it.
pub open spec fn with_graph(
    below: Seq<LayerView>,
    data: Seq<i32>,
    canvas_width: int,
    canvas_height: int,
    opts: PlayerGraphOpts,
) -> Seq<LayerView> {
    if graph_drawn(data.len(), opts) {
        graph_layers(below, data, data.len() - 1, canvas_width, canvas_height, opts)
    } else {
        below
    }
}

/// The graph has room on a canvas: where it is drawn at all, the canvas is
/// as high as the graph and the room below it.
pub open spec fn graph_fits(canvas_height: u32, points: nat, opts: PlayerGraphOpts) -> bool {
    graph_drawn(points, opts) ==> canvas_height >= opts.height + GRAPH_PADDING_BOTTOM
}

/// Whether [`graph_fits`] holds, for callers that cannot know.
pub fn graph_can_fit(canvas_height: u32, points: usize, opts: &PlayerGraphOpts) -> (fits: bool)
    ensures
        fits == graph_fits(canvas_height, points as nat, *opts),
{
    if points < 2 || opts.max_players < 2 {
        true
    } else {
        canvas_height as u64 >= opts.height as u64 + GRAPH_PADDING_BOTTOM as u64
    }
}

/// Computes [`graph_x`].
fn point_x(left: u32, points: usize, width: u32, i: usize) -> (x: u32)
    requires
        points >= 2,
        i < points,
    ensures
        x == clamp_u32(left + (i * width) / (points - 1)),
{
    assert(0 <= i * width <= 0xffff_ffff_ffff_ffff * 0xffff_ffff) by (nonlinear_arith)
        requires
            0 <= i <= 0xffff_ffff_ffff_ffff,
            0 <= width <= 0xffff_ffff,
    ;
    let along: u128 = ((i as u128) * (width as u128)) / ((points - 1) as u128);
    let x: u128 = left as u128 + along;
    if x > 0xffff_ffff {
        0xffff_ffff
    } else {
        x as u32
    }
}

/// Computes [`graph_y`].
fn point_y(top: u32, height: u32, max_players: u8, players: i32) -> (y: u32)
    requires
        max_players >= 2,
    ensures
        y == clamp_u32(top + height - ceil_div(players * height, max_players as int)),
{
    let foot: u64 = top as u64 + height as u64;
    let max: u64 = max_players as u64;
    if players >= 0 {
        assert(0 <= players * height <= 0x7fff_ffff * 0xffff_ffff) by (nonlinear_arith)
            requires
                0 <= players <= 0x7fff_ffff,
                0 <= height <= 0xffff_ffff,
        ;
        let rise: u64 = ((players as u64) * (height as u64) + max - 1) / max;
        assert(rise == ceil_div(players * height, max_players as int));
        if rise > foot {
            0
        } else if foot - rise > 0xffff_ffff {
            0xffff_ffff
        } else {
            (foot - rise) as u32
        }
    } else {
        let depth: u64 = (-(players as i64)) as u64;
        assert(0 <= depth * height <= 0x8000_0000 * 0xffff_ffff) by (nonlinear_arith)
            requires
                0 <= depth <= 0x8000_0000,
                0 <= height <= 0xffff_ffff,
        ;
        assert((-(players * height)) == depth * height) by (nonlinear_arith)
            requires
                depth == -players,
        ;
        let fall: u64 = (depth * (height as u64)) / max;
        proof {
            if height == 0 {
                assert(players * height == 0) by (nonlinear_arith)
                    requires
                        height == 0,
                ;
                assert(depth * height == 0) by (nonlinear_arith)
                    requires
                        height == 0,
                ;
                vstd::arithmetic::div_mod::lemma_basic_div(max as int - 1, max as int);
                assert(ceil_div(players * height, max_players as int) == 0);
                assert(fall == 0);
            } else {
                assert(players * height < 0) by (nonlinear_arith)
                    requires
                        players < 0,
                        height > 0,
                ;
                assert(ceil_div(players * height, max_players as int) == -(fall as int));
            }
        }
        if foot + fall > 0xffff_ffff {
            0xffff_ffff
        } else {
            (foot + fall) as u32
        }
    }
}

/// Adds a line graph of `data` to the foot of the canvas: one line layer
/// from each point to the next. Nothing is added for fewer than two points
/// or a scale below two players.
pub fn graph_playercount(canvas: &mut Canvas, data: &[i32], opts: PlayerGraphOpts)
    requires
        graph_fits(old(canvas).height, data@.len(), opts),
    ensures
        final(canvas).width == old(canvas).width,
        final(canvas).height == old(canvas).height,
        final(canvas).bg_color == old(canvas).bg_color,
        old(canvas).wf() ==> final(canvas).wf(),
        layer_views(final(canvas).layers@) == with_graph(
            layer_views(old(canvas).layers@),
            data@,
            old(canvas).width as int,
            old(canvas).height as int,
            opts,
        ),
{
    if data.len() < 2 || opts.max_players < 2 {
        return ;
    }
    let left: u32 = canvas.width.saturating_sub(opts.width) / 2;
    let top: u32 = canvas.height - opts.height - GRAPH_PADDING_BOTTOM;
    let ghost below = layer_views(canvas.layers@);
    let ghost w = canvas.width as int;
    let ghost h = canvas.height as int;
    let mut i: usize = 0;
    while i < data.len() - 1
        invariant
            data@.len() >= 2,
            opts.max_players >= 2,
            i <= data@.len() - 1,
            canvas.width == w,
            canvas.height == h,
            canvas.bg_color == old(canvas).bg_color,
            old(canvas).wf() ==> canvas.wf(),
            left == graph_left(w, opts),
            top == graph_top(h, opts),
            layer_views(canvas.layers@) == graph_layers(below, data@, i as int, w, h, opts),
        decreases data@.len() - 1 - i,
    {
        let x0 = point_x(left, data.len(), opts.width, i);
        let x1 = point_x(left, data.len(), opts.width, i + 1);
        let y0 = point_y(top, opts.height, opts.max_players, data[i]);
        let y1 = point_y(top, opts.height, opts.max_players, data[i + 1]);
        canvas.line(x0, y0, x1, y1, opts.line_width, opts.line_color);
        i = i + 1;
    }
}

} // verus!
