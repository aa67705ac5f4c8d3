use vstd::prelude::*;
use vstd::arithmetic::div_mod::{
    lemma_div_is_ordered, lemma_div_multiples_vanish_fancy, lemma_div_plus_one,
    lemma_fundamental_div_mod, lemma_mod_pos_bound,
};
use crate::window::{HISTORY_LEN, LOAD_SCALE, LoadStorage};

verus! {

/// A pixel position; `y` grows downward.
#[derive(Clone, Copy, Debug, PartialEq, Eq, Structural)]
pub struct Point {
    pub x: i32,
    pub y: i32,
}

/// One drawing primitive for a monochrome surface, drawn in the "on" color.
#[derive(Clone, Copy, Debug, PartialEq, Eq, Structural)]
pub enum DrawCommand {
    /// The outline of the rectangle spanned by two corners.
    Frame { top_left: Point, bottom_right: Point },
    /// A straight line between two points, both included.
    Line { from: Point, to: Point },
    /// A single pixel.
    Pixel { at: Point },
}

/// Why a graph cannot be drawn from a window.
#[derive(Clone, Copy, Debug, PartialEq, Eq, Structural)]
pub enum ConfigError {
    /// The step is not positive, or the corners do not span a rectangle.
    InvalidGeometry,
    /// The graph has room for a different number of samples than the window holds.
    CapacityMismatch,
}

/// Where a graph is drawn: its bounding rectangle and the horizontal
/// distance between consecutive samples.
#[derive(Clone, Copy, Debug, PartialEq, Eq, Structural)]
pub struct GraphGeometry {
    pub step: i32,
    pub top_left: Point,
    pub bottom_right: Point,
}

/// A sample with anything above full load taken as full load.
pub open spec fn clamped(sample: u32) -> int {
    if sample > LOAD_SCALE {
        LOAD_SCALE as int
    } else {
        sample as int
    }
}

impl GraphGeometry {
    pub open spec fn is_valid(self) -> bool {
        &&& 0 < self.step
        &&& self.top_left.x < self.bottom_right.x
        &&& self.top_left.y < self.bottom_right.y
    }

    /// How many samples the graph shows.
    pub open spec fn spec_plotted_points(self) -> int {
        (self.bottom_right.x - self.top_left.x) / (self.step as int)
    }

    pub open spec fn height(self) -> int {
        self.bottom_right.y - self.top_left.y
    }

    /// The column of the `index`-th oldest sample.
    pub open spec fn column_x(self, index: int) -> int {
        self.top_left.x + self.step * index
    }

    /// How many pixels above the bottom edge a sample is drawn: its share of
    /// the height, rounded to the nearest pixel (halves round up).
    pub open spec fn lift(self, sample: u32) -> int {
        (self.height() * clamped(sample) + (LOAD_SCALE / 2) as int) / (LOAD_SCALE as int)
    }

    /// The row of a sample: idle on the bottom edge, full load on the top edge.
    pub open spec fn sample_y(self, sample: u32) -> int {
        self.bottom_right.y - self.lift(sample)
    }

    /// The point drawn for the `index`-th oldest of `samples`.
    pub open spec fn plotted(self, samples: Seq<u32>, index: int) -> Point {
        Point { x: self.column_x(index) as i32, y: self.sample_y(samples[index]) as i32 }
    }

    /// The geometry of the dashboard's load graph, on a 128 by 64 panel.
    pub fn dashboard() -> (r: Self)
        ensures
            r == (GraphGeometry {
                step: 5,
                top_left: Point { x: 42, y: 17 },
                bottom_right: Point { x: 127, y: 62 },
            }),
            r.is_valid(),
            r.spec_plotted_points() == HISTORY_LEN,
    {
        GraphGeometry {
            step: 5,
            top_left: Point { x: 42, y: 17 },
            bottom_right: Point { x: 127, y: 62 },
        }
    }

    /// How many samples the graph shows.
    pub fn plotted_points(&self) -> (r: u64)
        requires
            self.is_valid(),
        ensures
            r == self.spec_plotted_points(),
    {
        let width: i64 = self.bottom_right.x as i64 - self.top_left.x as i64;
        let r = (width as u64) / (self.step as u64);
        r
    }

    /// The column of the `index`-th oldest sample.
    pub fn x_of(&self, index: u64) -> (r: i32)
        requires
            self.is_valid(),
            index < self.spec_plotted_points(),
        ensures
            r == self.column_x(index as int),
            self.top_left.x <= r < self.bottom_right.x,
    {
        proof {
            lemma_column_in_frame(*self, index as int);
        }
        let offset: i64 = self.step as i64 * index as i64;
        (self.top_left.x as i64 + offset) as i32
    }

    /// The row of a sample; samples above full load are drawn as full load.
    pub fn y_of(&self, sample: u32) -> (r: i32)
        requires
            self.is_valid(),
        ensures
            r == self.sample_y(sample),
            self.top_left.y <= r <= self.bottom_right.y,
    {
        let height: u64 = (self.bottom_right.y as i64 - self.top_left.y as i64) as u64;
        let share: u64 = if sample > LOAD_SCALE {
            LOAD_SCALE as u64
        } else {
            sample as u64
        };
        proof {
            lemma_lift_in_frame(*self, sample);
        }
        let lift: u64 = (height * share + (LOAD_SCALE / 2) as u64) / LOAD_SCALE as u64;
        (self.bottom_right.y as i64 - lift as i64) as i32
    }
}

/// The fill under a plotted point `at`: a pixel in its column at every
/// `step`-th row from `row` down to (not including) `bottom`, on each such row
/// strictly below the point.
pub open spec fn shade(at: Point, row: int, step: int, bottom: int) -> Seq<DrawCommand>
    decreases if row < bottom {
        bottom - row
    } else {
        0
    },
{
    if row < bottom && step > 0 {
        let rest = shade(at, row + step, step, bottom);
        if row > at.y {
            seq![DrawCommand::Pixel { at: Point { x: at.x, y: row as i32 } }] + rest
        } else {
            rest
        }
    } else {
        seq![]
    }
}

/// What is drawn for the `index`-th oldest sample: a line from the previous
/// point (the first point is its own predecessor) and the fill below it.
pub open spec fn column_commands(g: GraphGeometry, samples: Seq<u32>, index: int) -> Seq<DrawCommand> {
    let previous = if index == 0 {
        0
    } else {
        index - 1
    };
    seq![DrawCommand::Line { from: g.plotted(samples, previous), to: g.plotted(samples, index) }]
        + shade(g.plotted(samples, index), g.top_left.y as int, g.step as int, g.bottom_right.y as int)
}

/// The columns of the `count` oldest samples, left to right.
pub open spec fn columns(g: GraphGeometry, samples: Seq<u32>, count: nat) -> Seq<DrawCommand>
    decreases count,
{
    if count == 0 {
        seq![]
    } else {
        columns(g, samples, (count - 1) as nat) + column_commands(g, samples, count - 1)
    }
}

/// The whole chart: the frame, then every plotted column.
pub open spec fn graph_commands(g: GraphGeometry, samples: Seq<u32>) -> Seq<DrawCommand> {
    seq![DrawCommand::Frame { top_left: g.top_left, bottom_right: g.bottom_right }] + columns(
        g,
        samples,
        g.spec_plotted_points() as nat,
    )
}

/// Every plotted column lies inside the frame, left of its right edge.
proof fn lemma_column_in_frame(g: GraphGeometry, index: int)
    requires
        g.is_valid(),
        0 <= index < g.spec_plotted_points(),
    ensures
        g.top_left.x <= g.column_x(index) < g.bottom_right.x,
{
    let width: int = g.bottom_right.x - g.top_left.x;
    let step: int = g.step as int;
    lemma_fundamental_div_mod(width, step);
    lemma_mod_pos_bound(width, step);
    let q = width / step;
    assert(step * index + step <= step * q) by (nonlinear_arith)
        requires
            index + 1 <= q,
            step > 0,
    ;
    assert(0 <= step * index) by (nonlinear_arith)
        requires
            index >= 0,
            step > 0,
    ;
}

/// A sample is lifted by at most the graph's height: its row stays inside the frame.
proof fn lemma_lift_in_frame(g: GraphGeometry, sample: u32)
    requires
        g.is_valid(),
    ensures
        0 <= g.lift(sample) <= g.height(),
{
    let h = g.height();
    let share = clamped(sample);
    assert(h * share <= h * 10000) by (nonlinear_arith)
        requires
            h >= 0,
            share <= 10000,
    ;
    assert(0 <= h * share) by (nonlinear_arith)
        requires
            h >= 0,
            share >= 0,
    ;
    lemma_div_is_ordered(h * share + 5000, h * 10000 + 5000, 10000);
    lemma_div_is_ordered(0, h * share + 5000, 10000);
    lemma_div_multiples_vanish_fancy(h, 5000, 10000);
}

/// `p` lies inside the frame of `g`, edges included.
pub open spec fn inside(g: GraphGeometry, p: Point) -> bool {
    &&& g.top_left.x <= p.x <= g.bottom_right.x
    &&& g.top_left.y <= p.y <= g.bottom_right.y
}

/// The command draws nothing outside the frame of `g`.
pub open spec fn drawn_inside(g: GraphGeometry, command: DrawCommand) -> bool {
    match command {
        DrawCommand::Frame { top_left, bottom_right } => top_left == g.top_left
            && bottom_right == g.bottom_right,
        DrawCommand::Line { from, to } => inside(g, from) && inside(g, to),
        DrawCommand::Pixel { at } => inside(g, at),
    }
}

proof fn lemma_shade_in_frame(g: GraphGeometry, at: Point, row: int)
    requires
        g.is_valid(),
        inside(g, at),
        g.top_left.y <= row,
    ensures
        forall|k: int|
            0 <= k < shade(at, row, g.step as int, g.bottom_right.y as int).len() ==> drawn_inside(
                g,
                #[trigger] shade(at, row, g.step as int, g.bottom_right.y as int)[k],
            ),
    decreases if row < g.bottom_right.y {
        g.bottom_right.y - row
    } else {
        0
    },
{
    let step = g.step as int;
    let bottom = g.bottom_right.y as int;
    if row < bottom {
        lemma_shade_in_frame(g, at, row + step);
        let rest = shade(at, row + step, step, bottom);
        if row > at.y {
            let pixel = DrawCommand::Pixel { at: Point { x: at.x, y: row as i32 } };
            assert(drawn_inside(g, pixel));
            assert forall|k: int|
                0 <= k < shade(at, row, step, bottom).len() implies drawn_inside(
                g,
                #[trigger] shade(at, row, step, bottom)[k],
            ) by {
                if k > 0 {
                    assert(shade(at, row, step, bottom)[k] == rest[k - 1]);
                }
            }
        }
    }
}

proof fn lemma_columns_in_frame(g: GraphGeometry, samples: Seq<u32>, count: nat)
    requires
        g.is_valid(),
        samples.len() == g.spec_plotted_points(),
        count <= samples.len(),
    ensures
        forall|k: int|
            0 <= k < columns(g, samples, count).len() ==> drawn_inside(
                g,
                #[trigger] columns(g, samples, count)[k],
            ),
    decreases count,
{
    if count > 0 {
        let i = count - 1;
        let previous = if i == 0 {
            0
        } else {
            i - 1
        };
        lemma_columns_in_frame(g, samples, (count - 1) as nat);
        lemma_column_in_frame(g, i);
        lemma_column_in_frame(g, previous);
        lemma_lift_in_frame(g, samples[i]);
        lemma_lift_in_frame(g, samples[previous]);
        let to = g.plotted(samples, i);
        let from = g.plotted(samples, previous);
        assert(inside(g, to));
        assert(inside(g, from));
        let fill = shade(to, g.top_left.y as int, g.step as int, g.bottom_right.y as int);
        lemma_shade_in_frame(g, to, g.top_left.y as int);
        let head = columns(g, samples, (count - 1) as nat);
        let line = DrawCommand::Line { from, to };
        assert(columns(g, samples, count) == head + (seq![line] + fill));
        assert forall|k: int|
            0 <= k < columns(g, samples, count).len() implies drawn_inside(
            g,
            #[trigger] columns(g, samples, count)[k],
        ) by {
            if k < head.len() {
                assert(columns(g, samples, count)[k] == head[k]);
            } else if k == head.len() {
                assert(columns(g, samples, count)[k] == line);
            } else {
                assert(columns(g, samples, count)[k] == fill[k - head.len() - 1]);
            }
        }
    }
}

/// Whatever the samples, even above full load, the chart draws its frame and
/// nothing outside it: every line end and every fill pixel lies within.
pub proof fn lemma_chart_stays_in_frame(g: GraphGeometry, samples: Seq<u32>)
    requires
        g.is_valid(),
        samples.len() == g.spec_plotted_points(),
    ensures
        forall|k: int|
            0 <= k < graph_commands(g, samples).len() ==> drawn_inside(
                g,
                #[trigger] graph_commands(g, samples)[k],
            ),
{
    let cols = columns(g, samples, g.spec_plotted_points() as nat);
    lemma_columns_in_frame(g, samples, g.spec_plotted_points() as nat);
    let frame = DrawCommand::Frame { top_left: g.top_left, bottom_right: g.bottom_right };
    assert forall|k: int|
        0 <= k < graph_commands(g, samples).len() implies drawn_inside(
        g,
        #[trigger] graph_commands(g, samples)[k],
    ) by {
        if k > 0 {
            assert(graph_commands(g, samples)[k] == cols[k - 1]);
        }
    }
}

/// Draws a window's samples as an area chart, with a geometry checked
/// against the window when the renderer is made.
pub struct GraphRenderer {
    geometry: GraphGeometry,
}

impl GraphRenderer {
    pub closed spec fn geometry(self) -> GraphGeometry {
        self.geometry
    }

    /// The geometry is valid and shows at least one sample.
    pub closed spec fn wf(self) -> bool {
        &&& self.geometry.is_valid()
        &&& self.geometry.spec_plotted_points() > 0
    }

    /// A renderer for windows of `window`'s capacity. It is refused when the
    /// geometry is invalid, or when the graph shows a different number of
    /// samples than the window holds.
    pub fn new(geometry: GraphGeometry, window: &LoadStorage) -> (r: Result<Self, ConfigError>)
        requires
            window.wf(),
        ensures
            match r {
                Ok(renderer) => {
                    &&& geometry.is_valid()
                    &&& geometry.spec_plotted_points() == window@.len()
                    &&& renderer.geometry() == geometry
                    &&& renderer.wf()
                },
                Err(ConfigError::InvalidGeometry) => !geometry.is_valid(),
                Err(ConfigError::CapacityMismatch) => {
                    &&& geometry.is_valid()
                    &&& geometry.spec_plotted_points() != window@.len()
                },
            },
    {
        if geometry.step <= 0 || geometry.top_left.x >= geometry.bottom_right.x
            || geometry.top_left.y >= geometry.bottom_right.y {
            return Err(ConfigError::InvalidGeometry);
        }
        let capacity = window.capacity();
        if geometry.plotted_points() != capacity as u64 {
            return Err(ConfigError::CapacityMismatch);
        }
        Ok(GraphRenderer { geometry })
    }

    /// How many samples the graph shows; the capacity of the windows it draws.
    pub fn plotted_points(&self) -> (r: u64)
        requires
            self.wf(),
        ensures
            r == self.geometry().spec_plotted_points(),
            r > 0,
    {
        self.geometry.plotted_points()
    }

    /// Appends the fill under the plotted point `at`.
    fn shade_column(&self, out: &mut Vec<DrawCommand>, at: Point)
        requires
            self.wf(),
        ensures
            final(out)@ == old(out)@ + shade(
                at,
                self.geometry.top_left.y as int,
                self.geometry.step as int,
                self.geometry.bottom_right.y as int,
            ),
    {
        let g = self.geometry;
        let ghost start = out@;
        let ghost top = g.top_left.y as int;
        let step: i64 = g.step as i64;
        let bottom: i64 = g.bottom_right.y as i64;
        let mut row: i64 = g.top_left.y as i64;
        while row < bottom
            invariant
                g == self.geometry,
                g.is_valid(),
                step == g.step,
                bottom == g.bottom_right.y,
                top <= row <= bottom + step,
                out@ + shade(at, row as int, step as int, bottom as int) == start + shade(
                    at,
                    top,
                    step as int,
                    bottom as int,
                ),
            decreases bottom + step - row,
        {
            let ghost before = out@;
            let ghost rest = shade(at, row + step, step as int, bottom as int);
            if row > at.y as i64 {
                let pixel = DrawCommand::Pixel { at: Point { x: at.x, y: row as i32 } };
                out.push(pixel);
                assert(before.push(pixel) + rest =~= before + (seq![pixel] + rest));
            }
            row = row + step;
        }
        assert(out@ + shade(at, row as int, step as int, bottom as int) =~= out@);
    }

    /// The chart of `window`: its frame, then for each sample, oldest first,
    /// a line from the previous point and the fill below the point. Samples
    /// above full load are drawn as full load.
    pub fn render(&self, window: &LoadStorage) -> (r: Vec<DrawCommand>)
        requires
            self.wf(),
            window.wf(),
            window@.len() == self.geometry().spec_plotted_points(),
        ensures
            r@ == graph_commands(self.geometry(), window@),
    {
        let g = self.geometry;
        let ghost samples = window@;
        let mut out: Vec<DrawCommand> = Vec::new();
        out.push(DrawCommand::Frame { top_left: g.top_left, bottom_right: g.bottom_right });
        let n = window.capacity();
        let mut previous = Point { x: 0, y: 0 };
        let mut i: usize = 0;
        while i < n
            invariant
                g == self.geometry,
                self.wf(),
                window.wf(),
                samples == window@,
                n == samples.len(),
                n == g.spec_plotted_points(),
                i <= n,
                i > 0 ==> previous == g.plotted(samples, i - 1),
                out@ == seq![DrawCommand::Frame { top_left: g.top_left, bottom_right: g.bottom_right }]
                    + columns(g, samples, i as nat),
            decreases n - i,
        {
            let point = Point { x: g.x_of(i as u64), y: g.y_of(window.get(i)) };
            let from = if i == 0 {
                point
            } else {
                previous
            };
            let ghost before = out@;
            let line = DrawCommand::Line { from, to: point };
            out.push(line);
            self.shade_column(&mut out, point);
            proof {
                let fill = shade(point, g.top_left.y as int, g.step as int, g.bottom_right.y as int);
                assert(column_commands(g, samples, i as int) == seq![line] + fill);
                assert(before.push(line) + fill =~= before + (seq![line] + fill));
            }
            previous = point;
            i = i + 1;
        }
        out
    }
}

/// An idle sample is drawn on the bottom edge and a fully loaded one on the
/// top edge, exactly.
pub proof fn lemma_boundary_mapping(g: GraphGeometry)
    requires
        g.is_valid(),
    ensures
        g.sample_y(0) == g.bottom_right.y,
        g.sample_y(LOAD_SCALE) == g.top_left.y,
{
    let h = g.height();
    assert(clamped(0) == 0);
    assert(clamped(LOAD_SCALE) == 10000);
    assert(h * 0 == 0) by (nonlinear_arith);
    assert(h * 10000 == 10000 * h) by (nonlinear_arith);
    lemma_div_multiples_vanish_fancy(h, 5000, 10000);
    lemma_div_multiples_vanish_fancy(0, 5000, 10000);
    assert(g.lift(0) == 0);
    assert(g.lift(LOAD_SCALE) == h);
}

/// A higher load is never drawn lower, and it is drawn strictly higher once
/// the difference is worth at least one pixel of the graph's height.
pub proof fn lemma_monotonic_mapping(g: GraphGeometry, a: u32, b: u32)
    requires
        g.is_valid(),
        a <= b,
    ensures
        g.sample_y(b) <= g.sample_y(a),
        b <= LOAD_SCALE && g.height() * (b - a) >= LOAD_SCALE ==> g.sample_y(b) < g.sample_y(a),
{
    let h = g.height();
    let ca = clamped(a);
    let cb = clamped(b);
    assert(h * ca <= h * cb) by (nonlinear_arith)
        requires
            h > 0,
            ca <= cb,
    ;
    lemma_div_is_ordered(h * ca + 5000, h * cb + 5000, 10000);
    if b <= LOAD_SCALE && h * (b - a) >= LOAD_SCALE {
        assert(h * cb == h * ca + h * (b - a)) by (nonlinear_arith)
            requires
                ca == a,
                cb == b,
        ;
        lemma_div_plus_one(h * ca + 5000, 10000);
        lemma_div_is_ordered(10000 + (h * ca + 5000), h * cb + 5000, 10000);
    }
}

/// The chart depends on the samples and the geometry alone: drawing the same
/// samples again with the same geometry issues the same commands, and so
/// lights the same pixels.
pub proof fn lemma_render_repeatable(g: GraphGeometry, first: Seq<u32>, second: Seq<u32>)
    requires
        first == second,
    ensures
        graph_commands(g, first) == graph_commands(g, second),
{
}

} // verus!
