//! What is drawn, and where: texts clipped to the terminal, and charts.

use vstd::prelude::*;

use crate::text;
use crate::text::{clip, repeat};
use crate::ui::cells;
use crate::ui::cells::braille_rows;
use crate::ui::layout::{Area, Rect};
use crate::ui::theme;
use crate::ui::theme::{Pair, Style, Theme};

verus! {

/// The value that a bar of full height stands for.
#[derive(Clone, Copy, Debug, PartialEq, Eq, Structural)]
pub enum Scale {
    /// The largest value shown, but at least one divided by `floor`.
    Peak { floor: i64 },
    /// One hundred.
    Percent,
}

/// A braille chart of a series of the history.
#[derive(Debug)]
pub struct Chart {
    pub rect: Rect,
    pub series: &'static str,
    pub scale: Scale,
    pub flip: bool,
    pub style: Style,
}

/// One thing to draw.
#[derive(Debug)]
pub enum Op {
    Text { y: i32, x: i32, text: String, style: Style },
    Chart(Chart),
}

pub enum OpView {
    Text { y: int, x: int, text: Seq<char>, style: Style },
    Chart { area: Area, series: Seq<char>, scale: Scale, flip: bool, style: Style },
}

impl View for Op {
    type V = OpView;

    open spec fn view(&self) -> OpView {
        match self {
            Op::Text { y, x, text, style } => OpView::Text {
                y: *y as int,
                x: *x as int,
                text: text@,
                style: *style,
            },
            Op::Chart(c) => OpView::Chart {
                area: c.rect@,
                series: c.series@,
                scale: c.scale,
                flip: c.flip,
                style: c.style,
            },
        }
    }
}

pub open spec fn op_views(v: Seq<Op>) -> Seq<OpView> {
    v.map_values(|op: Op| op@)
}

/// The terminal that is drawn on.
pub struct Canvas {
    pub width: int,
    pub height: int,
    /// Whether what is drawn has the focus.
    pub focused: bool,
}

/// What has been drawn once a text is added: nothing more where it starts off
/// the terminal, else as much of it as is left of the line.
pub open spec fn with_text(
    c: Canvas,
    ops: Seq<OpView>,
    y: int,
    x: int,
    s: Seq<char>,
    style: Style,
) -> Seq<OpView> {
    if y < 0 || x < 0 || y >= c.height || x >= c.width {
        ops
    } else {
        ops.push(OpView::Text { y, x, text: text::clipped(s, (c.width - x) as nat), style })
    }
}

/// What has been drawn once a chart is added.
pub open spec fn with_chart(
    ops: Seq<OpView>,
    a: Area,
    series: Seq<char>,
    scale: Scale,
    flip: bool,
    style: Style,
) -> Seq<OpView> {
    ops.push(OpView::Chart { area: a, series, scale, flip, style })
}

/// Coordinates and sizes that can be added up within the machine's integers.
pub const REACH: i32 = 0x0fff_ffff;

pub open spec fn within_reach(a: Area) -> bool {
    &&& -REACH <= a.y <= REACH && -REACH <= a.x <= REACH
    &&& a.h <= REACH && a.w <= REACH
}

pub struct Painter {
    width: u16,
    height: u16,
    theme: Theme,
    focused: bool,
    ops: Vec<Op>,
}

impl View for Painter {
    type V = Seq<OpView>;

    closed spec fn view(&self) -> Seq<OpView> {
        op_views(self.ops@)
    }
}

/// A text lies on the terminal.
pub open spec fn on_terminal(op: OpView, width: int, height: int) -> bool {
    op matches OpView::Text { y, x, text, .. } ==> 0 <= y < height && 0 <= x && x + text.len()
        <= width
}

/// What has been drawn once both sides of a box are added, from its second line
/// to before line `n`.
pub open spec fn with_sides(c: Canvas, ops: Seq<OpView>, a: Area, style: Style, n: int) -> Seq<
    OpView,
>
    decreases n,
{
    if n <= 1 {
        ops
    } else {
        let above = with_sides(c, ops, a, style, n - 1);
        let left = with_text(c, above, a.y + n - 1, a.x, "│"@, style);
        with_text(c, left, a.y + n - 1, a.x + a.w - 1, "│"@, style)
    }
}

/// The superscript of a digit.
pub open spec fn superscript(n: int) -> Seq<char> {
    if n <= 0 {
        "⁰"@
    } else if n == 1 {
        "¹"@
    } else if n == 2 {
        "²"@
    } else if n == 3 {
        "³"@
    } else if n == 4 {
        "⁴"@
    } else if n == 5 {
        "⁵"@
    } else if n == 6 {
        "⁶"@
    } else if n == 7 {
        "⁷"@
    } else if n == 8 {
        "⁸"@
    } else {
        "⁹"@
    }
}

/// What has been drawn once a title is added to a border line, two cells in
/// from the corner: the number, unless it is 0, and the title between spaces.
pub open spec fn with_title(
    c: Canvas,
    ops: Seq<OpView>,
    y: int,
    x: int,
    num: int,
    title: Seq<char>,
    pair: Pair,
) -> Seq<OpView> {
    let label = " "@ + title + " "@;
    let style = theme::styled(pair, true, false);
    if num != 0 {
        let hi = theme::styled(Pair::Hi, true, false);
        with_text(c, with_text(c, ops, y, x + 2, superscript(num), hi), y, x + 3, label, style)
    } else {
        with_text(c, ops, y, x + 2, label, style)
    }
}

/// The style of a box's outline.
pub open spec fn border_style(c: Canvas, pair: Pair) -> Style {
    if c.focused {
        theme::styled(Pair::Focus, true, false)
    } else {
        theme::styled(pair, false, false)
    }
}

/// What has been drawn once a box with its titles is added.
pub open spec fn with_box(
    c: Canvas,
    ops: Seq<OpView>,
    a: Area,
    title: Seq<char>,
    num: int,
    title_pair: Pair,
    title2: Seq<char>,
    border_pair: Pair,
) -> Seq<OpView> {
    if a.h < 2 || a.w < 2 {
        ops
    } else {
        let style = border_style(c, border_pair);
        let line = text::repeated('─', (a.w - 2) as nat);
        let top = with_text(c, ops, a.y, a.x, "┌"@ + line + "┐"@, style);
        let ends = with_text(c, top, a.y + a.h - 1, a.x, "└"@ + line + "┘"@, style);
        let sides = with_sides(c, ends, a, style, a.h - 1);
        let named = with_title(c, sides, a.y, a.x, num, title, title_pair);
        if title2.len() == 0 {
            named
        } else {
            with_title(c, named, a.y + a.h - 1, a.x, 0, title2, title_pair)
        }
    }
}

/// What a box leaves for its content.
pub open spec fn inner_area(a: Area) -> Area {
    if a.h < 2 || a.w < 2 {
        Area { y: a.y, x: a.x, h: 0, w: 0 }
    } else {
        Area { y: a.y + 1, x: a.x + 1, h: a.h - 2, w: a.w - 2 }
    }
}

fn superscript_text(n: i32) -> (r: &'static str)
    ensures
        r@ == superscript(n as int),
{
    if n <= 0 {
        "⁰"
    } else if n == 1 {
        "¹"
    } else if n == 2 {
        "²"
    } else if n == 3 {
        "³"
    } else if n == 4 {
        "⁴"
    } else if n == 5 {
        "⁵"
    } else if n == 6 {
        "⁶"
    } else if n == 7 {
        "⁷"
    } else if n == 8 {
        "⁸"
    } else {
        "⁹"
    }
}

impl Painter {
    pub closed spec fn canvas(&self) -> Canvas {
        Canvas { width: self.width as int, height: self.height as int, focused: self.focused }
    }

    /// A painter for a terminal of the given size.
    pub fn new(width: u16, height: u16) -> (r: Painter)
        ensures
            r.canvas() == (Canvas { width: width as int, height: height as int, focused: false }),
            r@ == Seq::<OpView>::empty(),
    {
        let r = Painter {
            width,
            height,
            theme: Theme::new(),
            focused: false,
            ops: Vec::new(),
        };
        assert(r@ =~= Seq::<OpView>::empty());
        r
    }

    #[verifier::type_invariant]
    spec fn all_on_terminal(&self) -> bool {
        forall|i: int|
            0 <= i < self.ops@.len() ==> on_terminal(
                (#[trigger] self.ops@[i])@,
                self.width as int,
                self.height as int,
            )
    }

    /// What has been drawn, in order. Every text lies on the terminal.
    pub fn into_ops(self) -> (r: Vec<Op>)
        ensures
            op_views(r@) == self@,
            forall|i: int|
                0 <= i < r@.len() ==> on_terminal(
                    (#[trigger] r@[i])@,
                    self.canvas().width,
                    self.canvas().height,
                ),
    {
        proof {
            use_type_invariant(&self);
        }
        self.ops
    }

    /// Whether what is drawn next has the focus.
    pub fn set_focused(&mut self, focused: bool)
        ensures
            final(self)@ == old(self)@,
            final(self).canvas() == (Canvas { focused, ..old(self).canvas() }),
    {
        proof {
            use_type_invariant(&*self);
        }
        self.focused = focused;
    }

    /// Style for a logical [`Pair`], optionally bold/dim.
    pub fn attr(&self, pair: Pair, bold: bool, dim: bool) -> (r: Style)
        ensures
            r == theme::styled(pair, bold, dim),
    {
        self.theme.attr(pair, bold, dim)
    }

    fn put(&mut self, op: Op)
        requires
            on_terminal(op@, old(self).canvas().width, old(self).canvas().height),
        ensures
            final(self).canvas() == old(self).canvas(),
            final(self)@ == old(self)@.push(op@),
    {
        proof {
            use_type_invariant(&*self);
        }
        let mut ops: Vec<Op> = Vec::new();
        std::mem::swap(&mut ops, &mut self.ops);
        ops.push(op);
        self.ops = ops;
        assert(self@ =~= old(self)@.push(op@));
    }

    /// Write `s` at `(y, x)`, clipped to the terminal area (edge-safe).
    pub fn text(&mut self, y: i32, x: i32, s: &str, style: Style)
        ensures
            final(self).canvas() == old(self).canvas(),
            final(self)@ == with_text(
                old(self).canvas(),
                old(self)@,
                y as int,
                x as int,
                s@,
                style,
            ),
    {
        if y < 0 || x < 0 || y >= self.height as i32 || x >= self.width as i32 {
            return ;
        }
        let avail = (self.width as i32 - x) as usize;
        let text = clip(s, avail);
        self.put(Op::Text { y, x, text, style });
    }

    /// Draw a chart of a series.
    pub fn chart(
        &mut self,
        rect: Rect,
        series: &'static str,
        scale: Scale,
        flip: bool,
        style: Style,
    )
        ensures
            final(self).canvas() == old(self).canvas(),
            final(self)@ == with_chart(old(self)@, rect@, series@, scale, flip, style),
    {
        self.put(Op::Chart(Chart { rect, series, scale, flip, style }));
    }

    /// Draw a square-bordered box and return the inner content [`Rect`].
    ///
    /// `num` (1-9) is drawn as a superscript before the title, marking the key
    /// that toggles the panel. The title is written directly on the top border
    /// line so the outline stays a clean rectangle. `title2` sits on the
    /// bottom edge. `border_pair` colors the outline uniformly.
    pub fn box_(
        &mut self,
        rect: Rect,
        title: &str,
        num: i32,
        title_pair: Pair,
        title2: &str,
        border_pair: Pair,
    ) -> (r: Rect)
        requires
            within_reach(rect@),
        ensures
            r@ == inner_area(rect@),
            final(self).canvas() == old(self).canvas(),
            final(self)@ == with_box(
                old(self).canvas(),
                old(self)@,
                rect@,
                title@,
                num as int,
                title_pair,
                title2@,
                border_pair,
            ),
    {
        let (y, x, h, w) = (rect.y, rect.x, rect.h, rect.w);
        let ghost c = self.canvas();
        if h < 2 || w < 2 {
            return Rect::new(y, x, 0, 0);
        }
        let border = if self.focused {
            self.theme.attr(Pair::Focus, true, false)
        } else {
            self.theme.attr(border_pair, false, false)
        };
        let line = repeat('─', (w - 2) as usize);
        let top = "┌".to_owned().concat(line.as_str()).concat("┐");
        let bottom = "└".to_owned().concat(line.as_str()).concat("┘");
        self.text(y, x, top.as_str(), border);
        self.text(y + h - 1, x, bottom.as_str(), border);
        let ghost ends = self@;
        for i in 1..h - 1
            invariant
                within_reach(rect@),
                2 <= h,
                2 <= w,
                rect == (Rect { y, x, h, w }),
                self.canvas() == c,
                self@ == with_sides(c, ends, rect@, border, i as int),
        {
            self.text(y + i, x, "│", border);
            self.text(y + i, x + w - 1, "│", border);
        }
        assert(self@ == with_sides(c, ends, rect@, border, h - 1));
        self.title_tab(y, x, num, title, title_pair);
        if title2.unicode_len() > 0 {
            self.title_tab(y + h - 1, x, 0, title2, title_pair);
        }
        Rect::new(y + 1, x + 1, h - 2, w - 2)
    }

    /// Write the title text directly on the border line at `y`, starting two
    /// cells in from the left corner. The border's `─` chars remain visible
    /// around the title, keeping the outline a clean rectangle.
    fn title_tab(&mut self, y: i32, x: i32, num: i32, title: &str, title_pair: Pair)
        requires
            -REACH <= x <= REACH,
        ensures
            final(self).canvas() == old(self).canvas(),
            final(self)@ == with_title(
                old(self).canvas(),
                old(self)@,
                y as int,
                x as int,
                num as int,
                title@,
                title_pair,
            ),
    {
        let mut cx = x + 2;
        if num != 0 {
            let style = self.theme.attr(Pair::Hi, true, false);
            self.text(y, cx, superscript_text(num), style);
            cx = cx + 1;
        }
        let label = " ".to_owned().concat(title).concat(" ");
        let style = self.theme.attr(title_pair, true, false);
        self.text(y, cx, label.as_str(), style);
    }
}

/// What has been drawn once the first `n` rows of a chart with the given bar
/// heights are added.
pub open spec fn with_rows(
    c: Canvas,
    ops: Seq<OpView>,
    a: Area,
    heights: Seq<i64>,
    flip: bool,
    style: Style,
    n: int,
) -> Seq<OpView>
    decreases n,
{
    if n <= 0 {
        ops
    } else {
        with_text(
            c,
            with_rows(c, ops, a, heights, flip, style, n - 1),
            a.y + n - 1,
            a.x,
            cells::chart_row(heights, a.w as nat, a.h as nat, true, flip, n - 1),
            style,
        )
    }
}

/// Draws a chart, row by row, from the heights of its bars in dots: the last
/// heights are shown, and each lights at least one dot.
pub fn paint_chart(p: &mut Painter, chart: &Chart, heights: &Vec<i64>)
    requires
        within_reach(chart.rect@),
    ensures
        final(p).canvas() == old(p).canvas(),
        final(p)@ == if chart.rect.w <= 0 {
            old(p)@
        } else {
            with_rows(
                old(p).canvas(),
                old(p)@,
                chart.rect@,
                heights@,
                chart.flip,
                chart.style,
                chart.rect.h as int,
            )
        },
{
    let rect = chart.rect;
    if rect.h <= 0 || rect.w <= 0 {
        return ;
    }
    let ghost c = p.canvas();
    let ghost start = p@;
    let rows = braille_rows(heights, rect.w as usize, rect.h as usize, true, chart.flip);
    let h = rect.h;
    for i in 0..h
        invariant
            h == rect.h,
            0 < rect.h,
            0 < rect.w,
            within_reach(rect@),
            rect == chart.rect,
            p.canvas() == c,
            rows@.len() == h,
            forall|row: int|
                0 <= row < rows@.len() ==> (#[trigger] rows@[row])@ == cells::chart_row(
                    heights@,
                    rect.w as nat,
                    rect.h as nat,
                    true,
                    chart.flip,
                    row,
                ),
            p@ == with_rows(c, start, rect@, heights@, chart.flip, chart.style, i as int),
    {
        p.text(rect.y + i, rect.x, rows[i as usize].as_str(), chart.style);
    }
}

} // verus!
