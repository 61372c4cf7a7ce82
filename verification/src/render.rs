//! The picture of one frame, as a list of drawing commands in screen pixels.
use vstd::prelude::*;
use crate::config::{
    CENTER_X, CENTER_Y, ENTER_EB_Y, ENTER_NB_X, ENTER_SB_X, ENTER_WB_Y, INTERSECTION_HALF, LANE_WIDTH,
    MILLI, WINDOW_HEIGHT, WINDOW_WIDTH,
};
use crate::geometry::{point_in_range, COORD_LIMIT};
use crate::simulation::Simulation;
use crate::types::{lane_at, route_color_spec, LaneId, RouteType, SignalState, Vec2};
use crate::vehicle::{div_toward_zero, extents_spec, lemma_sample_pos_in_range, sample_spec, VehicleView};

verus! {

/// One drawing operation on the window canvas, in pixels.
#[derive(Debug, Clone, Copy, PartialEq, Eq, Structural)]
pub enum DrawCmd {
    /// Fill the whole canvas with the current colour.
    Clear,
    SetColor(u8, u8, u8),
    /// Filled rectangle: left, top, width, height.
    FillRect(i32, i32, u32, u32),
    /// Rectangle outline: left, top, width, height.
    DrawRect(i32, i32, u32, u32),
    /// Line between two points.
    Line(i32, i32, i32, i32),
    Point(i32, i32),
}

/// Intersection centre, in pixels.
pub const CX: i32 = 576;
pub const CY: i32 = 388;
/// Half the side of the intersection box, in pixels.
pub const HALF_BOX: i32 = 102;
/// Lane width, in pixels.
pub const LANE_PX: i32 = 46;
/// Half the drawn road width: a lane plus a 6-pixel shoulder.
pub const ROAD_HALF: i32 = 52;
pub const MARGIN_X: i32 = 95;
pub const MARGIN_Y: i32 = 55;
pub const WIN_W: i32 = 1152;
pub const WIN_H: i32 = 864;

/// The pixel constants are the configuration's millipixel values in whole pixels.
pub proof fn lemma_pixel_constants()
    ensures
        CX * MILLI == CENTER_X,
        CY * MILLI == CENTER_Y,
        HALF_BOX * MILLI == INTERSECTION_HALF,
        LANE_PX * MILLI == LANE_WIDTH,
        ROAD_HALF == LANE_PX + 6,
        WIN_W == WINDOW_WIDTH,
        WIN_H == WINDOW_HEIGHT,
{
}

fn set_color(cmds: &mut Vec<DrawCmd>, r: u8, g: u8, b: u8)
    ensures
        final(cmds)@ == old(cmds)@.push(DrawCmd::SetColor(r, g, b)),
{
    cmds.push(DrawCmd::SetColor(r, g, b));
}

fn fill_rect(cmds: &mut Vec<DrawCmd>, x: i32, y: i32, w: u32, h: u32)
    ensures
        final(cmds)@ == old(cmds)@.push(DrawCmd::FillRect(x, y, w, h)),
{
    cmds.push(DrawCmd::FillRect(x, y, w, h));
}

fn draw_line(cmds: &mut Vec<DrawCmd>, x1: i32, y1: i32, x2: i32, y2: i32)
    ensures
        final(cmds)@ == old(cmds)@.push(DrawCmd::Line(x1, y1, x2, y2)),
{
    cmds.push(DrawCmd::Line(x1, y1, x2, y2));
}

/// Background, the two roads, the box, the centre lines and the median stripes.
pub open spec fn roads_spec() -> Seq<DrawCmd> {
    seq![
        DrawCmd::SetColor(35, 38, 46),
        DrawCmd::FillRect(0, 0, WIN_W as u32, WIN_H as u32),
        DrawCmd::SetColor(62, 66, 74),
        DrawCmd::FillRect(
            (CX - ROAD_HALF) as i32,
            MARGIN_Y,
            (ROAD_HALF * 2) as u32,
            (WIN_H - MARGIN_Y * 2) as u32,
        ),
        DrawCmd::FillRect(
            MARGIN_X,
            (CY - ROAD_HALF) as i32,
            (WIN_W - MARGIN_X * 2) as u32,
            (ROAD_HALF * 2) as u32,
        ),
        DrawCmd::SetColor(45, 48, 55),
        DrawCmd::FillRect(
            (CX - HALF_BOX) as i32,
            (CY - HALF_BOX) as i32,
            (HALF_BOX * 2) as u32,
            (HALF_BOX * 2) as u32,
        ),
        DrawCmd::SetColor(220, 225, 235),
        DrawCmd::Line(CX, MARGIN_Y, CX, (CY - HALF_BOX) as i32),
        DrawCmd::Line(CX, (CY + HALF_BOX) as i32, CX, (WIN_H - MARGIN_Y) as i32),
        DrawCmd::Line(MARGIN_X, CY, (CX - HALF_BOX) as i32, CY),
        DrawCmd::Line((CX + HALF_BOX) as i32, CY, (WIN_W - MARGIN_X) as i32, CY),
        DrawCmd::SetColor(40, 42, 48),
        DrawCmd::FillRect((CX - 2) as i32, MARGIN_Y, 4, (WIN_H - MARGIN_Y * 2) as u32),
        DrawCmd::FillRect(MARGIN_X, (CY - 2) as i32, (WIN_W - MARGIN_X * 2) as u32, 4),
    ]
}

fn draw_roads(cmds: &mut Vec<DrawCmd>)
    ensures
        final(cmds)@ == old(cmds)@ + roads_spec(),
{
    let cx = CX;
    let cy = CY;
    let h = HALF_BOX;
    let road_half = LANE_PX + 6;
    let margin_x = MARGIN_X;
    let margin_y = MARGIN_Y;

    set_color(cmds, 35, 38, 46);
    fill_rect(cmds, 0, 0, WIN_W as u32, WIN_H as u32);

    set_color(cmds, 62, 66, 74);
    fill_rect(cmds, cx - road_half, margin_y, (road_half * 2) as u32, (WIN_H - margin_y * 2) as u32);
    fill_rect(cmds, margin_x, cy - road_half, (WIN_W - margin_x * 2) as u32, (road_half * 2) as u32);

    set_color(cmds, 45, 48, 55);
    fill_rect(cmds, cx - h, cy - h, (h * 2) as u32, (h * 2) as u32);

    set_color(cmds, 220, 225, 235);
    draw_line(cmds, cx, margin_y, cx, cy - h);
    draw_line(cmds, cx, cy + h, cx, WIN_H - margin_y);
    draw_line(cmds, margin_x, cy, cx - h, cy);
    draw_line(cmds, cx + h, cy, WIN_W - margin_x, cy);

    set_color(cmds, 40, 42, 48);
    fill_rect(cmds, cx - 2, margin_y, 4, (WIN_H - margin_y * 2) as u32);
    fill_rect(cmds, margin_x, cy - 2, (WIN_W - margin_x * 2) as u32, 4);
    proof {
        assert(final(cmds)@ =~= old(cmds)@ + roads_spec());
    }
}

/// Outline of the intersection box.
pub open spec fn intersection_box_spec() -> Seq<DrawCmd> {
    seq![
        DrawCmd::SetColor(75, 80, 90),
        DrawCmd::DrawRect(
            (CX - HALF_BOX) as i32,
            (CY - HALF_BOX) as i32,
            (HALF_BOX * 2) as u32,
            (HALF_BOX * 2) as u32,
        ),
    ]
}

fn draw_intersection_box(cmds: &mut Vec<DrawCmd>)
    ensures
        final(cmds)@ == old(cmds)@ + intersection_box_spec(),
{
    set_color(cmds, 75, 80, 90);
    let x = CX - HALF_BOX;
    let y = CY - HALF_BOX;
    let s = (HALF_BOX * 2) as u32;
    cmds.push(DrawCmd::DrawRect(x, y, s, s));
    proof {
        assert(final(cmds)@ =~= old(cmds)@ + intersection_box_spec());
    }
}

/// The two strokes of an arrow head at `(tx, ty)` for an arrow along `(dx, dy)`: the
/// vertical direction decides when there is one, else the horizontal one; a zero
/// arrow has no head.
pub open spec fn arrow_head_spec(tx: int, ty: int, dx: int, dy: int) -> Seq<DrawCmd> {
    if dy > 0 {
        seq![
            DrawCmd::Line(tx as i32, ty as i32, (tx - 5) as i32, (ty - 8) as i32),
            DrawCmd::Line(tx as i32, ty as i32, (tx + 5) as i32, (ty - 8) as i32),
        ]
    } else if dy < 0 {
        seq![
            DrawCmd::Line(tx as i32, ty as i32, (tx - 5) as i32, (ty + 8) as i32),
            DrawCmd::Line(tx as i32, ty as i32, (tx + 5) as i32, (ty + 8) as i32),
        ]
    } else if dx > 0 {
        seq![
            DrawCmd::Line(tx as i32, ty as i32, (tx - 8) as i32, (ty - 5) as i32),
            DrawCmd::Line(tx as i32, ty as i32, (tx - 8) as i32, (ty + 5) as i32),
        ]
    } else if dx < 0 {
        seq![
            DrawCmd::Line(tx as i32, ty as i32, (tx + 8) as i32, (ty - 5) as i32),
            DrawCmd::Line(tx as i32, ty as i32, (tx + 8) as i32, (ty + 5) as i32),
        ]
    } else {
        Seq::empty()
    }
}

/// An arrow from `(x, y)` along `(dx, dy)`: its shaft and head.
pub open spec fn arrow_spec(x: int, y: int, dx: int, dy: int) -> Seq<DrawCmd> {
    seq![
        DrawCmd::SetColor(230, 230, 230),
        DrawCmd::Line(x as i32, y as i32, (x + dx) as i32, (y + dy) as i32),
    ] + arrow_head_spec(x + dx, y + dy, dx, dy)
}

/// The value fits an `i32`.
pub open spec fn in_i32(v: int) -> bool {
    i32::MIN <= v <= i32::MAX
}

/// Every coordinate an arrow from `(x, y)` along `(dx, dy)` computes fits an `i32`.
pub open spec fn arrow_fits(x: int, y: int, dx: int, dy: int) -> bool {
    let tx = x + dx;
    let ty = y + dy;
    &&& in_i32(tx)
    &&& in_i32(ty)
    &&& if dy > 0 {
        in_i32(tx - 5) && in_i32(tx + 5) && in_i32(ty - 8)
    } else if dy < 0 {
        in_i32(tx - 5) && in_i32(tx + 5) && in_i32(ty + 8)
    } else if dx > 0 {
        in_i32(tx - 8) && in_i32(ty - 5) && in_i32(ty + 5)
    } else if dx < 0 {
        in_i32(tx + 8) && in_i32(ty - 5) && in_i32(ty + 5)
    } else {
        true
    }
}

fn draw_arrow(cmds: &mut Vec<DrawCmd>, x: i32, y: i32, dx: i32, dy: i32)
    requires
        arrow_fits(x as int, y as int, dx as int, dy as int),
    ensures
        final(cmds)@ == old(cmds)@ + arrow_spec(x as int, y as int, dx as int, dy as int),
{
    set_color(cmds, 230, 230, 230);
    let tip_x = x + dx;
    let tip_y = y + dy;
    draw_line(cmds, x, y, tip_x, tip_y);
    if dy > 0 {
        draw_line(cmds, tip_x, tip_y, tip_x - 5, tip_y - 8);
        draw_line(cmds, tip_x, tip_y, tip_x + 5, tip_y - 8);
    } else if dy < 0 {
        draw_line(cmds, tip_x, tip_y, tip_x - 5, tip_y + 8);
        draw_line(cmds, tip_x, tip_y, tip_x + 5, tip_y + 8);
    } else if dx > 0 {
        draw_line(cmds, tip_x, tip_y, tip_x - 8, tip_y - 5);
        draw_line(cmds, tip_x, tip_y, tip_x - 8, tip_y + 5);
    } else if dx < 0 {
        draw_line(cmds, tip_x, tip_y, tip_x + 8, tip_y - 5);
        draw_line(cmds, tip_x, tip_y, tip_x + 8, tip_y + 5);
    }
    proof {
        assert(final(cmds)@ =~= old(cmds)@ + arrow_spec(x as int, y as int, dx as int, dy as int));
    }
}

/// The direction arrows, as start point and offset: on each entering track, one near the
/// window edge and one just before the box, pointing along the traffic (down the west
/// column, up the east column, left along the north row, right along the south row).
pub open spec fn arrow_at(k: int) -> (int, int, int, int) {
    let lw = LANE_PX as int;
    let h = HALF_BOX as int;
    let cx = CX as int;
    let cy = CY as int;
    if k == 0 {
        (cx - lw / 2, 70, 0, 40)
    } else if k == 1 {
        (cx + lw / 2, WIN_H - 70, 0, -40)
    } else if k == 2 {
        (70, cy + lw / 2, 40, 0)
    } else if k == 3 {
        (WIN_W - 70, cy - lw / 2, -40, 0)
    } else if k == 4 {
        (cx - lw / 2, cy - h - 50, 0, 30)
    } else if k == 5 {
        (cx + lw / 2, cy + h + 50, 0, -30)
    } else if k == 6 {
        (cx + h + 50, cy - lw / 2, -30, 0)
    } else {
        (cx - h - 50, cy + lw / 2, 30, 0)
    }
}

pub open spec fn arrow_k_spec(k: int) -> Seq<DrawCmd> {
    arrow_spec(arrow_at(k).0, arrow_at(k).1, arrow_at(k).2, arrow_at(k).3)
}

/// The eight direction arrows in order.
pub open spec fn direction_arrows_spec() -> Seq<DrawCmd> {
    arrow_k_spec(0) + arrow_k_spec(1) + arrow_k_spec(2) + arrow_k_spec(3) + arrow_k_spec(4)
        + arrow_k_spec(5) + arrow_k_spec(6) + arrow_k_spec(7)
}

/// Every direction arrow lies on an entering track and points along its traffic: the
/// west column (the southbound entry track) downwards, the east column (northbound)
/// upwards, the north row (westbound) leftwards and the south row (eastbound)
/// rightwards.
pub proof fn law_arrows_on_entering_lanes(k: int)
    requires
        0 <= k < 8,
    ensures
        ({
            let (x, y, dx, dy) = arrow_at(k);
            ||| x * MILLI == ENTER_SB_X && dx == 0 && dy > 0
            ||| x * MILLI == ENTER_NB_X && dx == 0 && dy < 0
            ||| y * MILLI == ENTER_WB_Y && dy == 0 && dx < 0
            ||| y * MILLI == ENTER_EB_Y && dy == 0 && dx > 0
        }),
{
}

fn draw_direction_arrows(cmds: &mut Vec<DrawCmd>)
    ensures
        final(cmds)@ == old(cmds)@ + direction_arrows_spec(),
{
    let cx = CX;
    let cy = CY;
    let h = HALF_BOX;
    let lw = LANE_PX;

    draw_arrow(cmds, cx - lw / 2, 70, 0, 40);
    draw_arrow(cmds, cx + lw / 2, WIN_H - 70, 0, -40);
    draw_arrow(cmds, 70, cy + lw / 2, 40, 0);
    draw_arrow(cmds, WIN_W - 70, cy - lw / 2, -40, 0);

    draw_arrow(cmds, cx - lw / 2, cy - h - 50, 0, 30);
    draw_arrow(cmds, cx + lw / 2, cy + h + 50, 0, -30);
    draw_arrow(cmds, cx + h + 50, cy - lw / 2, -30, 0);
    draw_arrow(cmds, cx - h - 50, cy + lw / 2, 30, 0);
    proof {
        assert(final(cmds)@ =~= old(cmds)@ + direction_arrows_spec());
    }
}


/// Side of the square of cells scanned for a circle of radius `r`.
pub open spec fn circle_side(r: int) -> int {
    2 * r + 1
}

/// The point drawn for cell `k` of a circle's scan (row by row, from the top-left), if
/// the cell lies within the radius.
pub open spec fn circle_cell(cx: int, cy: int, r: int, k: int) -> Seq<DrawCmd> {
    let side = circle_side(r);
    let y = k / side - r;
    let x = k % side - r;
    if x * x + y * y <= r * r {
        seq![DrawCmd::Point((cx + x) as i32, (cy + y) as i32)]
    } else {
        Seq::empty()
    }
}

/// Points of the first `n` cells of a circle's scan.
pub open spec fn circle_upto(cx: int, cy: int, r: int, n: int) -> Seq<DrawCmd>
    decreases n,
{
    if n <= 0 {
        Seq::empty()
    } else {
        circle_upto(cx, cy, r, n - 1) + circle_cell(cx, cy, r, n - 1)
    }
}

/// Every pixel within `r` of the centre, row by row; nothing for a negative radius.
pub open spec fn circle_spec(cx: int, cy: int, r: int) -> Seq<DrawCmd> {
    if r < 0 {
        Seq::empty()
    } else {
        circle_upto(cx, cy, r, circle_side(r) * circle_side(r))
    }
}

/// The scan's arithmetic fits an `i32`: the radius can be negated, the sum of two squares
/// up to the radius squared does not overflow (so the radius is at most 32767), and the
/// points at the radius's reach fit.
pub open spec fn circle_fits(cx: int, cy: int, r: int) -> bool {
    &&& i32::MIN < r <= 32767
    &&& r >= 0 ==> in_i32(cx - r) && in_i32(cx + r) && in_i32(cy - r) && in_i32(cy + r)
}

fn fill_circle(cmds: &mut Vec<DrawCmd>, cx: i32, cy: i32, radius: i32)
    requires
        circle_fits(cx as int, cy as int, radius as int),
    ensures
        final(cmds)@ == old(cmds)@ + circle_spec(cx as int, cy as int, radius as int),
{
    if radius < 0 {
        proof {
            assert(final(cmds)@ =~= old(cmds)@ + circle_spec(cx as int, cy as int, radius as int));
        }
        return;
    }
    let side: i64 = 2 * radius as i64 + 1;
    assert(side * side <= 65535 * 65535) by (nonlinear_arith)
        requires
            0 < side <= 65535,
    ;
    let total: i64 = side * side;
    let mut k: i64 = 0;
    proof {
        assert(0 < side * side) by (nonlinear_arith)
            requires
                side > 0,
        ;
    }
    while k < total
        invariant
            0 <= k <= total,
            0 <= radius <= 32767,
            side == 2 * radius + 1,
            total == side * side,
            circle_fits(cx as int, cy as int, radius as int),
            cmds@ == old(cmds)@ + circle_upto(cx as int, cy as int, radius as int, k as int),
        decreases total - k,
    {
        let yy = k / side - radius as i64;
        let xx = k % side - radius as i64;
        proof {
            assert(k / side < side) by (nonlinear_arith)
                requires
                    0 <= k < side * side,
                    side > 0,
            ;
            assert(0 <= k / side) by (nonlinear_arith)
                requires
                    0 <= k,
                    side > 0,
            ;
            assert(0 <= k % side < side) by (nonlinear_arith)
                requires
                    side > 0,
            ;
            assert(x_bounds(xx as int, yy as int, radius as int));
            assert(radius * radius <= 32767 * 32767) by (nonlinear_arith)
                requires
                    0 <= radius <= 32767,
            ;
        }
        let x = xx as i32;
        let y = yy as i32;
        proof {
            assert(x * x + y * y <= 2 * 32767 * 32767) by (nonlinear_arith)
                requires
                    -32767 <= x <= 32767,
                    -32767 <= y <= 32767,
            ;
            assert(0 <= x * x && 0 <= y * y) by (nonlinear_arith);
        }
        let ghost before = cmds@;
        if x * x + y * y <= radius * radius {
            cmds.push(DrawCmd::Point(cx + x, cy + y));
        }
        proof {
            assert(cmds@ =~= before + circle_cell(cx as int, cy as int, radius as int, k as int));
            assert(old(cmds)@ + circle_upto(cx as int, cy as int, radius as int, k + 1) =~= before + circle_cell(
                cx as int,
                cy as int,
                radius as int,
                k as int,
            ));
        }
        k = k + 1;
    }
}

spec fn x_bounds(x: int, y: int, r: int) -> bool {
    -r <= x <= r && -r <= y <= r
}

/// Colour of a bulb: lit, or the dim housing grey.
pub open spec fn bulb_color(lit: bool, r: u8, g: u8, b: u8) -> DrawCmd {
    if lit {
        DrawCmd::SetColor(r, g, b)
    } else {
        DrawCmd::SetColor(45, 45, 48)
    }
}

/// A traffic light at `(x, y)`: a dark housing with a red bulb (lit on red) and a green
/// bulb (lit on green), stacked vertically or side by side.
pub open spec fn traffic_light_spec(x: int, y: int, state: SignalState, vertical: bool) -> Seq<DrawCmd> {
    let red = bulb_color(state == SignalState::Red, 235, 45, 55);
    let green = bulb_color(state == SignalState::Green, 35, 220, 75);
    if vertical {
        seq![DrawCmd::SetColor(15, 16, 20), DrawCmd::FillRect((x - 10) as i32, (y - 22) as i32, 20, 44), red]
            + circle_spec(x, y - 10, 7) + seq![green] + circle_spec(x, y + 10, 7)
    } else {
        seq![DrawCmd::SetColor(15, 16, 20), DrawCmd::FillRect((x - 22) as i32, (y - 10) as i32, 44, 20), red]
            + circle_spec(x - 10, y, 7) + seq![green] + circle_spec(x + 10, y, 7)
    }
}

/// Every coordinate a traffic light at `(x, y)` computes fits an `i32`: the housing
/// corner and the bulbs' reach of 7 pixels around centres 10 pixels off `(x, y)`.
pub open spec fn light_fits(x: int, y: int, vertical: bool) -> bool {
    if vertical {
        i32::MIN + 10 <= x <= i32::MAX - 7 && i32::MIN + 22 <= y <= i32::MAX - 17
    } else {
        i32::MIN + 22 <= x <= i32::MAX - 17 && i32::MIN + 10 <= y <= i32::MAX - 7
    }
}

fn draw_traffic_light(cmds: &mut Vec<DrawCmd>, x: i32, y: i32, state: SignalState, vertical: bool)
    requires
        light_fits(x as int, y as int, vertical),
    ensures
        final(cmds)@ == old(cmds)@ + traffic_light_spec(x as int, y as int, state, vertical),
{
    set_color(cmds, 15, 16, 20);
    let ghost start = cmds@;
    if vertical {
        fill_rect(cmds, x - 10, y - 22, 20, 44);
        if state == SignalState::Red {
            set_color(cmds, 235, 45, 55);
        } else {
            set_color(cmds, 45, 45, 48);
        }
        fill_circle(cmds, x, y - 10, 7);
        if state == SignalState::Green {
            set_color(cmds, 35, 220, 75);
        } else {
            set_color(cmds, 45, 45, 48);
        }
        fill_circle(cmds, x, y + 10, 7);
    } else {
        fill_rect(cmds, x - 22, y - 10, 44, 20);
        if state == SignalState::Red {
            set_color(cmds, 235, 45, 55);
        } else {
            set_color(cmds, 45, 45, 48);
        }
        fill_circle(cmds, x - 10, y, 7);
        if state == SignalState::Green {
            set_color(cmds, 35, 220, 75);
        } else {
            set_color(cmds, 45, 45, 48);
        }
        fill_circle(cmds, x + 10, y, 7);
    }
    proof {
        assert(final(cmds)@ =~= old(cmds)@ + traffic_light_spec(x as int, y as int, state, vertical));
    }
}

/// Where each lane's light stands, and whether it is drawn upright.
pub open spec fn light_anchor_spec(lane: LaneId) -> (int, int, bool) {
    let cx = CX as int;
    let cy = CY as int;
    let h = HALF_BOX as int;
    let d = 36int;
    let gap = 48int;
    match lane {
        LaneId::NorthSb => (cx + gap, cy - h - d, false),
        LaneId::NorthNb => (cx - gap, cy - h - d, false),
        LaneId::SouthNb => (cx - gap, cy + h + d, false),
        LaneId::SouthSb => (cx + gap, cy + h + d, false),
        LaneId::WestEb => (cx - h - d, cy + gap, true),
        LaneId::WestWb => (cx - h - d, cy - gap, true),
        LaneId::EastWb => (cx + h + d, cy - gap, true),
        LaneId::EastEb => (cx + h + d, cy + gap, true),
    }
}

/// Position of each lane's traffic light beside the box, and whether it is upright.
pub fn traffic_light_anchor(lane: LaneId) -> (r: (i32, i32, bool))
    ensures
        (r.0 as int, r.1 as int, r.2) == light_anchor_spec(lane),
{
    let cx = CX;
    let cy = CY;
    let h = HALF_BOX;
    let distance_from_intersection: i32 = 36;
    let lane_gap: i32 = 48;
    match lane {
        LaneId::NorthSb => (cx + lane_gap, cy - h - distance_from_intersection, false),
        LaneId::NorthNb => (cx - lane_gap, cy - h - distance_from_intersection, false),
        LaneId::SouthNb => (cx - lane_gap, cy + h + distance_from_intersection, false),
        LaneId::SouthSb => (cx + lane_gap, cy + h + distance_from_intersection, false),
        LaneId::WestEb => (cx - h - distance_from_intersection, cy + lane_gap, true),
        LaneId::WestWb => (cx - h - distance_from_intersection, cy - lane_gap, true),
        LaneId::EastWb => (cx + h + distance_from_intersection, cy - lane_gap, true),
        LaneId::EastEb => (cx + h + distance_from_intersection, cy + lane_gap, true),
    }
}

/// The lights of the first `n` lanes, each showing its lane's signal.
pub open spec fn lights_upto(signals: Seq<SignalState>, n: int) -> Seq<DrawCmd>
    decreases n,
{
    if n <= 0 {
        Seq::empty()
    } else {
        let a = light_anchor_spec(lane_at(n - 1));
        lights_upto(signals, n - 1) + traffic_light_spec(a.0, a.1, signals[n - 1], a.2)
    }
}

fn draw_traffic_lights(cmds: &mut Vec<DrawCmd>, sim: &Simulation)
    ensures
        final(cmds)@ == old(cmds)@ + lights_upto(sim.lane_signals@, 8),
{
    let lanes = LaneId::all();
    let mut i: usize = 0;
    while i < 8
        invariant
            i <= 8,
            forall|k: int| 0 <= k < 8 ==> #[trigger] lanes@[k] == lane_at(k),
            cmds@ == old(cmds)@ + lights_upto(sim.lane_signals@, i as int),
        decreases 8 - i,
    {
        let lane_id = lanes[i];
        let state = sim.lane_signal(lane_id);
        let (x, y, vertical) = traffic_light_anchor(lane_id);
        let ghost before = cmds@;
        draw_traffic_light(cmds, x, y, state, vertical);
        proof {
            crate::types::lemma_lane_index_roundtrip(lane_id);
            assert(sim.signal_view(lane_id) == sim.lane_signals@[i as int]);
            assert(cmds@ =~= old(cmds)@ + lights_upto(sim.lane_signals@, i + 1));
        }
        i = i + 1;
    }
}


/// The 5x7 glyph of a label letter, one row per entry; bit 4 is the leftmost column.
/// Letters are matched without regard to case; unknown characters are blank.
pub open spec fn glyph_spec(ch: char) -> Seq<u8> {
    if ch == 'A' || ch == 'a' {
        seq![0b01110u8, 0b10001, 0b10001, 0b11111, 0b10001, 0b10001, 0b10001]
    } else if ch == 'E' || ch == 'e' {
        seq![0b11111u8, 0b10000, 0b10000, 0b11110, 0b10000, 0b10000, 0b11111]
    } else if ch == 'H' || ch == 'h' {
        seq![0b10001u8, 0b10001, 0b10001, 0b11111, 0b10001, 0b10001, 0b10001]
    } else if ch == 'N' || ch == 'n' {
        seq![0b10001u8, 0b11001, 0b10101, 0b10011, 0b10001, 0b10001, 0b10001]
    } else if ch == 'O' || ch == 'o' {
        seq![0b01110u8, 0b10001, 0b10001, 0b10001, 0b10001, 0b10001, 0b01110]
    } else if ch == 'R' || ch == 'r' {
        seq![0b11110u8, 0b10001, 0b10001, 0b11110, 0b10100, 0b10010, 0b10001]
    } else if ch == 'S' || ch == 's' {
        seq![0b01111u8, 0b10000, 0b10000, 0b01110, 0b00001, 0b00001, 0b11110]
    } else if ch == 'T' || ch == 't' {
        seq![0b11111u8, 0b00100, 0b00100, 0b00100, 0b00100, 0b00100, 0b00100]
    } else if ch == 'U' || ch == 'u' {
        seq![0b10001u8, 0b10001, 0b10001, 0b10001, 0b10001, 0b10001, 0b01110]
    } else if ch == 'W' || ch == 'w' {
        seq![0b10001u8, 0b10001, 0b10001, 0b10101, 0b10101, 0b11011, 0b10001]
    } else {
        seq![0u8, 0, 0, 0, 0, 0, 0]
    }
}

fn glyph(ch: char) -> (rows: [u8; 7])
    ensures
        rows@ == glyph_spec(ch),
{
    let rows: [u8; 7] = match ch {
        'A' | 'a' => [0b01110, 0b10001, 0b10001, 0b11111, 0b10001, 0b10001, 0b10001],
        'E' | 'e' => [0b11111, 0b10000, 0b10000, 0b11110, 0b10000, 0b10000, 0b11111],
        'H' | 'h' => [0b10001, 0b10001, 0b10001, 0b11111, 0b10001, 0b10001, 0b10001],
        'N' | 'n' => [0b10001, 0b11001, 0b10101, 0b10011, 0b10001, 0b10001, 0b10001],
        'O' | 'o' => [0b01110, 0b10001, 0b10001, 0b10001, 0b10001, 0b10001, 0b01110],
        'R' | 'r' => [0b11110, 0b10001, 0b10001, 0b11110, 0b10100, 0b10010, 0b10001],
        'S' | 's' => [0b01111, 0b10000, 0b10000, 0b01110, 0b00001, 0b00001, 0b11110],
        'T' | 't' => [0b11111, 0b00100, 0b00100, 0b00100, 0b00100, 0b00100, 0b00100],
        'U' | 'u' => [0b10001, 0b10001, 0b10001, 0b10001, 0b10001, 0b10001, 0b01110],
        'W' | 'w' => [0b10001, 0b10001, 0b10001, 0b10101, 0b10101, 0b11011, 0b10001],
        _ => [0, 0, 0, 0, 0, 0, 0],
    };
    assert(rows@ =~= glyph_spec(ch));
    rows
}

/// Place value of column `col` (0 = leftmost) in a glyph row.
pub open spec fn column_weight(col: int) -> int {
    if col == 0 {
        16
    } else if col == 1 {
        8
    } else if col == 2 {
        4
    } else if col == 3 {
        2
    } else {
        1
    }
}

/// The square drawn for cell `k` (row by row) of a glyph at `(x, y)`, if it is set.
pub open spec fn glyph_cell(ch: char, x: int, y: int, scale: int, k: int) -> Seq<DrawCmd> {
    let row = k / 5;
    let col = k % 5;
    if (glyph_spec(ch)[row] as int / column_weight(col)) % 2 == 1 {
        seq![DrawCmd::FillRect((x + col * scale) as i32, (y + row * scale) as i32, scale as u32, scale as u32)]
    } else {
        Seq::empty()
    }
}

/// Squares of the first `n` cells of a glyph.
pub open spec fn glyph_upto(ch: char, x: int, y: int, scale: int, n: int) -> Seq<DrawCmd>
    decreases n,
{
    if n <= 0 {
        Seq::empty()
    } else {
        glyph_upto(ch, x, y, scale, n - 1) + glyph_cell(ch, x, y, scale, n - 1)
    }
}

/// A label letter: one `scale`-sized square per set glyph pixel.
pub open spec fn label_char_spec(ch: char, x: int, y: int, scale: int) -> Seq<DrawCmd> {
    glyph_upto(ch, x, y, scale, 35)
}

/// Glyph cell `k` (row by row) of the letter is set.
pub open spec fn glyph_set(ch: char, k: int) -> bool {
    (glyph_spec(ch)[k / 5] as int / column_weight(k % 5)) % 2 == 1
}

/// Every coordinate the letter's set pixels compute fits an `i32`.
pub open spec fn char_fits(ch: char, x: int, y: int, scale: int) -> bool {
    forall|k: int|
        0 <= k < 35 && #[trigger] glyph_set(ch, k) ==> in_i32((k % 5) * scale) && in_i32(x + (k % 5) * scale)
            && in_i32((k / 5) * scale) && in_i32(y + (k / 5) * scale)
}

/// Any letter fits when the position and scale are moderate.
pub proof fn lemma_char_fits_small(ch: char, x: int, y: int, scale: int)
    requires
        -10_000_000 <= x <= 10_000_000,
        -10_000_000 <= y <= 10_000_000,
        -1000 <= scale <= 1000,
    ensures
        char_fits(ch, x, y, scale),
{
    assert forall|k: int| 0 <= k < 35 && #[trigger] glyph_set(ch, k) implies in_i32((k % 5) * scale)
        && in_i32(x + (k % 5) * scale) && in_i32((k / 5) * scale) && in_i32(y + (k / 5) * scale) by {
        assert(-7000 <= (k % 5) * scale <= 7000 && -7000 <= (k / 5) * scale <= 7000) by (nonlinear_arith)
            requires
                0 <= k < 35,
                -1000 <= scale <= 1000,
        ;
    }
}

fn draw_label_char(cmds: &mut Vec<DrawCmd>, ch: char, x: i32, y: i32, scale: i32)
    requires
        char_fits(ch, x as int, y as int, scale as int),
    ensures
        final(cmds)@ == old(cmds)@ + label_char_spec(ch, x as int, y as int, scale as int),
{
    let pattern = glyph(ch);
    let mut k: usize = 0;
    while k < 35
        invariant
            k <= 35,
            pattern@ == glyph_spec(ch),
            char_fits(ch, x as int, y as int, scale as int),
            cmds@ == old(cmds)@ + glyph_upto(ch, x as int, y as int, scale as int, k as int),
        decreases 35 - k,
    {
        let row = k / 5;
        let col = k % 5;
        let weight: u8 = if col == 0 {
            16
        } else if col == 1 {
            8
        } else if col == 2 {
            4
        } else if col == 3 {
            2
        } else {
            1
        };
        let ghost before = cmds@;
        if (pattern[row] / weight) % 2 == 1 {
            proof {
                assert(glyph_set(ch, k as int));
            }
            let c = col as i32;
            let r = row as i32;
            cmds.push(DrawCmd::FillRect(x + c * scale, y + r * scale, scale as u32, scale as u32));
        }
        proof {
            assert(cmds@ =~= old(cmds)@ + glyph_upto(ch, x as int, y as int, scale as int, k + 1));
        }
        k = k + 1;
    }
}

/// A word of label letters, each `6 * scale` right of the previous one.
pub open spec fn label_word_spec(word: Seq<char>, x: int, y: int, scale: int) -> Seq<DrawCmd>
    decreases word.len(),
{
    if word.len() == 0 {
        Seq::empty()
    } else {
        label_word_spec(word.drop_last(), x, y, scale) + label_char_spec(
            word.last(),
            x + (word.len() - 1) * 6 * scale,
            y,
            scale,
        )
    }
}

/// Every coordinate a word computes fits an `i32`: the letter advance, the cursor after
/// each letter, and each letter at its cursor.
pub open spec fn word_fits(word: Seq<char>, x: int, y: int, scale: int) -> bool {
    &&& word.len() > 0 ==> in_i32(6 * scale)
    &&& forall|i: int| 1 <= i <= word.len() ==> #[trigger] in_i32(x + i * 6 * scale)
    &&& forall|i: int| 0 <= i < word.len() ==> #[trigger] char_fits(word[i], x + i * 6 * scale, y, scale)
}

/// A short word at a moderate position and scale fits.
pub proof fn lemma_word_fits_small(word: Seq<char>, x: int, y: int, scale: int)
    requires
        word.len() <= 100,
        -5_000_000 <= x <= 5_000_000,
        -10_000_000 <= y <= 10_000_000,
        -1000 <= scale <= 1000,
    ensures
        word_fits(word, x, y, scale),
{
    assert forall|i: int| 1 <= i <= word.len() implies #[trigger] in_i32(x + i * 6 * scale) by {
        assert(-600_000 <= i * 6 * scale <= 600_000) by (nonlinear_arith)
            requires
                0 <= i <= 100,
                -1000 <= scale <= 1000,
        ;
    }
    assert forall|i: int| 0 <= i < word.len() implies #[trigger] char_fits(word[i], x + i * 6 * scale, y, scale) by {
        assert(-600_000 <= i * 6 * scale <= 600_000) by (nonlinear_arith)
            requires
                0 <= i <= 100,
                -1000 <= scale <= 1000,
        ;
        lemma_char_fits_small(word[i], x + i * 6 * scale, y, scale);
    }
}

fn draw_label_word(cmds: &mut Vec<DrawCmd>, word: &str, x: i32, y: i32, scale: i32)
    requires
        word_fits(word@, x as int, y as int, scale as int),
    ensures
        final(cmds)@ == old(cmds)@ + label_word_spec(word@, x as int, y as int, scale as int),
{
    let n = word.unicode_len();
    let mut cursor = x;
    let mut i: usize = 0;
    while i < n
        invariant
            n == word@.len(),
            i <= n,
            word_fits(word@, x as int, y as int, scale as int),
            cursor as int == x + i * 6 * scale,
            cmds@ == old(cmds)@ + label_word_spec(word@.take(i as int), x as int, y as int, scale as int),
        decreases n - i,
    {
        proof {
            assert((i + 1) * 6 * scale == i * 6 * scale + 6 * scale) by (nonlinear_arith);
            assert(in_i32(x + (i + 1) * 6 * scale));
            assert(char_fits(word@[i as int], x + i * 6 * scale, y as int, scale as int));
        }
        let ch = word.get_char(i);
        draw_label_char(cmds, ch, cursor, y, scale);
        proof {
            let t = word@.take(i + 1);
            assert(t.drop_last() =~= word@.take(i as int));
            assert(t.last() == ch);
        }
        cursor = cursor + 6 * scale;
        i = i + 1;
    }
    proof {
        assert(word@.take(n as int) =~= word@);
    }
}

/// Width in pixels of a label word: its letter count (as an `i32`) times six times the
/// scale.
pub fn label_width(word: &str, scale: i32) -> (w: i32)
    requires
        in_i32((word@.len() as i32) * 6),
        in_i32((word@.len() as i32) * 6 * scale),
    ensures
        w as int == (word@.len() as i32) * 6 * scale,
{
    let n = word.unicode_len();
    #[verifier::truncate]
    let count = n as i32;
    count * 6 * scale
}

/// Height in pixels of a label word.
pub fn label_height(scale: i32) -> (h: i32)
    requires
        i32::MIN <= 7 * scale <= i32::MAX,
    ensures
        h as int == 7 * scale,
{
    7 * scale
}

/// The four compass labels around the intersection, at scale 3 with a 24-pixel pad.
pub open spec fn cardinal_labels_spec() -> Seq<DrawCmd> {
    let cx = CX as int;
    let cy = CY as int;
    let scale = 3int;
    let pad = 24int;
    let lh = 7 * scale;
    seq![DrawCmd::SetColor(235, 238, 245)]
        + label_word_spec("NORTH"@, cx - ("NORTH"@.len() * 6 * scale) / 2, 18, scale)
        + label_word_spec("SOUTH"@, cx - ("SOUTH"@.len() * 6 * scale) / 2, WIN_H - 18 - lh, scale)
        + label_word_spec("WEST"@, pad, cy - lh / 2, scale)
        + label_word_spec("EAST"@, WIN_W - pad - "EAST"@.len() * 6 * scale, cy - lh / 2, scale)
}

fn draw_cardinal_labels(cmds: &mut Vec<DrawCmd>)
    ensures
        final(cmds)@ == old(cmds)@ + cardinal_labels_spec(),
{
    set_color(cmds, 235, 238, 245);
    let cx = CX;
    let cy = CY;
    let scale: i32 = 3;
    let pad: i32 = 24;
    proof {
        reveal_strlit("NORTH");
        reveal_strlit("SOUTH");
        reveal_strlit("WEST");
        reveal_strlit("EAST");
        lemma_word_fits_small("NORTH"@, CX - 45, 18, 3);
        lemma_word_fits_small("SOUTH"@, CX - 45, WIN_H - 18 - 21, 3);
        lemma_word_fits_small("WEST"@, 24, CY - 10, 3);
        lemma_word_fits_small("EAST"@, WIN_W - 24 - 72, CY - 10, 3);
    }
    draw_label_word(cmds, "NORTH", cx - label_width("NORTH", scale) / 2, 18, scale);
    draw_label_word(cmds, "SOUTH", cx - label_width("SOUTH", scale) / 2, WIN_H - 18 - label_height(scale), scale);
    draw_label_word(cmds, "WEST", pad, cy - label_height(scale) / 2, scale);
    draw_label_word(cmds, "EAST", WIN_W - pad - label_width("EAST", scale), cy - label_height(scale) / 2, scale);
    proof {
        assert(final(cmds)@ =~= old(cmds)@ + cardinal_labels_spec());
    }
}


/// A millipixel coordinate in whole pixels, rounded toward zero.
pub open spec fn px_spec(v: int) -> int {
    div_toward_zero(v, 1000)
}

/// Converts a millipixel coordinate to whole pixels, rounding toward zero.
pub fn to_px(v: i64) -> (p: i32)
    requires
        -COORD_LIMIT <= v <= COORD_LIMIT,
    ensures
        p as int == px_spec(v as int),
        -1_000_000 <= p <= 1_000_000,
{
    if v >= 0 {
        (v / 1000) as i32
    } else {
        -((-v) / 1000) as i32
    }
}

/// The stop line of one lane: a 28-pixel bar across the lane.
pub open spec fn stop_line_spec(stop: Vec2, heading: u32) -> DrawCmd {
    let sx = px_spec(stop.x as int);
    let sy = px_spec(stop.y as int);
    if heading == 90 || heading == 270 {
        DrawCmd::Line((sx - 14) as i32, sy as i32, (sx + 14) as i32, sy as i32)
    } else {
        DrawCmd::Line(sx as i32, (sy - 14) as i32, sx as i32, (sy + 14) as i32)
    }
}

/// Stop lines of the first `n` lanes.
pub open spec fn stop_lines_upto(sim: &Simulation, n: int) -> Seq<DrawCmd>
    decreases n,
{
    if n <= 0 {
        Seq::empty()
    } else {
        let lane = sim.world.lane_view(lane_at(n - 1));
        stop_lines_upto(sim, n - 1).push(stop_line_spec(lane.stop_line, lane.heading))
    }
}

fn draw_stop_lines(cmds: &mut Vec<DrawCmd>, sim: &Simulation)
    requires
        sim.world.wf(),
    ensures
        final(cmds)@ == old(cmds)@ + seq![DrawCmd::SetColor(240, 240, 240)] + stop_lines_upto(sim, 8),
{
    set_color(cmds, 240, 240, 240);
    let lanes = LaneId::all();
    let mut i: usize = 0;
    while i < 8
        invariant
            i <= 8,
            sim.world.wf(),
            forall|k: int| 0 <= k < 8 ==> #[trigger] lanes@[k] == lane_at(k),
            cmds@ == old(cmds)@ + seq![DrawCmd::SetColor(240, 240, 240)] + stop_lines_upto(sim, i as int),
        decreases 8 - i,
    {
        let lane = sim.world.lane(lanes[i]);
        proof {
            assert(point_in_range(sim.world.lane_view(lanes[i as int]).stop_line));
        }
        let sx = to_px(lane.stop_line.x);
        let sy = to_px(lane.stop_line.y);
        if lane.heading == 90 || lane.heading == 270 {
            draw_line(cmds, sx - 14, sy, sx + 14, sy);
        } else {
            draw_line(cmds, sx, sy - 14, sx, sy + 14);
        }
        proof {
            assert(cmds@ =~= old(cmds)@ + seq![DrawCmd::SetColor(240, 240, 240)] + stop_lines_upto(sim, i + 1));
        }
        i = i + 1;
    }
}

/// Lines joining consecutive points of the first `n` points of a polyline.
pub open spec fn polyline_lines(pts: Seq<Vec2>, n: int) -> Seq<DrawCmd>
    decreases n,
{
    if n <= 1 {
        Seq::empty()
    } else {
        let a = pts[n - 2];
        let b = pts[n - 1];
        polyline_lines(pts, n - 1).push(
            DrawCmd::Line(
                px_spec(a.x as int) as i32,
                px_spec(a.y as int) as i32,
                px_spec(b.x as int) as i32,
                px_spec(b.y as int) as i32,
            ),
        )
    }
}

/// Straight paths of the inbound lanes among the first `n` lanes.
pub open spec fn route_preview_upto(sim: &Simulation, n: int) -> Seq<DrawCmd>
    decreases n,
{
    if n <= 0 {
        Seq::empty()
    } else {
        let lane = lane_at(n - 1);
        let rest = route_preview_upto(sim, n - 1);
        if sim.world.lane_view(lane).inbound {
            let pts = sim.world.route_view(lane, RouteType::Straight).waypoints;
            rest + polyline_lines(pts, pts.len() as int)
        } else {
            rest
        }
    }
}

fn draw_route_preview(cmds: &mut Vec<DrawCmd>, sim: &Simulation)
    requires
        sim.world.wf(),
    ensures
        final(cmds)@ == old(cmds)@ + seq![DrawCmd::SetColor(80, 85, 95)] + route_preview_upto(sim, 8),
{
    set_color(cmds, 80, 85, 95);
    let lanes = LaneId::all();
    let mut i: usize = 0;
    while i < 8
        invariant
            i <= 8,
            sim.world.wf(),
            forall|k: int| 0 <= k < 8 ==> #[trigger] lanes@[k] == lane_at(k),
            cmds@ == old(cmds)@ + seq![DrawCmd::SetColor(80, 85, 95)] + route_preview_upto(sim, i as int),
        decreases 8 - i,
    {
        let lane_id = lanes[i];
        if sim.world.lane(lane_id).inbound {
            let path = sim.world.route(lane_id, RouteType::Straight);
            let pts = &path.waypoints;
            let ghost before = cmds@;
            proof {
                assert(crate::geometry::all_in_range(sim.world.route_view(lane_id, RouteType::Straight).waypoints));
            }
            let mut j: usize = 1;
            while j < pts.len()
                invariant
                    1 <= j,
                    j <= pts@.len() || j == 1,
                    pts@ == sim.world.route_view(lane_id, RouteType::Straight).waypoints,
                    crate::geometry::all_in_range(pts@),
                    cmds@ == before + polyline_lines(pts@, j as int),
                decreases pts@.len() - j,
            {
                let a = pts[j - 1];
                let b = pts[j];
                let ax = to_px(a.x);
                let ay = to_px(a.y);
                let bx = to_px(b.x);
                let by = to_px(b.y);
                draw_line(cmds, ax, ay, bx, by);
                j = j + 1;
            }
            proof {
                if pts@.len() == 0 {
                    assert(j == 1);
                    assert(polyline_lines(pts@, 1) =~= polyline_lines(pts@, 0));
                } else {
                    assert(j == pts@.len());
                }
                assert(cmds@ == before + polyline_lines(pts@, pts@.len() as int));
                assert(cmds@ =~= old(cmds)@ + seq![DrawCmd::SetColor(80, 85, 95)] + route_preview_upto(sim, i + 1));
            }
        } else {
            proof {
                assert(cmds@ =~= old(cmds)@ + seq![DrawCmd::SetColor(80, 85, 95)] + route_preview_upto(sim, i + 1));
            }
        }
        i = i + 1;
    }
}

/// A vehicle: its route colour, then its body centred on its position.
pub open spec fn vehicle_spec(v: VehicleView) -> Seq<DrawCmd> {
    let c = route_color_spec(v.route);
    let pos = sample_spec(v.path, v.progress).0;
    let ext = extents_spec(sample_spec(v.path, v.progress).1);
    let hw = ext.0 / 2000;
    let hh = ext.1 / 2000;
    seq![
        DrawCmd::SetColor(c.r, c.g, c.b),
        DrawCmd::FillRect(
            (px_spec(pos.x as int) - hw) as i32,
            (px_spec(pos.y as int) - hh) as i32,
            (hw * 2) as u32,
            (hh * 2) as u32,
        ),
    ]
}

/// The first `n` vehicles.
pub open spec fn vehicles_upto(vs: Seq<VehicleView>, n: int) -> Seq<DrawCmd>
    decreases n,
{
    if n <= 0 {
        Seq::empty()
    } else {
        vehicles_upto(vs, n - 1) + vehicle_spec(vs[n - 1])
    }
}

fn draw_vehicles(cmds: &mut Vec<DrawCmd>, sim: &Simulation)
    requires
        sim.wf(),
    ensures
        final(cmds)@ == old(cmds)@ + vehicles_upto(sim.vehicle_views(), sim.vehicle_views().len() as int),
{
    let n = sim.vehicles.len();
    let mut i: usize = 0;
    while i < n
        invariant
            n == sim.vehicles@.len(),
            i <= n,
            sim.wf(),
            cmds@ == old(cmds)@ + vehicles_upto(sim.vehicle_views(), i as int),
        decreases n - i,
    {
        let v = &sim.vehicles[i];
        proof {
            assert(sim.vehicle_views()[i as int] == v@);
            assert(v@.wf());
            lemma_sample_pos_in_range(v@.path, v@.progress);
        }
        let color = v.color();
        set_color(cmds, color.r, color.g, color.b);
        let pos = v.position();
        let (width, height) = v.draw_extents();
        let hw = (width / 2000) as i32;
        let hh = (height / 2000) as i32;
        let x = to_px(pos.x);
        let y = to_px(pos.y);
        fill_rect(cmds, x - hw, y - hh, (hw * 2) as u32, (hh * 2) as u32);
        proof {
            assert(cmds@ =~= old(cmds)@ + vehicles_upto(sim.vehicle_views(), i + 1));
        }
        i = i + 1;
    }
}

/// The whole frame: cleared to black, then roads, the straight-path preview, the box,
/// stop lines, direction arrows, compass labels, traffic lights and vehicles.
pub open spec fn frame_spec(sim: &Simulation) -> Seq<DrawCmd> {
    seq![DrawCmd::SetColor(0, 0, 0), DrawCmd::Clear]
        + roads_spec()
        + seq![DrawCmd::SetColor(80, 85, 95)] + route_preview_upto(sim, 8)
        + intersection_box_spec()
        + seq![DrawCmd::SetColor(240, 240, 240)] + stop_lines_upto(sim, 8)
        + direction_arrows_spec()
        + cardinal_labels_spec()
        + lights_upto(sim.lane_signals@, 8)
        + vehicles_upto(sim.vehicle_views(), sim.vehicle_views().len() as int)
}

/// Drawing commands for one frame of the simulation.
pub fn frame_commands(sim: &Simulation) -> (cmds: Vec<DrawCmd>)
    requires
        sim.wf(),
    ensures
        cmds@ == frame_spec(sim),
{
    let mut cmds: Vec<DrawCmd> = Vec::new();
    set_color(&mut cmds, 0, 0, 0);
    cmds.push(DrawCmd::Clear);

    draw_roads(&mut cmds);
    draw_route_preview(&mut cmds, sim);
    draw_intersection_box(&mut cmds);
    draw_stop_lines(&mut cmds, sim);
    draw_direction_arrows(&mut cmds);
    draw_cardinal_labels(&mut cmds);
    draw_traffic_lights(&mut cmds, sim);
    draw_vehicles(&mut cmds, sim);
    proof {
        assert(cmds@ =~= frame_spec(sim));
    }
    cmds
}


/// The command sets a colour.
pub open spec fn is_color(c: DrawCmd) -> bool {
    c matches DrawCmd::SetColor(_, _, _)
}

proof fn lemma_circle_upto_points(cx: int, cy: int, r: int, n: int)
    ensures
        forall|i: int| 0 <= i < circle_upto(cx, cy, r, n).len() ==> !is_color(#[trigger] circle_upto(cx, cy, r, n)[i]),
    decreases n,
{
    if n > 0 {
        lemma_circle_upto_points(cx, cy, r, n - 1);
        let a = circle_upto(cx, cy, r, n - 1);
        let b = circle_cell(cx, cy, r, n - 1);
        assert forall|i: int| 0 <= i < (a + b).len() implies !is_color(#[trigger] (a + b)[i]) by {
            if i < a.len() {
                assert((a + b)[i] == a[i]);
            } else {
                assert((a + b)[i] == b[i - a.len()]);
            }
        }
    }
}

/// A circle is drawn with points only; it sets no colour.
pub proof fn lemma_circle_sets_no_color(cx: int, cy: int, r: int)
    ensures
        forall|i: int| 0 <= i < circle_spec(cx, cy, r).len() ==> !is_color(#[trigger] circle_spec(cx, cy, r)[i]),
{
    if r >= 0 {
        lemma_circle_upto_points(cx, cy, r, circle_side(r) * circle_side(r));
    }
}

/// A drawn traffic light shows its signal: the lit red colour appears exactly when the
/// signal is red and the lit green colour exactly when it is green, so exactly one bulb
/// is lit; the other bulb is dim grey.
pub proof fn law_light_shows_signal(x: int, y: int, state: SignalState, vertical: bool)
    ensures
        traffic_light_spec(x, y, state, vertical).contains(DrawCmd::SetColor(235, 45, 55))
            <==> state == SignalState::Red,
        traffic_light_spec(x, y, state, vertical).contains(DrawCmd::SetColor(35, 220, 75))
            <==> state == SignalState::Green,
        traffic_light_spec(x, y, state, vertical).contains(DrawCmd::SetColor(45, 45, 48)),
{
    let (c1, c2) = if vertical {
        (circle_spec(x, y - 10, 7), circle_spec(x, y + 10, 7))
    } else {
        (circle_spec(x - 10, y, 7), circle_spec(x + 10, y, 7))
    };
    lemma_circle_sets_no_color(x, y - 10, 7);
    lemma_circle_sets_no_color(x, y + 10, 7);
    lemma_circle_sets_no_color(x - 10, y, 7);
    lemma_circle_sets_no_color(x + 10, y, 7);
    let red = bulb_color(state == SignalState::Red, 235, 45, 55);
    let green = bulb_color(state == SignalState::Green, 35, 220, 75);
    let head = if vertical {
        seq![DrawCmd::SetColor(15, 16, 20), DrawCmd::FillRect((x - 10) as i32, (y - 22) as i32, 20, 44), red]
    } else {
        seq![DrawCmd::SetColor(15, 16, 20), DrawCmd::FillRect((x - 22) as i32, (y - 10) as i32, 44, 20), red]
    };
    let t = traffic_light_spec(x, y, state, vertical);
    assert(t == head + c1 + seq![green] + c2);
    let n1 = head.len() + c1.len();
    assert(t[2] == red);
    assert(t[n1 as int] == green);
    // Every colour command of the light is one of its three: housing, red bulb, green bulb.
    assert forall|i: int| 0 <= i < t.len() && is_color(#[trigger] t[i]) implies i == 0 || i == 2 || i == n1 by {
        if i < 3 {
            if i == 1 {
                assert(!is_color(t[1]));
            }
        } else if i < n1 {
            assert(t[i] == c1[i - 3]);
        } else if i > n1 {
            assert(t[i] == c2[i - n1 - 1]);
        }
    }
    if t.contains(DrawCmd::SetColor(235, 45, 55)) {
        let i = choose|i: int| 0 <= i < t.len() && t[i] == DrawCmd::SetColor(235, 45, 55);
        assert(is_color(t[i]));
    }
    if t.contains(DrawCmd::SetColor(35, 220, 75)) {
        let i = choose|i: int| 0 <= i < t.len() && t[i] == DrawCmd::SetColor(35, 220, 75);
        assert(is_color(t[i]));
    }
    if state == SignalState::Red {
        assert(t[2] == DrawCmd::SetColor(235, 45, 55));
        assert(t[n1 as int] == DrawCmd::SetColor(45, 45, 48));
    } else {
        assert(t[n1 as int] == DrawCmd::SetColor(35, 220, 75));
        assert(t[2] == DrawCmd::SetColor(45, 45, 48));
    }
}

} // verus!
