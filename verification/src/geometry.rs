//! Screen coordinates. Everything is in logical pixels; physical pixels are
//! the platform layer's business.

use vstd::prelude::*;

verus! {

/// The side of the screen on which a point lies.
#[derive(Debug, Clone, Copy, PartialEq, Eq, Structural)]
pub enum Edge {
    Left,
    Right,
    Top,
    Bottom,
    Inside,
}

/// How far inside the peer's screen the cursor enters. macOS draws the arrow
/// below and to the right of its hot spot, so a cursor on the outermost pixel
/// would be almost invisible.
pub const ENTRY_INSET: i32 = 4;

/// The edge that the point `(x, y)` touches on a `w` by `h` screen, within
/// `margin` pixels. Left and right are looked at before top and bottom.
pub open spec fn edge_of(x: int, y: int, w: int, h: int, margin: int) -> Edge {
    if x < margin {
        Edge::Left
    } else if x >= w - margin {
        Edge::Right
    } else if y < margin {
        Edge::Top
    } else if y >= h - margin {
        Edge::Bottom
    } else {
        Edge::Inside
    }
}

/// Tells which edge of the screen the point lies on.
pub fn hit_edge(x: i32, y: i32, virtual_w: i32, virtual_h: i32, edge_margin: i32) -> (edge: Edge)
    requires
        x >= edge_margin ==> i32::MIN <= virtual_w - edge_margin <= i32::MAX,
        x >= edge_margin && x < virtual_w - edge_margin && y >= edge_margin ==> i32::MIN
            <= virtual_h - edge_margin <= i32::MAX,
    ensures
        edge == edge_of(
            x as int,
            y as int,
            virtual_w as int,
            virtual_h as int,
            edge_margin as int,
        ),
{
    if x < edge_margin {
        Edge::Left
    } else if x >= virtual_w - edge_margin {
        Edge::Right
    } else if y < edge_margin {
        Edge::Top
    } else if y >= virtual_h - edge_margin {
        Edge::Bottom
    } else {
        Edge::Inside
    }
}

/// The coordinate `inset` pixels inside the low end of an axis of `size`
/// pixels, or the last pixel where the axis is shorter than that.
pub open spec fn near_end(size: int, inset: int) -> int {
    let last = if size >= 1 { size - 1 } else { 0 };
    if inset <= last { inset } else { last }
}

/// The coordinate `inset` pixels inside the high end of an axis of `size`
/// pixels, or zero where the axis is shorter than that.
pub open spec fn far_end(size: int, inset: int) -> int {
    if size - 1 - inset >= 0 { size - 1 - inset } else { 0 }
}

/// Where the cursor appears on the other screen after leaving this one through
/// `edge` at `(x, y)`: at the opposite edge, `inset` pixels inside.
pub open spec fn entry_point(edge: Edge, x: int, y: int, w: int, h: int, inset: int) -> (int, int) {
    match edge {
        Edge::Left => (far_end(w, inset), y),
        Edge::Right => (near_end(w, inset), y),
        Edge::Top => (x, far_end(h, inset)),
        Edge::Bottom => (x, near_end(h, inset)),
        Edge::Inside => (x, y),
    }
}

/// Where the cursor is placed on the peer's screen when it leaves this screen
/// through `edge`.
pub fn enter_position(
    edge: Edge,
    cursor_y: i32,
    cursor_x: i32,
    virtual_w: i32,
    virtual_h: i32,
) -> (pos: (i32, i32))
    requires
        virtual_w - 1 - ENTRY_INSET >= i32::MIN,
        virtual_h - 1 - ENTRY_INSET >= i32::MIN,
    ensures
        (pos.0 as int, pos.1 as int) == entry_point(
            edge,
            cursor_x as int,
            cursor_y as int,
            virtual_w as int,
            virtual_h as int,
            ENTRY_INSET as int,
        ),
{
    let last_x: i32 = if virtual_w >= 1 { virtual_w - 1 } else { 0 };
    let last_y: i32 = if virtual_h >= 1 { virtual_h - 1 } else { 0 };
    let left: i32 = if ENTRY_INSET <= last_x { ENTRY_INSET } else { last_x };
    let top: i32 = if ENTRY_INSET <= last_y { ENTRY_INSET } else { last_y };
    let right: i32 = if virtual_w - 1 - ENTRY_INSET >= 0 { virtual_w - 1 - ENTRY_INSET } else { 0 };
    let bottom: i32 = if virtual_h - 1 - ENTRY_INSET >= 0 { virtual_h - 1 - ENTRY_INSET } else { 0 };
    match edge {
        Edge::Left => (right, cursor_y),
        Edge::Right => (left, cursor_y),
        Edge::Top => (cursor_x, bottom),
        Edge::Bottom => (cursor_x, top),
        Edge::Inside => (cursor_x, cursor_y),
    }
}

/// The division of machine integers: rounds towards zero. `d` is positive.
pub open spec fn trunc_div(n: int, d: int) -> int {
    if n >= 0 { n / d } else { -((-n) / d) }
}

/// Whether a coordinate is passed on as it is: one of the sizes is unknown, or
/// both screens are alike.
pub open spec fn passes_through(src_w: u32, src_h: u32, dst_w: u32, dst_h: u32) -> bool {
    src_w == 0 || src_h == 0 || dst_w == 0 || dst_h == 0 || (src_w == dst_w && src_h == dst_h)
}

/// The coordinate of a `dst` pixel axis that lies as far along it as `v` does
/// along a `src` pixel axis.
pub open spec fn scaled(v: int, src: int, dst: int) -> int {
    trunc_div(v * dst, src)
}

/// The point of the destination screen that corresponds to `(x, y)` of the
/// source screen.
pub open spec fn mapped_point(
    x: int,
    y: int,
    src_w: u32,
    src_h: u32,
    dst_w: u32,
    dst_h: u32,
) -> (int, int) {
    if passes_through(src_w, src_h, dst_w, dst_h) {
        (x, y)
    } else {
        (scaled(x, src_w as int, dst_w as int), scaled(y, src_h as int, dst_h as int))
    }
}

/// The `i32` with the same low 32 bits as `n`.
pub open spec fn wrap_i32(n: int) -> int {
    (n + 0x8000_0000) % 0x1_0000_0000 - 0x8000_0000
}

fn scale(v: i32, src: u32, dst: u32) -> (r: i32)
    requires
        src != 0,
    ensures
        r as int == wrap_i32(scaled(v as int, src as int, dst as int)),
{
    let ghost n = v as int * dst as int;
    assert(-0x7fff_ffff_ffff_ffff <= n <= 0x7fff_ffff_ffff_ffff) by (nonlinear_arith)
        requires
            n == v as int * dst as int,
            -0x8000_0000 <= v as int <= 0x7fff_ffff,
            0 <= dst as int <= 0xffff_ffff,
    ;
    let product: i64 = v as i64 * dst as i64;
    low_bits(truncating_div(product, src))
}

/// The `i32` with the same low 32 bits as `n`.
pub fn low_bits(n: i64) -> (r: i32)
    ensures
        r as int == wrap_i32(n as int),
{
    #[verifier::truncate]
    let r: i32 = n as i32;
    proof {
        assert(n as i32 == (n + 0x8000_0000) % 0x1_0000_0000 - 0x8000_0000) by (bit_vector);
    }
    r
}

fn truncating_div(n: i64, d: u32) -> (q: i64)
    requires
        d != 0,
        n > i64::MIN,
    ensures
        q as int == trunc_div(n as int, d as int),
{
    if n >= 0 {
        n / d as i64
    } else {
        -((-n) / d as i64)
    }
}

/// Maps a point of the source screen to the destination screen in proportion,
/// so that the whole destination screen can be reached whatever the two
/// resolutions are.
pub fn map_coords(x: i32, y: i32, src_w: u32, src_h: u32, dst_w: u32, dst_h: u32) -> (pos: (
    i32,
    i32,
))
    ensures
        (pos.0 as int, pos.1 as int) == ({
            let p = mapped_point(x as int, y as int, src_w, src_h, dst_w, dst_h);
            (wrap_i32(p.0), wrap_i32(p.1))
        }),
{
    if src_w == 0 || src_h == 0 || dst_w == 0 || dst_h == 0 || (src_w == dst_w && src_h == dst_h) {
        return (x, y);
    }
    (scale(x, src_w, dst_w), scale(y, src_h, dst_h))
}

/// A point of the source screen is mapped to a point of the destination screen.
pub proof fn law_mapping_stays_on_screen(
    x: int,
    y: int,
    src_w: u32,
    src_h: u32,
    dst_w: u32,
    dst_h: u32,
)
    requires
        src_w > 0,
        src_h > 0,
        dst_w > 0,
        dst_h > 0,
        0 <= x < src_w,
        0 <= y < src_h,
    ensures
        ({
            let p = mapped_point(x, y, src_w, src_h, dst_w, dst_h);
            0 <= p.0 < dst_w && 0 <= p.1 < dst_h
        }),
{
    lemma_scaled_in_range(x, src_w as int, dst_w as int);
    lemma_scaled_in_range(y, src_h as int, dst_h as int);
}

proof fn lemma_scaled_in_range(v: int, src: int, dst: int)
    requires
        0 <= v < src,
        dst > 0,
    ensures
        0 <= scaled(v, src, dst) < dst,
{
    assert(0 <= v * dst && (v * dst) / src >= 0 && (v * dst) / src < dst) by (nonlinear_arith)
        requires
            0 <= v < src,
            dst > 0,
    ;
}

/// The two ends of an axis are mapped to the two ends: the whole destination
/// screen can be reached.
pub proof fn law_mapping_keeps_corners(src_w: u32, src_h: u32, dst_w: u32, dst_h: u32)
    requires
        src_w > 0,
        src_h > 0,
        dst_w > 0,
        dst_h > 0,
    ensures
        mapped_point(0, 0, src_w, src_h, dst_w, dst_h) == (0int, 0int),
        mapped_point(src_w as int, src_h as int, src_w, src_h, dst_w, dst_h) == (
            dst_w as int,
            dst_h as int,
        ),
{
    lemma_full_scale(src_w as int, dst_w as int);
    lemma_full_scale(src_h as int, dst_h as int);
}

proof fn lemma_full_scale(src: int, dst: int)
    requires
        src > 0,
        dst > 0,
    ensures
        scaled(src, src, dst) == dst,
        scaled(0, src, dst) == 0,
{
    assert((src * dst) / src == dst && src * dst >= 0) by (nonlinear_arith)
        requires
            src > 0,
            dst > 0,
    ;
    assert(0 * dst == 0 && 0int / src == 0) by (nonlinear_arith)
        requires
            src > 0,
    ;
}

/// What lies further right on the source screen does not end up further left.
pub proof fn law_mapping_keeps_order(v1: int, v2: int, src: int, dst: int)
    requires
        src > 0,
        dst >= 0,
        v1 <= v2,
    ensures
        scaled(v1, src, dst) <= scaled(v2, src, dst),
{
    assert(v1 * dst <= v2 * dst) by (nonlinear_arith)
        requires
            v1 <= v2,
            dst >= 0,
    ;
    lemma_trunc_div_monotone(v1 * dst, v2 * dst, src);
}

proof fn lemma_trunc_div_monotone(n1: int, n2: int, d: int)
    requires
        d > 0,
        n1 <= n2,
    ensures
        trunc_div(n1, d) <= trunc_div(n2, d),
{
    assert(n1 / d <= n2 / d && (-n2) / d <= (-n1) / d && (n2 >= 0 ==> n2 / d >= 0) && (n1 < 0
        ==> (-n1) / d >= 0)) by (nonlinear_arith)
        requires
            d > 0,
            n1 <= n2,
    ;
}

/// Screens of the same size need no mapping, and neither does an unknown size.
pub proof fn law_equal_screens_pass_through(x: int, y: int, w: u32, h: u32, other: u32)
    ensures
        mapped_point(x, y, w, h, w, h) == (x, y),
        mapped_point(x, y, 0, h, w, other) == (x, y),
        mapped_point(x, y, w, h, other, 0) == (x, y),
{
}

/// A cursor that leaves a screen enters the other at a point of that screen.
pub proof fn law_entry_is_on_screen(edge: Edge, x: int, y: int, w: int, h: int, inset: int)
    requires
        0 <= x < w,
        0 <= y < h,
        inset >= 0,
    ensures
        ({
            let p = entry_point(edge, x, y, w, h, inset);
            0 <= p.0 < w && 0 <= p.1 < h
        }),
{
}

/// A point is on the left edge within `margin` pixels of it, on the right edge within
/// `margin` pixels of the other end, and only between the two it can be on top or bottom.
pub proof fn law_edges_are_where_they_are(x: int, y: int, w: int, h: int, margin: int)
    ensures
        edge_of(x, y, w, h, margin) == Edge::Left <==> x < margin,
        edge_of(x, y, w, h, margin) == Edge::Right <==> margin <= x && w - x <= margin,
        edge_of(x, y, w, h, margin) == Edge::Top <==> margin <= x && w - x > margin && y < margin,
        edge_of(x, y, w, h, margin) == Edge::Bottom <==> margin <= x && w - x > margin && margin
            <= y && h - y <= margin,
{
}

/// A screen that is wide enough looks the same from both sides: the mirror image of a
/// point lies on the mirror image of its edge.
pub proof fn law_edges_mirror(x: int, y: int, w: int, h: int, margin: int)
    requires
        w > 2 * margin,
        h > 2 * margin,
    ensures
        edge_of(x, y, w, h, margin) == Edge::Left <==> edge_of(w - 1 - x, y, w, h, margin)
            == Edge::Right,
        edge_of(x, y, w, h, margin) == Edge::Top <==> edge_of(x, h - 1 - y, w, h, margin)
            == Edge::Bottom,
{
}

/// The cursor enters at the opposite edge, as far inside as it should be, and at the
/// height or width at which it left.
pub proof fn law_entry_is_opposite(x: int, y: int, w: int, h: int, inset: int)
    requires
        0 <= inset < w,
        0 <= inset < h,
    ensures
        entry_point(Edge::Right, x, y, w, h, inset) == (inset, y),
        entry_point(Edge::Left, x, y, w, h, inset) == (w - 1 - inset, y),
        entry_point(Edge::Bottom, x, y, w, h, inset) == (x, inset),
        entry_point(Edge::Top, x, y, w, h, inset) == (x, h - 1 - inset),
        entry_point(Edge::Inside, x, y, w, h, inset) == (x, y),
        ENTRY_INSET == 4,
{
}

/// On a screen that is too small for the distance the cursor enters at the end of it.
pub proof fn law_entry_on_small_screens(x: int, y: int, w: int, h: int, inset: int)
    requires
        inset >= 0,
        w <= inset,
        h <= inset,
    ensures
        entry_point(Edge::Right, x, y, w, h, inset) == (if w > 0 { w - 1 } else { 0 }, y),
        entry_point(Edge::Left, x, y, w, h, inset) == (0int, y),
        entry_point(Edge::Bottom, x, y, w, h, inset) == (x, if h > 0 { h - 1 } else { 0 }),
        entry_point(Edge::Top, x, y, w, h, inset) == (x, 0int),
{
}

/// A point is mapped in proportion, each coordinate by the sizes of its own axis: what is
/// `x` of `src_w` becomes the last whole `p` of `dst_w` that is not further along. Left of
/// zero it is the mirror image.
pub proof fn law_mapping_is_in_proportion(
    x: int,
    y: int,
    src_w: u32,
    src_h: u32,
    dst_w: u32,
    dst_h: u32,
)
    requires
        src_w > 0,
        src_h > 0,
        dst_w > 0,
        dst_h > 0,
    ensures
        ({
            let p = mapped_point(x, y, src_w, src_h, dst_w, dst_h);
            &&& x >= 0 ==> p.0 * src_w <= x * dst_w < (p.0 + 1) * src_w
            &&& y >= 0 ==> p.1 * src_h <= y * dst_h < (p.1 + 1) * src_h
            &&& x < 0 ==> (p.0 - 1) * src_w < x * dst_w <= p.0 * src_w
            &&& y < 0 ==> (p.1 - 1) * src_h < y * dst_h <= p.1 * src_h
        }),
{
    lemma_in_proportion(x, src_w as int, dst_w as int);
    lemma_in_proportion(y, src_h as int, dst_h as int);
    if passes_through(src_w, src_h, dst_w, dst_h) {
        lemma_same_size(x, src_w as int);
        lemma_same_size(y, src_h as int);
    }
}

proof fn lemma_same_size(v: int, size: int)
    by (nonlinear_arith)
    requires
        size > 0,
    ensures
        (v - 1) * size < v * size < (v + 1) * size,
{
}

proof fn lemma_in_proportion(v: int, src: int, dst: int)
    requires
        src > 0,
        dst > 0,
    ensures
        v >= 0 ==> scaled(v, src, dst) * src <= v * dst < (scaled(v, src, dst) + 1) * src,
        v < 0 ==> (scaled(v, src, dst) - 1) * src < v * dst <= scaled(v, src, dst) * src,
{
    let n = v * dst;
    assert(v >= 0 ==> n >= 0) by (nonlinear_arith)
        requires
            dst > 0,
            n == v * dst,
    ;
    assert(v < 0 ==> n < 0) by (nonlinear_arith)
        requires
            dst > 0,
            n == v * dst,
    ;
    let m = if n >= 0 { n } else { -n };
    let q = m / src;
    vstd::arithmetic::div_mod::lemma_fundamental_div_mod(m, src);
    assert(src * q == q * src) by (nonlinear_arith);
    assert((q + 1) * src == q * src + src) by (nonlinear_arith);
    assert((-q) * src == -(q * src)) by (nonlinear_arith);
    assert((-q - 1) * src == -(q * src) - src) by (nonlinear_arith);
}

/// What does not fit in 32 bits is cut off: the result is the number in range that
/// differs by a multiple of the whole range.
pub proof fn law_numbers_are_cut_to_32_bits(n: int)
    ensures
        -0x8000_0000 <= wrap_i32(n) < 0x8000_0000,
        (n - wrap_i32(n)) % 0x1_0000_0000 == 0,
        -0x8000_0000 <= n < 0x8000_0000 ==> wrap_i32(n) == n,
{
}

} // verus!
