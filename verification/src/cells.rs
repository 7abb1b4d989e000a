use vstd::prelude::*;

verus! {

/// Side length of the square grid.
pub const GRID_SIZE: u32 = 128;

/// Whether `(x, y)` names a cell of the grid.
pub open spec fn in_grid(x: int, y: int) -> bool {
    0 <= x < 128 && 0 <= y < 128
}

/// The cells `(i, j)` with `x0 <= i <= x1` and `y0 <= j <= y1`.
pub open spec fn rect(x0: int, x1: int, y0: int, y1: int) -> Set<(int, int)> {
    Set::new(|p: (int, int)| x0 <= p.0 <= x1 && y0 <= p.1 <= y1)
}

/// The square window of radius `r` around `(x, y)`, centre included.
pub open spec fn window(x: int, y: int, r: int) -> Set<(int, int)> {
    rect(x - r, x + r, y - r, y + r)
}

/// How many cells of `s` lie in the square window of radius `r` around
/// `(x, y)`.
pub open spec fn neighbors(s: Set<(int, int)>, x: int, y: int, r: int) -> nat {
    s.intersect(window(x, y, r)).len()
}

/// Every cell of the grid, by columns from left to right, each column from
/// top to bottom.
pub open spec fn scan_order() -> Seq<(int, int)> {
    Seq::new(16384, |k: int| (k / 128, k % 128))
}

/// The coordinate that the collision shape has for the cell `p`.
pub open spec fn shape_coordinate(p: (int, int)) -> (i32, i32) {
    ((p.0 - 64) as i32, (63 - p.1) as i32)
}

/// The shape coordinate of a cell of `s`, and nothing for any other cell.
pub open spec fn shape_in(s: Set<(int, int)>) -> spec_fn((int, int)) -> Option<(i32, i32)> {
    |p: (int, int)|
        if s.contains(p) {
            Some(shape_coordinate(p))
        } else {
            None
        }
}

/// The shape coordinates of the cells of `s`, in scan order.
pub open spec fn shape_of(s: Set<(int, int)>) -> Seq<(i32, i32)> {
    scan_order().filter_map(shape_in(s))
}

/// Byte `i` of a texel: the four little-endian bytes of the single-precision
/// number one for a set cell, of zero for an unset one.
pub open spec fn texel_byte(set: bool, i: int) -> u8 {
    if set && i == 2 {
        0x80
    } else if set && i == 3 {
        0x3f
    } else {
        0
    }
}

/// The single-channel texture of `s`: one texel per cell, in scan order.
pub open spec fn texture_of(s: Set<(int, int)>) -> Seq<u8> {
    Seq::new(65536, |i: int| texel_byte(s.contains(((i / 4) / 128, (i / 4) % 128)), i % 4))
}

/// A set of cells of the grid is finite and has at most 16384 members.
pub proof fn lemma_within_grid_finite(s: Set<(int, int)>)
    requires
        forall|p: (int, int)| s.contains(p) ==> in_grid(p.0, p.1),
    ensures
        s.finite(),
        s.len() <= 16384,
{
    let all = scan_order().to_set();
    assert forall|p: (int, int)| s.contains(p) implies all.contains(p) by {
        let k = p.0 * 128 + p.1;
        assert(scan_order()[k] == p);
    }
    vstd::seq_lib::seq_to_set_is_finite(scan_order());
    scan_order().lemma_cardinality_of_set();
    vstd::set_lib::lemma_len_subset(s, all);
}

proof fn lemma_column_len(x: int, y0: int, y1: int)
    requires
        y0 <= y1 + 1,
    ensures
        rect(x, x, y0, y1).finite(),
        rect(x, x, y0, y1).len() == y1 - y0 + 1,
    decreases y1 - y0 + 1,
{
    if y1 < y0 {
        assert(rect(x, x, y0, y1) =~= Set::<(int, int)>::empty());
    } else {
        lemma_column_len(x, y0, y1 - 1);
        assert(rect(x, x, y0, y1) =~= rect(x, x, y0, y1 - 1).insert((x, y1)));
    }
}

/// A rectangle of cells has as many members as its width times its height.
pub proof fn lemma_rect_len(x0: int, x1: int, y0: int, y1: int)
    requires
        x0 <= x1 + 1,
        y0 <= y1 + 1,
    ensures
        rect(x0, x1, y0, y1).finite(),
        rect(x0, x1, y0, y1).len() == (x1 - x0 + 1) * (y1 - y0 + 1),
    decreases x1 - x0 + 1,
{
    let w = x1 - x0 + 1;
    let h = y1 - y0 + 1;
    if x1 < x0 {
        assert(rect(x0, x1, y0, y1) =~= Set::<(int, int)>::empty());
        assert(w * h == 0) by (nonlinear_arith)
            requires
                w == 0,
        ;
    } else {
        let left = rect(x0, x1 - 1, y0, y1);
        let last = rect(x1, x1, y0, y1);
        lemma_rect_len(x0, x1 - 1, y0, y1);
        lemma_column_len(x1, y0, y1);
        assert(rect(x0, x1, y0, y1) =~= left + last);
        assert(left.disjoint(last));
        vstd::set_lib::lemma_set_disjoint_lens(left, last);
        assert((w - 1) * h + h == w * h) by (nonlinear_arith);
    }
}

/// No window holds a cell of the empty set.
pub proof fn lemma_neighbors_of_empty(x: int, y: int, r: int)
    ensures
        neighbors(Set::<(int, int)>::empty(), x, y, r) == 0,
{
    assert(Set::<(int, int)>::empty().intersect(window(x, y, r)) =~= Set::<(int, int)>::empty());
}

/// How many of the coordinates `c - r ..= c + r` lie within `0 ..= 127`.
pub open spec fn clipped_span(c: int, r: int) -> int {
    let lo = if c - r < 0 { 0 } else { c - r };
    let hi = if c + r > 127 { 127 } else { c + r };
    hi - lo + 1
}

/// Where every cell of the grid is set, a window holds as many set cells
/// as it has cells within the grid.
pub proof fn lemma_neighbors_of_full(x: int, y: int, r: int)
    requires
        in_grid(x, y),
        r >= 0,
    ensures
        neighbors(rect(0, 127, 0, 127), x, y, r) == clipped_span(x, r) * clipped_span(y, r),
{
    let lo_x = if x - r < 0 { 0 } else { x - r };
    let hi_x = if x + r > 127 { 127 } else { x + r };
    let lo_y = if y - r < 0 { 0 } else { y - r };
    let hi_y = if y + r > 127 { 127 } else { y + r };
    assert(rect(0, 127, 0, 127).intersect(window(x, y, r)) =~= rect(lo_x, hi_x, lo_y, hi_y));
    lemma_rect_len(lo_x, hi_x, lo_y, hi_y);
}

/// What `f` keeps of an element of `s` is an element of `s.filter_map(f)`.
pub proof fn lemma_filter_map_keeps<A, B>(s: Seq<A>, f: spec_fn(A) -> Option<B>, i: int)
    requires
        0 <= i < s.len(),
        f(s[i]) is Some,
    ensures
        s.filter_map(f).contains(f(s[i])->Some_0),
    decreases s.len(),
{
    let kept = f(s[i])->Some_0;
    let rest = s.drop_last().filter_map(f);
    if i == s.len() - 1 {
        assert((rest + seq![kept])[rest.len() as int] == kept);
    } else {
        lemma_filter_map_keeps(s.drop_last(), f, i);
        let j = choose|j: int| 0 <= j < rest.len() && rest[j] == kept;
        assert(s.filter_map(f)[j] == kept);
    }
}

/// The shape has the coordinate of a cell if and only if the cell is set.
pub proof fn lemma_shape_of_members(s: Set<(int, int)>, x: int, y: int)
    requires
        in_grid(x, y),
    ensures
        shape_of(s).contains(shape_coordinate((x, y))) <==> s.contains((x, y)),
{
    let f = shape_in(s);
    if s.contains((x, y)) {
        assert(scan_order()[x * 128 + y] == (x, y));
        lemma_filter_map_keeps(scan_order(), f, x * 128 + y);
    }
    if shape_of(s).contains(shape_coordinate((x, y))) {
        scan_order().lemma_filter_map_contains(f, shape_coordinate((x, y)));
        let t = choose|t: (int, int)| #[trigger]
            scan_order().contains(t) && f(t) == Some(shape_coordinate((x, y)));
        let k = choose|k: int| 0 <= k < scan_order().len() && scan_order()[k] == t;
        assert(t == (x, y));
    }
}

proof fn lemma_shape_prefix_of_single(x: int, y: int, k: int)
    requires
        in_grid(x, y),
        0 <= k <= 16384,
    ensures
        scan_order().take(k).filter_map(shape_in(set![(x, y)])) == if k <= x * 128 + y {
            Seq::<(i32, i32)>::empty()
        } else {
            seq![shape_coordinate((x, y))]
        },
    decreases k,
{
    let f = shape_in(set![(x, y)]);
    if k == 0 {
        assert(scan_order().take(0) =~= Seq::<(int, int)>::empty());
    } else {
        lemma_shape_prefix_of_single(x, y, k - 1);
        scan_order().lemma_filter_map_take_succ(f, k - 1);
        let p = scan_order()[k - 1];
        assert(set![(x, y)].contains(p) <==> k - 1 == x * 128 + y);
    }
}

/// A single set cell gives a shape of one coordinate: its own.
pub proof fn lemma_shape_of_single(x: int, y: int)
    requires
        in_grid(x, y),
    ensures
        shape_of(set![(x, y)]) == seq![shape_coordinate((x, y))],
{
    lemma_shape_prefix_of_single(x, y, 16384);
    assert(scan_order().take(16384) =~= scan_order());
}

} // verus!
