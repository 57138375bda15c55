//! Window extraction: select a square sub-lattice of sites, repack its
//! blocks in row-major order and renumber the record identifiers.

use vstd::prelude::*;
use vstd::arithmetic::div_mod::{
    lemma_div_is_ordered, lemma_fundamental_div_mod, lemma_fundamental_div_mod_converse,
};
use crate::corner::{HorizontalPosition, VerticalPosition};
use crate::system::{Element, System, BLOCK};
use crate::ObrezError;

verus! {

/// `s` is the integer square root of `n`: the largest value whose square
/// does not exceed `n`.
pub open spec fn is_isqrt(n: int, s: int) -> bool {
    0 <= s && s * s <= n < (s + 1) * (s + 1)
}

/// The integer square root of `n`, as a spec-level value.
pub open spec fn spec_isqrt(n: int) -> int {
    choose|s: int| is_isqrt(n, s)
}

/// The integer square root is unique.
pub proof fn lemma_isqrt_unique(n: int, s1: int, s2: int)
    requires
        is_isqrt(n, s1),
        is_isqrt(n, s2),
    ensures
        s1 == s2,
{
    if s1 < s2 {
        assert((s1 + 1) * (s1 + 1) <= s2 * s2) by (nonlinear_arith)
            requires
                0 <= s1,
                s1 < s2,
        ;
    }
    if s2 < s1 {
        assert((s2 + 1) * (s2 + 1) <= s1 * s1) by (nonlinear_arith)
            requires
                0 <= s2,
                s2 < s1,
        ;
    }
}

/// Any witness of `is_isqrt` is the value of `spec_isqrt`.
pub proof fn lemma_spec_isqrt(n: int, s: int)
    requires
        is_isqrt(n, s),
    ensures
        spec_isqrt(n) == s,
{
    assert(exists|t: int| is_isqrt(n, t)) by {
        assert(is_isqrt(n, s));
    }
    assert(is_isqrt(n, spec_isqrt(n)));
    lemma_isqrt_unique(n, s, spec_isqrt(n));
}

/// The edge length of the lattice stored in `len` records: the floor square
/// root of the number of sites.
pub open spec fn side_of(len: int) -> int {
    spec_isqrt(len / (BLOCK as int))
}

/// Floor of the square root, by linear search from below.
pub fn isqrt(n: usize) -> (s: usize)
    ensures
        is_isqrt(n as int, s as int),
        s as int == spec_isqrt(n as int),
{
    let mut s: usize = 0;
    loop
        invariant
            s * s <= n,
            s <= n,
            s as int <= 0xFFFF_FFFF,
        decreases n - s,
    {
        let t: u128 = s as u128 + 1;
        proof {
            assert(t * t <= 0x1_0000_0000_0000_0000u128) by (nonlinear_arith)
                requires
                    t <= 0x1_0000_0000u128,
            ;
        }
        if t * t <= n as u128 {
            proof {
                assert(s as int + 1 <= 0xFFFF_FFFF && s as int + 1 <= n as int)
                    by (nonlinear_arith)
                    requires
                        0 <= s as int,
                        (s as int + 1) * (s as int + 1) <= n as int,
                        n as int <= 0xFFFF_FFFF_FFFF_FFFF,
                ;
            }
            s = s + 1;
        } else {
            proof {
                lemma_spec_isqrt(n as int, s as int);
            }
            return s;
        }
    }
}

/// Start of the row window along a lattice edge of length `side`: the window
/// always spans `[start, start + size)`. A centered window of odd width puts
/// its extra cell on the high-index half.
pub open spec fn row_window_start(side: int, size: int, h: HorizontalPosition) -> int {
    match h {
        HorizontalPosition::Left => 0,
        HorizontalPosition::Center => side / 2 - size / 2,
        HorizontalPosition::Right => side - size,
    }
}

/// Start of the column window, computed exactly as the row window.
pub open spec fn col_window_start(side: int, size: int, v: VerticalPosition) -> int {
    match v {
        VerticalPosition::Top => 0,
        VerticalPosition::Center => side / 2 - size / 2,
        VerticalPosition::Bottom => side - size,
    }
}

/// Every window of a size not above the side fits inside `[0, side)`.
pub proof fn lemma_window_bounds(side: int, size: int, start: int)
    requires
        0 <= size <= side,
        start == 0 || start == side - size || start == side / 2 - size / 2,
    ensures
        0 <= start,
        start + size <= side,
{
    lemma_fundamental_div_mod(side, 2);
    lemma_fundamental_div_mod(size, 2);
    lemma_div_is_ordered(size, side, 2);
}

/// A record with the same fields as `e` and identifier `id`.
pub open spec fn relabel(e: Element, id: int) -> Element {
    Element { id: id as i32, pos: e.pos, m: e.m, state: e.state }
}

/// The index, in the source store, of the record that lands at index `k` of
/// an extraction whose windows begin at row `y0` and column `x0`.
pub open spec fn source_index(k: int, side: int, size: int, y0: int, x0: int) -> int {
    let cell = k / (BLOCK as int);
    let off = k % (BLOCK as int);
    let dy = cell / size;
    let dx = cell % size;
    ((y0 + dy) * side + (x0 + dx)) * (BLOCK as int) + off
}

/// The record sequence an extraction produces: `size * size` blocks taken
/// row-major from the selected window, each record renumbered to its new
/// position.
pub open spec fn subsystem_seq(
    records: Seq<Element>,
    side: int,
    size: int,
    h: HorizontalPosition,
    v: VerticalPosition,
) -> Seq<Element> {
    Seq::new(
        (size * size * BLOCK) as nat,
        |k: int|
            relabel(
                records[source_index(
                    k,
                    side,
                    size,
                    row_window_start(side, size, h),
                    col_window_start(side, size, v),
                )],
                k,
            ),
    )
}

/// Extracts the square window of `size * size` sites selected by the two
/// alignments, renumbering identifiers sequentially in the new row-major
/// order. Fails with `PreconditionViolation` exactly when the requested size
/// is not smaller than the side of the source lattice.
#[verifier::loop_isolation(false)]
pub fn get_subsystem(
    system: &System,
    size: usize,
    horizontal: HorizontalPosition,
    vertical: VerticalPosition,
) -> (r: Result<System, ObrezError>)
    requires
        system.0@.len() <= i32::MAX,
    ensures
        match r {
            Ok(out) => {
                &&& (size as int) < side_of(system.0@.len() as int)
                &&& out.0@.len() == size * size * BLOCK
                &&& out.wf(size as nat)
                &&& out.0@ == subsystem_seq(
                    system.0@,
                    side_of(system.0@.len() as int),
                    size as int,
                    horizontal,
                    vertical,
                )
            },
            Err(e) => {
                &&& e == ObrezError::PreconditionViolation
                &&& (size as int) >= side_of(system.0@.len() as int)
            },
        },
{
    let len = system.0.len();
    let sites = len / BLOCK;
    let side = isqrt(sites);
    if size >= side {
        return Err(ObrezError::PreconditionViolation);
    }
    proof {
        lemma_window_bounds(side as int, size as int, 0);
        lemma_window_bounds(side as int, size as int, side as int - size as int);
        lemma_window_bounds(side as int, size as int, side as int / 2 - size as int / 2);
        lemma_fundamental_div_mod(size as int, 2);
        lemma_fundamental_div_mod(len as int, BLOCK as int);
    }
    let center = side / 2;
    let offset = size / 2;
    let (y_start, y_end): (usize, usize) = match horizontal {
        HorizontalPosition::Left => (0, size),
        HorizontalPosition::Center => (
            center - offset,
            if size % 2 == 0 {
                center + offset
            } else {
                center + offset + 1
            },
        ),
        HorizontalPosition::Right => (side - size, side),
    };
    let (x_start, x_end): (usize, usize) = match vertical {
        VerticalPosition::Top => (0, size),
        VerticalPosition::Center => (
            center - offset,
            if size % 2 == 0 {
                center + offset
            } else {
                center + offset + 1
            },
        ),
        VerticalPosition::Bottom => (side - size, side),
    };
    proof {
        assert(y_start as int == row_window_start(side as int, size as int, horizontal));
        assert(x_start as int == col_window_start(side as int, size as int, vertical));
        assert(y_end == y_start + size);
        assert(x_end == x_start + size);
        assert(y_end <= side);
        assert(x_end <= side);
    }
    let mut out: Vec<Element> = Vec::new();
    let mut y = y_start;
    while y < y_end
        invariant
            y_start <= y <= y_end,
            out@.len() == (y - y_start) * size * BLOCK,
            forall|k: int|
                0 <= k < out@.len() ==> out@[k] == relabel(
                    system.0@[source_index(
                        k,
                        side as int,
                        size as int,
                        y_start as int,
                        x_start as int,
                    )],
                    k,
                ),
        decreases y_end - y,
    {
        let mut x = x_start;
        while x < x_end
            invariant
                y_start <= y < y_end,
                x_start <= x <= x_end,
                out@.len() == ((y - y_start) * size + (x - x_start)) * BLOCK,
                forall|k: int|
                    0 <= k < out@.len() ==> out@[k] == relabel(
                        system.0@[source_index(
                            k,
                            side as int,
                            size as int,
                            y_start as int,
                            x_start as int,
                        )],
                        k,
                    ),
            decreases x_end - x,
        {
            proof {
                assert(y * side + x < side * side) by (nonlinear_arith)
                    requires
                        0 <= y < side,
                        0 <= x < side,
                ;
                assert((y * side + x) * BLOCK + BLOCK <= side * side * BLOCK) by (nonlinear_arith)
                    requires
                        y * side + x < side * side,
                ;
                assert((y - y_start) * size + (x - x_start) < size * size) by (nonlinear_arith)
                    requires
                        0 <= y - y_start < size,
                        0 <= x - x_start < size,
                ;
                assert(((y - y_start) * size + (x - x_start)) * BLOCK + BLOCK <= size * size
                    * BLOCK) by (nonlinear_arith)
                    requires
                        (y - y_start) * size + (x - x_start) < size * size,
                ;
                assert(size * size * BLOCK <= side * side * BLOCK) by (nonlinear_arith)
                    requires
                        0 <= size < side,
                ;
            }
            let cell_src = (y * side + x) * BLOCK;
            let cell_dst = ((y - y_start) * size + (x - x_start)) * BLOCK;
            let mut i: usize = 0;
            while i < BLOCK
                invariant
                    i <= BLOCK,
                    y_start <= y < y_end,
                    x_start <= x < x_end,
                    cell_src == (y * side + x) * BLOCK,
                    cell_dst == ((y - y_start) * size + (x - x_start)) * BLOCK,
                    cell_src + BLOCK <= side * side * BLOCK,
                    cell_dst + BLOCK <= size * size * BLOCK,
                    out@.len() == cell_dst + i,
                    forall|k: int|
                        0 <= k < out@.len() ==> out@[k] == relabel(
                            system.0@[source_index(
                                k,
                                side as int,
                                size as int,
                                y_start as int,
                                x_start as int,
                            )],
                            k,
                        ),
                decreases BLOCK - i,
            {
                let e = system.0[cell_src + i];
                out.push(Element { id: (cell_dst + i) as i32, pos: e.pos, m: e.m, state: e.state });
                proof {
                    let k = cell_dst + i;
                    let dy = y as int - y_start as int;
                    let dx = x as int - x_start as int;
                    lemma_fundamental_div_mod_converse(
                        k as int,
                        BLOCK as int,
                        dy * (size as int) + dx,
                        i as int,
                    );
                    lemma_fundamental_div_mod_converse(dy * (size as int) + dx, size as int, dy, dx);
                    assert(source_index(
                        k as int,
                        side as int,
                        size as int,
                        y_start as int,
                        x_start as int,
                    ) == cell_src + i);
                }
                i = i + 1;
            }
            proof {
                assert(cell_dst + BLOCK == ((y - y_start) * size + (x + 1 - x_start)) * BLOCK)
                    by (nonlinear_arith)
                    requires
                        cell_dst == ((y - y_start) * size + (x - x_start)) * BLOCK,
                ;
            }
            x = x + 1;
        }
        proof {
            assert(((y - y_start) * size + size) * BLOCK == (y + 1 - y_start) * size * BLOCK)
                by (nonlinear_arith);
        }
        y = y + 1;
    }
    proof {
        assert(out@.len() == size * size * BLOCK) by (nonlinear_arith)
            requires
                out@.len() == (y_end - y_start) * size * BLOCK,
                y_end - y_start == size as int,
        ;
        assert(out@ =~= subsystem_seq(
            system.0@,
            side as int,
            size as int,
            horizontal,
            vertical,
        ));
    }
    Ok(System(out))
}

/// The copy rule, read forward: the extraction's record at window cell
/// `(wy, wx)` and intra-block offset `i` is the record at the same offset of
/// source site `(y0 + wy, x0 + wx)`, renumbered to its new index.
pub proof fn lemma_subsystem_record(
    records: Seq<Element>,
    side: int,
    size: int,
    h: HorizontalPosition,
    v: VerticalPosition,
    wy: int,
    wx: int,
    i: int,
)
    requires
        0 <= wy < size,
        0 <= wx < size,
        0 <= i < BLOCK,
    ensures
        subsystem_seq(records, side, size, h, v)[(wy * size + wx) * BLOCK + i] == relabel(
            records[((row_window_start(side, size, h) + wy) * side + (col_window_start(
                side,
                size,
                v,
            ) + wx)) * (BLOCK as int) + i],
            (wy * size + wx) * BLOCK + i,
        ),
{
    let k = (wy * size + wx) * (BLOCK as int) + i;
    assert(wy * size + wx < size * size && 0 <= wy * size + wx) by (nonlinear_arith)
        requires
            0 <= wy < size,
            0 <= wx < size,
    ;
    assert((wy * size + wx) * (BLOCK as int) + (BLOCK as int) <= size * size * (BLOCK as int))
        by (nonlinear_arith)
        requires
            wy * size + wx < size * size,
    ;
    lemma_fundamental_div_mod_converse(k, BLOCK as int, wy * size + wx, i);
    lemma_fundamental_div_mod_converse(wy * size + wx, size, wy, wx);
}

/// Extraction identity: a center/center window of the full side selects every
/// site, so record `k` of the result is record `k` of the input with its
/// identifier set to `k`.
pub proof fn lemma_extract_identity(records: Seq<Element>, side: int)
    requires
        0 <= side,
        records.len() == side * side * (BLOCK as int),
    ensures
        subsystem_seq(
            records,
            side,
            side,
            HorizontalPosition::Center,
            VerticalPosition::Center,
        ) =~= Seq::new(records.len() as nat, |k: int| relabel(records[k], k)),
{
    assert(row_window_start(side, side, HorizontalPosition::Center) == 0);
    assert(col_window_start(side, side, VerticalPosition::Center) == 0);
    assert forall|k: int| 0 <= k < side * side * (BLOCK as int) implies source_index(
        k,
        side,
        side,
        0,
        0,
    ) == k by {
        lemma_fundamental_div_mod(k, BLOCK as int);
        let cell = k / (BLOCK as int);
        if side > 0 {
            lemma_fundamental_div_mod(cell, side);
        }
        assert((cell / side * side + cell % side) * (BLOCK as int) + k % (BLOCK as int) == k);
    }
}

} // verus!
