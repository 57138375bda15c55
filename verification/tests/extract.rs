use obrez::corner::{HorizontalPosition, VerticalPosition};
use obrez::extract::{get_subsystem, isqrt};
use obrez::system::{Element, System, Vec3Bits, BLOCK};
use obrez::ObrezError;

fn v3(x: f64, y: f64, z: f64) -> Vec3Bits {
    Vec3Bits { x: x.to_bits(), y: y.to_bits(), z: z.to_bits() }
}

/// A lattice of `side * side` sites whose record at flat index `k` has
/// position `(k, 2k, 3k)`, moment `(k+1, 0, 0)` and state `k % 2 == 0`.
fn sample_store(side: usize) -> System {
    let n = side * side * BLOCK;
    let mut records = Vec::with_capacity(n);
    for k in 0..n {
        records.push(Element {
            id: k as i32,
            pos: v3(k as f64, 2.0 * k as f64, 3.0 * k as f64),
            m: v3(k as f64 + 1.0, 0.0, 0.0),
            state: k % 2 == 0,
        });
    }
    System(records)
}

fn all_corners() -> Vec<(HorizontalPosition, VerticalPosition)> {
    let hs = [HorizontalPosition::Left, HorizontalPosition::Center, HorizontalPosition::Right];
    let vs = [VerticalPosition::Top, VerticalPosition::Center, VerticalPosition::Bottom];
    let mut out = Vec::new();
    for h in hs {
        for v in vs {
            out.push((h, v));
        }
    }
    out
}

#[test]
fn isqrt_small_values() {
    assert_eq!(isqrt(0), 0);
    assert_eq!(isqrt(1), 1);
    assert_eq!(isqrt(3), 1);
    assert_eq!(isqrt(4), 2);
    assert_eq!(isqrt(8), 2);
    assert_eq!(isqrt(9), 3);
    assert_eq!(isqrt(24), 4);
    assert_eq!(isqrt(25), 5);
    assert_eq!(isqrt(1_000_000), 1000);
}

#[test]
fn output_size_is_window_area_times_block() {
    let store = sample_store(3);
    for (h, v) in all_corners() {
        for size in [0usize, 1, 2] {
            let sub = get_subsystem(&store, size, h, v).unwrap();
            assert_eq!(sub.0.len(), size * size * 5);
        }
    }
}

#[test]
fn size_equal_to_side_is_a_precondition_violation() {
    let store = sample_store(2);
    for (h, v) in all_corners() {
        let r = get_subsystem(&store, 2, h, v);
        assert!(matches!(r, Err(ObrezError::PreconditionViolation)));
    }
}

#[test]
fn size_above_side_is_a_precondition_violation() {
    let store = sample_store(2);
    let r = get_subsystem(&store, 3, HorizontalPosition::Left, VerticalPosition::Top);
    assert!(matches!(r, Err(ObrezError::PreconditionViolation)));
}

#[test]
fn center_of_odd_side_picks_the_middle_site() {
    let store = sample_store(3);
    let sub = get_subsystem(&store, 1, HorizontalPosition::Center, VerticalPosition::Center)
        .unwrap();
    assert_eq!(sub.0.len(), 5);
    // site (1, 1) of a 3-wide lattice starts at record (1 * 3 + 1) * 5 = 20
    for i in 0..5 {
        let got = &sub.0[i];
        let src = &store.0[20 + i];
        assert_eq!(got.id, i as i32);
        assert_eq!(got.pos, src.pos);
        assert_eq!(got.m, src.m);
        assert_eq!(got.state, src.state);
    }
}

#[test]
fn left_top_window_takes_the_low_corner_row_major() {
    let store = sample_store(3);
    let sub = get_subsystem(&store, 2, HorizontalPosition::Left, VerticalPosition::Top).unwrap();
    // sites (0,0), (0,1), (1,0), (1,1): blocks at 0, 5, 15, 20
    let block_starts = [0usize, 5, 15, 20];
    assert_eq!(sub.0.len(), 20);
    for (b, &src_start) in block_starts.iter().enumerate() {
        for i in 0..5 {
            let got = &sub.0[b * 5 + i];
            let src = &store.0[src_start + i];
            assert_eq!(got.id, (b * 5 + i) as i32);
            assert_eq!(got.pos, src.pos);
            assert_eq!(got.m, src.m);
            assert_eq!(got.state, src.state);
        }
    }
}

#[test]
fn right_bottom_window_takes_the_high_corner() {
    let store = sample_store(3);
    let sub = get_subsystem(&store, 2, HorizontalPosition::Right, VerticalPosition::Bottom)
        .unwrap();
    // sites (1,1), (1,2), (2,1), (2,2): blocks at 20, 25, 35, 40
    let block_starts = [20usize, 25, 35, 40];
    for (b, &src_start) in block_starts.iter().enumerate() {
        for i in 0..5 {
            assert_eq!(sub.0[b * 5 + i].pos, store.0[src_start + i].pos);
            assert_eq!(sub.0[b * 5 + i].id, (b * 5 + i) as i32);
        }
    }
}

#[test]
fn centered_even_window_in_even_side_is_symmetric() {
    let store = sample_store(4);
    let sub = get_subsystem(&store, 2, HorizontalPosition::Center, VerticalPosition::Center)
        .unwrap();
    // center = 2, offset = 1: rows and columns [1, 3); sites (1,1), (1,2),
    // (2,1), (2,2): blocks at 25, 30, 45, 50
    let block_starts = [25usize, 30, 45, 50];
    for (b, &src_start) in block_starts.iter().enumerate() {
        for i in 0..5 {
            assert_eq!(sub.0[b * 5 + i].pos, store.0[src_start + i].pos);
        }
    }
}

#[test]
fn centered_odd_window_puts_the_extra_cell_on_the_high_side() {
    let store = sample_store(4);
    let sub = get_subsystem(&store, 3, HorizontalPosition::Center, VerticalPosition::Center)
        .unwrap();
    // center = 2, offset = 1, odd size: rows and columns [1, 4)
    let mut expect = Vec::new();
    for y in 1..4usize {
        for x in 1..4usize {
            expect.push((y * 4 + x) * 5);
        }
    }
    assert_eq!(sub.0.len(), 45);
    for (b, &src_start) in expect.iter().enumerate() {
        for i in 0..5 {
            assert_eq!(sub.0[b * 5 + i].pos, store.0[src_start + i].pos);
            assert_eq!(sub.0[b * 5 + i].id, (b * 5 + i) as i32);
        }
    }
}

#[test]
fn nested_extraction_keeps_field_values() {
    let store = sample_store(4);
    let mid = get_subsystem(&store, 3, HorizontalPosition::Left, VerticalPosition::Top).unwrap();
    let inner = get_subsystem(&mid, 1, HorizontalPosition::Left, VerticalPosition::Top).unwrap();
    for i in 0..5 {
        assert_eq!(inner.0[i].pos, store.0[i].pos);
        assert_eq!(inner.0[i].m, store.0[i].m);
        assert_eq!(inner.0[i].id, i as i32);
    }
}

#[test]
fn state_string_lists_flags_in_store_order() {
    let store = sample_store(2);
    let s = store.state_string();
    // flag of record k is k % 2 == 0
    let expect: String = (0..20).map(|k| if k % 2 == 0 { '1' } else { '0' }).collect();
    assert_eq!(s, expect);
}

#[test]
fn state_string_of_empty_store_is_empty() {
    let store = System(Vec::new());
    assert_eq!(store.state_string(), "");
}
