use gridsim_ui::shape::GridShape;
use gridsim_ui::vertex::{eval_cell, generate_vertices, Vertex};

fn ndc(v: &Vertex<[f32; 3]>, w: usize, h: usize) -> (f32, f32) {
    (
        2.0 * v.col as f32 / w as f32 - 1.0,
        2.0 * v.row as f32 / h as f32 - 1.0,
    )
}

#[test]
fn eval_cell_keeps_an_admitted_cell() {
    let o = eval_cell(&5u8, &|c: &u8| [*c as f32, 0.0, 0.0], &|c: &u8| *c > 3);
    assert_eq!(o, Some([5.0, 0.0, 0.0]));
}

#[test]
fn eval_cell_drops_a_rejected_cell() {
    let o = eval_cell(&2u8, &|c: &u8| [*c as f32, 0.0, 0.0], &|c: &u8| *c > 3);
    assert_eq!(o, None);
}

#[test]
fn a_filter_that_admits_all_yields_one_vertex_per_cell() {
    let shape = GridShape::new(3, 4).unwrap();
    let cells: Vec<u32> = (0..12).collect();
    let verts = generate_vertices(&cells, &shape, &|_c: &u32| [0.5, 0.5, 0.5], &|_c: &u32| true);
    assert_eq!(verts.len(), 12);
    for (i, v) in verts.iter().enumerate() {
        assert_eq!(v.col, i % 3);
        assert_eq!(v.row, i / 3);
        assert_eq!(v.color, [0.5, 0.5, 0.5]);
    }
}

#[test]
fn a_filter_that_admits_none_yields_no_vertices() {
    let shape = GridShape::new(3, 4).unwrap();
    let cells: Vec<u32> = (0..12).collect();
    let verts = generate_vertices(&cells, &shape, &|_c: &u32| [0.5, 0.5, 0.5], &|_c: &u32| false);
    assert_eq!(verts.len(), 0);
}

#[test]
fn two_by_two_all_white_covers_the_four_quadrant_corners() {
    let shape = GridShape::new(2, 2).unwrap();
    let cells = vec!['A', 'B', 'C', 'D'];
    let verts = generate_vertices(
        &cells,
        &shape,
        &|_c: &char| [1.0, 1.0, 1.0],
        &|_c: &char| true,
    );
    assert_eq!(verts.len(), 4);
    let mut positions: Vec<(f32, f32)> = verts.iter().map(|v| ndc(v, 2, 2)).collect();
    positions.sort_by(|a, b| a.partial_cmp(b).unwrap());
    assert_eq!(
        positions,
        vec![(-1.0, -1.0), (-1.0, 0.0), (0.0, -1.0), (0.0, 0.0)]
    );
    for v in &verts {
        assert_eq!(v.color, [1.0, 1.0, 1.0]);
    }
}

#[test]
fn admitting_only_the_second_cell_yields_its_vertex_alone() {
    let shape = GridShape::new(2, 2).unwrap();
    let cells = vec!['A', 'B', 'C', 'D'];
    let verts = generate_vertices(
        &cells,
        &shape,
        &|_c: &char| [1.0, 1.0, 1.0],
        &|c: &char| *c == 'B',
    );
    assert_eq!(verts.len(), 1);
    assert_eq!(ndc(&verts[0], 2, 2), (0.0, -1.0));
}

#[test]
fn positions_follow_the_index_formula_and_stay_in_range() {
    let shape = GridShape::new(5, 3).unwrap();
    let cells: Vec<u8> = (0..15).collect();
    let verts = generate_vertices(
        &cells,
        &shape,
        &|c: &u8| [*c as f32 / 15.0, 0.0, 0.0],
        &|c: &u8| *c % 2 == 0,
    );
    assert_eq!(verts.len(), 8);
    for v in &verts {
        let i = v.row * 5 + v.col;
        assert_eq!(v.col, i % 5);
        assert_eq!(v.row, i / 5);
        let (x, y) = ndc(v, 5, 3);
        assert_eq!(x, 2.0 * (i % 5) as f32 / 5.0 - 1.0);
        assert_eq!(y, 2.0 * (i / 5) as f32 / 3.0 - 1.0);
        assert!((-1.0..1.0).contains(&x));
        assert!((-1.0..1.0).contains(&y));
    }
}

#[test]
fn repeated_calls_generate_identical_vertices() {
    let shape = GridShape::new(4, 4).unwrap();
    let cells: Vec<u16> = (0..16).map(|i| i * 3).collect();
    let color = |c: &u16| [*c as f32, 1.0, 0.0];
    let filter = |c: &u16| *c % 2 == 0;
    let a = generate_vertices(&cells, &shape, &color, &filter);
    let b = generate_vertices(&cells, &shape, &color, &filter);
    assert_eq!(a.len(), b.len());
    for (va, vb) in a.iter().zip(b.iter()) {
        assert_eq!((va.col, va.row), (vb.col, vb.row));
        assert_eq!(va.color, vb.color);
    }
}

#[test]
fn changing_only_the_color_function_moves_no_vertex() {
    let shape = GridShape::new(4, 2).unwrap();
    let cells: Vec<i32> = (0..8).collect();
    let filter = |c: &i32| *c != 3;
    let red = generate_vertices(&cells, &shape, &|_c: &i32| [1.0, 0.0, 0.0], &filter);
    let blue = generate_vertices(&cells, &shape, &|_c: &i32| [0.0, 0.0, 1.0], &filter);
    assert_eq!(red.len(), 7);
    assert_eq!(red.len(), blue.len());
    for (vr, vb) in red.iter().zip(blue.iter()) {
        assert_eq!((vr.col, vr.row), (vb.col, vb.row));
        assert_eq!(vr.color, [1.0, 0.0, 0.0]);
        assert_eq!(vb.color, [0.0, 0.0, 1.0]);
    }
}

#[test]
fn colors_come_from_the_color_function_per_cell() {
    let shape = GridShape::new(2, 1).unwrap();
    let cells = vec![10u8, 200u8];
    let verts = generate_vertices(
        &cells,
        &shape,
        &|c: &u8| [*c as f32 / 255.0, 0.0, 1.0],
        &|_c: &u8| true,
    );
    assert_eq!(verts.len(), 2);
    assert_eq!(verts[0].color, [10.0 / 255.0, 0.0, 1.0]);
    assert_eq!(verts[1].color, [200.0 / 255.0, 0.0, 1.0]);
}

#[test]
fn a_large_grid_is_generated_in_full() {
    let shape = GridShape::new(100, 80).unwrap();
    let cells: Vec<u32> = (0..8000).collect();
    let verts = generate_vertices(
        &cells,
        &shape,
        &|c: &u32| [(*c % 7) as f32, 0.0, 0.0],
        &|c: &u32| *c % 3 != 0,
    );
    let expected = (0..8000u32).filter(|c| *c % 3 != 0).count();
    assert_eq!(verts.len(), expected);
    for v in &verts {
        let i = (v.row * 100 + v.col) as u32;
        assert!(i % 3 != 0);
        assert_eq!(v.color, [(i % 7) as f32, 0.0, 0.0]);
    }
}
