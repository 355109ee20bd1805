use dtrwm::layout::{
    apply_gap, arrange, can_apply_gap, can_arrange, can_center, center_rect, grid, tile, Layout,
    Rect,
};

fn rect(x: i32, y: i32, w: i32, h: i32) -> Rect {
    Rect { x, y, w, h }
}

#[test]
fn one_window_takes_the_area() {
    let area = rect(0, 0, 100, 50);
    assert_eq!(arrange(Layout::Tile, area, 1, 55), vec![area]);
    assert_eq!(arrange(Layout::Grid, area, 1, 55), vec![area]);
}

#[test]
fn no_window_takes_no_area() {
    let area = rect(0, 0, 100, 50);
    for layout in [Layout::Tile, Layout::Grid, Layout::Monocle, Layout::Float] {
        assert_eq!(arrange(layout, area, 0, 55), vec![]);
    }
}

#[test]
fn master_and_stack() {
    let area = rect(10, 20, 1000, 600);
    assert_eq!(
        arrange(Layout::Tile, area, 3, 550),
        vec![rect(10, 20, 550, 600), rect(560, 20, 450, 300), rect(560, 320, 450, 300)]
    );
}

#[test]
fn first_of_the_stack_take_the_odd_lines() {
    assert_eq!(
        tile(rect(0, 0, 100, 11), 4, 60),
        vec![rect(0, 0, 60, 11), rect(60, 0, 40, 4), rect(60, 4, 40, 4), rect(60, 8, 40, 3)]
    );
}

#[test]
fn last_row_of_the_grid_is_wider() {
    assert_eq!(
        arrange(Layout::Grid, rect(0, 0, 900, 601), 5, 0),
        vec![
            rect(0, 0, 300, 300),
            rect(300, 0, 300, 300),
            rect(600, 0, 300, 300),
            rect(0, 300, 450, 301),
            rect(450, 300, 450, 301),
        ]
    );
}

#[test]
fn full_grid() {
    let cells = grid(rect(0, 0, 90, 90), 9);
    assert_eq!(cells.len(), 9);
    assert_eq!(cells[4], rect(30, 30, 30, 30));
    assert_eq!(cells[8], rect(60, 60, 30, 30));
}

#[test]
fn grid_columns_are_the_root_rounded_up() {
    for n in 1usize..200 {
        let cells = grid(rect(0, 0, 100000, 100000), n);
        let columns = cells.iter().filter(|r| r.y == 0).count();
        let expected = if n == 1 { 1 } else { (n as f64).sqrt().ceil() as usize };
        assert_eq!(columns, expected, "{n}");
    }
}

#[test]
fn monocle_and_float_give_each_the_area() {
    let area = rect(1, 2, 3, 4);
    assert_eq!(arrange(Layout::Monocle, area, 2, 0), vec![area, area]);
    assert_eq!(arrange(Layout::Float, area, 3, 0), vec![area, area, area]);
}

#[test]
fn gap_on_all_sides() {
    assert_eq!(
        apply_gap(vec![rect(10, 20, 100, 50)], 5),
        vec![rect(15, 25, 90, 40)]
    );
    assert_eq!(apply_gap(vec![rect(10, 20, 100, 50)], 0), vec![rect(10, 20, 100, 50)]);
}

#[test]
fn wide_gap_leaves_a_pixel() {
    assert_eq!(apply_gap(vec![rect(0, 0, 100, 50)], 60), vec![rect(60, 60, 1, 1)]);
}

#[test]
fn zero_gap_keeps_an_empty_rectangle() {
    assert_eq!(apply_gap(vec![rect(0, 0, 0, -3)], 0), vec![rect(0, 0, 0, -3)]);
}

#[test]
fn middle_of_the_area() {
    assert_eq!(center_rect(rect(0, 0, 1920, 1080), 600, 400), rect(660, 340, 600, 400));
    assert_eq!(center_rect(rect(0, 0, 5, 5), 8, 8), rect(-1, -1, 8, 8));
}

#[test]
fn tiles_fill_the_area_and_are_apart() {
    let area = rect(3, 7, 1001, 499);
    for n in 2usize..9 {
        let tiles = arrange(Layout::Tile, area, n, 551);
        let sum: i64 = tiles.iter().map(|r| r.w as i64 * r.h as i64).sum();
        assert_eq!(sum, area.w as i64 * area.h as i64);
        for i in 0..n {
            for j in 0..i {
                let (a, b) = (tiles[i], tiles[j]);
                assert!(
                    a.x + a.w <= b.x || b.x + b.w <= a.x || a.y + a.h <= b.y || b.y + b.h <= a.y
                );
            }
        }
    }
}

#[test]
fn grid_cells_are_apart() {
    let area = rect(3, 7, 1001, 499);
    for n in 2usize..20 {
        let cells = arrange(Layout::Grid, area, n, 0);
        for i in 0..n {
            for j in 0..i {
                let (a, b) = (cells[i], cells[j]);
                assert!(
                    a.x + a.w <= b.x || b.x + b.w <= a.x || a.y + a.h <= b.y || b.y + b.h <= a.y
                );
            }
        }
    }
}

#[test]
fn numbers_that_do_not_fit_are_told() {
    assert!(can_center(rect(0, 0, 1920, 1080), 600, 400));
    assert!(!can_center(rect(0, 0, i32::MIN, 1080), 600, 400));
    assert!(!can_center(rect(i32::MAX, 0, 1920, 1080), 600, 400));
    assert!(can_arrange(Layout::Tile, rect(0, 0, 100, 100), 3, 55));
    assert!(!can_arrange(Layout::Tile, rect(i32::MAX, 0, 100, 100), 3, 55));
    assert!(can_arrange(Layout::Tile, rect(i32::MAX, 0, 100, 100), 1, 55));
    assert!(can_arrange(Layout::Grid, rect(0, 0, 100, 100), 3, 55));
    assert!(can_apply_gap(&vec![rect(0, 0, 100, 100)], 10));
    assert!(!can_apply_gap(&vec![rect(0, 0, 100, 100)], i32::MAX));
    assert!(!can_apply_gap(&vec![rect(i32::MAX, 0, 100, 100)], 1));
    assert!(can_apply_gap(&vec![rect(i32::MAX, 0, 100, 100)], 0));
}

#[test]
fn defaults() {
    assert_eq!(Layout::default(), Layout::Tile);
    assert_eq!(Rect::default(), rect(0, 0, 0, 0));
}

#[test]
fn gap_keeps_tiles_apart() {
    let tiles = apply_gap(arrange(Layout::Tile, rect(0, 0, 100, 90), 4, 50), 7);
    assert_eq!(tiles[0], rect(7, 7, 36, 76));
    assert_eq!(tiles[1], rect(57, 7, 36, 16));
    for i in 0..4 {
        for j in 0..i {
            let (a, b) = (tiles[i], tiles[j]);
            assert!(a.x + a.w <= b.x || b.x + b.w <= a.x || a.y + a.h <= b.y || b.y + b.h <= a.y);
        }
    }
}

#[test]
fn the_master_does_not_depend_on_the_stack() {
    let area = rect(5, 6, 1000, 600);
    for n in 2usize..12 {
        let tiles = tile(area, n, 340);
        assert_eq!(tiles[0], rect(5, 6, 340, 600));
        assert!(tiles[1..].iter().all(|r| r.w == 660));
    }
    assert_eq!(tile(area, 2, 0)[1].w, 1000);
    assert_eq!(tile(area, 2, 1000)[1].w, 0);
}
