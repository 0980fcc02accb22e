use game_of_life::engine::{game_step, next_cell};
use game_of_life::grid::{clear, get, get_num_of_alive_cells, new_field};
use game_of_life::pattern::{glider_gun_cells, preset, stamp_cells};
use game_of_life::session::{
    cell_at_pointer, frame_pause_nanos, slow_down, speed_up, Input, Session, COLUMNS, ROWS,
};

fn field_with(width: usize, height: usize, alive: &[(usize, usize)]) -> Vec<Vec<bool>> {
    let mut f = new_field(width, height);
    for &(x, y) in alive {
        f[y][x] = true;
    }
    f
}

fn alive_cells(f: &Vec<Vec<bool>>) -> Vec<(usize, usize)> {
    let mut out = Vec::new();
    for (y, row) in f.iter().enumerate() {
        for (x, &c) in row.iter().enumerate() {
            if c {
                out.push((x, y));
            }
        }
    }
    out
}

fn steps(f: &Vec<Vec<bool>>, n: usize) -> Vec<Vec<bool>> {
    let mut cur = f.clone();
    for _ in 0..n {
        cur = game_step(&mut cur);
    }
    cur
}

#[test]
fn neighbor_count_center_and_corner() {
    let mut f = field_with(3, 3, &[(0, 0), (2, 0), (1, 1), (0, 2), (1, 2)]);
    assert_eq!(get_num_of_alive_cells(&mut f, 1, 1), 4);
    assert_eq!(get_num_of_alive_cells(&mut f, 0, 0), 1);
    assert_eq!(get_num_of_alive_cells(&mut f, 2, 2), 2);
    assert_eq!(get_num_of_alive_cells(&mut f, 2, 0), 1);
    let mut full = field_with(3, 3, &[(0, 0), (1, 0), (2, 0), (0, 1), (1, 1), (2, 1), (0, 2), (1, 2), (2, 2)]);
    assert_eq!(get_num_of_alive_cells(&mut full, 1, 1), 8);
    assert_eq!(get_num_of_alive_cells(&mut full, 0, 2), 3);
    assert_eq!(get_num_of_alive_cells(&mut full, 1, 0), 5);
}

#[test]
fn isolated_cell_dies() {
    let f = field_with(5, 5, &[(2, 2)]);
    assert!(!steps(&f, 1)[2][2]);
    let pair = field_with(5, 5, &[(2, 2), (3, 2)]);
    let next = steps(&pair, 1);
    assert!(!next[2][2]);
    assert!(alive_cells(&next).is_empty());
}

#[test]
fn cell_with_two_or_three_neighbors_survives() {
    let two = field_with(5, 5, &[(1, 1), (2, 2), (3, 3)]);
    assert!(steps(&two, 1)[2][2]);
    let three = field_with(5, 5, &[(1, 1), (2, 2), (3, 3), (1, 3)]);
    assert!(steps(&three, 1)[2][2]);
}

#[test]
fn crowded_cell_dies() {
    let f = field_with(5, 5, &[(2, 2), (1, 1), (3, 1), (1, 3), (3, 3)]);
    assert!(!steps(&f, 1)[2][2]);
}

#[test]
fn dead_cell_with_three_neighbors_is_born() {
    let f = field_with(5, 5, &[(1, 1), (3, 1), (2, 3)]);
    assert!(!f[2][2]);
    assert!(steps(&f, 1)[2][2]);
}

#[test]
fn rule_table() {
    for n in 0..=8u32 {
        assert_eq!(next_cell(true, n), n == 2 || n == 3);
        assert_eq!(next_cell(false, n), n == 3);
    }
}

#[test]
fn block_is_still() {
    let f = field_with(6, 6, &[(2, 2), (3, 2), (2, 3), (3, 3)]);
    for k in 1..6 {
        assert_eq!(steps(&f, k), f);
    }
    let corner = field_with(4, 4, &[(0, 0), (1, 0), (0, 1), (1, 1)]);
    assert_eq!(steps(&corner, 3), corner);
}

#[test]
fn blinker_has_period_two() {
    let h = field_with(5, 5, &[(1, 2), (2, 2), (3, 2)]);
    let v = field_with(5, 5, &[(2, 1), (2, 2), (2, 3)]);
    assert_eq!(steps(&h, 1), v);
    assert_eq!(steps(&v, 1), h);
    assert_eq!(steps(&h, 2), h);
}

#[test]
fn glider_moves_diagonally() {
    let start = field_with(8, 8, &[(2, 1), (3, 2), (1, 3), (2, 3), (3, 3)]);
    let moved = field_with(8, 8, &[(3, 2), (4, 3), (2, 4), (3, 4), (4, 4)]);
    assert_eq!(steps(&start, 4), moved);
}

#[test]
fn step_is_deterministic() {
    let mut a = field_with(6, 5, &[(1, 1), (2, 1), (4, 2), (3, 3), (0, 4)]);
    let mut b = field_with(6, 5, &[(1, 1), (2, 1), (4, 2), (3, 3), (0, 4)]);
    let ra = game_step(&mut a);
    let rb = game_step(&mut b);
    assert_eq!(ra, rb);
    assert_eq!(a, b);
}

#[test]
fn step_leaves_input_alone_and_keeps_size() {
    let mut f = field_with(7, 4, &[(1, 1), (2, 1), (3, 1)]);
    let before = f.clone();
    let next = game_step(&mut f);
    assert_eq!(f, before);
    assert_eq!(next.len(), 4);
    assert!(next.iter().all(|r| r.len() == 7));
}

#[test]
fn glider_gun_emits_a_glider_after_thirty_steps() {
    let mut f = new_field(COLUMNS, ROWS);
    preset(0, 0, 0, &mut f);
    let start = alive_cells(&f);
    assert_eq!(start.len(), 36);
    let after = steps(&f, 30);
    let mut expected = start.clone();
    expected.extend_from_slice(&[(24, 10), (25, 11), (26, 11), (24, 12), (25, 12)]);
    expected.sort_by_key(|&(x, y)| (y, x));
    assert_eq!(alive_cells(&after), expected);
}

#[test]
fn set_skips_row_and_column_zero() {
    let mut f = new_field(4, 3);
    assert!(!game_of_life::grid::set(0, 1, true, &mut f));
    assert!(!game_of_life::grid::set(1, 0, true, &mut f));
    assert!(!game_of_life::grid::set(4, 1, true, &mut f));
    assert!(!game_of_life::grid::set(1, 3, true, &mut f));
    assert!(alive_cells(&f).is_empty());
    assert!(game_of_life::grid::set(3, 2, true, &mut f));
    assert_eq!(alive_cells(&f), vec![(3, 2)]);
    assert!(game_of_life::grid::set(3, 2, false, &mut f));
    assert!(alive_cells(&f).is_empty());
}

#[test]
fn get_and_clear() {
    let mut f = field_with(3, 2, &[(2, 1)]);
    assert!(get(&f, 2, 1));
    assert!(!get(&f, 1, 1));
    clear(&mut f);
    assert_eq!(f, new_field(3, 2));
}

#[test]
fn preset_unknown_is_noop_and_gun_is_anchored() {
    let mut f = new_field(COLUMNS, ROWS);
    preset(1, 0, 0, &mut f);
    assert!(alive_cells(&f).is_empty());
    preset(0, 10, 20, &mut f);
    assert_eq!(alive_cells(&f).len(), 36);
    assert!(f[25][11] && f[23][46] && f[21][35]);
    assert!(!f[25][10]);
}

#[test]
fn preset_drops_cells_off_the_grid() {
    let mut f = new_field(20, 8);
    preset(0, 0, 0, &mut f);
    let cells = alive_cells(&f);
    assert!(cells.iter().all(|&(x, y)| x < 20 && y < 8));
    assert!(f[5][1] && f[6][2] && f[7][11]);
    assert!(!f[8 - 1][12]);
    let mut far = new_field(5, 5);
    preset(0, usize::MAX - 3, usize::MAX, &mut far);
    assert!(alive_cells(&far).is_empty());
}

#[test]
fn stamp_with_row_zero_offsets() {
    let mut f = new_field(4, 4);
    stamp_cells(&vec![(0, 0), (1, 0), (0, 1), (2, 2)], 0, 0, &mut f);
    assert_eq!(alive_cells(&f), vec![(2, 2)]);
    assert_eq!(glider_gun_cells().len(), 36);
}

#[test]
fn pace_is_clamped() {
    assert_eq!(slow_down(50), 40);
    assert_eq!(slow_down(10), 1);
    assert_eq!(slow_down(5), 1);
    assert_eq!(slow_down(1), 1);
    assert_eq!(speed_up(50), 60);
    assert_eq!(speed_up(495), 500);
    assert_eq!(speed_up(500), 500);
    assert_eq!(frame_pause_nanos(50), 20_000_000);
    assert_eq!(frame_pause_nanos(1), 1_000_000_000);
}

#[test]
fn pointer_is_clamped_to_the_grid() {
    assert_eq!(cell_at_pointer(-20, 800), 0);
    assert_eq!(cell_at_pointer(0, 800), 0);
    assert_eq!(cell_at_pointer(125, 800), 12);
    assert_eq!(cell_at_pointer(799, 800), 79);
    assert_eq!(cell_at_pointer(5000, 600), 59);
}

#[test]
fn session_handles_inputs() {
    let mut s = Session::new();
    assert!(!s.running);
    assert_eq!(s.rate, 50);
    assert_eq!(alive_cells(&s.field).len(), 36);
    assert!(s.handle(Input::ToggleRun));
    assert!(s.running);
    assert!(s.handle(Input::SpeedUp));
    assert_eq!(s.rate, 60);
    assert!(s.handle(Input::SlowDown));
    assert!(s.handle(Input::SlowDown));
    assert_eq!(s.rate, 40);
    assert!(s.handle(Input::PaintDown));
    assert!(s.painting);
    assert!(s.handle(Input::PaintUp));
    assert!(!s.painting);
    assert!(s.handle(Input::EraseDown));
    assert!(s.erasing);
    assert!(s.handle(Input::EraseUp));
    assert!(!s.erasing);
    assert!(!s.handle(Input::Quit));
}

#[test]
fn session_paints_erases_and_resets() {
    let mut s = Session::new();
    s.handle(Input::PaintDown);
    s.frame(405, 305);
    assert!(s.field[30][40]);
    s.frame(-3, -3);
    assert!(s.field[0][0]);
    s.handle(Input::EraseDown);
    s.frame(405, 305);
    assert!(s.field[30][40]);
    s.handle(Input::PaintUp);
    s.frame(405, 305);
    assert!(!s.field[30][40]);
    s.handle(Input::Reset);
    assert_eq!(s.field, Session::new().field);
}

#[test]
fn session_steps_only_when_running() {
    let mut s = Session::new();
    let start = s.field.clone();
    s.frame(0, 0);
    assert_eq!(s.field, start);
    s.handle(Input::ToggleRun);
    s.frame(0, 0);
    let mut expected = start.clone();
    assert_eq!(s.field, game_step(&mut expected));
}
