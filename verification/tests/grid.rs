use dsfb::grid::{count_false_holes, count_true_components};
use dsfb::regions::{count_enclosed_regions, count_regions, flood};
use std::collections::{HashSet, VecDeque};

fn around(row: usize, col: usize, rows: usize, cols: usize) -> Vec<(usize, usize)> {
    let mut out = Vec::with_capacity(4);
    if row > 0 {
        out.push((row - 1, col));
    }
    if row + 1 < rows {
        out.push((row + 1, col));
    }
    if col > 0 {
        out.push((row, col - 1));
    }
    if col + 1 < cols {
        out.push((row, col + 1));
    }
    out
}

fn reference_components(grid: &[Vec<bool>]) -> usize {
    let rows = grid.len();
    let cols = grid[0].len();
    let mut seen = HashSet::new();
    let mut components = 0_usize;
    for row in 0..rows {
        for col in 0..cols {
            if !grid[row][col] || seen.contains(&(row, col)) {
                continue;
            }
            components += 1;
            let mut queue = VecDeque::from([(row, col)]);
            seen.insert((row, col));
            while let Some((r, c)) = queue.pop_front() {
                for (nr, nc) in around(r, c, rows, cols) {
                    if grid[nr][nc] && seen.insert((nr, nc)) {
                        queue.push_back((nr, nc));
                    }
                }
            }
        }
    }
    components
}

fn reference_holes(grid: &[Vec<bool>]) -> usize {
    let rows = grid.len();
    let cols = grid[0].len();
    let mut seen = HashSet::new();
    let mut holes = 0_usize;
    for row in 0..rows {
        for col in 0..cols {
            if grid[row][col] || seen.contains(&(row, col)) {
                continue;
            }
            let mut queue = VecDeque::from([(row, col)]);
            let mut touches_boundary = false;
            seen.insert((row, col));
            while let Some((r, c)) = queue.pop_front() {
                if r == 0 || c == 0 || r + 1 == rows || c + 1 == cols {
                    touches_boundary = true;
                }
                for (nr, nc) in around(r, c, rows, cols) {
                    if !grid[nr][nc] && seen.insert((nr, nc)) {
                        queue.push_back((nr, nc));
                    }
                }
            }
            if !touches_boundary {
                holes += 1;
            }
        }
    }
    holes
}

fn picture(lines: &[&str]) -> Vec<Vec<bool>> {
    lines.iter().map(|line| line.chars().map(|c| c == '#').collect()).collect()
}

#[test]
fn components_and_holes_of_small_pictures() {
    let ring = picture(&["#####", "#...#", "#.#.#", "#...#", "#####"]);
    assert_eq!(count_true_components(&ring), 2);
    assert_eq!(count_false_holes(&ring), 1);

    let two_rooms = picture(&["#######", "#..#..#", "#..#..#", "#######"]);
    assert_eq!(count_true_components(&two_rooms), 1);
    assert_eq!(count_false_holes(&two_rooms), 2);

    let open_room = picture(&["###.###", "#.....#", "#######"]);
    assert_eq!(count_true_components(&open_room), 1);
    assert_eq!(count_false_holes(&open_room), 0);

    let islands = picture(&["#.#", "...", "#.#"]);
    assert_eq!(count_true_components(&islands), 4);
    assert_eq!(count_false_holes(&islands), 0);

    let diagonal = picture(&["#..", ".#.", "..#"]);
    assert_eq!(count_true_components(&diagonal), 3);
    assert_eq!(count_false_holes(&diagonal), 0);

    assert_eq!(count_true_components(&picture(&["."])), 0);
    assert_eq!(count_false_holes(&picture(&["."])), 0);
    assert_eq!(count_true_components(&picture(&["#"])), 1);
    assert_eq!(count_true_components(&picture(&[""])), 0);
    assert_eq!(count_false_holes(&picture(&["", ""])), 0);
    assert_eq!(count_true_components(&picture(&["#.##.#"])), 3);
    assert_eq!(count_false_holes(&picture(&["#.##.#"])), 0);
}

#[test]
fn counters_agree_with_set_and_queue_search() {
    let mut state: u64 = 0x0123_4567_89AB_CDEF;
    for case in 0..300 {
        let rows = 1 + case % 9;
        let cols = 1 + (case / 3) % 11;
        let density = 1 + case % 7;
        let grid: Vec<Vec<bool>> = (0..rows)
            .map(|_| {
                (0..cols)
                    .map(|_| {
                        state ^= state << 13;
                        state ^= state >> 7;
                        state ^= state << 17;
                        (state >> 11) % 8 < density as u64
                    })
                    .collect()
            })
            .collect();
        assert_eq!(count_true_components(&grid), reference_components(&grid), "{grid:?}");
        assert_eq!(count_false_holes(&grid), reference_holes(&grid), "{grid:?}");
    }
}

#[test]
fn an_eighteen_by_eighteen_grid_is_counted() {
    let mut grid = vec![vec![false; 18]; 18];
    for i in 2..16 {
        grid[2][i] = true;
        grid[15][i] = true;
        grid[i][2] = true;
        grid[i][15] = true;
    }
    grid[8][8] = true;
    grid[0][0] = true;
    assert_eq!(count_true_components(&grid), 3);
    assert_eq!(count_false_holes(&grid), 1);
}

#[test]
fn flood_marks_what_is_reachable() {
    let adjacency = vec![vec![1], vec![0, 2], vec![1], vec![4], vec![3], vec![]];
    let mut seen = vec![false; 6];
    flood(&adjacency, 1, &mut seen);
    assert_eq!(seen, vec![true, true, true, false, false, false]);
    flood(&adjacency, 4, &mut seen);
    assert_eq!(seen, vec![true, true, true, true, true, false]);
    flood(&adjacency, 5, &mut seen);
    assert_eq!(seen, vec![true; 6]);
}

#[test]
fn regions_are_counted_by_their_first_members() {
    let adjacency = vec![vec![1], vec![0, 2], vec![1], vec![4], vec![3], vec![], vec![]];
    let member = vec![true, true, true, true, true, true, false];
    assert_eq!(count_regions(&adjacency, &member), 3);
    let edge = vec![false, false, true, false, false, false, true];
    assert_eq!(count_enclosed_regions(&adjacency, &member, &edge), 2);
    let edge = vec![true, false, false, false, true, true, false];
    assert_eq!(count_enclosed_regions(&adjacency, &member, &edge), 0);
    assert_eq!(count_regions(&vec![], &vec![]), 0);
}
