use snake::food::Food;
use snake::grid::{hits_wall, next_cell, Direction};
use snake::snake::Snake;

fn all_cells_but(skip: Option<(i32, i32)>) -> Vec<(i32, i32)> {
    let mut v = Vec::new();
    for y in 0..30 {
        for x in 0..40 {
            if Some((x, y)) != skip {
                v.push((x, y));
            }
        }
    }
    v
}

#[test]
fn advance_without_growth_keeps_length() {
    let mut s = Snake::new(vec![(3, 3), (3, 4), (3, 5)], Direction::Up).unwrap();
    assert!(!s.advance(false));
    assert_eq!(s.cells(), vec![(3, 2), (3, 3), (3, 4)]);
    assert_eq!(s.len(), 3);
}

#[test]
fn advance_with_growth_adds_one() {
    let mut s = Snake::new(vec![(3, 3), (3, 4), (3, 5)], Direction::Left).unwrap();
    assert!(!s.advance(true));
    assert_eq!(s.cells(), vec![(2, 3), (3, 3), (3, 4), (3, 5)]);
    assert_eq!(s.len(), 4);
}

#[test]
fn moving_into_vacated_tail_is_no_collision() {
    let mut s = Snake::new(vec![(1, 1), (2, 1), (2, 2), (1, 2)], Direction::Down).unwrap();
    assert!(!s.advance(false));
    assert_eq!(s.cells(), vec![(1, 2), (1, 1), (2, 1), (2, 2)]);
}

#[test]
fn moving_into_tail_while_growing_collides() {
    let mut s = Snake::new(vec![(1, 1), (2, 1), (2, 2), (1, 2)], Direction::Down).unwrap();
    assert!(s.advance(true));
    assert_eq!(s.cells(), vec![(1, 1), (2, 1), (2, 2), (1, 2)]);
}

#[test]
fn self_collision_drops_the_tail_only() {
    let mut s = Snake::new(vec![(1, 1), (2, 1), (2, 2), (1, 2), (0, 2)], Direction::Down).unwrap();
    assert!(s.advance(false));
    assert_eq!(s.cells(), vec![(1, 1), (2, 1), (2, 2), (1, 2)]);
}

#[test]
fn wall_collision_on_each_side() {
    let mut r = Snake::new(vec![(39, 0)], Direction::Right).unwrap();
    assert!(r.advance(true));
    let mut l = Snake::new(vec![(0, 7)], Direction::Left).unwrap();
    assert!(l.advance(true));
    let mut u = Snake::new(vec![(7, 0)], Direction::Up).unwrap();
    assert!(u.advance(true));
    let mut d = Snake::new(vec![(7, 29)], Direction::Down).unwrap();
    assert!(d.advance(true));
    let mut ok = Snake::new(vec![(38, 28)], Direction::Right).unwrap();
    assert!(!ok.advance(true));
    assert_eq!(ok.head(), (39, 28));
}

#[test]
fn snake_new_checks_its_cells() {
    assert!(Snake::new(vec![], Direction::Up).is_none());
    assert!(Snake::new(vec![(0, 0), (1, 0), (0, 0)], Direction::Up).is_none());
    assert!(Snake::new(vec![(0, -1)], Direction::Up).is_none());
    assert!(Snake::new(vec![(0, 30)], Direction::Up).is_none());
    let s = Snake::new(vec![(39, 29), (38, 29)], Direction::Left).unwrap();
    assert_eq!(s.dir(), Direction::Left);
    assert_eq!(s.cells(), vec![(39, 29), (38, 29)]);
}

#[test]
fn occupies_checks_every_cell() {
    let s = Snake::new(vec![(3, 3), (3, 4), (4, 4)], Direction::Up).unwrap();
    assert!(s.occupies((3, 3)));
    assert!(s.occupies((4, 4)));
    assert!(!s.occupies((4, 3)));
}

#[test]
fn first_free_cell_in_row_major_order() {
    let s = Snake::new(vec![(0, 0), (1, 0), (2, 0)], Direction::Down).unwrap();
    assert_eq!(s.first_free_cell(), Some((3, 0)));
    let t = Snake::new(all_cells_but(Some((17, 12))), Direction::Down).unwrap();
    assert_eq!(t.first_free_cell(), Some((17, 12)));
    let full = Snake::new(all_cells_but(None), Direction::Down).unwrap();
    assert_eq!(full.first_free_cell(), None);
}

#[test]
fn grid_steps_and_walls() {
    assert_eq!(next_cell((5, 5), Direction::Right), (6, 5));
    assert_eq!(next_cell((5, 5), Direction::Left), (4, 5));
    assert_eq!(next_cell((5, 5), Direction::Up), (5, 4));
    assert_eq!(next_cell((5, 5), Direction::Down), (5, 6));
    assert_eq!(Direction::Up.reverse(), Direction::Down);
    assert_eq!(Direction::Left.reverse(), Direction::Right);
    assert!(hits_wall((-1, 0)));
    assert!(hits_wall((40, 0)));
    assert!(hits_wall((0, 30)));
    assert!(!hits_wall((39, 29)));
}

#[test]
fn check_consumed_compares_the_head() {
    let s = Snake::new(vec![(2, 2), (2, 1)], Direction::Down).unwrap();
    assert!(Food::new(2, 2).check_consumed(&s));
    assert!(!Food::new(2, 1).check_consumed(&s));
}

#[test]
fn try_place_refuses_snake_and_walls() {
    let s = Snake::new(vec![(2, 2), (2, 1)], Direction::Down).unwrap();
    let mut f = Food::new(9, 9);
    assert!(!f.try_place(&s, (2, 1)));
    assert!(!f.try_place(&s, (40, 1)));
    assert_eq!(f.cell(), (9, 9));
    assert!(f.try_place(&s, (3, 1)));
    assert_eq!(f.cell(), (3, 1));
}

#[test]
fn relocate_avoids_the_snake() {
    let s = Snake::new(vec![(0, 0), (1, 0), (2, 0), (3, 0)], Direction::Down).unwrap();
    let mut f = Food::new(0, 0);
    for _ in 0..200 {
        assert!(f.relocate(&s));
        let c = f.cell();
        assert!(c.0 >= 0 && c.0 < 40 && c.1 >= 0 && c.1 < 30);
        assert!(!s.occupies(c));
    }
}

#[test]
fn relocate_draws_at_random() {
    let s = Snake::new(vec![(5, 5)], Direction::Down).unwrap();
    let mut f = Food::new(5, 5);
    let mut seen_other = false;
    for _ in 0..20 {
        assert!(f.relocate(&s));
        if f.cell() != (0, 0) {
            seen_other = true;
        }
    }
    assert!(seen_other);
}

#[test]
fn relocate_finds_the_last_free_cell() {
    let s = Snake::new(all_cells_but(Some((39, 29))), Direction::Down).unwrap();
    let mut f = Food::new(0, 0);
    assert!(f.relocate(&s));
    assert_eq!(f.cell(), (39, 29));
}

#[test]
fn relocate_on_a_full_field_keeps_the_food() {
    let s = Snake::new(all_cells_but(None), Direction::Down).unwrap();
    let mut f = Food::new(4, 4);
    assert!(!f.relocate(&s));
    assert_eq!(f.cell(), (4, 4));
}
