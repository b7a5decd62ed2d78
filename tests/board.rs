use pixel_board::boardstate::{Board, BoardState, Change, Color, Coord, Pixel, Player, DEFAULT_BOARD_SIZE};
use pixel_board::broadcast::{Broadcaster, Delivery, SubscriberId, SUBSCRIBER_CAPACITY};

fn player(name: &str) -> Player {
    Player { name: name.to_string() }
}

fn change(x: u32, y: u32, color: Color, name: &str) -> Change {
    Change { coord: Coord::new(x, y), pixel: Pixel { color, player: player(name) } }
}

#[test]
fn later_change_to_same_cell_wins() {
    let mut state = BoardState::default();
    state.add_player(player("ada"));
    state.change_pixel(change(3, 4, Color::Red, "ada"));
    state.change_pixel(change(3, 4, Color::Blue, "ada"));
    let board = state.get_board();
    assert_eq!(
        board.cell(Coord::new(3, 4)),
        Some(Pixel { color: Color::Blue, player: player("ada") })
    );
    assert_eq!(board.contents.len(), 1);
}

#[test]
fn subscriber_reads_two_changes_in_order() {
    let mut state = BoardState::default();
    state.add_player(player("ada"));
    let id = state.subscribe();
    let first = change(0, 0, Color::BrightGreen, "ada");
    let second = change(1, 1, Color::BrightGreen, "ada");
    state.change_pixel(first.clone());
    state.change_pixel(second.clone());
    assert_eq!(state.recv(id), Some(Delivery::Delivered(first)));
    assert_eq!(state.recv(id), Some(Delivery::Delivered(second)));
    assert_eq!(state.recv(id), None);
}

#[test]
fn snapshot_holds_last_write_per_cell() {
    let mut state = BoardState::default();
    let changes = vec![
        change(0, 0, Color::Red, "a"),
        change(1, 0, Color::Pink, "b"),
        change(0, 0, Color::Black, "c"),
        change(2, 5, Color::White, "a"),
        change(1, 0, Color::Orange, "a"),
    ];
    for c in changes {
        state.change_pixel(c);
    }
    let board = state.get_board();
    assert_eq!(board.contents.len(), 3);
    assert_eq!(board.cell(Coord::new(0, 0)), Some(Pixel { color: Color::Black, player: player("c") }));
    assert_eq!(board.cell(Coord::new(1, 0)), Some(Pixel { color: Color::Orange, player: player("a") }));
    assert_eq!(board.cell(Coord::new(2, 5)), Some(Pixel { color: Color::White, player: player("a") }));
    assert_eq!(board.cell(Coord::new(5, 2)), None);
}

#[test]
fn empty_board_has_default_size_and_no_cells() {
    let state = BoardState::default();
    let board = state.get_board();
    assert_eq!(board.board_size, DEFAULT_BOARD_SIZE);
    assert_eq!(board.board_size, 100);
    assert!(board.contents.is_empty());
    assert_eq!(Board::default(), board);
    assert!(state.players().is_empty());
}

#[test]
fn snapshot_is_independent_copy() {
    let mut state = BoardState::default();
    state.change_pixel(change(7, 7, Color::Yellow, "ada"));
    let before = state.get_board();
    state.change_pixel(change(7, 7, Color::Brown, "bob"));
    assert_eq!(before.cell(Coord::new(7, 7)).unwrap().color, Color::Yellow);
    assert_eq!(state.get_board().cell(Coord::new(7, 7)).unwrap().color, Color::Brown);
}

#[test]
fn coordinates_beyond_declared_size_are_stored() {
    let mut state = BoardState::default();
    state.change_pixel(change(500, 4_000_000_000, Color::DarkPurple, "far"));
    let board = state.get_board();
    assert_eq!(board.board_size, 100);
    assert_eq!(
        board.cell(Coord::new(500, 4_000_000_000)).map(|p| p.color),
        Some(Color::DarkPurple)
    );
}

#[test]
fn roster_grows_and_keeps_duplicates() {
    let mut state = BoardState::default();
    state.add_player(player("ada"));
    state.add_player(player("bob"));
    state.add_player(player("ada"));
    let names: Vec<&str> = state.players().iter().map(|p| p.name.as_str()).collect();
    assert_eq!(names, vec!["ada", "bob", "ada"]);
}

#[test]
fn coord_keys_are_distinct_and_reversible() {
    let cs = [
        Coord::new(0, 0),
        Coord::new(0, 1),
        Coord::new(1, 0),
        Coord::new(u32::MAX, u32::MAX),
        Coord::new(3, 4),
    ];
    for a in cs.iter() {
        assert_eq!(Coord::from_key(a.key()), *a);
        for b in cs.iter() {
            assert_eq!(a.key() == b.key(), a == b);
        }
    }
    assert_eq!(Coord::new(1, 0).key(), 4_294_967_296);
    assert_eq!(Coord::new(3, 4).key(), 3 * 4_294_967_296 + 4);
    assert_eq!(Coord::from_key(u64::MAX), Coord::new(u32::MAX, u32::MAX));
}

#[test]
fn subscriber_sees_only_changes_after_subscribing() {
    let mut state = BoardState::default();
    state.change_pixel(change(9, 9, Color::Red, "early"));
    let id = state.subscribe();
    let published: Vec<Change> = (0..10).map(|i| change(i, i + 1, Color::Blue, "late")).collect();
    for c in published.iter() {
        state.change_pixel(c.clone());
    }
    for c in published {
        assert_eq!(state.recv(id), Some(Delivery::Delivered(c)));
    }
    assert_eq!(state.recv(id), None);
}

#[test]
fn overflow_reports_lag_then_newest_changes() {
    let mut state = BoardState::default();
    let id = state.subscribe();
    let n: u32 = 150;
    for i in 0..n {
        state.change_pixel(change(i, 0, Color::LightBlue, "p"));
    }
    assert_eq!(state.recv(id), Some(Delivery::Lagged));
    let mut delivered: Vec<u32> = Vec::new();
    while let Some(d) = state.recv(id) {
        match d {
            Delivery::Delivered(c) => delivered.push(c.coord.x),
            Delivery::Lagged => panic!("a second lag marker"),
        }
    }
    assert_eq!(delivered.len(), SUBSCRIBER_CAPACITY);
    assert!(delivered.len() < n as usize);
    let expected: Vec<u32> = (n - SUBSCRIBER_CAPACITY as u32..n).collect();
    assert_eq!(delivered, expected);
}

#[test]
fn exactly_full_buffer_does_not_lag() {
    let mut b = Broadcaster::new(3);
    let id = b.subscribe();
    for i in 0..3 {
        b.publish(&change(i, 0, Color::Red, "p"));
    }
    for i in 0..3 {
        assert_eq!(b.recv(id), Some(Delivery::Delivered(change(i, 0, Color::Red, "p"))));
    }
    assert_eq!(b.recv(id), None);
    b.publish(&change(3, 0, Color::Red, "p"));
    b.publish(&change(4, 0, Color::Red, "p"));
    b.publish(&change(5, 0, Color::Red, "p"));
    b.publish(&change(6, 0, Color::Red, "p"));
    assert_eq!(b.recv(id), Some(Delivery::Lagged));
    assert_eq!(b.recv(id), Some(Delivery::Delivered(change(4, 0, Color::Red, "p"))));
}

#[test]
fn publish_without_subscribers_is_a_no_op() {
    let mut b = Broadcaster::new(2);
    b.publish(&change(1, 1, Color::Red, "p"));
    assert_eq!(b.subscriber_count(), 0);
    let mut state = BoardState::default();
    state.change_pixel(change(1, 1, Color::Red, "p"));
    assert_eq!(state.get_board().contents.len(), 1);
    let id = state.subscribe();
    state.unsubscribe(id);
    state.change_pixel(change(2, 2, Color::Red, "p"));
    assert_eq!(state.recv(id), None);
}

#[test]
fn two_subscribers_each_see_their_own_tail() {
    let mut state = BoardState::default();
    let first = state.subscribe();
    let a = change(1, 0, Color::Red, "p");
    state.change_pixel(a.clone());
    let second = state.subscribe();
    assert_ne!(first, second);
    let b = change(2, 0, Color::Blue, "p");
    let c = change(3, 0, Color::Black, "p");
    state.change_pixel(b.clone());
    state.change_pixel(c.clone());
    assert_eq!(state.recv(second), Some(Delivery::Delivered(b.clone())));
    assert_eq!(state.recv(second), Some(Delivery::Delivered(c.clone())));
    assert_eq!(state.recv(second), None);
    assert_eq!(state.recv(first), Some(Delivery::Delivered(a)));
    assert_eq!(state.recv(first), Some(Delivery::Delivered(b)));
    assert_eq!(state.recv(first), Some(Delivery::Delivered(c)));
    assert_eq!(state.recv(first), None);
}

#[test]
fn slow_subscriber_does_not_affect_fast_one() {
    let mut b = Broadcaster::new(2);
    let slow = b.subscribe();
    let fast = b.subscribe();
    for i in 0..5 {
        let c = change(i, 0, Color::Pink, "p");
        b.publish(&c);
        assert_eq!(b.recv(fast), Some(Delivery::Delivered(c)));
    }
    assert_eq!(b.recv(fast), None);
    assert_eq!(b.recv(slow), Some(Delivery::Lagged));
    assert_eq!(b.recv(slow), Some(Delivery::Delivered(change(3, 0, Color::Pink, "p"))));
    assert_eq!(b.recv(slow), Some(Delivery::Delivered(change(4, 0, Color::Pink, "p"))));
    assert_eq!(b.recv(slow), None);
}

#[test]
fn unknown_or_closed_subscriber_reads_nothing() {
    let mut b = Broadcaster::new(4);
    assert_eq!(b.recv(SubscriberId { index: 0 }), None);
    let id = b.subscribe();
    b.publish(&change(0, 0, Color::Red, "p"));
    b.unsubscribe(id);
    assert_eq!(b.recv(id), None);
    b.publish(&change(1, 0, Color::Red, "p"));
    assert_eq!(b.recv(id), None);
    assert_eq!(b.subscriber_count(), 1);
    b.unsubscribe(SubscriberId { index: 7 });
    assert_eq!(b.subscriber_count(), 1);
}
