use crate::broadcast::{Broadcaster, BroadcasterView, Delivery, SubscriberId, SUBSCRIBER_CAPACITY};
use crate::broadcast::{next_item, published, received, subscribed, with_subscriber, closed_subscriber};
use std::collections::HashMap;
use vstd::prelude::*;

verus! {

broadcast use vstd::std_specs::hash::group_hash_axioms;

/// Side length that a new board declares.
pub const DEFAULT_BOARD_SIZE: u32 = 100;

/// Factor that places `x` above every `y` in a coordinate's key.
pub const KEY_SHIFT: u64 = 0x1_0000_0000;

/// The palette a cell can be painted with.
#[derive(Clone, Copy, PartialEq, Eq, Debug, Structural)]
pub enum Color {
    Red,
    Pink,
    LightGray,
    DarkGray,
    BrightGreen,
    Orange,
    Brown,
    Yellow,
    DarkGreen,
    White,
    Black,
    LightBlue,
    Blue,
    DarkBlue,
    LightPurple,
    DarkPurple,
}

/// A position on the canvas.
#[derive(Clone, Copy, PartialEq, Eq, Hash, Debug, Structural)]
pub struct Coord {
    pub x: u32,
    pub y: u32,
}

/// The key under which a coordinate's cell is stored: `x` in the high half,
/// `y` in the low half.
pub open spec fn coord_key(c: Coord) -> u64 {
    (c.x as int * KEY_SHIFT as int + c.y as int) as u64
}

/// Distinct coordinates have distinct keys, and every key is some
/// coordinate's.
pub proof fn lemma_coord_key_bijective(a: Coord, b: Coord, k: u64)
    ensures
        coord_key(a) == coord_key(b) ==> a == b,
        coord_key(Coord { x: (k / KEY_SHIFT) as u32, y: (k % KEY_SHIFT) as u32 }) == k,
{
    assert(coord_key(a) == coord_key(b) ==> a == b) by {
        if coord_key(a) == coord_key(b) {
            assert(a.x == b.x) by (nonlinear_arith)
                requires
                    a.x as int * 0x1_0000_0000 + a.y as int == b.x as int * 0x1_0000_0000
                        + b.y as int,
                    0 <= a.y < 0x1_0000_0000,
                    0 <= b.y < 0x1_0000_0000,
            ;
        }
    }
}

impl Coord {
    pub fn new(x: u32, y: u32) -> (r: Coord)
        ensures
            r.x == x,
            r.y == y,
    {
        Coord { x, y }
    }

    /// The key under which this coordinate's cell is stored.
    pub fn key(&self) -> (r: u64)
        ensures
            r == coord_key(*self),
    {
        self.x as u64 * KEY_SHIFT + self.y as u64
    }

    /// The coordinate stored under key `k`.
    pub fn from_key(k: u64) -> (r: Coord)
        ensures
            coord_key(r) == k,
    {
        proof {
            lemma_coord_key_bijective(Coord { x: 0, y: 0 }, Coord { x: 0, y: 0 }, k);
        }
        Coord { x: (k / KEY_SHIFT) as u32, y: (k % KEY_SHIFT) as u32 }
    }
}

/// Someone who paints cells; names need not be unique.
#[derive(PartialEq, Eq, Debug)]
pub struct Player {
    pub name: String,
}

impl Clone for Player {
    fn clone(&self) -> (r: Self)
        ensures
            r == *self,
    {
        Player { name: self.name.clone() }
    }
}

/// What a cell holds: its color and who set it last.
#[derive(PartialEq, Eq, Debug)]
pub struct Pixel {
    pub color: Color,
    pub player: Player,
}

impl Clone for Pixel {
    fn clone(&self) -> (r: Self)
        ensures
            r == *self,
    {
        Pixel { color: self.color, player: self.player.clone() }
    }
}

/// One accepted change: a coordinate and the cell it now holds.
#[derive(PartialEq, Eq, Debug)]
pub struct Change {
    pub coord: Coord,
    pub pixel: Pixel,
}

impl Clone for Change {
    fn clone(&self) -> (r: Self)
        ensures
            r == *self,
    {
        Change { coord: self.coord, pixel: self.pixel.clone() }
    }
}

/// The canvas: every cell painted so far, stored by coordinate key, and the
/// declared side length. Coordinates beyond that length are stored as well.
#[derive(PartialEq, Eq, Debug)]
pub struct Board {
    pub contents: HashMap<u64, Pixel>,
    pub board_size: u32,
}

impl View for Board {
    type V = Map<Coord, Pixel>;

    open spec fn view(&self) -> Map<Coord, Pixel> {
        Map::new(
            |c: Coord| self.contents@.contains_key(coord_key(c)),
            |c: Coord| self.contents@[coord_key(c)],
        )
    }
}

impl Clone for Board {
    fn clone(&self) -> (r: Self)
        ensures
            r@ == self@,
            r.board_size == self.board_size,
    {
        let r = Board { contents: self.contents.clone(), board_size: self.board_size };
        assert(r@ =~= self@);
        r
    }
}

impl Default for Board {
    fn default() -> (r: Self)
        ensures
            r@ == Map::<Coord, Pixel>::empty(),
            r.board_size == DEFAULT_BOARD_SIZE,
    {
        let r = Board { contents: HashMap::new(), board_size: DEFAULT_BOARD_SIZE };
        assert(r@ =~= Map::<Coord, Pixel>::empty());
        r
    }
}

impl Board {
    /// A copy of the cell at `coord`, if it was ever painted.
    pub fn cell(&self, coord: Coord) -> (r: Option<Pixel>)
        ensures
            r == (if self@.contains_key(coord) {
                Some(self@[coord])
            } else {
                None
            }),
    {
        match self.contents.get(&coord.key()) {
            Some(p) => Some(p.clone()),
            None => None,
        }
    }

    /// Paints `pixel` at `coord`, replacing what was there.
    pub fn set(&mut self, coord: Coord, pixel: Pixel)
        ensures
            final(self)@ == old(self)@.insert(coord, pixel),
            final(self).board_size == old(self).board_size,
    {
        let k = coord.key();
        self.contents.insert(k, pixel);
        proof {
            assert forall|c: Coord| #[trigger] coord_key(c) == k implies c == coord by {
                lemma_coord_key_bijective(c, coord, k);
            }
        }
        assert(self@ =~= old(self)@.insert(coord, pixel));
    }
}

/// The canvas map after each change of `cs` was painted onto `m`, in order.
pub open spec fn painted(m: Map<Coord, Pixel>, cs: Seq<Change>) -> Map<Coord, Pixel>
    decreases cs.len(),
{
    if cs.len() == 0 {
        m
    } else {
        painted(m, cs.drop_last()).insert(cs.last().coord, cs.last().pixel)
    }
}

/// Last write wins: painting `cs` onto an empty canvas leaves exactly the
/// coordinates that some change touched, each holding the cell of the last
/// change that touched it.
pub proof fn lemma_last_write_wins(cs: Seq<Change>)
    ensures
        forall|c: Coord|
            #[trigger] painted(Map::empty(), cs).contains_key(c) <==> exists|i: int|
                0 <= i < cs.len() && cs[i].coord == c,
        forall|i: int|
            0 <= i < cs.len() && (forall|j: int| i < j < cs.len() ==> cs[j].coord != cs[i].coord)
                ==> painted(Map::empty(), cs)[#[trigger] cs[i].coord] == cs[i].pixel,
    decreases cs.len(),
{
    if cs.len() > 0 {
        let prev = cs.drop_last();
        let n = cs.len() - 1;
        lemma_last_write_wins(prev);
        assert forall|c: Coord|
            #[trigger] painted(Map::empty(), cs).contains_key(c) <==> exists|i: int|
                0 <= i < cs.len() && cs[i].coord == c by {
            if painted(Map::empty(), cs).contains_key(c) {
                if c == cs[n].coord {
                    assert(cs[n].coord == c);
                } else {
                    let i = choose|i: int| 0 <= i < prev.len() && prev[i].coord == c;
                    assert(cs[i].coord == c);
                }
            }
            if exists|i: int| 0 <= i < cs.len() && cs[i].coord == c {
                let i = choose|i: int| 0 <= i < cs.len() && cs[i].coord == c;
                if i < n {
                    assert(prev[i].coord == c);
                }
            }
        }
        assert forall|i: int|
            0 <= i < cs.len() && (forall|j: int| i < j < cs.len() ==> cs[j].coord != cs[i].coord)
                implies painted(Map::empty(), cs)[#[trigger] cs[i].coord] == cs[i].pixel by {
            if i < n {
                assert(cs[n].coord != cs[i].coord);
                assert(prev[i] == cs[i]);
                assert forall|j: int| i < j < prev.len() implies prev[j].coord != prev[i].coord by {
                    assert(prev[j] == cs[j]);
                }
            }
        }
    }
}

/// The authoritative canvas: the board, the roster of players, and the
/// broadcaster that every accepted change goes through.
pub struct BoardState {
    players: Vec<Player>,
    board: Board,
    change_stream: Broadcaster,
}

impl Default for BoardState {
    fn default() -> (r: BoardState)
        ensures
            r.wf(),
            r.players_spec() == Seq::<Player>::empty(),
            r.board_spec() == Map::<Coord, Pixel>::empty(),
            r.board_size_spec() == DEFAULT_BOARD_SIZE,
            r.stream_spec() == (BroadcasterView {
                capacity: SUBSCRIBER_CAPACITY as nat,
                subscribers: Seq::empty(),
            }),
    {
        BoardState {
            players: Vec::new(),
            board: Board::default(),
            change_stream: Broadcaster::new(SUBSCRIBER_CAPACITY),
        }
    }
}

impl BoardState {
    /// The players registered so far, in order of registration.
    pub closed spec fn players_spec(&self) -> Seq<Player> {
        self.players@
    }

    /// The cells painted so far.
    pub closed spec fn board_spec(&self) -> Map<Coord, Pixel> {
        self.board@
    }

    /// The board's declared side length.
    pub closed spec fn board_size_spec(&self) -> u32 {
        self.board.board_size
    }

    /// The state of the subscriptions.
    pub closed spec fn stream_spec(&self) -> BroadcasterView {
        self.change_stream@
    }

    /// The state's invariant: that of its broadcaster.
    pub closed spec fn wf(&self) -> bool {
        self.change_stream.wf()
    }

    /// Adds `player` to the roster; the roster only grows.
    pub fn add_player(&mut self, player: Player)
        requires
            old(self).wf(),
        ensures
            final(self).wf(),
            final(self).players_spec() == old(self).players_spec().push(player),
            final(self).board_spec() == old(self).board_spec(),
            final(self).board_size_spec() == old(self).board_size_spec(),
            final(self).stream_spec() == old(self).stream_spec(),
    {
        self.players.push(player)
    }

    /// Stores `change` on the board, then publishes it to every open
    /// subscription. Always succeeds, with or without subscribers.
    pub fn change_pixel(&mut self, change: Change)
        requires
            old(self).wf(),
        ensures
            final(self).wf(),
            final(self).board_spec() == old(self).board_spec().insert(change.coord, change.pixel),
            final(self).stream_spec() == published(old(self).stream_spec(), change),
            final(self).players_spec() == old(self).players_spec(),
            final(self).board_size_spec() == old(self).board_size_spec(),
    {
        self.board.set(change.coord, change.pixel.clone());
        self.change_stream.publish(&change);
    }

    /// An independent copy of the board.
    pub fn get_board(&self) -> (r: Board)
        ensures
            r@ == self.board_spec(),
            r.board_size == self.board_size_spec(),
    {
        self.board.clone()
    }

    /// The players registered so far.
    pub fn players(&self) -> (r: &Vec<Player>)
        ensures
            r@ == self.players_spec(),
    {
        &self.players
    }

    /// Starts a subscription to every change made from now on.
    pub fn subscribe(&mut self) -> (r: SubscriberId)
        requires
            old(self).wf(),
        ensures
            final(self).wf(),
            final(self).stream_spec() == subscribed(old(self).stream_spec()),
            r.index == old(self).stream_spec().subscribers.len(),
            final(self).board_spec() == old(self).board_spec(),
            final(self).board_size_spec() == old(self).board_size_spec(),
            final(self).players_spec() == old(self).players_spec(),
    {
        self.change_stream.subscribe()
    }

    /// The next item for subscription `id`: a change, a lag marker, or `None`
    /// when nothing is waiting.
    pub fn recv(&mut self, id: SubscriberId) -> (r: Option<Delivery>)
        requires
            old(self).wf(),
        ensures
            final(self).wf(),
            r == next_item(old(self).stream_spec(), id.index as int),
            id.index < old(self).stream_spec().subscribers.len() ==> final(self).stream_spec()
                == with_subscriber(
                old(self).stream_spec(),
                id.index as int,
                received(old(self).stream_spec().subscribers[id.index as int]),
            ),
            id.index >= old(self).stream_spec().subscribers.len() ==> final(self).stream_spec()
                == old(self).stream_spec(),
            final(self).board_spec() == old(self).board_spec(),
            final(self).board_size_spec() == old(self).board_size_spec(),
            final(self).players_spec() == old(self).players_spec(),
    {
        self.change_stream.recv(id)
    }

    /// Closes subscription `id` and frees its buffer.
    pub fn unsubscribe(&mut self, id: SubscriberId)
        requires
            old(self).wf(),
        ensures
            final(self).wf(),
            id.index < old(self).stream_spec().subscribers.len() ==> final(self).stream_spec()
                == with_subscriber(old(self).stream_spec(), id.index as int, closed_subscriber()),
            id.index >= old(self).stream_spec().subscribers.len() ==> final(self).stream_spec()
                == old(self).stream_spec(),
            final(self).board_spec() == old(self).board_spec(),
            final(self).board_size_spec() == old(self).board_size_spec(),
            final(self).players_spec() == old(self).players_spec(),
    {
        self.change_stream.unsubscribe(id)
    }
}

} // verus!
