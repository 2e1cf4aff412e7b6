//! The game: a scene and its status, and the actions of a player.
use crate::models::board::{empty_grid, filled_at, Board, Grid, BOARD_HEIGHT, BOARD_WIDTH};
use crate::models::dir::{HDir, VDir};
use crate::models::game_status::{status_code, GameStatus};
use crate::models::matrix::{is_piece, law_rotation_round_trip, rotated_cw};
use crate::models::scene::{crosses_h, crosses_v, in_cells, Scene, SceneView};
use crate::models::shape::{catalogue, spawned, Placement, Shape, SHAPE_COUNT};
use vstd::prelude::*;

verus! {

/// The largest number of rows or columns of a piece of the catalogue.
pub const MAX_PIECE_SIZE: usize = 4;

/// Whether some cell of `g` is `Filled`.
pub open spec fn has_filled(g: Grid) -> bool {
    exists|r: int, c: int| in_cells(g, r, c) && #[trigger] filled_at(g, r, c)
}

/// Whether the placement is one that a game can reach: a piece no larger
/// than those of the catalogue, with a `Filled` cell, at or below the top
/// row, and with every `Filled` cell between the left, right and bottom
/// edges of the board.
pub open spec fn in_play(p: Placement) -> bool {
    &&& is_piece(p.cells)
    &&& p.cells.len() <= MAX_PIECE_SIZE
    &&& p.cells[0].len() <= MAX_PIECE_SIZE
    &&& has_filled(p.cells)
    &&& 0 <= p.y
    &&& !crosses_h(p)
    &&& !crosses_v(p)
}

/// A placement in play has its corner near the board.
pub proof fn lemma_in_play_bounds(p: Placement)
    requires
        in_play(p),
    ensures
        -(MAX_PIECE_SIZE as int) < p.x < BOARD_WIDTH,
        0 <= p.y < BOARD_HEIGHT,
{
    let (r, c) = choose|r: int, c: int| in_cells(p.cells, r, c) && #[trigger] filled_at(
        p.cells,
        r,
        c,
    );
}

/// Every new piece of the catalogue is in play.
pub proof fn lemma_spawn_in_play(index: int)
    requires
        0 <= index < SHAPE_COUNT,
    ensures
        in_play(spawned(catalogue(index))),
{
    let g = catalogue(index);
    assert(in_cells(g, 1, 1) && filled_at(g, 1, 1));
}

/// A piece in play that is turned clockwise is in play unless it crosses
/// an edge of the board.
pub proof fn lemma_turn_in_play(p: Placement)
    requires
        in_play(p),
    ensures
        ({
            let turned = p.turned(VDir::Bottom, HDir::Left);
            !crosses_h(turned) && !crosses_v(turned) ==> in_play(turned)
        }),
{
    law_rotation_round_trip(p.cells);
    let (r, c) = choose|r: int, c: int| in_cells(p.cells, r, c) && #[trigger] filled_at(
        p.cells,
        r,
        c,
    );
    let turned = rotated_cw(p.cells);
    assert(in_cells(turned, c, p.cells.len() - 1 - r) && filled_at(
        turned,
        c,
        p.cells.len() - 1 - r,
    ));
}

/// The model of a game: its scene and its status.
pub struct GameView {
    pub scene: SceneView,
    pub status: GameStatus,
}

impl GameView {
    /// The game with another scene and the same status.
    pub open spec fn with_scene(self, scene: SceneView) -> GameView {
        GameView { scene, status: self.status }
    }

    /// Whether the game still takes moves.
    pub open spec fn takes_moves(self) -> bool {
        self.status != GameStatus::Over
    }

    /// The game after `start`: a pending game is in progress, any other
    /// game is as it was.
    pub open spec fn started(self) -> GameView {
        if self.status == GameStatus::Pending {
            GameView { scene: self.scene, status: GameStatus::InProgress }
        } else {
            self
        }
    }

    /// The game after an attempt to move by `dx` columns.
    pub open spec fn moved_x(self, dx: int) -> GameView {
        if self.takes_moves() {
            self.with_scene(self.scene.moved_x(dx))
        } else {
            self
        }
    }

    /// The game after an attempt to turn the piece.
    pub open spec fn turned(self) -> GameView {
        if self.takes_moves() {
            self.with_scene(self.scene.turned())
        } else {
            self
        }
    }

    /// The game after the piece has landed and `next` has taken its place:
    /// the piece is locked into the heap, the complete rows are removed,
    /// and the game is over if `next` overlaps the heap.
    pub open spec fn settled(self, next: Placement) -> GameView {
        let scene = self.scene.locked().swept().with_shape(next);
        GameView {
            scene,
            status: if scene.collides() {
                GameStatus::Over
            } else {
                self.status
            },
        }
    }

    /// The game after a step down, where `next` is the piece that comes
    /// if the active one lands.
    pub open spec fn dropped(self, next: Placement) -> GameView {
        if !self.takes_moves() {
            self
        } else if self.scene.rejects_y(1) {
            self.settled(next)
        } else {
            self.with_scene(self.scene.moved_y(1))
        }
    }
}

/// The status of a game never goes back: whatever the action, a game that
/// is in progress is not pending afterwards, and a game that is over stays
/// over, with its scene as it was.
pub proof fn law_status_never_goes_back(game: GameView, dx: int, next: Placement)
    ensures
        status_code(game.status) <= status_code(game.started().status),
        status_code(game.status) <= status_code(game.moved_x(dx).status),
        status_code(game.status) <= status_code(game.turned().status),
        status_code(game.status) <= status_code(game.dropped(next).status),
        game.status == GameStatus::Over ==> game.started() == game && game.moved_x(dx) == game
            && game.turned() == game && game.dropped(next) == game,
{
}

/// Only `start` takes a game out of `Pending` into `InProgress`, and a game
/// is over only after a step down on which the new piece overlaps the heap.
pub proof fn law_status_changes(game: GameView, dx: int, next: Placement)
    ensures
        game.moved_x(dx).status == game.status,
        game.turned().status == game.status,
        game.dropped(next).status == game.status || game.dropped(next).status == GameStatus::Over,
        game.dropped(next).status != game.status ==> game.scene.rejects_y(1) && game.dropped(
            next,
        ).scene.collides(),
        game.started().scene == game.scene,
{
}

/// What a player sees of a game: the heap together with the active piece,
/// and the status.
#[derive(Debug)]
pub struct GameState {
    pub blocks: Board,
    pub status: GameStatus,
}

/// One game: a scene and its status.
#[derive(Debug)]
pub struct Game {
    scene: Scene,
    status: GameStatus,
}

impl View for Game {
    type V = GameView;

    closed spec fn view(&self) -> GameView {
        GameView { scene: self.scene@, status: self.status }
    }
}

impl Game {
    /// Whether the game is well formed: its active piece is in play. Every
    /// game that `new` or `with_piece` makes is, and every action keeps it so.
    pub open spec fn wf(&self) -> bool {
        in_play(self@.scene.shape)
    }

    /// Whether what a player sees is what the game shows.
    pub open spec fn shows(&self, state: GameState) -> bool {
        state.blocks@ == self@.scene.rendered() && state.status == self@.status
    }

    /// A pending game with an empty heap and a piece chosen at random.
    pub fn new() -> (game: Game)
        ensures
            game@.status == GameStatus::Pending,
            game@.scene.heap == empty_grid(),
            exists|index: int|
                0 <= index < SHAPE_COUNT && game@.scene.shape == spawned(
                    #[trigger] catalogue(index),
                ),
            game.wf(),
    {
        let scene = Scene::new();
        proof {
            let index = choose|index: int|
                0 <= index < SHAPE_COUNT && scene@.shape == spawned(#[trigger] catalogue(index));
            lemma_spawn_in_play(index);
        }
        Game { scene, status: GameStatus::Pending }
    }

    /// A pending game with an empty heap and the catalogue entry at `index`
    /// as its piece.
    pub fn with_piece(index: usize) -> (game: Game)
        requires
            index < SHAPE_COUNT,
        ensures
            game@.status == GameStatus::Pending,
            game@.scene.heap == empty_grid(),
            game@.scene.shape == spawned(catalogue(index as int)),
            game.wf(),
    {
        let scene = Scene::from_parts(Shape::pick(index), Board::new());
        proof {
            lemma_spawn_in_play(index as int);
        }
        Game { scene, status: GameStatus::Pending }
    }

    /// Moves the piece one column to the left, if the game takes moves and
    /// the scene accepts this one.
    pub fn move_left(&mut self) -> (state: GameState)
        requires
            old(self).wf(),
        ensures
            final(self)@ == old(self)@.moved_x(-1),
            final(self).shows(state),
            final(self).wf(),
    {
        proof {
            lemma_in_play_bounds(self@.scene.shape);
        }
        if self.status != GameStatus::Over {
            self.scene.move_figure_x(-1);
        }
        self.get_state()
    }

    /// Moves the piece one column to the right, if the game takes moves
    /// and the scene accepts this one.
    pub fn move_right(&mut self) -> (state: GameState)
        requires
            old(self).wf(),
        ensures
            final(self)@ == old(self)@.moved_x(1),
            final(self).shows(state),
            final(self).wf(),
    {
        proof {
            lemma_in_play_bounds(self@.scene.shape);
        }
        if self.status != GameStatus::Over {
            self.scene.move_figure_x(1);
        }
        self.get_state()
    }

    /// Moves the piece one row down. Where it cannot go down, it lands: it
    /// is locked into the heap, the complete rows are removed, a piece
    /// chosen at random takes its place, and the game is over if that piece
    /// overlaps the heap. A game that is over stays as it is.
    pub fn move_down(&mut self) -> (state: GameState)
        requires
            old(self).wf(),
        ensures
            exists|index: int|
                0 <= index < SHAPE_COUNT && final(self)@ == old(self)@.dropped(
                    spawned(#[trigger] catalogue(index)),
                ),
            final(self).shows(state),
            final(self).wf(),
    {
        proof {
            lemma_in_play_bounds(self@.scene.shape);
        }
        if self.status == GameStatus::Over {
            return self.get_state();
        }
        let touched = self.scene.move_figure_y(1);
        if !touched {
            assert(self@ == old(self)@.dropped(spawned(catalogue(0))));
            return self.get_state();
        }
        let next = Shape::random();
        self.settle(next);
        self.get_state()
    }

    /// Moves the piece one row down, as `move_down` does, with the
    /// catalogue entry at `index` as the piece that comes if the active one
    /// lands.
    pub fn move_down_with(&mut self, index: usize) -> (state: GameState)
        requires
            old(self).wf(),
            index < SHAPE_COUNT,
        ensures
            final(self)@ == old(self)@.dropped(spawned(catalogue(index as int))),
            final(self).shows(state),
            final(self).wf(),
    {
        proof {
            lemma_in_play_bounds(self@.scene.shape);
        }
        if self.status == GameStatus::Over {
            return self.get_state();
        }
        let touched = self.scene.move_figure_y(1);
        if !touched {
            return self.get_state();
        }
        self.settle(Shape::pick(index));
        self.get_state()
    }

    /// Lets the landed piece settle: locks it into the heap, removes the
    /// complete rows, puts `next` in its place, and ends the game if `next`
    /// overlaps the heap.
    fn settle(&mut self, next: Shape)
        requires
            exists|index: int|
                0 <= index < SHAPE_COUNT && next@ == spawned(#[trigger] catalogue(index)),
            old(self).wf(),
        ensures
            final(self)@ == old(self)@.settled(next@),
            final(self).wf(),
    {
        proof {
            let index = choose|index: int|
                0 <= index < SHAPE_COUNT && next@ == spawned(#[trigger] catalogue(index));
            lemma_spawn_in_play(index);
        }
        self.scene.credit();
        self.scene.set_figure(next);
        if self.scene.check_shape_intersects_heap() {
            self.status = GameStatus::Over;
        }
    }

    /// Turns the piece clockwise by a quarter, if the game takes moves and
    /// the scene accepts the turn.
    pub fn rotate(&mut self) -> (state: GameState)
        requires
            old(self).wf(),
        ensures
            final(self)@ == old(self)@.turned(),
            final(self).shows(state),
            final(self).wf(),
    {
        proof {
            lemma_turn_in_play(self@.scene.shape);
        }
        if self.status != GameStatus::Over {
            self.scene.rotate_figure();
        }
        self.get_state()
    }

    /// The scene of the game.
    pub fn scene(&self) -> (scene: &Scene)
        ensures
            scene@ == self@.scene,
    {
        &self.scene
    }

    /// The status of the game.
    pub fn status(&self) -> (status: GameStatus)
        ensures
            status == self@.status,
    {
        self.status
    }

    /// What a player sees of the game.
    pub fn get_state(&self) -> (state: GameState)
        ensures
            self.shows(state),
    {
        GameState { blocks: self.scene.get_merged(), status: self.status }
    }

    /// Starts a pending game. Any other game stays as it is.
    pub fn start(&mut self) -> (state: GameState)
        requires
            old(self).wf(),
        ensures
            final(self)@ == old(self)@.started(),
            final(self).shows(state),
            final(self).wf(),
    {
        if self.status == GameStatus::Pending {
            self.status = GameStatus::InProgress
        }
        self.get_state()
    }

    /// One beat of the timer: the piece moves one row down, as `move_down`
    /// says.
    pub fn tick(&mut self) -> (state: GameState)
        requires
            old(self).wf(),
        ensures
            exists|index: int|
                0 <= index < SHAPE_COUNT && final(self)@ == old(self)@.dropped(
                    spawned(#[trigger] catalogue(index)),
                ),
            final(self).shows(state),
            final(self).wf(),
    {
        self.move_down()
    }
}

} // verus!
