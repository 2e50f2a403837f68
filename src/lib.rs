use vstd::prelude::*;

pub mod board;
pub mod game;

use crate::board::{top_row_full, COLUMNS};
use crate::game::Game;

verus! {

/// What the terminal front end keeps between frames: the game, the column the
/// player has selected, the tick count, and whether to quit.
#[derive(Debug)]
pub struct App {
    iteration: usize,
    game: Game,
    selected_column: usize,
    exit: bool,
}

impl App {
    pub closed spec fn wf(&self) -> bool {
        self.game.wf() && self.selected_column < 7
    }

    pub closed spec fn game_state(&self) -> Game {
        self.game
    }

    pub closed spec fn selected(&self) -> int {
        self.selected_column as int
    }

    pub closed spec fn exiting(&self) -> bool {
        self.exit
    }

    pub closed spec fn ticks(&self) -> int {
        self.iteration as int
    }

    /// A new game with the leftmost column selected.
    pub fn new() -> (a: App)
        ensures
            a.wf(),
            a.game_state().is_new_game(),
            a.selected() == 0,
            !a.exiting(),
            a.ticks() == 0,
    {
        App { iteration: 0, game: Game::new(), selected_column: 0, exit: false }
    }

    pub fn game(&self) -> (g: &Game)
        ensures
            *g == self.game_state(),
    {
        &self.game
    }

    pub fn selected_column(&self) -> (c: usize)
        ensures
            c as int == self.selected(),
    {
        self.selected_column
    }

    pub fn should_exit(&self) -> (e: bool)
        ensures
            e == self.exiting(),
    {
        self.exit
    }

    /// Asks the main loop to stop.
    pub fn exit(&mut self)
        requires
            old(self).wf(),
        ensures
            final(self).wf(),
            final(self).exiting(),
            final(self).game_state() == old(self).game_state(),
            final(self).selected() == old(self).selected(),
            final(self).ticks() == old(self).ticks(),
    {
        self.exit = true;
    }

    /// One tick of the clock: the game advances its animation.
    pub fn on_tick(&mut self)
        requires
            old(self).wf(),
        ensures
            final(self).wf(),
            final(self).game_state().is_tick_of(old(self).game_state()),
            final(self).ticks() == if old(self).ticks() < usize::MAX {
                old(self).ticks() + 1
            } else {
                0
            },
            final(self).selected() == old(self).selected(),
            final(self).exiting() == old(self).exiting(),
    {
        self.iteration = self.iteration.wrapping_add(1);
        self.game.animate();
    }

    /// Moves the selection one column left, if there is one.
    pub fn handle_left(&mut self)
        requires
            old(self).wf(),
        ensures
            final(self).wf(),
            final(self).selected() == if old(self).selected() > 0 {
                old(self).selected() - 1
            } else {
                old(self).selected()
            },
            final(self).game_state() == old(self).game_state(),
            final(self).exiting() == old(self).exiting(),
            final(self).ticks() == old(self).ticks(),
    {
        if self.selected_column > 0 {
            self.selected_column -= 1;
        }
    }

    /// Moves the selection one column right, if there is one.
    pub fn handle_right(&mut self)
        requires
            old(self).wf(),
        ensures
            final(self).wf(),
            final(self).selected() == if old(self).selected() < 6 {
                old(self).selected() + 1
            } else {
                old(self).selected()
            },
            final(self).game_state() == old(self).game_state(),
            final(self).exiting() == old(self).exiting(),
            final(self).ticks() == old(self).ticks(),
    {
        if self.selected_column < COLUMNS - 1 {
            self.selected_column += 1;
        }
    }

    /// While the game is on, drops a token into the selected column; once it
    /// is won or the board is full, starts clearing the board.
    pub fn handle_space(&mut self)
        requires
            old(self).wf(),
        ensures
            final(self).wf(),
            old(self).game_state().result().is_none() && !top_row_full(old(self).game_state().logical())
                ==> final(self).game_state().is_drop_of(old(self).game_state(), old(self).selected()),
            !(old(self).game_state().result().is_none() && !top_row_full(old(self).game_state().logical()))
                ==> final(self).game_state().is_reset_of(old(self).game_state()),
            final(self).selected() == old(self).selected(),
            final(self).exiting() == old(self).exiting(),
            final(self).ticks() == old(self).ticks(),
    {
        if self.game.winner().is_none() && !self.game.is_full() {
            self.game.drop(self.selected_column);
        } else {
            self.game.reset();
        }
    }
}

impl Default for App {
    fn default() -> (a: Self)
        ensures
            a.wf(),
            a.game_state().is_new_game(),
            a.selected() == 0,
            !a.exiting(),
            a.ticks() == 0,
    {
        App::new()
    }
}

} // verus!
