//! The state of a game and the decisions of the key loop.
use vstd::prelude::*;

use crate::board::Board;
use crate::text::push_char;

verus! {

/// Who the human plays against.
#[derive(Clone, Copy, Debug, PartialEq, Eq, Structural)]
pub enum Modes {
    AI,
    PvP,
}

/// What became of the last move that was asked for.
#[derive(Clone, Copy, Debug, PartialEq, Eq, Structural)]
pub enum MoveInfo {
    Valid,
    InValid,
    BlackCheck,
    WhiteCheck,
    Null,
}

#[derive(Clone, Copy, Debug, PartialEq, Eq, Structural)]
pub enum GameState {
    Playing,
    Draw,
    WhiteWon,
    BlackWon,
    WhiteCheck,
    BlackCheck,
}

/// The side whose turn it is.
#[derive(Clone, Copy, Debug, PartialEq, Eq, Structural)]
pub enum Round {
    White,
    Black,
}

/// A game in progress.  `half_moves` counts half moves from 2, so that the
/// full-move number is `half_moves / 2`.
pub struct Game {
    pub board: Board,
    pub game_state: GameState,
    pub round: Round,
    pub debug: bool,
    pub wk_moved: bool,
    pub bk_moved: bool,
    pub lwr_moved: bool,
    pub rwr_moved: bool,
    pub lbr_moved: bool,
    pub rbr_moved: bool,
    pub white_captures: Vec<i32>,
    pub black_captures: Vec<i32>,
    pub move_info: MoveInfo,
    pub mode: Modes,
    pub game_started: bool,
    pub mode_screen: bool,
    pub last_en_passant: Vec<i32>,
    pub half_moves: u64,
}

/// The mathematical value of a [`Game`].
pub ghost struct GameView {
    pub board: Board,
    pub game_state: GameState,
    pub round: Round,
    pub debug: bool,
    pub wk_moved: bool,
    pub bk_moved: bool,
    pub lwr_moved: bool,
    pub rwr_moved: bool,
    pub lbr_moved: bool,
    pub rbr_moved: bool,
    pub white_captures: Seq<i32>,
    pub black_captures: Seq<i32>,
    pub move_info: MoveInfo,
    pub mode: Modes,
    pub game_started: bool,
    pub mode_screen: bool,
    pub last_en_passant: Seq<i32>,
    pub half_moves: u64,
}

impl View for Game {
    type V = GameView;

    open spec fn view(&self) -> GameView {
        GameView {
            board: self.board,
            game_state: self.game_state,
            round: self.round,
            debug: self.debug,
            wk_moved: self.wk_moved,
            bk_moved: self.bk_moved,
            lwr_moved: self.lwr_moved,
            rwr_moved: self.rwr_moved,
            lbr_moved: self.lbr_moved,
            rbr_moved: self.rbr_moved,
            white_captures: self.white_captures@,
            black_captures: self.black_captures@,
            move_info: self.move_info,
            mode: self.mode,
            game_started: self.game_started,
            mode_screen: self.mode_screen,
            last_en_passant: self.last_en_passant@,
            half_moves: self.half_moves,
        }
    }
}

/// The starting position: rooks, kings and pawns only.
pub open spec fn initial_board() -> Board {
    [
        [1, 0, 0, 0, 5, 0, 0, 1],
        [6, 6, 6, 6, 6, 6, 6, 6],
        [0, 0, 0, 0, 0, 0, 0, 0],
        [0, 0, 0, 0, 0, 0, 0, 0],
        [0, 0, 0, 0, 0, 0, 0, 0],
        [0, 0, 0, 0, 0, 0, 0, 0],
        [12, 12, 12, 12, 12, 12, 12, 12],
        [7, 0, 0, 0, 11, 0, 0, 7],
    ]
}

/// What the screen should show after a key was handled.
#[derive(Clone, Copy, Debug, PartialEq, Eq, Structural)]
pub enum KeyAction {
    /// Leave the key loop.
    Quit,
    /// Clear the screen and draw the board of the started game.
    ShowGame,
    ShowHelp,
    ShowStart,
    /// Read a move command and play it.
    Move,
    /// Redraw the information panel.
    ShowInfo,
    ShowModes,
    Nothing,
}

/// A new game started from `g`: the starting position, white to move, no
/// captures, no piece moved, no passed square and the first full move;
/// the mode, the debug switch and the mode screen stay as they were.
pub open spec fn restarted(g: GameView) -> GameView {
    GameView {
        board: initial_board(),
        game_state: GameState::Playing,
        round: Round::White,
        wk_moved: false,
        bk_moved: false,
        lwr_moved: false,
        rwr_moved: false,
        lbr_moved: false,
        rbr_moved: false,
        white_captures: Seq::<i32>::empty(),
        black_captures: Seq::<i32>::empty(),
        move_info: MoveInfo::Null,
        game_started: true,
        last_en_passant: Seq::<i32>::empty(),
        half_moves: 2,
        ..g
    }
}

/// The state and action that the key `key` leads to.
pub open spec fn key_step(g: GameView, key: char) -> (GameView, KeyAction) {
    if key == 'q' {
        (g, KeyAction::Quit)
    } else if key == 'r' {
        (restarted(g), KeyAction::ShowGame)
    } else if key == 'h' && !g.game_started {
        (g, KeyAction::ShowHelp)
    } else if key == 's' && !g.game_started {
        (g, KeyAction::ShowStart)
    } else if key == 'm' && g.game_started {
        (g, KeyAction::Move)
    } else if key == 'd' && g.game_started {
        (GameView { debug: !g.debug, ..g }, KeyAction::ShowInfo)
    } else if key == 'o' && !g.game_started {
        (GameView { mode_screen: true, ..g }, KeyAction::ShowModes)
    } else if key == 'n' && g.mode_screen && !g.game_started {
        (
            GameView {
                mode: if g.mode == Modes::PvP {
                    Modes::AI
                } else {
                    Modes::PvP
                },
                mode_screen: true,
                ..g
            },
            KeyAction::ShowModes,
        )
    } else {
        (g, KeyAction::Nothing)
    }
}

/// The piece a key picks on the promotion screen.
pub open spec fn promotion_key(key: char) -> Option<i32> {
    if key == 'R' || key == 'r' {
        Some(1)
    } else if key == 'N' || key == 'n' {
        Some(2)
    } else if key == 'B' || key == 'b' {
        Some(3)
    } else if key == 'Q' || key == 'q' {
        Some(4)
    } else {
        None
    }
}

/// The piece a key picks on the promotion screen: 1 rook (`R`), 2 knight
/// (`N`), 3 bishop (`B`), 4 queen (`Q`), in either case; other keys pick
/// nothing.
pub fn promotion_choice(key: char) -> (r: Option<i32>)
    ensures
        r == promotion_key(key),
{
    if key == 'R' || key == 'r' {
        Some(1)
    } else if key == 'N' || key == 'n' {
        Some(2)
    } else if key == 'B' || key == 'b' {
        Some(3)
    } else if key == 'Q' || key == 'q' {
        Some(4)
    } else {
        None
    }
}

/// One key typed into a move command: `q` or `e` ends the command, any
/// other character is appended to it.
pub fn command_key(command: &mut String, key: char) -> (done: bool)
    ensures
        done == (key == 'q' || key == 'e'),
        final(command)@ == if done {
            old(command)@
        } else {
            old(command)@.push(key)
        },
{
    if key == 'q' || key == 'e' {
        true
    } else {
        push_char(command, key);
        false
    }
}

impl Game {
    /// A new game at the starting position, white to move, against a human.
    pub fn new() -> (g: Game)
        ensures
            g@.board == initial_board(),
            g@.game_state == GameState::Playing,
            g@.round == Round::White,
            !g@.debug,
            !g@.wk_moved && !g@.bk_moved && !g@.lwr_moved && !g@.rwr_moved && !g@.lbr_moved
                && !g@.rbr_moved,
            g@.white_captures == Seq::<i32>::empty(),
            g@.black_captures == Seq::<i32>::empty(),
            g@.move_info == MoveInfo::Null,
            g@.mode == Modes::PvP,
            !g@.game_started,
            !g@.mode_screen,
            g@.last_en_passant == Seq::<i32>::empty(),
            g@.half_moves == 2,
    {
        Game {
            board: [
                [1, 0, 0, 0, 5, 0, 0, 1],
                [6, 6, 6, 6, 6, 6, 6, 6],
                [0, 0, 0, 0, 0, 0, 0, 0],
                [0, 0, 0, 0, 0, 0, 0, 0],
                [0, 0, 0, 0, 0, 0, 0, 0],
                [0, 0, 0, 0, 0, 0, 0, 0],
                [12, 12, 12, 12, 12, 12, 12, 12],
                [7, 0, 0, 0, 11, 0, 0, 7],
            ],
            game_state: GameState::Playing,
            round: Round::White,
            debug: false,
            wk_moved: false,
            bk_moved: false,
            lwr_moved: false,
            rwr_moved: false,
            lbr_moved: false,
            rbr_moved: false,
            white_captures: Vec::new(),
            black_captures: Vec::new(),
            move_info: MoveInfo::Null,
            mode: Modes::PvP,
            game_started: false,
            mode_screen: false,
            last_en_passant: Vec::new(),
            half_moves: 2,
        }
    }

    /// Starts a new game in place: the starting position with white to
    /// move, keeping the mode, the debug switch and the mode screen.
    pub fn restart(&mut self)
        ensures
            final(self)@ == restarted(old(self)@),
    {
        self.board = [
            [1, 0, 0, 0, 5, 0, 0, 1],
            [6, 6, 6, 6, 6, 6, 6, 6],
            [0, 0, 0, 0, 0, 0, 0, 0],
            [0, 0, 0, 0, 0, 0, 0, 0],
            [0, 0, 0, 0, 0, 0, 0, 0],
            [0, 0, 0, 0, 0, 0, 0, 0],
            [12, 12, 12, 12, 12, 12, 12, 12],
            [7, 0, 0, 0, 11, 0, 0, 7],
        ];
        self.game_state = GameState::Playing;
        self.round = Round::White;
        self.wk_moved = false;
        self.bk_moved = false;
        self.lwr_moved = false;
        self.rwr_moved = false;
        self.lbr_moved = false;
        self.rbr_moved = false;
        self.white_captures = Vec::new();
        self.black_captures = Vec::new();
        self.move_info = MoveInfo::Null;
        self.game_started = true;
        self.last_en_passant = Vec::new();
        self.half_moves = 2;
        assert(self@.white_captures =~= Seq::<i32>::empty());
        assert(self@.black_captures =~= Seq::<i32>::empty());
        assert(self@.last_en_passant =~= Seq::<i32>::empty());
    }

    /// Handles one key of the main loop: changes the state as the key asks
    /// and says what to show.
    pub fn handle_key(&mut self, key: char) -> (action: KeyAction)
        ensures
            (final(self)@, action) == key_step(old(self)@, key),
    {
        if key == 'q' {
            KeyAction::Quit
        } else if key == 'r' {
            self.restart();
            KeyAction::ShowGame
        } else if key == 'h' && !self.game_started {
            KeyAction::ShowHelp
        } else if key == 's' && !self.game_started {
            KeyAction::ShowStart
        } else if key == 'm' && self.game_started {
            KeyAction::Move
        } else if key == 'd' && self.game_started {
            self.debug = !self.debug;
            KeyAction::ShowInfo
        } else if key == 'o' && !self.game_started {
            self.mode_screen = true;
            KeyAction::ShowModes
        } else if key == 'n' && self.mode_screen && !self.game_started {
            if self.mode == Modes::PvP {
                self.mode = Modes::AI;
            } else {
                self.mode = Modes::PvP;
            }
            self.mode_screen = true;
            KeyAction::ShowModes
        } else {
            KeyAction::Nothing
        }
    }
}

} // verus!
