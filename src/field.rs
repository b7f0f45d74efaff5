//! The session: one game, local or against a remote authority, driven once
//! per frame by the user interface.
use vstd::prelude::*;
use crate::board::{Cell, Player, CELLS};
use crate::codec::{ActionView, GameAction, ServerResponse, action_bytes, encode_action};
use crate::connection::Inbound;
use crate::game::{
    Game, GameStatus, MoveError, MoveOutcome, place_result,
};

verus! {

/// The settings kept between runs.
#[derive(Clone, Debug, PartialEq, Eq, Default)]
pub struct RenjuConfig {
    pub dark_mode: bool,
    pub connection_ip: String,
    pub username: String,
}

/// Where the connection to the authority stands.
#[derive(Clone, Debug, PartialEq, Eq)]
pub enum ConnectionState {
    Disconnected,
    Connecting,
    Connected,
    Failed(String),
}

/// What the user interface is told after a frame's messages are applied.
#[derive(Clone, Debug, PartialEq, Eq)]
pub enum SessionEvent {
    /// A move was placed; the winner, if it won.
    MoveApplied(usize, Player, Option<Player>),
    /// The authority reported a move that the local rules refuse.
    MoveRefused(usize, Player, MoveError),
    /// The authority named a winner.
    WinnerDeclared(Player),
    /// The authority refused a request, for the reason given.
    Rejected(String),
    GameReset,
    Disconnected,
}

/// What became of a move the user asked for.
#[derive(Clone, Debug, PartialEq, Eq)]
pub enum Submission {
    /// Bytes to send to the authority, which decides.
    Send(Vec<u8>),
    /// The move was played on the local board.
    Played(MoveOutcome),
}

/// The state of a session as the user interface sees it.
pub struct SessionModel {
    pub board: Seq<Cell>,
    pub status: GameStatus,
    pub connection: ConnectionState,
    pub online: bool,
}

/// One message from the receive task applied to the session: the new state
/// and the event reported, if any. The authority's word is trusted, but a
/// move it reports still goes through the local rules.
pub open spec fn apply_inbound(m: SessionModel, x: Inbound) -> (SessionModel, Option<SessionEvent>) {
    match x {
        Inbound::Response(ServerResponse::MoveApplied(i, p, _)) => {
            let (b, st, r) = place_result(m.board, m.status, i as int, p);
            match r {
                Ok(o) => (
                    SessionModel { board: b, status: st, ..m },
                    Some(SessionEvent::MoveApplied(i, p, o.winner)),
                ),
                Err(e) => (m, Some(SessionEvent::MoveRefused(i, p, e))),
            }
        },
        Inbound::Response(ServerResponse::Accepted(Some(w))) => (
            SessionModel { status: GameStatus::Finished(w), ..m },
            Some(SessionEvent::WinnerDeclared(w)),
        ),
        Inbound::Response(ServerResponse::Accepted(None)) => (m, None),
        Inbound::Response(ServerResponse::Rejected(reason)) => (
            m,
            Some(SessionEvent::Rejected(reason)),
        ),
        Inbound::Response(ServerResponse::Reset) => (
            SessionModel {
                board: crate::board::empty_board(),
                status: GameStatus::InProgress(Player::One),
                ..m
            },
            Some(SessionEvent::GameReset),
        ),
        Inbound::Disconnected(reason) => (
            SessionModel {
                status: GameStatus::Disconnected(reason),
                connection: ConnectionState::Disconnected,
                ..m
            },
            Some(SessionEvent::Disconnected),
        ),
    }
}

/// The messages `xs` applied in order: the final state and every event.
pub open spec fn apply_all(m: SessionModel, xs: Seq<Inbound>) -> (SessionModel, Seq<SessionEvent>)
    decreases xs.len(),
{
    if xs.len() == 0 {
        (m, seq![])
    } else {
        let (m1, e) = apply_inbound(m, xs[0]);
        let (m2, es) = apply_all(m1, xs.drop_first());
        match e {
            Some(ev) => (m2, seq![ev] + es),
            None => (m2, es),
        }
    }
}

/// The player whose mark a local move places: the one to move, or `One`
/// when nobody is (the move is then refused).
pub open spec fn mover(st: GameStatus) -> Player {
    match st {
        GameStatus::InProgress(p) => p,
        _ => Player::One,
    }
}

fn copy_connection(c: &ConnectionState) -> (r: ConnectionState)
    ensures
        r == *c,
{
    match c {
        ConnectionState::Disconnected => ConnectionState::Disconnected,
        ConnectionState::Connecting => ConnectionState::Connecting,
        ConnectionState::Connected => ConnectionState::Connected,
        ConnectionState::Failed(reason) => ConnectionState::Failed(reason.clone()),
    }
}

/// A session: the game, the connection's state, and the settings.
pub struct Renju {
    game: Game,
    connection: ConnectionState,
    online: bool,
    config: RenjuConfig,
}

impl View for Renju {
    type V = SessionModel;

    closed spec fn view(&self) -> SessionModel {
        SessionModel {
            board: self.game.board(),
            status: self.game.state(),
            connection: self.connection,
            online: self.online,
        }
    }
}

impl Renju {
    pub open spec fn wf(&self) -> bool {
        self@.board.len() == 225
    }

    /// The settings the session holds.
    pub closed spec fn settings(&self) -> RenjuConfig {
        self.config
    }

    /// A networked session that waits for its connection, with `config`.
    pub fn new(config: RenjuConfig) -> (r: Renju)
        ensures
            r.wf(),
            r@.board == crate::board::empty_board(),
            r@.status == GameStatus::WaitingForConnection,
            r@.connection == ConnectionState::Disconnected,
            r@.online,
            r.settings() == config,
    {
        Renju { game: Game::waiting(), connection: ConnectionState::Disconnected, online: true, config }
    }

    /// A session played on one screen, with `One` to move first.
    pub fn offline(config: RenjuConfig) -> (r: Renju)
        ensures
            r.wf(),
            r@.board == crate::board::empty_board(),
            r@.status == GameStatus::InProgress(Player::One),
            r@.connection == ConnectionState::Disconnected,
            !r@.online,
            r.settings() == config,
    {
        Renju { game: Game::new(), connection: ConnectionState::Disconnected, online: false, config }
    }

    /// A copy of the 225 cells.
    pub fn board_snapshot(&self) -> (r: Vec<Cell>)
        ensures
            r@ == self@.board,
    {
        self.game.board_snapshot()
    }

    /// The cell at `index`.
    pub fn cell(&self, index: usize) -> (r: Cell)
        requires
            self.wf(),
            index < CELLS,
        ensures
            r == self@.board[index as int],
    {
        self.game.cell(index)
    }

    /// The game's status.
    pub fn status(&self) -> (r: GameStatus)
        ensures
            r == self@.status,
    {
        self.game.status()
    }

    /// The connection's state.
    pub fn connection_state(&self) -> (r: ConnectionState)
        ensures
            r == self@.connection,
    {
        copy_connection(&self.connection)
    }

    /// The settings.
    pub fn config(&self) -> (r: &RenjuConfig)
        ensures
            *r == self.settings(),
    {
        &self.config
    }

    /// Whether moves go to a remote authority.
    pub fn is_online(&self) -> (r: bool)
        ensures
            r == self@.online,
    {
        self.online
    }
    fn apply_one(&mut self, x: Inbound) -> (r: Option<SessionEvent>)
        requires
            old(self).wf(),
        ensures
            final(self).wf(),
            final(self).settings() == old(self).settings(),
            (final(self)@, r) == apply_inbound(old(self)@, x),
    {
        match x {
            Inbound::Response(ServerResponse::MoveApplied(i, p, _)) => {
                match self.game.place(i, p) {
                    Ok(o) => Some(SessionEvent::MoveApplied(i, p, o.winner)),
                    Err(e) => Some(SessionEvent::MoveRefused(i, p, e)),
                }
            },
            Inbound::Response(ServerResponse::Accepted(Some(w))) => {
                self.game.declare_winner(w);
                Some(SessionEvent::WinnerDeclared(w))
            },
            Inbound::Response(ServerResponse::Accepted(None)) => None,
            Inbound::Response(ServerResponse::Rejected(reason)) => Some(
                SessionEvent::Rejected(reason),
            ),
            Inbound::Response(ServerResponse::Reset) => {
                self.game.reset();
                Some(SessionEvent::GameReset)
            },
            Inbound::Disconnected(reason) => {
                self.game.disconnect(reason);
                self.connection = ConnectionState::Disconnected;
                Some(SessionEvent::Disconnected)
            },
        }
    }

    /// Applies the messages that arrived since the last frame, in arrival
    /// order, and returns the events the user interface should show.
    pub fn handle_game_action(&mut self, inbound: Vec<Inbound>) -> (r: Vec<SessionEvent>)
        requires
            old(self).wf(),
        ensures
            final(self).wf(),
            final(self).settings() == old(self).settings(),
            (final(self)@, r@) == apply_all(old(self)@, inbound@),
    {
        let mut inbound = inbound;
        let ghost xs = inbound@;
        let mut events: Vec<SessionEvent> = Vec::new();
        let ghost mut k: int = 0;
        while inbound.len() > 0
            invariant
                self.wf(),
                self.settings() == old(self).settings(),
                0 <= k <= xs.len(),
                inbound@ == xs.subrange(k, xs.len() as int),
                ({
                    let (mf, es) = apply_all(self@, inbound@);
                    apply_all(old(self)@, xs) == (mf, events@ + es)
                }),
            decreases inbound@.len(),
        {
            let ghost before = self@;
            let ghost ev0 = events@;
            let ghost rest = inbound@;
            let x = inbound.remove(0);
            assert(rest.drop_first() == inbound@);
            let e = self.apply_one(x);
            proof {
                k = k + 1;
                assert(inbound@ =~= xs.subrange(k, xs.len() as int));
            }
            match e {
                Some(ev) => {
                    events.push(ev);
                    assert(events@ + apply_all(self@, inbound@).1 =~= ev0 + (seq![ev] + apply_all(
                        self@,
                        inbound@,
                    ).1));
                },
                None => {},
            }
        }
        assert(events@ + Seq::<SessionEvent>::empty() =~= events@);
        events
    }

    /// The user asks for a move at `index`. Online, the request goes to
    /// the authority as bytes to send, and nothing changes here; offline,
    /// the player to move places a mark at once.
    pub fn submit_move(&mut self, index: usize) -> (r: Result<Submission, MoveError>)
        requires
            old(self).wf(),
        ensures
            final(self).wf(),
            final(self).settings() == old(self).settings(),
            old(self)@.online ==> {
                &&& final(self)@ == old(self)@
                &&& match r {
                    Ok(Submission::Send(v)) => v@ == action_bytes(
                        ActionView::Move(index, old(self).settings().username@),
                    ),
                    _ => false,
                }
            },
            !old(self)@.online ==> {
                let (b, st, res) = place_result(
                    old(self)@.board,
                    old(self)@.status,
                    index as int,
                    mover(old(self)@.status),
                );
                &&& final(self)@ == SessionModel { board: b, status: st, ..old(self)@ }
                &&& match res {
                    Ok(o) => r == Ok::<Submission, MoveError>(Submission::Played(o)),
                    Err(e) => r == Err::<Submission, MoveError>(e),
                }
            },
    {
        if self.online {
            let m = GameAction::Move(index, self.config.username.clone());
            return Ok(Submission::Send(encode_action(&m)));
        }
        let p = match self.game.status() {
            GameStatus::InProgress(p) => p,
            _ => Player::One,
        };
        match self.game.place(index, p) {
            Ok(o) => Ok(Submission::Played(o)),
            Err(e) => Err(e),
        }
    }

    /// The user asks for a new game. Online, the bytes to send to the
    /// authority come back and nothing changes until it answers; offline,
    /// the board is cleared at once and `One` moves first.
    pub fn reset(&mut self) -> (r: Option<Vec<u8>>)
        requires
            old(self).wf(),
        ensures
            final(self).wf(),
            final(self).settings() == old(self).settings(),
            old(self)@.online ==> {
                &&& final(self)@ == old(self)@
                &&& r is Some
                &&& r->0@ == action_bytes(ActionView::Reset)
            },
            !old(self)@.online ==> {
                &&& r is None
                &&& final(self)@ == (SessionModel {
                    board: crate::board::empty_board(),
                    status: GameStatus::InProgress(Player::One),
                    ..old(self)@
                })
            },
    {
        if self.online {
            Some(encode_action(&GameAction::Reset))
        } else {
            self.game.reset();
            None
        }
    }

    /// The user asks to connect to `address` as `username`. Both are kept in
    /// the settings, the session goes online and waits for the connection,
    /// and the greeting to send once it opens comes back.
    pub fn submit_connect(&mut self, address: String, username: String) -> (r: Vec<u8>)
        requires
            old(self).wf(),
        ensures
            final(self).wf(),
            final(self)@.board == old(self)@.board,
            final(self)@.status == old(self)@.status,
            final(self)@.connection == ConnectionState::Connecting,
            final(self)@.online,
            final(self).settings() == (RenjuConfig {
                connection_ip: address,
                username: username,
                ..old(self).settings()
            }),
            r@ == action_bytes(ActionView::Connect(username@)),
    {
        let greeting = encode_action(&GameAction::Connect(username.clone()));
        self.config.connection_ip = address;
        self.config.username = username;
        self.connection = ConnectionState::Connecting;
        self.online = true;
        greeting
    }

    /// The connection opened: a fresh game starts, `One` to move.
    pub fn connection_opened(&mut self)
        requires
            old(self).wf(),
        ensures
            final(self).wf(),
            final(self).settings() == old(self).settings(),
            final(self)@ == (SessionModel {
                board: crate::board::empty_board(),
                status: GameStatus::InProgress(Player::One),
                connection: ConnectionState::Connected,
                ..old(self)@
            }),
    {
        self.game.reset();
        self.connection = ConnectionState::Connected;
    }

    /// The connection could not be opened, for `reason`.
    pub fn connection_failed(&mut self, reason: String)
        requires
            old(self).wf(),
        ensures
            final(self).wf(),
            final(self).settings() == old(self).settings(),
            final(self)@ == (SessionModel {
                status: GameStatus::Disconnected(reason),
                connection: ConnectionState::Failed(reason),
                ..old(self)@
            }),
    {
        self.connection = ConnectionState::Failed(reason.clone());
        self.game.disconnect(reason);
    }

    /// Switches between the dark and the light look.
    pub fn set_dark_mode(&mut self, dark: bool)
        ensures
            final(self)@ == old(self)@,
            final(self).settings() == (RenjuConfig { dark_mode: dark, ..old(self).settings() }),
    {
        self.config.dark_mode = dark;
    }
}

} // verus!
