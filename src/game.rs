use tokio::sync::watch;
use vstd::prelude::*;

use crate::board::{
    detect_draw, detect_win, empty_board, end_of, is_cell, is_full, is_team, lemma_empty_board_open,
    lemma_winner_is_team, other_team, winner_of, EMPTY, FIRST_TEAM, SECOND_TEAM,
};
use crate::text::{blank, is_blank};

verus! {

#[verifier::external_type_specification]
#[verifier::external_body]
#[verifier::reject_recursive_types(T)]
pub struct ExWatchSender<T>(watch::Sender<T>);

#[verifier::external_type_specification]
#[verifier::external_body]
#[verifier::reject_recursive_types(T)]
pub struct ExWatchReceiver<T>(watch::Receiver<T>);

/// Relies on `tokio::sync::watch::channel`: a channel whose current value is
/// `init`. What the channel holds is shared between its ends and changes
/// behind them, so nothing is stated of it here.
#[verifier::external_body]
fn open_channel(init: State) -> (r: (watch::Sender<State>, watch::Receiver<State>)) {
    watch::channel(init)
}

/// Relies on `tokio::sync::watch::Sender::send_replace`: stores `value` as
/// the channel's current value and wakes every receiver.
#[verifier::external_body]
fn publish(tx: &watch::Sender<State>, value: State) {
    tx.send_replace(value);
}

#[derive(Debug)]
pub struct Game {
    pub id: String,
    pub state: State,
    pub state_changes: watch::Sender<State>,
}

#[derive(Debug, Clone)]
pub struct State {
    pub turn: char,
    pub winner: Option<EndState>,
    pub players: Vec<Player>,
    pub board: Vec<char>,
    pub chat: Vec<ChatMessage>,
}

#[derive(Debug, Clone, PartialEq, Eq)]
pub enum EndState {
    Win(char),
    Draw,
}

#[derive(Debug, Clone)]
pub struct Player {
    pub team: char,
    pub name: String,
    pub wins: u64,
}

#[derive(Debug, Clone)]
pub struct ChatMessage {
    pub id: usize,
    pub source: ChatMessageSource,
    pub text: String,
}

#[derive(Debug, Clone, Copy, PartialEq, Eq)]
pub enum ChatMessageSource {
    Player(char),
    System,
}

/// A command sent by a player's browser.
#[derive(Debug, Clone)]
pub enum FromBrowser {
    ChatMsg { text: String },
    Move { space: usize },
    Rematch,
}

/// A message sent to a player's browser.
#[derive(Debug, Clone)]
pub enum ToBrowser {
    JoinedGame { token: String, team: char, state: State },
    GameState(State),
    Error(String),
}

/// The players hold distinct teams.
pub open spec fn teams_distinct(ps: Seq<Player>) -> bool {
    forall|i: int, j: int| 0 <= i < ps.len() && 0 <= j < ps.len() && i != j ==> ps[i].team != ps[j].team
}

pub open spec fn has_team(ps: Seq<Player>, t: char) -> bool {
    exists|i: int| 0 <= i < ps.len() && ps[i].team == t
}

/// The chat's ids are 0, 1, 2, ... in order.
pub open spec fn chat_dense(c: Seq<ChatMessage>) -> bool {
    forall|i: int| 0 <= i < c.len() ==> c[i].id == i
}

impl State {
    pub open spec fn wf(&self) -> bool {
        &&& self.board@.len() == 9
        &&& forall|i: int| 0 <= i < 9 ==> is_cell(self.board@[i])
        &&& is_team(self.turn)
        &&& self.players@.len() <= 2
        &&& forall|i: int| 0 <= i < self.players@.len() ==> is_team(#[trigger] self.players@[i].team)
        &&& teams_distinct(self.players@)
        &&& chat_dense(self.chat@)
        &&& self.winner == end_of(self.board@)
    }

    pub open spec fn is_initial(&self) -> bool {
        &&& self.turn == FIRST_TEAM
        &&& self.winner.is_none()
        &&& self.players@.len() == 0
        &&& self.board@ == empty_board()
        &&& self.chat@.len() == 0
    }

    pub fn new() -> (r: State)
        ensures
            r.wf(),
            r.is_initial(),
    {
        let board = empty_cells();
        proof {
            lemma_empty_board_open();
        }
        State { turn: FIRST_TEAM, winner: None, players: Vec::new(), board, chat: Vec::new() }
    }
}

/// The digit of a column or row number from 1 to 3.
pub open spec fn digit(n: int) -> char {
    if n == 1 {
        '1'
    } else if n == 2 {
        '2'
    } else {
        '3'
    }
}

/// How a player is shown: name and team.
pub open spec fn label_text(name: Seq<char>, t: char) -> Seq<char> {
    name + " ("@ + seq![t] + ")"@
}

pub open spec fn joined_text(name: Seq<char>, t: char) -> Seq<char> {
    label_text(name, t) + " has joined the game"@
}

pub open spec fn left_text(name: Seq<char>) -> Seq<char> {
    name + " has left the game"@
}

/// The move of `t` to `space`, with its column and row counted from 1.
pub open spec fn played_text(t: char, space: int) -> Seq<char> {
    "Played "@ + seq![t] + " at ("@ + seq![digit(space % 3 + 1)] + ", "@ + seq![digit(space / 3 + 1)]
        + ")."@
}

pub open spec fn wins_text(name: Seq<char>, t: char) -> Seq<char> {
    label_text(name, t) + " wins!"@
}

/// `new` is `old` followed by one message per entry of `added`, with the
/// given source and text, numbered on from `old`.
pub open spec fn chat_extends(
    new: Seq<ChatMessage>,
    old: Seq<ChatMessage>,
    added: Seq<(ChatMessageSource, Seq<char>)>,
) -> bool {
    &&& new.len() == old.len() + added.len()
    &&& forall|i: int| 0 <= i < old.len() ==> new[i] == old[i]
    &&& forall|i: int|
        old.len() <= i < new.len() ==> {
            &&& (#[trigger] new[i]).id == i
            &&& new[i].source == added[i - old.len()].0
            &&& new[i].text@ == added[i - old.len()].1
        }
}

/// The place of the player of team `t`.
pub open spec fn team_index(ps: Seq<Player>, t: char) -> int {
    choose|i: int| 0 <= i < ps.len() && ps[i].team == t
}

/// The team that a new player gets.
pub open spec fn free_team(ps: Seq<Player>) -> char {
    if ps.len() == 0 {
        FIRST_TEAM
    } else {
        other_team(ps.last().team)
    }
}

/// A win count after one more win; it stays put at the largest value.
pub open spec fn one_more(w: u64) -> u64 {
    if w < u64::MAX {
        (w + 1) as u64
    } else {
        w
    }
}

/// The players after team `t` has won.
pub open spec fn after_win(ps: Seq<Player>, t: char) -> Seq<Player> {
    ps.map_values(
        |p: Player|
            if p.team == t {
                Player { team: p.team, name: p.name, wins: one_more(p.wins) }
            } else {
                p
            },
    )
}

/// Why `team` may not play `space` now, if it may not.
pub open spec fn move_error(s: State, team: char, space: int) -> Option<Seq<char>> {
    if s.players@.len() < 2 {
        Some("Not enough players"@)
    } else if s.winner.is_some() {
        Some("Game is over"@)
    } else if !has_team(s.players@, team) {
        Some("Invalid player"@)
    } else if s.turn != team {
        Some("Not your turn"@)
    } else if !(0 <= space < 9) || s.board@[space] != EMPTY {
        Some("Invalid move"@)
    } else {
        None
    }
}

/// The messages that a move of `team` to `space` adds to the chat, given the
/// board after it.
pub open spec fn move_messages(ps: Seq<Player>, b: Seq<char>, team: char, space: int) -> Seq<
    (ChatMessageSource, Seq<char>),
> {
    let played = seq![(ChatMessageSource::Player(team), played_text(team, space))];
    match winner_of(b) {
        Some(w) => played.push(
            (ChatMessageSource::System, wins_text(ps[team_index(ps, w)].name@, w)),
        ),
        None => if is_full(b) {
            played.push((ChatMessageSource::System, "It's a draw!"@))
        } else {
            played
        },
    }
}



/// Two extensions of a chat, one after the other, are one extension.
proof fn lemma_chat_extends_trans(
    a: Seq<ChatMessage>,
    b: Seq<ChatMessage>,
    c: Seq<ChatMessage>,
    x: Seq<(ChatMessageSource, Seq<char>)>,
    y: Seq<(ChatMessageSource, Seq<char>)>,
)
    requires
        chat_extends(b, a, x),
        chat_extends(c, b, y),
    ensures
        chat_extends(c, a, x + y),
{
    assert forall|i: int| a.len() <= i < c.len() implies {
        &&& (#[trigger] c[i]).id == i
        &&& c[i].source == (x + y)[i - a.len()].0
        &&& c[i].text@ == (x + y)[i - a.len()].1
    } by {
        if i < b.len() {
            assert(b[i] == c[i]);
        }
    }
}

/// In a full game each team has its player.
proof fn lemma_full_game_has_team(ps: Seq<Player>, t: char)
    requires
        ps.len() == 2,
        forall|i: int| 0 <= i < ps.len() ==> is_team(#[trigger] ps[i].team),
        teams_distinct(ps),
        is_team(t),
    ensures
        has_team(ps, t),
{
    assert(ps[0].team != ps[1].team);
    if ps[0].team == t {
        assert(has_team(ps, t));
    } else {
        assert(ps[1].team == t);
        assert(has_team(ps, t));
    }
}

/// A fresh board of empty cells.
fn empty_cells() -> (r: Vec<char>)
    ensures
        r@ == empty_board(),
{
    let mut board: Vec<char> = Vec::new();
    let mut i: usize = 0;
    while i < 9
        invariant
            i <= 9,
            board@ == Seq::new(i as nat, |j: int| EMPTY),
        decreases 9 - i,
    {
        board.push(EMPTY);
        i = i + 1;
    }
    proof {
        assert(board@ =~= empty_board());
    }
    board
}

/// The one-letter text of a team.
fn team_str(t: char) -> (r: &'static str)
    requires
        is_team(t),
    ensures
        r@ == seq![t],
{
    proof {
        reveal_strlit("X");
        reveal_strlit("O");
    }
    if t == FIRST_TEAM {
        "X"
    } else {
        "O"
    }
}

/// The text of a digit from 1 to 3.
fn digit_str(n: usize) -> (r: &'static str)
    requires
        1 <= n <= 3,
    ensures
        r@ == seq![digit(n as int)],
{
    proof {
        reveal_strlit("1");
        reveal_strlit("2");
        reveal_strlit("3");
    }
    if n == 1 {
        "1"
    } else if n == 2 {
        "2"
    } else {
        "3"
    }
}

/// The chat text for a move of `t` to `space`.
fn played_message(t: char, space: usize) -> (r: String)
    requires
        is_team(t),
        space < 9,
    ensures
        r@ == played_text(t, space as int),
{
    let mut s = "Played ".to_owned();
    s.append(team_str(t));
    s.append(" at (");
    s.append(digit_str(space % 3 + 1));
    s.append(", ");
    s.append(digit_str(space / 3 + 1));
    s.append(").");
    s
}

impl Player {
    /// The player's name and team, as the chat shows them.
    pub fn label(&self) -> (r: String)
        requires
            is_team(self.team),
        ensures
            r@ == label_text(self.name@, self.team),
    {
        let mut s = self.name.clone();
        s.append(" (");
        s.append(team_str(self.team));
        s.append(")");
        s
    }
}

impl Game {
    pub open spec fn wf(&self) -> bool {
        self.state.wf()
    }

    /// `new` differs from `old` in its chat alone, by the messages `added`.
    pub open spec fn chatted(
        old: &Game,
        new: &Game,
        added: Seq<(ChatMessageSource, Seq<char>)>,
    ) -> bool {
        &&& new.id == old.id
        &&& new.state_changes == old.state_changes
        &&& new.state.turn == old.state.turn
        &&& new.state.winner == old.state.winner
        &&& new.state.players@ == old.state.players@
        &&& new.state.board@ == old.state.board@
        &&& chat_extends(new.state.chat@, old.state.chat@, added)
    }


    /// What `remove_player(team)` does to `old`.
    pub open spec fn player_removed(old: &Game, new: &Game, team: char) -> bool {
        if !has_team(old.state.players@, team) {
            *new == *old
        } else {
            let ps = old.state.players@;
            let i = team_index(ps, team);
            &&& new.id == old.id
            &&& new.state_changes == old.state_changes
            &&& new.state.turn == old.state.turn
            &&& new.state.winner == old.state.winner
            &&& new.state.board@ == old.state.board@
            &&& new.state.players@ == ps.remove(i)
            &&& chat_extends(
                new.state.chat@,
                old.state.chat@,
                seq![(ChatMessageSource::System, left_text(ps[i].name@))],
            )
        }
    }

    /// What a rematch asked for by `team` does to `old`.
    pub open spec fn rematched(old: &Game, new: &Game, team: char) -> bool {
        &&& new.id == old.id
        &&& new.state_changes == old.state_changes
        &&& new.state.board@ == empty_board()
        &&& new.state.turn == FIRST_TEAM
        &&& new.state.winner.is_none()
        &&& new.state.players@ == old.state.players@
        &&& chat_extends(
            new.state.chat@,
            old.state.chat@,
            seq![(ChatMessageSource::Player(team), "Rematch!"@)],
        )
    }

    /// What `handle_msg(team, msg)` on `old` gives.
    pub open spec fn handled(
        old: &Game,
        new: &Game,
        team: char,
        msg: FromBrowser,
        r: Result<bool, String>,
    ) -> bool {
        match msg {
            FromBrowser::ChatMsg { text } => if is_blank(text@) {
                r is Err && r->Err_0@ == "Empty message"@ && *new == *old
            } else {
                r == Ok::<bool, String>(true) && Game::chatted(
                    old,
                    new,
                    seq![(ChatMessageSource::Player(team), text@)],
                )
            },
            FromBrowser::Move { space } => {
                &&& r is Ok ==> r == Ok::<bool, String>(true)
                &&& Game::turn_taken(
                    old,
                    new,
                    team,
                    space as int,
                    match r {
                        Ok(_) => Ok(()),
                        Err(e) => Err(e),
                    },
                )
            },
            FromBrowser::Rematch => r == Ok::<bool, String>(true) && Game::rematched(old, new, team),
        }
    }

    /// What a call of `take_turn(team, space)` on `old` gives.
    pub open spec fn turn_taken(
        old: &Game,
        new: &Game,
        team: char,
        space: int,
        r: Result<(), String>,
    ) -> bool {
        match move_error(old.state, team, space) {
            Some(e) => r is Err && r->Err_0@ == e && *new == *old,
            None => {
                let b = old.state.board@.update(space, team);
                &&& r is Ok
                &&& new.id == old.id
                &&& new.state_changes == old.state_changes
                &&& new.state.board@ == b
                &&& new.state.turn == other_team(old.state.turn)
                &&& new.state.winner == end_of(b)
                &&& new.state.players@ == match winner_of(b) {
                    Some(w) => after_win(old.state.players@, w),
                    None => old.state.players@,
                }
                &&& chat_extends(
                    new.state.chat@,
                    old.state.chat@,
                    move_messages(old.state.players@, b, team, space),
                )
            },
        }
    }

    /// A new game under `id`, and a receiver of its published states.
    pub fn new(id: String) -> (r: (Game, watch::Receiver<State>))
        ensures
            r.0.id == id,
            r.0.wf(),
            r.0.state.is_initial(),
    {
        let state = State::new();
        let (tx, rx) = open_channel(state.clone());
        (Game { id, state, state_changes: tx }, rx)
    }

    /// Appends a message with the next id.
    fn push_chat(&mut self, source: ChatMessageSource, text: String)
        requires
            old(self).wf(),
        ensures
            final(self).wf(),
            Game::chatted(old(self), final(self), seq![(source, text@)]),
    {
        let id = self.state.chat.len();
        self.state.chat.push(ChatMessage { id, source, text });
        proof {
            let c = self.state.chat@;
            assert(c[id as int].id == id);
            assert(chat_dense(c));
        }
    }


    /// The place of the player of team `team`, if there is one.
    pub fn get_player_index_by_team(&self, team: char) -> (r: Option<usize>)
        requires
            self.wf(),
        ensures
            r is None <==> !has_team(self.state.players@, team),
            r matches Some(i) ==> i < self.state.players@.len() && self.state.players@[i as int].team
                == team && i == team_index(self.state.players@, team),
    {
        let mut i: usize = 0;
        while i < self.state.players.len()
            invariant
                self.wf(),
                i <= self.state.players@.len(),
                forall|j: int| 0 <= j < i ==> self.state.players@[j].team != team,
            decreases self.state.players@.len() - i,
        {
            if self.state.players[i].team == team {
                proof {
                    let ps = self.state.players@;
                    let k = team_index(ps, team);
                    assert(0 <= k < ps.len() && ps[k].team == team);
                }
                return Some(i);
            }
            i = i + 1;
        }
        None
    }

    /// Seats a player called `name` on the free team, unless the game is full.
    pub fn add_player(&mut self, name: String) -> (r: Result<Player, String>)
        requires
            old(self).wf(),
        ensures
            final(self).wf(),
            old(self).state.players@.len() >= 2 ==> r is Err && r->Err_0@ == "Game is full"@
                && *final(self) == *old(self),
            old(self).state.players@.len() < 2 ==> {
                let t = free_team(old(self).state.players@);
                &&& r is Ok
                &&& r->Ok_0 == Player { team: t, name: name, wins: 0 }
                &&& final(self).id == old(self).id
                &&& final(self).state_changes == old(self).state_changes
                &&& final(self).state.turn == old(self).state.turn
                &&& final(self).state.winner == old(self).state.winner
                &&& final(self).state.board@ == old(self).state.board@
                &&& final(self).state.players@ == old(self).state.players@.push(r->Ok_0)
                &&& chat_extends(
                    final(self).state.chat@,
                    old(self).state.chat@,
                    seq![(ChatMessageSource::System, joined_text(name@, t))],
                )
            },
    {
        if self.state.players.len() >= 2 {
            return Err("Game is full".to_owned());
        }
        let n = self.state.players.len();
        let team = if n == 0 {
            FIRST_TEAM
        } else if self.state.players[n - 1].team == FIRST_TEAM {
            SECOND_TEAM
        } else {
            FIRST_TEAM
        };
        let player = Player { team, name: name.clone(), wins: 0 };
        let mut text = player.label();
        text.append(" has joined the game");
        self.state.players.push(Player { team, name: name.clone(), wins: 0 });
        proof {
            let ps = self.state.players@;
            assert(teams_distinct(ps));
        }
        self.push_chat(ChatMessageSource::System, text);
        Ok(player)
    }

    /// Takes the player of team `team` out of the game, saying so in the chat;
    /// nothing happens when no player holds that team.
    pub fn remove_player(&mut self, team: char)
        requires
            old(self).wf(),
        ensures
            final(self).wf(),
            Game::player_removed(old(self), final(self), team),
    {
        match self.get_player_index_by_team(team) {
            None => {},
            Some(i) => {
                let mut text = self.state.players[i].name.clone();
                text.append(" has left the game");
                self.push_chat(ChatMessageSource::System, text);
                self.state.players.remove(i);
                proof {
                    let ps = self.state.players@;
                    assert(teams_distinct(ps));
                }
            },
        }
    }

    /// Frees the seat of team `team`, as `remove_player` does, and tells
    /// whether the game is left without players, when it is to be dropped.
    pub fn leave(&mut self, team: char) -> (r: bool)
        requires
            old(self).wf(),
        ensures
            final(self).wf(),
            Game::player_removed(old(self), final(self), team),
            r == (final(self).state.players@.len() == 0),
    {
        self.remove_player(team);
        self.state.players.len() == 0
    }

    /// Publishes a copy of the current state to every receiver.
    pub fn broadcast_state(&self) {
        publish(&self.state_changes, self.state.clone());
    }

    /// Plays `space` for `team` when the rules allow it; otherwise says why
    /// not and changes nothing.
    pub fn take_turn(&mut self, team: char, space: usize) -> (r: Result<(), String>)
        requires
            old(self).wf(),
        ensures
            final(self).wf(),
            Game::turn_taken(old(self), final(self), team, space as int, r),
    {
        if self.state.players.len() < 2 {
            return Err("Not enough players".to_owned());
        }
        if self.state.winner.is_some() {
            return Err("Game is over".to_owned());
        }
        if self.get_player_index_by_team(team).is_none() {
            return Err("Invalid player".to_owned());
        }
        if self.state.turn != team {
            return Err("Not your turn".to_owned());
        }
        if space >= 9 || self.state.board[space] != EMPTY {
            return Err("Invalid move".to_owned());
        }
        let ghost g0 = *self;
        self.state.board.set(space, team);
        self.state.turn = if self.state.turn == FIRST_TEAM {
            SECOND_TEAM
        } else {
            FIRST_TEAM
        };
        let played = played_message(team, space);
        let b = Ghost(self.state.board@);
        proof {
            lemma_winner_is_team(b@, 0);
        }
        match detect_win(&self.state.board) {
            Some(w) => {
                self.state.winner = Some(EndState::Win(w));
                proof {
                    lemma_full_game_has_team(self.state.players@, w);
                }
                let i = self.get_player_index_by_team(w).unwrap();
                let p = &self.state.players[i];
                let wins = if p.wins < u64::MAX {
                    p.wins + 1
                } else {
                    p.wins
                };
                let np = Player { team: p.team, name: p.name.clone(), wins };
                let mut won = np.label();
                won.append(" wins!");
                self.state.players.set(i, np);
                proof {
                    let ps = g0.state.players@;
                    assert(self.state.players@ =~= after_win(ps, w));
                    assert(teams_distinct(self.state.players@));
                }
                let ghost g1 = *self;
                self.push_chat(ChatMessageSource::Player(team), played);
                let ghost g2 = *self;
                self.push_chat(ChatMessageSource::System, won);
                proof {
                    lemma_chat_extends_trans(
                        g1.state.chat@,
                        g2.state.chat@,
                        self.state.chat@,
                        seq![(ChatMessageSource::Player(team), played_text(team, space as int))],
                        seq![(ChatMessageSource::System, wins_text(g0.state.players@[i as int].name@, w))],
                    );
                    assert(move_messages(g0.state.players@, b@, team, space as int) =~= seq![
                        (ChatMessageSource::Player(team), played_text(team, space as int)),
                        (ChatMessageSource::System, wins_text(g0.state.players@[i as int].name@, w)),
                    ]);
                }
            },
            None => {
                if detect_draw(&self.state.board) {
                    self.state.winner = Some(EndState::Draw);
                    let ghost g1 = *self;
                    self.push_chat(ChatMessageSource::Player(team), played);
                    let ghost g2 = *self;
                    self.push_chat(ChatMessageSource::System, "It's a draw!".to_owned());
                    proof {
                        lemma_chat_extends_trans(
                            g1.state.chat@,
                            g2.state.chat@,
                            self.state.chat@,
                            seq![(ChatMessageSource::Player(team), played_text(team, space as int))],
                            seq![(ChatMessageSource::System, "It's a draw!"@)],
                        );
                        assert(move_messages(g0.state.players@, b@, team, space as int) =~= seq![
                            (ChatMessageSource::Player(team), played_text(team, space as int)),
                            (ChatMessageSource::System, "It's a draw!"@),
                        ]);
                    }
                } else {
                    self.push_chat(ChatMessageSource::Player(team), played);
                }
            },
        }
        Ok(())
    }

    /// Starts the board afresh at the request of `team`; players keep their
    /// teams and wins, and the chat its history.
    fn rematch(&mut self, team: char)
        requires
            old(self).wf(),
        ensures
            final(self).wf(),
            Game::rematched(old(self), final(self), team),
    {
        self.push_chat(ChatMessageSource::Player(team), "Rematch!".to_owned());
        self.state.board = empty_cells();
        self.state.turn = FIRST_TEAM;
        self.state.winner = None;
        proof {
            lemma_empty_board_open();
        }
    }

    /// Applies a command of the player of team `team`. `Ok(true)` says that
    /// the state changed; an error says why the command was refused, and then
    /// nothing changed.
    pub fn handle_msg(&mut self, team: char, msg: FromBrowser) -> (r: Result<bool, String>)
        requires
            old(self).wf(),
        ensures
            final(self).wf(),
            Game::handled(old(self), final(self), team, msg, r),
    {
        match msg {
            FromBrowser::ChatMsg { text } => {
                match self.add_chat_message(ChatMessageSource::Player(team), text) {
                    Ok(()) => {},
                    Err(e) => {
                        return Err(e);
                    },
                }
            },
            FromBrowser::Move { space } => {
                match self.take_turn(team, space) {
                    Ok(()) => {},
                    Err(e) => {
                        return Err(e);
                    },
                }
            },
            FromBrowser::Rematch => {
                self.rematch(team);
            },
        }
        Ok(true)
    }

    /// Appends a chat message from `source`, unless `text` is blank.
    pub fn add_chat_message(&mut self, source: ChatMessageSource, text: String) -> (r: Result<
        (),
        String,
    >)
        requires
            old(self).wf(),
        ensures
            final(self).wf(),
            is_blank(text@) ==> r is Err && r->Err_0@ == "Empty message"@ && *final(self)
                == *old(self),
            !is_blank(text@) ==> r is Ok && Game::chatted(
                old(self),
                final(self),
                seq![(source, text@)],
            ),
    {
        if blank(text.as_str()) {
            return Err("Empty message".to_owned());
        }
        self.push_chat(source, text);
        Ok(())
    }
}


/// The turn passes to the other team with each accepted move: two accepted
/// moves in a row bring it back.
pub proof fn lemma_turn_alternates(
    g0: Game,
    g1: Game,
    g2: Game,
    t1: char,
    s1: int,
    t2: char,
    s2: int,
    r1: Result<(), String>,
    r2: Result<(), String>,
)
    requires
        g0.wf(),
        Game::turn_taken(&g0, &g1, t1, s1, r1),
        Game::turn_taken(&g1, &g2, t2, s2, r2),
        r1 is Ok,
        r2 is Ok,
    ensures
        g1.state.turn == other_team(g0.state.turn),
        g2.state.turn == g0.state.turn,
        t1 == g0.state.turn,
        t2 == g1.state.turn,
{
}

/// In every well-formed game the chat's ids are 0, 1, 2, ... in order.
pub proof fn lemma_chat_ids_dense(g: Game, i: int)
    requires
        g.wf(),
        0 <= i < g.state.chat@.len(),
    ensures
        g.state.chat@[i].id == i,
{
}

/// A refused move changes neither the board, nor the turn, nor the winner.
pub proof fn lemma_refused_move_changes_nothing(
    old: Game,
    new: Game,
    team: char,
    space: int,
    r: Result<(), String>,
)
    requires
        Game::turn_taken(&old, &new, team, space, r),
        r is Err,
    ensures
        new.state.board@ == old.state.board@,
        new.state.turn == old.state.turn,
        new.state.winner == old.state.winner,
{
}

/// A rematch empties the board, clears the winner and gives the turn to the
/// first team; players keep their teams and their wins, and the chat keeps
/// every earlier message.
pub proof fn lemma_rematch_resets_board(
    old: Game,
    new: Game,
    team: char,
    r: Result<bool, String>,
)
    requires
        Game::handled(&old, &new, team, FromBrowser::Rematch, r),
    ensures
        new.state.board@ == empty_board(),
        new.state.winner.is_none(),
        new.state.turn == FIRST_TEAM,
        new.state.players@.len() == old.state.players@.len(),
        forall|i: int|
            0 <= i < old.state.players@.len() ==> (#[trigger] new.state.players@[i]).team
                == old.state.players@[i].team && new.state.players@[i].wins
                == old.state.players@[i].wins,
        old.state.chat@.is_prefix_of(new.state.chat@),
{
}

} // verus!
