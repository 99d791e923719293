use tictactoe::board::{detect_draw, detect_win};
use tictactoe::game::{
    ChatMessageSource, EndState, FromBrowser, Game, Player, State,
    ToBrowser,
};

const LINES: [[usize; 3]; 8] = [
    [0, 1, 2],
    [3, 4, 5],
    [6, 7, 8],
    [0, 3, 6],
    [1, 4, 7],
    [2, 5, 8],
    [0, 4, 8],
    [2, 4, 6],
];

fn board_of(s: &str) -> Vec<char> {
    s.chars().collect()
}

fn two_player_game() -> Game {
    let (mut game, _rx) = Game::new("abc".to_string());
    game.add_player("Alice".to_string()).unwrap();
    game.add_player("Bob".to_string()).unwrap();
    game
}

fn assert_chat_dense(game: &Game) {
    for (i, m) in game.state.chat.iter().enumerate() {
        assert_eq!(m.id, i);
    }
}

#[test]
fn new_state_is_empty() {
    let s = State::new();
    assert_eq!(s.turn, 'X');
    assert!(s.winner.is_none());
    assert!(s.players.is_empty());
    assert_eq!(s.board, vec![' '; 9]);
    assert!(s.chat.is_empty());
}

#[test]
fn every_line_wins_for_its_team() {
    for team in ['X', 'O'] {
        for line in LINES.iter() {
            let mut board = vec![' '; 9];
            for &c in line.iter() {
                board[c] = team;
            }
            assert_eq!(detect_win(&board), Some(team));
            assert!(!detect_draw(&board));
        }
    }
}

#[test]
fn line_wins_among_other_marks() {
    let board = board_of("XXXOO    ");
    assert_eq!(detect_win(&board), Some('X'));
    let board = board_of("XXOXOOO X");
    assert_eq!(detect_win(&board), Some('O'));
}

#[test]
fn full_board_without_line_is_draw() {
    let board = board_of("XOXXOOOXX");
    assert!(detect_draw(&board));
    assert_eq!(detect_win(&board), None);
}

#[test]
fn empty_board_has_no_end() {
    let board = vec![' '; 9];
    assert_eq!(detect_win(&board), None);
    assert!(!detect_draw(&board));
}

#[test]
fn joins_take_teams_then_game_is_full() {
    let (mut game, _rx) = Game::new("g1".to_string());
    let alice = game.add_player("Alice".to_string()).unwrap();
    assert_eq!(alice.team, 'X');
    assert_eq!(alice.name, "Alice");
    assert_eq!(alice.wins, 0);
    let bob = game.add_player("Bob".to_string()).unwrap();
    assert_eq!(bob.team, 'O');
    let before = game.state.chat.len();
    assert_eq!(game.add_player("Carol".to_string()).unwrap_err(), "Game is full");
    assert_eq!(game.state.players.len(), 2);
    assert_eq!(game.state.chat.len(), before);
    assert_eq!(game.state.chat[0].text, "Alice (X) has joined the game");
    assert_eq!(game.state.chat[0].source, ChatMessageSource::System);
    assert_eq!(game.state.chat[1].text, "Bob (O) has joined the game");
}

#[test]
fn seat_freed_by_first_player_goes_to_next_joiner() {
    let mut game = two_player_game();
    game.remove_player('X');
    assert_eq!(game.state.players.len(), 1);
    assert_eq!(game.state.players[0].team, 'O');
    let carol = game.add_player("Carol".to_string()).unwrap();
    assert_eq!(carol.team, 'X');
}

#[test]
fn turn_alternates_with_each_move() {
    let mut game = two_player_game();
    assert_eq!(game.state.turn, 'X');
    game.take_turn('X', 0).unwrap();
    assert_eq!(game.state.turn, 'O');
    game.take_turn('O', 4).unwrap();
    assert_eq!(game.state.turn, 'X');
    game.take_turn('X', 8).unwrap();
    assert_eq!(game.state.turn, 'O');
}

#[test]
fn diagonal_win_scenario() {
    let mut game = two_player_game();
    game.take_turn('X', 0).unwrap();
    game.take_turn('O', 1).unwrap();
    game.take_turn('X', 4).unwrap();
    game.take_turn('O', 2).unwrap();
    game.take_turn('X', 8).unwrap();
    assert_eq!(detect_win(&game.state.board), Some('X'));
    assert_eq!(game.state.winner, Some(EndState::Win('X')));
    assert_eq!(game.state.players[0].wins, 1);
    assert_eq!(game.state.players[1].wins, 0);
    let n = game.state.chat.len();
    assert_eq!(game.state.chat[n - 2].text, "Played X at (3, 3).");
    assert_eq!(game.state.chat[n - 2].source, ChatMessageSource::Player('X'));
    assert_eq!(game.state.chat[n - 1].text, "Alice (X) wins!");
    assert_eq!(game.state.chat[n - 1].source, ChatMessageSource::System);
    assert_eq!(game.take_turn('O', 3).unwrap_err(), "Game is over");
    assert_eq!(game.take_turn('X', 3).unwrap_err(), "Game is over");
    assert_chat_dense(&game);
}

#[test]
fn move_text_gives_column_then_row() {
    let mut game = two_player_game();
    game.take_turn('X', 5).unwrap();
    assert_eq!(game.state.chat.last().unwrap().text, "Played X at (3, 2).");
    game.take_turn('O', 6).unwrap();
    assert_eq!(game.state.chat.last().unwrap().text, "Played O at (1, 3).");
}

#[test]
fn draw_scenario() {
    let mut game = two_player_game();
    for (team, cell) in [('X', 0), ('O', 1), ('X', 2), ('O', 4), ('X', 3), ('O', 5), ('X', 7), ('O', 6), ('X', 8)] {
        game.take_turn(team, cell).unwrap();
    }
    assert_eq!(game.state.winner, Some(EndState::Draw));
    assert_eq!(game.state.chat.last().unwrap().text, "It's a draw!");
    assert_eq!(game.state.players[0].wins, 0);
    assert_eq!(game.state.players[1].wins, 0);
    assert_chat_dense(&game);
}

fn snapshot(game: &Game) -> (Vec<char>, char, Option<EndState>, usize) {
    (game.state.board.clone(), game.state.turn, game.state.winner.clone(), game.state.chat.len())
}

#[test]
fn refused_moves_change_nothing() {
    let (mut game, _rx) = Game::new("g".to_string());
    game.add_player("Alice".to_string()).unwrap();
    let before = snapshot(&game);
    assert_eq!(game.take_turn('X', 0).unwrap_err(), "Not enough players");
    assert_eq!(snapshot(&game), before);

    game.add_player("Bob".to_string()).unwrap();
    let before = snapshot(&game);
    assert_eq!(game.take_turn('O', 0).unwrap_err(), "Not your turn");
    assert_eq!(snapshot(&game), before);
    assert_eq!(game.take_turn('Z', 0).unwrap_err(), "Invalid player");
    assert_eq!(snapshot(&game), before);

    game.take_turn('X', 0).unwrap();
    let before = snapshot(&game);
    assert_eq!(game.take_turn('O', 0).unwrap_err(), "Invalid move");
    assert_eq!(snapshot(&game), before);
    assert_eq!(game.take_turn('O', 9).unwrap_err(), "Invalid move");
    assert_eq!(
        game.handle_msg('O', FromBrowser::Move { space: 42 }),
        Err("Invalid move".to_string())
    );
    assert_eq!(snapshot(&game), before);
}

#[test]
fn rematch_resets_board_but_keeps_players_and_chat() {
    let mut game = two_player_game();
    for (team, cell) in [('X', 0), ('O', 1), ('X', 4), ('O', 2), ('X', 8)] {
        game.take_turn(team, cell).unwrap();
    }
    let chat_before: Vec<String> = game.state.chat.iter().map(|m| m.text.clone()).collect();
    assert_eq!(game.handle_msg('O', FromBrowser::Rematch), Ok(true));
    assert_eq!(game.state.board, vec![' '; 9]);
    assert!(game.state.winner.is_none());
    assert_eq!(game.state.turn, 'X');
    assert_eq!(game.state.players[0].team, 'X');
    assert_eq!(game.state.players[0].wins, 1);
    assert_eq!(game.state.players[1].team, 'O');
    assert_eq!(game.state.players[1].wins, 0);
    assert_eq!(game.state.chat.len(), chat_before.len() + 1);
    for (i, t) in chat_before.iter().enumerate() {
        assert_eq!(&game.state.chat[i].text, t);
    }
    assert_eq!(game.state.chat.last().unwrap().text, "Rematch!");
    assert_eq!(game.state.chat.last().unwrap().source, ChatMessageSource::Player('O'));
    game.take_turn('X', 0).unwrap();
}

#[test]
fn chat_ids_stay_dense_across_message_kinds() {
    let mut game = two_player_game();
    game.handle_msg('X', FromBrowser::ChatMsg { text: "hi".to_string() }).unwrap();
    game.handle_msg('O', FromBrowser::Move { space: 0 }).unwrap_err();
    game.handle_msg('X', FromBrowser::Move { space: 0 }).unwrap();
    game.handle_msg('O', FromBrowser::ChatMsg { text: "  ".to_string() }).unwrap_err();
    game.remove_player('O');
    game.add_player("Dan".to_string()).unwrap();
    game.handle_msg('X', FromBrowser::Rematch).unwrap();
    assert_eq!(game.state.chat.len(), 7);
    assert_chat_dense(&game);
}

#[test]
fn chat_keeps_text_and_refuses_blank() {
    let mut game = two_player_game();
    let n = game.state.chat.len();
    assert_eq!(
        game.handle_msg('O', FromBrowser::ChatMsg { text: "  hello ".to_string() }),
        Ok(true)
    );
    assert_eq!(game.state.chat[n].text, "  hello ");
    assert_eq!(game.state.chat[n].source, ChatMessageSource::Player('O'));
    assert_eq!(
        game.handle_msg('O', FromBrowser::ChatMsg { text: " \t\n".to_string() }),
        Err("Empty message".to_string())
    );
    assert_eq!(game.add_chat_message(ChatMessageSource::System, String::new()).unwrap_err(), "Empty message");
    assert_eq!(game.state.chat.len(), n + 1);
}

#[test]
fn leaving_player_is_announced_and_absent_team_is_ignored() {
    let mut game = two_player_game();
    game.remove_player('O');
    assert_eq!(game.state.players.len(), 1);
    assert_eq!(game.state.chat.last().unwrap().text, "Bob has left the game");
    let n = game.state.chat.len();
    game.remove_player('O');
    assert_eq!(game.state.chat.len(), n);
    assert_eq!(game.state.players.len(), 1);
}

#[test]
fn player_index_by_team() {
    let game = two_player_game();
    assert_eq!(game.get_player_index_by_team('X'), Some(0));
    assert_eq!(game.get_player_index_by_team('O'), Some(1));
    assert_eq!(game.get_player_index_by_team('Z'), None);
}

#[test]
fn player_label_shows_name_and_team() {
    let p = Player { team: 'O', name: "Bob".to_string(), wins: 3 };
    assert_eq!(p.label(), "Bob (O)");
}

#[test]
fn subscribers_see_the_same_final_state() {
    let mut game = two_player_game();
    let rx1 = game.state_changes.subscribe();
    let rx2 = game.state_changes.subscribe();
    for (team, cell) in [('X', 0), ('O', 1), ('X', 4), ('O', 2), ('X', 8)] {
        game.take_turn(team, cell).unwrap();
        game.broadcast_state();
    }
    let s1 = rx1.borrow().clone();
    let s2 = rx2.borrow().clone();
    assert_eq!(s1.board, game.state.board);
    assert_eq!(s2.board, game.state.board);
    assert_eq!(s1.winner, Some(EndState::Win('X')));
    assert_eq!(s2.winner, Some(EndState::Win('X')));
    assert_eq!(s1.chat.len(), game.state.chat.len());
    assert_eq!(s2.chat.len(), game.state.chat.len());
    let late = game.state_changes.subscribe();
    assert_eq!(late.borrow().board, game.state.board);
}

#[test]
fn joined_message_carries_state() {
    let game = two_player_game();
    let msg = ToBrowser::JoinedGame { token: game.id.clone(), team: 'X', state: game.state.clone() };
    match msg {
        ToBrowser::JoinedGame { token, team, state } => {
            assert_eq!(token, "abc");
            assert_eq!(team, 'X');
            assert_eq!(state.players.len(), 2);
        }
        _ => unreachable!(),
    }
}

#[test]
fn leave_tells_when_game_is_empty() {
    let mut game = two_player_game();
    assert!(!game.leave('X'));
    assert_eq!(game.state.players.len(), 1);
    assert!(!game.leave('X'));
    assert!(game.leave('O'));
    assert!(game.state.players.is_empty());
    assert_eq!(game.state.chat.last().unwrap().text, "Bob has left the game");
}
