//! The engine bridge: the non-blocking delivery channel, the exact
//! command text, and the bestmove line parser.

use chesscore::engine::{
    go_command, init_commands, parse_bestmove_line, position_command, u64_to_string, ChessEngine,
};

#[test]
fn test_try_receive_move_empty_returns_none() {
    // Nothing was ever sent: polling returns at once with nothing.
    let mut engine = ChessEngine::new();
    assert_eq!(engine.try_receive_move(), None);
    engine.begin_search();
    assert_eq!(engine.try_receive_move(), None);
}

#[test]
fn test_try_receive_move_delivers_awaited_move() {
    let mut engine = ChessEngine::new();
    let tx = engine.sender();
    engine.begin_search();
    tx.send(String::from("e2e4")).unwrap();
    assert_eq!(engine.try_receive_move(), Some(String::from("e2e4")));
    assert_eq!(engine.try_receive_move(), None);
}

#[test]
fn test_try_receive_move_survives_dropped_sender() {
    let mut engine = ChessEngine::new();
    let tx = engine.sender();
    engine.begin_search();
    tx.send(String::from("g8f6")).unwrap();
    drop(tx);
    // The reader thread being gone never blocks the poller.
    assert_eq!(engine.try_receive_move(), Some(String::from("g8f6")));
    assert_eq!(engine.try_receive_move(), None);
}

#[test]
fn test_stale_reply_is_discarded() {
    let mut engine = ChessEngine::new();
    let tx = engine.sender();
    // A search is submitted and then cancelled by an undo; its reply
    // arrives late, after a second search went out.
    engine.begin_search();
    engine.cancel_search();
    tx.send(String::from("e2e4")).unwrap();
    engine.begin_search();
    // The stale reply answers the first search and is discarded.
    assert_eq!(engine.try_receive_move(), None);
    // The reply to the second search is delivered.
    tx.send(String::from("d2d4")).unwrap();
    assert_eq!(engine.try_receive_move(), Some(String::from("d2d4")));
}

#[test]
fn test_cancelled_search_reply_never_delivered() {
    let mut engine = ChessEngine::new();
    let tx = engine.sender();
    engine.begin_search();
    engine.cancel_search();
    tx.send(String::from("e7e5")).unwrap();
    // With nothing awaited the poller hands out nothing.
    assert_eq!(engine.try_receive_move(), None);
    assert_eq!(engine.try_receive_move(), None);
}

#[test]
fn test_think_time() {
    let mut engine = ChessEngine::new();
    assert_eq!(engine.think_time(), 2000);
    engine.set_think_time(500);
    assert_eq!(engine.think_time(), 500);
    assert_eq!(engine.go_command_line(), "go movetime 500\n");
}

#[test]
fn test_init_commands_exact_text() {
    let cmds = init_commands(10);
    assert_eq!(cmds.len(), 7);
    assert_eq!(cmds[0], "uci\n");
    assert_eq!(cmds[1], "isready\n");
    assert_eq!(cmds[2], "setoption name Skill Level value 10\n");
    assert_eq!(cmds[3], "setoption name Threads value 4\n");
    assert_eq!(cmds[4], "setoption name Hash value 128\n");
    assert_eq!(cmds[5], "setoption name UCI_AnalyseMode value false\n");
    assert_eq!(cmds[6], "setoption name UCI_LimitStrength value false\n");
}

#[test]
fn test_position_and_go_commands() {
    assert_eq!(
        position_command("8/8/8/8/8/8/8/8 w - - 0 1"),
        "position fen 8/8/8/8/8/8/8/8 w - - 0 1\n"
    );
    assert_eq!(go_command(2000), "go movetime 2000\n");
    assert_eq!(go_command(0), "go movetime 0\n");
}

#[test]
fn test_u64_to_string() {
    assert_eq!(u64_to_string(0), "0");
    assert_eq!(u64_to_string(7), "7");
    assert_eq!(u64_to_string(12345), "12345");
    assert_eq!(u64_to_string(1000), "1000");
}

#[test]
fn test_parse_bestmove_line() {
    assert_eq!(
        parse_bestmove_line("bestmove e2e4"),
        Some(String::from("e2e4"))
    );
    assert_eq!(
        parse_bestmove_line("bestmove e7e8q ponder d2d4"),
        Some(String::from("e7e8q"))
    );
    assert_eq!(
        parse_bestmove_line("bestmove   g1f3"),
        Some(String::from("g1f3"))
    );
}

#[test]
fn test_parse_bestmove_line_ignores_other_lines() {
    assert_eq!(parse_bestmove_line("info depth 5 score cp 13"), None);
    assert_eq!(parse_bestmove_line("readyok"), None);
    assert_eq!(parse_bestmove_line(""), None);
    assert_eq!(parse_bestmove_line("bestmove"), None);
    assert_eq!(parse_bestmove_line("bestmove "), None);
    // The marker must be the whole first word.
    assert_eq!(parse_bestmove_line("bestmovee2e4 x"), None);
}
