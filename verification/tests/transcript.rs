use cc_driver::response::{GameResult, GameStatus, GameStatusEnum};
use cc_driver::request::GameParameters;
use cc_driver::error::SimulatorError;
use cc_driver::{
    conclude_pvp_init_failure, create_error_response, create_executing_response,
    create_final_pvp_response, create_final_response, create_pvp_error_response,
    get_turnwise_logs,
};

#[test]
fn turnwise_logs_test() {
    let logs = r#"
            TURN 1
            Bug is here
            No it's here
            ENDLOG
            Nothing
            TURN 100
            Nope, it's been here the whole time
            ENDLOG
            Useless
            "#;
    let mut expected_result = vec![
        (
            1u64,
            vec![b"Bug is here".to_vec(), b"No it's here".to_vec()],
        ),
        (
            100u64,
            vec![b"Nope, it's been here the whole time".to_vec()],
        ),
    ];
    expected_result.sort();

    let mut turnwise_logs = get_turnwise_logs(logs.as_bytes()).into_entries();
    turnwise_logs.sort();

    assert_eq!(turnwise_logs, expected_result);
}

#[test]
fn create_final_response_test() {
    let player_logs = r#"
            TURN 1
            Bug is here
            No it's here
            ENDLOG
            Nothing
            TURN 100
            Nope, it's been here the whole time
            ENDLOG
            Useless
            "#;
    let simulator_logs = r#"TURN, 1
            COINS, 100
            DESTRUCTION, 20.0%
            TURN, 3
            COINS, 100
            DESTRUCTION, 20.0%
            TURN, 100
            DESTRUCTION, 75.0%
            COINS, 10"#;
    let parameters = GameParameters {
        attackers: vec![],
        defenders: vec![],
        no_of_turns: 500,
        no_of_coins: 500,
    };

    let tot_coins = parameters.no_of_coins;
    let result = create_final_response(
        parameters,
        "1".to_owned(),
        player_logs.as_bytes().to_vec(),
        simulator_logs.as_bytes().to_vec(),
    );

    let expected_game_status = GameStatus::new_normal(
        "1".to_owned(),
        GameStatusEnum::EXECUTED,
        Some(GameResult {
            destruction_percentage: b"75.0".to_vec(),
            coins_used: (tot_coins - 10) as u64,
            has_errors: false,
            log: b"TURN, 1\nPRINT, Bug is here\nPRINT, No it's here\nCOINS, 100\nDESTRUCTION, 20.0%\nTURN, 3\nCOINS, 100\nDESTRUCTION, 20.0%\nTURN, 100\nPRINT, Nope, it's been here the whole time\nDESTRUCTION, 75.0%\nCOINS, 10\n".to_vec(),
        }),
    );

    assert_eq!(expected_game_status, result);
}

#[test]
fn pvp_final_response_splits_on_delimiter() {
    let player1_logs = "TURN 1\nfirst move\nENDLOG\n";
    let player2_logs = "TURN 1\nsecond move\nENDLOG\n";
    let simulator_logs =
        "TURN, 1\nCOINS, 400\nDESTRUCTION, 10.5%\nDELIMITER\nTURN, 1\nCOINS, 300\nDESTRUCTION, 80.0%\n";
    let parameters = GameParameters {
        attackers: vec![],
        defenders: vec![],
        no_of_turns: 500,
        no_of_coins: 500,
    };

    let result = create_final_pvp_response(
        parameters,
        "g".to_owned(),
        player1_logs.as_bytes().to_vec(),
        player2_logs.as_bytes().to_vec(),
        simulator_logs.as_bytes().to_vec(),
    );

    assert_eq!(result.game_status, GameStatusEnum::EXECUTED);
    assert_eq!(result.game_result, None);
    let g1 = result.game_result_player1.expect("player1 result");
    let g2 = result.game_result_player2.expect("player2 result");
    assert_eq!(
        g1.log,
        b"TURN, 1\nPRINT, first move\nCOINS, 400\nDESTRUCTION, 10.5%\n".to_vec()
    );
    assert_eq!(g1.coins_used, 100);
    assert_eq!(g1.destruction_percentage, b"10.5".to_vec());
    assert!(!g1.has_errors);
    assert_eq!(
        g2.log,
        b"TURN, 1\nPRINT, second move\nCOINS, 300\nDESTRUCTION, 80.0%\n".to_vec()
    );
    assert_eq!(g2.coins_used, 200);
    assert_eq!(g2.destruction_percentage, b"80.0".to_vec());
    assert!(!g2.has_errors);
}

#[test]
fn executing_response_reports_executing() {
    let r = create_executing_response(&"abc".to_owned());
    assert_eq!(r.game_id, "abc".to_owned());
    assert_eq!(r.game_status, GameStatusEnum::EXECUTING);
    assert_eq!(r.game_result, None);
    assert_eq!(r.game_result_player1, None);
    assert_eq!(r.game_result_player2, None);
}

#[test]
fn error_response_formats_runtime_error() {
    let r = create_error_response(
        "g".to_owned(),
        SimulatorError::RuntimeError(b"panic: bad access".to_vec()),
    );
    assert_eq!(r.game_status, GameStatusEnum::EXECUTE_ERROR);
    let g = r.game_result.expect("result");
    assert!(g.has_errors);
    assert_eq!(g.coins_used, 0);
    assert_eq!(g.destruction_percentage, b"0.0".to_vec());
    assert_eq!(
        g.log,
        b"ERRORS, ERROR TYPE: Runtime Error!\nERRORS, ERROR LOG:\nERRORS, panic: bad access\n"
            .to_vec()
    );
}

#[test]
fn error_response_formats_each_class() {
    let cases: Vec<(SimulatorError, &str)> = vec![
        (
            SimulatorError::CompilationError(b"x".to_vec()),
            "Compilation Error!",
        ),
        (
            SimulatorError::FifoCreationError(b"x".to_vec()),
            "Process Communication Error!",
        ),
        (
            SimulatorError::UnidentifiedError(b"x".to_vec()),
            "Unidentified Error. Contact the POCs!",
        ),
        (SimulatorError::TimeOutError(b"x".to_vec()), "Timeout Error!"),
        (
            SimulatorError::EpollError(b"x".to_vec()),
            "Event Creation Error!",
        ),
        (
            SimulatorError::RabbitMqError(b"x".to_vec()),
            "RabbitMq Error!",
        ),
    ];
    for (err, class) in cases {
        let r = create_error_response("g".to_owned(), err);
        let g = r.game_result.expect("result");
        let expected = format!("ERRORS, ERROR TYPE: {class}\nERRORS, ERROR LOG:\nERRORS, x\n");
        assert_eq!(g.log, expected.as_bytes().to_vec());
    }
}

#[test]
fn error_response_prefixes_every_payload_line() {
    let r = create_error_response(
        "g".to_owned(),
        SimulatorError::RuntimeError(b"one\ntwo\nthree".to_vec()),
    );
    let g = r.game_result.expect("result");
    assert_eq!(
        g.log,
        b"ERRORS, ERROR TYPE: Runtime Error!\nERRORS, ERROR LOG:\nERRORS, one\nERRORS, two\nERRORS, three\n".to_vec()
    );
}

#[test]
fn pvp_init_failure_blames_the_right_player() {
    let r = conclude_pvp_init_failure(
        "g".to_owned(),
        true,
        b"expected ; at line 3".to_vec(),
    );
    assert_eq!(r.game_status, GameStatusEnum::EXECUTE_ERROR);
    assert_eq!(r.game_result, None);
    let g1 = r.game_result_player1.expect("player1 result");
    let g2 = r.game_result_player2.expect("player2 result");
    assert!(g1.has_errors);
    assert!(!g2.has_errors);
    assert_eq!(
        g1.log,
        b"ERRORS, ERROR TYPE: Compilation Error!\nERRORS, ERROR LOG:\nERRORS, expected ; at line 3\n".to_vec()
    );
    assert_eq!(
        g2.log,
        b"ERRORS, ERROR TYPE: Compilation Error!\nERRORS, ERROR LOG:\nERRORS, Other player couldnt compile\n".to_vec()
    );

    let flipped = conclude_pvp_init_failure("g".to_owned(), false, b"boom".to_vec());
    let f1 = flipped.game_result_player1.expect("player1 result");
    let f2 = flipped.game_result_player2.expect("player2 result");
    assert!(!f1.has_errors);
    assert!(f2.has_errors);
}

#[test]
fn pvp_error_response_flags_the_failed_player() {
    let r = create_pvp_error_response(
        "g".to_owned(),
        SimulatorError::CompilationError(b"expected ; at line 3".to_vec()),
        SimulatorError::CompilationError(b"Other player couldnt compile".to_vec()),
        true,
        false,
    );
    assert_eq!(r.game_status, GameStatusEnum::EXECUTE_ERROR);
    assert_eq!(r.game_result, None);
    let g1 = r.game_result_player1.expect("player1 result");
    let g2 = r.game_result_player2.expect("player2 result");
    assert!(g1.has_errors);
    assert!(!g2.has_errors);
    assert_eq!(
        g1.log,
        b"ERRORS, ERROR TYPE: Compilation Error!\nERRORS, ERROR LOG:\nERRORS, expected ; at line 3\n".to_vec()
    );
    assert_eq!(
        g2.log,
        b"ERRORS, ERROR TYPE: Compilation Error!\nERRORS, ERROR LOG:\nERRORS, Other player couldnt compile\n".to_vec()
    );
}
