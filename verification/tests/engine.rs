use cc_driver::buffer::LogBuffer;
use cc_driver::engine::MatchEngine;
use cc_driver::process::{classify, ExitStatus, FailureKind, ProcessType};
use cc_driver::registry::{CallbackMessage, Entry, EventRegistry};
use cc_driver::request::GameParameters;
use cc_driver::response::GameStatusEnum;
use cc_driver::{conclude_pvp, conclude_solo};

fn solo_parameters(no_of_coins: u32) -> GameParameters {
    GameParameters { attackers: vec![], defenders: vec![], no_of_turns: 500, no_of_coins }
}

const PLAYER_EXIT: u64 = 10;
const SIM_EXIT: u64 = 11;
const PLAYER_LOG: u64 = 20;
const SIM_LOG: u64 = 21;

fn solo_engine(cap: usize) -> MatchEngine {
    let mut e = MatchEngine::new();
    e.register_exit_watch(PLAYER_EXIT, ProcessType::Runner).expect("register player exit");
    e.register_log_reader(PLAYER_LOG, ProcessType::Runner, cap).expect("register player log");
    e.register_exit_watch(SIM_EXIT, ProcessType::Simulator).expect("register sim exit");
    e.register_log_reader(SIM_LOG, ProcessType::Simulator, usize::MAX).expect("register sim log");
    e
}

#[test]
fn classification_of_exit_statuses() {
    assert_eq!(classify(ExitStatus::Success), None);
    assert_eq!(classify(ExitStatus::Failed(1)), Some(FailureKind::RuntimeFailure));
    assert_eq!(classify(ExitStatus::Failed(2)), Some(FailureKind::RuntimeFailure));
    assert_eq!(classify(ExitStatus::Failed(137)), Some(FailureKind::Timeout));
    assert_eq!(classify(ExitStatus::KilledBySignal(9)), Some(FailureKind::Timeout));
    assert_eq!(classify(ExitStatus::KilledBySignal(15)), Some(FailureKind::Timeout));
}

#[test]
fn unregister_is_total_exactly_once() {
    let mut r = EventRegistry::new();
    r.register(5, Entry::ExitWatch { tag: ProcessType::Runner }).expect("register");
    let taken = r.unregister(5).expect("first unregister");
    assert!(matches!(taken, Entry::ExitWatch { tag: ProcessType::Runner }));
    assert!(r.unregister(5).is_err());
    assert!(r.is_empty());
}

#[test]
fn duplicate_descriptor_is_refused() {
    let mut r = EventRegistry::new();
    r.register(5, Entry::ExitWatch { tag: ProcessType::Runner }).expect("register");
    let dup = r.register(
        5,
        Entry::LogReader { tag: ProcessType::Runner, buffer: LogBuffer::new(16) },
    );
    assert!(dup.is_err());
    assert!(r.unregister(5).is_ok());
}

#[test]
fn dispatch_reacts_by_entry_kind() {
    let e = solo_engine(64);
    assert_eq!(e.dispatch(PLAYER_EXIT, true, false), CallbackMessage::HandleExplicitly(PLAYER_EXIT));
    assert_eq!(e.dispatch(PLAYER_LOG, true, false), CallbackMessage::Nop);
    assert_eq!(e.dispatch(PLAYER_LOG, true, true), CallbackMessage::Unregister(PLAYER_LOG));
    assert_eq!(e.dispatch(999, true, true), CallbackMessage::Nop);
}

#[test]
fn cascade_kill_is_idempotent() {
    let mut e = solo_engine(64);
    let mut kills = e.kill_sweep();
    kills.sort();
    assert_eq!(kills, vec![PLAYER_EXIT, SIM_EXIT]);
    let again = e.kill_sweep();
    assert!(again.is_empty());
    assert!(!e.is_empty());
    e.finalize_log(PLAYER_LOG).expect("player log");
    e.finalize_log(SIM_LOG).expect("sim log");
    assert!(e.is_empty());
}

#[test]
fn log_buffer_truncates_exactly_at_cap() {
    let mut e = solo_engine(5);
    assert!(e.append_log(PLAYER_LOG, b"abc"));
    assert!(e.append_log(PLAYER_LOG, b"defgh"));
    assert!(e.append_log(PLAYER_LOG, b"ijk"));
    assert!(!e.append_log(PLAYER_EXIT, b"zzz"));
    e.finalize_log(PLAYER_LOG).expect("finalize");
    e.report_exit(PLAYER_EXIT, ExitStatus::Success).expect("player exit");
    e.report_exit(SIM_EXIT, ExitStatus::Success).expect("sim exit");
    e.finalize_log(SIM_LOG).expect("finalize sim");
    assert!(e.is_empty());
    let (outputs, failures) = e.into_parts();
    assert!(failures.is_empty());
    assert_eq!(outputs[0].tag, ProcessType::Runner);
    assert_eq!(outputs[0].data, b"abcde".to_vec());
}

#[test]
fn simulator_success_first_lets_player_drain() {
    let mut e = solo_engine(64);
    let kills = e.report_exit(SIM_EXIT, ExitStatus::Success).expect("sim exit");
    assert!(kills.is_empty());
    assert!(!e.is_empty());
    e.finalize_log(SIM_LOG).expect("sim log");
    assert!(e.append_log(PLAYER_LOG, b"still running\n"));
    e.report_exit(PLAYER_EXIT, ExitStatus::Success).expect("player exit");
    e.finalize_log(PLAYER_LOG).expect("player log");
    assert!(e.is_empty());
}

#[test]
fn solo_happy_path_reports_executed() {
    let mut e = solo_engine(64);
    assert!(e.append_log(SIM_LOG, b"TURN, 1\nCOINS, 1000\nDESTRUCTION, 0.0%"));
    e.report_exit(PLAYER_EXIT, ExitStatus::Success).expect("player exit");
    e.finalize_log(PLAYER_LOG).expect("player log");
    e.report_exit(SIM_EXIT, ExitStatus::Success).expect("sim exit");
    e.finalize_log(SIM_LOG).expect("sim log");
    assert!(e.is_empty());
    let (outputs, failures) = e.into_parts();
    let r = conclude_solo(solo_parameters(1000), "g".to_owned(), outputs, failures);
    assert_eq!(r.game_status, GameStatusEnum::EXECUTED);
    let g = r.game_result.expect("result");
    assert!(!g.has_errors);
    assert_eq!(g.coins_used, 0);
    assert_eq!(g.destruction_percentage, b"0.0".to_vec());
    assert_eq!(g.log, b"TURN, 1\nCOINS, 1000\nDESTRUCTION, 0.0%\n".to_vec());
}

#[test]
fn solo_runtime_failure_cascades_and_reports() {
    let mut e = solo_engine(64);
    assert!(e.append_log(PLAYER_LOG, b"panic: bad access"));
    let kills = e.report_exit(PLAYER_EXIT, ExitStatus::Failed(1)).expect("player exit");
    assert_eq!(kills, vec![SIM_EXIT]);
    e.finalize_log(PLAYER_LOG).expect("player log");
    e.finalize_log(SIM_LOG).expect("sim log");
    assert!(e.is_empty());
    let (outputs, failures) = e.into_parts();
    assert_eq!(failures.len(), 1);
    let r = conclude_solo(solo_parameters(1000), "g".to_owned(), outputs, failures);
    assert_eq!(r.game_status, GameStatusEnum::EXECUTE_ERROR);
    let g = r.game_result.expect("result");
    assert!(g.has_errors);
    assert_eq!(
        g.log,
        b"ERRORS, ERROR TYPE: Runtime Error!\nERRORS, ERROR LOG:\nERRORS, panic: bad access\n"
            .to_vec()
    );
}

#[test]
fn solo_timeout_reports_timeout_regardless_of_output() {
    let mut e = solo_engine(64);
    assert!(e.append_log(PLAYER_LOG, b"got quite far already"));
    let kills = e.report_exit(PLAYER_EXIT, ExitStatus::Failed(137)).expect("player exit");
    assert_eq!(kills, vec![SIM_EXIT]);
    e.finalize_log(PLAYER_LOG).expect("player log");
    e.finalize_log(SIM_LOG).expect("sim log");
    assert!(e.is_empty());
    let (outputs, failures) = e.into_parts();
    let r = conclude_solo(solo_parameters(1000), "g".to_owned(), outputs, failures);
    assert_eq!(r.game_status, GameStatusEnum::EXECUTE_ERROR);
    let g = r.game_result.expect("result");
    assert!(g.log.starts_with(b"ERRORS, ERROR TYPE: Timeout Error!\n"));
}

#[test]
fn simulator_failure_is_reported_against_the_runner() {
    let mut e = solo_engine(64);
    let kills = e.report_exit(SIM_EXIT, ExitStatus::Failed(3)).expect("sim exit");
    assert_eq!(kills, vec![PLAYER_EXIT]);
    e.finalize_log(PLAYER_LOG).expect("player log");
    e.finalize_log(SIM_LOG).expect("sim log");
    let (outputs, failures) = e.into_parts();
    let r = conclude_solo(solo_parameters(1000), "g".to_owned(), outputs, failures);
    assert_eq!(r.game_status, GameStatusEnum::EXECUTE_ERROR);
    let g = r.game_result.expect("result");
    assert_eq!(
        g.log,
        b"ERRORS, ERROR TYPE: Runtime Error!\nERRORS, ERROR LOG:\nERRORS, couldnt communicate with simulator check syntax\n".to_vec()
    );
}

const P1_EXIT: u64 = 30;
const P2_EXIT: u64 = 31;
const PVP_SIM_EXIT: u64 = 32;
const P1_LOG: u64 = 40;
const P2_LOG: u64 = 41;
const PVP_SIM_LOG: u64 = 42;

fn pvp_engine() -> MatchEngine {
    let mut e = MatchEngine::new();
    e.register_exit_watch(P1_EXIT, ProcessType::RunnerPlayer1).expect("p1 exit");
    e.register_log_reader(P1_LOG, ProcessType::RunnerPlayer1, 64).expect("p1 log");
    e.register_exit_watch(P2_EXIT, ProcessType::RunnerPlayer2).expect("p2 exit");
    e.register_log_reader(P2_LOG, ProcessType::RunnerPlayer2, 64).expect("p2 log");
    e.register_exit_watch(PVP_SIM_EXIT, ProcessType::Simulator).expect("sim exit");
    e.register_log_reader(PVP_SIM_LOG, ProcessType::Simulator, usize::MAX).expect("sim log");
    e
}

#[test]
fn versus_player2_failure_mid_match() {
    let mut e = pvp_engine();
    assert!(e.append_log(P2_LOG, b"index out of range"));
    let mut kills = e.report_exit(P2_EXIT, ExitStatus::Failed(2)).expect("p2 exit");
    kills.sort();
    assert_eq!(kills, vec![P1_EXIT, PVP_SIM_EXIT]);
    e.finalize_log(P1_LOG).expect("p1 log");
    e.finalize_log(P2_LOG).expect("p2 log");
    e.finalize_log(PVP_SIM_LOG).expect("sim log");
    assert!(e.is_empty());
    let (outputs, failures) = e.into_parts();
    let r = conclude_pvp(solo_parameters(500), "g".to_owned(), outputs, failures);
    assert_eq!(r.game_status, GameStatusEnum::EXECUTE_ERROR);
    let g1 = r.game_result_player1.expect("player1 result");
    let g2 = r.game_result_player2.expect("player2 result");
    assert!(!g1.has_errors);
    assert!(g2.has_errors);
    assert_eq!(
        g1.log,
        b"ERRORS, ERROR TYPE: Runtime Error!\nERRORS, ERROR LOG:\nERRORS, the other player threw an error\n".to_vec()
    );
    assert_eq!(
        g2.log,
        b"ERRORS, ERROR TYPE: Runtime Error!\nERRORS, ERROR LOG:\nERRORS, index out of range\n"
            .to_vec()
    );
}

#[test]
fn versus_happy_path_maps_outputs_by_tag() {
    let mut e = pvp_engine();
    assert!(e.append_log(PVP_SIM_LOG, b"TURN, 1\nCOINS, 400\nDELIMITER\nTURN, 1\nCOINS, 300"));
    e.report_exit(P1_EXIT, ExitStatus::Success).expect("p1 exit");
    e.report_exit(P2_EXIT, ExitStatus::Success).expect("p2 exit");
    e.report_exit(PVP_SIM_EXIT, ExitStatus::Success).expect("sim exit");
    e.finalize_log(PVP_SIM_LOG).expect("sim log");
    e.finalize_log(P2_LOG).expect("p2 log");
    e.finalize_log(P1_LOG).expect("p1 log");
    assert!(e.is_empty());
    let (outputs, failures) = e.into_parts();
    assert!(failures.is_empty());
    let r = conclude_pvp(solo_parameters(500), "g".to_owned(), outputs, failures);
    assert_eq!(r.game_status, GameStatusEnum::EXECUTED);
    let g1 = r.game_result_player1.expect("player1 result");
    let g2 = r.game_result_player2.expect("player2 result");
    assert_eq!(g1.log, b"TURN, 1\nCOINS, 400\n".to_vec());
    assert_eq!(g1.coins_used, 100);
    assert_eq!(g2.log, b"TURN, 1\nCOINS, 300\n".to_vec());
    assert_eq!(g2.coins_used, 200);
}

#[test]
fn log_truncation_still_reports_executed() {
    let cap: usize = 16;
    let mut e = solo_engine(cap);
    for _ in 0..10 {
        assert!(e.append_log(PLAYER_LOG, &vec![b'x'; cap]));
    }
    e.report_exit(PLAYER_EXIT, ExitStatus::Success).expect("player exit");
    e.finalize_log(PLAYER_LOG).expect("player log");
    assert!(e.append_log(SIM_LOG, b"TURN, 1\nCOINS, 1000\nDESTRUCTION, 0.0%"));
    e.report_exit(SIM_EXIT, ExitStatus::Success).expect("sim exit");
    e.finalize_log(SIM_LOG).expect("sim log");
    assert!(e.is_empty());
    let (outputs, failures) = e.into_parts();
    assert_eq!(outputs[0].data.len(), cap);
    let r = conclude_solo(solo_parameters(1000), "g".to_owned(), outputs, failures);
    assert_eq!(r.game_status, GameStatusEnum::EXECUTED);
}
