//! Driver library for a game-execution worker: it models the event registry
//! that multiplexes child-process exit and log descriptors, the bounded log
//! buffers, the failure-cascade policy, and the assembly of status responses.
use vstd::prelude::*;

pub mod buffer;
pub mod engine;
pub mod error;
pub mod process;
pub mod registry;
pub mod request;
pub mod response;
pub mod runner;
pub mod text;
pub mod turnlog;
pub mod wire;

use engine::{Failure, ProcessLog};
use error::SimulatorError;
use process::{FailureKind, ProcessType};
use request::GameParameters;
use response::GameStatus;
use text::{
    after_prefix, ascii, has_prefix, lines_of, parse_u64, parsed_u64, split_lines, starts_with,
    str_to_bytes, strip_prefix, trim, trimmed,
};
use turnlog::TurnLogs;

verus! {

/// The prefix a player's stderr uses to open a per-turn block.
pub open spec fn turn_block_prefix() -> Seq<u8> {
    ascii("TURN "@)
}

/// The prefix a player's stderr uses to close a per-turn block.
pub open spec fn endlog_prefix() -> Seq<u8> {
    ascii("ENDLOG"@)
}

/// The scan state while collecting a player's bracketed per-turn blocks.
pub struct TurnScan {
    /// Inside an open block.
    pub processing: bool,
    /// The turn number of the open block.
    pub cur_turn: u64,
    /// The lines collected for the open block.
    pub cur_logs: Seq<Seq<u8>>,
    /// The closed blocks, by turn number.
    pub table: Map<u64, Seq<Seq<u8>>>,
}

/// The scan starts outside any block with nothing collected.
pub open spec fn turn_scan_start() -> TurnScan {
    TurnScan { processing: false, cur_turn: 0, cur_logs: Seq::empty(), table: Map::empty() }
}

/// One player-log line: `TURN <n>` opens a block when none is open (a
/// malformed number leaves the scan outside a block); `ENDLOG` closes the
/// open block, filing its lines under the block's turn; any other line
/// inside a block is collected, and outside a block is ignored.
pub open spec fn turn_scan_step(st: TurnScan, raw: Seq<u8>) -> TurnScan {
    let ln = trimmed(raw);
    if !st.processing && has_prefix(ln, turn_block_prefix()) {
        match parsed_u64(after_prefix(ln, turn_block_prefix().len() as int)) {
            Some(n) => TurnScan {
                processing: true,
                cur_turn: n,
                cur_logs: st.cur_logs,
                table: st.table,
            },
            None => TurnScan {
                processing: false,
                cur_turn: st.cur_turn,
                cur_logs: st.cur_logs,
                table: st.table,
            },
        }
    } else if st.processing && has_prefix(ln, endlog_prefix()) {
        TurnScan {
            processing: false,
            cur_turn: st.cur_turn,
            cur_logs: Seq::empty(),
            table: st.table.insert(st.cur_turn, st.cur_logs),
        }
    } else if st.processing {
        TurnScan {
            processing: st.processing,
            cur_turn: st.cur_turn,
            cur_logs: st.cur_logs.push(ln),
            table: st.table,
        }
    } else {
        st
    }
}

/// The scan folded over the remaining lines.
pub open spec fn turn_scan(lines: Seq<Seq<u8>>, st: TurnScan) -> TurnScan
    decreases lines.len(),
{
    if lines.len() == 0 {
        st
    } else {
        turn_scan(lines.skip(1), turn_scan_step(st, lines[0]))
    }
}

/// The per-turn log table a player log folds to.
pub open spec fn turnwise_logs_of(log: Seq<u8>) -> Map<u64, Seq<Seq<u8>>> {
    turn_scan(lines_of(log), turn_scan_start()).table
}

/// Collects a player's per-turn stderr blocks into a table from turn number
/// to the block's lines.
pub fn get_turnwise_logs(player_log: &[u8]) -> (r: TurnLogs)
    ensures
        r.wf(),
        r.table() == turnwise_logs_of(player_log@),
{
    let lines = split_lines(player_log);
    let ghost all = lines.deep_view();
    let mut processing: bool = false;
    let mut cur_turn: u64 = 0;
    let mut cur_logs: Vec<Vec<u8>> = Vec::new();
    let mut table = TurnLogs::new();
    let mut i: usize = 0;
    proof {
        assert(all.skip(0) =~= all);
        assert(cur_logs.deep_view() =~= Seq::<Seq<u8>>::empty());
    }
    while i < lines.len()
        invariant
            0 <= i <= lines@.len(),
            all == lines.deep_view(),
            all == lines_of(player_log@),
            table.wf(),
            turn_scan(
                all.skip(i as int),
                TurnScan { processing, cur_turn, cur_logs: cur_logs.deep_view(), table: table.table() },
            ) == turn_scan(all, turn_scan_start()),
        decreases lines@.len() - i,
    {
        let ghost st = TurnScan {
            processing,
            cur_turn,
            cur_logs: cur_logs.deep_view(),
            table: table.table(),
        };
        proof {
            assert(all.skip(i as int)[0] == all[i as int]);
            assert(all.skip(i as int).skip(1) =~= all.skip(i + 1));
            assert(all[i as int] =~= lines@[i as int]@);
        }
        let t = trim(lines[i].as_slice());
        let mut handled = false;
        if !processing {
            proof {
                reveal_strlit("TURN ");
            }
            let turn_tag = str_to_bytes("TURN ");
            match strip_prefix(t.as_slice(), turn_tag.as_slice()) {
                Some(rest) => {
                    match parse_u64(rest.as_slice()) {
                        Some(n) => {
                            processing = true;
                            cur_turn = n;
                        },
                        None => {
                            processing = false;
                        },
                    }
                    handled = true;
                },
                None => {},
            }
        }
        if !handled && processing {
            proof {
                reveal_strlit("ENDLOG");
            }
            let end_tag = str_to_bytes("ENDLOG");
            if starts_with(t.as_slice(), end_tag.as_slice()) {
                processing = false;
                let logs = cur_logs;
                cur_logs = Vec::new();
                table.insert(cur_turn, logs);
                handled = true;
                proof {
                    assert(cur_logs.deep_view() =~= Seq::<Seq<u8>>::empty());
                }
            }
        }
        if !handled && processing {
            cur_logs.push(t);
            proof {
                assert(cur_logs.deep_view() =~~= st.cur_logs.push(trimmed(all[i as int])));
            }
        }
        proof {
            let stepped = turn_scan_step(st, all[i as int]);
            assert(TurnScan {
                processing,
                cur_turn,
                cur_logs: cur_logs.deep_view(),
                table: table.table(),
            } == stepped);
        }
        i = i + 1;
    }
    proof {
        assert(all.skip(all.len() as int) =~= Seq::<Seq<u8>>::empty());
    }
    table
}

/// The prefix of a simulator turn marker, up to the number.
pub open spec fn turn_line_prefix() -> Seq<u8> {
    ascii("TURN, "@)
}

/// The prefix of a simulator coin report, up to the number.
pub open spec fn coins_line_prefix() -> Seq<u8> {
    ascii("COINS, "@)
}

/// The prefix of a simulator destruction report, up to the percentage.
pub open spec fn destruction_line_prefix() -> Seq<u8> {
    ascii("DESTRUCTION, "@)
}

/// A player block folded into the transcript: each line under its
/// `PRINT, ` marker.
pub open spec fn print_block(logs: Seq<Seq<u8>>) -> Seq<u8>
    decreases logs.len(),
{
    if logs.len() == 0 {
        Seq::empty()
    } else {
        ascii("PRINT, "@) + logs[0] + seq![10u8] + print_block(logs.skip(1))
    }
}

/// Appends a turn's player lines to the transcript, each under `PRINT, `.
fn append_print_block(dst: &mut Vec<u8>, logs: &Vec<Vec<u8>>)
    ensures
        final(dst)@ == old(dst)@ + print_block(logs.deep_view()),
{
    let ghost all = logs.deep_view();
    let mut i: usize = 0;
    proof {
        reveal_strlit("PRINT, ");
        assert(all.skip(0) =~= all);
    }
    while i < logs.len()
        invariant
            0 <= i <= logs@.len(),
            all == logs.deep_view(),
            old(dst)@ + print_block(all) =~= dst@ + print_block(all.skip(i as int)),
        decreases logs@.len() - i,
    {
        proof {
            reveal_strlit("PRINT, ");
            assert(all.skip(i as int)[0] == all[i as int]);
            assert(all.skip(i as int).skip(1) =~= all.skip(i + 1));
            assert(all[i as int] =~= logs@[i as int]@);
        }
        let marker = str_to_bytes("PRINT, ");
        let ghost before = dst@;
        text::push_all(dst, marker.as_slice());
        text::push_all(dst, logs[i].as_slice());
        dst.push(10);
        proof {
            assert(dst@ =~= before + (ascii("PRINT, "@) + all[i as int] + seq![10u8]));
            assert(print_block(all.skip(i as int)) =~= ascii("PRINT, "@) + all[i as int]
                + seq![10u8] + print_block(all.skip(i + 1)));
            assert(before + (ascii("PRINT, "@) + all[i as int] + seq![10u8]) + print_block(
                all.skip(i + 1),
            ) =~= before + print_block(all.skip(i as int)));
        }
        i = i + 1;
    }
    proof {
        assert(print_block(all.skip(all.len() as int)) =~= Seq::<u8>::empty());
        assert(old(dst)@ + print_block(all) =~= dst@);
    }
}

/// The scan state while folding the simulator transcript of a solo match.
pub struct SoloScan {
    /// The assembled transcript so far.
    pub log: Seq<u8>,
    /// The coins the last coin report left.
    pub coins_left: u32,
    /// The decimal text of the last destruction report.
    pub destruction: Seq<u8>,
}

/// The fold starts with an empty transcript, the full coin budget, and a
/// destruction of `0.0`.
pub open spec fn solo_scan_start(no_of_coins: u32) -> SoloScan {
    SoloScan { log: Seq::empty(), coins_left: no_of_coins, destruction: ascii("0.0"@) }
}

/// One simulator line: the trimmed line always joins the transcript; a
/// `TURN, <n>` marker additionally pulls in the player's block for turn `n`;
/// a `DESTRUCTION, <d>%` report with decimal text replaces the destruction;
/// a `COINS, <n>` report replaces the coins left, truncated to 32 bits.
pub open spec fn solo_scan_step(
    st: SoloScan,
    raw: Seq<u8>,
    table: Map<u64, Seq<Seq<u8>>>,
) -> SoloScan {
    let ln = trimmed(raw);
    let with_line = st.log + ln + seq![10u8];
    if has_prefix(ln, ascii("TURN"@)) {
        let turn = if has_prefix(ln, turn_line_prefix()) {
            parsed_u64(after_prefix(ln, turn_line_prefix().len() as int))
        } else {
            Option::None
        };
        match turn {
            Some(n) => if table.dom().contains(n) {
                SoloScan {
                    log: with_line + print_block(table[n]),
                    coins_left: st.coins_left,
                    destruction: st.destruction,
                }
            } else {
                SoloScan { log: with_line, coins_left: st.coins_left, destruction: st.destruction }
            },
            None => SoloScan {
                log: with_line,
                coins_left: st.coins_left,
                destruction: st.destruction,
            },
        }
    } else if has_prefix(ln, ascii("DESTRUCTION"@)) {
        let rest = after_prefix(ln, destruction_line_prefix().len() as int);
        if has_prefix(ln, destruction_line_prefix()) && rest.len() > 0 && rest.last() == 37
            && text::is_decimal_text(rest.drop_last()) {
            SoloScan { log: with_line, coins_left: st.coins_left, destruction: rest.drop_last() }
        } else {
            SoloScan { log: with_line, coins_left: st.coins_left, destruction: st.destruction }
        }
    } else if has_prefix(ln, ascii("COINS"@)) {
        let coins = if has_prefix(ln, coins_line_prefix()) {
            parsed_u64(after_prefix(ln, coins_line_prefix().len() as int))
        } else {
            Option::None
        };
        match coins {
            Some(n) => SoloScan { log: with_line, coins_left: n as u32, destruction: st.destruction },
            None => SoloScan {
                log: with_line,
                coins_left: st.coins_left,
                destruction: st.destruction,
            },
        }
    } else {
        SoloScan { log: with_line, coins_left: st.coins_left, destruction: st.destruction }
    }
}

/// The solo fold over the remaining simulator lines.
pub open spec fn solo_scan(
    lines: Seq<Seq<u8>>,
    st: SoloScan,
    table: Map<u64, Seq<Seq<u8>>>,
) -> SoloScan
    decreases lines.len(),
{
    if lines.len() == 0 {
        st
    } else {
        solo_scan(lines.skip(1), solo_scan_step(st, lines[0], table), table)
    }
}

/// Coins spent: the budget minus what the simulator reported left, and none
/// when the report exceeds the budget.
pub open spec fn coins_used_of(no_of_coins: u32, coins_left: u32) -> u64 {
    if coins_left <= no_of_coins {
        (no_of_coins - coins_left) as u64
    } else {
        0
    }
}

/// Runs one step of the solo fold over the accumulated transcript state.
fn solo_scan_line(
    log: &mut Vec<u8>,
    coins_left: &mut u32,
    destruction: &mut Vec<u8>,
    raw: &Vec<u8>,
    turn_logs: &TurnLogs,
)
    requires
        turn_logs.wf(),
    ensures
        ({
            let stepped = solo_scan_step(
                SoloScan {
                    log: old(log)@,
                    coins_left: *old(coins_left),
                    destruction: old(destruction)@,
                },
                raw@,
                turn_logs.table(),
            );
            &&& final(log)@ == stepped.log
            &&& *final(coins_left) == stepped.coins_left
            &&& final(destruction)@ == stepped.destruction
        }),
{
    let t = trim(raw.as_slice());
    text::push_all(log, t.as_slice());
    log.push(10);
    proof {
        reveal_strlit("TURN");
        reveal_strlit("DESTRUCTION");
        reveal_strlit("COINS");
    }
    let turn_tag = str_to_bytes("TURN");
    let destruction_tag = str_to_bytes("DESTRUCTION");
    let coins_tag = str_to_bytes("COINS");
    if starts_with(t.as_slice(), turn_tag.as_slice()) {
        proof {
            reveal_strlit("TURN, ");
        }
        let turn_line_tag = str_to_bytes("TURN, ");
        match strip_prefix(t.as_slice(), turn_line_tag.as_slice()) {
            Some(rest) => {
                match parse_u64(rest.as_slice()) {
                    Some(n) => {
                        match turn_logs.lookup(n) {
                            Some(block) => {
                                append_print_block(log, block);
                            },
                            None => {},
                        }
                    },
                    None => {},
                }
            },
            None => {},
        }
    } else if starts_with(t.as_slice(), destruction_tag.as_slice()) {
        proof {
            reveal_strlit("DESTRUCTION, ");
        }
        let destruction_line_tag = str_to_bytes("DESTRUCTION, ");
        match strip_prefix(t.as_slice(), destruction_line_tag.as_slice()) {
            Some(rest) => {
                if rest.len() > 0 && rest[rest.len() - 1] == 37 {
                    let mut d = rest;
                    d.pop();
                    proof {
                        assert(d@ =~= after_prefix(
                            trimmed(raw@),
                            destruction_line_prefix().len() as int,
                        ).drop_last());
                    }
                    if text::check_decimal_text(d.as_slice()) {
                        *destruction = d;
                    }
                }
            },
            None => {},
        }
    } else if starts_with(t.as_slice(), coins_tag.as_slice()) {
        proof {
            reveal_strlit("COINS, ");
        }
        let coins_line_tag = str_to_bytes("COINS, ");
        match strip_prefix(t.as_slice(), coins_line_tag.as_slice()) {
            Some(rest) => {
                match parse_u64(rest.as_slice()) {
                    Some(n) => {
                        *coins_left = #[verifier::truncate] (n as u32);
                    },
                    None => {},
                }
            },
            None => {},
        }
    }
}

/// Builds the terminal status of a successful solo match: the simulator
/// transcript is folded line by line, player blocks are interleaved under
/// their turn markers, and the last coin and destruction reports decide the
/// result's figures.
pub fn create_final_response(
    parameters: GameParameters,
    game_id: String,
    player_log: Vec<u8>,
    simulator_log: Vec<u8>,
) -> (r: GameStatus)
    ensures
        ({
            let scan = solo_scan(
                lines_of(simulator_log@),
                solo_scan_start(parameters.no_of_coins),
                turnwise_logs_of(player_log@),
            );
            &&& r.game_id == game_id
            &&& r.game_status == response::GameStatusEnum::EXECUTED
            &&& r.game_result_player1 is None
            &&& r.game_result_player2 is None
            &&& (r.game_result matches Some(g) && g.log@ == scan.log && g.destruction_percentage@
                == scan.destruction && g.coins_used == coins_used_of(
                parameters.no_of_coins,
                scan.coins_left,
            ) && g.has_errors == false)
        }),
{
    let turn_logs = get_turnwise_logs(player_log.as_slice());
    let lines = split_lines(simulator_log.as_slice());
    let ghost all = lines.deep_view();
    let ghost table = turn_logs.table();
    let mut log: Vec<u8> = Vec::new();
    let mut coins_left: u32 = parameters.no_of_coins;
    proof {
        reveal_strlit("0.0");
    }
    let mut destruction: Vec<u8> = str_to_bytes("0.0");
    let mut i: usize = 0;
    proof {
        assert(all.skip(0) =~= all);
    }
    while i < lines.len()
        invariant
            0 <= i <= lines@.len(),
            all == lines.deep_view(),
            all == lines_of(simulator_log@),
            table == turnwise_logs_of(player_log@),
            turn_logs.wf(),
            turn_logs.table() == table,
            solo_scan(
                all.skip(i as int),
                SoloScan { log: log@, coins_left, destruction: destruction@ },
                table,
            ) == solo_scan(all, solo_scan_start(parameters.no_of_coins), table),
        decreases lines@.len() - i,
    {
        proof {
            assert(all.skip(i as int)[0] == all[i as int]);
            assert(all.skip(i as int).skip(1) =~= all.skip(i + 1));
            assert(all[i as int] =~= lines@[i as int]@);
        }
        solo_scan_line(&mut log, &mut coins_left, &mut destruction, &lines[i], &turn_logs);
        i = i + 1;
    }
    proof {
        assert(all.skip(all.len() as int) =~= Seq::<Seq<u8>>::empty());
    }
    let coins_used: u64 = if coins_left <= parameters.no_of_coins {
        (parameters.no_of_coins - coins_left) as u64
    } else {
        0
    };
    response::GameStatus::new_normal(
        game_id,
        response::GameStatusEnum::EXECUTED,
        Some(
            response::GameResult {
                destruction_percentage: destruction,
                coins_used,
                has_errors: false,
                log,
            },
        ),
    )
}

/// The scan state while folding the simulator transcript of a versus match.
/// The transcript annotates player one's half until a `DELIMITER` line
/// switches it to player two's.
pub struct PvpScan {
    /// Whether the `DELIMITER` switch to player two has happened.
    pub second: bool,
    /// Player one's side of the fold.
    pub side1: SoloScan,
    /// Player two's side of the fold.
    pub side2: SoloScan,
}

/// Both sides start as a solo fold does, on the same coin budget.
pub open spec fn pvp_scan_start(no_of_coins: u32) -> PvpScan {
    PvpScan {
        second: false,
        side1: solo_scan_start(no_of_coins),
        side2: solo_scan_start(no_of_coins),
    }
}

/// One simulator line of a versus match: `DELIMITER` switches annotation to
/// player two and joins neither transcript; any other line is folded into
/// the active player's side exactly as in a solo match, against that
/// player's own turn table.
pub open spec fn pvp_scan_step(
    st: PvpScan,
    raw: Seq<u8>,
    table1: Map<u64, Seq<Seq<u8>>>,
    table2: Map<u64, Seq<Seq<u8>>>,
) -> PvpScan {
    let ln = trimmed(raw);
    if has_prefix(ln, ascii("DELIMITER"@)) {
        PvpScan { second: true, side1: st.side1, side2: st.side2 }
    } else if !st.second {
        PvpScan { second: st.second, side1: solo_scan_step(st.side1, raw, table1), side2: st.side2 }
    } else {
        PvpScan { second: st.second, side1: st.side1, side2: solo_scan_step(st.side2, raw, table2) }
    }
}

/// The versus fold over the remaining simulator lines.
pub open spec fn pvp_scan(
    lines: Seq<Seq<u8>>,
    st: PvpScan,
    table1: Map<u64, Seq<Seq<u8>>>,
    table2: Map<u64, Seq<Seq<u8>>>,
) -> PvpScan
    decreases lines.len(),
{
    if lines.len() == 0 {
        st
    } else {
        pvp_scan(lines.skip(1), pvp_scan_step(st, lines[0], table1, table2), table1, table2)
    }
}

/// Builds the terminal status of a successful versus match: the simulator
/// transcript is split at `DELIMITER` into the two players' halves, each
/// folded as in a solo match against its own player's turn blocks.
pub fn create_final_pvp_response(
    parameters: GameParameters,
    game_id: String,
    player1_log: Vec<u8>,
    player2_log: Vec<u8>,
    simulator_log: Vec<u8>,
) -> (r: GameStatus)
    ensures
        ({
            let scan = pvp_scan(
                lines_of(simulator_log@),
                pvp_scan_start(parameters.no_of_coins),
                turnwise_logs_of(player1_log@),
                turnwise_logs_of(player2_log@),
            );
            &&& r.game_id == game_id
            &&& r.game_status == response::GameStatusEnum::EXECUTED
            &&& r.game_result is None
            &&& (r.game_result_player1 matches Some(g) && g.log@ == scan.side1.log
                && g.destruction_percentage@ == scan.side1.destruction && g.coins_used
                == coins_used_of(parameters.no_of_coins, scan.side1.coins_left) && g.has_errors
                == false)
            &&& (r.game_result_player2 matches Some(g) && g.log@ == scan.side2.log
                && g.destruction_percentage@ == scan.side2.destruction && g.coins_used
                == coins_used_of(parameters.no_of_coins, scan.side2.coins_left) && g.has_errors
                == false)
        }),
{
    let turn_logs1 = get_turnwise_logs(player1_log.as_slice());
    let turn_logs2 = get_turnwise_logs(player2_log.as_slice());
    let lines = split_lines(simulator_log.as_slice());
    let ghost all = lines.deep_view();
    let ghost table1 = turn_logs1.table();
    let ghost table2 = turn_logs2.table();
    let mut second: bool = false;
    let mut log1: Vec<u8> = Vec::new();
    let mut log2: Vec<u8> = Vec::new();
    let mut coins1: u32 = parameters.no_of_coins;
    let mut coins2: u32 = parameters.no_of_coins;
    proof {
        reveal_strlit("0.0");
    }
    let mut destruction1: Vec<u8> = str_to_bytes("0.0");
    let mut destruction2: Vec<u8> = str_to_bytes("0.0");
    let mut i: usize = 0;
    proof {
        assert(all.skip(0) =~= all);
    }
    while i < lines.len()
        invariant
            0 <= i <= lines@.len(),
            all == lines.deep_view(),
            all == lines_of(simulator_log@),
            table1 == turnwise_logs_of(player1_log@),
            table2 == turnwise_logs_of(player2_log@),
            turn_logs1.wf(),
            turn_logs2.wf(),
            turn_logs1.table() == table1,
            turn_logs2.table() == table2,
            pvp_scan(
                all.skip(i as int),
                PvpScan {
                    second,
                    side1: SoloScan { log: log1@, coins_left: coins1, destruction: destruction1@ },
                    side2: SoloScan { log: log2@, coins_left: coins2, destruction: destruction2@ },
                },
                table1,
                table2,
            ) == pvp_scan(all, pvp_scan_start(parameters.no_of_coins), table1, table2),
        decreases lines@.len() - i,
    {
        proof {
            assert(all.skip(i as int)[0] == all[i as int]);
            assert(all.skip(i as int).skip(1) =~= all.skip(i + 1));
            assert(all[i as int] =~= lines@[i as int]@);
            reveal_strlit("DELIMITER");
        }
        let t = trim(lines[i].as_slice());
        let delimiter_tag = str_to_bytes("DELIMITER");
        if starts_with(t.as_slice(), delimiter_tag.as_slice()) {
            second = true;
        } else if !second {
            solo_scan_line(&mut log1, &mut coins1, &mut destruction1, &lines[i], &turn_logs1);
        } else {
            solo_scan_line(&mut log2, &mut coins2, &mut destruction2, &lines[i], &turn_logs2);
        }
        i = i + 1;
    }
    proof {
        assert(all.skip(all.len() as int) =~= Seq::<Seq<u8>>::empty());
    }
    let coins_used1: u64 = if coins1 <= parameters.no_of_coins {
        (parameters.no_of_coins - coins1) as u64
    } else {
        0
    };
    let coins_used2: u64 = if coins2 <= parameters.no_of_coins {
        (parameters.no_of_coins - coins2) as u64
    } else {
        0
    };
    response::GameStatus::new_pvp(
        game_id,
        response::GameStatusEnum::EXECUTED,
        Some(
            response::GameResult {
                destruction_percentage: destruction1,
                coins_used: coins_used1,
                has_errors: false,
                log: log1,
            },
        ),
        Some(
            response::GameResult {
                destruction_percentage: destruction2,
                coins_used: coins_used2,
                has_errors: false,
                log: log2,
            },
        ),
    )
}

/// The user-visible name of an error's class.
pub open spec fn error_type_text(err: &SimulatorError) -> Seq<u8> {
    match err {
        SimulatorError::RuntimeError(_) => ascii("Runtime Error!"@),
        SimulatorError::CompilationError(_) => ascii("Compilation Error!"@),
        SimulatorError::FifoCreationError(_) => ascii("Process Communication Error!"@),
        SimulatorError::UnidentifiedError(_) => ascii("Unidentified Error. Contact the POCs!"@),
        SimulatorError::TimeOutError(_) => ascii("Timeout Error!"@),
        SimulatorError::EpollError(_) => ascii("Event Creation Error!"@),
        SimulatorError::RabbitMqError(_) => ascii("RabbitMq Error!"@),
        SimulatorError::Player1Error(_) => ascii("Compilation Error!"@),
        SimulatorError::Player2Error(_) => ascii("Compilation Error!"@),
    }
}

/// The error payload's lines, each under an `ERRORS, ` prefix, joined by
/// line feeds.
pub open spec fn prefixed_error_lines(lines: Seq<Seq<u8>>) -> Seq<u8>
    decreases lines.len(),
{
    if lines.len() == 0 {
        Seq::empty()
    } else if lines.len() == 1 {
        ascii("ERRORS, "@) + lines[0]
    } else {
        ascii("ERRORS, "@) + lines[0] + seq![10u8] + prefixed_error_lines(lines.skip(1))
    }
}

/// The log field of an error response: the error's class, then its payload
/// line by line, everything under `ERRORS, ` markers.
pub open spec fn error_log_of(type_text: Seq<u8>, payload: Seq<u8>) -> Seq<u8> {
    ascii("ERRORS, ERROR TYPE: "@) + type_text + ascii("\nERRORS, ERROR LOG:\n"@)
        + prefixed_error_lines(lines_of(payload)) + seq![10u8]
}

/// The log field an error value renders to.
pub open spec fn error_log_text(err: &SimulatorError) -> Seq<u8> {
    error_log_of(error_type_text(err), err.payload())
}

/// Appends the payload's lines under `ERRORS, ` prefixes, joined by line
/// feeds.
fn append_error_lines(dst: &mut Vec<u8>, lines: &Vec<Vec<u8>>)
    ensures
        final(dst)@ == old(dst)@ + prefixed_error_lines(lines.deep_view()),
{
    let ghost all = lines.deep_view();
    let mut i: usize = 0;
    proof {
        reveal_strlit("ERRORS, ");
        assert(all.skip(0) =~= all);
    }
    while i < lines.len()
        invariant
            0 <= i <= lines@.len(),
            all == lines.deep_view(),
            old(dst)@ + prefixed_error_lines(all) =~= dst@ + prefixed_error_lines(
                all.skip(i as int),
            ),
        decreases lines@.len() - i,
    {
        proof {
            reveal_strlit("ERRORS, ");
            assert(all.skip(i as int)[0] == all[i as int]);
            assert(all.skip(i as int).skip(1) =~= all.skip(i + 1));
            assert(all[i as int] =~= lines@[i as int]@);
        }
        let marker = str_to_bytes("ERRORS, ");
        let ghost before = dst@;
        text::push_all(dst, marker.as_slice());
        text::push_all(dst, lines[i].as_slice());
        if i + 1 < lines.len() {
            dst.push(10);
            proof {
                assert(prefixed_error_lines(all.skip(i as int)) =~= ascii("ERRORS, "@) + all[
                    i as int
                ] + seq![10u8] + prefixed_error_lines(all.skip(i + 1)));
                assert(dst@ + prefixed_error_lines(all.skip(i + 1)) =~= before
                    + prefixed_error_lines(all.skip(i as int)));
            }
        } else {
            proof {
                assert(all.skip(i as int).len() == 1);
                assert(prefixed_error_lines(all.skip(i as int)) =~= ascii("ERRORS, "@) + all[
                    i as int
                ]);
                assert(prefixed_error_lines(all.skip(i + 1)) =~= Seq::<u8>::empty());
                assert(dst@ + prefixed_error_lines(all.skip(i + 1)) =~= before
                    + prefixed_error_lines(all.skip(i as int)));
            }
        }
        i = i + 1;
    }
    proof {
        assert(prefixed_error_lines(all.skip(all.len() as int)) =~= Seq::<u8>::empty());
        assert(old(dst)@ + prefixed_error_lines(all) =~= dst@);
    }
}

/// Renders one participant's error into a result: zero coins, zero
/// destruction, and the formatted error log.
fn render_error_result(err: SimulatorError, has_errors: bool) -> (g: response::GameResult)
    ensures
        g.log@ == error_log_text(&err),
        g.has_errors == has_errors,
        g.coins_used == 0,
        g.destruction_percentage@ == ascii("0.0"@),
{
    proof {
        reveal_strlit("Runtime Error!");
        reveal_strlit("Compilation Error!");
        reveal_strlit("Process Communication Error!");
        reveal_strlit("Unidentified Error. Contact the POCs!");
        reveal_strlit("Timeout Error!");
        reveal_strlit("Event Creation Error!");
        reveal_strlit("RabbitMq Error!");
    }
    let (etype, payload): (Vec<u8>, Vec<u8>) = match err {
        SimulatorError::RuntimeError(e) => (str_to_bytes("Runtime Error!"), e),
        SimulatorError::CompilationError(e) => (str_to_bytes("Compilation Error!"), e),
        SimulatorError::FifoCreationError(e) => (str_to_bytes("Process Communication Error!"), e),
        SimulatorError::UnidentifiedError(e) => (
            str_to_bytes("Unidentified Error. Contact the POCs!"),
            e,
        ),
        SimulatorError::TimeOutError(e) => (str_to_bytes("Timeout Error!"), e),
        SimulatorError::EpollError(e) => (str_to_bytes("Event Creation Error!"), e),
        SimulatorError::RabbitMqError(e) => (str_to_bytes("RabbitMq Error!"), e),
        SimulatorError::Player1Error(e) => (str_to_bytes("Compilation Error!"), e),
        SimulatorError::Player2Error(e) => (str_to_bytes("Compilation Error!"), e),
    };
    proof {
        reveal_strlit("ERRORS, ERROR TYPE: ");
        reveal_strlit("\nERRORS, ERROR LOG:\n");
        reveal_strlit("0.0");
    }
    let mut log = str_to_bytes("ERRORS, ERROR TYPE: ");
    text::push_all(&mut log, etype.as_slice());
    let header = str_to_bytes("\nERRORS, ERROR LOG:\n");
    text::push_all(&mut log, header.as_slice());
    let payload_lines = split_lines(payload.as_slice());
    append_error_lines(&mut log, &payload_lines);
    log.push(10);
    proof {
        assert(log@ =~= error_log_text(&err));
    }
    response::GameResult {
        destruction_percentage: str_to_bytes("0.0"),
        coins_used: 0,
        has_errors,
        log,
    }
}

/// The terminal status of a failed solo match: an `EXECUTE_ERROR` whose log
/// carries the error's class and payload.
pub fn create_error_response(game_id: String, err: SimulatorError) -> (r: GameStatus)
    ensures
        r.game_id == game_id,
        r.game_status == response::GameStatusEnum::EXECUTE_ERROR,
        r.game_result_player1 is None,
        r.game_result_player2 is None,
        (r.game_result matches Some(g) && g.log@ == error_log_text(&err) && g.has_errors
            && g.coins_used == 0 && g.destruction_percentage@ == ascii("0.0"@)),
{
    let g = render_error_result(err, true);
    response::GameStatus::new_normal(game_id, response::GameStatusEnum::EXECUTE_ERROR, Some(g))
}

/// The terminal status of a failed versus match: an `EXECUTE_ERROR` with an
/// error log per player, each flagged with whether that player is at fault.
pub fn create_pvp_error_response(
    game_id: String,
    error1: SimulatorError,
    error2: SimulatorError,
    p1_errored: bool,
    p2_errored: bool,
) -> (r: GameStatus)
    ensures
        r.game_id == game_id,
        r.game_status == response::GameStatusEnum::EXECUTE_ERROR,
        r.game_result is None,
        (r.game_result_player1 matches Some(g) && g.log@ == error_log_text(&error1) && g.has_errors
            == p1_errored && g.coins_used == 0 && g.destruction_percentage@ == ascii("0.0"@)),
        (r.game_result_player2 matches Some(g) && g.log@ == error_log_text(&error2) && g.has_errors
            == p2_errored && g.coins_used == 0 && g.destruction_percentage@ == ascii("0.0"@)),
{
    let g1 = render_error_result(error1, p1_errored);
    let g2 = render_error_result(error2, p2_errored);
    response::GameStatus::new_pvp(
        game_id,
        response::GameStatusEnum::EXECUTE_ERROR,
        Some(g1),
        Some(g2),
    )
}

/// The diagnostic the other player gets when its opponent's code could not
/// be set up.
pub open spec fn other_compile_message() -> Seq<u8> {
    ascii("Other player couldnt compile"@)
}

/// The terminal status when a versus match fails before any child is
/// spawned because one player's code could not be compiled or set up: that
/// player is flagged with the compiler's output, the other player is told
/// its opponent couldn't compile.
pub fn conclude_pvp_init_failure(game_id: String, player_one_failed: bool, message: Vec<u8>) -> (r:
    GameStatus)
    ensures
        r.game_id == game_id,
        r.game_status == response::GameStatusEnum::EXECUTE_ERROR,
        r.game_result is None,
        ({
            let failed_log = error_log_of(ascii("Compilation Error!"@), message@);
            let other_log = error_log_of(ascii("Compilation Error!"@), other_compile_message());
            if player_one_failed {
                &&& (r.game_result_player1 matches Some(g) && g.has_errors && g.log@ == failed_log)
                &&& (r.game_result_player2 matches Some(g) && !g.has_errors && g.log@ == other_log)
            } else {
                &&& (r.game_result_player1 matches Some(g) && !g.has_errors && g.log@ == other_log)
                &&& (r.game_result_player2 matches Some(g) && g.has_errors && g.log@ == failed_log)
            }
        }),
{
    proof {
        reveal_strlit("Other player couldnt compile");
    }
    let failed = SimulatorError::CompilationError(message);
    let other = SimulatorError::CompilationError(str_to_bytes("Other player couldnt compile"));
    if player_one_failed {
        create_pvp_error_response(game_id, failed, other, true, false)
    } else {
        create_pvp_error_response(game_id, other, failed, false, true)
    }
}

/// The fixed diagnostic a timed-out participant is reported with.
pub open spec fn timeout_message() -> Seq<u8> {
    ascii("Process exceeded the time limit"@)
}

/// The fixed diagnostic when the simulator itself failed.
pub open spec fn simulator_failed_message() -> Seq<u8> {
    ascii("couldnt communicate with simulator check syntax"@)
}

/// The diagnostic the surviving player gets when its opponent failed.
pub open spec fn other_player_message() -> Seq<u8> {
    ascii("the other player threw an error"@)
}

/// Everything a participant wrote to its error stream, in arrival order.
pub open spec fn stderr_of(outputs: Seq<(ProcessType, Seq<u8>)>, tag: ProcessType) -> Seq<u8>
    decreases outputs.len(),
{
    if outputs.len() == 0 {
        Seq::empty()
    } else {
        (if outputs[0].0 == tag {
            outputs[0].1
        } else {
            Seq::empty()
        }) + stderr_of(outputs.skip(1), tag)
    }
}

/// Concatenates the collected error output of one participant.
fn collect_stderr(outputs: &Vec<ProcessLog>, tag: ProcessType) -> (r: Vec<u8>)
    ensures
        r@ == stderr_of(outputs@.map_values(|p: ProcessLog| p@), tag),
{
    let ghost ov = outputs@.map_values(|p: ProcessLog| p@);
    let mut r: Vec<u8> = Vec::new();
    let mut i: usize = 0;
    proof {
        assert(ov.skip(0) =~= ov);
    }
    while i < outputs.len()
        invariant
            0 <= i <= outputs@.len(),
            ov == outputs@.map_values(|p: ProcessLog| p@),
            stderr_of(ov, tag) =~= r@ + stderr_of(ov.skip(i as int), tag),
        decreases outputs@.len() - i,
    {
        proof {
            assert(ov.skip(i as int)[0] == ov[i as int]);
            assert(ov.skip(i as int).skip(1) =~= ov.skip(i + 1));
        }
        if outputs[i].tag == tag {
            text::push_all(&mut r, outputs[i].data.as_slice());
        }
        i = i + 1;
    }
    proof {
        assert(stderr_of(ov.skip(ov.len() as int), tag) =~= Seq::<u8>::empty());
        assert(r@ =~= stderr_of(ov, tag));
    }
    r
}

/// The error class and payload a solo match's first failure is reported
/// with: a timeout carries the fixed diagnostic; a simulator failure is
/// reported against the runner; a player failure carries the player's own
/// error output.
pub open spec fn solo_error_parts(f: Failure, outputs: Seq<(ProcessType, Seq<u8>)>) -> (
    Seq<u8>,
    Seq<u8>,
) {
    match f.kind {
        FailureKind::Timeout => (ascii("Timeout Error!"@), timeout_message()),
        FailureKind::RuntimeFailure => if f.tag == ProcessType::Simulator {
            (ascii("Runtime Error!"@), simulator_failed_message())
        } else {
            (ascii("Runtime Error!"@), stderr_of(outputs, f.tag))
        },
    }
}

/// Which finalized logs a clean solo drain hands to the transcript fold:
/// the player's and the simulator's, in either arrival order.
pub open spec fn solo_mapping(outputs: Seq<(ProcessType, Seq<u8>)>) -> Option<(Seq<u8>, Seq<u8>)> {
    if outputs.len() < 2 {
        Option::None
    } else if outputs[0].0 == ProcessType::Runner {
        Option::Some((outputs[0].1, outputs[1].1))
    } else if outputs[0].0 == ProcessType::Simulator {
        Option::Some((outputs[1].1, outputs[0].1))
    } else {
        Option::None
    }
}

/// Concludes a solo match once the registry has drained: the first
/// classified failure, if any, decides an error status; otherwise the two
/// finalized logs are mapped by tag and folded into the final transcript.
pub fn conclude_solo(
    parameters: GameParameters,
    game_id: String,
    outputs: Vec<ProcessLog>,
    failures: Vec<Failure>,
) -> (r: GameStatus)
    ensures
        r.game_id == game_id,
        r.game_result_player1 is None,
        r.game_result_player2 is None,
        ({
            let ov = outputs@.map_values(|p: ProcessLog| p@);
            if failures@.len() > 0 {
                let parts = solo_error_parts(failures@[0], ov);
                &&& r.game_status == response::GameStatusEnum::EXECUTE_ERROR
                &&& (r.game_result matches Some(g) && g.has_errors && g.log@ == error_log_of(
                    parts.0,
                    parts.1,
                ))
            } else {
                match solo_mapping(ov) {
                    Option::Some(logs) => {
                        let scan = solo_scan(
                            lines_of(logs.1),
                            solo_scan_start(parameters.no_of_coins),
                            turnwise_logs_of(logs.0),
                        );
                        &&& r.game_status == response::GameStatusEnum::EXECUTED
                        &&& (r.game_result matches Some(g) && !g.has_errors && g.log@ == scan.log
                            && g.destruction_percentage@ == scan.destruction && g.coins_used
                            == coins_used_of(parameters.no_of_coins, scan.coins_left))
                    },
                    Option::None => {
                        &&& r.game_status == response::GameStatusEnum::EXECUTE_ERROR
                        &&& (r.game_result matches Some(g) && g.has_errors && g.log@
                            == error_log_of(
                            ascii("Unidentified Error. Contact the POCs!"@),
                            ascii("Failed to map outputs"@),
                        ))
                    },
                }
            }
        }),
{
    if failures.len() > 0 {
        let f = failures[0];
        let err = match f.kind {
            FailureKind::Timeout => {
                proof {
                    reveal_strlit("Process exceeded the time limit");
                }
                SimulatorError::TimeOutError(str_to_bytes("Process exceeded the time limit"))
            },
            FailureKind::RuntimeFailure => {
                if f.tag == ProcessType::Simulator {
                    proof {
                        reveal_strlit("couldnt communicate with simulator check syntax");
                    }
                    SimulatorError::RuntimeError(
                        str_to_bytes("couldnt communicate with simulator check syntax"),
                    )
                } else {
                    SimulatorError::RuntimeError(collect_stderr(&outputs, f.tag))
                }
            },
        };
        create_error_response(game_id, err)
    } else if outputs.len() < 2 {
        proof {
            reveal_strlit("Failed to map outputs");
        }
        create_error_response(
            game_id,
            SimulatorError::UnidentifiedError(str_to_bytes("Failed to map outputs")),
        )
    } else {
        let mut outputs = outputs;
        let first = outputs.remove(0);
        let second = outputs.remove(0);
        match first.tag {
            ProcessType::Runner => create_final_response(
                parameters,
                game_id,
                first.data,
                second.data,
            ),
            ProcessType::Simulator => create_final_response(
                parameters,
                game_id,
                second.data,
                first.data,
            ),
            _ => {
                proof {
                    reveal_strlit("Failed to map outputs");
                }
                create_error_response(
                    game_id,
                    SimulatorError::UnidentifiedError(str_to_bytes("Failed to map outputs")),
                )
            },
        }
    }
}

/// The first recorded failure of the given participant, if any.
pub open spec fn first_failure_of(failures: Seq<Failure>, tag: ProcessType) -> Option<Failure>
    decreases failures.len(),
{
    if failures.len() == 0 {
        Option::None
    } else if failures[0].tag == tag {
        Option::Some(failures[0])
    } else {
        first_failure_of(failures.skip(1), tag)
    }
}

/// Finds the first recorded failure of the given participant.
fn find_failure(failures: &Vec<Failure>, tag: ProcessType) -> (r: Option<Failure>)
    ensures
        r == first_failure_of(failures@, tag),
{
    let mut i: usize = 0;
    proof {
        assert(failures@.skip(0) =~= failures@);
    }
    while i < failures.len()
        invariant
            0 <= i <= failures@.len(),
            first_failure_of(failures@, tag) == first_failure_of(failures@.skip(i as int), tag),
            forall|j: int| 0 <= j < i ==> (#[trigger] failures@[j]).tag != tag,
        decreases failures@.len() - i,
    {
        proof {
            assert(failures@.skip(i as int)[0] == failures@[i as int]);
            assert(failures@.skip(i as int).skip(1) =~= failures@.skip(i + 1));
        }
        if failures[i].tag == tag {
            return Some(failures[i]);
        }
        i = i + 1;
    }
    proof {
        assert(failures@.skip(failures@.len() as int) =~= Seq::<Failure>::empty());
    }
    None
}

/// The error class and payload a failed player is reported with in a versus
/// match.
pub open spec fn pvp_player_error_parts(f: Failure, outputs: Seq<(ProcessType, Seq<u8>)>) -> (
    Seq<u8>,
    Seq<u8>,
) {
    match f.kind {
        FailureKind::Timeout => (ascii("Timeout Error!"@), timeout_message()),
        FailureKind::RuntimeFailure => (ascii("Runtime Error!"@), stderr_of(outputs, f.tag)),
    }
}

/// The error class and payload both players are reported with when the
/// simulator failed.
pub open spec fn pvp_simulator_error_parts(f: Failure) -> (Seq<u8>, Seq<u8>) {
    match f.kind {
        FailureKind::Timeout => (ascii("Timeout Error!"@), timeout_message()),
        FailureKind::RuntimeFailure => (ascii("Runtime Error!"@), simulator_failed_message()),
    }
}

/// Which finalized logs a clean versus drain hands to the transcript fold:
/// the two players' and the simulator's, in any arrival order.
pub open spec fn pvp_mapping(outputs: Seq<(ProcessType, Seq<u8>)>) -> Option<
    (Seq<u8>, Seq<u8>, Seq<u8>),
> {
    if outputs.len() < 3 {
        Option::None
    } else {
        let t0 = outputs[0].0;
        let t1 = outputs[1].0;
        let t2 = outputs[2].0;
        if t0 == ProcessType::RunnerPlayer1 && t1 == ProcessType::RunnerPlayer2 && t2
            == ProcessType::Simulator {
            Option::Some((outputs[0].1, outputs[1].1, outputs[2].1))
        } else if t0 == ProcessType::RunnerPlayer2 && t1 == ProcessType::RunnerPlayer1 && t2
            == ProcessType::Simulator {
            Option::Some((outputs[1].1, outputs[0].1, outputs[2].1))
        } else if t0 == ProcessType::RunnerPlayer1 && t1 == ProcessType::Simulator && t2
            == ProcessType::RunnerPlayer2 {
            Option::Some((outputs[0].1, outputs[2].1, outputs[1].1))
        } else if t0 == ProcessType::RunnerPlayer2 && t1 == ProcessType::Simulator && t2
            == ProcessType::RunnerPlayer1 {
            Option::Some((outputs[2].1, outputs[0].1, outputs[1].1))
        } else if t0 == ProcessType::Simulator && t1 == ProcessType::RunnerPlayer1 && t2
            == ProcessType::RunnerPlayer2 {
            Option::Some((outputs[1].1, outputs[2].1, outputs[0].1))
        } else if t0 == ProcessType::Simulator && t1 == ProcessType::RunnerPlayer2 && t2
            == ProcessType::RunnerPlayer1 {
            Option::Some((outputs[2].1, outputs[1].1, outputs[0].1))
        } else {
            Option::None
        }
    }
}

/// Concludes a versus match once the registry has drained. Player one's
/// failure outranks player two's, which outranks the simulator's; the party
/// at fault is flagged and its opponent told the other player erred. With no
/// failure, the three finalized logs are mapped by tag and folded into the
/// final per-player transcripts.
pub fn conclude_pvp(
    parameters: GameParameters,
    game_id: String,
    outputs: Vec<ProcessLog>,
    failures: Vec<Failure>,
) -> (r: GameStatus)
    ensures
        r.game_id == game_id,
        r.game_result is None,
        ({
            let ov = outputs@.map_values(|p: ProcessLog| p@);
            let fv = failures@;
            if first_failure_of(fv, ProcessType::RunnerPlayer1) is Some {
                let parts = pvp_player_error_parts(
                    first_failure_of(fv, ProcessType::RunnerPlayer1)->0,
                    ov,
                );
                &&& r.game_status == response::GameStatusEnum::EXECUTE_ERROR
                &&& (r.game_result_player1 matches Some(g) && g.has_errors && g.log@
                    == error_log_of(parts.0, parts.1))
                &&& (r.game_result_player2 matches Some(g) && !g.has_errors && g.log@
                    == error_log_of(ascii("Runtime Error!"@), other_player_message()))
            } else if first_failure_of(fv, ProcessType::RunnerPlayer2) is Some {
                let parts = pvp_player_error_parts(
                    first_failure_of(fv, ProcessType::RunnerPlayer2)->0,
                    ov,
                );
                &&& r.game_status == response::GameStatusEnum::EXECUTE_ERROR
                &&& (r.game_result_player1 matches Some(g) && !g.has_errors && g.log@
                    == error_log_of(ascii("Runtime Error!"@), other_player_message()))
                &&& (r.game_result_player2 matches Some(g) && g.has_errors && g.log@
                    == error_log_of(parts.0, parts.1))
            } else if fv.len() > 0 {
                let parts = pvp_simulator_error_parts(fv[0]);
                &&& r.game_status == response::GameStatusEnum::EXECUTE_ERROR
                &&& (r.game_result_player1 matches Some(g) && g.has_errors && g.log@
                    == error_log_of(parts.0, parts.1))
                &&& (r.game_result_player2 matches Some(g) && g.has_errors && g.log@
                    == error_log_of(parts.0, parts.1))
            } else {
                match pvp_mapping(ov) {
                    Option::Some(logs) => {
                        let scan = pvp_scan(
                            lines_of(logs.2),
                            pvp_scan_start(parameters.no_of_coins),
                            turnwise_logs_of(logs.0),
                            turnwise_logs_of(logs.1),
                        );
                        &&& r.game_status == response::GameStatusEnum::EXECUTED
                        &&& (r.game_result_player1 matches Some(g) && !g.has_errors && g.log@
                            == scan.side1.log && g.destruction_percentage@ == scan.side1.destruction
                            && g.coins_used == coins_used_of(
                            parameters.no_of_coins,
                            scan.side1.coins_left,
                        ))
                        &&& (r.game_result_player2 matches Some(g) && !g.has_errors && g.log@
                            == scan.side2.log && g.destruction_percentage@ == scan.side2.destruction
                            && g.coins_used == coins_used_of(
                            parameters.no_of_coins,
                            scan.side2.coins_left,
                        ))
                    },
                    Option::None => {
                        &&& r.game_status == response::GameStatusEnum::EXECUTE_ERROR
                        &&& (r.game_result_player1 matches Some(g) && g.has_errors && g.log@
                            == error_log_of(
                            ascii("Unidentified Error. Contact the POCs!"@),
                            ascii("Failed to map outputs"@),
                        ))
                        &&& (r.game_result_player2 matches Some(g) && g.has_errors && g.log@
                            == error_log_of(
                            ascii("Unidentified Error. Contact the POCs!"@),
                            ascii("Failed to map outputs"@),
                        ))
                    },
                }
            }
        }),
{
    if let Some(f) = find_failure(&failures, ProcessType::RunnerPlayer1) {
        let err1 = pvp_player_error(f, &outputs);
        proof {
            reveal_strlit("the other player threw an error");
        }
        let err2 = SimulatorError::RuntimeError(str_to_bytes("the other player threw an error"));
        return create_pvp_error_response(game_id, err1, err2, true, false);
    }
    if let Some(f) = find_failure(&failures, ProcessType::RunnerPlayer2) {
        let err2 = pvp_player_error(f, &outputs);
        proof {
            reveal_strlit("the other player threw an error");
        }
        let err1 = SimulatorError::RuntimeError(str_to_bytes("the other player threw an error"));
        return create_pvp_error_response(game_id, err1, err2, false, true);
    }
    if failures.len() > 0 {
        let f = failures[0];
        let err1 = pvp_simulator_error(f);
        let err2 = pvp_simulator_error(f);
        return create_pvp_error_response(game_id, err1, err2, true, true);
    }
    if outputs.len() < 3 {
        return pvp_mapping_failed(game_id);
    }
    let mut outputs = outputs;
    let first = outputs.remove(0);
    let second = outputs.remove(0);
    let third = outputs.remove(0);
    match (first.tag, second.tag, third.tag) {
        (ProcessType::RunnerPlayer1, ProcessType::RunnerPlayer2, ProcessType::Simulator) => {
            create_final_pvp_response(parameters, game_id, first.data, second.data, third.data)
        },
        (ProcessType::RunnerPlayer2, ProcessType::RunnerPlayer1, ProcessType::Simulator) => {
            create_final_pvp_response(parameters, game_id, second.data, first.data, third.data)
        },
        (ProcessType::RunnerPlayer1, ProcessType::Simulator, ProcessType::RunnerPlayer2) => {
            create_final_pvp_response(parameters, game_id, first.data, third.data, second.data)
        },
        (ProcessType::RunnerPlayer2, ProcessType::Simulator, ProcessType::RunnerPlayer1) => {
            create_final_pvp_response(parameters, game_id, third.data, first.data, second.data)
        },
        (ProcessType::Simulator, ProcessType::RunnerPlayer1, ProcessType::RunnerPlayer2) => {
            create_final_pvp_response(parameters, game_id, second.data, third.data, first.data)
        },
        (ProcessType::Simulator, ProcessType::RunnerPlayer2, ProcessType::RunnerPlayer1) => {
            create_final_pvp_response(parameters, game_id, third.data, second.data, first.data)
        },
        _ => pvp_mapping_failed(game_id),
    }
}

/// The error a failed player is reported with in a versus match.
fn pvp_player_error(f: Failure, outputs: &Vec<ProcessLog>) -> (r: SimulatorError)
    ensures
        ({
            let parts = pvp_player_error_parts(f, outputs@.map_values(|p: ProcessLog| p@));
            error_log_text(&r) == error_log_of(parts.0, parts.1)
        }),
{
    match f.kind {
        FailureKind::Timeout => {
            proof {
                reveal_strlit("Process exceeded the time limit");
            }
            SimulatorError::TimeOutError(str_to_bytes("Process exceeded the time limit"))
        },
        FailureKind::RuntimeFailure => SimulatorError::RuntimeError(collect_stderr(outputs, f.tag)),
    }
}

/// The error both players are reported with when the simulator failed.
fn pvp_simulator_error(f: Failure) -> (r: SimulatorError)
    ensures
        ({
            let parts = pvp_simulator_error_parts(f);
            error_log_text(&r) == error_log_of(parts.0, parts.1)
        }),
{
    match f.kind {
        FailureKind::Timeout => {
            proof {
                reveal_strlit("Process exceeded the time limit");
            }
            SimulatorError::TimeOutError(str_to_bytes("Process exceeded the time limit"))
        },
        FailureKind::RuntimeFailure => {
            proof {
                reveal_strlit("couldnt communicate with simulator check syntax");
            }
            SimulatorError::RuntimeError(
                str_to_bytes("couldnt communicate with simulator check syntax"),
            )
        },
    }
}

/// The versus status when the finalized logs cannot be mapped to the three
/// participants.
fn pvp_mapping_failed(game_id: String) -> (r: GameStatus)
    ensures
        r.game_id == game_id,
        r.game_status == response::GameStatusEnum::EXECUTE_ERROR,
        r.game_result is None,
        (r.game_result_player1 matches Some(g) && g.has_errors && g.log@ == error_log_of(
            ascii("Unidentified Error. Contact the POCs!"@),
            ascii("Failed to map outputs"@),
        )),
        (r.game_result_player2 matches Some(g) && g.has_errors && g.log@ == error_log_of(
            ascii("Unidentified Error. Contact the POCs!"@),
            ascii("Failed to map outputs"@),
        )),
{
    proof {
        reveal_strlit("Failed to map outputs");
    }
    let err1 = SimulatorError::UnidentifiedError(str_to_bytes("Failed to map outputs"));
    let err2 = SimulatorError::UnidentifiedError(str_to_bytes("Failed to map outputs"));
    create_pvp_error_response(game_id, err1, err2, true, true)
}

/// The intake status: the match is executing; no result yet.
pub fn create_executing_response(game_id: &String) -> (r: GameStatus)
    ensures
        r.game_id@ == game_id@,
        r.game_status == response::GameStatusEnum::EXECUTING,
        r.game_result is None,
        r.game_result_player1 is None,
        r.game_result_player2 is None,
{
    response::GameStatus::new_normal(game_id.clone(), response::GameStatusEnum::EXECUTING, None)
}

} // verus!
