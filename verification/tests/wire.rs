use cc_driver::request::{Attacker, Defender, GameParameters};
use cc_driver::runner::GameType;
use cc_driver::request::Language;
use cc_driver::text::{fmt_u64, parse_u64, split_lines, trim};
use cc_driver::wire::{format_initial_input, format_initial_pvp_input, format_troops};

fn sample_parameters() -> GameParameters {
    GameParameters {
        attackers: vec![Attacker { id: 1, hp: 10, range: 3, attack_power: 4, speed: 2, price: 7 }],
        defenders: vec![Defender { id: 1, hp: 20, range: 5, attack_power: 6, price: 9 }],
        no_of_turns: 120,
        no_of_coins: 1000,
    }
}

#[test]
fn initial_pvp_payload_layout() {
    let payload = format_initial_pvp_input(&sample_parameters());
    assert_eq!(payload, b"120 1000\n1\n10 3 4 2 7\n1\n20 5 6 0 9\n".to_vec());
}

#[test]
fn initial_solo_payload_appends_the_map() {
    let map = vec![vec![1u8, 0u8], vec![0u8, 2u8]];
    let payload = format_initial_input(&sample_parameters(), &map, 2);
    assert_eq!(
        payload,
        b"120 1000\n1\n10 3 4 2 7\n1\n20 5 6 0 9\n2 2\n1 0 \n0 2 \n".to_vec()
    );
}

#[test]
fn troops_payload_counts_come_first() {
    let payload = format_troops(&vec![], &vec![]);
    assert_eq!(payload, b"0\n0\n".to_vec());
}

#[test]
fn parse_u64_accepts_digits_only() {
    assert_eq!(parse_u64(b"0"), Some(0));
    assert_eq!(parse_u64(b"42"), Some(42));
    assert_eq!(parse_u64(b"18446744073709551615"), Some(u64::MAX));
    assert_eq!(parse_u64(b"18446744073709551616"), None);
    assert_eq!(parse_u64(b""), None);
    assert_eq!(parse_u64(b"1a"), None);
    assert_eq!(parse_u64(b"-1"), None);
    assert_eq!(parse_u64(b"+1"), None);
}

#[test]
fn fmt_u64_writes_decimal() {
    assert_eq!(fmt_u64(0), b"0".to_vec());
    assert_eq!(fmt_u64(7), b"7".to_vec());
    assert_eq!(fmt_u64(120), b"120".to_vec());
    assert_eq!(fmt_u64(u64::MAX), b"18446744073709551615".to_vec());
}

#[test]
fn split_lines_matches_line_semantics() {
    let lines = split_lines(b"a\r\n\nb");
    assert_eq!(lines, vec![b"a".to_vec(), b"".to_vec(), b"b".to_vec()]);
    let empty: Vec<Vec<u8>> = vec![];
    assert_eq!(split_lines(b""), empty);
    assert_eq!(split_lines(b"x\n"), vec![b"x".to_vec()]);
}

#[test]
fn trim_strips_surrounding_whitespace() {
    assert_eq!(trim(b"  TURN, 1 \r"), b"TURN, 1".to_vec());
    assert_eq!(trim(b"\t\n"), b"".to_vec());
    assert_eq!(trim(b"x"), b"x".to_vec());
}

#[test]
fn entry_file_names_follow_mode_and_language() {
    assert_eq!(GameType::NormalGame.file_name(Language::CPP), "run");
    assert_eq!(GameType::NormalGame.file_name(Language::PYTHON), "run");
    assert_eq!(GameType::NormalGame.file_name(Language::JAVA), "Run");
    assert_eq!(GameType::PvPGame.file_name(Language::CPP), "runpvp");
    assert_eq!(GameType::PvPGame.file_name(Language::PYTHON), "runpvp");
    assert_eq!(GameType::PvPGame.file_name(Language::JAVA), "RunPvp");
    assert_eq!(GameType::NormalGame.to_string(), "normal".to_owned());
    assert_eq!(GameType::PvPGame.to_string(), "pvp".to_owned());
}
