//! The pipe wire format: the initial game parameters written into the
//! children's pipes before they start reading.
//!
//! The payloads are computed and verified here; writing them into the pipes
//! is the caller's concern.
use vstd::prelude::*;

use crate::request::{Attacker, Defender, GameParameters};
use crate::text::{dec_str, fmt_u64, push_all};

verus! {

/// The first line: turn budget and coin budget.
pub open spec fn game_header(no_of_turns: u32, no_of_coins: u32) -> Seq<u8> {
    dec_str(no_of_turns as nat) + seq![32u8] + dec_str(no_of_coins as nat) + seq![10u8]
}

/// One attacker: hit points, range, attack power, speed, price.
pub open spec fn attacker_line(a: Attacker) -> Seq<u8> {
    dec_str(a.hp as nat) + seq![32u8] + dec_str(a.range as nat) + seq![32u8] + dec_str(
        a.attack_power as nat,
    ) + seq![32u8] + dec_str(a.speed as nat) + seq![32u8] + dec_str(a.price as nat) + seq![10u8]
}

/// One defender: hit points, range, attack power, a zero in the speed
/// column (defenders have none), price.
pub open spec fn defender_line(d: Defender) -> Seq<u8> {
    dec_str(d.hp as nat) + seq![32u8] + dec_str(d.range as nat) + seq![32u8] + dec_str(
        d.attack_power as nat,
    ) + seq![32u8] + seq![48u8] + seq![32u8] + dec_str(d.price as nat) + seq![10u8]
}

pub open spec fn attacker_lines(s: Seq<Attacker>) -> Seq<u8>
    decreases s.len(),
{
    if s.len() == 0 {
        Seq::empty()
    } else {
        attacker_line(s[0]) + attacker_lines(s.skip(1))
    }
}

pub open spec fn defender_lines(s: Seq<Defender>) -> Seq<u8>
    decreases s.len(),
{
    if s.len() == 0 {
        Seq::empty()
    } else {
        defender_line(s[0]) + defender_lines(s.skip(1))
    }
}

/// The unit catalogs: each count on a line of its own, then one line per
/// unit.
pub open spec fn troops_payload(attackers: Seq<Attacker>, defenders: Seq<Defender>) -> Seq<u8> {
    dec_str(attackers.len()) + seq![10u8] + attacker_lines(attackers) + dec_str(defenders.len())
        + seq![10u8] + defender_lines(defenders)
}

/// One map row: each cell followed by a space, the row closed by a line
/// feed.
pub open spec fn map_row(row: Seq<u8>) -> Seq<u8>
    decreases row.len(),
{
    if row.len() == 0 {
        seq![10u8]
    } else {
        dec_str(row[0] as nat) + seq![32u8] + map_row(row.skip(1))
    }
}

pub open spec fn map_rows(map: Seq<Seq<u8>>) -> Seq<u8>
    decreases map.len(),
{
    if map.len() == 0 {
        Seq::empty()
    } else {
        map_row(map[0]) + map_rows(map.skip(1))
    }
}

/// The map block: the configured size twice (rows and columns), then the
/// rows.
pub open spec fn map_block(map: Seq<Seq<u8>>, map_size: u64) -> Seq<u8> {
    dec_str(map_size as nat) + seq![32u8] + dec_str(map_size as nat) + seq![10u8] + map_rows(map)
}

/// What a solo child reads before its first turn: header, catalogs, map.
pub open spec fn initial_input_payload(
    no_of_turns: u32,
    no_of_coins: u32,
    attackers: Seq<Attacker>,
    defenders: Seq<Defender>,
    map: Seq<Seq<u8>>,
    map_size: u64,
) -> Seq<u8> {
    game_header(no_of_turns, no_of_coins) + troops_payload(attackers, defenders) + map_block(
        map,
        map_size,
    )
}

/// What a versus child reads before its first turn: header and catalogs;
/// versus matches carry no map.
pub open spec fn initial_pvp_payload(
    no_of_turns: u32,
    no_of_coins: u32,
    attackers: Seq<Attacker>,
    defenders: Seq<Defender>,
) -> Seq<u8> {
    game_header(no_of_turns, no_of_coins) + troops_payload(attackers, defenders)
}

/// Appends a number in decimal.
fn push_u64(dst: &mut Vec<u8>, n: u64)
    ensures
        final(dst)@ == old(dst)@ + dec_str(n as nat),
{
    let digits = fmt_u64(n);
    push_all(dst, digits.as_slice());
}

/// Appends the two unit catalogs.
fn push_troops(dst: &mut Vec<u8>, attackers: &Vec<Attacker>, defenders: &Vec<Defender>)
    ensures
        final(dst)@ == old(dst)@ + troops_payload(attackers@, defenders@),
{
    push_u64(dst, attackers.len() as u64);
    dst.push(10);
    let ghost base = dst@;
    let mut i: usize = 0;
    proof {
        assert(attackers@.skip(0) =~= attackers@);
    }
    while i < attackers.len()
        invariant
            0 <= i <= attackers@.len(),
            base + attacker_lines(attackers@) =~= dst@ + attacker_lines(attackers@.skip(i as int)),
        decreases attackers@.len() - i,
    {
        proof {
            assert(attackers@.skip(i as int)[0] == attackers@[i as int]);
            assert(attackers@.skip(i as int).skip(1) =~= attackers@.skip(i + 1));
        }
        let a = attackers[i];
        let ghost before = dst@;
        push_u64(dst, a.hp as u64);
        dst.push(32);
        push_u64(dst, a.range as u64);
        dst.push(32);
        push_u64(dst, a.attack_power as u64);
        dst.push(32);
        push_u64(dst, a.speed as u64);
        dst.push(32);
        push_u64(dst, a.price as u64);
        dst.push(10);
        proof {
            assert(dst@ =~= before + attacker_line(attackers@[i as int]));
            assert(before + attacker_line(attackers@[i as int]) + attacker_lines(
                attackers@.skip(i + 1),
            ) =~= before + attacker_lines(attackers@.skip(i as int)));
        }
        i = i + 1;
    }
    proof {
        assert(attacker_lines(attackers@.skip(attackers@.len() as int)) =~= Seq::<u8>::empty());
        assert(dst@ =~= base + attacker_lines(attackers@));
    }
    push_u64(dst, defenders.len() as u64);
    dst.push(10);
    let ghost base2 = dst@;
    let mut j: usize = 0;
    proof {
        assert(defenders@.skip(0) =~= defenders@);
    }
    while j < defenders.len()
        invariant
            0 <= j <= defenders@.len(),
            base2 + defender_lines(defenders@) =~= dst@ + defender_lines(defenders@.skip(j as int)),
        decreases defenders@.len() - j,
    {
        proof {
            assert(defenders@.skip(j as int)[0] == defenders@[j as int]);
            assert(defenders@.skip(j as int).skip(1) =~= defenders@.skip(j + 1));
        }
        let d = defenders[j];
        let ghost before = dst@;
        push_u64(dst, d.hp as u64);
        dst.push(32);
        push_u64(dst, d.range as u64);
        dst.push(32);
        push_u64(dst, d.attack_power as u64);
        dst.push(32);
        dst.push(48);
        dst.push(32);
        push_u64(dst, d.price as u64);
        dst.push(10);
        proof {
            assert(dst@ =~= before + defender_line(defenders@[j as int]));
            assert(before + defender_line(defenders@[j as int]) + defender_lines(
                defenders@.skip(j + 1),
            ) =~= before + defender_lines(defenders@.skip(j as int)));
        }
        j = j + 1;
    }
    proof {
        assert(defender_lines(defenders@.skip(defenders@.len() as int)) =~= Seq::<u8>::empty());
        assert(dst@ =~= old(dst)@ + troops_payload(attackers@, defenders@));
    }
}

/// The initial payload of a versus match, ready to be written into a pipe.
pub fn format_initial_pvp_input(parameters: &GameParameters) -> (r: Vec<u8>)
    ensures
        r@ == initial_pvp_payload(
            parameters.no_of_turns,
            parameters.no_of_coins,
            parameters.attackers@,
            parameters.defenders@,
        ),
{
    let mut r: Vec<u8> = Vec::new();
    push_u64(&mut r, parameters.no_of_turns as u64);
    r.push(32);
    push_u64(&mut r, parameters.no_of_coins as u64);
    r.push(10);
    proof {
        assert(r@ =~= game_header(parameters.no_of_turns, parameters.no_of_coins));
    }
    push_troops(&mut r, &parameters.attackers, &parameters.defenders);
    r
}

/// The initial payload of a solo match, map included, ready to be written
/// into a pipe.
pub fn format_initial_input(parameters: &GameParameters, map: &Vec<Vec<u8>>, map_size: u64) -> (r:
    Vec<u8>)
    ensures
        r@ == initial_input_payload(
            parameters.no_of_turns,
            parameters.no_of_coins,
            parameters.attackers@,
            parameters.defenders@,
            map.deep_view(),
            map_size,
        ),
{
    let mut r = format_initial_pvp_input(parameters);
    push_u64(&mut r, map_size);
    r.push(32);
    push_u64(&mut r, map_size);
    r.push(10);
    let ghost rows = map.deep_view();
    let ghost base = r@;
    let mut i: usize = 0;
    proof {
        assert(rows.skip(0) =~= rows);
    }
    while i < map.len()
        invariant
            0 <= i <= map@.len(),
            rows == map.deep_view(),
            base + map_rows(rows) =~= r@ + map_rows(rows.skip(i as int)),
        decreases map@.len() - i,
    {
        proof {
            assert(rows.skip(i as int)[0] == rows[i as int]);
            assert(rows.skip(i as int).skip(1) =~= rows.skip(i + 1));
            assert(rows[i as int] =~= map@[i as int]@);
        }
        let row = &map[i];
        let ghost cells = rows[i as int];
        let ghost before = r@;
        let mut k: usize = 0;
        proof {
            assert(cells.skip(0) =~= cells);
        }
        while k < row.len()
            invariant
                0 <= k <= row@.len(),
                cells == row@,
                before + map_row(cells) =~= r@ + map_row(cells.skip(k as int)),
            decreases row@.len() - k,
        {
            proof {
                assert(cells.skip(k as int)[0] == cells[k as int]);
                assert(cells.skip(k as int).skip(1) =~= cells.skip(k + 1));
            }
            let ghost at = r@;
            let cell = row[k];
            push_u64(&mut r, cell as u64);
            r.push(32);
            proof {
                assert(r@ =~= at + (dec_str(cells[k as int] as nat) + seq![32u8]));
                assert(at + (dec_str(cells[k as int] as nat) + seq![32u8]) + map_row(
                    cells.skip(k + 1),
                ) =~= at + map_row(cells.skip(k as int)));
            }
            k = k + 1;
        }
        r.push(10);
        proof {
            assert(map_row(cells.skip(cells.len() as int)) =~= seq![10u8]);
            assert(r@ =~= before + map_row(cells));
            assert(before + map_row(cells) + map_rows(rows.skip(i + 1)) =~= before + map_rows(
                rows.skip(i as int),
            ));
        }
        i = i + 1;
    }
    proof {
        assert(map_rows(rows.skip(rows.len() as int)) =~= Seq::<u8>::empty());
        assert(r@ =~= base + map_rows(rows));
    }
    r
}

/// The unit catalogs alone, as the pre-feed writes them.
pub fn format_troops(attackers: &Vec<Attacker>, defenders: &Vec<Defender>) -> (r: Vec<u8>)
    ensures
        r@ == troops_payload(attackers@, defenders@),
{
    let mut r: Vec<u8> = Vec::new();
    push_troops(&mut r, attackers, defenders);
    proof {
        assert(r@ =~= troops_payload(attackers@, defenders@));
    }
    r
}

} // verus!
