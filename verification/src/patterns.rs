//! The canonical oscillator patterns and their tick-by-tick phases, each
//! phase equality proved against the transition rule. The period statements
//! over arbitrary tick counts live with the other laws.

use crate::rules::step;
use vstd::prelude::*;

verus! {

/// The horizontal three-cell blinker.
pub open spec fn blinker_h() -> Set<(int, int)> {
    set![(1int, 1int), (2int, 1int), (3int, 1int)]
}

/// The vertical phase of the blinker.
pub open spec fn blinker_v() -> Set<(int, int)> {
    set![(2int, 0int), (2int, 1int), (2int, 2int)]
}

/// One tick turns the horizontal blinker into the vertical one and back,
/// and the two phases are different boards.
pub proof fn lemma_blinker_step()
    ensures
        step(blinker_h()) == blinker_v(),
        step(blinker_v()) == blinker_h(),
        blinker_h() != blinker_v(),
{
    reveal(step);
    assert(step(blinker_h()) =~= blinker_v());
    assert(step(blinker_v()) =~= blinker_h());
    assert(blinker_h().contains((1int, 1int)));
    assert(!blinker_v().contains((1int, 1int)));
}

/// The two-by-two block.
pub open spec fn block() -> Set<(int, int)> {
    set![(0int, 0int), (1int, 0int), (0int, 1int), (1int, 1int)]
}

/// One tick leaves the block unchanged.
pub proof fn lemma_block_step()
    ensures
        step(block()) == block(),
{
    reveal(step);
    assert(step(block()) =~= block());
}

/// The toad, six cells in two offset rows.
pub open spec fn toad_a() -> Set<(int, int)> {
    set![(1int, 0int), (2int, 0int), (3int, 0int), (0int, 1int), (1int, 1int), (2int, 1int)]
}

/// The toad's other phase.
pub open spec fn toad_b() -> Set<(int, int)> {
    set![(2int, -1int), (0int, 0int), (3int, 0int), (0int, 1int), (3int, 1int), (1int, 2int)]
}

/// One tick turns each toad phase into the other, and the phases differ.
#[verifier::rlimit(100)]
pub proof fn lemma_toad_step()
    ensures
        step(toad_a()) == toad_b(),
        step(toad_b()) == toad_a(),
        toad_a() != toad_b(),
{
    reveal(step);
    assert(step(toad_a()) =~= toad_b());
    assert(step(toad_b()) =~= toad_a());
    assert(toad_a().contains((1int, 0int)));
    assert(!toad_b().contains((1int, 0int)));
}

/// The beacon, two blocks touching at a corner.
pub open spec fn beacon_a() -> Set<(int, int)> {
    set![
        (0int, 0int),
        (1int, 0int),
        (0int, 1int),
        (1int, 1int),
        (2int, 2int),
        (3int, 2int),
        (2int, 3int),
        (3int, 3int),
    ]
}

/// The beacon's other phase: the two inner corner cells die.
pub open spec fn beacon_b() -> Set<(int, int)> {
    set![(0int, 0int), (1int, 0int), (0int, 1int), (2int, 3int), (3int, 2int), (3int, 3int)]
}

/// One tick kills exactly the beacon's two inner corner cells.
#[verifier::rlimit(100)]
pub proof fn lemma_beacon_step_a()
    ensures
        step(beacon_a()) == beacon_b(),
{
    reveal(step);
    assert(step(beacon_a()) =~= beacon_b());
}

/// One tick revives the beacon's two inner corner cells.
#[verifier::rlimit(100)]
pub proof fn lemma_beacon_step_b()
    ensures
        step(beacon_b()) == beacon_a(),
{
    reveal(step);
    assert(step(beacon_b()) =~= beacon_a());
}

/// The beacon's two phases differ.
pub proof fn lemma_beacon_phases_distinct()
    ensures
        beacon_a() != beacon_b(),
{
    assert(beacon_a().contains((1int, 1int)));
    assert(!beacon_b().contains((1int, 1int)));
}

/// The pulsar, 48 cells in fourfold symmetry.
pub open spec fn pulsar_a() -> Set<(int, int)> {
    set![
        (2int, 0int), (3int, 0int), (4int, 0int), (8int, 0int), (9int, 0int), (10int, 0int),
        (0int, 2int), (5int, 2int), (7int, 2int), (12int, 2int), (0int, 3int), (5int, 3int),
        (7int, 3int), (12int, 3int), (0int, 4int), (5int, 4int), (7int, 4int), (12int, 4int),
        (2int, 5int), (3int, 5int), (4int, 5int), (8int, 5int), (9int, 5int), (10int, 5int),
        (2int, 7int), (3int, 7int), (4int, 7int), (8int, 7int), (9int, 7int), (10int, 7int),
        (0int, 8int), (5int, 8int), (7int, 8int), (12int, 8int), (0int, 9int), (5int, 9int),
        (7int, 9int), (12int, 9int), (0int, 10int), (5int, 10int), (7int, 10int),
        (12int, 10int), (2int, 12int), (3int, 12int), (4int, 12int), (8int, 12int),
        (9int, 12int), (10int, 12int)
    ]
}

/// The pulsar one tick in.
pub open spec fn pulsar_b() -> Set<(int, int)> {
    set![
        (3int, -1int), (9int, -1int), (3int, 0int), (9int, 0int), (3int, 1int), (4int, 1int),
        (8int, 1int), (9int, 1int), (-1int, 3int), (0int, 3int), (1int, 3int), (4int, 3int),
        (5int, 3int), (7int, 3int), (8int, 3int), (11int, 3int), (12int, 3int),
        (13int, 3int), (1int, 4int), (3int, 4int), (5int, 4int), (7int, 4int), (9int, 4int),
        (11int, 4int), (3int, 5int), (4int, 5int), (8int, 5int), (9int, 5int), (3int, 7int),
        (4int, 7int), (8int, 7int), (9int, 7int), (1int, 8int), (3int, 8int), (5int, 8int),
        (7int, 8int), (9int, 8int), (11int, 8int), (-1int, 9int), (0int, 9int), (1int, 9int),
        (4int, 9int), (5int, 9int), (7int, 9int), (8int, 9int), (11int, 9int), (12int, 9int),
        (13int, 9int), (3int, 11int), (4int, 11int), (8int, 11int), (9int, 11int),
        (3int, 12int), (9int, 12int), (3int, 13int), (9int, 13int)
    ]
}

/// The pulsar two ticks in.
pub open spec fn pulsar_c() -> Set<(int, int)> {
    set![
        (2int, 0int), (3int, 0int), (9int, 0int), (10int, 0int), (3int, 1int), (4int, 1int),
        (8int, 1int), (9int, 1int), (0int, 2int), (3int, 2int), (5int, 2int), (7int, 2int),
        (9int, 2int), (12int, 2int), (0int, 3int), (1int, 3int), (2int, 3int), (4int, 3int),
        (5int, 3int), (7int, 3int), (8int, 3int), (10int, 3int), (11int, 3int),
        (12int, 3int), (1int, 4int), (3int, 4int), (5int, 4int), (7int, 4int), (9int, 4int),
        (11int, 4int), (2int, 5int), (3int, 5int), (4int, 5int), (8int, 5int), (9int, 5int),
        (10int, 5int), (2int, 7int), (3int, 7int), (4int, 7int), (8int, 7int), (9int, 7int),
        (10int, 7int), (1int, 8int), (3int, 8int), (5int, 8int), (7int, 8int), (9int, 8int),
        (11int, 8int), (0int, 9int), (1int, 9int), (2int, 9int), (4int, 9int), (5int, 9int),
        (7int, 9int), (8int, 9int), (10int, 9int), (11int, 9int), (12int, 9int),
        (0int, 10int), (3int, 10int), (5int, 10int), (7int, 10int), (9int, 10int),
        (12int, 10int), (3int, 11int), (4int, 11int), (8int, 11int), (9int, 11int),
        (2int, 12int), (3int, 12int), (9int, 12int), (10int, 12int)
    ]
}

/// One tick takes the pulsar phase `a` to phase `b`.
#[verifier::rlimit(100)]
#[verifier::spinoff_prover]
pub proof fn lemma_pulsar_step_a()
    ensures
        step(pulsar_a()) == pulsar_b(),
{
    reveal(step);
    assert(step(pulsar_a()) =~= pulsar_b());
}

/// One tick takes the pulsar phase `b` to phase `c`.
#[verifier::rlimit(100)]
#[verifier::spinoff_prover]
pub proof fn lemma_pulsar_step_b()
    ensures
        step(pulsar_b()) == pulsar_c(),
{
    reveal(step);
    assert(step(pulsar_b()) =~= pulsar_c());
}

/// One tick takes the pulsar phase `c` to phase `a`.
#[verifier::rlimit(100)]
#[verifier::spinoff_prover]
pub proof fn lemma_pulsar_step_c()
    ensures
        step(pulsar_c()) == pulsar_a(),
{
    reveal(step);
    assert(step(pulsar_c()) =~= pulsar_a());
}

/// The pentadecathlon's phase `k` ticks in, for `k` from 0 through 14; any
/// other argument gives the starting phase.
pub open spec fn pentadecathlon_phase(k: int) -> Set<(int, int)> {

    if k == 0 {
        set![
        (2int, 0int), (1int, 1int), (3int, 1int), (0int, 2int), (4int, 2int), (0int, 3int),
        (4int, 3int), (0int, 4int), (4int, 4int), (0int, 5int), (4int, 5int), (0int, 6int),
        (4int, 6int), (0int, 7int), (4int, 7int), (1int, 8int), (3int, 8int), (2int, 9int)
        ]
    } else if k == 1 {
        set![
        (2int, 0int), (1int, 1int), (2int, 1int), (3int, 1int), (0int, 2int), (1int, 2int),
        (3int, 2int), (4int, 2int), (-1int, 3int), (0int, 3int), (1int, 3int), (3int, 3int),
        (4int, 3int), (5int, 3int), (-1int, 4int), (0int, 4int), (1int, 4int), (3int, 4int),
        (4int, 4int), (5int, 4int), (-1int, 5int), (0int, 5int), (1int, 5int), (3int, 5int),
        (4int, 5int), (5int, 5int), (-1int, 6int), (0int, 6int), (1int, 6int), (3int, 6int),
        (4int, 6int), (5int, 6int), (0int, 7int), (1int, 7int), (3int, 7int), (4int, 7int),
        (1int, 8int), (2int, 8int), (3int, 8int), (2int, 9int)
        ]
    } else if k == 2 {
        set![
        (1int, 0int), (2int, 0int), (3int, 0int), (0int, 1int), (4int, 1int), (-1int, 2int),
        (5int, 2int), (-2int, 4int), (6int, 4int), (-2int, 5int), (6int, 5int),
        (-1int, 7int), (5int, 7int), (0int, 8int), (4int, 8int), (1int, 9int), (2int, 9int),
        (3int, 9int)
        ]
    } else if k == 3 {
        set![
        (2int, -1int), (1int, 0int), (2int, 0int), (3int, 0int), (0int, 1int), (1int, 1int),
        (2int, 1int), (3int, 1int), (4int, 1int), (0int, 8int), (1int, 8int), (2int, 8int),
        (3int, 8int), (4int, 8int), (1int, 9int), (2int, 9int), (3int, 9int), (2int, 10int)
        ]
    } else if k == 4 {
        set![
        (1int, -1int), (2int, -1int), (3int, -1int), (0int, 0int), (4int, 0int),
        (0int, 1int), (4int, 1int), (1int, 2int), (2int, 2int), (3int, 2int), (1int, 7int),
        (2int, 7int), (3int, 7int), (0int, 8int), (4int, 8int), (0int, 9int), (4int, 9int),
        (1int, 10int), (2int, 10int), (3int, 10int)
        ]
    } else if k == 5 {
        set![
        (2int, -2int), (1int, -1int), (2int, -1int), (3int, -1int), (0int, 0int),
        (2int, 0int), (4int, 0int), (0int, 1int), (2int, 1int), (4int, 1int), (1int, 2int),
        (2int, 2int), (3int, 2int), (2int, 3int), (2int, 6int), (1int, 7int), (2int, 7int),
        (3int, 7int), (0int, 8int), (2int, 8int), (4int, 8int), (0int, 9int), (2int, 9int),
        (4int, 9int), (1int, 10int), (2int, 10int), (3int, 10int), (2int, 11int)
        ]
    } else if k == 6 {
        set![
        (1int, -2int), (2int, -2int), (3int, -2int), (0int, 0int), (4int, 0int),
        (0int, 1int), (4int, 1int), (1int, 3int), (2int, 3int), (3int, 3int), (1int, 6int),
        (2int, 6int), (3int, 6int), (0int, 8int), (4int, 8int), (0int, 9int), (4int, 9int),
        (1int, 11int), (2int, 11int), (3int, 11int)
        ]
    } else if k == 7 {
        set![
        (2int, -3int), (2int, -2int), (1int, -1int), (2int, -1int), (3int, -1int),
        (1int, 2int), (2int, 2int), (3int, 2int), (2int, 3int), (2int, 4int), (2int, 5int),
        (2int, 6int), (1int, 7int), (2int, 7int), (3int, 7int), (1int, 10int), (2int, 10int),
        (3int, 10int), (2int, 11int), (2int, 12int)
        ]
    } else if k == 8 {
        set![
        (1int, -1int), (2int, -1int), (3int, -1int), (2int, 0int), (2int, 1int),
        (1int, 2int), (2int, 2int), (3int, 2int), (1int, 4int), (2int, 4int), (3int, 4int),
        (1int, 5int), (2int, 5int), (3int, 5int), (1int, 7int), (2int, 7int), (3int, 7int),
        (2int, 8int), (2int, 9int), (1int, 10int), (2int, 10int), (3int, 10int)
        ]
    } else if k == 9 {
        set![
        (2int, -2int), (1int, -1int), (2int, -1int), (3int, -1int), (1int, 2int),
        (2int, 2int), (3int, 2int), (1int, 4int), (3int, 4int), (1int, 5int), (3int, 5int),
        (1int, 7int), (2int, 7int), (3int, 7int), (1int, 10int), (2int, 10int),
        (3int, 10int), (2int, 11int)
        ]
    } else if k == 10 {
        set![
        (1int, -2int), (2int, -2int), (3int, -2int), (1int, -1int), (2int, -1int),
        (3int, -1int), (2int, 0int), (2int, 1int), (2int, 2int), (1int, 3int), (3int, 3int),
        (1int, 6int), (3int, 6int), (2int, 7int), (2int, 8int), (2int, 9int), (1int, 10int),
        (2int, 10int), (3int, 10int), (1int, 11int), (2int, 11int), (3int, 11int)
        ]
    } else if k == 11 {
        set![
        (2int, -3int), (1int, -2int), (3int, -2int), (1int, 1int), (2int, 1int),
        (3int, 1int), (1int, 2int), (2int, 2int), (3int, 2int), (2int, 3int), (2int, 6int),
        (1int, 7int), (2int, 7int), (3int, 7int), (1int, 8int), (2int, 8int), (3int, 8int),
        (1int, 11int), (3int, 11int), (2int, 12int)
        ]
    } else if k == 12 {
        set![
        (2int, -3int), (2int, -2int), (2int, 0int), (1int, 1int), (3int, 1int), (1int, 3int),
        (2int, 3int), (3int, 3int), (1int, 6int), (2int, 6int), (3int, 6int), (1int, 8int),
        (3int, 8int), (2int, 9int), (2int, 11int), (2int, 12int)
        ]
    } else if k == 13 {
        set![
        (2int, 0int), (2int, 1int), (1int, 2int), (3int, 2int), (2int, 3int), (2int, 4int),
        (2int, 5int), (2int, 6int), (1int, 7int), (3int, 7int), (2int, 8int), (2int, 9int)
        ]
    } else if k == 14 {
        set![
        (1int, 1int), (2int, 1int), (3int, 1int), (1int, 2int), (3int, 2int), (1int, 3int),
        (2int, 3int), (3int, 3int), (1int, 4int), (2int, 4int), (3int, 4int), (1int, 5int),
        (2int, 5int), (3int, 5int), (1int, 6int), (2int, 6int), (3int, 6int), (1int, 7int),
        (3int, 7int), (1int, 8int), (2int, 8int), (3int, 8int)
        ]
    } else {
        set![
        (2int, 0int), (1int, 1int), (3int, 1int), (0int, 2int), (4int, 2int), (0int, 3int),
        (4int, 3int), (0int, 4int), (4int, 4int), (0int, 5int), (4int, 5int), (0int, 6int),
        (4int, 6int), (0int, 7int), (4int, 7int), (1int, 8int), (3int, 8int), (2int, 9int)
        ]
    }
}

/// One tick takes the pentadecathlon from phase 0 to phase 1.
#[verifier::rlimit(100)]
#[verifier::spinoff_prover]
pub proof fn lemma_pentadecathlon_step_0()
    ensures
        step(pentadecathlon_phase(0)) == pentadecathlon_phase(1),
{
    reveal(step);
    assert(step(pentadecathlon_phase(0)) =~= pentadecathlon_phase(1));
}

/// One tick takes the pentadecathlon from phase 1 to phase 2.
#[verifier::rlimit(100)]
#[verifier::spinoff_prover]
pub proof fn lemma_pentadecathlon_step_1()
    ensures
        step(pentadecathlon_phase(1)) == pentadecathlon_phase(2),
{
    reveal(step);
    assert(step(pentadecathlon_phase(1)) =~= pentadecathlon_phase(2));
}

/// One tick takes the pentadecathlon from phase 2 to phase 3.
#[verifier::rlimit(100)]
#[verifier::spinoff_prover]
pub proof fn lemma_pentadecathlon_step_2()
    ensures
        step(pentadecathlon_phase(2)) == pentadecathlon_phase(3),
{
    reveal(step);
    assert(step(pentadecathlon_phase(2)) =~= pentadecathlon_phase(3));
}

/// One tick takes the pentadecathlon from phase 3 to phase 4.
#[verifier::rlimit(100)]
#[verifier::spinoff_prover]
pub proof fn lemma_pentadecathlon_step_3()
    ensures
        step(pentadecathlon_phase(3)) == pentadecathlon_phase(4),
{
    reveal(step);
    assert(step(pentadecathlon_phase(3)) =~= pentadecathlon_phase(4));
}

/// One tick takes the pentadecathlon from phase 4 to phase 5.
#[verifier::rlimit(100)]
#[verifier::spinoff_prover]
pub proof fn lemma_pentadecathlon_step_4()
    ensures
        step(pentadecathlon_phase(4)) == pentadecathlon_phase(5),
{
    reveal(step);
    assert(step(pentadecathlon_phase(4)) =~= pentadecathlon_phase(5));
}

/// One tick takes the pentadecathlon from phase 5 to phase 6.
#[verifier::rlimit(100)]
#[verifier::spinoff_prover]
pub proof fn lemma_pentadecathlon_step_5()
    ensures
        step(pentadecathlon_phase(5)) == pentadecathlon_phase(6),
{
    reveal(step);
    assert(step(pentadecathlon_phase(5)) =~= pentadecathlon_phase(6));
}

/// One tick takes the pentadecathlon from phase 6 to phase 7.
#[verifier::rlimit(100)]
#[verifier::spinoff_prover]
pub proof fn lemma_pentadecathlon_step_6()
    ensures
        step(pentadecathlon_phase(6)) == pentadecathlon_phase(7),
{
    reveal(step);
    assert(step(pentadecathlon_phase(6)) =~= pentadecathlon_phase(7));
}

/// One tick takes the pentadecathlon from phase 7 to phase 8.
#[verifier::rlimit(100)]
#[verifier::spinoff_prover]
pub proof fn lemma_pentadecathlon_step_7()
    ensures
        step(pentadecathlon_phase(7)) == pentadecathlon_phase(8),
{
    reveal(step);
    assert(step(pentadecathlon_phase(7)) =~= pentadecathlon_phase(8));
}

/// One tick takes the pentadecathlon from phase 8 to phase 9.
#[verifier::rlimit(100)]
#[verifier::spinoff_prover]
pub proof fn lemma_pentadecathlon_step_8()
    ensures
        step(pentadecathlon_phase(8)) == pentadecathlon_phase(9),
{
    reveal(step);
    assert(step(pentadecathlon_phase(8)) =~= pentadecathlon_phase(9));
}

/// One tick takes the pentadecathlon from phase 9 to phase 10.
#[verifier::rlimit(100)]
#[verifier::spinoff_prover]
pub proof fn lemma_pentadecathlon_step_9()
    ensures
        step(pentadecathlon_phase(9)) == pentadecathlon_phase(10),
{
    reveal(step);
    assert(step(pentadecathlon_phase(9)) =~= pentadecathlon_phase(10));
}

/// One tick takes the pentadecathlon from phase 10 to phase 11.
#[verifier::rlimit(100)]
#[verifier::spinoff_prover]
pub proof fn lemma_pentadecathlon_step_10()
    ensures
        step(pentadecathlon_phase(10)) == pentadecathlon_phase(11),
{
    reveal(step);
    assert(step(pentadecathlon_phase(10)) =~= pentadecathlon_phase(11));
}

/// One tick takes the pentadecathlon from phase 11 to phase 12.
#[verifier::rlimit(100)]
#[verifier::spinoff_prover]
pub proof fn lemma_pentadecathlon_step_11()
    ensures
        step(pentadecathlon_phase(11)) == pentadecathlon_phase(12),
{
    reveal(step);
    assert(step(pentadecathlon_phase(11)) =~= pentadecathlon_phase(12));
}

/// One tick takes the pentadecathlon from phase 12 to phase 13.
#[verifier::rlimit(100)]
#[verifier::spinoff_prover]
pub proof fn lemma_pentadecathlon_step_12()
    ensures
        step(pentadecathlon_phase(12)) == pentadecathlon_phase(13),
{
    reveal(step);
    assert(step(pentadecathlon_phase(12)) =~= pentadecathlon_phase(13));
}

/// One tick takes the pentadecathlon from phase 13 to phase 14.
#[verifier::rlimit(100)]
#[verifier::spinoff_prover]
pub proof fn lemma_pentadecathlon_step_13()
    ensures
        step(pentadecathlon_phase(13)) == pentadecathlon_phase(14),
{
    reveal(step);
    assert(step(pentadecathlon_phase(13)) =~= pentadecathlon_phase(14));
}

/// One tick takes the pentadecathlon from phase 14 to phase 0.
#[verifier::rlimit(100)]
#[verifier::spinoff_prover]
pub proof fn lemma_pentadecathlon_step_14()
    ensures
        step(pentadecathlon_phase(14)) == pentadecathlon_phase(0),
{
    reveal(step);
    assert(step(pentadecathlon_phase(14)) =~= pentadecathlon_phase(0));
}

/// Every later pentadecathlon phase differs from the starting one: the
/// oscillator never shows its first face again before the period is done.
#[verifier::rlimit(100)]
pub proof fn lemma_pentadecathlon_phases_distinct()
    ensures
        forall|k: int| 1 <= k < 15 ==> #[trigger] pentadecathlon_phase(k) != pentadecathlon_phase(0),
{
    // Phase 1 holds a cell the start never has; the start holds (0, 2),
    // which no other phase shows again until the cycle closes.
    assert(pentadecathlon_phase(1).contains((-1int, 3int)));
    assert(!pentadecathlon_phase(0).contains((-1int, 3int)));
    assert(pentadecathlon_phase(0).contains((0int, 2int)));
    assert(!pentadecathlon_phase(2).contains((0int, 2int)));
    assert(!pentadecathlon_phase(3).contains((0int, 2int)));
    assert(!pentadecathlon_phase(4).contains((0int, 2int)));
    assert(!pentadecathlon_phase(5).contains((0int, 2int)));
    assert(!pentadecathlon_phase(6).contains((0int, 2int)));
    assert(!pentadecathlon_phase(7).contains((0int, 2int)));
    assert(!pentadecathlon_phase(8).contains((0int, 2int)));
    assert(!pentadecathlon_phase(9).contains((0int, 2int)));
    assert(!pentadecathlon_phase(10).contains((0int, 2int)));
    assert(!pentadecathlon_phase(11).contains((0int, 2int)));
    assert(!pentadecathlon_phase(12).contains((0int, 2int)));
    assert(!pentadecathlon_phase(13).contains((0int, 2int)));
    assert(!pentadecathlon_phase(14).contains((0int, 2int)));
}

/// Both later pulsar phases differ from the starting one.
pub proof fn lemma_pulsar_phases_distinct()
    ensures
        pulsar_b() != pulsar_a(),
        pulsar_c() != pulsar_a(),
{
    assert(pulsar_a().contains((0int, 2int)));
    assert(!pulsar_b().contains((0int, 2int)));
    assert(pulsar_a().contains((0int, 4int)));
    assert(!pulsar_c().contains((0int, 4int)));
}

} // verus!
