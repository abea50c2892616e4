//! The laws the library promises, proved once and for all: idempotence of
//! the cell mutators, the tick/undo inverse, history-blind equality, and the
//! periodic behavior of the canonical patterns under arbitrarily many ticks.

use crate::board::GameOfLife;
use crate::patterns::{
    beacon_a, beacon_b, blinker_h, blinker_v, block, lemma_beacon_phases_distinct,
    lemma_beacon_step_a, lemma_beacon_step_b, lemma_blinker_step, lemma_block_step,
    lemma_pentadecathlon_phases_distinct, lemma_pentadecathlon_step_0,
    lemma_pentadecathlon_step_1, lemma_pentadecathlon_step_10, lemma_pentadecathlon_step_11,
    lemma_pentadecathlon_step_12, lemma_pentadecathlon_step_13, lemma_pentadecathlon_step_14,
    lemma_pentadecathlon_step_2, lemma_pentadecathlon_step_3, lemma_pentadecathlon_step_4,
    lemma_pentadecathlon_step_5, lemma_pentadecathlon_step_6, lemma_pentadecathlon_step_7,
    lemma_pentadecathlon_step_8, lemma_pentadecathlon_step_9, lemma_pulsar_phases_distinct,
    lemma_pulsar_step_a, lemma_pulsar_step_b, lemma_pulsar_step_c, lemma_toad_step,
    pentadecathlon_phase, pulsar_a, pulsar_b, pulsar_c, toad_a, toad_b,
};
use crate::rules::{push_capped, step, step_n, HISTORY_LIMIT};
use vstd::arithmetic::div_mod::{lemma_fundamental_div_mod, lemma_mod_multiples_vanish, lemma_small_mod};
use vstd::prelude::*;
use vstd::std_specs::cmp::PartialEqSpec;

verus! {

/// Setting a cell twice leaves the same board as setting it once: over the
/// view that `set` ensures, inserting a coordinate is idempotent.
pub proof fn lemma_set_idempotent(s: Set<(int, int)>, x: int, y: int)
    ensures
        s.insert((x, y)).insert((x, y)) == s.insert((x, y)),
{
    assert(s.insert((x, y)).insert((x, y)) =~= s.insert((x, y)));
}

/// Clearing a cell twice leaves the same board as clearing it once: over the
/// view that `unset` ensures, removing a coordinate is idempotent.
pub proof fn lemma_unset_idempotent(s: Set<(int, int)>, x: int, y: int)
    ensures
        s.remove((x, y)).remove((x, y)) == s.remove((x, y)),
{
    assert(s.remove((x, y)).remove((x, y)) =~= s.remove((x, y)));
}

/// A tick followed by an undo restores the pre-tick board: the snapshot a
/// tick pushes is the pre-tick live-cell set, it is what the next undo pops,
/// and what remains of the history is the pre-tick history, trimmed of its
/// oldest entry when the tick found the buffer full.
pub proof fn lemma_tick_then_undo_restores(h: Seq<Set<(int, int)>>, s: Set<(int, int)>)
    ensures
        push_capped(h, s).len() > 0,
        push_capped(h, s).last() == s,
        push_capped(h, s).drop_last() == (if h.len() < HISTORY_LIMIT {
            h
        } else {
            h.drop_first()
        }),
{
    if h.len() < HISTORY_LIMIT {
        assert(push_capped(h, s).drop_last() =~= h);
    } else {
        assert(push_capped(h, s).drop_last() =~= h.drop_first());
    }
}

/// Two boards with the same live cells compare equal under `==`, whatever
/// their histories: equality is structural on the live-cell set alone.
pub proof fn lemma_eq_ignores_history(a: &GameOfLife, b: &GameOfLife)
    requires
        a@ == b@,
    ensures
        a.eq_spec(b),
{
}

/// A state one tick maps to itself stays itself for any number of ticks.
pub proof fn lemma_still_life(s: Set<(int, int)>, n: nat)
    requires
        step(s) == s,
    ensures
        step_n(s, n) == s,
    decreases n,
{
    if n > 0 {
        lemma_still_life(s, (n - 1) as nat);
    }
}

/// A cycle of states, each ticking into the next and the last into the
/// first, repeats forever: after `n` ticks from the first state, the board
/// is the state `n` places around the cycle.
pub proof fn lemma_periodic(phases: Seq<Set<(int, int)>>, n: nat)
    requires
        phases.len() > 0,
        forall|i: int|
            0 <= i < phases.len() ==> #[trigger] step(phases[i]) == phases[(i + 1) % (
            phases.len() as int)],
    ensures
        step_n(phases[0], n) == phases[(n as int) % (phases.len() as int)],
    decreases n,
{
    let len = phases.len() as int;
    lemma_small_mod(0, phases.len());
    if n > 0 {
        lemma_periodic(phases, (n - 1) as nat);
        let m = (n - 1) as int;
        let i = m % len;
        lemma_fundamental_div_mod(m, len);
        let q = m / len;
        assert(step(phases[i]) == phases[(i + 1) % len]);
        if i + 1 == len {
            assert(n as int == len * (q + 1) + 0) by (nonlinear_arith)
                requires
                    m == len * q + i && i + 1 == len && n as int == m + 1,
            ;
            lemma_mod_multiples_vanish(q + 1, 0, len);
            lemma_mod_multiples_vanish(q, i + 1, len);
        } else {
            assert(n as int == len * q + (i + 1));
            lemma_mod_multiples_vanish(q, i + 1, len);
        }
    }
}

/// The blinker returns to its original state after every even number of
/// ticks and shows its different, vertical phase after every odd number; in
/// particular it is back after exactly 2 ticks and changed after exactly 1.
pub proof fn lemma_blinker_period(n: nat)
    ensures
        step_n(blinker_h(), n) == (if n % 2 == 0 {
            blinker_h()
        } else {
            blinker_v()
        }),
        blinker_h() != blinker_v(),
{
    lemma_blinker_step();
    let phases = seq![blinker_h(), blinker_v()];
    lemma_periodic(phases, n);
}

/// The block is a still life: it equals itself after any number of ticks.
pub proof fn lemma_block_still(n: nat)
    ensures
        step_n(block(), n) == block(),
{
    lemma_block_step();
    lemma_still_life(block(), n);
}

/// The toad oscillates with period 2: back to itself after every even
/// number of ticks, in its other, different phase after every odd number.
pub proof fn lemma_toad_period(n: nat)
    ensures
        step_n(toad_a(), n) == (if n % 2 == 0 {
            toad_a()
        } else {
            toad_b()
        }),
        toad_a() != toad_b(),
{
    lemma_toad_step();
    let phases = seq![toad_a(), toad_b()];
    lemma_periodic(phases, n);
}

/// The beacon oscillates with period 2: back to itself after every even
/// number of ticks, in its other, different phase after every odd number.
pub proof fn lemma_beacon_period(n: nat)
    ensures
        step_n(beacon_a(), n) == (if n % 2 == 0 {
            beacon_a()
        } else {
            beacon_b()
        }),
        beacon_a() != beacon_b(),
{
    lemma_beacon_step_a();
    lemma_beacon_step_b();
    lemma_beacon_phases_distinct();
    let phases = seq![beacon_a(), beacon_b()];
    lemma_periodic(phases, n);
}

/// The pulsar oscillates with period 3: after `n` ticks it shows the phase
/// `n` modulo 3 of its cycle, and both later phases differ from the first,
/// so it matches its baseline exactly when the tick count is a multiple
/// of 3.
pub proof fn lemma_pulsar_period(n: nat)
    ensures
        step_n(pulsar_a(), n) == (if n % 3 == 0 {
            pulsar_a()
        } else if n % 3 == 1 {
            pulsar_b()
        } else {
            pulsar_c()
        }),
        pulsar_b() != pulsar_a(),
        pulsar_c() != pulsar_a(),
{
    lemma_pulsar_step_a();
    lemma_pulsar_step_b();
    lemma_pulsar_step_c();
    lemma_pulsar_phases_distinct();
    let phases = seq![pulsar_a(), pulsar_b(), pulsar_c()];
    lemma_periodic(phases, n);
}

/// The pentadecathlon oscillates with period 15: after `n` ticks it shows
/// the phase `n` modulo 15 of its cycle, and every later phase differs from
/// the first, so it matches its baseline exactly when the tick count is a
/// multiple of 15.
pub proof fn lemma_pentadecathlon_period(n: nat)
    ensures
        step_n(pentadecathlon_phase(0), n) == pentadecathlon_phase((n as int) % 15),
        forall|k: int|
            1 <= k < 15 ==> #[trigger] pentadecathlon_phase(k) != pentadecathlon_phase(0),
{
    lemma_pentadecathlon_step_0();
    lemma_pentadecathlon_step_1();
    lemma_pentadecathlon_step_2();
    lemma_pentadecathlon_step_3();
    lemma_pentadecathlon_step_4();
    lemma_pentadecathlon_step_5();
    lemma_pentadecathlon_step_6();
    lemma_pentadecathlon_step_7();
    lemma_pentadecathlon_step_8();
    lemma_pentadecathlon_step_9();
    lemma_pentadecathlon_step_10();
    lemma_pentadecathlon_step_11();
    lemma_pentadecathlon_step_12();
    lemma_pentadecathlon_step_13();
    lemma_pentadecathlon_step_14();
    lemma_pentadecathlon_phases_distinct();
    let phases = Seq::new(15, |k: int| pentadecathlon_phase(k));
    assert forall|i: int| 0 <= i < phases.len() implies #[trigger] step(phases[i]) == phases[(i
        + 1) % (phases.len() as int)] by {
        assert(phases[i] == pentadecathlon_phase(i));
        assert(phases[(i + 1) % 15] == pentadecathlon_phase((i + 1) % 15));
    }
    lemma_periodic(phases, n);
    assert(phases[(n as int) % 15] == pentadecathlon_phase((n as int) % 15));
}

} // verus!
