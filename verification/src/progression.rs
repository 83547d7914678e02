use vstd::prelude::*;
use crate::components::{default_position, Position, PositionView};
use crate::consts::{EXP_LOSS_ON_DEATH_PERCENTAGE, MAX_LEVEL};

verus! {

/// The whole-number part of a player's stats: level, experience, the
/// experience at which the next level comes, and unspent stat points.
#[derive(Clone, Copy, Debug, PartialEq, Eq, Structural)]
pub struct Progress {
    pub level: u32,
    pub exp: u32,
    pub exp_next: u32,
    pub stat_points: u8,
}

/// The experience needed to complete `level` levels: 1000 times the square of
/// each level, summed.
pub open spec fn cumulative_exp(level: nat) -> nat
    decreases level,
{
    if level == 0 {
        0
    } else {
        cumulative_exp((level - 1) as nat) + 1000 * level * level
    }
}

proof fn lemma_cumulative_exp_closed_form(level: nat)
    ensures
        6 * cumulative_exp(level) == 1000 * level * (level + 1) * (2 * level + 1),
    decreases level,
{
    if level > 0 {
        let m = (level - 1) as nat;
        lemma_cumulative_exp_closed_form(m);
        let previous = cumulative_exp(m);
        let current = cumulative_exp(level);
        assert(current == previous + 1000 * level * level);
        assert(6 * current == 1000 * level * (level + 1) * (2 * level + 1)) by (nonlinear_arith)
            requires
                6 * previous == 1000 * m * (m + 1) * (2 * m + 1),
                current == previous + 1000 * level * level,
                level == m + 1,
        ;
    } else {
        assert(1000 * level * (level + 1) * (2 * level + 1) == 0) by (nonlinear_arith)
            requires
                level == 0,
        ;
    }
}

/// The experience at which a player at `level` reaches the next level.
pub fn cumulative_exp_at(level: u32) -> (exp: u32)
    requires
        level <= MAX_LEVEL,
    ensures
        exp == cumulative_exp(level as nat),
{
    proof {
        lemma_cumulative_exp_closed_form(level as nat);
    }
    let l = level as u64;
    assert(l * (l + 1) <= 100 * 101) by (nonlinear_arith)
        requires
            l <= 100,
    ;
    let a: u64 = l * (l + 1);
    assert(a * (2 * l + 1) <= 10100 * 201) by (nonlinear_arith)
        requires
            a <= 10100,
            l <= 100,
    ;
    let b: u64 = a * (2 * l + 1);
    let six_times: u64 = 1000 * b;
    assert(six_times == 1000 * level * (level + 1) * (2 * level + 1)) by (nonlinear_arith)
        requires
            six_times == 1000 * b,
            b == a * (2 * l + 1),
            a == l * (l + 1),
            l == level,
    ;
    (six_times / 6) as u32
}

/// Whether a player has the experience for the next level and is below the
/// highest level.
pub open spec fn levels_up(p: Progress) -> bool {
    p.exp >= p.exp_next && p.level < MAX_LEVEL
}

/// The progress one level up: two more stat points, and the experience of the
/// following level to reach, or none at the highest level.
pub open spec fn levelled_up(p: Progress) -> Progress {
    Progress {
        level: (p.level + 1) as u32,
        exp_next: if p.level + 1 >= MAX_LEVEL { 0 } else { cumulative_exp((p.level + 1) as nat) as u32 },
        stat_points: (p.stat_points + 2) as u8,
        ..p
    }
}

/// Moves a player with enough experience up one level, below the highest
/// level; the result says whether it did.
pub fn level_up(progress: &mut Progress) -> (levelled: bool)
    requires
        levels_up(*old(progress)) ==> old(progress).stat_points <= u8::MAX - 2,
    ensures
        levelled == levels_up(*old(progress)),
        *final(progress) == if levelled { levelled_up(*old(progress)) } else { *old(progress) },
{
    if progress.exp >= progress.exp_next && progress.level < MAX_LEVEL {
        progress.level = progress.level + 1;
        if progress.level >= MAX_LEVEL {
            progress.exp_next = 0;
        } else {
            progress.exp_next = cumulative_exp_at(progress.level);
        }
        progress.stat_points = progress.stat_points + 2;
        true
    } else {
        false
    }
}

/// The experience a player loses on dying: five percent, rounded down, once
/// it has more than 100; none otherwise.
pub open spec fn exp_loss(exp: u32) -> int {
    if exp > 100 { exp * EXP_LOSS_ON_DEATH_PERCENTAGE / 100 } else { 0 }
}

/// A dead player comes back: it loses its death's share of experience and is
/// put back at the default position, with that position to be sent. The
/// result is the experience lost.
pub fn respawn_player(progress: &mut Progress, position: &mut Position) -> (lost: u32)
    requires
        old(progress).exp * EXP_LOSS_ON_DEATH_PERCENTAGE <= u32::MAX,
    ensures
        lost == exp_loss(old(progress).exp),
        *final(progress) == (Progress { exp: (old(progress).exp - lost) as u32, ..*old(progress) }),
        final(position)@ == (PositionView { update_available: true, ..default_position() }),
{
    let mut lost: u32 = 0;
    if progress.exp > 100 {
        lost = (progress.exp * EXP_LOSS_ON_DEATH_PERCENTAGE) / 100;
        progress.exp = progress.exp - lost;
    }
    *position = Position::default();
    position.update_available = true;
    lost
}

/// Levelling up raises the level by exactly one, never past the highest
/// level, and gives exactly two stat points; the experience stays.
pub proof fn law_level_up_step(p: Progress)
    requires
        levels_up(p),
        p.stat_points <= u8::MAX - 2,
    ensures
        levelled_up(p).level == p.level + 1,
        levelled_up(p).level <= MAX_LEVEL,
        levelled_up(p).stat_points == p.stat_points + 2,
        levelled_up(p).exp == p.exp,
        levelled_up(p).level == MAX_LEVEL <==> levelled_up(p).exp_next == 0,
{
    if p.level + 1 < MAX_LEVEL {
        lemma_cumulative_exp_positive((p.level + 1) as nat);
        lemma_cumulative_exp_closed_form((p.level + 1) as nat);
        let l = (p.level + 1) as int;
        assert(1000 * l * (l + 1) * (2 * l + 1) <= 1000 * 100 * 101 * 201) by (nonlinear_arith)
            requires
                0 <= l <= 100,
        ;
        assert(cumulative_exp(l as nat) <= u32::MAX);
    }
}

proof fn lemma_cumulative_exp_positive(level: nat)
    requires
        level > 0,
    ensures
        cumulative_exp(level) > 0,
{
    assert(1000 * level * level > 0) by (nonlinear_arith)
        requires
            level > 0,
    ;
    assert(cumulative_exp(level) == cumulative_exp((level - 1) as nat) + 1000 * level * level);
}

/// Dying never costs more experience than a player has, and costs none at
/// 100 or less: what is kept and what is lost add up to what there was.
pub proof fn law_death_exp_loss(exp: u32)
    ensures
        0 <= exp_loss(exp) <= exp,
        exp <= 100 ==> exp_loss(exp) == 0,
{
}

} // verus!
