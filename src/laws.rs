use vstd::prelude::*;

use crate::roster::{advance, lemma_full_cycle, Entry};
use crate::text::{int_or_zero, trimmed};
use crate::tracker::{apply, step, well_formed, Action, Key, Mode, State};

verus! {

/// The session after the same key is pressed `k` times.
pub open spec fn presses(s: State, key: Key, k: nat) -> State
    decreases k,
{
    if k == 0 {
        s
    } else {
        step(presses(s, key, (k - 1) as nat), key)
    }
}

proof fn lemma_down_presses(s: State, k: nat)
    requires
        well_formed(s),
        s.mode is Tracker,
        s.roster.len() > 0,
    ensures
        presses(s, Key::Down, k) == (State {
            turn: advance(s.turn, s.roster.len() as int, k),
            ..s
        }),
    decreases k,
{
    if k > 0 {
        lemma_down_presses(s, (k - 1) as nat);
    }
}

/// While idle with a non-empty roster of `n` combatants, pressing Down `n`
/// times brings the turn cursor, and the whole session, back to where it was.
pub proof fn lemma_turn_wraps_around(s: State)
    requires
        well_formed(s),
        s.mode is Tracker,
        s.roster.len() > 0,
    ensures
        presses(s, Key::Down, s.roster.len()) == s,
{
    lemma_down_presses(s, s.roster.len());
    lemma_full_cycle(s.turn, s.roster.len() as int);
}

/// While idle with a non-empty roster, pressing Up on the first combatant
/// moves the turn cursor to the last one.
pub proof fn lemma_turn_back_from_first(s: State)
    requires
        well_formed(s),
        s.mode is Tracker,
        s.roster.len() > 0,
        s.turn == 0,
    ensures
        step(s, Key::Up).turn == s.roster.len() - 1,
        step(s, Key::Up).roster == s.roster,
{
}

/// Removing the only combatant leaves an empty roster and puts the session in
/// the add mode at once, not in the idle mode.
pub proof fn lemma_last_removal_goes_to_adding(s: State)
    requires
        well_formed(s),
        s.mode == (Mode::SelectingCombatant { action: Action::Remove }),
        s.roster.len() == 1,
    ensures
        step(s, Key::Enter).roster.len() == 0,
        step(s, Key::Enter).mode is AddingCombatant,
        step(s, Key::Enter).buffer.len() == 0,
        well_formed(step(s, Key::Enter)),
{
}

/// Dealing damage and then healing by the same typed amount to the same
/// combatant gives back the roster as it was.
pub proof fn lemma_damage_then_heal(r: Seq<Entry>, t: int, amount: Seq<char>)
    requires
        0 <= t < r.len(),
        i32::MIN <= r[t].hp - int_or_zero(trimmed(amount)) <= i32::MAX,
    ensures
        apply(apply(r, Action::DealDamage, t, amount), Action::Heal, t, amount) == r,
{
    let r2 = apply(apply(r, Action::DealDamage, t, amount), Action::Heal, t, amount);
    assert(r2[t] == r[t]);
    assert(r2 =~= r);
}

/// Esc in the add, selection or value mode goes back to the idle mode with
/// the buffer empty and the selector at zero, and leaves the roster and the
/// turn cursor as they were.
pub proof fn lemma_escape_cancels(s: State)
    requires
        well_formed(s),
        !(s.mode is Tracker),
    ensures
        step(s, Key::Esc).mode is Tracker,
        step(s, Key::Esc).buffer.len() == 0,
        step(s, Key::Esc).target == 0,
        step(s, Key::Esc).roster == s.roster,
        step(s, Key::Esc).turn == s.turn,
        step(s, Key::Esc).quit == s.quit,
{
}

/// Whatever key is pressed, the cursors stay inside a non-empty roster and an
/// empty roster is only ever seen while idle or adding.
pub proof fn lemma_step_keeps_invariant(s: State, k: Key)
    requires
        well_formed(s),
    ensures
        well_formed(step(s, k)),
{
}

} // verus!
