use vstd::prelude::*;
use vstd::string::*;

use crate::roster::{entries, Combatant, Entry};
use crate::text::{decimal, push_char, push_decimal};
use crate::tracker::{Action, App, Mode, State};

verus! {

/// The mark in front of the line under a cursor.
pub open spec fn marker(here: bool) -> Seq<char> {
    if here {
        seq!['>']
    } else {
        Seq::empty()
    }
}

/// One line of a listing: `name: initiative | hp` in full, or the name alone.
pub open spec fn line(e: Entry, here: bool, full: bool) -> Seq<char> {
    if full {
        marker(here) + e.name + ": "@ + decimal(e.initiative as int) + " | "@ + decimal(
            e.hp as int,
        )
    } else {
        marker(here) + e.name
    }
}

/// The lines of a roster listing, the one at `mark` marked.
pub open spec fn lines(r: Seq<Entry>, mark: int, full: bool) -> Seq<Seq<char>> {
    Seq::new(r.len(), |i: int| line(r[i], i == mark, full))
}

/// Lines joined by line breaks.
pub open spec fn joined(ls: Seq<Seq<char>>) -> Seq<char>
    decreases ls.len(),
{
    if ls.len() == 0 {
        Seq::empty()
    } else if ls.len() == 1 {
        ls[0]
    } else {
        joined(ls.drop_last()) + seq!['\n'] + ls.last()
    }
}

/// The heading of the target list for an action.
pub open spec fn title(a: Action) -> Seq<char> {
    match a {
        Action::DealDamage => "Select target for damage"@,
        Action::Heal => "Select target to heal"@,
        Action::Remove => "Select target to remove"@,
        Action::EditName => "Select target to edit name"@,
        Action::EditInitiative => "Select target to edit initiative"@,
    }
}

/// The prompt for the value of an action; a removal asks for none.
pub open spec fn prompt(a: Action) -> Seq<char> {
    match a {
        Action::DealDamage => "Deal damage: "@,
        Action::Heal => "Heal amount: "@,
        Action::EditInitiative => "New initiative: "@,
        Action::EditName => "New name: "@,
        Action::Remove => ""@,
    }
}

/// The text shown for a session.
pub open spec fn layout(s: State) -> Seq<char> {
    match s.mode {
        Mode::Tracker => joined(lines(s.roster, s.turn, true)),
        Mode::AddingCombatant => "Enter name,initiative, hp: "@ + s.buffer,
        Mode::SelectingCombatant { action } => title(action) + ":\n"@ + joined(
            lines(s.roster, s.target, false),
        ),
        Mode::InputValue { action } => prompt(action) + s.buffer,
    }
}

fn title_text(a: Action) -> (r: &'static str)
    ensures
        r@ == title(a),
{
    match a {
        Action::DealDamage => "Select target for damage",
        Action::Heal => "Select target to heal",
        Action::Remove => "Select target to remove",
        Action::EditName => "Select target to edit name",
        Action::EditInitiative => "Select target to edit initiative",
    }
}

fn prompt_text(a: Action) -> (r: &'static str)
    ensures
        r@ == prompt(a),
{
    match a {
        Action::DealDamage => "Deal damage: ",
        Action::Heal => "Heal amount: ",
        Action::EditInitiative => "New initiative: ",
        Action::EditName => "New name: ",
        Action::Remove => "",
    }
}

/// Appends the listing of `roster`, one line per combatant.
fn push_listing(out: &mut String, roster: &Vec<Combatant>, mark: usize, full: bool)
    ensures
        final(out)@ == old(out)@ + joined(lines(entries(roster@), mark as int, full)),
{
    let n = roster.len();
    let ghost r = entries(roster@);
    let ghost ls = lines(r, mark as int, full);
    let mut i: usize = 0;
    assert(ls.take(0) =~= Seq::<Seq<char>>::empty());
    while i < n
        invariant
            n == roster@.len(),
            r == entries(roster@),
            ls == lines(r, mark as int, full),
            i <= n,
            out@ == old(out)@ + joined(ls.take(i as int)),
        decreases n - i,
    {
        let ghost start = out@;
        if i > 0 {
            push_char(out, '\n');
        }
        let ghost mid = out@;
        let c = &roster[i];
        if i == mark {
            push_char(out, '>');
        }
        out.append(c.name.as_str());
        if full {
            out.append(": ");
            push_decimal(out, c.initiative);
            out.append(" | ");
            push_decimal(out, c.hp);
        }
        proof {
            let e = r[i as int];
            assert(e == c@);
            assert(out@ =~= mid + line(e, i == mark, full));
            assert(ls[i as int] == line(e, i == mark, full));
            let t = ls.take(i + 1);
            assert(t.drop_last() =~= ls.take(i as int));
            assert(t.last() == ls[i as int]);
            if i == 0 {
                assert(joined(t) == ls[0]);
            }
            assert(out@ =~= old(out)@ + joined(t));
        }
        i = i + 1;
    }
    assert(ls.take(n as int) =~= ls);
}

impl App {
    /// The text to show for the session as it stands.
    pub fn render(&self) -> (r: String)
        ensures
            r@ == layout(self@),
    {
        let mut out = String::new();
        match self.mode {
            Mode::Tracker => {
                push_listing(&mut out, &self.combatants, self.current_turn, true);
            },
            Mode::AddingCombatant => {
                out.append("Enter name,initiative, hp: ");
                out.append(self.input_buffer.as_str());
            },
            Mode::SelectingCombatant { action } => {
                out.append(title_text(action));
                out.append(":\n");
                push_listing(&mut out, &self.combatants, self.selected_target, false);
            },
            Mode::InputValue { action } => {
                out.append(prompt_text(action));
                out.append(self.input_buffer.as_str());
            },
        }
        assert(out@ =~= layout(self@));
        out
    }
}

} // verus!
