use vstd::prelude::*;
use vstd::string::*;

use crate::roster::{
    clamp_cursor, clamp_index, entries, next_index, prev_index, step_back, step_forward,
    by_initiative, seat, Combatant, Entry,
};
use crate::text::{
    fields, find_commas, int_or_default, int_or_zero, pop_char, push_char, trim, trimmed,
};

verus! {

/// A key press, as the tracker reads it.
#[derive(Clone, Copy, PartialEq, Eq, Structural, Debug)]
pub enum Key {
    Char(char),
    Up,
    Down,
    Enter,
    Esc,
    Backspace,
    Other,
}

/// A change that can be made to one combatant.
#[derive(Clone, Copy, PartialEq, Eq, Structural, Debug)]
pub enum Action {
    DealDamage,
    Heal,
    Remove,
    EditName,
    EditInitiative,
}

/// The step of an interaction that the tracker is in.
#[derive(Clone, Copy, PartialEq, Eq, Structural, Debug)]
pub enum Mode {
    Tracker,
    AddingCombatant,
    SelectingCombatant { action: Action },
    InputValue { action: Action },
}

/// The whole session: the roster, its cursors, and the interaction under way.
pub struct App {
    pub combatants: Vec<Combatant>,
    pub current_turn: usize,
    pub selected_target: usize,
    pub mode: Mode,
    pub input_buffer: String,
    pub should_quit: bool,
}

/// A session as a mathematical value.
pub struct State {
    pub roster: Seq<Entry>,
    pub turn: int,
    pub target: int,
    pub mode: Mode,
    pub buffer: Seq<char>,
    pub quit: bool,
}

impl View for App {
    type V = State;

    open spec fn view(&self) -> State {
        State {
            roster: entries(self.combatants@),
            turn: self.current_turn as int,
            target: self.selected_target as int,
            mode: self.mode,
            buffer: self.input_buffer@,
            quit: self.should_quit,
        }
    }
}

/// Both cursors point into a non-empty roster; an empty roster is only ever
/// seen while idle or while adding; the selector rests at zero outside a
/// selection; and a removal never waits for a value.
pub open spec fn well_formed(s: State) -> bool {
    &&& s.roster.len() > 0 ==> 0 <= s.turn < s.roster.len() && 0 <= s.target < s.roster.len()
    &&& s.roster.len() == 0 ==> s.turn == 0 && s.target == 0 && (s.mode is Tracker
        || s.mode is AddingCombatant)
    &&& (s.mode is Tracker || s.mode is AddingCombatant) ==> s.target == 0
    &&& s.mode != (Mode::InputValue { action: Action::Remove })
}

/// The action that a letter starts from the idle mode.
pub open spec fn action_of(c: char) -> Option<Action> {
    if c == 'd' {
        Some(Action::DealDamage)
    } else if c == 'h' {
        Some(Action::Heal)
    } else if c == 'r' {
        Some(Action::Remove)
    } else if c == 'e' {
        Some(Action::EditName)
    } else if c == 'i' {
        Some(Action::EditInitiative)
    } else {
        None
    }
}

/// The combatant that a line of the form `name, initiative, hp` describes:
/// exactly three comma-separated fields, each trimmed, numbers that do not
/// parse read as zero.
pub open spec fn parse_entry(s: Seq<char>) -> Option<Entry> {
    let f = fields(s);
    if f.len() == 3 {
        Some(
            Entry {
                name: trimmed(f[0]),
                initiative: int_or_zero(trimmed(f[1])),
                hp: int_or_zero(trimmed(f[2])),
            },
        )
    } else {
        None
    }
}

/// `s` in mode `m`, with an empty buffer.
pub open spec fn enter_mode(s: State, m: Mode) -> State {
    State { mode: m, buffer: Seq::empty(), ..s }
}

/// Back to the idle mode, with the buffer cleared and the selector at zero.
pub open spec fn cancel(s: State) -> State {
    State { mode: Mode::Tracker, buffer: Seq::empty(), target: 0, ..s }
}

/// Removing the last character of the buffer, if there is one.
pub open spec fn backspace(s: State) -> State {
    if s.buffer.len() > 0 {
        State { buffer: s.buffer.drop_last(), ..s }
    } else {
        s
    }
}

/// The idle mode's answer to a key.
pub open spec fn tracker_step(s: State, k: Key) -> State {
    let n = s.roster.len() as int;
    match k {
        Key::Down => if n > 0 {
            State { turn: next_index(s.turn, n), ..s }
        } else {
            s
        },
        Key::Up => if n > 0 {
            State { turn: prev_index(s.turn, n), ..s }
        } else {
            s
        },
        Key::Char(c) => if c == 'a' {
            enter_mode(s, Mode::AddingCombatant)
        } else if c == 'q' {
            State { quit: true, ..s }
        } else {
            match action_of(c) {
                Some(action) => if n > 0 {
                    State { target: 0, ..enter_mode(s, Mode::SelectingCombatant { action }) }
                } else {
                    enter_mode(s, Mode::AddingCombatant)
                },
                None => s,
            }
        },
        _ => s,
    }
}

/// The add mode's answer to a key.
pub open spec fn adding_step(s: State, k: Key) -> State {
    match k {
        Key::Enter => {
            let t = enter_mode(s, Mode::Tracker);
            match parse_entry(s.buffer) {
                Some(e) => State { roster: s.roster.push(e), ..t },
                None => t,
            }
        },
        Key::Char(c) => State { buffer: s.buffer.push(c), ..s },
        Key::Backspace => backspace(s),
        Key::Esc => enter_mode(s, Mode::Tracker),
        _ => s,
    }
}

/// Removing the selected combatant: the turn cursor is kept inside the roster
/// that is left, and an empty roster sends the session to the add mode.
pub open spec fn remove_selected(s: State) -> State {
    let r = s.roster.remove(s.target);
    if r.len() == 0 {
        State { roster: r, target: 0, ..enter_mode(s, Mode::AddingCombatant) }
    } else {
        State {
            roster: r,
            turn: clamp_index(s.turn, r.len() as int),
            target: 0,
            mode: Mode::Tracker,
            ..s
        }
    }
}

/// The selection mode's answer to a key, while `action` waits for a target.
pub open spec fn selecting_step(s: State, k: Key, action: Action) -> State {
    let n = s.roster.len() as int;
    match k {
        Key::Down => State { target: next_index(s.target, n), ..s },
        Key::Up => State { target: prev_index(s.target, n), ..s },
        Key::Enter => if action == Action::Remove {
            remove_selected(s)
        } else {
            enter_mode(s, Mode::InputValue { action })
        },
        Key::Esc => cancel(s),
        _ => s,
    }
}

/// `e` with its hit points replaced.
pub open spec fn with_hp(e: Entry, hp: int) -> Entry {
    Entry { name: e.name, initiative: e.initiative, hp: hp as i32 }
}

/// What a committed action does to the roster, given the value typed for it
/// (read as a number, or as the raw text for a new name).
pub open spec fn apply(r: Seq<Entry>, action: Action, t: int, text: Seq<char>) -> Seq<Entry> {
    let v = int_or_zero(trimmed(text));
    let e = r[t];
    match action {
        Action::DealDamage => r.update(t, with_hp(e, e.hp - v)),
        Action::Heal => r.update(t, with_hp(e, e.hp + v)),
        Action::EditName => r.update(t, Entry { name: text, initiative: e.initiative, hp: e.hp }),
        Action::EditInitiative => r.update(t, Entry { name: e.name, initiative: v, hp: e.hp }),
        Action::Remove => r,
    }
}

/// The value mode's answer to a key, while `action` waits for its value.
pub open spec fn input_step(s: State, k: Key, action: Action) -> State {
    match k {
        Key::Enter => State { roster: apply(s.roster, action, s.target, s.buffer), ..cancel(s) },
        Key::Char(c) => State { buffer: s.buffer.push(c), ..s },
        Key::Backspace => backspace(s),
        Key::Esc => cancel(s),
        _ => s,
    }
}

/// The session after one key press.
pub open spec fn step(s: State, k: Key) -> State {
    match s.mode {
        Mode::Tracker => tracker_step(s, k),
        Mode::AddingCombatant => adding_step(s, k),
        Mode::SelectingCombatant { action } => selecting_step(s, k, action),
        Mode::InputValue { action } => input_step(s, k, action),
    }
}

/// Committing damage or healing keeps the hit points within 32 bits.
pub open spec fn commit_fits(s: State, k: Key) -> bool {
    match s.mode {
        Mode::InputValue { action } => (k == Key::Enter && 0 <= s.target < s.roster.len()) ==> {
            let v = int_or_zero(trimmed(s.buffer)) as int;
            let hp = s.roster[s.target].hp as int;
            match action {
                Action::DealDamage => i32::MIN <= hp - v <= i32::MAX,
                Action::Heal => i32::MIN <= hp + v <= i32::MAX,
                _ => true,
            }
        },
        _ => true,
    }
}

/// The action that a letter starts from the idle mode, if any.
pub fn action_for(c: char) -> (r: Option<Action>)
    ensures
        r == action_of(c),
{
    if c == 'd' {
        Some(Action::DealDamage)
    } else if c == 'h' {
        Some(Action::Heal)
    } else if c == 'r' {
        Some(Action::Remove)
    } else if c == 'e' {
        Some(Action::EditName)
    } else if c == 'i' {
        Some(Action::EditInitiative)
    } else {
        None
    }
}

/// Reads a line of the form `name, initiative, hp` into a combatant.
pub fn parse_combatant(s: &str) -> (r: Option<Combatant>)
    ensures
        r is Some <==> parse_entry(s@) is Some,
        r is Some ==> r->0@ == parse_entry(s@)->0,
{
    let commas = find_commas(s);
    if commas.count == 2 {
        let n = s.unicode_len();
        let name = trim(s.substring_char(0, commas.first));
        let initiative = trim(s.substring_char(commas.first + 1, commas.second));
        let hp = trim(s.substring_char(commas.second + 1, n));
        Some(
            Combatant {
                name,
                initiative: int_or_default(initiative.as_str()),
                hp: int_or_default(hp.as_str()),
            },
        )
    } else {
        None
    }
}

impl App {
    /// The session keeps the invariant of `well_formed`.
    pub open spec fn wf(&self) -> bool {
        well_formed(self@)
    }

    /// A session with the starting roster seated by initiative, idle.
    pub fn new() -> (r: Self)
        ensures
            r.wf(),
            r@.roster == seq![
                Entry { name: "Sam"@, initiative: 16, hp: 35 },
                Entry { name: "Gollum"@, initiative: 11, hp: 20 },
                Entry { name: "Frodo"@, initiative: 8, hp: 30 },
            ],
            by_initiative(r@.roster),
            r@.turn == 0,
            r@.target == 0,
            r@.mode == Mode::Tracker,
            r@.buffer.len() == 0,
            !r@.quit,
    {
        let mut combatants: Vec<Combatant> = Vec::new();
        assert(entries(combatants@) =~= Seq::<Entry>::empty());
        let frodo = Combatant { name: String::from_str("Frodo"), initiative: 8, hp: 30 };
        let ghost f = frodo@;
        seat(&mut combatants, frodo);
        assert(entries(combatants@) =~= seq![f]);
        let sam = Combatant { name: String::from_str("Sam"), initiative: 16, hp: 35 };
        let ghost s = sam@;
        assert(entries(combatants@)[0].initiative == 8);
        let at = seat(&mut combatants, sam);
        assert(at == 0);
        assert(entries(combatants@) =~= seq![s, f]);
        let gollum = Combatant { name: String::from_str("Gollum"), initiative: 11, hp: 20 };
        let ghost g = gollum@;
        assert(entries(combatants@)[0].initiative == 16 && entries(combatants@)[1].initiative == 8);
        let at = seat(&mut combatants, gollum);
        assert(at == 1);
        assert(entries(combatants@) =~= seq![s, g, f]);
        App {
            combatants,
            current_turn: 0,
            selected_target: 0,
            mode: Mode::Tracker,
            input_buffer: String::new(),
            should_quit: false,
        }
    }

    /// The tracker handles one key press.
    pub fn handle_key(&mut self, key: Key)
        requires
            old(self).wf(),
            commit_fits(old(self)@, key),
        ensures
            final(self).wf(),
            final(self)@ == step(old(self)@, key),
    {
        match self.mode {
            Mode::Tracker => self.handle_tracker_key(key),
            Mode::AddingCombatant => self.handle_adding_combatant_key(key),
            Mode::SelectingCombatant { action } => self.handle_selecting_combatant_key(key, action),
            Mode::InputValue { action } => self.handle_input_value_key(key, action),
        }
    }

    /// Whether `handle_key` may take `key` now: committing damage or healing
    /// must leave the hit points within 32 bits.
    pub fn fits(&self, key: Key) -> (r: bool)
        requires
            self.wf(),
        ensures
            r == commit_fits(self@, key),
    {
        match self.mode {
            Mode::InputValue { action } => {
                if key == Key::Enter && self.selected_target < self.combatants.len() {
                    let v = int_or_default(trim(self.input_buffer.as_str()).as_str()) as i64;
                    let hp = self.combatants[self.selected_target].hp as i64;
                    match action {
                        Action::DealDamage => -2147483648 <= hp - v && hp - v <= 2147483647,
                        Action::Heal => -2147483648 <= hp + v && hp + v <= 2147483647,
                        _ => true,
                    }
                } else {
                    true
                }
            },
            _ => true,
        }
    }

    /// A key pressed while idle: move the turn cursor, start an action, or quit.
    pub fn handle_tracker_key(&mut self, code: Key)
        requires
            old(self).wf(),
            old(self).mode is Tracker,
        ensures
            final(self).wf(),
            final(self)@ == tracker_step(old(self)@, code),
    {
        let n = self.combatants.len();
        match code {
            Key::Down => {
                if n > 0 {
                    self.current_turn = step_forward(self.current_turn, n);
                }
            },
            Key::Up => {
                if n > 0 {
                    self.current_turn = step_back(self.current_turn, n);
                }
            },
            Key::Char(c) => {
                if c == 'a' {
                    self.mode = Mode::AddingCombatant;
                    self.input_buffer = String::new();
                } else if c == 'q' {
                    self.should_quit = true;
                } else {
                    match action_for(c) {
                        Some(action) => {
                            if n > 0 {
                                self.mode = Mode::SelectingCombatant { action };
                                self.selected_target = 0;
                            } else {
                                self.mode = Mode::AddingCombatant;
                            }
                            self.input_buffer = String::new();
                        },
                        None => {},
                    }
                }
            },
            _ => {},
        }
        assert(self@.buffer == self.input_buffer@);
    }

    /// A key pressed while a new combatant is typed in.
    pub fn handle_adding_combatant_key(&mut self, code: Key)
        requires
            old(self).wf(),
            old(self).mode is AddingCombatant,
        ensures
            final(self).wf(),
            final(self)@ == adding_step(old(self)@, code),
    {
        match code {
            Key::Enter => {
                self.mode = Mode::Tracker;
                match parse_combatant(self.input_buffer.as_str()) {
                    Some(c) => {
                        self.combatants.push(c);
                        assert(entries(self.combatants@) =~= entries(old(self).combatants@).push(
                            c@,
                        ));
                    },
                    None => {},
                }
                self.input_buffer = String::new();
            },
            Key::Char(c) => push_char(&mut self.input_buffer, c),
            Key::Backspace => {
                pop_char(&mut self.input_buffer);
            },
            Key::Esc => {
                self.mode = Mode::Tracker;
                self.input_buffer = String::new();
            },
            _ => {},
        }
    }

    /// A key pressed while the target of `action` is chosen.
    pub fn handle_selecting_combatant_key(&mut self, code: Key, action: Action)
        requires
            old(self).wf(),
            old(self).mode == (Mode::SelectingCombatant { action }),
        ensures
            final(self).wf(),
            final(self)@ == selecting_step(old(self)@, code, action),
    {
        let n = self.combatants.len();
        match code {
            Key::Down => {
                self.selected_target = step_forward(self.selected_target, n);
            },
            Key::Up => {
                self.selected_target = step_back(self.selected_target, n);
            },
            Key::Enter => match action {
                Action::Remove => {
                    self.combatants.remove(self.selected_target);
                    assert(entries(self.combatants@) =~= entries(old(self).combatants@).remove(
                        old(self).selected_target as int,
                    ));
                    let left = self.combatants.len();
                    if left == 0 {
                        self.mode = Mode::AddingCombatant;
                        self.input_buffer = String::new();
                    } else {
                        self.current_turn = clamp_cursor(self.current_turn, left);
                        self.mode = Mode::Tracker;
                    }
                    self.selected_target = 0;
                },
                _ => {
                    self.mode = Mode::InputValue { action };
                    self.input_buffer = String::new();
                },
            },
            Key::Esc => {
                self.mode = Mode::Tracker;
                self.selected_target = 0;
                self.input_buffer = String::new();
            },
            _ => {},
        }
    }

    /// A key pressed while the value for `action` is typed in.
    pub fn handle_input_value_key(&mut self, code: Key, action: Action)
        requires
            old(self).wf(),
            old(self).mode == (Mode::InputValue { action }),
            commit_fits(old(self)@, code),
        ensures
            final(self).wf(),
            final(self)@ == input_step(old(self)@, code, action),
    {
        match code {
            Key::Enter => {
                let value = int_or_default(trim(self.input_buffer.as_str()).as_str());
                let t = self.selected_target;
                let ghost before = entries(self.combatants@);
                match action {
                    Action::DealDamage => {
                        let hp = self.combatants[t].hp;
                        self.combatants[t].hp = hp - value;
                    },
                    Action::Heal => {
                        let hp = self.combatants[t].hp;
                        self.combatants[t].hp = hp + value;
                    },
                    Action::Remove => {
                        // never reached: a removal is carried out as soon as its
                        // target is chosen
                    },
                    Action::EditName => {
                        self.combatants[t].name = self.input_buffer.clone();
                    },
                    Action::EditInitiative => {
                        self.combatants[t].initiative = value;
                    },
                }
                assert(entries(self.combatants@) =~= apply(
                    before,
                    action,
                    t as int,
                    self.input_buffer@,
                ));
                self.mode = Mode::Tracker;
                self.selected_target = 0;
                self.input_buffer = String::new();
            },
            Key::Char(c) => push_char(&mut self.input_buffer, c),
            Key::Backspace => {
                pop_char(&mut self.input_buffer);
            },
            Key::Esc => {
                self.mode = Mode::Tracker;
                self.selected_target = 0;
                self.input_buffer = String::new();
            },
            _ => {},
        }
    }
}

} // verus!
