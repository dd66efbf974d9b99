use vstd::prelude::*;
use crate::model::{
    affordable_count, is_sorted_by_price, lemma_sort_by_price, lemma_sorted_affordable_prefix,
    sort_by_price, ActionError, Model, ModelView,
};
use crate::text::{all_digits, decimal_value, is_digit, parse_decimal, push_chars};

verus! {

/// The number of entries of the root menu.
pub const MENU_LEN: usize = 5;

/// A key as the state machine distinguishes it.
#[derive(Clone, Copy, Debug, PartialEq, Eq, Structural)]
pub enum Key {
    Char(char),
    Enter,
    Backspace,
    Up,
    Down,
    Delete,
    Esc,
    Other,
}

/// One input event.
pub enum Event {
    /// A key press; `ctrl` tells whether Control was the only modifier held.
    Key { code: Key, ctrl: bool },
    /// Text pasted in one piece.
    Paste(Vec<char>),
    /// Anything else the terminal reports (a resize, a focus change).
    Other,
}

/// What the caller must do after an event has been handled.
#[derive(Clone, Copy, Debug, PartialEq, Eq, Structural)]
pub enum Effect {
    /// Nothing beyond drawing the next frame.
    Stay,
    /// Write the model to the store.
    Save,
    /// End the program.
    Quit,
}

/// The screen being shown, with its own selection and input buffers.
pub enum State {
    /// The root menu.
    Main { selected: usize },
    /// Creating a task: the title, then the reward, then a confirmation.
    NewTask { step: usize, title: Vec<char>, reward: Vec<char> },
    /// Creating a reward: the title, then the price, then a confirmation.
    NewReward { step: usize, title: Vec<char>, price: Vec<char> },
    /// Browsing the tasks.
    SolveTask { selected: usize },
    /// Browsing the affordable rewards, cheapest first.
    TakeReward { selected: usize },
}

/// The abstract value of a screen state.
pub enum StateView {
    Main { selected: nat },
    NewTask { step: nat, title: Seq<char>, reward: Seq<char> },
    NewReward { step: nat, title: Seq<char>, price: Seq<char> },
    SolveTask { selected: nat },
    TakeReward { selected: nat },
}

impl View for State {
    type V = StateView;

    open spec fn view(&self) -> StateView {
        match self {
            State::Main { selected } => StateView::Main { selected: *selected as nat },
            State::NewTask { step, title, reward } => StateView::NewTask {
                step: *step as nat,
                title: title@,
                reward: reward@,
            },
            State::NewReward { step, title, price } => StateView::NewReward {
                step: *step as nat,
                title: title@,
                price: price@,
            },
            State::SolveTask { selected } => StateView::SolveTask { selected: *selected as nat },
            State::TakeReward { selected } => StateView::TakeReward { selected: *selected as nat },
        }
    }
}

/// The model, screen and effect that an event leads to.
pub struct Transition {
    pub model: ModelView,
    pub state: StateView,
    pub effect: Effect,
}

/// Where a step of a creation wizard leads.
pub enum WizardView {
    Edit { step: nat, title: Seq<char>, amount: Seq<char> },
    Cancel,
    Commit,
}

/// The root menu with its first entry selected.
pub open spec fn home() -> StateView {
    StateView::Main { selected: 0 }
}

pub open spec fn stay(m: ModelView, s: StateView) -> Transition {
    Transition { model: m, state: s, effect: Effect::Stay }
}

/// The next index when moving down a list of `n` entries, wrapping to the top.
pub open spec fn wrap_down(i: nat, n: nat) -> nat {
    if i + 1 >= n { 0 } else { i + 1 }
}

/// The next index when moving up a list of `n` entries, wrapping to the bottom.
pub open spec fn wrap_up(i: nat, n: nat) -> nat {
    if i == 0 { (n - 1) as nat } else { (i - 1) as nat }
}

/// The selection after a removal has left `n` entries: kept where it still
/// points at an entry, else moved to the last one.
pub open spec fn clamp_selection(i: nat, n: nat) -> nat {
    if i < n { i } else if n == 0 { 0 } else { (n - 1) as nat }
}

pub open spec fn shorten(s: Seq<char>) -> Seq<char> {
    if s.len() > 0 { s.drop_last() } else { s }
}

/// The letters that confirm a creation: `y` in either case, and the
/// Cyrillic `д`.
pub open spec fn is_yes(c: char) -> bool {
    c == 'y' || c == 'Y' || c == 'д'
}

/// The letters that cancel a creation: `n` in either case, and the
/// Cyrillic `н`.
pub open spec fn is_no(c: char) -> bool {
    c == 'n' || c == 'N' || c == 'н'
}

/// Control together with `c`, which ends the program on every screen.
pub open spec fn is_interrupt(e: Event) -> bool {
    match e {
        Event::Key { code, ctrl } => ctrl && code == Key::Char('c'),
        _ => false,
    }
}

pub open spec fn key_of(e: Event) -> Option<Key> {
    match e {
        Event::Key { code, ctrl: _ } => Some(code),
        _ => None,
    }
}

/// A numeric buffer that denotes a value of 64 bits.
pub open spec fn parses(a: Seq<char>) -> bool {
    a.len() > 0 && all_digits(a) && decimal_value(a) <= u64::MAX
}

pub open spec fn next_main(m: ModelView, selected: nat, e: Event) -> Transition {
    match key_of(e) {
        Some(Key::Enter) => if selected == 0 {
            stay(m, StateView::NewTask { step: 0, title: seq![], reward: seq![] })
        } else if selected == 1 {
            stay(m, StateView::NewReward { step: 0, title: seq![], price: seq![] })
        } else if selected == 2 {
            stay(m, StateView::SolveTask { selected: 0 })
        } else if selected == 3 {
            stay(
                ModelView { rewards: sort_by_price(m.rewards), ..m },
                StateView::TakeReward { selected: 0 },
            )
        } else {
            Transition {
                model: ModelView { points: 0, ..m },
                state: StateView::Main { selected },
                effect: Effect::Save,
            }
        },
        Some(Key::Up) => stay(m, StateView::Main { selected: wrap_up(selected, MENU_LEN as nat) }),
        Some(Key::Down) => stay(m, StateView::Main { selected: wrap_down(selected, MENU_LEN as nat) }),
        Some(Key::Esc) => Transition { model: m, state: StateView::Main { selected }, effect: Effect::Quit },
        _ => stay(m, StateView::Main { selected }),
    }
}

pub open spec fn wizard_next(step: nat, title: Seq<char>, amount: Seq<char>, e: Event) -> WizardView {
    match e {
        Event::Key { code, ctrl: _ } => if step == 0 {
            match code {
                Key::Enter => WizardView::Edit {
                    step: if title.len() > 0 { 1 } else { 0 },
                    title,
                    amount,
                },
                Key::Char(c) => WizardView::Edit { step: 0, title: title.push(c), amount },
                Key::Backspace => WizardView::Edit { step: 0, title: shorten(title), amount },
                Key::Esc => WizardView::Cancel,
                _ => WizardView::Edit { step, title, amount },
            }
        } else if step == 1 {
            match code {
                Key::Enter => WizardView::Edit {
                    step: if amount.len() > 0 { 2 } else { 1 },
                    title,
                    amount,
                },
                Key::Char(c) => WizardView::Edit {
                    step: 1,
                    title,
                    amount: if is_digit(c) { amount.push(c) } else { amount },
                },
                Key::Backspace => WizardView::Edit { step: 1, title, amount: shorten(amount) },
                Key::Esc => WizardView::Cancel,
                _ => WizardView::Edit { step, title, amount },
            }
        } else {
            match code {
                Key::Enter => WizardView::Commit,
                Key::Char(c) => if is_yes(c) {
                    WizardView::Commit
                } else if is_no(c) {
                    WizardView::Cancel
                } else {
                    WizardView::Edit { step, title, amount }
                },
                Key::Esc => WizardView::Cancel,
                _ => WizardView::Edit { step, title, amount },
            }
        },
        Event::Paste(text) => WizardView::Edit {
            step,
            title: if step == 0 { title + text@ } else { title },
            amount,
        },
        Event::Other => WizardView::Edit { step, title, amount },
    }
}

pub open spec fn next_solve(m: ModelView, selected: nat, e: Event) -> Result<Transition, ActionError> {
    let n = m.tasks.len();
    match key_of(e) {
        Some(Key::Enter) => if n == 0 {
            Ok(stay(m, home()))
        } else if m.points + m.tasks[selected as int].1 <= u64::MAX {
            Ok(Transition {
                model: ModelView {
                    tasks: m.tasks.remove(selected as int),
                    points: (m.points + m.tasks[selected as int].1) as u64,
                    ..m
                },
                state: home(),
                effect: Effect::Save,
            })
        } else {
            Err(ActionError::PointsOverflow)
        },
        Some(Key::Up) => Ok(stay(m, StateView::SolveTask {
            selected: if n > 0 { wrap_up(selected, n) } else { selected },
        })),
        Some(Key::Down) => Ok(stay(m, StateView::SolveTask {
            selected: if n > 0 { wrap_down(selected, n) } else { selected },
        })),
        Some(Key::Delete) => if n == 0 {
            Ok(stay(m, StateView::SolveTask { selected }))
        } else {
            Ok(Transition {
                model: ModelView { tasks: m.tasks.remove(selected as int), ..m },
                state: StateView::SolveTask { selected: clamp_selection(selected, (n - 1) as nat) },
                effect: Effect::Save,
            })
        },
        Some(Key::Esc) => Ok(stay(m, home())),
        _ => Ok(stay(m, StateView::SolveTask { selected })),
    }
}

/// The step of the reward browser, on a model whose rewards are already
/// sorted by price.
pub open spec fn next_take(m: ModelView, selected: nat, e: Event) -> Transition {
    let size = affordable_count(m.rewards, m.points);
    match key_of(e) {
        Some(Key::Enter) => if size == 0 {
            stay(m, home())
        } else {
            Transition {
                model: ModelView {
                    rewards: m.rewards.remove(selected as int),
                    points: (m.points - m.rewards[selected as int].1) as u64,
                    ..m
                },
                state: home(),
                effect: Effect::Save,
            }
        },
        Some(Key::Up) => stay(m, StateView::TakeReward {
            selected: if size > 0 { wrap_up(selected, size) } else { selected },
        }),
        Some(Key::Down) => stay(m, StateView::TakeReward {
            selected: if size > 0 { wrap_down(selected, size) } else { selected },
        }),
        Some(Key::Delete) => if size == 0 {
            stay(m, StateView::TakeReward { selected })
        } else {
            Transition {
                model: ModelView { rewards: m.rewards.remove(selected as int), ..m },
                state: StateView::TakeReward {
                    selected: clamp_selection(
                        selected,
                        affordable_count(m.rewards.remove(selected as int), m.points),
                    ),
                },
                effect: Effect::Save,
            }
        },
        Some(Key::Esc) => stay(m, home()),
        _ => stay(m, StateView::TakeReward { selected }),
    }
}

/// What one event does to the model and the screen. A commit whose numeric
/// buffer does not fit in 64 bits, and a solve that would overflow the
/// balance, are errors.
pub open spec fn next(m: ModelView, s: StateView, e: Event) -> Result<Transition, ActionError> {
    if is_interrupt(e) {
        Ok(Transition { model: m, state: s, effect: Effect::Quit })
    } else {
        match s {
            StateView::Main { selected } => Ok(next_main(m, selected, e)),
            StateView::NewTask { step, title, reward } => match wizard_next(step, title, reward, e) {
                WizardView::Edit { step, title, amount } => Ok(
                    stay(m, StateView::NewTask { step, title, reward: amount }),
                ),
                WizardView::Cancel => Ok(stay(m, home())),
                WizardView::Commit => if parses(reward) {
                    Ok(Transition {
                        model: ModelView {
                            tasks: m.tasks.push((title, decimal_value(reward) as u64)),
                            ..m
                        },
                        state: home(),
                        effect: Effect::Save,
                    })
                } else {
                    Err(ActionError::InvalidNumber)
                },
            },
            StateView::NewReward { step, title, price } => match wizard_next(step, title, price, e) {
                WizardView::Edit { step, title, amount } => Ok(
                    stay(m, StateView::NewReward { step, title, price: amount }),
                ),
                WizardView::Cancel => Ok(stay(m, home())),
                WizardView::Commit => if parses(price) {
                    Ok(Transition {
                        model: ModelView {
                            rewards: m.rewards.push((title, decimal_value(price) as u64)),
                            ..m
                        },
                        state: home(),
                        effect: Effect::Save,
                    })
                } else {
                    Err(ActionError::InvalidNumber)
                },
            },
            StateView::SolveTask { selected } => next_solve(m, selected, e),
            StateView::TakeReward { selected } => Ok(
                next_take(ModelView { rewards: sort_by_price(m.rewards), ..m }, selected, e),
            ),
        }
    }
}

pub open spec fn wizard_well_formed(step: nat, title: Seq<char>, amount: Seq<char>) -> bool {
    &&& step <= 2
    &&& all_digits(amount)
    &&& step >= 1 ==> title.len() > 0
    &&& step == 2 ==> amount.len() > 0
}

/// The selection of each screen points into its list, or is zero where the
/// list is empty; wizard buffers agree with their step.
pub open spec fn well_formed(m: ModelView, s: StateView) -> bool {
    match s {
        StateView::Main { selected } => selected < MENU_LEN,
        StateView::NewTask { step, title, reward } => wizard_well_formed(step, title, reward),
        StateView::NewReward { step, title, price } => wizard_well_formed(step, title, price),
        StateView::SolveTask { selected } => selected == 0 || selected < m.tasks.len(),
        StateView::TakeReward { selected } => selected == 0 || selected < affordable_count(m.rewards, m.points),
    }
}

/// `r` is what the transition `t` prescribes, with `after` the model left
/// behind; on an error the model is as it was.
pub open spec fn follows(
    before: ModelView,
    after: ModelView,
    r: Result<(State, Effect), ActionError>,
    t: Result<Transition, ActionError>,
) -> bool {
    match t {
        Ok(t) => r matches Ok(p) && after == t.model && p.0@ == t.state && p.1 == t.effect,
        Err(x) => r == Err::<(State, Effect), ActionError>(x) && after == before,
    }
}

enum Wizard {
    Edit { step: usize, title: Vec<char>, amount: Vec<char> },
    Cancel,
    Commit { title: Vec<char>, amount: Vec<char> },
}

spec fn wizard_agrees(r: Wizard, w: WizardView, title: Seq<char>, amount: Seq<char>) -> bool {
    match w {
        WizardView::Edit { step, title: t, amount: a } => r matches Wizard::Edit { step: s2, title: t2, amount: a2 }
            && s2 == step && t2@ == t && a2@ == a,
        WizardView::Cancel => r is Cancel,
        WizardView::Commit => r matches Wizard::Commit { title: t2, amount: a2 } && t2@ == title && a2@ == amount,
    }
}

fn is_yes_char(c: char) -> (r: bool)
    ensures
        r == is_yes(c),
{
    c == 'y' || c == 'Y' || c == 'д'
}

fn is_no_char(c: char) -> (r: bool)
    ensures
        r == is_no(c),
{
    c == 'n' || c == 'N' || c == 'н'
}

fn wizard_step(step: usize, title: Vec<char>, amount: Vec<char>, event: &Event) -> (r: Wizard)
    requires
        wizard_well_formed(step as nat, title@, amount@),
    ensures
        wizard_agrees(r, wizard_next(step as nat, title@, amount@, *event), title@, amount@),
        r matches Wizard::Edit { step: s2, title: t2, amount: a2 } ==> wizard_well_formed(s2 as nat, t2@, a2@),
{
    let mut title = title;
    let mut amount = amount;
    match event {
        Event::Key { code, ctrl: _ } => {
            let code = *code;
            if step == 0 {
                match code {
                    Key::Enter => {
                        let next: usize = if title.len() > 0 { 1 } else { 0 };
                        Wizard::Edit { step: next, title, amount }
                    },
                    Key::Char(c) => {
                        title.push(c);
                        Wizard::Edit { step: 0, title, amount }
                    },
                    Key::Backspace => {
                        let _ = title.pop();
                        Wizard::Edit { step: 0, title, amount }
                    },
                    Key::Esc => Wizard::Cancel,
                    _ => Wizard::Edit { step, title, amount },
                }
            } else if step == 1 {
                match code {
                    Key::Enter => {
                        let next: usize = if amount.len() > 0 { 2 } else { 1 };
                        Wizard::Edit { step: next, title, amount }
                    },
                    Key::Char(c) => {
                        if '0' <= c && c <= '9' {
                            let ghost before = amount@;
                            amount.push(c);
                            assert(all_digits(amount@)) by {
                                assert forall|i: int| 0 <= i < amount@.len() implies is_digit(amount@[i]) by {
                                    if i < before.len() {
                                        assert(amount@[i] == before[i]);
                                    }
                                }
                            }
                        }
                        Wizard::Edit { step: 1, title, amount }
                    },
                    Key::Backspace => {
                        let ghost before = amount@;
                        let _ = amount.pop();
                        assert(all_digits(amount@)) by {
                            assert forall|i: int| 0 <= i < amount@.len() implies is_digit(amount@[i]) by {
                                assert(amount@[i] == before[i]);
                            }
                        }
                        Wizard::Edit { step: 1, title, amount }
                    },
                    Key::Esc => Wizard::Cancel,
                    _ => Wizard::Edit { step, title, amount },
                }
            } else {
                match code {
                    Key::Enter => Wizard::Commit { title, amount },
                    Key::Char(c) => if is_yes_char(c) {
                        Wizard::Commit { title, amount }
                    } else if is_no_char(c) {
                        Wizard::Cancel
                    } else {
                        Wizard::Edit { step, title, amount }
                    },
                    Key::Esc => Wizard::Cancel,
                    _ => Wizard::Edit { step, title, amount },
                }
            }
        },
        Event::Paste(text) => {
            if step == 0 {
                push_chars(&mut title, text);
            }
            Wizard::Edit { step, title, amount }
        },
        Event::Other => Wizard::Edit { step, title, amount },
    }
}

fn is_interrupt_event(event: &Event) -> (r: bool)
    ensures
        r == is_interrupt(*event),
{
    match event {
        Event::Key { code, ctrl } => *ctrl && *code == Key::Char('c'),
        _ => false,
    }
}

fn key_code(event: &Event) -> (r: Option<Key>)
    ensures
        r == key_of(*event),
{
    match event {
        Event::Key { code, ctrl: _ } => Some(*code),
        _ => None,
    }
}

fn main_step(model: &mut Model, selected: usize, event: &Event) -> (r: (State, Effect))
    requires
        selected < MENU_LEN,
    ensures
        follows(old(model)@, final(model)@, Ok(r), Ok(next_main(old(model)@, selected as nat, *event))),
        well_formed(final(model)@, r.0@),
{
    match key_code(event) {
        Some(Key::Enter) => {
            if selected == 0 {
                (State::NewTask { step: 0, title: Vec::new(), reward: Vec::new() }, Effect::Stay)
            } else if selected == 1 {
                (State::NewReward { step: 0, title: Vec::new(), price: Vec::new() }, Effect::Stay)
            } else if selected == 2 {
                (State::SolveTask { selected: 0 }, Effect::Stay)
            } else if selected == 3 {
                model.sort_rewards();
                (State::TakeReward { selected: 0 }, Effect::Stay)
            } else {
                model.clear_points();
                (State::Main { selected }, Effect::Save)
            }
        },
        Some(Key::Up) => {
            let s: usize = if selected == 0 { MENU_LEN - 1 } else { selected - 1 };
            (State::Main { selected: s }, Effect::Stay)
        },
        Some(Key::Down) => {
            let s: usize = if selected + 1 >= MENU_LEN { 0 } else { selected + 1 };
            (State::Main { selected: s }, Effect::Stay)
        },
        Some(Key::Esc) => (State::Main { selected }, Effect::Quit),
        _ => (State::Main { selected }, Effect::Stay),
    }
}

fn solve_step(model: &mut Model, selected: usize, event: &Event) -> (r: Result<(State, Effect), ActionError>)
    requires
        selected == 0 || selected < old(model)@.tasks.len(),
    ensures
        follows(old(model)@, final(model)@, r, next_solve(old(model)@, selected as nat, *event)),
        r matches Ok(p) ==> well_formed(final(model)@, p.0@),
{
    let n = model.tasks.len();
    match key_code(event) {
        Some(Key::Enter) => {
            if n == 0 {
                Ok((State::Main { selected: 0 }, Effect::Stay))
            } else {
                match model.solve_task(selected) {
                    Ok(()) => Ok((State::Main { selected: 0 }, Effect::Save)),
                    Err(e) => Err(e),
                }
            }
        },
        Some(Key::Up) => {
            let s: usize = if n == 0 { selected } else if selected == 0 { n - 1 } else { selected - 1 };
            Ok((State::SolveTask { selected: s }, Effect::Stay))
        },
        Some(Key::Down) => {
            let s: usize = if n == 0 { selected } else if selected + 1 >= n { 0 } else { selected + 1 };
            Ok((State::SolveTask { selected: s }, Effect::Stay))
        },
        Some(Key::Delete) => {
            if n == 0 {
                Ok((State::SolveTask { selected }, Effect::Stay))
            } else {
                model.delete_task(selected);
                let left = n - 1;
                let s: usize = if selected < left { selected } else if left == 0 { 0 } else { left - 1 };
                Ok((State::SolveTask { selected: s }, Effect::Save))
            }
        },
        Some(Key::Esc) => Ok((State::Main { selected: 0 }, Effect::Stay)),
        _ => Ok((State::SolveTask { selected }, Effect::Stay)),
    }
}

fn take_step(model: &mut Model, selected: usize, event: &Event) -> (r: (State, Effect))
    requires
        is_sorted_by_price(old(model)@.rewards),
        selected == 0 || selected < affordable_count(old(model)@.rewards, old(model).points),
    ensures
        follows(old(model)@, final(model)@, Ok(r), Ok(next_take(old(model)@, selected as nat, *event))),
        well_formed(final(model)@, r.0@),
{
    let size = model.count_affordable();
    match key_code(event) {
        Some(Key::Enter) => {
            if size == 0 {
                (State::Main { selected: 0 }, Effect::Stay)
            } else {
                proof {
                    lemma_sorted_affordable_prefix(model@.rewards, model.points, selected as int);
                }
                model.redeem_reward(selected);
                (State::Main { selected: 0 }, Effect::Save)
            }
        },
        Some(Key::Up) => {
            let s: usize = if size == 0 { selected } else if selected == 0 { size - 1 } else { selected - 1 };
            (State::TakeReward { selected: s }, Effect::Stay)
        },
        Some(Key::Down) => {
            let s: usize = if size == 0 { selected } else if selected + 1 >= size { 0 } else { selected + 1 };
            (State::TakeReward { selected: s }, Effect::Stay)
        },
        Some(Key::Delete) => {
            if size == 0 {
                (State::TakeReward { selected }, Effect::Stay)
            } else {
                proof {
                    lemma_sorted_affordable_prefix(model@.rewards, model.points, selected as int);
                }
                model.delete_reward(selected);
                let left = model.count_affordable();
                let s: usize = if selected < left { selected } else if left == 0 { 0 } else { left - 1 };
                (State::TakeReward { selected: s }, Effect::Save)
            }
        },
        Some(Key::Esc) => (State::Main { selected: 0 }, Effect::Stay),
        _ => (State::TakeReward { selected }, Effect::Stay),
    }
}

/// Handles one event: updates the model in place and returns the next screen
/// together with what the caller must do (save, quit, or nothing).
pub fn handle_event(model: &mut Model, state: State, event: &Event) -> (r: Result<(State, Effect), ActionError>)
    requires
        well_formed(old(model)@, state@),
    ensures
        follows(old(model)@, final(model)@, r, next(old(model)@, state@, *event)),
        r matches Ok(p) ==> well_formed(final(model)@, p.0@),
{
    if is_interrupt_event(event) {
        return Ok((state, Effect::Quit));
    }
    match state {
        State::Main { selected } => Ok(main_step(model, selected, event)),
        State::NewTask { step, title, reward } => match wizard_step(step, title, reward, event) {
            Wizard::Edit { step, title, amount } => Ok((State::NewTask { step, title, reward: amount }, Effect::Stay)),
            Wizard::Cancel => Ok((State::Main { selected: 0 }, Effect::Stay)),
            Wizard::Commit { title, amount } => match parse_decimal(&amount) {
                Some(v) => {
                    model.add_task(title, v);
                    Ok((State::Main { selected: 0 }, Effect::Save))
                },
                None => Err(ActionError::InvalidNumber),
            },
        },
        State::NewReward { step, title, price } => match wizard_step(step, title, price, event) {
            Wizard::Edit { step, title, amount } => Ok((State::NewReward { step, title, price: amount }, Effect::Stay)),
            Wizard::Cancel => Ok((State::Main { selected: 0 }, Effect::Stay)),
            Wizard::Commit { title, amount } => match parse_decimal(&amount) {
                Some(v) => {
                    model.add_reward(title, v);
                    Ok((State::Main { selected: 0 }, Effect::Save))
                },
                None => Err(ActionError::InvalidNumber),
            },
        },
        State::SolveTask { selected } => solve_step(model, selected, event),
        State::TakeReward { selected } => {
            proof {
                lemma_sort_by_price(model@.rewards, model.points);
            }
            model.sort_rewards();
            Ok(take_step(model, selected, event))
        },
    }
}

impl State {
    /// The screen shown at startup.
    pub fn initial() -> (s: State)
        ensures
            s@ == home(),
    {
        State::Main { selected: 0 }
    }

    /// Whether this screen fits the model, as `handle_event` requires.
    pub fn is_well_formed(&self, model: &Model) -> (r: bool)
        ensures
            r == well_formed(model@, self@),
    {
        match self {
            State::Main { selected } => *selected < MENU_LEN,
            State::NewTask { step, title, reward } => wizard_buffers_ok(*step, title, reward),
            State::NewReward { step, title, price } => wizard_buffers_ok(*step, title, price),
            State::SolveTask { selected } => *selected == 0 || *selected < model.tasks.len(),
            State::TakeReward { selected } => *selected == 0 || *selected < model.count_affordable(),
        }
    }
}

fn wizard_buffers_ok(step: usize, title: &Vec<char>, amount: &Vec<char>) -> (r: bool)
    ensures
        r == wizard_well_formed(step as nat, title@, amount@),
{
    let mut i: usize = 0;
    while i < amount.len()
        invariant
            i <= amount@.len(),
            forall|k: int| 0 <= k < i ==> is_digit(amount@[k]),
        decreases amount@.len() - i,
    {
        if !('0' <= amount[i] && amount[i] <= '9') {
            return false;
        }
        i = i + 1;
    }
    step <= 2 && (step < 1 || title.len() > 0) && (step != 2 || amount.len() > 0)
}

/// The key press of `k` without Control.
pub open spec fn press(k: Key) -> Event {
    Event::Key { code: k, ctrl: false }
}

/// Solving the task at `i` credits exactly its reward and removes exactly
/// that task, keeping the others in order.
pub proof fn law_solve_conserves_points(m: ModelView, i: nat)
    requires
        i < m.tasks.len(),
        m.points + m.tasks[i as int].1 <= u64::MAX,
    ensures
        next(m, StateView::SolveTask { selected: i }, press(Key::Enter)) matches Ok(t)
            && t.model.points == m.points + m.tasks[i as int].1
            && t.model.tasks == m.tasks.remove(i as int)
            && t.model.rewards == m.rewards
            && t.effect == Effect::Save,
{
}

proof fn lemma_sort_of_sorted(s: Seq<crate::model::Entry>)
    requires
        is_sorted_by_price(s),
    ensures
        sort_by_price(s) == s,
    decreases s.len(),
{
    if s.len() > 0 {
        let d = s.drop_last();
        assert(is_sorted_by_price(d));
        lemma_sort_of_sorted(d);
        crate::model::lemma_insert_at_end(d, s.last());
        assert(d.insert(d.len() as int, s.last()) =~= s);
    }
}

/// With no affordable reward, confirming in the reward browser redeems
/// nothing: the balance and the tasks stay, the rewards are only put in
/// price order, and rewards already in that order stay as they are.
pub proof fn law_redemption_guard(m: ModelView, selected: nat)
    requires
        affordable_count(m.rewards, m.points) == 0,
    ensures
        next(m, StateView::TakeReward { selected }, press(Key::Enter)) matches Ok(t)
            && t.model.points == m.points
            && t.model.tasks == m.tasks
            && t.model.rewards.to_multiset() == m.rewards.to_multiset()
            && (is_sorted_by_price(m.rewards) ==> t.model == m)
            && t.effect == Effect::Stay,
{
    lemma_sort_by_price(m.rewards, m.points);
    if is_sorted_by_price(m.rewards) {
        lemma_sort_of_sorted(m.rewards);
    }
}

/// `k` moves down from `i` in a list of `n` entries.
pub open spec fn down_times(i: nat, n: nat, k: nat) -> nat
    decreases k,
{
    if k == 0 { i } else { wrap_down(down_times(i, n, (k - 1) as nat), n) }
}

proof fn lemma_down_counts(n: nat, k: nat)
    requires
        k < n,
    ensures
        down_times(0, n, k) == k,
    decreases k,
{
    if k > 0 {
        lemma_down_counts(n, (k - 1) as nat);
    }
}

/// In a list of `n` entries, `n` moves down from the top come back to the
/// top, and a move up from the top reaches the last entry.
pub proof fn law_wrap_around(n: nat)
    requires
        n > 0,
    ensures
        down_times(0, n, n) == 0,
        wrap_up(0, n) == n - 1,
{
    lemma_down_counts(n, (n - 1) as nat);
}

/// The reward browser counts exactly the rewards priced at most the balance,
/// and every index it can select holds such a reward, wherever the sort
/// placed the others.
pub proof fn law_affordable_selection(rewards: Seq<crate::model::Entry>, points: u64, i: nat)
    requires
        i < affordable_count(rewards, points),
    ensures
        affordable_count(sort_by_price(rewards), points) == affordable_count(rewards, points),
        i < sort_by_price(rewards).len(),
        sort_by_price(rewards)[i as int].1 <= points,
{
    lemma_sort_by_price(rewards, points);
    lemma_sorted_affordable_prefix(sort_by_price(rewards), points, i as int);
}

} // verus!
