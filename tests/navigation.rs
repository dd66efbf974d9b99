use pointy::model::{ActionError, Model};
use pointy::nav::{handle_event, Effect, Event, Key, State};

fn chars(s: &str) -> Vec<char> {
    s.chars().collect()
}

fn key(k: Key) -> Event {
    Event::Key { code: k, ctrl: false }
}

fn step(m: &mut Model, s: State, e: Event) -> (State, Effect) {
    assert!(s.is_well_formed(m));
    handle_event(m, s, &e).expect("no error expected")
}

fn typed(m: &mut Model, mut s: State, text: &str) -> State {
    for c in text.chars() {
        s = step(m, s, key(Key::Char(c))).0;
    }
    s
}

fn selected(s: &State) -> usize {
    match s {
        State::Main { selected } | State::SolveTask { selected } | State::TakeReward { selected } => *selected,
        _ => panic!("no selection on this screen"),
    }
}

fn is_main(s: &State) -> bool {
    matches!(s, State::Main { .. })
}

#[test]
fn empty_store_solve_enter_is_noop() {
    let mut m = Model::new();
    let s = State::initial();
    let (s, _) = step(&mut m, s, key(Key::Down));
    let (s, _) = step(&mut m, s, key(Key::Down));
    let (s, e) = step(&mut m, s, key(Key::Enter));
    assert!(matches!(s, State::SolveTask { selected: 0 }));
    assert_eq!(e, Effect::Stay);
    let (s, e) = step(&mut m, s, key(Key::Enter));
    assert!(matches!(s, State::Main { selected: 0 }));
    assert_eq!(e, Effect::Stay);
    assert!(m.tasks.is_empty() && m.rewards.is_empty());
    assert_eq!(m.points, 0);
}

#[test]
fn new_task_wizard_commits() {
    let mut m = Model::new();
    let (s, _) = step(&mut m, State::initial(), key(Key::Enter));
    assert!(matches!(s, State::NewTask { step: 0, .. }));
    let s = typed(&mut m, s, "Clean desk");
    let (s, _) = step(&mut m, s, key(Key::Enter));
    assert!(matches!(s, State::NewTask { step: 1, .. }));
    let s = typed(&mut m, s, "5");
    let (s, _) = step(&mut m, s, key(Key::Enter));
    assert!(matches!(s, State::NewTask { step: 2, .. }));
    let (s, e) = step(&mut m, s, key(Key::Char('y')));
    assert!(matches!(s, State::Main { selected: 0 }));
    assert_eq!(e, Effect::Save);
    assert_eq!(m.tasks.len(), 1);
    assert_eq!(m.tasks[0].title.iter().collect::<String>(), "Clean desk");
    assert_eq!(m.tasks[0].reward, 5);
}

#[test]
fn take_reward_redeems_only_affordable() {
    let mut m = Model::new();
    m.add_reward(chars("Coffee"), 10);
    m.points = 10;
    let mut s = State::initial();
    for _ in 0..3 {
        s = step(&mut m, s, key(Key::Down)).0;
    }
    let (s, _) = step(&mut m, s, key(Key::Enter));
    assert!(matches!(s, State::TakeReward { selected: 0 }));
    assert_eq!(m.count_affordable(), 1);
    let (s, e) = step(&mut m, s, key(Key::Enter));
    assert!(is_main(&s));
    assert_eq!(e, Effect::Save);
    assert_eq!(m.points, 0);
    assert!(m.rewards.is_empty());
}

#[test]
fn solve_adds_reward_to_points() {
    let mut m = Model::new();
    m.add_task(chars("a"), 2);
    m.add_task(chars("b"), 30);
    m.add_task(chars("c"), 4);
    m.points = 5;
    let s = State::SolveTask { selected: 0 };
    let (s, _) = step(&mut m, s, key(Key::Down));
    let (s, e) = step(&mut m, s, key(Key::Enter));
    assert!(is_main(&s));
    assert_eq!(e, Effect::Save);
    assert_eq!(m.points, 35);
    let titles: Vec<String> = m.tasks.iter().map(|t| t.title.iter().collect()).collect();
    assert_eq!(titles, vec!["a".to_string(), "c".to_string()]);
}

#[test]
fn solve_overflow_is_an_error() {
    let mut m = Model::new();
    m.add_task(chars("a"), 2);
    m.points = u64::MAX - 1;
    let r = handle_event(&mut m, State::SolveTask { selected: 0 }, &key(Key::Enter));
    assert!(matches!(r, Err(ActionError::PointsOverflow)));
    assert_eq!(m.points, u64::MAX - 1);
    assert_eq!(m.tasks.len(), 1);
}

#[test]
fn oversized_number_is_an_error() {
    let mut m = Model::new();
    let s = State::NewTask { step: 2, title: chars("t"), reward: chars("99999999999999999999") };
    assert!(s.is_well_formed(&m));
    let r = handle_event(&mut m, s, &key(Key::Enter));
    assert!(matches!(r, Err(ActionError::InvalidNumber)));
    assert!(m.tasks.is_empty());
}

#[test]
fn redemption_guard_without_affordable_rewards() {
    let mut m = Model::new();
    m.add_reward(chars("big"), 50);
    m.add_reward(chars("huge"), 40);
    m.points = 10;
    let (s, e) = step(&mut m, State::TakeReward { selected: 0 }, key(Key::Enter));
    assert!(is_main(&s));
    assert_eq!(e, Effect::Stay);
    assert_eq!(m.points, 10);
    let prices: Vec<u64> = m.rewards.iter().map(|r| r.price).collect();
    assert_eq!(prices, vec![40, 50]);
    let (_, e) = step(&mut m, State::TakeReward { selected: 0 }, key(Key::Delete));
    assert_eq!(e, Effect::Stay);
    assert_eq!(m.rewards.len(), 2);
}

#[test]
fn main_menu_wraps_both_ways() {
    let mut m = Model::new();
    let mut s = State::initial();
    for _ in 0..5 {
        s = step(&mut m, s, key(Key::Down)).0;
    }
    assert_eq!(selected(&s), 0);
    let (s, _) = step(&mut m, s, key(Key::Up));
    assert_eq!(selected(&s), 4);
    let (s, _) = step(&mut m, s, key(Key::Down));
    assert_eq!(selected(&s), 0);
}

#[test]
fn task_list_wraps_both_ways() {
    let mut m = Model::new();
    for t in ["a", "b", "c"] {
        m.add_task(chars(t), 1);
    }
    let mut s = State::SolveTask { selected: 0 };
    for _ in 0..3 {
        s = step(&mut m, s, key(Key::Down)).0;
    }
    assert_eq!(selected(&s), 0);
    let (s, _) = step(&mut m, s, key(Key::Up));
    assert_eq!(selected(&s), 2);
}

#[test]
fn empty_list_navigation_is_noop() {
    let mut m = Model::new();
    let (s, e) = step(&mut m, State::SolveTask { selected: 0 }, key(Key::Up));
    assert_eq!(selected(&s), 0);
    assert_eq!(e, Effect::Stay);
    let (s, _) = step(&mut m, s, key(Key::Delete));
    assert_eq!(selected(&s), 0);
}

#[test]
fn unaffordable_rewards_are_never_selectable() {
    let mut m = Model::new();
    m.add_reward(chars("x"), 7);
    m.add_reward(chars("y"), 3);
    m.add_reward(chars("z"), 5);
    m.add_reward(chars("w"), 1);
    m.points = 4;
    let mut s = State::TakeReward { selected: 0 };
    let mut seen = Vec::new();
    for _ in 0..6 {
        s = step(&mut m, s, key(Key::Down)).0;
        seen.push(selected(&s));
    }
    assert_eq!(m.count_affordable(), 2);
    assert_eq!(seen, vec![1, 0, 1, 0, 1, 0]);
    let (s, _) = step(&mut m, s, key(Key::Up));
    assert_eq!(selected(&s), 1);
    let (_, e) = step(&mut m, s, key(Key::Enter));
    assert_eq!(e, Effect::Save);
    assert_eq!(m.points, 1);
    let prices: Vec<u64> = m.rewards.iter().map(|r| r.price).collect();
    assert_eq!(prices, vec![1, 5, 7]);
}

#[test]
fn deleting_last_reward_moves_selection() {
    let mut m = Model::new();
    m.add_reward(chars("a"), 1);
    m.add_reward(chars("b"), 2);
    m.points = 5;
    let (s, _) = step(&mut m, State::TakeReward { selected: 0 }, key(Key::Down));
    assert_eq!(selected(&s), 1);
    let (s, e) = step(&mut m, s, key(Key::Delete));
    assert_eq!(e, Effect::Save);
    assert_eq!(selected(&s), 0);
    assert_eq!(m.rewards.len(), 1);
    assert_eq!(m.points, 5);
}

#[test]
fn deleting_last_task_moves_selection() {
    let mut m = Model::new();
    m.add_task(chars("a"), 1);
    m.add_task(chars("b"), 2);
    let (s, _) = step(&mut m, State::SolveTask { selected: 1 }, key(Key::Delete));
    assert_eq!(selected(&s), 0);
    let (s, _) = step(&mut m, s, key(Key::Enter));
    assert!(is_main(&s));
    assert_eq!(m.points, 1);
}

#[test]
fn clear_points_from_menu() {
    let mut m = Model::new();
    m.points = 42;
    let (s, _) = step(&mut m, State::Main { selected: 4 }, key(Key::Enter));
    let (s, e) = step(&mut m, s, key(Key::Enter));
    assert_eq!(selected(&s), 4);
    assert_eq!(e, Effect::Save);
    assert_eq!(m.points, 0);
}

#[test]
fn ctrl_c_quits_everywhere() {
    let mut m = Model::new();
    let s = State::NewTask { step: 0, title: vec![], reward: vec![] };
    let (_, e) = step(&mut m, s, Event::Key { code: Key::Char('c'), ctrl: true });
    assert_eq!(e, Effect::Quit);
    let (_, e) = step(&mut m, State::initial(), key(Key::Esc));
    assert_eq!(e, Effect::Quit);
}

#[test]
fn wizard_rejects_empty_buffers_and_non_digits() {
    let mut m = Model::new();
    let s = State::NewReward { step: 0, title: vec![], price: vec![] };
    let (s, _) = step(&mut m, s, key(Key::Enter));
    assert!(matches!(s, State::NewReward { step: 0, .. }));
    let (s, _) = step(&mut m, s, Event::Paste(chars("Movie night")));
    let (s, _) = step(&mut m, s, key(Key::Backspace));
    let (s, _) = step(&mut m, s, key(Key::Enter));
    let (s, _) = step(&mut m, s, key(Key::Enter));
    assert!(matches!(s, State::NewReward { step: 1, .. }));
    let s = typed(&mut m, s, "1x2");
    let (s, _) = step(&mut m, s, key(Key::Enter));
    match &s {
        State::NewReward { step, title, price } => {
            assert_eq!(*step, 2);
            assert_eq!(title.iter().collect::<String>(), "Movie nigh");
            assert_eq!(price.iter().collect::<String>(), "12");
        }
        _ => panic!("expected the confirmation step"),
    }
    let (s, e) = step(&mut m, s, key(Key::Char('д')));
    assert!(is_main(&s));
    assert_eq!(e, Effect::Save);
    assert_eq!(m.rewards[0].price, 12);
}

#[test]
fn wizard_cancels_without_commit() {
    let mut m = Model::new();
    let s = State::NewTask { step: 2, title: chars("t"), reward: chars("3") };
    let (s, e) = step(&mut m, s, key(Key::Char('N')));
    assert!(is_main(&s));
    assert_eq!(e, Effect::Stay);
    let s = State::NewTask { step: 1, title: chars("t"), reward: chars("3") };
    let (s, _) = step(&mut m, s, key(Key::Esc));
    assert!(is_main(&s));
    let s = State::NewTask { step: 2, title: chars("t"), reward: chars("3") };
    let (s, _) = step(&mut m, s, key(Key::Char('q')));
    assert!(matches!(s, State::NewTask { step: 2, .. }));
    assert!(m.tasks.is_empty());
}
