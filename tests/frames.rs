use pointy::model::Model;
use pointy::nav::State;
use pointy::render::{frame_of, Frame, Renderer, Style};

fn chars(s: &str) -> Vec<char> {
    s.chars().collect()
}

fn lines(f: &Frame) -> Vec<(String, Style)> {
    f.spans.iter().map(|s| (s.text.iter().collect(), s.style)).collect()
}

#[test]
fn main_frame_lists_menu() {
    let mut m = Model::new();
    m.points = 12;
    let f = frame_of(&m, &State::Main { selected: 1 });
    assert!(!f.cursor_visible);
    let l = lines(&f);
    assert_eq!(l.len(), 6);
    assert_eq!(l[0], ("Welcome to pointy! You have 12 points.\r\n\r\n".to_string(), Style::Plain));
    assert_eq!(l[1], ("[+] Add new task\r\n".to_string(), Style::Plain));
    assert_eq!(l[2], ("[+] Add new reward\r\n".to_string(), Style::Highlight));
    assert_eq!(l[5], ("[+] Clear points\r\n".to_string(), Style::Plain));
}

#[test]
fn wizard_frames() {
    let m = Model::new();
    let f = frame_of(&m, &State::NewTask { step: 1, title: chars("Run"), reward: chars("4") });
    assert!(f.cursor_visible);
    assert_eq!(
        lines(&f),
        vec![
            ("Task Run\r\n\r\n".to_string(), Style::Plain),
            ("Reward: ".to_string(), Style::Highlight),
            ("4".to_string(), Style::Plain),
        ]
    );
    let f = frame_of(&m, &State::NewReward { step: 2, title: chars("Tea"), price: chars("3") });
    let text: String = lines(&f).into_iter().map(|(t, _)| t).collect();
    assert_eq!(text, "Almost done\r\n\r\nTitle: Tea\r\nPrice: 3\r\nCreate? [y/n] ");
}

#[test]
fn reward_rows_mute_unaffordable() {
    let mut m = Model::new();
    m.add_reward(chars("cheap"), 2);
    m.add_reward(chars("dear"), 9);
    m.points = 5;
    let f = frame_of(&m, &State::TakeReward { selected: 1 });
    assert_eq!(
        lines(&f),
        vec![
            ("Currently you have 2 rewards.\r\n\r\n".to_string(), Style::Plain),
            ("[2] cheap\r\n".to_string(), Style::Plain),
            ("[9] dear\r\n".to_string(), Style::Muted),
        ]
    );
}

#[test]
fn task_rows_highlight_selection() {
    let mut m = Model::new();
    m.add_task(chars("a"), 10);
    m.add_task(chars("b"), 0);
    let f = frame_of(&m, &State::SolveTask { selected: 1 });
    assert_eq!(
        lines(&f),
        vec![
            ("Currently you have 2 tasks.\r\n\r\n".to_string(), Style::Plain),
            ("[10] a\r\n".to_string(), Style::Plain),
            ("[0] b\r\n".to_string(), Style::Highlight),
        ]
    );
}

#[test]
fn renderer_skips_unchanged_frames() {
    let mut m = Model::new();
    let mut r = Renderer::new();
    let s = State::Main { selected: 0 };
    assert!(r.render(&m, &s).is_some());
    assert!(r.render(&m, &s).is_none());
    assert!(r.render(&m, &State::Main { selected: 1 }).is_some());
    assert!(r.render(&m, &State::Main { selected: 1 }).is_none());
    m.points = 3;
    assert!(r.render(&m, &State::Main { selected: 1 }).is_some());
}
