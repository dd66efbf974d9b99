use std::cmp::Ordering;
use pointy::model::{ActionError, Model, Reward, Task};
use pointy::text::{parse_decimal, push_decimal};

fn chars(s: &str) -> Vec<char> {
    s.chars().collect()
}

fn model_with(tasks: &[(&str, u64)], rewards: &[(&str, u64)], points: u64) -> Model {
    let mut m = Model::new();
    for (t, r) in tasks {
        m.add_task(chars(t), *r);
    }
    for (t, p) in rewards {
        m.add_reward(chars(t), *p);
    }
    m.points = points;
    m
}

fn reward_list(m: &Model) -> Vec<(String, u64)> {
    m.rewards.iter().map(|r: &Reward| (r.title.iter().collect(), r.price)).collect()
}

fn task_list(m: &Model) -> Vec<(String, u64)> {
    m.tasks.iter().map(|t: &Task| (t.title.iter().collect(), t.reward)).collect()
}

#[test]
fn new_model_is_empty() {
    let m = Model::new();
    assert!(m.tasks.is_empty());
    assert!(m.rewards.is_empty());
    assert_eq!(m.points, 0);
}

#[test]
fn add_task_appends_duplicates() {
    let m = model_with(&[("a", 1), ("a", 1)], &[], 0);
    assert_eq!(task_list(&m), vec![("a".to_string(), 1), ("a".to_string(), 1)]);
}

#[test]
fn solve_task_credits_reward_and_keeps_order() {
    let mut m = model_with(&[("a", 1), ("b", 7), ("c", 3)], &[], 10);
    assert_eq!(m.solve_task(1), Ok(()));
    assert_eq!(m.points, 17);
    assert_eq!(task_list(&m), vec![("a".to_string(), 1), ("c".to_string(), 3)]);
}

#[test]
fn solve_task_refuses_overflow() {
    let mut m = model_with(&[("a", 1)], &[], u64::MAX);
    assert_eq!(m.solve_task(0), Err(ActionError::PointsOverflow));
    assert_eq!(m.points, u64::MAX);
    assert_eq!(m.tasks.len(), 1);
}

#[test]
fn delete_task_keeps_points() {
    let mut m = model_with(&[("a", 1), ("b", 2)], &[], 4);
    m.delete_task(0);
    assert_eq!(task_list(&m), vec![("b".to_string(), 2)]);
    assert_eq!(m.points, 4);
}

#[test]
fn redeem_reward_debits_price() {
    let mut m = model_with(&[], &[("coffee", 10), ("tea", 4)], 12);
    m.redeem_reward(1);
    assert_eq!(m.points, 8);
    assert_eq!(reward_list(&m), vec![("coffee".to_string(), 10)]);
}

#[test]
fn delete_reward_keeps_points() {
    let mut m = model_with(&[], &[("coffee", 10), ("tea", 4)], 3);
    m.delete_reward(0);
    assert_eq!(reward_list(&m), vec![("tea".to_string(), 4)]);
    assert_eq!(m.points, 3);
}

#[test]
fn clear_points_sets_zero() {
    let mut m = model_with(&[("a", 1)], &[], 99);
    m.clear_points();
    assert_eq!(m.points, 0);
    assert_eq!(m.tasks.len(), 1);
}

#[test]
fn sort_rewards_is_stable_by_price() {
    let mut m = model_with(&[], &[("d", 9), ("a", 3), ("c", 1), ("b", 3)], 0);
    m.sort_rewards();
    assert_eq!(
        reward_list(&m),
        vec![("c".to_string(), 1), ("a".to_string(), 3), ("b".to_string(), 3), ("d".to_string(), 9)]
    );
}

#[test]
fn sort_rewards_of_empty() {
    let mut m = Model::new();
    m.sort_rewards();
    assert!(m.rewards.is_empty());
}

#[test]
fn count_affordable_counts_price_at_most_points() {
    let m = model_with(&[], &[("x", 11), ("y", 10), ("z", 0), ("w", 12)], 10);
    assert_eq!(m.count_affordable(), 2);
}

#[test]
fn parse_decimal_values() {
    assert_eq!(parse_decimal(&chars("5")), Some(5));
    assert_eq!(parse_decimal(&chars("0042")), Some(42));
    assert_eq!(parse_decimal(&chars("18446744073709551615")), Some(u64::MAX));
}

#[test]
fn parse_decimal_rejects() {
    assert_eq!(parse_decimal(&chars("")), None);
    assert_eq!(parse_decimal(&chars("12a")), None);
    assert_eq!(parse_decimal(&chars("18446744073709551616")), None);
}

#[test]
fn push_decimal_formats() {
    let mut v = chars("n=");
    push_decimal(&mut v, 0);
    assert_eq!(v.iter().collect::<String>(), "n=0");
    let mut w = Vec::new();
    push_decimal(&mut w, 1204);
    assert_eq!(w.iter().collect::<String>(), "1204");
    let mut x = Vec::new();
    push_decimal(&mut x, u64::MAX);
    assert_eq!(x.iter().collect::<String>(), "18446744073709551615");
}

#[test]
fn tasks_compare_by_reward() {
    let a = Task { title: chars("a"), reward: 1 };
    let b = Task { title: chars("b"), reward: 2 };
    let c = Task { title: chars("c"), reward: 2 };
    assert!(a < b);
    assert_eq!(b.partial_cmp(&a), Some(Ordering::Greater));
    assert_eq!(b.partial_cmp(&c), None);
    assert!(b != c);
    assert!(b == Task { title: chars("b"), reward: 2 });
    assert_eq!(b.partial_cmp(&Task { title: chars("b"), reward: 2 }), Some(Ordering::Equal));
}

#[test]
fn rewards_compare_by_price() {
    let a = Reward { title: chars("z"), price: 1 };
    let b = Reward { title: chars("a"), price: 5 };
    assert!(a < b);
    assert_eq!(a.partial_cmp(&b), Some(Ordering::Less));
    assert!(a == Reward { title: chars("z"), price: 1 });
    assert!(a != Reward { title: chars("y"), price: 1 });
}
