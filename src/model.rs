use vstd::multiset::Multiset;
use vstd::prelude::*;
use std::cmp::Ordering;
use crate::text::chars_equal;

verus! {

/// The abstract value of a task or a reward: its title and its amount
/// (the points a task earns, or the points a reward costs).
pub type Entry = (Seq<char>, u64);

/// A task that earns `reward` points when solved.
pub struct Task {
    pub title: Vec<char>,
    pub reward: u64,
}

/// A reward that costs `price` points when redeemed.
pub struct Reward {
    pub title: Vec<char>,
    pub price: u64,
}

/// The persisted aggregate: tasks and rewards in their stored order, and the
/// point balance.
pub struct Model {
    pub tasks: Vec<Task>,
    pub rewards: Vec<Reward>,
    pub points: u64,
}

/// The abstract value of a model.
pub struct ModelView {
    pub tasks: Seq<Entry>,
    pub rewards: Seq<Entry>,
    pub points: u64,
}

impl View for Task {
    type V = Entry;

    open spec fn view(&self) -> Entry {
        (self.title@, self.reward)
    }
}

impl View for Reward {
    type V = Entry;

    open spec fn view(&self) -> Entry {
        (self.title@, self.price)
    }
}

/// Entries are equal when title and amount are; otherwise they are ordered
/// by amount, and entries with equal amounts but different titles are
/// unordered.
pub open spec fn entry_order(a: Entry, b: Entry) -> Option<Ordering> {
    if a == b {
        Some(Ordering::Equal)
    } else if a.1 < b.1 {
        Some(Ordering::Less)
    } else if a.1 > b.1 {
        Some(Ordering::Greater)
    } else {
        None
    }
}

fn order_entries(a_title: &Vec<char>, a_amount: u64, b_title: &Vec<char>, b_amount: u64) -> (r: Option<Ordering>)
    ensures
        r == entry_order((a_title@, a_amount), (b_title@, b_amount)),
{
    if a_amount < b_amount {
        Some(Ordering::Less)
    } else if a_amount > b_amount {
        Some(Ordering::Greater)
    } else if chars_equal(a_title, b_title) {
        Some(Ordering::Equal)
    } else {
        None
    }
}

impl PartialEq for Task {
    fn eq(&self, other: &Task) -> (r: bool) {
        self.reward == other.reward && chars_equal(&self.title, &other.title)
    }
}

impl vstd::std_specs::cmp::PartialEqSpecImpl for Task {
    open spec fn obeys_eq_spec() -> bool {
        true
    }

    open spec fn eq_spec(&self, other: &Task) -> bool {
        self@ == other@
    }
}

impl PartialOrd for Task {
    fn partial_cmp(&self, other: &Task) -> (r: Option<Ordering>) {
        order_entries(&self.title, self.reward, &other.title, other.reward)
    }
}

impl vstd::std_specs::cmp::PartialOrdSpecImpl for Task {
    open spec fn obeys_partial_cmp_spec() -> bool {
        true
    }

    open spec fn partial_cmp_spec(&self, other: &Task) -> Option<Ordering> {
        entry_order(self@, other@)
    }
}

impl PartialEq for Reward {
    fn eq(&self, other: &Reward) -> (r: bool) {
        self.price == other.price && chars_equal(&self.title, &other.title)
    }
}

impl vstd::std_specs::cmp::PartialEqSpecImpl for Reward {
    open spec fn obeys_eq_spec() -> bool {
        true
    }

    open spec fn eq_spec(&self, other: &Reward) -> bool {
        self@ == other@
    }
}

impl PartialOrd for Reward {
    fn partial_cmp(&self, other: &Reward) -> (r: Option<Ordering>) {
        order_entries(&self.title, self.price, &other.title, other.price)
    }
}

impl vstd::std_specs::cmp::PartialOrdSpecImpl for Reward {
    open spec fn obeys_partial_cmp_spec() -> bool {
        true
    }

    open spec fn partial_cmp_spec(&self, other: &Reward) -> Option<Ordering> {
        entry_order(self@, other@)
    }
}

pub open spec fn task_entries(v: Seq<Task>) -> Seq<Entry> {
    v.map_values(|t: Task| t@)
}

pub open spec fn reward_entries(v: Seq<Reward>) -> Seq<Entry> {
    v.map_values(|r: Reward| r@)
}

impl View for Model {
    type V = ModelView;

    open spec fn view(&self) -> ModelView {
        ModelView {
            tasks: task_entries(self.tasks@),
            rewards: reward_entries(self.rewards@),
            points: self.points,
        }
    }
}

/// Inserts `x` before the first entry whose amount is greater than its own.
pub open spec fn insert_by_price(s: Seq<Entry>, x: Entry) -> Seq<Entry>
    decreases s.len(),
{
    if s.len() == 0 {
        seq![x]
    } else if x.1 < s[0].1 {
        seq![x] + s
    } else {
        seq![s[0]] + insert_by_price(s.drop_first(), x)
    }
}

/// Stable insertion sort by amount, ascending.
pub open spec fn sort_by_price(s: Seq<Entry>) -> Seq<Entry>
    decreases s.len(),
{
    if s.len() == 0 {
        s
    } else {
        insert_by_price(sort_by_price(s.drop_last()), s.last())
    }
}

pub open spec fn is_sorted_by_price(s: Seq<Entry>) -> bool {
    forall|i: int, j: int| 0 <= i <= j < s.len() ==> s[i].1 <= s[j].1
}

/// How many entries cost at most `points`.
pub open spec fn affordable_count(s: Seq<Entry>, points: u64) -> nat
    decreases s.len(),
{
    if s.len() == 0 {
        0
    } else {
        (if s[0].1 <= points { 1nat } else { 0nat }) + affordable_count(s.drop_first(), points)
    }
}

pub open spec fn empty_model() -> ModelView {
    ModelView { tasks: seq![], rewards: seq![], points: 0 }
}

proof fn lemma_insert_at(s: Seq<Entry>, x: Entry, j: int)
    requires
        0 <= j <= s.len(),
        forall|k: int| 0 <= k < j ==> s[k].1 <= x.1,
        j < s.len() ==> x.1 < s[j].1,
    ensures
        insert_by_price(s, x) == s.insert(j, x),
    decreases s.len(),
{
    if s.len() == 0 {
        assert(s.insert(j, x) =~= seq![x]);
    } else if j == 0 {
        assert(s.insert(j, x) =~= seq![x] + s);
    } else {
        lemma_insert_at(s.drop_first(), x, j - 1);
        assert(s.insert(j, x) =~= seq![s[0]] + s.drop_first().insert(j - 1, x));
    }
}

/// Inserting an entry that costs at least as much as every other appends it.
pub proof fn lemma_insert_at_end(s: Seq<Entry>, x: Entry)
    requires
        forall|k: int| 0 <= k < s.len() ==> s[k].1 <= x.1,
    ensures
        insert_by_price(s, x) == s.insert(s.len() as int, x),
{
    lemma_insert_at(s, x, s.len() as int);
}

proof fn lemma_insert_sorted(s: Seq<Entry>, x: Entry)
    requires
        is_sorted_by_price(s),
    ensures
        is_sorted_by_price(insert_by_price(s, x)),
        insert_by_price(s, x).len() == s.len() + 1,
        insert_by_price(s, x).to_multiset() =~= s.to_multiset().insert(x),
    decreases s.len(),
{
    if s.len() == 0 {
        assert(seq![x].to_multiset() =~= Multiset::empty().insert(x)) by {
            assert(seq![x] =~= Seq::<Entry>::empty().push(x));
            Seq::<Entry>::empty().to_multiset_ensures();
        }
        assert(s.to_multiset() =~= Multiset::empty()) by {
            s.to_multiset_ensures();
        }
    } else if x.1 < s[0].1 {
        vstd::seq_lib::lemma_multiset_commutative(seq![x], s);
        assert(seq![x] =~= Seq::<Entry>::empty().push(x));
        Seq::<Entry>::empty().to_multiset_ensures();
    } else {
        let t = s.drop_first();
        lemma_insert_sorted(t, x);
        let r = insert_by_price(t, x);
        assert(s =~= seq![s[0]] + t);
        vstd::seq_lib::lemma_multiset_commutative(seq![s[0]], t);
        vstd::seq_lib::lemma_multiset_commutative(seq![s[0]], r);
        assert forall|i: int, j: int| 0 <= i <= j < r.len() + 1 implies
            (seq![s[0]] + r)[i].1 <= (seq![s[0]] + r)[j].1 by {
            if i == 0 && j > 0 {
                assert(r.to_multiset().count(r[j - 1]) > 0) by {
                    r.to_multiset_ensures();
                }
                t.to_multiset_ensures();
                if r[j - 1] != x {
                    assert(t.to_multiset().count(r[j - 1]) > 0);
                    let k = choose|k: int| 0 <= k < t.len() && t[k] == r[j - 1];
                    assert(s[k + 1] == t[k]);
                }
            }
        }
    }
}

proof fn lemma_sort_sorted(s: Seq<Entry>)
    ensures
        is_sorted_by_price(sort_by_price(s)),
        sort_by_price(s).len() == s.len(),
        sort_by_price(s).to_multiset() == s.to_multiset(),
    decreases s.len(),
{
    if s.len() > 0 {
        lemma_sort_sorted(s.drop_last());
        lemma_insert_sorted(sort_by_price(s.drop_last()), s.last());
        assert(s =~= s.drop_last().push(s.last()));
        s.drop_last().to_multiset_ensures();
    }
}

proof fn lemma_count_push(s: Seq<Entry>, x: Entry, p: u64)
    ensures
        affordable_count(s.push(x), p) == affordable_count(s, p) + (if x.1 <= p { 1nat } else { 0nat }),
    decreases s.len(),
{
    if s.len() > 0 {
        lemma_count_push(s.drop_first(), x, p);
        assert(s.push(x).drop_first() =~= s.drop_first().push(x));
    } else {
        assert(s.push(x).drop_first() =~= s);
    }
}

proof fn lemma_count_insert(s: Seq<Entry>, x: Entry, p: u64)
    ensures
        affordable_count(insert_by_price(s, x), p) == affordable_count(s, p) + (if x.1 <= p { 1nat } else { 0nat }),
    decreases s.len(),
{
    if s.len() == 0 {
        assert(seq![x].drop_first() =~= s);
    } else if x.1 < s[0].1 {
        assert((seq![x] + s).drop_first() =~= s);
    } else {
        lemma_count_insert(s.drop_first(), x, p);
        assert((seq![s[0]] + insert_by_price(s.drop_first(), x)).drop_first() =~= insert_by_price(s.drop_first(), x));
    }
}

proof fn lemma_count_sort(s: Seq<Entry>, p: u64)
    ensures
        affordable_count(sort_by_price(s), p) == affordable_count(s, p),
    decreases s.len(),
{
    if s.len() > 0 {
        lemma_count_sort(s.drop_last(), p);
        lemma_count_insert(sort_by_price(s.drop_last()), s.last(), p);
        lemma_count_push(s.drop_last(), s.last(), p);
        assert(s.drop_last().push(s.last()) =~= s);
    }
}

/// In a sequence sorted by amount, an entry that costs more than `p` stands
/// after every affordable one.
proof fn lemma_sorted_count_bound(s: Seq<Entry>, p: u64, i: int)
    requires
        is_sorted_by_price(s),
        0 <= i < s.len(),
        s[i].1 > p,
    ensures
        affordable_count(s, p) <= i,
    decreases s.len(),
{
    let t = s.drop_first();
    assert(is_sorted_by_price(t));
    if i == 0 {
        if s.len() > 1 {
            assert(t[0].1 >= s[0].1);
            lemma_sorted_count_bound(t, p, 0);
        } else {
            assert(t.len() == 0);
        }
        assert(affordable_count(s, p) == affordable_count(t, p));
    } else {
        assert(t[i - 1] == s[i]);
        lemma_sorted_count_bound(t, p, i - 1);
    }
}

/// Every position below the affordable count of a sorted sequence holds an
/// affordable entry.
pub proof fn lemma_sorted_affordable_prefix(s: Seq<Entry>, p: u64, i: int)
    requires
        is_sorted_by_price(s),
        0 <= i < affordable_count(s, p),
    ensures
        i < s.len(),
        s[i].1 <= p,
{
    lemma_count_le_len(s, p);
    if s[i].1 > p {
        lemma_sorted_count_bound(s, p, i);
    }
}

proof fn lemma_count_le_len(s: Seq<Entry>, p: u64)
    ensures
        affordable_count(s, p) <= s.len(),
    decreases s.len(),
{
    if s.len() > 0 {
        lemma_count_le_len(s.drop_first(), p);
    }
}

/// Sorting by price yields a sorted permutation with the same number of
/// affordable entries.
pub proof fn lemma_sort_by_price(s: Seq<Entry>, p: u64)
    ensures
        is_sorted_by_price(sort_by_price(s)),
        sort_by_price(s).len() == s.len(),
        sort_by_price(s).to_multiset() == s.to_multiset(),
        affordable_count(sort_by_price(s), p) == affordable_count(s, p),
{
    lemma_sort_sorted(s);
    lemma_count_sort(s, p);
}

/// Why an update of the model was refused.
#[derive(Clone, Copy, Debug, PartialEq, Eq, Structural)]
pub enum ActionError {
    /// A numeric buffer does not denote a value that fits in 64 bits.
    InvalidNumber,
    /// The point balance would exceed the largest representable value.
    PointsOverflow,
}

impl Model {
    /// The model used when no store exists yet.
    pub fn new() -> (m: Model)
        ensures
            m@ == empty_model(),
    {
        let m = Model { tasks: Vec::new(), rewards: Vec::new(), points: 0 };
        assert(m@.tasks =~= seq![]);
        assert(m@.rewards =~= seq![]);
        m
    }

    /// Appends a task at the tail; duplicates are allowed.
    pub fn add_task(&mut self, title: Vec<char>, reward: u64)
        ensures
            final(self)@ == (ModelView { tasks: old(self)@.tasks.push((title@, reward)), ..old(self)@ }),
    {
        self.tasks.push(Task { title, reward });
        assert(self@.tasks =~= old(self)@.tasks.push((title@, reward)));
    }

    /// Appends a reward at the tail; duplicates are allowed.
    pub fn add_reward(&mut self, title: Vec<char>, price: u64)
        ensures
            final(self)@ == (ModelView { rewards: old(self)@.rewards.push((title@, price)), ..old(self)@ }),
    {
        self.rewards.push(Reward { title, price });
        assert(self@.rewards =~= old(self)@.rewards.push((title@, price)));
    }

    /// Removes the task at `i` and credits its reward; refused, with nothing
    /// changed, when the balance would overflow.
    pub fn solve_task(&mut self, i: usize) -> (r: Result<(), ActionError>)
        requires
            i < old(self)@.tasks.len(),
        ensures
            r is Ok <==> old(self).points + old(self)@.tasks[i as int].1 <= u64::MAX,
            r is Ok ==> final(self)@ == (ModelView {
                tasks: old(self)@.tasks.remove(i as int),
                points: (old(self).points + old(self)@.tasks[i as int].1) as u64,
                ..old(self)@
            }),
            r is Err ==> r == Err::<(), ActionError>(ActionError::PointsOverflow) && final(self)@ == old(self)@,
    {
        let reward = self.tasks[i].reward;
        if reward > u64::MAX - self.points {
            return Err(ActionError::PointsOverflow);
        }
        let _task = self.tasks.remove(i);
        self.points = self.points + reward;
        assert(self@.tasks =~= old(self)@.tasks.remove(i as int));
        Ok(())
    }

    /// Removes the task at `i` without any effect on the balance.
    pub fn delete_task(&mut self, i: usize)
        requires
            i < old(self)@.tasks.len(),
        ensures
            final(self)@ == (ModelView { tasks: old(self)@.tasks.remove(i as int), ..old(self)@ }),
    {
        let _task = self.tasks.remove(i);
        assert(self@.tasks =~= old(self)@.tasks.remove(i as int));
    }

    /// Removes the reward at `i` without any effect on the balance.
    pub fn delete_reward(&mut self, i: usize)
        requires
            i < old(self)@.rewards.len(),
        ensures
            final(self)@ == (ModelView { rewards: old(self)@.rewards.remove(i as int), ..old(self)@ }),
    {
        let _reward = self.rewards.remove(i);
        assert(self@.rewards =~= old(self)@.rewards.remove(i as int));
    }

    /// Removes the affordable reward at `i` and debits its price.
    pub fn redeem_reward(&mut self, i: usize)
        requires
            i < old(self)@.rewards.len(),
            old(self)@.rewards[i as int].1 <= old(self).points,
        ensures
            final(self)@ == (ModelView {
                rewards: old(self)@.rewards.remove(i as int),
                points: (old(self).points - old(self)@.rewards[i as int].1) as u64,
                ..old(self)@
            }),
    {
        let reward = self.rewards.remove(i);
        self.points = self.points - reward.price;
        assert(self@.rewards =~= old(self)@.rewards.remove(i as int));
    }

    /// Sets the balance to zero.
    pub fn clear_points(&mut self)
        ensures
            final(self)@ == (ModelView { points: 0, ..old(self)@ }),
    {
        self.points = 0;
    }

    /// Orders the rewards by price, ascending, keeping the stored order of
    /// rewards with equal prices.
    pub fn sort_rewards(&mut self)
        ensures
            final(self)@ == (ModelView { rewards: sort_by_price(old(self)@.rewards), ..old(self)@ }),
    {
        let ghost orig = old(self)@.rewards;
        let mut sorted: Vec<Reward> = Vec::new();
        let n = self.rewards.len();
        let mut k: usize = 0;
        while self.rewards.len() > 0
            invariant
                k + self.rewards@.len() == n,
                n == orig.len(),
                reward_entries(self.rewards@) == orig.subrange(k as int, n as int),
                reward_entries(sorted@) == sort_by_price(orig.subrange(0, k as int)),
                self.points == old(self).points,
                self.tasks == old(self).tasks,
            decreases self.rewards@.len(),
        {
            let ghost before = sorted@;
            let ghost rem = self.rewards@;
            let r = self.rewards.remove(0);
            assert(reward_entries(rem)[0] == orig.subrange(k as int, n as int)[0]);
            assert(r@ == orig[k as int]);
            assert(reward_entries(self.rewards@) =~= orig.subrange(k as int + 1, n as int)) by {
                assert forall|m: int| 0 <= m < self.rewards@.len() implies
                    reward_entries(self.rewards@)[m] == orig.subrange(k as int + 1, n as int)[m] by {
                    assert(self.rewards@[m] == rem[m + 1]);
                    assert(reward_entries(rem)[m + 1] == orig.subrange(k as int, n as int)[m + 1]);
                }
            }
            let mut j: usize = 0;
            while j < sorted.len() && sorted[j].price <= r.price
                invariant
                    j <= sorted@.len(),
                    sorted@ == before,
                    forall|m: int| 0 <= m < j ==> sorted@[m].price <= r.price,
                decreases sorted@.len() - j,
            {
                j = j + 1;
            }
            proof {
                lemma_insert_at(reward_entries(sorted@), r@, j as int);
                assert(orig.subrange(0, k as int + 1).drop_last() =~= orig.subrange(0, k as int));
            }
            sorted.insert(j, r);
            assert(reward_entries(sorted@) =~= reward_entries(before).insert(j as int, r@));
            k = k + 1;
        }
        assert(orig.subrange(0, n as int) =~= orig);
        self.rewards = sorted;
    }

    /// The number of rewards whose price is at most the balance.
    pub fn count_affordable(&self) -> (c: usize)
        ensures
            c == affordable_count(self@.rewards, self.points),
    {
        let ghost s = self@.rewards;
        let mut c: usize = 0;
        let mut i: usize = 0;
        while i < self.rewards.len()
            invariant
                i <= s.len(),
                s == self@.rewards,
                c == affordable_count(s.subrange(0, i as int), self.points),
                c <= i,
            decreases s.len() - i,
        {
            proof {
                lemma_count_push(s.subrange(0, i as int), s[i as int], self.points);
                assert(s.subrange(0, i as int).push(s[i as int]) =~= s.subrange(0, i as int + 1));
            }
            if self.rewards[i].price <= self.points {
                c = c + 1;
            }
            i = i + 1;
        }
        assert(s.subrange(0, i as int) =~= s);
        c
    }
}

} // verus!
