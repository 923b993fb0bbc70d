//! The bingo draw sequence: every number of a range, once each, in an order
//! that chance decides.

use vstd::prelude::*;

verus! {

/// The numbers `1, 2, .., range` in ascending order.
pub open spec fn numbers(range: nat) -> Seq<u8> {
    Seq::new(range, |i: int| (i + 1) as u8)
}

/// The mathematical value of a [`BingoState`].
pub struct BingoView {
    /// The numbers drawn so far, in draw order.
    pub drawn: Seq<u8>,
    /// The numbers not drawn yet, in the order in which the state holds them.
    pub pool: Seq<u8>,
    /// How many distinct numbers there are.
    pub range: nat,
}

impl BingoView {
    /// The state before the first draw.
    pub open spec fn fresh(range: nat) -> BingoView {
        BingoView { drawn: Seq::empty(), pool: numbers(range), range }
    }

    /// Drawn and undrawn numbers together are `range` numbers between 1 and
    /// `range`, no two of them equal.
    pub open spec fn wf(self) -> bool {
        let all = self.drawn + self.pool;
        &&& self.range <= 255
        &&& all.len() == self.range
        &&& all.no_duplicates()
        &&& forall|i: int| 0 <= i < all.len() ==> 1 <= #[trigger] all[i] <= self.range
    }

    /// The count of draws so far.
    pub open spec fn index(self) -> nat {
        self.drawn.len()
    }

    /// Whether every number has been drawn.
    pub open spec fn exhausted(self) -> bool {
        self.pool.len() == 0
    }

    /// The number that a draw yields when chance says `pick`: the undrawn
    /// number at position `pick`, counted round the pool.  None once the pool
    /// is empty.
    pub open spec fn number_at(self, pick: nat) -> Option<u8> {
        if self.exhausted() {
            None
        } else {
            Some(self.pool[(pick % self.pool.len()) as int])
        }
    }

    /// The state after a draw with `pick`: the picked number moves to the end
    /// of the drawn ones, and the head of the pool takes its place.  Unchanged
    /// once the pool is empty.
    pub open spec fn draw(self, pick: nat) -> BingoView {
        if self.exhausted() {
            self
        } else {
            let k = (pick % self.pool.len()) as int;
            BingoView {
                drawn: self.drawn.push(self.pool[k]),
                pool: self.pool.update(k, self.pool[0]).subrange(1, self.pool.len() as int),
                range: self.range,
            }
        }
    }

    /// The state after one draw for each entry of `picks`, first to last,
    /// starting from a fresh state.
    pub open spec fn after_draws(range: nat, picks: Seq<nat>) -> BingoView
        decreases picks.len(),
    {
        if picks.len() == 0 {
            BingoView::fresh(range)
        } else {
            BingoView::after_draws(range, picks.drop_last()).draw(picks.last())
        }
    }
}

/// A draw sequence over the numbers `1..=range`.
#[derive(Debug)]
pub struct BingoState {
    /// Every number of the range once: the drawn ones first, in draw order,
    /// then the undrawn ones.
    order: Vec<u8>,
    /// The count of draws so far, which is where the undrawn numbers begin.
    index: usize,
    range: u8,
}

impl View for BingoState {
    type V = BingoView;

    closed spec fn view(&self) -> BingoView {
        BingoView {
            drawn: self.order@.subrange(0, self.index as int),
            pool: self.order@.subrange(self.index as int, self.order@.len() as int),
            range: self.range as nat,
        }
    }
}

/// A number below `bound` from the thread's random number generator.
///
/// Calls `rand::random_range` with the half-open range from zero to `bound`.
/// It samples from that range, so the result lies below `bound`; it panics on
/// an empty range, which the precondition rules out.  Nothing else is claimed
/// of the result.
#[verifier::external_body]
fn random_below(bound: usize) -> (pick: usize)
    requires
        bound > 0,
    ensures
        pick < bound,
{
    rand::random_range(0..bound)
}

impl BingoState {
    /// The split of the held numbers into drawn and undrawn is within bounds.
    pub closed spec fn consistent(&self) -> bool {
        &&& self.index <= self.order@.len()
        &&& self.order@.len() == self.range
    }

    /// The invariant of a draw sequence: see [`BingoView::wf`].
    pub open spec fn wf(&self) -> bool {
        self.consistent() && self@.wf()
    }

    /// A draw sequence over `1..=range` with nothing drawn yet.
    pub fn new(range: u8) -> (state: BingoState)
        ensures
            state.wf(),
            state@ == BingoView::fresh(range as nat),
    {
        let mut order: Vec<u8> = Vec::new();
        let mut next: u8 = 0;
        while next < range
            invariant
                next <= range,
                order@ =~= numbers(next as nat),
            decreases range - next,
        {
            next += 1;
            order.push(next);
        }
        let state = BingoState { order, index: 0, range };
        proof {
            assert(state@.drawn =~= Seq::<u8>::empty());
            assert(state@.pool =~= numbers(range as nat));
            lemma_fresh_wf(range as nat);
        }
        state
    }

    /// How many distinct numbers there are.
    pub fn range(&self) -> (range: u8)
        ensures
            range == self@.range,
    {
        self.range
    }

    /// The count of draws so far.
    pub fn index(&self) -> (index: usize)
        requires
            self.wf(),
        ensures
            index == self@.index(),
            index <= self@.range,
    {
        self.index
    }

    /// The numbers drawn so far, in draw order.
    pub fn drawn(&self) -> (drawn: Vec<u8>)
        requires
            self.wf(),
        ensures
            drawn@ == self@.drawn,
    {
        let mut drawn: Vec<u8> = Vec::new();
        let mut i: usize = 0;
        while i < self.index
            invariant
                i <= self.index <= self.order@.len(),
                drawn@ =~= self.order@.subrange(0, i as int),
            decreases self.index - i,
        {
            drawn.push(self.order[i]);
            i += 1;
        }
        drawn
    }

    /// Draws the undrawn number that `pick` selects, counted round the pool of
    /// undrawn numbers.  Returns none, and changes nothing, once every number
    /// has been drawn.
    pub fn draw_at(&mut self, pick: usize) -> (number: Option<u8>)
        requires
            old(self).wf(),
        ensures
            final(self).wf(),
            number == old(self)@.number_at(pick as nat),
            final(self)@ == old(self)@.draw(pick as nat),
    {
        let len = self.order.len();
        if self.index == len {
            return None;
        }
        let k = self.index + pick % (len - self.index);
        let number = self.order[k];
        let head = self.order[self.index];
        self.order[k] = head;
        self.order[self.index] = number;
        self.index += 1;
        proof {
            lemma_draw(old(self)@, pick as nat);
            assert(self@.drawn =~= old(self)@.draw(pick as nat).drawn);
            assert(self@.pool =~= old(self)@.draw(pick as nat).pool);
        }
        Some(number)
    }

    /// A position in the pool of undrawn numbers, chosen at random; zero once
    /// every number has been drawn.
    pub fn pick(&self) -> (pick: usize)
        requires
            self.wf(),
        ensures
            self@.exhausted() ==> pick == 0,
            !self@.exhausted() ==> pick < self@.pool.len(),
    {
        let remaining = self.order.len() - self.index;
        if remaining == 0 {
            0
        } else {
            random_below(remaining)
        }
    }

    /// Draws the next number: one of the undrawn numbers, chosen at random.
    /// Returns none, and changes nothing, once every number has been drawn.
    ///
    /// Whatever chance says, the outcome is that of [`BingoState::draw_at`]
    /// for some position in the pool.
    pub fn next(&mut self) -> (number: Option<u8>)
        requires
            old(self).wf(),
        ensures
            final(self).wf(),
            number is Some <==> old(self)@.index() < old(self)@.range,
            number is None ==> final(self)@ == old(self)@,
            number matches Some(n) ==> 1 <= n <= old(self)@.range && !old(self)@.drawn.contains(n)
                && final(self)@.drawn == old(self)@.drawn.push(n) && final(self)@.index() == old(
                self,
            )@.index() + 1,
            !old(self)@.exhausted() ==> exists|pick: nat|
                pick < old(self)@.pool.len() && number == old(self)@.number_at(pick)
                    && final(self)@ == #[trigger] old(self)@.draw(pick),
    {
        let pick = self.pick();
        let number = self.draw_at(pick);
        proof {
            lemma_draw(old(self)@, pick as nat);
            assert(number == old(self)@.number_at(pick as nat) && self@ == old(self)@.draw(
                pick as nat,
            ));
        }
        number
    }
}

/// The ascending numbers `1..=range` form a valid state with nothing drawn.
pub proof fn lemma_fresh_wf(range: nat)
    requires
        range <= 255,
    ensures
        BingoView::fresh(range).wf(),
        BingoView::fresh(range).index() == 0,
{
}

/// A draw keeps the state valid.  While numbers remain it yields a number of
/// the range that was not drawn before, appends it to the drawn ones and
/// raises the count of draws by one; afterwards it yields nothing and leaves
/// the state alone.
pub proof fn lemma_draw(v: BingoView, pick: nat)
    requires
        v.wf(),
    ensures
        v.draw(pick).wf(),
        v.draw(pick).range == v.range,
        v.index() == v.range ==> v.number_at(pick) is None && v.draw(pick) == v,
        v.index() < v.range ==> (v.number_at(pick) matches Some(n) && 1 <= n <= v.range
            && !v.drawn.contains(n) && v.draw(pick).drawn == v.drawn.push(n) && v.draw(pick).index()
            == v.index() + 1),
{
    if !v.exhausted() {
        let k = (pick % v.pool.len()) as int;
        let d = v.drawn.len() as int;
        let all = v.drawn + v.pool;
        let after = v.draw(pick).drawn + v.draw(pick).pool;
        // The draw exchanges the entries at `d` and `d + k` of `all`.
        assert forall|i: int| 0 <= i < after.len() implies #[trigger] after[i] == all[if i == d {
            d + k
        } else if i == d + k {
            d
        } else {
            i
        }] by {}
        assert(all[d + k] == v.pool[k]);
        assert forall|i: int| 0 <= i < d implies v.drawn[i] != v.pool[k] by {
            assert(all[i] == v.drawn[i]);
        }
    }
}

/// The numbers drawn so far are numbers of the range, no two of them equal.
pub proof fn lemma_drawn_distinct(v: BingoView)
    requires
        v.wf(),
    ensures
        v.drawn.no_duplicates(),
        v.index() <= v.range,
        forall|i: int| 0 <= i < v.drawn.len() ==> 1 <= #[trigger] v.drawn[i] <= v.range,
{
    let all = v.drawn + v.pool;
    assert forall|i: int, j: int| 0 <= i < v.drawn.len() && 0 <= j < v.drawn.len() && i != j implies v.drawn[i] != v.drawn[j] by {
        assert(all[i] == v.drawn[i]);
        assert(all[j] == v.drawn[j]);
    }
    assert forall|i: int| 0 <= i < v.drawn.len() implies 1 <= #[trigger] v.drawn[i] <= v.range by {
        assert(all[i] == v.drawn[i]);
    }
}

/// Once as many numbers are drawn as the range holds, the drawn numbers are
/// the numbers `1..=range`, each exactly once.
pub proof fn lemma_exhausted_covers_range(v: BingoView)
    requires
        v.wf(),
        v.index() == v.range,
    ensures
        v.exhausted(),
        v.drawn.to_multiset() =~= numbers(v.range).to_multiset(),
{
    broadcast use vstd::seq_lib::group_seq_properties;

    lemma_drawn_distinct(v);
    let full = numbers(v.range);
    v.drawn.unique_seq_to_set();
    full.unique_seq_to_set();
    assert(v.drawn.to_set().subset_of(full.to_set())) by {
        assert forall|n: u8| v.drawn.to_set().contains(n) implies full.to_set().contains(n) by {
            assert(full[n - 1] == n);
        }
    }
    vstd::set_lib::lemma_subset_equality(v.drawn.to_set(), full.to_set());
    v.drawn.lemma_multiset_has_no_duplicates();
    full.lemma_multiset_has_no_duplicates();
    assert forall|n: u8| v.drawn.to_multiset().count(n) == full.to_multiset().count(n) by {
        assert(full.contains(n) <==> full.to_set().contains(n));
    }
}

/// Starting fresh, the count of draws after `k` draws is `k`, for every `k`
/// up to the range and whatever chance said; after `range` draws the drawn
/// numbers are exactly `1..=range` and a further draw yields nothing.
pub proof fn lemma_index_counts_draws(range: nat, picks: Seq<nat>)
    requires
        range <= 255,
        picks.len() <= range,
    ensures
        BingoView::after_draws(range, picks).wf(),
        BingoView::after_draws(range, picks).range == range,
        BingoView::after_draws(range, picks).index() == picks.len(),
        picks.len() == range ==> forall|pick: nat|
            (#[trigger] BingoView::after_draws(range, picks).number_at(pick)) is None,
        picks.len() == range ==> BingoView::after_draws(range, picks).drawn.to_multiset()
            =~= numbers(range).to_multiset(),
    decreases picks.len(),
{
    if picks.len() == 0 {
        lemma_fresh_wf(range);
    } else {
        lemma_index_counts_draws(range, picks.drop_last());
        lemma_draw(BingoView::after_draws(range, picks.drop_last()), picks.last());
    }
    let v = BingoView::after_draws(range, picks);
    if picks.len() == range {
        lemma_exhausted_covers_range(v);
    }
}

} // verus!
