//! Due-set selector: which cards of the card universe are due for review at
//! a given instant, in card-universe order, bounded by a result-size limit.

use crate::store::CardState;
use crate::store::states_map;
use crate::text::str_eq;
use vstd::prelude::*;

verus! {

/// A flashcard: an identifier derived from lesson content, the prompt on
/// the front and the answer on the back.
#[derive(PartialEq, Eq, Debug)]
pub struct Card {
    pub id: String,
    pub front: String,
    pub back: String,
}

impl Clone for Card {
    fn clone(&self) -> (r: Self)
        ensures
            r == *self,
    {
        Card { id: self.id.clone(), front: self.front.clone(), back: self.back.clone() }
    }
}

/// The mathematical value of a card: its three strings.
pub ghost struct CardSpec {
    pub id: Seq<char>,
    pub front: Seq<char>,
    pub back: Seq<char>,
}

impl View for Card {
    type V = CardSpec;

    open spec fn view(&self) -> CardSpec {
        CardSpec { id: self.id@, front: self.front@, back: self.back@ }
    }
}

/// The mathematical values of a listing of cards, in its order.
pub open spec fn views_of(s: Seq<Card>) -> Seq<CardSpec>
    decreases s.len(),
{
    if s.len() == 0 {
        Seq::empty()
    } else {
        views_of(s.drop_last()).push(s.last()@)
    }
}

/// Appending one card appends its value.
pub proof fn lemma_views_push(s: Seq<Card>, c: Card)
    ensures
        views_of(s.push(c)) == views_of(s).push(c@),
{
    assert(s.push(c).drop_last() =~= s);
    assert(s.push(c).last() == c);
}

/// A card is due when no state is stored for its id, or the stored state
/// has no due date, or the due date has passed.
pub open spec fn is_due(states: Map<Seq<char>, CardState>, id: Seq<char>, now: i64) -> bool {
    ||| !states.contains_key(id)
    ||| states[id].due_date is None
    ||| states[id].due_date->0 <= now
}

/// Every card due at `now`, in card-universe order.
pub open spec fn due_seq(cards: Seq<Card>, states: Map<Seq<char>, CardState>, now: i64) -> Seq<
    Card,
>
    decreases cards.len(),
{
    if cards.len() == 0 {
        Seq::empty()
    } else if is_due(states, cards[0].id@, now) {
        seq![cards[0]] + due_seq(cards.drop_first(), states, now)
    } else {
        due_seq(cards.drop_first(), states, now)
    }
}

/// The cards due at `now`, in card-universe order, the collection stopping
/// as soon as `limit` cards have been found.
pub open spec fn due_filter(
    cards: Seq<Card>,
    states: Map<Seq<char>, CardState>,
    now: i64,
    limit: int,
) -> Seq<Card>
    decreases cards.len(),
{
    if cards.len() == 0 || limit <= 0 {
        Seq::empty()
    } else if is_due(states, cards[0].id@, now) {
        seq![cards[0]] + due_filter(cards.drop_first(), states, now, limit - 1)
    } else {
        due_filter(cards.drop_first(), states, now, limit)
    }
}

/// No listing hands out the same card id twice.
pub open spec fn distinct_ids(s: Seq<(String, CardState)>) -> bool {
    forall|p: int, q: int| 0 <= p < q < s.len() ==> s[p].0@ != s[q].0@
}

/// In a listing without repeated ids, the map a listing stands for holds
/// each listed pair.
proof fn lemma_states_map_index(s: Seq<(String, CardState)>, i: int)
    requires
        0 <= i < s.len(),
        distinct_ids(s),
    ensures
        states_map(s).contains_key(s[i].0@),
        states_map(s)[s[i].0@] == s[i].1,
    decreases s.len(),
{
    if i < s.len() - 1 {
        assert(distinct_ids(s.drop_last())) by {
            assert(forall|p: int, q: int|
                0 <= p < q < s.drop_last().len() ==> s.drop_last()[p].0@ != s.drop_last()[q].0@);
        }
        lemma_states_map_index(s.drop_last(), i);
        assert(s[i].0@ != s.last().0@);
    }
}

/// The map a listing stands for holds no key that the listing does not.
proof fn lemma_states_map_absent(s: Seq<(String, CardState)>, k: Seq<char>)
    requires
        forall|i: int| 0 <= i < s.len() ==> s[i].0@ != k,
    ensures
        !states_map(s).contains_key(k),
    decreases s.len(),
{
    if s.len() > 0 {
        lemma_states_map_absent(s.drop_last(), k);
    }
}

/// Point lookup in a listing of records: the record stored under `id`, as
/// the map the listing stands for has it.
pub fn find_state(states: &Vec<(String, CardState)>, id: &str) -> (r: Option<CardState>)
    requires
        distinct_ids(states@),
    ensures
        match r {
            Option::Some(st) => states_map(states@).contains_key(id@) && states_map(states@)[id@]
                == st,
            Option::None => !states_map(states@).contains_key(id@),
        },
{
    let n = states.len();
    let mut i: usize = 0;
    while i < n
        invariant
            0 <= i <= n,
            n == states@.len(),
            distinct_ids(states@),
            forall|j: int| 0 <= j < i ==> states@[j].0@ != id@,
        decreases n - i,
    {
        if str_eq(states[i].0.as_str(), id) {
            proof {
                lemma_states_map_index(states@, i as int);
            }
            return Some(states[i].1);
        }
        i = i + 1;
    }
    proof {
        lemma_states_map_absent(states@, id@);
    }
    None
}

/// Whether the record stored under a card id leaves the card due at `now`.
fn state_due(found: Option<CardState>, now: i64) -> (r: bool)
    ensures
        r == match found {
            Option::None => true,
            Option::Some(st) => st.due_date is None || st.due_date->0 <= now,
        },
{
    match found {
        Option::None => true,
        Option::Some(st) => match st.due_date {
            Option::None => true,
            Option::Some(d) => d <= now,
        },
    }
}

/// Collects the cards due at `now` by one pass over the card universe in
/// its order, stopping as soon as `limit` cards have been collected, so
/// cards are never prioritised by how overdue they are.
pub fn select_due(
    all_cards: &Vec<Card>,
    states: &Vec<(String, CardState)>,
    now: i64,
    limit: usize,
) -> (r: Vec<Card>)
    requires
        limit >= 1,
        distinct_ids(states@),
    ensures
        r@ == due_filter(all_cards@, states_map(states@), now, limit as int),
{
    let ghost m = states_map(states@);
    let ghost whole = due_filter(all_cards@, m, now, limit as int);
    let n = all_cards.len();
    let mut out: Vec<Card> = Vec::new();
    let mut i: usize = 0;
    proof {
        assert(all_cards@.skip(0) =~= all_cards@);
        assert(out@ + whole =~= whole);
    }
    while i < n
        invariant
            0 <= i <= n,
            n == all_cards@.len(),
            distinct_ids(states@),
            m == states_map(states@),
            whole == due_filter(all_cards@, m, now, limit as int),
            out@.len() < limit,
            whole == out@ + due_filter(all_cards@.skip(i as int), m, now, limit - out@.len()),
        decreases n - i,
    {
        let card = &all_cards[i];
        let found = find_state(states, card.id.as_str());
        let due = state_due(found, now);
        proof {
            assert(due == is_due(m, all_cards@[i as int].id@, now));
            assert(all_cards@.skip(i as int) =~= seq![all_cards@[i as int]] + all_cards@.skip(
                i as int + 1));
            assert(all_cards@.skip(i as int)[0] == all_cards@[i as int]);
            assert(all_cards@.skip(i as int).drop_first() =~= all_cards@.skip(i as int + 1));
        }
        if due {
            out.push(card.clone());
            proof {
                assert(whole =~= out@ + due_filter(
                    all_cards@.skip(i as int + 1),
                    m,
                    now,
                    limit - out@.len(),
                ));
            }
            if out.len() >= limit {
                proof {
                    assert(whole =~= out@);
                }
                return out;
            }
        }
        i = i + 1;
    }
    proof {
        assert(all_cards@.skip(n as int) =~= Seq::<Card>::empty());
        assert(whole =~= out@);
    }
    out
}

/// The bounded due set is exactly the first `limit` cards of the whole due
/// set: nothing is collected out of order, nothing due is skipped before
/// the limit is reached, and never more than `limit` cards come back.
pub proof fn lemma_due_filter_take(
    cards: Seq<Card>,
    states: Map<Seq<char>, CardState>,
    now: i64,
    limit: int,
)
    requires
        limit >= 0,
    ensures
        due_filter(cards, states, now, limit) == due_seq(cards, states, now).take(
            if limit <= due_seq(cards, states, now).len() {
                limit
            } else {
                due_seq(cards, states, now).len() as int
            },
        ),
    decreases cards.len(),
{
    let full = due_seq(cards, states, now);
    let k = if limit <= full.len() {
        limit
    } else {
        full.len() as int
    };
    if cards.len() == 0 || limit == 0 {
        assert(due_filter(cards, states, now, limit) =~= full.take(k));
    } else {
        let rest = cards.drop_first();
        lemma_due_filter_take(rest, states, now, limit - 1);
        lemma_due_filter_take(rest, states, now, limit);
        let full_rest = due_seq(rest, states, now);
        if is_due(states, cards[0].id@, now) {
            let k1 = if limit - 1 <= full_rest.len() {
                limit - 1
            } else {
                full_rest.len() as int
            };
            assert(full == seq![cards[0]] + full_rest);
            assert((seq![cards[0]] + full_rest).take(k1 + 1) =~= seq![cards[0]] + full_rest.take(
                k1,
            ));
            assert(due_filter(cards, states, now, limit) =~= full.take(k));
        } else {
            assert(due_filter(cards, states, now, limit) =~= full.take(k));
        }
    }
}

/// The bounded due set never holds more than `limit` cards.
pub proof fn lemma_due_filter_bounded(
    cards: Seq<Card>,
    states: Map<Seq<char>, CardState>,
    now: i64,
    limit: int,
)
    requires
        limit >= 0,
    ensures
        due_filter(cards, states, now, limit).len() <= limit,
    decreases cards.len(),
{
    if cards.len() > 0 && limit > 0 {
        lemma_due_filter_bounded(cards.drop_first(), states, now, limit - 1);
        lemma_due_filter_bounded(cards.drop_first(), states, now, limit);
    }
}

/// No due card within the first `limit` matches is omitted: up to the
/// limit, the bounded due set agrees with the whole due set position by
/// position.
pub proof fn lemma_due_filter_keeps_first_matches(
    cards: Seq<Card>,
    states: Map<Seq<char>, CardState>,
    now: i64,
    limit: int,
    i: int,
)
    requires
        0 <= i < limit,
        i < due_seq(cards, states, now).len(),
    ensures
        i < due_filter(cards, states, now, limit).len(),
        due_filter(cards, states, now, limit)[i] == due_seq(cards, states, now)[i],
{
    lemma_due_filter_take(cards, states, now, limit);
}

/// Every card of the whole due set is due, and every due card of the
/// universe stands in it: the due set is exactly the due part of the
/// universe, in its order.
pub proof fn lemma_due_seq_exact(cards: Seq<Card>, states: Map<Seq<char>, CardState>, now: i64)
    ensures
        forall|i: int|
            0 <= i < due_seq(cards, states, now).len() ==> is_due(
                states,
                #[trigger] due_seq(cards, states, now)[i].id@,
                now,
            ),
        forall|j: int|
            0 <= j < cards.len() && is_due(states, #[trigger] cards[j].id@, now) ==> due_seq(
                cards,
                states,
                now,
            ).contains(cards[j]),
        due_seq(cards, states, now).len() <= cards.len(),
    decreases cards.len(),
{
    if cards.len() > 0 {
        let rest = cards.drop_first();
        lemma_due_seq_exact(rest, states, now);
        let full = due_seq(cards, states, now);
        let full_rest = due_seq(rest, states, now);
        assert forall|j: int|
            0 <= j < cards.len() && is_due(states, #[trigger] cards[j].id@, now) implies full
            .contains(cards[j]) by {
            if j == 0 {
                if is_due(states, cards[0].id@, now) {
                    assert(full[0] == cards[0]);
                }
            } else {
                assert(rest[j - 1] == cards[j]);
                assert(full_rest.contains(cards[j]));
                let w = choose|w: int| 0 <= w < full_rest.len() && full_rest[w] == cards[j];
                if is_due(states, cards[0].id@, now) {
                    assert(full[w + 1] == cards[j]);
                } else {
                    assert(full[w] == cards[j]);
                }
            }
        }
    }
}

} // verus!
