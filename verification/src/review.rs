//! Review processor and settings interface: processing one rating event
//! end to end against the store, answering due-set queries, and reading and
//! updating the desired retention.
//!
//! Scheduling around one review goes in two verified phases. `plan_review`
//! validates the rating, loads the card's stored state and the desired
//! retention, and computes the elapsed days: everything the
//! forgetting-curve model needs. The model itself computes in 32-bit
//! floating point outside this crate, so the caller runs it on the plan's
//! plain values and hands the four candidate outcomes to `apply_review`,
//! which selects the rated outcome, floors the interval at one day, derives
//! the due date and persists the new record in one atomic write.

use crate::DEFAULT_LIMIT;
use crate::due::Card;
use crate::due::distinct_ids;
use crate::due::due_filter;
use crate::due::select_due;
use crate::model::DEFAULT_RETENTION_BITS;
use crate::model::Memory;
use crate::model::NextOutcomes;
use crate::model::RETENTION_MAX_BITS;
use crate::model::RETENTION_MIN_BITS;
use crate::model::SECONDS_PER_DAY;
use crate::model::elapsed_days;
use crate::model::pick_outcome;
use crate::model::rating_valid;
use crate::model::retention_valid;
use crate::model::spec_elapsed_days;
use crate::model::spec_floor_interval;
use crate::model::spec_pick;
use crate::store::CardState;
use crate::store::Store;
use crate::store::StoreError;
use vstd::prelude::*;

verus! {

/// How the exposed operations fail: a client-caused bad input, a stored
/// configuration the model rejects, or the store's own failures.
#[derive(Clone, Copy, PartialEq, Eq, Structural, Debug)]
pub enum ReviewError {
    InvalidInput,
    InvalidConfiguration,
    StorageUnavailable,
    CorruptRecord,
}

/// Lifts a store failure into the exposed error taxonomy.
fn store_err(e: StoreError) -> (r: ReviewError)
    ensures
        e is StorageUnavailable <==> r is StorageUnavailable,
        e is CorruptRecord <==> r is CorruptRecord,
{
    match e {
        StoreError::StorageUnavailable => ReviewError::StorageUnavailable,
        StoreError::CorruptRecord => ReviewError::CorruptRecord,
    }
}

/// The name the desired retention is stored under.
pub open spec fn spec_retention_key() -> Seq<char> {
    "desired_retention"@
}

/// The retention the settings hold: the stored value, or the default bit
/// pattern when none was ever stored.
pub open spec fn stored_retention(settings: Map<Seq<char>, i64>) -> int {
    if settings.contains_key(spec_retention_key()) {
        settings[spec_retention_key()] as int
    } else {
        DEFAULT_RETENTION_BITS as int
    }
}

/// Whether the settings hold a retention the model accepts.
pub open spec fn stored_retention_valid(settings: Map<Seq<char>, i64>) -> bool {
    RETENTION_MIN_BITS as int <= stored_retention(settings) <= RETENTION_MAX_BITS as int
}

/// The record the card map holds under an id, if any.
pub open spec fn spec_card_at(cards: Map<Seq<char>, CardState>, id: Seq<char>) -> Option<
    CardState,
> {
    if cards.contains_key(id) {
        Option::Some(cards[id])
    } else {
        Option::None
    }
}

/// The memory parameters a stored record carries, absent before the first
/// review.
pub open spec fn spec_memory_of(prev: Option<CardState>) -> Option<Memory> {
    match prev {
        Option::Some(st) => Option::Some(st.spec_memory()),
        Option::None => Option::None,
    }
}

/// The last-review instant a stored record carries, absent before the
/// first review.
pub open spec fn spec_last_of(prev: Option<CardState>) -> Option<i64> {
    match prev {
        Option::Some(st) => st.last_review,
        Option::None => Option::None,
    }
}

/// The settings as the caller sees them.
#[derive(Clone, Copy, PartialEq, Eq, Structural, Debug)]
pub struct Settings {
    /// Desired retention, as the bit pattern of the model's 32-bit value.
    pub desired_retention_bits: u32,
}

/// What a stored setting value means as a retention: the default when none
/// was ever stored, the value itself when it fits the model's 32 bits, and
/// a corrupt record otherwise.
fn interpret_retention(found: Option<i64>) -> (r: Result<u32, ReviewError>)
    ensures
        match found {
            Option::None => r is Ok && r->Ok_0 == DEFAULT_RETENTION_BITS,
            Option::Some(v) => if 0 <= v <= u32::MAX {
                r is Ok && r->Ok_0 == v as u32
            } else {
                r is Err && r->Err_0 is CorruptRecord
            },
        },
{
    match found {
        Option::Some(v) => {
            if 0 <= v && v <= u32::MAX as i64 {
                Ok(v as u32)
            } else {
                Err(ReviewError::CorruptRecord)
            }
        },
        Option::None => Ok(DEFAULT_RETENTION_BITS),
    }
}

/// Reads the desired retention: the stored value, or the default when none
/// was stored. A stored value outside the 32-bit range is a corrupt row.
pub fn get_settings(store: &Store) -> (r: Result<Settings, ReviewError>)
    ensures
        r is Ok ==> r->Ok_0.desired_retention_bits as int == stored_retention(store.settings()),
        r is Err ==> r->Err_0 is StorageUnavailable || r->Err_0 is CorruptRecord,
{
    let found = match store.get_setting("desired_retention") {
        Ok(found) => found,
        Err(e) => {
            return Err(store_err(e));
        },
    };
    match interpret_retention(found) {
        Ok(bits) => Ok(Settings { desired_retention_bits: bits }),
        Err(e) => Err(e),
    }
}

/// Stores a new desired retention. A value outside [0.7, 0.99] is rejected
/// as the client's fault, and then nothing changes; on any failure the
/// settings are left as they were.
pub fn update_settings(store: &mut Store, desired_retention_bits: u32) -> (r: Result<
    (),
    ReviewError,
>)
    ensures
        (r is Err && r->Err_0 is InvalidInput) <==> !retention_valid(desired_retention_bits),
        r is Ok ==> final(store).settings() == old(store).settings().insert(
            spec_retention_key(),
            desired_retention_bits as i64,
        ),
        r is Err ==> final(store).settings() == old(store).settings(),
        final(store).cards() == old(store).cards(),
{
    if !(RETENTION_MIN_BITS <= desired_retention_bits && desired_retention_bits
        <= RETENTION_MAX_BITS) {
        return Err(ReviewError::InvalidInput);
    }
    match store.set_setting("desired_retention", desired_retention_bits as i64) {
        Ok(()) => Ok(()),
        Err(e) => Err(store_err(e)),
    }
}

/// Everything the forgetting-curve model needs to compute the candidate
/// outcomes of one review.
#[derive(Clone, Copy, PartialEq, Eq, Debug)]
pub struct ReviewPlan {
    /// The stored record, absent before the first review.
    pub previous: Option<CardState>,
    /// The memory parameters of the stored record, absent likewise.
    pub memory: Option<Memory>,
    /// The desired retention to schedule for, already validated.
    pub desired_retention_bits: u32,
    /// Whole days since the previous review, zero before the first.
    pub elapsed_days: u32,
}

/// First phase of one review: validates the rating, loads the card's
/// stored state and the desired retention, and computes the elapsed days.
/// Reads only; a failure leaves no trace.
pub fn plan_review(store: &Store, card_id: &str, rating: u32, now: i64) -> (r: Result<
    ReviewPlan,
    ReviewError,
>)
    ensures
        (r is Err && r->Err_0 is InvalidInput) <==> !rating_valid(rating),
        r is Err && r->Err_0 is InvalidConfiguration ==> !stored_retention_valid(
            store.settings(),
        ),
        r is Ok ==> ({
            let plan = r->Ok_0;
            &&& plan.previous == spec_card_at(store.cards(), card_id@)
            &&& plan.memory == spec_memory_of(plan.previous)
            &&& plan.desired_retention_bits as int == stored_retention(store.settings())
            &&& retention_valid(plan.desired_retention_bits)
            &&& plan.elapsed_days == spec_elapsed_days(now, spec_last_of(plan.previous))
        }),
{
    if !(1 <= rating && rating <= 4) {
        return Err(ReviewError::InvalidInput);
    }
    let previous = match store.get(card_id) {
        Ok(found) => found,
        Err(e) => {
            return Err(store_err(e));
        },
    };
    let settings = match get_settings(store) {
        Ok(s) => s,
        Err(e) => {
            return Err(e);
        },
    };
    let bits = settings.desired_retention_bits;
    if !(RETENTION_MIN_BITS <= bits && bits <= RETENTION_MAX_BITS) {
        return Err(ReviewError::InvalidConfiguration);
    }
    let memory = match &previous {
        Option::Some(st) => Option::Some(st.memory()),
        Option::None => Option::None,
    };
    let last = match &previous {
        Option::Some(st) => st.last_review,
        Option::None => Option::None,
    };
    let elapsed = elapsed_days(now, last);
    Ok(ReviewPlan { previous, memory, desired_retention_bits: bits, elapsed_days: elapsed })
}

/// What one processed review reports back: the next due date and the
/// scheduled gap.
#[derive(Clone, Copy, PartialEq, Eq, Structural, Debug)]
pub struct ReviewOutcome {
    /// Instant at which the card is due again, in Unix seconds UTC.
    pub due_date: i64,
    /// The scheduled gap in whole days, at least one.
    pub interval_days: u32,
}

/// The due date one review schedules: the floored interval, in days after
/// the review instant.
pub open spec fn spec_due_date(outcomes: NextOutcomes, rating: u32, now: i64) -> int {
    now + spec_floor_interval(spec_pick(outcomes, rating).interval_days) * (
    SECONDS_PER_DAY as int)
}

/// Whether that due date is representable as an instant.
pub open spec fn spec_due_fits(outcomes: NextOutcomes, rating: u32, now: i64) -> bool {
    spec_due_date(outcomes, rating, now) <= i64::MAX
}

/// The record one review persists: the rated outcome's memory parameters,
/// the review instant, and a due date kept in lockstep with the interval.
pub open spec fn spec_new_state(outcomes: NextOutcomes, rating: u32, now: i64) -> CardState {
    let chosen = spec_pick(outcomes, rating);
    let interval = spec_floor_interval(chosen.interval_days);
    CardState {
        stability_bits: chosen.memory.stability_bits,
        difficulty_bits: chosen.memory.difficulty_bits,
        last_review: Option::Some(now),
        due_date: Option::Some(spec_due_date(outcomes, rating, now) as i64),
        interval_days: interval,
    }
}

/// Second phase of one review: selects the candidate outcome the rating
/// asks for, floors its interval at one day, derives the due date, and
/// persists the new record in one atomic write. On any failure nothing is
/// persisted.
pub fn apply_review(
    store: &mut Store,
    card_id: &str,
    rating: u32,
    now: i64,
    outcomes: &NextOutcomes,
) -> (r: Result<ReviewOutcome, ReviewError>)
    ensures
        (r is Err && r->Err_0 is InvalidInput) <==> !rating_valid(rating),
        (r is Err && r->Err_0 is InvalidConfiguration) <==> rating_valid(rating)
            && !spec_due_fits(*outcomes, rating, now),
        r is Ok ==> ({
            let st = spec_new_state(*outcomes, rating, now);
            &&& final(store).cards() == old(store).cards().insert(card_id@, st)
            &&& r->Ok_0.interval_days == st.interval_days
            &&& r->Ok_0.interval_days >= 1
            &&& r->Ok_0.due_date == spec_due_date(*outcomes, rating, now)
            &&& st.due_date == Option::Some(r->Ok_0.due_date)
            &&& st.last_review == Option::Some(now)
        }),
        r is Err ==> final(store).cards() == old(store).cards(),
        final(store).settings() == old(store).settings(),
{
    if !(1 <= rating && rating <= 4) {
        return Err(ReviewError::InvalidInput);
    }
    let chosen = pick_outcome(outcomes, rating);
    let interval: u32 = if chosen.interval_days < 1 {
        1
    } else {
        chosen.interval_days
    };
    let gap: i64 = (interval as i64) * SECONDS_PER_DAY;
    if now > i64::MAX - gap {
        return Err(ReviewError::InvalidConfiguration);
    }
    let due: i64 = now + gap;
    let st = CardState {
        stability_bits: chosen.memory.stability_bits,
        difficulty_bits: chosen.memory.difficulty_bits,
        last_review: Some(now),
        due_date: Some(due),
        interval_days: interval,
    };
    match store.upsert(card_id, &st) {
        Ok(()) => Ok(ReviewOutcome { due_date: due, interval_days: interval }),
        Err(e) => Err(store_err(e)),
    }
}

/// The limit a due-set query runs under: the caller's, or the default.
pub open spec fn spec_limit(limit: Option<usize>) -> int {
    match limit {
        Option::Some(l) => l as int,
        Option::None => DEFAULT_LIMIT as int,
    }
}

/// Answers "what is due now": scans the card universe in its order against
/// the stored states and collects due cards until the limit is reached.
pub fn get_due(store: &Store, all_cards: &Vec<Card>, now: i64, limit: Option<usize>) -> (r: Result<
    Vec<Card>,
    ReviewError,
>)
    requires
        limit is Some ==> limit->0 >= 1,
    ensures
        r is Ok ==> r->Ok_0@ == due_filter(all_cards@, store.cards(), now, spec_limit(limit)),
        r is Err ==> r->Err_0 is StorageUnavailable || r->Err_0 is CorruptRecord,
{
    let lim: usize = match limit {
        Option::Some(l) => l,
        Option::None => DEFAULT_LIMIT,
    };
    let states = match store.get_all() {
        Ok(states) => states,
        Err(e) => {
            return Err(store_err(e));
        },
    };
    proof {
        assert(distinct_ids(states@));
    }
    Ok(select_due(all_cards, &states, now, lim))
}

/// Reading the settings straight after an update hands back exactly the
/// retention the update stored: over the settings map, the value under the
/// retention key after `update_settings` succeeds is what `get_settings`
/// then reads.
pub proof fn lemma_settings_round_trip(settings: Map<Seq<char>, i64>, bits: u32)
    ensures
        stored_retention(settings.insert(spec_retention_key(), bits as i64)) == bits as int,
{
}

/// A record written under a card id is exactly the record read back under
/// that id: over the card map, an upsert followed by a get yields the same
/// stability, difficulty, last review, due date and interval.
pub proof fn lemma_upsert_get_round_trip(
    cards: Map<Seq<char>, CardState>,
    id: Seq<char>,
    st: CardState,
)
    ensures
        spec_card_at(cards.insert(id, st), id) == Option::Some(st),
{
}

/// Every review that persists schedules an interval of at least one day,
/// stamps the review instant, and sets the due date exactly that many days
/// after it; the record it writes is consistent.
pub proof fn lemma_schedule_shape(outcomes: NextOutcomes, rating: u32, now: i64)
    requires
        rating_valid(rating),
        spec_due_fits(outcomes, rating, now),
    ensures
        spec_new_state(outcomes, rating, now).interval_days >= 1,
        spec_new_state(outcomes, rating, now).last_review == Option::Some(now),
        spec_new_state(outcomes, rating, now).due_date is Some,
        spec_new_state(outcomes, rating, now).due_date->0 == now + spec_new_state(
            outcomes,
            rating,
            now,
        ).interval_days * (SECONDS_PER_DAY as int),
        spec_new_state(outcomes, rating, now).consistent(),
{
    let interval = spec_floor_interval(spec_pick(outcomes, rating).interval_days);
    assert(interval * (SECONDS_PER_DAY as int) >= 0) by (nonlinear_arith);
}

} // verus!
