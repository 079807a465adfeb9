use avvai_core::due::Card;
use avvai_core::model::Memory;
use avvai_core::model::NextOutcomes;
use avvai_core::model::Outcome;
use avvai_core::model::DEFAULT_RETENTION_BITS;
use avvai_core::model::RETENTION_MAX_BITS;
use avvai_core::model::RETENTION_MIN_BITS;
use avvai_core::review::apply_review;
use avvai_core::review::get_due;
use avvai_core::review::get_settings;
use avvai_core::review::plan_review;
use avvai_core::review::update_settings;
use avvai_core::review::ReviewError;
use avvai_core::review::ReviewPlan;
use avvai_core::store::CardState;
use avvai_core::store::Store;
use avvai_core::store::StoreError;

/// 2024-01-01T00:00:00Z in Unix seconds.
const NOW: i64 = 1704067200;

const DAY: i64 = 86400;

fn outcomes_for(plan: &ReviewPlan) -> NextOutcomes {
    let f = fsrs::FSRS::new(&fsrs::DEFAULT_PARAMETERS).expect("default parameters are valid");
    let mem = plan.memory.map(|m| fsrs::MemoryState {
        stability: f32::from_bits(m.stability_bits),
        difficulty: f32::from_bits(m.difficulty_bits),
    });
    let ns = f
        .next_states(
            mem,
            f32::from_bits(plan.desired_retention_bits),
            plan.elapsed_days,
        )
        .expect("states are finite");
    let c = |s: &fsrs::ItemState| Outcome {
        memory: Memory {
            stability_bits: s.memory.stability.to_bits(),
            difficulty_bits: s.memory.difficulty.to_bits(),
        },
        interval_days: s.interval.round() as u32,
    };
    NextOutcomes {
        again: c(&ns.again),
        hard: c(&ns.hard),
        good: c(&ns.good),
        easy: c(&ns.easy),
    }
}

fn card(id: &str) -> Card {
    Card {
        id: id.to_string(),
        front: id.to_string(),
        back: id.to_string(),
    }
}

#[test]
fn retention_bit_constants_match_their_values() {
    assert_eq!(RETENTION_MIN_BITS, 0.7f32.to_bits());
    assert_eq!(RETENTION_MAX_BITS, 0.99f32.to_bits());
    assert_eq!(DEFAULT_RETENTION_BITS, 0.9f32.to_bits());
}

#[test]
fn first_review_schedules_and_removes_card_from_due_set() {
    let mut store = Store::open_in_memory().unwrap();
    let plan = plan_review(&store, "L1:vocab:0", 3, NOW).unwrap();
    assert!(plan.previous.is_none());
    assert!(plan.memory.is_none());
    assert_eq!(plan.elapsed_days, 0);
    assert_eq!(plan.desired_retention_bits, 0.9f32.to_bits());

    let outcomes = outcomes_for(&plan);
    let res = apply_review(&mut store, "L1:vocab:0", 3, NOW, &outcomes).unwrap();
    assert!(res.interval_days >= 1);
    assert_eq!(res.due_date, NOW + res.interval_days as i64 * DAY);

    let universe = vec![card("L1:vocab:0"), card("L1:vocab:1")];
    let due = get_due(&store, &universe, NOW, None).unwrap();
    let ids: Vec<&str> = due.iter().map(|c| c.id.as_str()).collect();
    assert!(!ids.contains(&"L1:vocab:0"));
    assert!(ids.contains(&"L1:vocab:1"));
}

#[test]
fn reviewed_card_becomes_due_once_its_date_passes() {
    let mut store = Store::open_in_memory().unwrap();
    let plan = plan_review(&store, "L1:vocab:0", 4, NOW).unwrap();
    let outcomes = outcomes_for(&plan);
    let res = apply_review(&mut store, "L1:vocab:0", 4, NOW, &outcomes).unwrap();

    let universe = vec![card("L1:vocab:0")];
    let before = get_due(&store, &universe, res.due_date - 1, None).unwrap();
    assert!(before.is_empty());
    let at = get_due(&store, &universe, res.due_date, None).unwrap();
    assert_eq!(at.len(), 1);
}

#[test]
fn invalid_rating_fails_and_creates_no_row() {
    let mut store = Store::open_in_memory().unwrap();
    let res = plan_review(&store, "card-x", 99, NOW);
    assert_eq!(res.unwrap_err(), ReviewError::InvalidInput);
    let res0 = plan_review(&store, "card-x", 0, NOW);
    assert_eq!(res0.unwrap_err(), ReviewError::InvalidInput);
    assert!(store.get("card-x").unwrap().is_none());

    let outcomes = NextOutcomes {
        again: Outcome { memory: Memory { stability_bits: 1, difficulty_bits: 1 }, interval_days: 1 },
        hard: Outcome { memory: Memory { stability_bits: 1, difficulty_bits: 1 }, interval_days: 1 },
        good: Outcome { memory: Memory { stability_bits: 1, difficulty_bits: 1 }, interval_days: 1 },
        easy: Outcome { memory: Memory { stability_bits: 1, difficulty_bits: 1 }, interval_days: 1 },
    };
    let res = apply_review(&mut store, "card-x", 5, NOW, &outcomes);
    assert_eq!(res.unwrap_err(), ReviewError::InvalidInput);
    assert!(store.get("card-x").unwrap().is_none());
}

#[test]
fn repeated_reviews_update_the_same_row() {
    let mut store = Store::open_in_memory().unwrap();
    let plan = plan_review(&store, "c", 3, NOW).unwrap();
    let outcomes = outcomes_for(&plan);
    let first = apply_review(&mut store, "c", 3, NOW, &outcomes).unwrap();

    let later = NOW + 10 * DAY;
    let plan2 = plan_review(&store, "c", 3, later).unwrap();
    assert_eq!(plan2.elapsed_days, 10);
    let stored = plan2.previous.expect("first review stored a record");
    assert_eq!(stored.last_review, Some(NOW));
    assert_eq!(stored.due_date, Some(first.due_date));
    assert_eq!(stored.interval_days, first.interval_days);

    let outcomes2 = outcomes_for(&plan2);
    let second = apply_review(&mut store, "c", 3, later, &outcomes2).unwrap();
    assert_eq!(second.due_date, later + second.interval_days as i64 * DAY);

    let all = store.get_all().unwrap();
    assert_eq!(all.len(), 1);
    assert_eq!(all[0].0, "c");
    assert_eq!(all[0].1.last_review, Some(later));
}

#[test]
fn every_rating_schedules_at_least_one_day() {
    for rating in 1..=4u32 {
        let mut store = Store::open_in_memory().unwrap();
        let plan = plan_review(&store, "c", rating, NOW).unwrap();
        let outcomes = outcomes_for(&plan);
        let res = apply_review(&mut store, "c", rating, NOW, &outcomes).unwrap();
        assert!(res.interval_days >= 1, "rating {rating}");
        assert_eq!(res.due_date, NOW + res.interval_days as i64 * DAY);
        let stored = store.get("c").unwrap().unwrap();
        assert_eq!(stored.due_date, Some(res.due_date));
        assert_eq!(stored.last_review, Some(NOW));
        assert_eq!(stored.interval_days, res.interval_days);
    }
}

#[test]
fn interval_is_floored_at_one_day() {
    let mut store = Store::open_in_memory().unwrap();
    let zeroed = Outcome {
        memory: Memory { stability_bits: 7, difficulty_bits: 9 },
        interval_days: 0,
    };
    let outcomes = NextOutcomes { again: zeroed, hard: zeroed, good: zeroed, easy: zeroed };
    let res = apply_review(&mut store, "c", 1, NOW, &outcomes).unwrap();
    assert_eq!(res.interval_days, 1);
    assert_eq!(res.due_date, NOW + DAY);
    let stored = store.get("c").unwrap().unwrap();
    assert_eq!(stored.stability_bits, 7);
    assert_eq!(stored.difficulty_bits, 9);
}

#[test]
fn unrepresentable_due_date_is_a_configuration_error() {
    let mut store = Store::open_in_memory().unwrap();
    let o = Outcome {
        memory: Memory { stability_bits: 1, difficulty_bits: 1 },
        interval_days: 1,
    };
    let outcomes = NextOutcomes { again: o, hard: o, good: o, easy: o };
    let res = apply_review(&mut store, "c", 1, i64::MAX - 100, &outcomes);
    assert_eq!(res.unwrap_err(), ReviewError::InvalidConfiguration);
    assert!(store.get("c").unwrap().is_none());
}

#[test]
fn card_state_round_trips_exactly() {
    let mut store = Store::open_in_memory().unwrap();
    let st = CardState {
        stability_bits: 3.175f32.to_bits(),
        difficulty_bits: 5.2345f32.to_bits(),
        last_review: Some(1704067199),
        due_date: Some(1704067199 + 3 * DAY),
        interval_days: 3,
    };
    store.upsert("L2:vocab:7", &st).unwrap();
    let got = store.get("L2:vocab:7").unwrap().unwrap();
    assert_eq!(got.stability_bits, st.stability_bits);
    assert_eq!(got.difficulty_bits, st.difficulty_bits);
    assert_eq!(got.last_review, st.last_review);
    assert_eq!(got.due_date, st.due_date);
    assert_eq!(got.interval_days, st.interval_days);

    let none_st = CardState {
        stability_bits: 0,
        difficulty_bits: u32::MAX,
        last_review: None,
        due_date: None,
        interval_days: 1,
    };
    store.upsert("other", &none_st).unwrap();
    let got2 = store.get("other").unwrap().unwrap();
    assert_eq!(got2.last_review, None);
    assert_eq!(got2.due_date, None);
    assert_eq!(got2.stability_bits, 0);
    assert_eq!(got2.difficulty_bits, u32::MAX);
}

#[test]
fn settings_default_update_and_read_back() {
    let mut store = Store::open_in_memory().unwrap();
    let s = get_settings(&store).unwrap();
    assert_eq!(s.desired_retention_bits, 0.9f32.to_bits());

    let r = 0.85f32.to_bits();
    update_settings(&mut store, r).unwrap();
    let s2 = get_settings(&store).unwrap();
    assert_eq!(s2.desired_retention_bits, r);

    let again = 0.7f32.to_bits();
    update_settings(&mut store, again).unwrap();
    assert_eq!(get_settings(&store).unwrap().desired_retention_bits, again);
}

#[test]
fn out_of_range_retention_is_rejected_without_a_change() {
    let mut store = Store::open_in_memory().unwrap();
    let good = 0.8f32.to_bits();
    update_settings(&mut store, good).unwrap();

    for bad in [
        0.5f32.to_bits(),
        0.6999f32.to_bits(),
        0.991f32.to_bits(),
        1.0f32.to_bits(),
        (-0.9f32).to_bits(),
        f32::NAN.to_bits(),
        0u32,
    ] {
        let res = update_settings(&mut store, bad);
        assert_eq!(res.unwrap_err(), ReviewError::InvalidInput);
        assert_eq!(get_settings(&store).unwrap().desired_retention_bits, good);
    }
}

#[test]
fn stored_retention_outside_the_valid_range_blocks_reviews() {
    let mut store = Store::open_in_memory().unwrap();
    store.set_setting("desired_retention", 0.5f32.to_bits() as i64).unwrap();
    let res = plan_review(&store, "c", 3, NOW);
    assert_eq!(res.unwrap_err(), ReviewError::InvalidConfiguration);
}

#[test]
fn due_selection_keeps_universe_order_and_truncates_at_limit() {
    let mut store = Store::open_in_memory().unwrap();
    // give b a future due date, everything else stays unseen
    let st = CardState {
        stability_bits: 1,
        difficulty_bits: 1,
        last_review: Some(NOW),
        due_date: Some(NOW + DAY),
        interval_days: 1,
    };
    store.upsert("b", &st).unwrap();

    let universe = vec![card("a"), card("b"), card("c"), card("d"), card("e")];
    let due = get_due(&store, &universe, NOW, Some(2)).unwrap();
    let ids: Vec<&str> = due.iter().map(|c| c.id.as_str()).collect();
    assert_eq!(ids, ["a", "c"]);

    let all_due = get_due(&store, &universe, NOW, Some(10)).unwrap();
    let ids: Vec<&str> = all_due.iter().map(|c| c.id.as_str()).collect();
    assert_eq!(ids, ["a", "c", "d", "e"]);

    let none_due = get_due(&store, &Vec::new(), NOW, None).unwrap();
    assert!(none_due.is_empty());
}

#[test]
fn default_due_limit_is_thirty() {
    let store = Store::open_in_memory().unwrap();
    let mut universe = Vec::new();
    for i in 0..35 {
        universe.push(card(&format!("card-{i}")));
    }
    let due = get_due(&store, &universe, NOW, None).unwrap();
    assert_eq!(due.len(), 30);
    assert_eq!(due[0].id, "card-0");
    assert_eq!(due[29].id, "card-29");
}

#[test]
fn unopenable_medium_reports_storage_unavailable() {
    let res = Store::open("/nonexistent-dir-for-store/db.sqlite3");
    assert!(matches!(res, Err(StoreError::StorageUnavailable)));
}

#[test]
fn malformed_rows_report_corrupt_records() {
    let path = "/tmp/avvai_core_corrupt_rows.sqlite3";
    {
        let conn = rusqlite::Connection::open(path).unwrap();
        conn.execute_batch(
            "DROP TABLE IF EXISTS fsrs_cards;
             DROP TABLE IF EXISTS fsrs_settings;
             CREATE TABLE fsrs_cards (
                card_id TEXT PRIMARY KEY,
                stability_bits INTEGER NOT NULL,
                difficulty_bits INTEGER NOT NULL,
                last_review INTEGER,
                due_date INTEGER,
                interval_days INTEGER NOT NULL
             );
             CREATE TABLE fsrs_settings (key TEXT PRIMARY KEY, value INTEGER NOT NULL);
             INSERT INTO fsrs_cards VALUES ('bad', -1, 2, NULL, NULL, 3);
             INSERT INTO fsrs_settings VALUES ('desired_retention', -7);",
        )
        .unwrap();
    }
    let store = Store::open(path).unwrap();
    let res = store.get("bad");
    assert!(matches!(res.unwrap_err(), StoreError::CorruptRecord));
    let settings = get_settings(&store);
    assert_eq!(settings.unwrap_err(), ReviewError::CorruptRecord);
}
