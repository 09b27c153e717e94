use via_voice::turn::{TurnCorrelation, TurnRef};

fn turn(id: &str, generation: i64) -> TurnRef {
    TurnRef::new(id, generation)
}

#[test]
fn the_first_binding_wins_and_a_second_remember_does_not_move_it() {
    let mut correlation = TurnCorrelation::default();
    let first = correlation.remember("item_1", turn("voice-1", 1));
    let second = correlation.remember("item_1", turn("voice-2", 2));
    assert_eq!(first, turn("voice-1", 1));
    assert_eq!(second, turn("voice-1", 1));
    assert_eq!(correlation.len(), 1);
}

#[test]
fn an_empty_item_id_binds_nothing_and_echoes_the_context() {
    let mut correlation = TurnCorrelation::default();
    assert_eq!(correlation.remember("", turn("voice-1", 1)), turn("voice-1", 1));
    assert!(correlation.is_empty());
}

#[test]
fn a_completed_item_stays_bound_so_a_reopened_item_finds_the_same_turn() {
    let mut correlation = TurnCorrelation::default();
    correlation.remember("item_1", turn("voice-1", 1));
    let completed = correlation.complete("item_1", turn("fallback", 9));
    assert_eq!(completed.context, turn("voice-1", 1));
    assert!(!completed.invalid);
    // The provider reopens the item; the same turn is still found.
    assert_eq!(correlation.resolve("item_1", turn("fallback", 9)), turn("voice-1", 1));
}

#[test]
fn eviction_is_oldest_inserted_first_and_takes_the_invalidation_with_it() {
    let mut correlation = TurnCorrelation::new(2);
    correlation.remember("a", turn("voice-a", 1));
    correlation.remember("b", turn("voice-b", 2));
    correlation.invalidate("a");
    assert!(correlation.is_invalid("a"));
    correlation.remember("c", turn("voice-c", 3));
    assert_eq!(correlation.len(), 2);
    // `a` was evicted, so its stale invalidation went with it.
    assert!(!correlation.is_invalid("a"));
    assert_eq!(correlation.resolve("a", turn("fallback", 9)), turn("fallback", 9));
    assert_eq!(correlation.resolve("b", turn("fallback", 9)), turn("voice-b", 2));
    assert_eq!(correlation.resolve("c", turn("fallback", 9)), turn("voice-c", 3));
}

#[test]
fn an_invalidated_item_completes_as_invalid_with_its_context_intact() {
    let mut correlation = TurnCorrelation::default();
    correlation.remember("item_1", turn("voice-1", 1));
    correlation.invalidate("item_1");
    let completed = correlation.complete("item_1", turn("fallback", 9));
    assert_eq!(completed.context, turn("voice-1", 1));
    assert!(completed.invalid);
}

#[test]
fn invalidating_an_unknown_item_still_records_it() {
    let mut correlation = TurnCorrelation::default();
    correlation.invalidate("ghost");
    assert!(correlation.is_invalid("ghost"));
    correlation.invalidate("");
    assert!(!correlation.is_invalid(""));
}

#[test]
fn clear_drops_both_maps() {
    let mut correlation = TurnCorrelation::default();
    correlation.remember("item_1", turn("voice-1", 1));
    correlation.invalidate("item_1");
    correlation.clear();
    assert!(correlation.is_empty());
    assert!(!correlation.is_invalid("item_1"));
}
