use backstaff::field::FieldCache;

fn name(name: &str) -> String {
    name.to_string()
}

#[test]
fn a_new_cache_holds_nothing() {
    let cache = FieldCache::new(100);
    assert_eq!(cache.max_bytes(), 100);
    assert_eq!(cache.number_of_fields(), 0);
    assert_eq!(cache.total_bytes(), 0);
    assert!(!cache.contains(&name("r")));
}

#[test]
fn fields_are_taken_in_while_they_fit() {
    let mut cache = FieldCache::new(100);
    assert!(cache.take_in(name("r"), 40).is_empty());
    assert!(cache.take_in(name("tg"), 40).is_empty());
    assert!(cache.take_in(name("p"), 20).is_empty());
    assert_eq!(cache.number_of_fields(), 3);
    assert_eq!(cache.total_bytes(), 100);
    assert!(cache.contains(&name("r")));
    assert!(cache.contains(&name("tg")));
    assert!(cache.contains(&name("p")));
}

#[test]
fn the_least_recently_used_fields_make_room() {
    let mut cache = FieldCache::new(100);
    cache.take_in(name("r"), 40);
    cache.take_in(name("tg"), 40);
    cache.take_in(name("p"), 20);
    assert_eq!(cache.take_in(name("bx"), 10), vec![name("r")]);
    assert_eq!(cache.total_bytes(), 70);
    assert_eq!(cache.take_in(name("by"), 70), vec![name("tg")]);
    assert_eq!(cache.total_bytes(), 100);
    assert!(cache.contains(&name("p")));
    assert!(cache.contains(&name("bx")));
    assert!(cache.contains(&name("by")));
    assert!(!cache.contains(&name("tg")));
    assert_eq!(cache.take_in(name("bz"), 71), vec![name("p"), name("bx"), name("by")]);
    assert_eq!(cache.total_bytes(), 71);
    assert_eq!(cache.take_in(name("u"), 30), vec![name("bz")]);
    assert_eq!(cache.take_in(name("bz"), 100), vec![name("u")]);
    assert_eq!(cache.number_of_fields(), 1);
    assert!(cache.contains(&name("bz")));
}

#[test]
fn a_field_that_was_used_is_given_up_last() {
    let mut cache = FieldCache::new(100);
    cache.take_in(name("r"), 40);
    cache.take_in(name("tg"), 40);
    cache.take_in(name("p"), 20);
    assert!(cache.touch(&name("r")));
    assert!(!cache.touch(&name("bx")));
    assert_eq!(cache.number_of_fields(), 3);
    assert_eq!(cache.take_in(name("bx"), 50), vec![name("tg"), name("p")]);
    assert!(cache.contains(&name("r")));
    assert_eq!(cache.take_in(name("by"), 20), vec![name("r")]);
    assert!(cache.contains(&name("bx")));
    assert!(cache.contains(&name("by")));
}

#[test]
fn a_field_beyond_the_budget_is_not_kept_and_leaves_nothing_behind() {
    let mut cache = FieldCache::new(100);
    cache.take_in(name("r"), 40);
    cache.take_in(name("tg"), 40);
    assert_eq!(cache.take_in(name("huge"), 101), vec![name("r"), name("tg")]);
    assert_eq!(cache.number_of_fields(), 0);
    assert!(!cache.contains(&name("huge")));
    assert!(cache.take_in(name("none"), 0).is_empty());
    assert!(cache.contains(&name("none")));
    let mut nothing = FieldCache::new(0);
    assert!(nothing.take_in(name("r"), 1).is_empty());
    assert!(!nothing.contains(&name("r")));
    assert!(nothing.take_in(name("empty"), 0).is_empty());
    assert!(nothing.contains(&name("empty")));
}

#[test]
fn fields_are_dropped_by_name_or_all_at_once() {
    let mut cache = FieldCache::new(100);
    cache.take_in(name("r"), 40);
    cache.take_in(name("tg"), 40);
    cache.take_in(name("p"), 20);
    assert!(cache.drop_field(&name("tg")));
    assert!(!cache.drop_field(&name("tg")));
    assert_eq!(cache.total_bytes(), 60);
    assert_eq!(cache.number_of_fields(), 2);
    assert_eq!(cache.take_in(name("bx"), 50), vec![name("r")]);
    cache.drop_all_fields();
    assert_eq!(cache.number_of_fields(), 0);
    assert_eq!(cache.total_bytes(), 0);
    assert_eq!(cache.max_bytes(), 100);
    assert!(cache.take_in(name("r"), 100).is_empty());
}
