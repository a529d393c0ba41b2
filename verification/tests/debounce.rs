use cosmic_hue::color::HsvColor;
use cosmic_hue::debounce::{
    AttributeClass, Debouncer, EditKey, EditValue, ResourceKind, ScheduledCommit, SETTLE_DELAY_MS,
};

fn key(kind: ResourceKind, attribute: AttributeClass, id: &str) -> EditKey {
    EditKey { kind, attribute, id: id.to_string() }
}

fn light_brightness(id: &str) -> EditKey {
    key(ResourceKind::Light, AttributeClass::Brightness, id)
}

#[test]
fn settle_delay_is_three_hundred_milliseconds() {
    assert_eq!(SETTLE_DELAY_MS, 300);
}

#[test]
fn new_debouncer_has_nothing_pending() {
    let d = Debouncer::new();
    assert_eq!(d.counter, 0);
    assert_eq!(d.pending_count(), 0);
    assert!(!d.is_pending(&light_brightness("1")));
}

#[test]
fn value_knows_its_attribute() {
    assert_eq!(EditValue::Brightness(3).attribute(), AttributeClass::Brightness);
    let c = HsvColor { hue: 1, saturation: 2, value: 3 };
    assert_eq!(EditValue::Color(c).attribute(), AttributeClass::Color);
}

#[test]
fn submit_hands_back_the_commit_to_schedule() {
    let mut d = Debouncer::new();
    let commit = d.submit(ResourceKind::Light, "1".to_string(), EditValue::Brightness(10));
    assert_eq!(
        commit,
        ScheduledCommit { key: light_brightness("1"), counter: 1, delay_ms: 300 }
    );
    assert_eq!(d.counter, 1);
    assert_eq!(d.pending_count(), 1);
    assert!(d.is_pending(&light_brightness("1")));
}

#[test]
fn counter_grows_by_one_per_edit_across_all_keys() {
    let mut d = Debouncer::new();
    let c = HsvColor { hue: 1, saturation: 2, value: 3 };
    let a = d.submit(ResourceKind::Light, "1".to_string(), EditValue::Brightness(10));
    let b = d.submit(ResourceKind::Group, "1".to_string(), EditValue::Brightness(20));
    let e = d.submit(ResourceKind::Light, "1".to_string(), EditValue::Color(c));
    let f = d.submit(ResourceKind::Light, "2".to_string(), EditValue::Brightness(30));
    assert_eq!((a.counter, b.counter, e.counter, f.counter), (1, 2, 3, 4));
    assert_eq!(d.counter, 4);
    assert_eq!(d.pending_count(), 4);
}

#[test]
fn later_edit_replaces_the_pending_one() {
    let mut d = Debouncer::new();
    d.submit(ResourceKind::Light, "1".to_string(), EditValue::Brightness(10));
    d.submit(ResourceKind::Light, "1".to_string(), EditValue::Brightness(20));
    assert_eq!(d.pending_count(), 1);
    assert_eq!(d.pending[0].value, EditValue::Brightness(20));
    assert_eq!(d.pending[0].counter, 2);
}

#[test]
fn burst_sends_the_last_value_once() {
    let mut d = Debouncer::new();
    let levels: Vec<u8> = vec![10, 20, 30, 40, 50];
    let mut commits = Vec::new();
    for level in &levels {
        commits.push(d.submit(ResourceKind::Light, "1".to_string(), EditValue::Brightness(*level)));
    }
    let mut sent = Vec::new();
    for commit in &commits {
        if let Some(value) = d.fire(&commit.key, commit.counter) {
            sent.push(value);
        }
    }
    assert_eq!(sent, vec![EditValue::Brightness(50)]);
    assert_eq!(d.pending_count(), 0);
    assert_eq!(d.counter, 5);
}

#[test]
fn burst_sends_once_whatever_the_order_of_the_commits() {
    let mut d = Debouncer::new();
    for level in [1u8, 2, 3] {
        d.submit(ResourceKind::Group, "g".to_string(), EditValue::Brightness(level));
    }
    let k = key(ResourceKind::Group, AttributeClass::Brightness, "g");
    assert_eq!(d.fire(&k, 3), Some(EditValue::Brightness(3)));
    assert_eq!(d.fire(&k, 1), None);
    assert_eq!(d.fire(&k, 2), None);
    assert_eq!(d.fire(&k, 3), None);
}

#[test]
fn stale_commit_changes_nothing() {
    let mut d = Debouncer::new();
    d.submit(ResourceKind::Light, "1".to_string(), EditValue::Brightness(10));
    d.submit(ResourceKind::Light, "1".to_string(), EditValue::Brightness(20));
    assert_eq!(d.fire(&light_brightness("1"), 1), None);
    assert_eq!(d.pending_count(), 1);
    assert_eq!(d.pending[0].value, EditValue::Brightness(20));
    assert_eq!(d.pending[0].counter, 2);
    assert_eq!(d.counter, 2);
}

#[test]
fn commit_for_a_key_without_pending_edit_changes_nothing() {
    let mut d = Debouncer::new();
    d.submit(ResourceKind::Light, "1".to_string(), EditValue::Brightness(10));
    assert_eq!(d.fire(&light_brightness("2"), 1), None);
    assert_eq!(d.fire(&key(ResourceKind::Group, AttributeClass::Brightness, "1"), 1), None);
    assert_eq!(d.fire(&key(ResourceKind::Light, AttributeClass::Color, "1"), 1), None);
    assert_eq!(d.pending_count(), 1);
    assert_eq!(d.fire(&light_brightness("1"), 1), Some(EditValue::Brightness(10)));
    assert_eq!(d.pending_count(), 0);
}

#[test]
fn keys_are_debounced_apart() {
    let mut d = Debouncer::new();
    let c = HsvColor { hue: 100, saturation: 50, value: 25 };
    d.submit(ResourceKind::Light, "1".to_string(), EditValue::Brightness(10));
    d.submit(ResourceKind::Light, "1".to_string(), EditValue::Color(c));
    d.submit(ResourceKind::Light, "2".to_string(), EditValue::Brightness(30));
    d.submit(ResourceKind::Light, "1".to_string(), EditValue::Brightness(11));
    assert_eq!(d.fire(&light_brightness("1"), 1), None);
    assert_eq!(
        d.fire(&key(ResourceKind::Light, AttributeClass::Color, "1"), 2),
        Some(EditValue::Color(c))
    );
    assert_eq!(d.fire(&light_brightness("2"), 3), Some(EditValue::Brightness(30)));
    assert_eq!(d.fire(&light_brightness("1"), 4), Some(EditValue::Brightness(11)));
    assert_eq!(d.pending_count(), 0);
}

#[test]
fn edit_after_a_commit_is_pending_again() {
    let mut d = Debouncer::new();
    d.submit(ResourceKind::Light, "1".to_string(), EditValue::Brightness(10));
    assert_eq!(d.fire(&light_brightness("1"), 1), Some(EditValue::Brightness(10)));
    let commit = d.submit(ResourceKind::Light, "1".to_string(), EditValue::Brightness(12));
    assert_eq!(commit.counter, 2);
    assert_eq!(d.fire(&light_brightness("1"), 1), None);
    assert_eq!(d.fire(&light_brightness("1"), 2), Some(EditValue::Brightness(12)));
}

#[test]
fn keys_compare_by_kind_attribute_and_id() {
    let a = light_brightness("1");
    assert!(a.same_as(&light_brightness("1")));
    assert!(!a.same_as(&light_brightness("2")));
    assert!(!a.same_as(&key(ResourceKind::Group, AttributeClass::Brightness, "1")));
    assert!(!a.same_as(&key(ResourceKind::Light, AttributeClass::Color, "1")));
    assert_eq!(a.copy(), a);
}
