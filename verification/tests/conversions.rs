use bindprep::access::{partition_targets, UserOrGroupId};
use bindprep::bytes::{signed_to_unsigned, unsigned_to_signed};
use bindprep::config::Nullability;
use bindprep::handles::{ForeignHandle, JForeignObjectsArrayForSlice};
use bindprep::nullable::{unwrap_optional_boolean, wrap_optional_boolean, NullableBoolean};
use bindprep::timestamp::{
    optional_to_millis, optional_utc_to_millis, OffsetTimestamp, UtcTimestamp,
};
use bindprep::typemap::{default_rules, resolve, Direction, ResolveError, TypemapRule};

#[test]
fn timestamp_epoch_plus_1500_millis() {
    let t = OffsetTimestamp::new(1, 500, 0).unwrap();
    assert_eq!(t.to_millis(), 1500);
    let u = UtcTimestamp::new(1, 500).unwrap();
    assert_eq!(u.to_millis(), 1500);
}

#[test]
fn timestamp_before_epoch() {
    let t = OffsetTimestamp::new(-1, 250, 0).unwrap();
    assert_eq!(t.to_millis(), -750);
}

#[test]
fn timestamp_offset_does_not_change_millis() {
    let a = OffsetTimestamp::new(10, 0, 0).unwrap();
    let b = OffsetTimestamp::new(10, 0, -300).unwrap();
    assert_eq!(a.to_millis(), b.to_millis());
}

#[test]
fn timestamp_kinds_agree_on_the_same_instant() {
    let naive = UtcTimestamp::new(5, 250).unwrap();
    let aware = OffsetTimestamp::new(5, 250, 60).unwrap();
    assert_eq!(naive.to_millis(), aware.to_millis());
}

#[test]
fn timestamp_rejects_bad_subsecond() {
    assert!(UtcTimestamp::new(0, 1000).is_none());
    assert!(OffsetTimestamp::new(0, 1000, 0).is_none());
    assert!(OffsetTimestamp::new(0, 0, 100_000).is_none());
}

#[test]
fn optional_timestamp_preserves_absence() {
    assert_eq!(optional_to_millis(&None), None);
    let t = OffsetTimestamp::new(1, 500, 0).unwrap();
    assert_eq!(optional_to_millis(&Some(t)), Some(1500));
    assert_eq!(optional_utc_to_millis(&None), None);
    let u = UtcTimestamp::new(2, 250).unwrap();
    assert_eq!(optional_utc_to_millis(&Some(u)), Some(2250));
}

#[test]
fn optional_boolean_carrier_preserves_presence_and_value() {
    assert_eq!(wrap_optional_boolean(&None), None);
    assert_eq!(wrap_optional_boolean(&Some(true)), Some(NullableBoolean(true)));
    assert_eq!(unwrap_optional_boolean(&None), None);
    assert_eq!(unwrap_optional_boolean(&Some(NullableBoolean(false))), Some(false));
    assert!(NullableBoolean(true).boolean());
    for o in [None, Some(false), Some(true)] {
        assert_eq!(unwrap_optional_boolean(&wrap_optional_boolean(&o)), o);
    }
}

#[test]
fn byte_reinterpretation_known_values() {
    let signed: Vec<i8> = vec![-1, 0, 127];
    let unsigned = signed_to_unsigned(&signed);
    assert_eq!(unsigned, vec![255u8, 0, 127]);
    let back = unsigned_to_signed(&unsigned);
    assert_eq!(back, signed);
}

#[test]
fn byte_reinterpretation_round_trips_any_length() {
    let empty: Vec<i8> = vec![];
    assert_eq!(signed_to_unsigned(&empty), Vec::<u8>::new());
    let signed: Vec<i8> = vec![i8::MIN, -2, -1, 0, 1, i8::MAX];
    assert_eq!(unsigned_to_signed(&signed_to_unsigned(&signed)), signed);
    let unsigned: Vec<u8> = vec![0, 1, 127, 128, 200, 255];
    assert_eq!(signed_to_unsigned(&unsigned_to_signed(&unsigned)), unsigned);
}

#[test]
fn foreign_handle_array_unwraps_in_order() {
    let mut arr: JForeignObjectsArrayForSlice<u64> = JForeignObjectsArrayForSlice::new();
    for v in [10u64, 20, 30] {
        arr.push(ForeignHandle::wrap(v));
    }
    assert_eq!(arr.len(), 3);
    assert_eq!(arr.native_values(), vec![10u64, 20, 30]);
    assert_eq!(arr.into_native_values(), vec![10u64, 20, 30]);
}

#[test]
fn foreign_handle_array_of_owned_values() {
    let mut arr: JForeignObjectsArrayForSlice<String> = JForeignObjectsArrayForSlice::new();
    arr.push(ForeignHandle::wrap("alpha".to_string()));
    arr.push(ForeignHandle::wrap("beta".to_string()));
    assert_eq!(arr.into_native_values(), vec!["alpha".to_string(), "beta".to_string()]);
}

#[test]
fn empty_foreign_handle_array() {
    let arr: JForeignObjectsArrayForSlice<u64> = JForeignObjectsArrayForSlice::new();
    assert_eq!(arr.into_native_values(), Vec::<u64>::new());
}

#[test]
fn grant_target_carrier_keeps_id_and_kind() {
    let user = UserOrGroupId::new("alice".to_string(), true);
    assert_eq!(user.id(), "alice");
    assert!(user.is_user());
    assert!(!user.is_group());
    let group = UserOrGroupId::new("ops".to_string(), false);
    assert!(!group.is_user());
    assert!(group.is_group());
}

#[test]
fn partition_splits_by_kind_in_order() {
    let entries = vec![
        UserOrGroupId::new("alice".to_string(), true),
        UserOrGroupId::new("ops".to_string(), false),
        UserOrGroupId::new("bob".to_string(), true),
        UserOrGroupId::new("dev".to_string(), false),
    ];
    let (users, groups) = partition_targets(&entries);
    assert_eq!(users, vec!["alice".to_string(), "bob".to_string()]);
    assert_eq!(groups, vec!["ops".to_string(), "dev".to_string()]);
}

#[test]
fn partition_of_nothing_is_two_empty_lists() {
    let (users, groups) = partition_targets(&Vec::new());
    assert!(users.is_empty());
    assert!(groups.is_empty());
}

#[test]
fn registry_resolves_each_registered_type_once() {
    let rules = default_rules();
    for (name, idx) in [
        ("OffsetTimestamp", 0usize),
        ("UtcTimestamp", 1),
        ("OptionOffsetTimestamp", 2),
        ("ByteBuffer", 3),
        ("ForeignHandleArray", 4),
    ] {
        assert_eq!(resolve(&rules, &name.to_string()), Ok(idx));
    }
}

#[test]
fn registry_reports_a_missing_rule() {
    let rules = default_rules();
    assert_eq!(resolve(&rules, &"Unmapped".to_string()), Err(ResolveError::Missing));
}

#[test]
fn registry_reports_an_ambiguous_rule() {
    let mut rules = default_rules();
    rules.push(TypemapRule {
        native_type: "ByteBuffer".to_string(),
        foreign_type_default: "byte []".to_string(),
        foreign_type_nullable: "byte []".to_string(),
        direction: Direction::Both,
    });
    assert_eq!(resolve(&rules, &"ByteBuffer".to_string()), Err(ResolveError::Ambiguous));
    // The other types still resolve.
    assert_eq!(resolve(&rules, &"UtcTimestamp".to_string()), Ok(1));
}

#[test]
fn rule_declares_dialect_type_names() {
    let rules = default_rules();
    let date_rule = &rules[0];
    assert_eq!(date_rule.foreign_type(Nullability::NoAnnotations).as_str(), "java.util.Date");
    assert_eq!(
        date_rule.foreign_type(Nullability::Annotations).as_str(),
        "@NonNull java.util.Date"
    );
    assert!(matches!(date_rule.direction, Direction::NativeToForeign));
}
