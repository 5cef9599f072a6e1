use postcode::codec::{DecomposedAddress, VaRange};
use postcode::controller::{field_texts, selector_index, FieldId, SyncController};

#[test]
fn address_edit_decomposes_and_marks_everything_valid() {
    let mut c = SyncController::new();
    let out = c.on_address_edited("0xffff800012345000").unwrap();
    assert!(out.address_valid);
    let d = out.decomposed.unwrap();
    assert_eq!(d.va_range, VaRange::Top);
    assert_eq!(d.l3, 256);
    assert_eq!(d.l2, 0);
    assert_eq!(d.l1, 145);
    assert_eq!(d.l0, 325);
    assert_eq!(d.offset, 0);
    let t = field_texts(&d);
    assert_eq!(selector_index(t.va_range), 1);
    assert_eq!(t.l3, "256");
    assert_eq!(t.l2, "0");
    assert_eq!(t.l1, "145");
    assert_eq!(t.l0, "325");
    assert_eq!(t.offset, "0");
    assert!(c.validity.address);
    assert!(c.validity.l3 && c.validity.l2 && c.validity.l1 && c.validity.l0);
    assert!(c.validity.offset && c.validity.va_range);
}

#[test]
fn address_edit_rejects_malformed_text() {
    let mut c = SyncController::new();
    let out = c.on_address_edited("0xnope").unwrap();
    assert!(!out.address_valid);
    assert!(out.decomposed.is_none());
    assert!(!c.validity.address);
}

#[test]
fn address_edit_rejects_non_canonical_address() {
    let mut c = SyncController::new();
    let out = c.on_address_edited("123456789abcdef0").unwrap();
    assert!(!out.address_valid);
    assert!(out.decomposed.is_none());
    assert!(!c.validity.address);
}

#[test]
fn invalid_address_leaves_field_validity_untouched() {
    let mut c = SyncController::new();
    c.on_field_edited(FieldId::Offset, 0, "1", "2", "3", "4", "5000")
        .unwrap();
    assert!(!c.validity.offset);
    let out = c.on_address_edited("not hex").unwrap();
    assert!(!out.address_valid);
    assert!(!c.validity.offset);
    assert!(c.validity.l3);
}

#[test]
fn all_zero_fields_recompose_to_zero() {
    let mut c = SyncController::new();
    let out = c
        .on_field_edited(FieldId::L3, 0, "0", "0", "0", "0", "0")
        .unwrap();
    assert!(out.validity.va_range && out.validity.l3 && out.validity.l2);
    assert!(out.validity.l1 && out.validity.l0 && out.validity.offset);
    assert_eq!(out.address_text.unwrap(), "0");
}

#[test]
fn out_of_range_offset_marks_only_that_field_and_keeps_address() {
    let mut c = SyncController::new();
    let out = c
        .on_field_edited(FieldId::Offset, 0, "1", "2", "3", "4", "5000")
        .unwrap();
    assert!(!out.validity.offset);
    assert!(out.validity.va_range && out.validity.l3 && out.validity.l2);
    assert!(out.validity.l1 && out.validity.l0);
    assert!(out.address_text.is_none());
}

#[test]
fn each_field_is_validated_independently() {
    let mut c = SyncController::new();
    let out = c
        .on_field_edited(FieldId::L2, 1, "512", "511", "junk", "", "4095")
        .unwrap();
    assert!(!out.validity.l3);
    assert!(out.validity.l2);
    assert!(!out.validity.l1);
    assert!(!out.validity.l0);
    assert!(out.validity.offset);
    assert!(out.validity.va_range);
    assert!(out.address_text.is_none());
}

#[test]
fn selector_out_of_range_blocks_recomposition() {
    let mut c = SyncController::new();
    let out = c
        .on_field_edited(FieldId::VaRangeSelector, 2, "0", "0", "0", "0", "0")
        .unwrap();
    assert!(!out.validity.va_range);
    assert!(out.validity.l3 && out.validity.offset);
    assert!(out.address_text.is_none());
}

#[test]
fn field_edit_recomposes_top_range_address() {
    let mut c = SyncController::new();
    let out = c
        .on_field_edited(FieldId::L3, 1, "256", "0", "145", "325", "0")
        .unwrap();
    assert_eq!(out.address_text.unwrap(), "ffff800012345000");
}

#[test]
fn resubmitting_written_address_text_does_not_drift() {
    let mut c = SyncController::new();
    let text = c
        .on_field_edited(FieldId::L0, 1, "256", "0", "145", "325", "0")
        .unwrap()
        .address_text
        .unwrap();
    let first = c.on_address_edited(&text).unwrap();
    assert!(first.address_valid);
    let d = first.decomposed.unwrap();
    let t = field_texts(&d);
    assert_eq!(selector_index(t.va_range), 1);
    assert_eq!(t.l3, "256");
    assert_eq!(t.l2, "0");
    assert_eq!(t.l1, "145");
    assert_eq!(t.l0, "325");
    assert_eq!(t.offset, "0");
    let second = c.on_address_edited(&text).unwrap();
    assert!(second.address_valid);
    assert_eq!(second.decomposed.unwrap(), d);
}

#[test]
fn resubmitting_written_field_texts_does_not_drift() {
    let mut c = SyncController::new();
    let out = c.on_address_edited("0xffff800012345000").unwrap();
    let d = out.decomposed.unwrap();
    let t = field_texts(&d);
    let out2 = c
        .on_field_edited(
            FieldId::L3,
            selector_index(t.va_range),
            &t.l3,
            &t.l2,
            &t.l1,
            &t.l0,
            &t.offset,
        )
        .unwrap();
    assert_eq!(out2.address_text.unwrap(), "ffff800012345000");
}

#[test]
fn edits_during_propagation_are_ignored() {
    let mut c = SyncController::new();
    c.begin_propagation();
    assert!(c.is_propagating());
    assert!(c.on_address_edited("0").is_none());
    assert!(c
        .on_field_edited(FieldId::L3, 0, "0", "0", "0", "0", "0")
        .is_none());
    assert!(c.validity.address);
    c.end_propagation();
    assert!(!c.is_propagating());
    assert!(c.on_address_edited("0").is_some());
}

#[test]
fn new_controller_starts_idle_and_valid() {
    let c = SyncController::new();
    assert!(!c.propagating);
    assert!(c.validity.address && c.validity.va_range);
    assert!(c.validity.l3 && c.validity.l2 && c.validity.l1 && c.validity.l0 && c.validity.offset);
}

#[test]
fn decomposed_record_well_formed_bounds_hold_in_texts() {
    let d = DecomposedAddress {
        va_range: VaRange::Bottom,
        l3: 511,
        l2: 1,
        l1: 0,
        l0: 42,
        offset: 4095,
    };
    let t = field_texts(&d);
    assert_eq!(selector_index(t.va_range), 0);
    assert_eq!(t.l3, "511");
    assert_eq!(t.l2, "1");
    assert_eq!(t.l1, "0");
    assert_eq!(t.l0, "42");
    assert_eq!(t.offset, "4095");
}
