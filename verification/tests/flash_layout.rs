use aspeed_rot::flash::{
    Layout, LayoutError, RecoveryLevel, RecoveryPair, RecoveryPlan, RecoveryPlanError, Region,
    Slot,
};

#[test]
fn region_bounds() {
    let r = Region::new(Slot::Active, 0x1000, 0x100);
    assert_eq!(r.checked_end(), Some(0x1100));
    assert_eq!(r.end(), 0x1100);
    assert!(r.contains(0x1000, 0x100));
    assert!(r.contains(0x10FF, 1));
    assert!(!r.contains(0x10FF, 2));
    assert!(!r.contains(0x0FFF, 1));
    assert!(!r.is_empty());
    assert!(Region::new(Slot::Key, 5, 0).is_empty());
}

#[test]
fn region_overflowing_end() {
    let r = Region::new(Slot::State, 0xFFFF_FF00, 0x200);
    assert_eq!(r.checked_end(), None);
    assert_eq!(r.end(), u32::MAX);
    assert!(!r.contains(0xFFFF_FF00, 0x200));
}

#[test]
fn layout_lookup() {
    let layout = Layout::new([
        Region::new(Slot::Active, 0, 0x1000),
        Region::new(Slot::Recovery, 0x1000, 0x1000),
        Region::new(Slot::Active, 0x2000, 0x1000),
    ]);
    assert_eq!(layout.regions().len(), 3);
    assert_eq!(layout.find(Slot::Active), Some(Region::new(Slot::Active, 0, 0x1000)));
    assert_eq!(layout.find(Slot::Staging), None);
    assert_eq!(
        layout.find_containing(0x1800, 0x10),
        Some(Region::new(Slot::Recovery, 0x1000, 0x1000))
    );
    assert_eq!(layout.find_containing(0xF00, 0x200), None);
}

#[test]
fn layout_validation_errors() {
    let ok = Layout::new([
        Region::new(Slot::Active, 0, 0x1000),
        Region::new(Slot::Recovery, 0x1000, 0x1000),
    ]);
    assert_eq!(ok.validate(), Ok(()));
    let empty = Layout::new([
        Region::new(Slot::Active, 0, 0x1000),
        Region::new(Slot::Recovery, 0x1000, 0),
    ]);
    assert_eq!(empty.validate(), Err(LayoutError::EmptyRegion));
    let overlap = Layout::new([
        Region::new(Slot::Active, 0, 0x1000),
        Region::new(Slot::Recovery, 0xFFF, 0x10),
    ]);
    assert_eq!(overlap.validate(), Err(LayoutError::OverlappingRegions));
    let overflow = Layout::new([
        Region::new(Slot::Active, 0, 0x1000),
        Region::new(Slot::Recovery, 0xFFFF_0000, 0x2_0000),
    ]);
    assert_eq!(overflow.validate(), Err(LayoutError::RegionOverflow));
    let none: Layout<0> = Layout::new([]);
    assert_eq!(none.validate(), Ok(()));
}

#[test]
fn layout_first_error_wins() {
    // The first region overlaps the second before the third is found empty.
    let layout = Layout::new([
        Region::new(Slot::Active, 0, 0x1000),
        Region::new(Slot::Recovery, 0x800, 0x1000),
        Region::new(Slot::Staging, 0x4000, 0),
    ]);
    assert_eq!(layout.validate(), Err(LayoutError::OverlappingRegions));
    // An empty region is reported before a later overlap.
    let layout = Layout::new([
        Region::new(Slot::Active, 0, 0),
        Region::new(Slot::Recovery, 0x800, 0x1000),
        Region::new(Slot::Staging, 0x800, 0x1000),
    ]);
    assert_eq!(layout.validate(), Err(LayoutError::EmptyRegion));
}

#[test]
fn recovery_pairs_and_plans() {
    let active = Region::new(Slot::Active, 0, 0x1000);
    let recovery = Region::new(Slot::Recovery, 0x1000, 0x1000);
    let small = Region::new(Slot::Recovery, 0x1000, 0x800);
    let pair = RecoveryPair::new(active, recovery);
    assert!(pair.is_compatible());
    assert!(!RecoveryPair::new(active, small).is_compatible());
    assert!(!RecoveryPair::new(Region::new(Slot::Active, 0, 0), recovery).is_compatible());
    let plan = RecoveryPlan::new([pair]);
    assert_eq!(plan.pairs()[0], pair);
    assert_eq!(plan.validate(), Ok(()));
    let mixed = RecoveryPlan::new([RecoveryPair::new(active, small), pair]);
    assert_eq!(mixed.validate(), Ok(()));
    let bad = RecoveryPlan::new([
        RecoveryPair::new(active, small),
        RecoveryPair::new(Region::new(Slot::Active, 0, 0), recovery),
    ]);
    assert_eq!(bad.validate(), Err(RecoveryPlanError::IncompatiblePair));
    let empty: RecoveryPlan<0> = RecoveryPlan::new([]);
    assert_eq!(empty.validate(), Err(RecoveryPlanError::EmptyPlan));
}

#[test]
fn recovery_level_escalation() {
    let zero = RecoveryLevel::zero();
    assert_eq!(zero.get(), 0);
    assert_eq!(RecoveryLevel::default(), zero);
    assert_eq!(RecoveryLevel::maximum().get(), 2);
    assert!(zero.can_escalate());
    let one = zero.escalate().unwrap();
    assert_eq!(one.get(), 1);
    let two = one.escalate().unwrap();
    assert_eq!(two, RecoveryLevel::maximum());
    assert!(!two.can_escalate());
    assert_eq!(two.escalate(), None);
    assert_eq!(RecoveryLevel::new(2), Some(two));
    assert_eq!(RecoveryLevel::new(3), None);
    assert!(zero < two);
}
