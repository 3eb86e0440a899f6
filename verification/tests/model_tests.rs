use oil_cop::model::{BeadStage, Health};

#[test]
fn label_covers_every_health_variant_with_a_distinct_string() {
    let labels = [
        Health::Healthy.label(),
        Health::Idle.label(),
        Health::Stale.label(),
        Health::Dead.label(),
        Health::Suspended.label(),
        Health::Done.label(),
        Health::Unknown.label(),
    ];
    let unique: std::collections::HashSet<_> = labels.iter().collect();
    assert_eq!(unique.len(), labels.len(), "every Health variant's label must be distinct");
    assert_eq!(Health::Healthy.label(), "healthy");
    assert_eq!(Health::Unknown.label(), "unknown");
}

#[test]
fn bead_stage_follows_the_status() {
    assert_eq!(BeadStage::from_status("in_progress"), BeadStage::Active);
    assert_eq!(BeadStage::from_status("closed"), BeadStage::Merged);
    assert_eq!(BeadStage::from_status("open"), BeadStage::Pending);
    assert_eq!(BeadStage::from_status("blocked"), BeadStage::Pending);
    assert_eq!(BeadStage::from_status("something-new"), BeadStage::Pending);
}
