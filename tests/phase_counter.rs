use rcu::phase::{enter_value, exit_value, flip_phase, is_busy, try_enter, RCU_GP_CTR_PHASE, RCU_NEST_MASK};

#[test]
fn outermost_entry_records_global_phase() {
    assert_eq!(enter_value(0, RCU_GP_CTR_PHASE), RCU_GP_CTR_PHASE | 1);
    assert_eq!(enter_value(0, 0), 1);
    // a stale phase in an idle counter is replaced by the global one
    assert_eq!(enter_value(RCU_GP_CTR_PHASE, 0), 1);
}

#[test]
fn nested_entry_keeps_recorded_phase() {
    assert_eq!(enter_value(RCU_GP_CTR_PHASE | 1, 0), RCU_GP_CTR_PHASE | 2);
    assert_eq!(enter_value(3, RCU_GP_CTR_PHASE), 4);
}

#[test]
fn exit_lowers_depth_only() {
    assert_eq!(exit_value(RCU_GP_CTR_PHASE | 2), RCU_GP_CTR_PHASE | 1);
    assert_eq!(exit_value(1), 0);
}

#[test]
fn flip_toggles_phase_bit() {
    assert_eq!(flip_phase(0), RCU_GP_CTR_PHASE);
    assert_eq!(flip_phase(RCU_GP_CTR_PHASE), 0);
}

#[test]
fn busy_only_when_inside_in_other_phase() {
    assert!(is_busy(1, RCU_GP_CTR_PHASE));
    assert!(!is_busy(RCU_GP_CTR_PHASE | 1, RCU_GP_CTR_PHASE));
    assert!(!is_busy(0, RCU_GP_CTR_PHASE));
    assert!(!is_busy(RCU_GP_CTR_PHASE, 0));
}

#[test]
fn try_enter_refuses_saturated_depth() {
    assert_eq!(try_enter(RCU_NEST_MASK, 0), None);
    assert_eq!(try_enter(RCU_GP_CTR_PHASE | RCU_NEST_MASK, 0), None);
    assert_eq!(try_enter(RCU_NEST_MASK - 1, RCU_GP_CTR_PHASE), Some(RCU_NEST_MASK));
    assert_eq!(try_enter(0, RCU_GP_CTR_PHASE), Some(RCU_GP_CTR_PHASE | 1));
}
