use aip_desktop::database::DatabaseError;
use aip_desktop::simulation::{
    advance_simulated_vitals, check_agent_mode, wake_now, SimulatedVitals,
};

fn vitals(sleep: u8, energy: u8, social_fatigue: u8) -> SimulatedVitals {
    SimulatedVitals { sleep, energy, social_fatigue }
}

#[test]
fn simulated_state_advances_without_changing_suspended_agents() {
    let before = vitals(30, 80, 20);
    let advanced = advance_simulated_vitals(before, false, None, 1_000, 1_000 + 10 * 60_000)
        .expect("ten minutes advance the state");
    assert!(advanced.vitals.sleep <= before.sleep);
    assert!(advanced.vitals.energy < before.energy || advanced.vitals.sleep > 0);
    assert_eq!(advanced.vitals, vitals(20, 85, 18));
    assert_eq!(advanced.last_simulated_at, 1_000 + 10 * 60_000);
    assert_eq!(advance_simulated_vitals(before, true, None, 1_000, 1_000 + 10 * 60_000), None);
}

#[test]
fn awake_agents_tire_and_wake_ups_expire() {
    let awake = advance_simulated_vitals(vitals(0, 50, 3), false, None, 0, 16 * 60_000).unwrap();
    assert_eq!(awake.vitals, vitals(0, 48, 0));
    let long = advance_simulated_vitals(vitals(200, 99, 100), false, None, 0, 1_000 * 60_000).unwrap();
    assert_eq!(long.vitals, vitals(0, 69, 40));
    let woken = advance_simulated_vitals(vitals(50, 60, 10), false, Some(10 * 60_000), 0, 5 * 60_000).unwrap();
    assert_eq!(woken.vitals.sleep, 0);
    assert_eq!(woken.wake_now_until, Some(10 * 60_000));
    let expired = advance_simulated_vitals(vitals(50, 60, 10), false, Some(4 * 60_000), 0, 5 * 60_000).unwrap();
    assert_eq!(expired.vitals.sleep, 45);
    assert_eq!(expired.wake_now_until, None);
    assert_eq!(advance_simulated_vitals(vitals(1, 1, 1), false, None, 0, 59_999), None);
    assert_eq!(advance_simulated_vitals(vitals(1, 1, 1), false, None, 10, 10), None);
    let rested = advance_simulated_vitals(vitals(250, 99, 0), false, None, 0, 10 * 60_000).unwrap();
    assert_eq!(rested.vitals.energy, 100);
}

#[test]
fn simulated_state_is_agent_scoped_and_validated() {
    assert_eq!(check_agent_mode("silent"), Ok(()));
    assert_eq!(check_agent_mode("normal"), Ok(()));
    assert_eq!(check_agent_mode("voice_muted"), Ok(()));
    assert_eq!(check_agent_mode("invalid"), Err(DatabaseError::InvalidValue));
    assert_eq!(wake_now(vitals(40, 90, 5), 100, 50), Ok(vitals(0, 100, 5)));
    assert_eq!(wake_now(vitals(40, 30, 5), 100, 50), Ok(vitals(0, 50, 5)));
    assert_eq!(wake_now(vitals(40, 30, 5), 50, 50), Err(DatabaseError::InvalidValue));
}
