//! The deterministic fictional state of an agent: how sleep, energy and social fatigue move
//! with time, what waking an agent does, and which modes an agent may be in.
use vstd::prelude::*;

use crate::database::DatabaseError;
use crate::text::text_equal;

verus! {

/// The part of an agent's fictional state that time moves.
#[derive(Debug, Clone, Copy, PartialEq, Eq, Structural)]
pub struct SimulatedVitals {
    pub sleep: u8,
    pub energy: u8,
    pub social_fatigue: u8,
}

/// A state advanced in time: its vitals, what is left of a wake-up, and when it was computed.
#[derive(Debug, Clone, Copy, PartialEq, Eq, Structural)]
pub struct SimulationAdvance {
    pub vitals: SimulatedVitals,
    pub wake_now_until: Option<i64>,
    pub last_simulated_at: i64,
}

pub open spec fn sat_sub(a: int, b: int) -> int {
    if a >= b {
        a - b
    } else {
        0
    }
}

pub open spec fn min_int(a: int, b: int) -> int {
    if a <= b {
        a
    } else {
        b
    }
}

pub open spec fn max_int(a: int, b: int) -> int {
    if a >= b {
        a
    } else {
        b
    }
}

/// Whole minutes since the last step, at most 240.
pub open spec fn elapsed_minutes(last_simulated_at: i64, now: i64) -> int {
    min_int((now - last_simulated_at) / 60_000, 240)
}

/// One step of the simulation at `now`: nothing moves for a suspended agent, before a whole
/// minute has passed, or when `now` is not after the last step. Otherwise, with `m` the
/// minutes elapsed (at most 240): sleep drops by `m`, or to zero while a wake-up lasts; a
/// sleeping agent regains `m / 2` energy up to 100, an awake one loses `max(m / 8, 1)`;
/// social fatigue drops by `max(m / 4, 1)`; a wake-up that has ended is forgotten.
pub open spec fn simulation_step(
    vitals: SimulatedVitals,
    suspended: bool,
    wake_now_until: Option<i64>,
    last_simulated_at: i64,
    now: i64,
) -> Option<SimulationAdvance> {
    let m = elapsed_minutes(last_simulated_at, now);
    if suspended || now <= last_simulated_at || m == 0 {
        None
    } else {
        let protected_by_wake = wake_now_until matches Some(until) && now < until;
        let sleep = if protected_by_wake {
            0
        } else {
            sat_sub(vitals.sleep as int, m)
        };
        let energy = if sleep > 0 {
            min_int(min_int(vitals.energy + m / 2, 255), 100)
        } else {
            sat_sub(vitals.energy as int, max_int(m / 8, 1))
        };
        let social_fatigue = sat_sub(vitals.social_fatigue as int, max_int(m / 4, 1));
        Some(
            SimulationAdvance {
                vitals: SimulatedVitals {
                    sleep: sleep as u8,
                    energy: energy as u8,
                    social_fatigue: social_fatigue as u8,
                },
                wake_now_until: match wake_now_until {
                    Some(until) => if until <= now {
                        None
                    } else {
                        Some(until)
                    },
                    None => None,
                },
                last_simulated_at: now,
            },
        )
    }
}

/// Advances an agent's fictional state to `now` (see `simulation_step`).
pub fn advance_simulated_vitals(
    vitals: SimulatedVitals,
    suspended: bool,
    wake_now_until: Option<i64>,
    last_simulated_at: i64,
    now: i64,
) -> (r: Option<SimulationAdvance>)
    requires
        now - last_simulated_at <= i64::MAX,
    ensures
        r == simulation_step(vitals, suspended, wake_now_until, last_simulated_at, now),
{
    if suspended || now <= last_simulated_at {
        return None;
    }
    let whole = (now - last_simulated_at) / 60_000;
    let elapsed: u8 = if whole > 240 {
        240
    } else {
        whole as u8
    };
    if elapsed == 0 {
        return None;
    }
    let protected_by_wake = match wake_now_until {
        Some(until) => now < until,
        None => false,
    };
    let sleep = if protected_by_wake {
        0
    } else {
        vitals.sleep.saturating_sub(elapsed)
    };
    let energy = if sleep > 0 {
        let rested = vitals.energy.saturating_add(elapsed / 2);
        if rested > 100 {
            100
        } else {
            rested
        }
    } else {
        let cost = if elapsed / 8 > 1 {
            elapsed / 8
        } else {
            1
        };
        vitals.energy.saturating_sub(cost)
    };
    let relief = if elapsed / 4 > 1 {
        elapsed / 4
    } else {
        1
    };
    let social_fatigue = vitals.social_fatigue.saturating_sub(relief);
    let wake = match wake_now_until {
        Some(until) => if until <= now {
            None
        } else {
            Some(until)
        },
        None => None,
    };
    Some(
        SimulationAdvance {
            vitals: SimulatedVitals { sleep, energy, social_fatigue },
            wake_now_until: wake,
            last_simulated_at: now,
        },
    )
}

/// Time never wakes a suspended agent, never makes an agent sleepier or more socially
/// tired, and never rests an agent past 100 energy; every step is at a later time.
pub proof fn law_simulation_only_settles(
    vitals: SimulatedVitals,
    suspended: bool,
    wake_now_until: Option<i64>,
    last_simulated_at: i64,
    now: i64,
)
    ensures
        suspended ==> simulation_step(vitals, suspended, wake_now_until, last_simulated_at, now)
            is None,
        simulation_step(vitals, suspended, wake_now_until, last_simulated_at, now) matches Some(
            a,
        ) ==> {
            &&& a.vitals.sleep <= vitals.sleep
            &&& a.vitals.social_fatigue <= vitals.social_fatigue
            &&& (a.vitals.sleep > 0 ==> a.vitals.energy <= 100)
            &&& (a.vitals.sleep == 0 ==> a.vitals.energy <= vitals.energy)
            &&& a.last_simulated_at > last_simulated_at
        },
{
}

/// The modes an agent may be set to.
pub open spec fn agent_mode_valid(mode: Seq<char>) -> bool {
    mode == "normal"@ || mode == "voice_muted"@ || mode == "silent"@
}

pub fn check_agent_mode(mode: &str) -> (r: Result<(), DatabaseError>)
    ensures
        r is Ok <==> agent_mode_valid(mode@),
        r is Err ==> r == Err::<(), DatabaseError>(DatabaseError::InvalidValue),
{
    if text_equal(mode, "normal") || text_equal(mode, "voice_muted") || text_equal(mode, "silent") {
        Ok(())
    } else {
        Err(DatabaseError::InvalidValue)
    }
}

/// Waking an agent until a later time: it stops sleeping and gains 20 energy, up to 100.
pub fn wake_now(vitals: SimulatedVitals, until: i64, now: i64) -> (r: Result<
    SimulatedVitals,
    DatabaseError,
>)
    ensures
        until <= now ==> r == Err::<SimulatedVitals, DatabaseError>(DatabaseError::InvalidValue),
        until > now ==> r == Ok::<SimulatedVitals, DatabaseError>(
            SimulatedVitals {
                sleep: 0,
                energy: min_int(vitals.energy + 20, 100) as u8,
                social_fatigue: vitals.social_fatigue,
            },
        ),
{
    if until <= now {
        return Err(DatabaseError::InvalidValue);
    }
    let energy: u8 = if vitals.energy >= 80 {
        100
    } else {
        vitals.energy + 20
    };
    Ok(SimulatedVitals { sleep: 0, energy, social_fatigue: vitals.social_fatigue })
}

} // verus!
