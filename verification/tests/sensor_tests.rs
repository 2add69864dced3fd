use lightborne::color::LightColor;
use lightborne::crystal::{CrystalColor, CrystalIdent};
use lightborne::segments::HitByLight;
use lightborne::sensor::{
    apply_hit_events, update_light_sensor, update_light_sensors, LightSensor,
};

fn pink_ident() -> CrystalIdent {
    CrystalIdent { color: CrystalColor::Pink, id: 0 }
}

#[test]
fn sensor_rate_from_activation_time() {
    // A 1000 ms activation time gives a per-tick rate of
    // 1.0 / 1000 * (1000 / 64) = 1/64 of the meter: the numerator moves by
    // 1000 against a denominator of 64 * 1000.
    let mut sensor = LightSensor::new(42, pink_ident(), 1000);
    sensor.set_hit_by(LightColor::White, true);
    let ev = update_light_sensor(&mut sensor);
    assert!(ev.is_none());
    assert_eq!(sensor.meter_num, 1000);
    // 64 * 1000 is full charge.
    assert_eq!(64 * (sensor.millis as u64), 64000);
}

#[test]
fn sensor_fires_once_after_one_second_of_exposure() {
    let mut sensor = LightSensor::new(42, pink_ident(), 1000);
    sensor.set_hit_by(LightColor::White, true);
    let mut events = 0;
    for tick in 1..=64 {
        let ev = update_light_sensor(&mut sensor);
        if ev.is_some() {
            events += 1;
            // The meter crosses full charge exactly at the 64th tick.
            assert_eq!(tick, 64);
            assert_eq!(ev.unwrap().ident, pink_ident());
        }
    }
    assert_eq!(events, 1);
    assert!(sensor.is_active);
    assert_eq!(sensor.meter_num, 64000);
    assert_eq!(sensor.cumulative_exposure, 64);
}

#[test]
fn saturated_sensor_never_fires_again() {
    let mut sensor = LightSensor::new(42, pink_ident(), 1000);
    sensor.set_hit_by(LightColor::White, true);
    for _ in 0..64 {
        update_light_sensor(&mut sensor);
    }
    assert!(sensor.is_active);
    // Held at full charge for many more ticks: not one further event.
    for _ in 0..200 {
        assert!(update_light_sensor(&mut sensor).is_none());
        assert_eq!(sensor.meter_num, 64000);
    }
}

#[test]
fn full_charge_discharge_cycles_fire_exactly_twice_each() {
    let mut sensor = LightSensor::new(42, pink_ident(), 1000);
    let mut events = 0;
    for _cycle in 0..2 {
        sensor.set_hit_by(LightColor::Blue, true);
        for _ in 0..64 {
            if update_light_sensor(&mut sensor).is_some() {
                events += 1;
            }
        }
        sensor.set_hit_by(LightColor::Blue, false);
        for _ in 0..64 {
            if update_light_sensor(&mut sensor).is_some() {
                events += 1;
            }
        }
    }
    // Two saturations and two drains: four latch flips, four events.
    assert_eq!(events, 4);
    assert!(!sensor.is_active);
    assert_eq!(sensor.meter_num, 0);
}

#[test]
fn resting_dark_sensor_stays_silent() {
    let mut sensor = LightSensor::new(42, pink_ident(), 1000);
    for _ in 0..100 {
        assert!(update_light_sensor(&mut sensor).is_none());
        assert_eq!(sensor.meter_num, 0);
        assert!(!sensor.is_active);
    }
}

#[test]
fn short_activation_time_fires_immediately() {
    // With a 15 ms activation time a single lit tick overshoots full charge.
    let mut sensor = LightSensor::new(42, pink_ident(), 15);
    sensor.set_hit_by(LightColor::Green, true);
    let ev = update_light_sensor(&mut sensor);
    assert!(ev.is_some());
    assert_eq!(sensor.meter_num, 64 * 15);
}

#[test]
fn hit_events_route_by_entity() {
    let mut sensors = vec![
        LightSensor::new(1, pink_ident(), 1000),
        LightSensor::new(2, pink_ident(), 1000),
    ];
    let events = vec![
        HitByLight { entity: 2, color: LightColor::Green, hit: true },
        HitByLight { entity: 3, color: LightColor::Blue, hit: true },
    ];
    apply_hit_events(&mut sensors, &events);
    assert!(!sensors[0].hit_by.green);
    assert!(sensors[1].hit_by.green);
    assert!(!sensors[1].hit_by.blue);
}

#[test]
fn unhit_event_clears_the_color() {
    let mut sensors = vec![LightSensor::new(1, pink_ident(), 1000)];
    apply_hit_events(
        &mut sensors,
        &vec![HitByLight { entity: 1, color: LightColor::White, hit: true }],
    );
    assert!(sensors[0].hit_by.white);
    apply_hit_events(
        &mut sensors,
        &vec![HitByLight { entity: 1, color: LightColor::White, hit: false }],
    );
    assert!(!sensors[0].hit_by.white);
}

#[test]
fn update_all_collects_events_in_order() {
    let red = CrystalIdent { color: CrystalColor::Red, id: 0 };
    let mut sensors = vec![
        LightSensor::new(1, pink_ident(), 15),
        LightSensor::new(2, red, 15),
    ];
    sensors[0].set_hit_by(LightColor::White, true);
    sensors[1].set_hit_by(LightColor::White, true);
    let events = update_light_sensors(&mut sensors);
    assert_eq!(events.len(), 2);
    assert_eq!(events[0].ident, pink_ident());
    assert_eq!(events[1].ident, red);
}

#[test]
fn reset_restores_fresh_state_but_keeps_config() {
    let mut sensor = LightSensor::new(7, pink_ident(), 500);
    sensor.set_hit_by(LightColor::Purple, true);
    for _ in 0..40 {
        update_light_sensor(&mut sensor);
    }
    sensor.reset();
    assert_eq!(sensor.meter_num, 0);
    assert!(!sensor.is_active);
    assert!(!sensor.hit_by.purple);
    assert_eq!(sensor.cumulative_exposure, 0);
    assert_eq!(sensor.millis, 500);
    assert_eq!(sensor.entity, 7);
}
