//! Light sensors: the exposure-accumulating puzzle inputs. A sensor's meter
//! charges while any beam hits it and drains while none does; crossing full
//! charge while unlatched, or empty charge while latched, flips the latch and
//! fires exactly one crystal toggle event.

use vstd::prelude::*;

use crate::color::{ColorFlags, LightColor};
use crate::crystal::{CrystalIdent, CrystalToggleEvent};
use crate::segments::HitByLight;

verus! {

/// Simulation ticks per second of game time; the meter's per-tick rate is
/// derived from the configured activation time through this.
pub const TICKS_PER_SECOND: u32 = 64;

/// Largest accepted activation time, in milliseconds.
pub const MAX_ACTIVATION_MILLIS: u32 = 0x100_0000;

/// Per-tick meter numerator: the meter is `meter_num / (64 * millis)`, and
/// one tick moves the numerator by 1000, so a sensor lit continuously
/// saturates after `millis` milliseconds of game time.
pub const METER_TICK_NUM: u64 = 1000;

/// One light sensor: its configuration (which crystal identity it toggles,
/// its activation time), and its accumulating state.
#[derive(Clone, Copy, Debug, PartialEq, Eq, Structural)]
pub struct LightSensor {
    /// Entity the sensor's collider belongs to; hit events are routed by it.
    pub entity: u64,
    /// The crystal identity toggled when the latch flips.
    pub toggle_ident: CrystalIdent,
    /// Configured activation time in milliseconds.
    pub millis: u32,
    /// Meter numerator over the denominator `64 * millis`; the meter value
    /// `meter_num / (64 * millis)` stays in `[0, 1]`.
    pub meter_num: u64,
    /// Which beam colors currently hit the sensor.
    pub hit_by: ColorFlags,
    /// The latch: set when the meter saturates, cleared when it empties, so
    /// each full charge or discharge fires exactly one toggle.
    pub is_active: bool,
    /// Ticks spent lit by any beam, saturating.
    pub cumulative_exposure: u64,
}

impl LightSensor {
    /// Meter denominator: full charge.
    pub open spec fn denom(self) -> int {
        64 * self.millis
    }

    /// Valid configuration and meter within range.
    pub open spec fn wf(self) -> bool {
        &&& 1 <= self.millis <= MAX_ACTIVATION_MILLIS
        &&& self.meter_num <= self.denom()
    }

    /// A fresh sensor: empty meter, unlatched, unlit.
    pub fn new(entity: u64, toggle_ident: CrystalIdent, millis: u32) -> (s: LightSensor)
        requires
            1 <= millis <= MAX_ACTIVATION_MILLIS,
        ensures
            s == (LightSensor {
                entity,
                toggle_ident,
                millis,
                meter_num: 0,
                hit_by: ColorFlags::spec_empty(),
                is_active: false,
                cumulative_exposure: 0,
            }),
            s.wf(),
    {
        LightSensor {
            entity,
            toggle_ident,
            millis,
            meter_num: 0,
            hit_by: ColorFlags::empty(),
            is_active: false,
            cumulative_exposure: 0,
        }
    }

    /// Whether any beam currently hits the sensor.
    pub open spec fn spec_is_hit(self) -> bool {
        self.hit_by.spec_any()
    }

    pub fn is_hit(&self) -> (b: bool)
        ensures
            b == self.spec_is_hit(),
    {
        self.hit_by.any()
    }

    /// Records a raised or cleared contact of one beam color (the routing of
    /// a [`HitByLight`] event addressed to this sensor's entity).
    pub fn set_hit_by(&mut self, color: LightColor, hit: bool)
        ensures
            *final(self) == (LightSensor {
                hit_by: old(self).hit_by.spec_set(color, hit),
                ..*old(self)
            }),
    {
        self.hit_by.set(color, hit);
    }

    /// Level reset: meter, latch, lit state and exposure all return to the
    /// fresh state; the configuration stays.
    pub fn reset(&mut self)
        ensures
            *final(self) == (LightSensor {
                meter_num: 0,
                hit_by: ColorFlags::spec_empty(),
                is_active: false,
                cumulative_exposure: 0,
                ..*old(self)
            }),
            old(self).wf() ==> final(self).wf(),
    {
        self.meter_num = 0;
        self.hit_by = ColorFlags::empty();
        self.is_active = false;
        self.cumulative_exposure = 0;
    }
}

/// One fixed-timestep tick of a sensor: the meter moves one step toward full
/// while lit and toward empty while not; reaching full with the latch clear
/// sets the latch and fires a toggle, reaching empty with the latch set
/// clears it and fires a toggle; in every other case nothing fires.
pub open spec fn spec_sensor_step(s: LightSensor) -> (LightSensor, Option<CrystalToggleEvent>) {
    let was_hit = s.spec_is_hit();
    let exposure = if was_hit && s.cumulative_exposure < u64::MAX {
        (s.cumulative_exposure + 1) as u64
    } else {
        s.cumulative_exposure
    };
    let moved = if was_hit {
        (s.meter_num + METER_TICK_NUM) as int
    } else if s.meter_num >= METER_TICK_NUM {
        s.meter_num - METER_TICK_NUM
    } else {
        0
    };
    if moved >= s.denom() {
        (
            LightSensor {
                meter_num: s.denom() as u64,
                is_active: true,
                cumulative_exposure: exposure,
                ..s
            },
            if !s.is_active {
                Option::Some(CrystalToggleEvent { ident: s.toggle_ident })
            } else {
                Option::None
            },
        )
    } else if moved <= 0 {
        (
            LightSensor { meter_num: 0, is_active: false, cumulative_exposure: exposure, ..s },
            if s.is_active {
                Option::Some(CrystalToggleEvent { ident: s.toggle_ident })
            } else {
                Option::None
            },
        )
    } else {
        (LightSensor { meter_num: moved as u64, cumulative_exposure: exposure, ..s }, Option::None)
    }
}

/// Law: a tick fires a toggle exactly when the latch flips. Together with
/// the latch being boolean this is the at-most-once-per-saturation
/// guarantee: holding the meter at full (or empty) for any number of ticks
/// cannot fire twice.
pub proof fn lemma_step_toggle_iff_latch_flip(s: LightSensor)
    requires
        s.wf(),
    ensures
        spec_sensor_step(s).1 is Some <==> spec_sensor_step(s).0.is_active != s.is_active,
        spec_sensor_step(s).0.wf(),
        spec_sensor_step(s).1 matches Option::Some(ev) ==> ev == (CrystalToggleEvent {
            ident: s.toggle_ident,
        }),
{
}

/// Executable sensor tick, equal to [`spec_sensor_step`]; the returned event
/// is present exactly when the latch flipped.
pub fn update_light_sensor(sensor: &mut LightSensor) -> (ev: Option<CrystalToggleEvent>)
    requires
        old(sensor).wf(),
    ensures
        *final(sensor) == spec_sensor_step(*old(sensor)).0,
        ev == spec_sensor_step(*old(sensor)).1,
        final(sensor).wf(),
        ev is Some <==> final(sensor).is_active != old(sensor).is_active,
{
    let was_hit = sensor.is_hit();
    if was_hit && sensor.cumulative_exposure < u64::MAX {
        sensor.cumulative_exposure = sensor.cumulative_exposure + 1;
    }
    let denom: u64 = 64 * (sensor.millis as u64);
    let moved: u64 = if was_hit {
        sensor.meter_num + METER_TICK_NUM
    } else if sensor.meter_num >= METER_TICK_NUM {
        sensor.meter_num - METER_TICK_NUM
    } else {
        0
    };
    if moved >= denom {
        sensor.meter_num = denom;
        let fire = !sensor.is_active;
        sensor.is_active = true;
        if fire {
            Some(CrystalToggleEvent { ident: sensor.toggle_ident })
        } else {
            None
        }
    } else if moved == 0 {
        sensor.meter_num = 0;
        let fire = sensor.is_active;
        sensor.is_active = false;
        if fire {
            Some(CrystalToggleEvent { ident: sensor.toggle_ident })
        } else {
            None
        }
    } else {
        sensor.meter_num = moved;
        None
    }
}

/// The sensor with its lit state replaced: lit by one beam, or unlit.
pub open spec fn with_hit(s: LightSensor, lit: bool) -> LightSensor {
    LightSensor {
        hit_by: if lit {
            ColorFlags { white: true, ..ColorFlags::spec_empty() }
        } else {
            ColorFlags::spec_empty()
        },
        ..s
    }
}

/// Runs a sensor through a whole exposure history (one boolean per tick:
/// whether any beam lights it that tick) and counts the toggle events fired.
pub open spec fn spec_sensor_run(s: LightSensor, hits: Seq<bool>) -> (LightSensor, int)
    decreases hits.len(),
{
    if hits.len() == 0 {
        (s, 0)
    } else {
        let stepped = spec_sensor_step(with_hit(s, hits[0]));
        let rest = spec_sensor_run(stepped.0, hits.drop_first());
        (rest.0, rest.1 + if stepped.1 is Some {
            1int
        } else {
            0int
        })
    }
}

/// How often the latch changes along the same exposure history.
pub open spec fn spec_latch_flips(s: LightSensor, hits: Seq<bool>) -> int
    decreases hits.len(),
{
    if hits.len() == 0 {
        0
    } else {
        let stepped = spec_sensor_step(with_hit(s, hits[0]));
        spec_latch_flips(stepped.0, hits.drop_first()) + if stepped.0.is_active != s.is_active {
            1int
        } else {
            0int
        }
    }
}

/// Law: over any exposure history, a sensor fires exactly as many toggle
/// events as its latch makes full saturation (or drain) crossings — never
/// more, however long the meter is held at its bounds.
pub proof fn lemma_toggles_equal_latch_flips(s: LightSensor, hits: Seq<bool>)
    requires
        s.wf(),
    ensures
        spec_sensor_run(s, hits).1 == spec_latch_flips(s, hits),
        spec_sensor_run(s, hits).0.wf(),
    decreases hits.len(),
{
    if hits.len() > 0 {
        let lit = with_hit(s, hits[0]);
        assert(lit.wf());
        lemma_step_toggle_iff_latch_flip(lit);
        lemma_toggles_equal_latch_flips(spec_sensor_step(lit).0, hits.drop_first());
    }
}

/// Toggle events collected from ticking the first `upto` sensors of `olds`
/// in order.
pub open spec fn spec_collect_toggles(olds: Seq<LightSensor>, upto: int) -> Seq<CrystalToggleEvent>
    decreases upto,
{
    if upto <= 0 {
        Seq::empty()
    } else {
        spec_collect_toggles(olds, upto - 1) + match spec_sensor_step(olds[upto - 1]).1 {
            Option::Some(ev) => seq![ev],
            Option::None => Seq::empty(),
        }
    }
}

/// Ticks every sensor once, in order, and returns the toggle events fired,
/// in the same order.
pub fn update_light_sensors(sensors: &mut Vec<LightSensor>) -> (evs: Vec<CrystalToggleEvent>)
    requires
        forall|j: int| 0 <= j < old(sensors)@.len() ==> (#[trigger] old(sensors)@[j]).wf(),
    ensures
        final(sensors)@.len() == old(sensors)@.len(),
        forall|j: int|
            0 <= j < old(sensors)@.len() ==> #[trigger] final(sensors)@[j] == spec_sensor_step(
                old(sensors)@[j],
            ).0,
        forall|j: int| 0 <= j < final(sensors)@.len() ==> (#[trigger] final(sensors)@[j]).wf(),
        evs@ == spec_collect_toggles(old(sensors)@, old(sensors)@.len() as int),
{
    let mut evs: Vec<CrystalToggleEvent> = Vec::new();
    let mut j: usize = 0;
    while j < sensors.len()
        invariant
            j <= sensors@.len(),
            sensors@.len() == old(sensors)@.len(),
            forall|q: int| 0 <= q < old(sensors)@.len() ==> (#[trigger] old(sensors)@[q]).wf(),
            forall|q: int| j <= q < sensors@.len() ==> sensors@[q] == old(sensors)@[q],
            forall|q: int|
                0 <= q < j ==> #[trigger] sensors@[q] == spec_sensor_step(old(sensors)@[q]).0,
            evs@ == spec_collect_toggles(old(sensors)@, j as int),
        decreases sensors@.len() - j,
    {
        let mut s = sensors[j];
        let ev = update_light_sensor(&mut s);
        sensors.set(j, s);
        if let Some(e) = ev {
            evs.push(e);
        }
        proof {
            assert(evs@ =~= spec_collect_toggles(old(sensors)@, j + 1 as int));
        }
        j = j + 1;
    }
    evs
}

/// Resets every sensor (level reset).
pub fn reset_light_sensors(sensors: &mut Vec<LightSensor>)
    ensures
        final(sensors)@.len() == old(sensors)@.len(),
        forall|j: int|
            0 <= j < old(sensors)@.len() ==> #[trigger] final(sensors)@[j] == (LightSensor {
                meter_num: 0,
                hit_by: ColorFlags::spec_empty(),
                is_active: false,
                cumulative_exposure: 0,
                ..old(sensors)@[j]
            }),
{
    let mut j: usize = 0;
    while j < sensors.len()
        invariant
            j <= sensors@.len(),
            sensors@.len() == old(sensors)@.len(),
            forall|q: int| j <= q < sensors@.len() ==> sensors@[q] == old(sensors)@[q],
            forall|q: int|
                0 <= q < j ==> #[trigger] sensors@[q] == (LightSensor {
                    meter_num: 0,
                    hit_by: ColorFlags::spec_empty(),
                    is_active: false,
                    cumulative_exposure: 0,
                    ..old(sensors)@[q]
                }),
        decreases sensors@.len() - j,
    {
        let mut s = sensors[j];
        s.reset();
        sensors.set(j, s);
        j = j + 1;
    }
}

/// One sensor after one routed contact event: its lit flags change exactly
/// when the event addresses its entity.
pub open spec fn apply_event_one(s: LightSensor, e: HitByLight) -> LightSensor {
    if s.entity == e.entity {
        LightSensor { hit_by: s.hit_by.spec_set(e.color, e.hit), ..s }
    } else {
        s
    }
}

/// All sensors after a batch of contact events applied in order.
pub open spec fn spec_apply_events(
    sensors: Seq<LightSensor>,
    evs: Seq<HitByLight>,
) -> Seq<LightSensor>
    decreases evs.len(),
{
    if evs.len() == 0 {
        sensors
    } else {
        spec_apply_events(
            sensors.map_values(|s: LightSensor| apply_event_one(s, evs[0])),
            evs.drop_first(),
        )
    }
}

/// Applying one more event at the end routes it through the state the
/// earlier events produced.
pub proof fn lemma_apply_events_snoc(sensors: Seq<LightSensor>, evs: Seq<HitByLight>, e: HitByLight)
    ensures
        spec_apply_events(sensors, evs.push(e)) == spec_apply_events(sensors, evs).map_values(
            |s: LightSensor| apply_event_one(s, e),
        ),
    decreases evs.len(),
{
    reveal_with_fuel(spec_apply_events, 3);
    let head_mapped = sensors.map_values(
        |s: LightSensor| apply_event_one(s, evs.push(e)[0]),
    );
    if evs.len() == 0 {
        assert(evs.push(e).drop_first() =~= Seq::<HitByLight>::empty());
        assert(evs.push(e)[0] == e);
        assert(head_mapped =~= sensors.map_values(|s: LightSensor| apply_event_one(s, e)));
        assert(spec_apply_events(sensors, evs.push(e)) == head_mapped);
        assert(spec_apply_events(sensors, evs) == sensors);
    } else {
        let mapped = sensors.map_values(|s: LightSensor| apply_event_one(s, evs[0]));
        assert(evs.push(e)[0] == evs[0]);
        assert(head_mapped =~= mapped);
        assert(evs.push(e).drop_first() =~= evs.drop_first().push(e));
        assert(spec_apply_events(sensors, evs.push(e)) == spec_apply_events(
            mapped,
            evs.drop_first().push(e),
        ));
        lemma_apply_events_snoc(mapped, evs.drop_first(), e);
        assert(spec_apply_events(sensors, evs) == spec_apply_events(mapped, evs.drop_first()));
    }
}

/// Routes a batch of contact events to the sensors they address: for each
/// event in order, every sensor with the event's entity records the raised
/// or cleared color.
pub fn apply_hit_events(sensors: &mut Vec<LightSensor>, events: &Vec<HitByLight>)
    ensures
        final(sensors)@ == spec_apply_events(old(sensors)@, events@),
{
    let mut k: usize = 0;
    while k < events.len()
        invariant
            k <= events@.len(),
            sensors@ == spec_apply_events(old(sensors)@, events@.take(k as int)),
        decreases events@.len() - k,
    {
        let e = events[k];
        let ghost before = sensors@;
        let mut j: usize = 0;
        while j < sensors.len()
            invariant
                j <= sensors@.len(),
                sensors@.len() == before.len(),
                forall|q: int| j <= q < sensors@.len() ==> sensors@[q] == before[q],
                forall|q: int|
                    0 <= q < j ==> #[trigger] sensors@[q] == apply_event_one(before[q], e),
            decreases sensors@.len() - j,
        {
            let mut s = sensors[j];
            if s.entity == e.entity {
                s.set_hit_by(e.color, e.hit);
                sensors.set(j, s);
            }
            proof {
                assert(sensors@[j as int] == apply_event_one(before[j as int], e));
            }
            j = j + 1;
        }
        proof {
            assert(sensors@ =~= before.map_values(|s: LightSensor| apply_event_one(s, e)));
            assert(events@.take(k + 1 as int) =~= events@.take(k as int).push(e));
            lemma_apply_events_snoc(old(sensors)@, events@.take(k as int), e);
        }
        k = k + 1;
    }
    proof {
        assert(events@.take(events@.len() as int) =~= events@);
    }
}

} // verus!
