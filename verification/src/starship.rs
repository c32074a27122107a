//! Configuration and error metrics of the re-entry navigation run.
use vstd::prelude::*;
use crate::bench::larger;
use crate::binary64::Binary64;
use crate::binary64::count_number;
use crate::binary64::number;
use crate::binary64::ONE_BITS;
use crate::binary64::ZERO_BITS;

verus! {

/// Pattern of `0.2`.
pub const DEFAULT_DT_BITS: u64 = 0x3FC9_9999_9999_999A;

/// Pattern of `900.0`.
pub const DEFAULT_T_FINAL_BITS: u64 = 0x408C_2000_0000_0000;

/// Pattern of `80000.0`.
pub const DEFAULT_BLACKOUT_UPPER_BITS: u64 = 0x40F3_8800_0000_0000;

/// Pattern of `40000.0`.
pub const DEFAULT_BLACKOUT_LOWER_BITS: u64 = 0x40E3_8800_0000_0000;

/// Pattern of `120000.0`.
pub const DEFAULT_ENTRY_ALTITUDE_BITS: u64 = 0x40FD_4C00_0000_0000;

/// Pattern of `7500.0`.
pub const DEFAULT_ENTRY_SPEED_BITS: u64 = 0x40BD_4C00_0000_0000;

/// Pattern of `-5.5`.
pub const DEFAULT_ENTRY_FLIGHT_PATH_BITS: u64 = 0xC016_0000_0000_0000;

/// Pattern of `0.97`.
pub const DEFAULT_RHO_BITS: u64 = 0x3FEF_0A3D_70A3_D70A;

/// Pattern of `32.0`.
pub const DEFAULT_SLEW_THRESHOLD_ACCEL_BITS: u64 = 0x4040_0000_0000_0000;

/// Pattern of `1.4`.
pub const DEFAULT_SLEW_THRESHOLD_GYRO_BITS: u64 = 0x3FF6_6666_6666_6666;

/// Pattern of `0.75`.
pub const DEFAULT_SLEW_PENALTY_GAIN_BITS: u64 = 0x3FE8_0000_0000_0000;

/// What a re-entry run is made of.
#[derive(Clone, Copy, Debug)]
pub struct SimConfig {
    /// Fixed integration step, in seconds.
    pub dt: Binary64,
    /// Final simulation time, in seconds.
    pub t_final: Binary64,
    /// Number of redundant inertial units.
    pub imu_count: usize,
    /// Seed of the random draws.
    pub seed: u64,
    /// Altitude where the blackout starts, in metres.
    pub blackout_upper_m: Binary64,
    /// Altitude where the blackout ends, in metres.
    pub blackout_lower_m: Binary64,
    /// Altitude of the entry interface, in metres.
    pub entry_altitude_m: Binary64,
    /// Speed at entry, in metres per second.
    pub entry_speed_mps: Binary64,
    /// Flight-path angle at entry, in degrees; negative is descending.
    pub entry_flight_path_deg: Binary64,
    /// Forgetting factor of the observers.
    pub rho: Binary64,
    /// Slew threshold of the acceleration channels.
    pub slew_threshold_accel: Binary64,
    /// Slew threshold of the rotation channels.
    pub slew_threshold_gyro: Binary64,
    /// Penalty scale where a slew threshold is exceeded.
    pub slew_penalty_gain: Binary64,
}

/// What is wrong with a configuration.
#[derive(Clone, Copy, Debug, PartialEq, Eq, Structural)]
pub enum SimIssue {
    /// `dt` is not above 0.
    TimeStep,
    /// `t_final` is not above `dt`.
    FinalTime,
    /// Fewer than two inertial units.
    ImuCount,
    /// `blackout_upper_m` is not above `blackout_lower_m`.
    Blackout,
    /// `rho` is not strictly between 0 and 1.
    Rho,
}

impl SimIssue {
    pub open spec fn text(self) -> Seq<char> {
        match self {
            SimIssue::TimeStep => "dt must be > 0"@,
            SimIssue::FinalTime => "t_final must be > dt"@,
            SimIssue::ImuCount => "imu_count must be at least 2"@,
            SimIssue::Blackout => "blackout_upper_m must be larger than blackout_lower_m"@,
            SimIssue::Rho => "rho must be in (0, 1)"@,
        }
    }

    /// The issue in words.
    pub fn message(self) -> (r: &'static str)
        ensures
            r@ == self.text(),
    {
        match self {
            SimIssue::TimeStep => "dt must be > 0",
            SimIssue::FinalTime => "t_final must be > dt",
            SimIssue::ImuCount => "imu_count must be at least 2",
            SimIssue::Blackout => "blackout_upper_m must be larger than blackout_lower_m",
            SimIssue::Rho => "rho must be in (0, 1)",
        }
    }
}

impl Default for SimConfig {
    /// A run of 900 seconds in steps of 0.2 with three inertial units.
    fn default() -> (r: SimConfig)
        ensures
            r == (SimConfig {
                dt: number(DEFAULT_DT_BITS),
                t_final: number(DEFAULT_T_FINAL_BITS),
                imu_count: 3,
                seed: 17,
                blackout_upper_m: number(DEFAULT_BLACKOUT_UPPER_BITS),
                blackout_lower_m: number(DEFAULT_BLACKOUT_LOWER_BITS),
                entry_altitude_m: number(DEFAULT_ENTRY_ALTITUDE_BITS),
                entry_speed_mps: number(DEFAULT_ENTRY_SPEED_BITS),
                entry_flight_path_deg: number(DEFAULT_ENTRY_FLIGHT_PATH_BITS),
                rho: number(DEFAULT_RHO_BITS),
                slew_threshold_accel: number(DEFAULT_SLEW_THRESHOLD_ACCEL_BITS),
                slew_threshold_gyro: number(DEFAULT_SLEW_THRESHOLD_GYRO_BITS),
                slew_penalty_gain: number(DEFAULT_SLEW_PENALTY_GAIN_BITS),
            }),
    {
        SimConfig {
            dt: Binary64::from_bits(DEFAULT_DT_BITS),
            t_final: Binary64::from_bits(DEFAULT_T_FINAL_BITS),
            imu_count: 3,
            seed: 17,
            blackout_upper_m: Binary64::from_bits(DEFAULT_BLACKOUT_UPPER_BITS),
            blackout_lower_m: Binary64::from_bits(DEFAULT_BLACKOUT_LOWER_BITS),
            entry_altitude_m: Binary64::from_bits(DEFAULT_ENTRY_ALTITUDE_BITS),
            entry_speed_mps: Binary64::from_bits(DEFAULT_ENTRY_SPEED_BITS),
            entry_flight_path_deg: Binary64::from_bits(DEFAULT_ENTRY_FLIGHT_PATH_BITS),
            rho: Binary64::from_bits(DEFAULT_RHO_BITS),
            slew_threshold_accel: Binary64::from_bits(DEFAULT_SLEW_THRESHOLD_ACCEL_BITS),
            slew_threshold_gyro: Binary64::from_bits(DEFAULT_SLEW_THRESHOLD_GYRO_BITS),
            slew_penalty_gain: Binary64::from_bits(DEFAULT_SLEW_PENALTY_GAIN_BITS),
        }
    }
}

impl SimConfig {
    /// The first thing wrong with the configuration, if anything is. A NaN
    /// meets none of the comparisons.
    pub open spec fn issue(&self) -> Option<SimIssue> {
        if !self.dt.exceeds(number(ZERO_BITS)) {
            Some(SimIssue::TimeStep)
        } else if !self.t_final.exceeds(self.dt) {
            Some(SimIssue::FinalTime)
        } else if self.imu_count < 2 {
            Some(SimIssue::ImuCount)
        } else if !self.blackout_upper_m.exceeds(self.blackout_lower_m) {
            Some(SimIssue::Blackout)
        } else if !(self.rho.exceeds(number(ZERO_BITS)) && self.rho.below(number(ONE_BITS))) {
            Some(SimIssue::Rho)
        } else {
            None
        }
    }

    /// Checks the configuration.
    pub fn validate(&self) -> (r: Result<(), SimIssue>)
        ensures
            r == (match self.issue() {
                Some(issue) => Err(issue),
                None => Ok(()),
            }),
    {
        if !self.dt.gt(Binary64::zero()) {
            return Err(SimIssue::TimeStep);
        }
        if !self.t_final.gt(self.dt) {
            return Err(SimIssue::FinalTime);
        }
        if self.imu_count < 2 {
            return Err(SimIssue::ImuCount);
        }
        if !self.blackout_upper_m.gt(self.blackout_lower_m) {
            return Err(SimIssue::Blackout);
        }
        if !(self.rho.gt(Binary64::zero()) && self.rho.lt(Binary64::one())) {
            return Err(SimIssue::Rho);
        }
        Ok(())
    }

    /// The number of integration steps: `t_final / dt`, rounded up.
    pub fn steps(&self) -> (r: usize)
        ensures
            r == self.t_final.over(self.dt).ceiled_usize(),
    {
        self.t_final.div_rounded(self.dt).ceil_to_usize()
    }
}

/// The errors of one estimate at one instant.
#[derive(Clone, Copy, Debug)]
pub struct ErrorSample {
    /// Position error, in metres.
    pub position: Binary64,
    /// Velocity error, in metres per second.
    pub velocity: Binary64,
    /// Attitude error, in degrees.
    pub attitude: Binary64,
}

impl ErrorSample {
    /// Whether all three errors are finite. Only such samples count.
    pub open spec fn is_usable(self) -> bool {
        self.position.is_finite_spec() && self.velocity.is_finite_spec()
            && self.attitude.is_finite_spec()
    }
}

/// What the errors of one estimate over a run come to.
#[derive(Clone, Copy, Debug)]
pub struct MethodMetrics {
    pub rmse_position_m: Binary64,
    pub rmse_velocity_mps: Binary64,
    pub rmse_attitude_deg: Binary64,
    pub final_position_error_m: Binary64,
    pub max_position_error_m: Binary64,
}

/// What is summed up while the samples pass.
pub struct Tally {
    pub position_sq: Binary64,
    pub velocity_sq: Binary64,
    pub attitude_sq: Binary64,
    pub max_position: Binary64,
    pub count: Binary64,
}

/// The tally of the samples: the usable ones add their squares, raise the
/// largest position error and count 1 each; the others are passed over.
pub open spec fn tally(samples: Seq<ErrorSample>) -> Tally
    decreases samples.len(),
{
    if samples.len() == 0 {
        Tally {
            position_sq: number(ZERO_BITS),
            velocity_sq: number(ZERO_BITS),
            attitude_sq: number(ZERO_BITS),
            max_position: number(ZERO_BITS),
            count: number(ZERO_BITS),
        }
    } else {
        let before = tally(samples.drop_last());
        let s = samples.last();
        if s.is_usable() {
            Tally {
                position_sq: before.position_sq.plus(s.position.times(s.position)),
                velocity_sq: before.velocity_sq.plus(s.velocity.times(s.velocity)),
                attitude_sq: before.attitude_sq.plus(s.attitude.times(s.attitude)),
                max_position: larger(before.max_position, s.position),
                count: before.count.plus(number(ONE_BITS)),
            }
        } else {
            before
        }
    }
}

/// The position error of the last sample in which it is finite; 0 where
/// there is none.
pub open spec fn last_finite_position(samples: Seq<ErrorSample>) -> Binary64
    decreases samples.len(),
{
    if samples.len() == 0 {
        number(ZERO_BITS)
    } else if samples.last().position.is_finite_spec() {
        samples.last().position
    } else {
        last_finite_position(samples.drop_last())
    }
}

/// The metrics of the samples: root mean squares over the usable samples
/// (over 1 where none is usable), the last finite position error and the
/// largest usable one.
pub open spec fn metrics_of(samples: Seq<ErrorSample>) -> MethodMetrics {
    let sums = tally(samples);
    let n = larger(sums.count, number(ONE_BITS));
    MethodMetrics {
        rmse_position_m: sums.position_sq.over(n).root(),
        rmse_velocity_mps: sums.velocity_sq.over(n).root(),
        rmse_attitude_deg: sums.attitude_sq.over(n).root(),
        final_position_error_m: last_finite_position(samples),
        max_position_error_m: sums.max_position,
    }
}

fn final_position(samples: &Vec<ErrorSample>) -> (r: Binary64)
    ensures
        r == last_finite_position(samples@),
{
    let mut i: usize = samples.len();
    proof {
        assert(samples@.take(samples.len() as int) =~= samples@);
    }
    while i > 0
        invariant
            i <= samples.len(),
            last_finite_position(samples@) == last_finite_position(samples@.take(i as int)),
        decreases i,
    {
        proof {
            assert(samples@.take(i as int).drop_last() =~= samples@.take(i - 1));
        }
        let p = samples[i - 1].position;
        if p.is_finite() {
            return p;
        }
        i -= 1;
    }
    Binary64::zero()
}

/// Sums the errors of one estimate over a run up.
pub fn compute_metrics(samples: &Vec<ErrorSample>) -> (r: MethodMetrics)
    ensures
        r == metrics_of(samples@),
{
    let mut position_sq = Binary64::zero();
    let mut velocity_sq = Binary64::zero();
    let mut attitude_sq = Binary64::zero();
    let mut max_position = Binary64::zero();
    let mut count = Binary64::zero();
    let mut i: usize = 0;
    while i < samples.len()
        invariant
            i <= samples.len(),
            tally(samples@.take(i as int)) == (Tally {
                position_sq,
                velocity_sq,
                attitude_sq,
                max_position,
                count,
            }),
        decreases samples.len() - i,
    {
        proof {
            assert(samples@.take(i + 1).drop_last() =~= samples@.take(i as int));
        }
        let s = samples[i];
        if s.position.is_finite() && s.velocity.is_finite() && s.attitude.is_finite() {
            position_sq = position_sq.add_rounded(s.position.mul_rounded(s.position));
            velocity_sq = velocity_sq.add_rounded(s.velocity.mul_rounded(s.velocity));
            attitude_sq = attitude_sq.add_rounded(s.attitude.mul_rounded(s.attitude));
            if max_position.is_nan() || s.position.gt(max_position) {
                max_position = s.position;
            }
            count = count.add_rounded(Binary64::one());
        }
        i += 1;
    }
    proof {
        assert(samples@.take(samples.len() as int) =~= samples@);
    }
    let one = Binary64::one();
    let n = if count.is_nan() || one.gt(count) {
        one
    } else {
        count
    };
    MethodMetrics {
        rmse_position_m: position_sq.div_rounded(n).sqrt_rounded(),
        rmse_velocity_mps: velocity_sq.div_rounded(n).sqrt_rounded(),
        rmse_attitude_deg: attitude_sq.div_rounded(n).sqrt_rounded(),
        final_position_error_m: final_position(samples),
        max_position_error_m: max_position,
    }
}

/// Pattern of `pi / 180`, the radians in a degree.
pub const RADIANS_PER_DEGREE_BITS: u64 = 0x3F91_DF46_A252_9D39;

/// A ramp in degrees: `base + (top - altitude) / span * rise`.
pub open spec fn ramp(base: nat, top: nat, span: nat, rise: nat, altitude_m: Binary64) -> Binary64 {
    count_number(base).plus(
        count_number(top).minus(altitude_m).over(count_number(span)).times(count_number(rise)),
    )
}

/// The angle of attack aimed at, in degrees: 24 above 95 km, rising to 42
/// at 75 km and to 58 at 50 km, falling to 48 at 30 km and below. A NaN
/// altitude gives 48.
pub open spec fn target_alpha_deg(altitude_m: Binary64) -> Binary64 {
    if altitude_m.exceeds(count_number(95_000)) {
        count_number(24)
    } else if altitude_m.exceeds(count_number(75_000)) {
        ramp(24, 95_000, 20_000, 18, altitude_m)
    } else if altitude_m.exceeds(count_number(50_000)) {
        ramp(42, 75_000, 25_000, 16, altitude_m)
    } else if altitude_m.exceeds(count_number(30_000)) {
        count_number(58).minus(
            count_number(50_000).minus(altitude_m).over(count_number(20_000)).times(
                count_number(10),
            ),
        )
    } else {
        count_number(48)
    }
}

fn ramp_at(base: usize, top: usize, span: usize, rise: usize, altitude_m: Binary64) -> (r: Binary64)
    ensures
        r == ramp(base as nat, top as nat, span as nat, rise as nat, altitude_m),
{
    Binary64::from_count(base).add_rounded(
        Binary64::from_count(top).sub_rounded(altitude_m).div_rounded(
            Binary64::from_count(span),
        ).mul_rounded(Binary64::from_count(rise)),
    )
}

/// The angle of attack aimed at at the given altitude, in radians.
pub fn target_alpha_rad(altitude_m: Binary64) -> (r: Binary64)
    ensures
        r == target_alpha_deg(altitude_m).times(number(RADIANS_PER_DEGREE_BITS)),
{
    let alpha_deg = if altitude_m.gt(Binary64::from_count(95_000)) {
        Binary64::from_count(24)
    } else if altitude_m.gt(Binary64::from_count(75_000)) {
        ramp_at(24, 95_000, 20_000, 18, altitude_m)
    } else if altitude_m.gt(Binary64::from_count(50_000)) {
        ramp_at(42, 75_000, 25_000, 16, altitude_m)
    } else if altitude_m.gt(Binary64::from_count(30_000)) {
        Binary64::from_count(58).sub_rounded(
            Binary64::from_count(50_000).sub_rounded(altitude_m).div_rounded(
                Binary64::from_count(20_000),
            ).mul_rounded(Binary64::from_count(10)),
        )
    } else {
        Binary64::from_count(48)
    };
    alpha_deg.mul_rounded(Binary64::from_bits(RADIANS_PER_DEGREE_BITS))
}

} // verus!
