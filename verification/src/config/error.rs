//! The checks of the polling settings and why they refuse a configuration.
use vstd::prelude::*;

verus! {

/// A polling setting that a check names.
#[derive(Debug, Clone, Copy, PartialEq, Eq, Structural)]
pub enum PollingField {
    IntervalMs,
    IdleConfirmTicks,
    BusyConfirmTicks,
    IdleUsageThres,
    BusyUsageThres,
    IdleThrottleThres,
    BusyThrottleThres,
}

impl PollingField {
    /// The setting's key in the configuration file.
    pub fn as_str(self) -> (r: &'static str)
        ensures
            r@ == field_key(self),
    {
        let r = match self {
            PollingField::IntervalMs => "cpu_load_polling.interval_ms",
            PollingField::IdleConfirmTicks => "cpu_load_polling.idle.confirm_ticks",
            PollingField::BusyConfirmTicks => "cpu_load_polling.busy.confirm_ticks",
            PollingField::IdleUsageThres => "cpu_load_polling.idle.usage_thres",
            PollingField::BusyUsageThres => "cpu_load_polling.busy.usage_thres",
            PollingField::IdleThrottleThres => "cpu_load_polling.idle.throttle_thres",
            PollingField::BusyThrottleThres => "cpu_load_polling.busy.throttle_thres",
        };
        r
    }
}

/// The configuration key of each setting.
pub open spec fn field_key(f: PollingField) -> Seq<char> {
    match f {
        PollingField::IntervalMs => "cpu_load_polling.interval_ms"@,
        PollingField::IdleConfirmTicks => "cpu_load_polling.idle.confirm_ticks"@,
        PollingField::BusyConfirmTicks => "cpu_load_polling.busy.confirm_ticks"@,
        PollingField::IdleUsageThres => "cpu_load_polling.idle.usage_thres"@,
        PollingField::BusyUsageThres => "cpu_load_polling.busy.usage_thres"@,
        PollingField::IdleThrottleThres => "cpu_load_polling.idle.throttle_thres"@,
        PollingField::BusyThrottleThres => "cpu_load_polling.busy.throttle_thres"@,
    }
}

/// Why the polling settings were refused. A threshold's value is carried
/// as the bit pattern of its 64-bit float (`f64::to_bits`).
#[derive(Debug, Clone, Copy, PartialEq, Eq, Structural)]
pub enum ConfigValidationError {
    /// An integer setting that must be above 0.
    MustBePositive { field: PollingField, found: u64 },
    /// A threshold that is negative, infinite or not a number.
    InvalidThreshold { field: PollingField, found: u64 },
    /// An idle threshold that is not below its busy threshold.
    InvalidThresholdOrder {
        lower_field: PollingField,
        lower: u64,
        upper_field: PollingField,
        upper: u64,
    },
}

/// What the checks read of the polling settings: the integer settings, the
/// thresholds as the bit patterns of their 64-bit floats (`f64::to_bits`),
/// and the outcome of the floating-point tests on the thresholds.
#[derive(Debug, Clone, Copy)]
pub struct PollingFacts {
    pub interval_ms: u64,
    pub idle_confirm_ticks: u64,
    pub busy_confirm_ticks: u64,
    /// The bits of `idle.usage_thres`.
    pub idle_usage_bits: u64,
    /// The bits of `busy.usage_thres`.
    pub busy_usage_bits: u64,
    /// The bits of `idle.throttle_thres`.
    pub idle_throttle_bits: u64,
    /// The bits of `busy.throttle_thres`.
    pub busy_throttle_bits: u64,
    /// `idle.usage_thres` is finite and not negative.
    pub idle_usage_valid: bool,
    /// `busy.usage_thres` is finite and not negative.
    pub busy_usage_valid: bool,
    /// `idle.throttle_thres` is finite and not negative.
    pub idle_throttle_valid: bool,
    /// `busy.throttle_thres` is finite and not negative.
    pub busy_throttle_valid: bool,
    /// `idle.usage_thres < busy.usage_thres`.
    pub usage_ordered: bool,
    /// `idle.throttle_thres < busy.throttle_thres`.
    pub throttle_ordered: bool,
}

/// The outcome of the checks, in their order: the first that fails is
/// reported.
pub open spec fn validation_of(f: PollingFacts) -> Result<(), ConfigValidationError> {
    if f.interval_ms == 0 {
        Err(ConfigValidationError::MustBePositive { field: PollingField::IntervalMs, found: 0 })
    } else if f.idle_confirm_ticks == 0 {
        Err(
            ConfigValidationError::MustBePositive {
                field: PollingField::IdleConfirmTicks,
                found: 0,
            },
        )
    } else if f.busy_confirm_ticks == 0 {
        Err(
            ConfigValidationError::MustBePositive {
                field: PollingField::BusyConfirmTicks,
                found: 0,
            },
        )
    } else if !f.idle_usage_valid {
        Err(
            ConfigValidationError::InvalidThreshold {
                field: PollingField::IdleUsageThres,
                found: f.idle_usage_bits,
            },
        )
    } else if !f.busy_usage_valid {
        Err(
            ConfigValidationError::InvalidThreshold {
                field: PollingField::BusyUsageThres,
                found: f.busy_usage_bits,
            },
        )
    } else if !f.idle_throttle_valid {
        Err(
            ConfigValidationError::InvalidThreshold {
                field: PollingField::IdleThrottleThres,
                found: f.idle_throttle_bits,
            },
        )
    } else if !f.busy_throttle_valid {
        Err(
            ConfigValidationError::InvalidThreshold {
                field: PollingField::BusyThrottleThres,
                found: f.busy_throttle_bits,
            },
        )
    } else if !f.usage_ordered {
        Err(
            ConfigValidationError::InvalidThresholdOrder {
                lower_field: PollingField::IdleUsageThres,
                lower: f.idle_usage_bits,
                upper_field: PollingField::BusyUsageThres,
                upper: f.busy_usage_bits,
            },
        )
    } else if !f.throttle_ordered {
        Err(
            ConfigValidationError::InvalidThresholdOrder {
                lower_field: PollingField::IdleThrottleThres,
                lower: f.idle_throttle_bits,
                upper_field: PollingField::BusyThrottleThres,
                upper: f.busy_throttle_bits,
            },
        )
    } else {
        Ok(())
    }
}

/// Checks the polling settings: positive interval and confirm ticks, valid
/// thresholds, and idle thresholds strictly below busy ones.
pub fn validate(facts: &PollingFacts) -> (r: Result<(), ConfigValidationError>)
    ensures
        r == validation_of(*facts),
{
    if facts.interval_ms == 0 {
        return Err(
            ConfigValidationError::MustBePositive {
                field: PollingField::IntervalMs,
                found: facts.interval_ms,
            },
        );
    }
    if facts.idle_confirm_ticks == 0 {
        return Err(
            ConfigValidationError::MustBePositive {
                field: PollingField::IdleConfirmTicks,
                found: facts.idle_confirm_ticks,
            },
        );
    }
    if facts.busy_confirm_ticks == 0 {
        return Err(
            ConfigValidationError::MustBePositive {
                field: PollingField::BusyConfirmTicks,
                found: facts.busy_confirm_ticks,
            },
        );
    }
    if !facts.idle_usage_valid {
        return Err(
            ConfigValidationError::InvalidThreshold {
                field: PollingField::IdleUsageThres,
                found: facts.idle_usage_bits,
            },
        );
    }
    if !facts.busy_usage_valid {
        return Err(
            ConfigValidationError::InvalidThreshold {
                field: PollingField::BusyUsageThres,
                found: facts.busy_usage_bits,
            },
        );
    }
    if !facts.idle_throttle_valid {
        return Err(
            ConfigValidationError::InvalidThreshold {
                field: PollingField::IdleThrottleThres,
                found: facts.idle_throttle_bits,
            },
        );
    }
    if !facts.busy_throttle_valid {
        return Err(
            ConfigValidationError::InvalidThreshold {
                field: PollingField::BusyThrottleThres,
                found: facts.busy_throttle_bits,
            },
        );
    }
    if !facts.usage_ordered {
        return Err(
            ConfigValidationError::InvalidThresholdOrder {
                lower_field: PollingField::IdleUsageThres,
                lower: facts.idle_usage_bits,
                upper_field: PollingField::BusyUsageThres,
                upper: facts.busy_usage_bits,
            },
        );
    }
    if !facts.throttle_ordered {
        return Err(
            ConfigValidationError::InvalidThresholdOrder {
                lower_field: PollingField::IdleThrottleThres,
                lower: facts.idle_throttle_bits,
                upper_field: PollingField::BusyThrottleThres,
                upper: facts.busy_throttle_bits,
            },
        );
    }
    Ok(())
}

} // verus!
