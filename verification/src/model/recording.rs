//! Recordings and replay options.
use vstd::prelude::*;

use crate::error::AutomationError;
use crate::text::{decimal, push_decimal};

use super::action::MouseAction;

verus! {

/// The current format: delays in microseconds (`delay_us`).
pub const RECORDING_VERSION: u32 = 2;

/// The first format, whose delays were whole milliseconds (`delay_ms`).
pub const LEGACY_RECORDING_VERSION: u32 = 1;

/// One action and the time since the previous recorded action.
#[derive(Debug, Clone, Copy, PartialEq, Eq, Structural)]
pub struct RecordedAction {
    /// Microseconds since the previous recorded action.
    pub delay_us: u64,
    pub action: MouseAction,
}

/// The delay that a stored action gets: its `delay_us` when present, else its
/// legacy `delay_ms` in microseconds (saturating), else none (the field is
/// missing).
pub open spec fn stored_delay_us(delay_us: Option<u64>, delay_ms: Option<u64>) -> Option<u64> {
    match delay_us {
        Some(us) => Some(us),
        None => match delay_ms {
            Some(ms) => Some(
                if ms * 1000 > u64::MAX {
                    u64::MAX
                } else {
                    (ms * 1000) as u64
                },
            ),
            None => None,
        },
    }
}

impl RecordedAction {
    /// Builds an action read from a stored recording, which carries
    /// `delay_us` (current format) or `delay_ms` (legacy format). `None` when
    /// neither is present.
    pub fn from_stored(delay_us: Option<u64>, delay_ms: Option<u64>, action: MouseAction) -> (r:
        Option<RecordedAction>)
        ensures
            r == (match stored_delay_us(delay_us, delay_ms) {
                Some(d) => Some(RecordedAction { delay_us: d, action }),
                None => None,
            }),
    {
        let delay = match delay_us {
            Some(us) => Some(us),
            None => match delay_ms {
                Some(ms) => Some(
                    if ms > u64::MAX / 1000 {
                        u64::MAX
                    } else {
                        ms * 1000
                    },
                ),
                None => None,
            },
        };
        match delay {
            Some(d) => Some(RecordedAction { delay_us: d, action }),
            None => None,
        }
    }
}

/// The sum of the delays of `actions`.
pub open spec fn total_delay_us(actions: Seq<RecordedAction>) -> nat
    decreases actions.len(),
{
    if actions.len() == 0 {
        0
    } else {
        total_delay_us(actions.drop_last()) + actions.last().delay_us as nat
    }
}

/// The total of a prefix never exceeds the total of the whole.
pub proof fn lemma_total_delay_prefix(actions: Seq<RecordedAction>, i: int)
    requires
        0 <= i <= actions.len(),
    ensures
        total_delay_us(actions.take(i)) <= total_delay_us(actions),
    decreases actions.len() - i,
{
    if i < actions.len() {
        lemma_total_delay_prefix(actions, i + 1);
        assert(actions.take(i + 1).drop_last() =~= actions.take(i));
    } else {
        assert(actions.take(i) =~= actions);
    }
}

#[derive(Debug, Clone)]
pub struct Recording {
    pub version: u32,
    pub actions: Vec<RecordedAction>,
}

/// The message of the error for an unsupported format version.
pub open spec fn unsupported_version_message(version: u32) -> Seq<char> {
    "unsupported version "@ + decimal(version as nat) + " (expected "@ + decimal(
        RECORDING_VERSION as nat,
    ) + ")"@
}

impl Recording {
    pub fn new(actions: Vec<RecordedAction>) -> (r: Self)
        ensures
            r.version == RECORDING_VERSION,
            r.actions@ == actions@,
    {
        Recording { version: RECORDING_VERSION, actions }
    }

    /// The recording's length in microseconds: the sum of all delays.
    pub fn total_duration_us(&self) -> (t: u64)
        requires
            total_delay_us(self.actions@) <= u64::MAX,
        ensures
            t == total_delay_us(self.actions@),
    {
        let mut total: u64 = 0;
        let mut i: usize = 0;
        while i < self.actions.len()
            invariant
                i <= self.actions.len(),
                total == total_delay_us(self.actions@.take(i as int)),
                total_delay_us(self.actions@) <= u64::MAX,
            decreases self.actions.len() - i,
        {
            proof {
                lemma_total_delay_prefix(self.actions@, i + 1);
                assert(self.actions@.take(i + 1).drop_last() =~= self.actions@.take(i as int));
            }
            total = total + self.actions[i].delay_us;
            i = i + 1;
        }
        assert(self.actions@.take(i as int) =~= self.actions@);
        total
    }

    /// The recording's length in whole milliseconds.
    pub fn total_duration_ms(&self) -> (t: u64)
        requires
            total_delay_us(self.actions@) <= u64::MAX,
        ensures
            t == total_delay_us(self.actions@) / 1000,
    {
        self.total_duration_us() / 1000
    }

    /// Accepts the current and the legacy format version.
    pub fn validate(&self) -> (r: Result<(), AutomationError>)
        ensures
            r is Ok <==> (self.version == RECORDING_VERSION || self.version
                == LEGACY_RECORDING_VERSION),
            r matches Err(e) ==> e matches AutomationError::InvalidRecording(m) && m@
                == unsupported_version_message(self.version),
    {
        if self.version != RECORDING_VERSION && self.version != LEGACY_RECORDING_VERSION {
            let mut m = String::from_str("unsupported version ");
            push_decimal(&mut m, self.version as u64);
            m.append(" (expected ");
            push_decimal(&mut m, RECORDING_VERSION as u64);
            m.append(")");
            return Err(AutomationError::InvalidRecording(m));
        }
        Ok(())
    }

    /// Upgrades a legacy recording to the current version. Its delays were
    /// already converted to microseconds when it was read.
    pub fn migrate_legacy(&mut self)
        ensures
            final(self).version == (if old(self).version == LEGACY_RECORDING_VERSION {
                RECORDING_VERSION
            } else {
                old(self).version
            }),
            final(self).actions@ == old(self).actions@,
    {
        if self.version == LEGACY_RECORDING_VERSION {
            self.version = RECORDING_VERSION;
        }
    }
}

/// The replay speed is kept as the IEEE-754 binary64 encoding of the speed
/// multiplier (`f64::to_bits`): `1.0` is the recorded pace, `2.0` twice as
/// fast. The library only checks its range; the driver scales the waits.
pub const SPEED_ONE_BITS: u64 = 0x3FF0_0000_0000_0000;

/// The encoding of the slowest accepted speed, `0.1`.
pub const MIN_SPEED_BITS: u64 = 0x3FB9_9999_9999_999A;

/// The encoding of the fastest accepted speed, `10.0`.
pub const MAX_SPEED_BITS: u64 = 0x4024_0000_0000_0000;

#[derive(Debug, Clone, Copy, PartialEq, Eq, Structural)]
pub struct ReplayOptions {
    /// Number of passes over the recording (ignored when `infinite`).
    pub loops: u32,
    /// Pause between two passes, in milliseconds.
    pub loop_interval_ms: u64,
    /// The speed multiplier's binary64 encoding (see [`SPEED_ONE_BITS`]).
    pub speed_bits: u64,
    /// Replay until stopped, ignoring `loops`.
    pub infinite: bool,
}

impl Default for ReplayOptions {
    fn default() -> (r: Self)
        ensures
            r == (ReplayOptions {
                loops: 1,
                loop_interval_ms: 0,
                speed_bits: SPEED_ONE_BITS,
                infinite: false,
            }),
    {
        ReplayOptions { loops: 1, loop_interval_ms: 0, speed_bits: SPEED_ONE_BITS, infinite: false }
    }
}

/// Whether an encoded speed lies within `0.1..=10.0`. Non-negative numbers
/// order as their encodings, while negative numbers and NaNs encode above
/// `10.0`, so this range of encodings holds exactly the speeds from `0.1`
/// to `10.0`.
pub open spec fn speed_in_range(speed_bits: u64) -> bool {
    MIN_SPEED_BITS <= speed_bits <= MAX_SPEED_BITS
}

/// Whether the options can be replayed: at least one loop unless infinite,
/// and a speed within 0.1x..=10x.
pub open spec fn options_valid(o: ReplayOptions) -> bool {
    &&& (o.infinite || o.loops != 0)
    &&& speed_in_range(o.speed_bits)
}

impl ReplayOptions {
    pub fn validate(&self) -> (r: Result<(), AutomationError>)
        ensures
            r is Ok <==> options_valid(*self),
            r matches Err(e) ==> e matches AutomationError::InvalidOptions(m) && m@ == (if !self.infinite
                && self.loops == 0 {
                "loops must be >= 1"@
            } else {
                "speed must be within 0.1..=10.0"@
            }),
    {
        if !self.infinite && self.loops == 0 {
            return Err(AutomationError::InvalidOptions(String::from_str("loops must be >= 1")));
        }
        if self.speed_bits < MIN_SPEED_BITS || self.speed_bits > MAX_SPEED_BITS {
            return Err(
                AutomationError::InvalidOptions(String::from_str("speed must be within 0.1..=10.0")),
            );
        }
        Ok(())
    }
}

} // verus!
