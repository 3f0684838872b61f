//! Configuration for the immersive behavior simulation.
//!
//! All probabilities and scale factors are fixed-point integers in units of
//! 1/10000 (`RATE_ONE` stands for 1.0). Reply delays are milliseconds;
//! proactive idle thresholds and cooldowns are minutes.

use vstd::prelude::*;
use crate::RATE_ONE;

verus! {

/// Upper bound on proactive idle-threshold minutes, so that the threshold
/// still fits in a `u32` after being scaled up by at most 2.25x.
pub const MAX_THRESHOLD_MIN: u32 = 0x0100_0000;

/// Configuration for the retract-and-fix behavior: occasionally send a flawed
/// message, wait, retract it and send the corrected version.
#[derive(Clone, Copy)]
pub struct TypoConfig {
    /// Probability of triggering, in units of 1/10000.
    pub trigger_rate: u32,
    /// Delay between the flawed message and its retraction, in milliseconds.
    pub fix_delay_ms: u32,
}

/// Configuration for the read-without-reply delay: instead of ignoring a
/// message outright, suspend and re-decide later.
#[derive(Clone, Copy)]
pub struct IdleDelayConfig {
    /// Range the suspension is sampled from, in milliseconds.
    pub delay_range_ms: (u32, u32),
    /// Probability of replying after the suspension, in units of 1/10000.
    pub reply_after_delay_rate: u32,
}

/// Configuration for proactive initiation: speaking up after a session has
/// been idle for a while. Thresholds and cooldowns are minutes.
#[derive(Clone, Copy)]
pub struct ProactiveConfig {
    /// Range the idle threshold is sampled from, in minutes.
    pub idle_threshold_range: (u32, u32),
    /// Probability of actually speaking once idle, in units of 1/10000.
    pub success_rate: u32,
    /// Range the cooldown between proactive messages is sampled from, minutes.
    pub cooldown_range: (u32, u32),
}

/// Configuration for character-state tracking.
#[derive(Clone, Copy)]
pub struct CharacterStateConfig {
    pub enabled: bool,
    /// Re-analyze every this many messages.
    pub analysis_frequency: u32,
    /// How long a cached analysis stays valid, in minutes.
    pub cache_duration_min: u32,
    /// Whether to analyze when a proactive message triggers.
    pub analysis_on_proactive: bool,
    /// Weight of mood on delays, in units of 1/10000.
    pub mood_weight: u32,
    /// Weight of busyness on ignoring, in units of 1/10000.
    pub busy_weight: u32,
}

/// The per-behavior switches and parameters.
#[derive(Clone, Copy)]
pub struct BehaviorToggles {
    /// Reply delay range in milliseconds; `None` falls back to (500, 2000).
    pub reply_delay: Option<(u32, u32)>,
    /// Maximum number of segments a reply may be split into.
    pub multi_segment: Option<u8>,
    /// Range of the delay between segments, as a fraction of the primary
    /// delay in units of 1/10000.
    pub segment_delay_factor: (u32, u32),
    /// Probability of reading without replying, in units of 1/10000.
    pub ignore_rate: u32,
    /// Range the segmentation length threshold is sampled from, in
    /// characters; `None` falls back to (40, 100).
    pub segmentation_threshold_range: Option<(u32, u32)>,
    pub idle_delay_config: Option<IdleDelayConfig>,
    pub typo_correction: Option<TypoConfig>,
    pub proactive_initiation: Option<ProactiveConfig>,
    pub character_state_config: Option<CharacterStateConfig>,
    /// Whether the typing indicator should jitter.
    pub typing_jitter: bool,
}

/// The immersive-mode settings: a master switch plus the behavior toggles.
#[derive(Clone, Copy)]
pub struct ImmersiveSettings {
    pub enabled: bool,
    pub behaviors: BehaviorToggles,
}

impl TypoConfig {
    pub open spec fn wf(self) -> bool {
        self.trigger_rate <= RATE_ONE
    }
}

impl IdleDelayConfig {
    pub open spec fn wf(self) -> bool {
        &&& self.delay_range_ms.0 <= self.delay_range_ms.1
        &&& self.reply_after_delay_rate <= RATE_ONE
    }
}

impl ProactiveConfig {
    pub open spec fn wf(self) -> bool {
        &&& self.idle_threshold_range.0 <= self.idle_threshold_range.1
        &&& self.idle_threshold_range.1 <= MAX_THRESHOLD_MIN
        &&& self.success_rate <= RATE_ONE
        &&& self.cooldown_range.0 <= self.cooldown_range.1
    }
}

impl BehaviorToggles {
    /// Validity of a configuration: every rate lies in [0, 1] and every range
    /// is ordered.
    pub open spec fn wf(self) -> bool {
        &&& self.ignore_rate <= RATE_ONE
        &&& (self.reply_delay matches Some(r) ==> r.0 <= r.1)
        &&& self.segment_delay_factor.0 <= self.segment_delay_factor.1
        &&& self.segment_delay_factor.1 <= RATE_ONE
        &&& (self.segmentation_threshold_range matches Some(r) ==> r.0 <= r.1)
        &&& (self.idle_delay_config matches Some(c) ==> c.wf())
        &&& (self.typo_correction matches Some(c) ==> c.wf())
        &&& (self.proactive_initiation matches Some(c) ==> c.wf())
    }

    /// The reply-delay bounds in effect, falling back to (500, 2000) ms.
    pub open spec fn spec_reply_delay(self) -> (u32, u32) {
        match self.reply_delay {
            Some(r) => r,
            None => (500u32, 2000u32),
        }
    }

    /// The maximum number of segments in effect (at least 1).
    pub open spec fn spec_max_segments(self) -> int {
        match self.multi_segment {
            Some(k) => if k < 1 { 1int } else { k as int },
            None => 1int,
        }
    }

    /// The retraction delay in effect, falling back to 1500 ms.
    pub open spec fn spec_fix_delay(self) -> u32 {
        match self.typo_correction {
            Some(c) => c.fix_delay_ms,
            None => 1500u32,
        }
    }
}

impl Default for ProactiveConfig {
    /// Defaults: trigger after 10 idle minutes with probability 0.3, then
    /// cool down for 30 minutes.
    fn default() -> (r: Self)
        ensures
            r.idle_threshold_range == (10u32, 10u32),
            r.success_rate == 3000u32,
            r.cooldown_range == (30u32, 30u32),
            r.wf(),
    {
        ProactiveConfig {
            idle_threshold_range: (10, 10),
            success_rate: 3000,
            cooldown_range: (30, 30),
        }
    }
}

impl Default for BehaviorToggles {
    fn default() -> (r: Self)
        ensures
            r.wf(),
            r.reply_delay == Some((800u32, 3000u32)),
            r.multi_segment == Some(3u8),
            r.segment_delay_factor == (3000u32, 3000u32),
            r.ignore_rate == 0u32,
            r.segmentation_threshold_range is None,
            r.idle_delay_config matches Some(c) && c.delay_range_ms == (
                60000u32,
                300000u32,
            ) && c.reply_after_delay_rate == 5000u32,
            r.typo_correction matches Some(c) && c.trigger_rate == 200u32 && c.fix_delay_ms
                == 1500u32,
            r.proactive_initiation matches Some(c) && c.idle_threshold_range == (10u32, 10u32)
                && c.success_rate == 3000u32 && c.cooldown_range == (30u32, 30u32),
            r.typing_jitter,
    {
        BehaviorToggles {
            reply_delay: Some((800, 3000)),
            multi_segment: Some(3),
            segment_delay_factor: (3000, 3000),
            ignore_rate: 0,
            segmentation_threshold_range: None,
            idle_delay_config: Some(
                IdleDelayConfig { delay_range_ms: (60000, 300000), reply_after_delay_rate: 5000 },
            ),
            typo_correction: Some(TypoConfig { trigger_rate: 200, fix_delay_ms: 1500 }),
            proactive_initiation: Some(ProactiveConfig::default()),
            character_state_config: Some(
                CharacterStateConfig {
                    enabled: false,
                    analysis_frequency: 20,
                    cache_duration_min: 30,
                    analysis_on_proactive: true,
                    mood_weight: 3000,
                    busy_weight: 5000,
                },
            ),
            typing_jitter: true,
        }
    }
}

impl Default for ImmersiveSettings {
    /// The simulation is off by default: `decide` then degrades to an echo.
    fn default() -> (r: Self)
        ensures
            !r.enabled,
            r.behaviors.wf(),
    {
        ImmersiveSettings { enabled: false, behaviors: BehaviorToggles::default() }
    }
}

} // verus!
