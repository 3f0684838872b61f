//! The behavior decision engine: given a message and the conversational
//! context, decide whether, when and how split up the reply should appear.

use vstd::prelude::*;
use crate::actions::BehaviorAction;
use crate::context::{Mood, SessionContext};
use crate::rng::{rand_in, roll};
use crate::settings::{BehaviorToggles, ImmersiveSettings};
use crate::{clamp_int, clamp_u64, scale10k, MAX_MESSAGE_CHARS, RATE_ONE};
use vstd::string::StringExecFns;

verus! {

/// The decision engine. It holds one immutable settings snapshot; every
/// decision is made against it.
pub struct BehaviorEngine {
    settings: ImmersiveSettings,
}

/// The probability of ignoring a message, after the context adjusts the
/// configured rate: interest scales it down, busyness nudges it up, and the
/// result stays in [0, 1] (units of 1/10000).
pub open spec fn effective_ignore_rate(b: BehaviorToggles, ctx: SessionContext) -> int {
    let r1 = match ctx.interest_level {
        Some(i) => vstd::math::min(
            (b.ignore_rate as int) * (20000 - (i as int) * 12000 / 10000) / 10000,
            RATE_ONE as int,
        ),
        None => b.ignore_rate as int,
    };
    match ctx.busy_level {
        Some(bz) => vstd::math::min(
            r1 + vstd::math::min((bz as int) * 1000 / 10000, 1000),
            RATE_ONE as int,
        ),
        None => r1,
    }
}

/// The probability of replying after a deferred decision: the configured
/// rate (falling back to 0.5), raised by interest, lowered by busyness, and
/// never below 0.1 once busyness is known (units of 1/10000).
pub open spec fn effective_reply_after_delay_rate(b: BehaviorToggles, ctx: SessionContext) -> int {
    let base = match b.idle_delay_config {
        Some(c) => c.reply_after_delay_rate as int,
        None => 5000int,
    };
    let r1 = match ctx.interest_level {
        Some(i) => vstd::math::min(base + (i as int) * 2000 / 10000, RATE_ONE as int),
        None => base,
    };
    match ctx.busy_level {
        Some(bz) => vstd::math::max(r1 - (bz as int) * 1500 / 10000, 1000),
        None => r1,
    }
}

/// How the mood scales the reply delay (units of 1/10000).
pub open spec fn mood_delay_factor(m: Mood) -> int {
    match m {
        Mood::Happy => 8000int,
        Mood::Neutral => 10000int,
        Mood::Busy => 15000int,
        Mood::Tired => 18000int,
        Mood::Annoyed => 13000int,
        Mood::Other => 10000int,
    }
}

/// The reply delay before jitter and clamping: 15 ms per character, scaled
/// by the mood factor and by (1 + busy_level) when those are known.
pub open spec fn unjittered_delay(len: nat, ctx: SessionContext) -> int {
    let b0 = (len as int) * 15;
    let b1 = match ctx.mood {
        Some(m) => b0 * mood_delay_factor(m) / 10000,
        None => b0,
    };
    match ctx.busy_level {
        Some(bz) => b1 * (10000 + bz as int) / 10000,
        None => b1,
    }
}

/// `d` is the unjittered delay scaled by jitter `jit` and clamped to
/// [lo, hi].
pub open spec fn delay_outcome(
    d: u32,
    len: nat,
    ctx: SessionContext,
    jit: int,
    lo: u32,
    hi: u32,
) -> bool {
    d == clamp_int(unjittered_delay(len, ctx) * jit / 10000, lo as int, hi as int)
}

/// The proactive configuration in effect, falling back to the defaults.
pub open spec fn spec_proactive_config(b: BehaviorToggles) -> crate::settings::ProactiveConfig {
    match b.proactive_initiation {
        Some(c) => c,
        None => crate::settings::ProactiveConfig {
            idle_threshold_range: (10u32, 10u32),
            success_rate: 3000u32,
            cooldown_range: (30u32, 30u32),
        },
    }
}

/// The proactive success probability after the context adjusts it: interest
/// shifts it up or down around 0.5 (absent interest nudges it up a little),
/// busyness lowers it, and mood shifts it by 0.1 (units of 1/10000).
pub open spec fn proactive_success_rate(b: BehaviorToggles, ctx: SessionContext) -> int {
    let base = spec_proactive_config(b).success_rate as int;
    let s1 = match ctx.interest_level {
        Some(i) => if i >= 5000 {
            vstd::math::min(base + (i as int - 5000) * 4000 / 10000, RATE_ONE as int)
        } else {
            vstd::math::max(base - (5000 - i as int) * 4000 / 10000, 0)
        },
        None => vstd::math::min(base + 1000, RATE_ONE as int),
    };
    let s2 = match ctx.busy_level {
        Some(bz) => vstd::math::max(s1 - (bz as int) * 2000 / 10000, 0),
        None => s1,
    };
    match ctx.mood {
        Some(Mood::Happy) => vstd::math::min(s2 + 1000, RATE_ONE as int),
        Some(Mood::Annoyed) | Some(Mood::Tired) | Some(Mood::Busy) => vstd::math::max(s2 - 1000, 0),
        _ => s2,
    }
}

/// One end of the idle-threshold range after the context scales it: interest
/// narrows it, busyness and a sour mood widen it (minutes).
pub open spec fn proactive_scaled_threshold(t0: u32, ctx: SessionContext) -> int {
    let t1 = match ctx.interest_level {
        Some(i) => (t0 as int) * (12500 - (i as int) * 5000 / 10000) / 10000,
        None => t0 as int,
    };
    let t2 = match ctx.busy_level {
        Some(bz) => t1 * (10000 + (bz as int) * 5000 / 10000) / 10000,
        None => t1,
    };
    match ctx.mood {
        Some(Mood::Happy) => t2 * 8000 / 10000,
        Some(Mood::Annoyed) | Some(Mood::Tired) | Some(Mood::Busy) => t2 * 12000 / 10000,
        _ => t2,
    }
}

/// Everything `decide` guarantees of its result: with the simulation off the
/// chain is a plain echo; otherwise it is an ignore outcome, the fixed
/// retract-and-fix chain, or a normal delayed reply — with the ignore branch
/// forced when the adjusted ignore probability reaches 1 and excluded when it
/// is 0, and the retract-and-fix branch excluded when it is not configured.
pub open spec fn decide_post(
    chain: Seq<BehaviorAction>,
    m: Seq<char>,
    s: ImmersiveSettings,
    ctx: SessionContext,
) -> bool {
    &&& chain.len() >= 1
    &&& (!s.enabled ==> crate::actions::chain_is_echo(chain, m))
    &&& (s.enabled ==> {
        let b = s.behaviors;
        &&& {
            ||| crate::actions::ignore_outcome(chain, m, b)
            ||| (b.typo_correction is Some && crate::actions::typo_chain(
                chain,
                m,
                b.spec_fix_delay(),
            ))
            ||| crate::actions::normal_outcome(chain, m, b)
        }
        &&& (effective_ignore_rate(b, ctx) >= RATE_ONE ==> crate::actions::ignore_outcome(
            chain,
            m,
            b,
        ))
        &&& (effective_ignore_rate(b, ctx) == 0 ==> {
            ||| (b.typo_correction is Some && crate::actions::typo_chain(
                chain,
                m,
                b.spec_fix_delay(),
            ))
            ||| crate::actions::normal_outcome(chain, m, b)
        })
        &&& (b.typo_correction is None ==> crate::actions::ignore_outcome(chain, m, b)
            || crate::actions::normal_outcome(chain, m, b))
        &&& (effective_ignore_rate(b, ctx) == 0 && (b.typo_correction matches Some(t)
            && t.trigger_rate >= RATE_ONE) ==> crate::actions::typo_chain(
            chain,
            m,
            b.spec_fix_delay(),
        ))
        &&& (effective_ignore_rate(b, ctx) == 0 && (b.typo_correction matches Some(t)
            ==> t.trigger_rate == 0) ==> crate::actions::normal_outcome(chain, m, b))
    })
}

/// Everything `decide_after_delay` guarantees of its result: either silence
/// or a normal delayed reply, with the reply forced when the adjusted
/// reply-after-delay probability reaches 1 and silence forced when it is 0.
pub open spec fn decide_after_delay_post(
    chain: Seq<BehaviorAction>,
    m: Seq<char>,
    s: ImmersiveSettings,
    ctx: SessionContext,
) -> bool {
    &&& chain.len() >= 1
    &&& (crate::actions::chain_is_idle(chain) || crate::actions::normal_outcome(
        chain,
        m,
        s.behaviors,
    ))
    &&& (effective_reply_after_delay_rate(s.behaviors, ctx) >= RATE_ONE
        ==> crate::actions::normal_outcome(chain, m, s.behaviors))
    &&& (effective_reply_after_delay_rate(s.behaviors, ctx) == 0
        ==> crate::actions::chain_is_idle(chain))
}

impl BehaviorEngine {
    /// The settings snapshot this engine decides against.
    pub closed spec fn spec_settings(&self) -> ImmersiveSettings {
        self.settings
    }

    /// Validity of the engine: its settings are well-formed.
    pub open spec fn wf(&self) -> bool {
        self.spec_settings().behaviors.wf()
    }

    pub fn new(settings: ImmersiveSettings) -> (r: Self)
        ensures
            r.spec_settings() == settings,
    {
        BehaviorEngine { settings }
    }

    /// Whether the behavior simulation is switched on at all.
    pub fn is_enabled(&self) -> (r: bool)
        ensures
            r == self.spec_settings().enabled,
    {
        self.settings.enabled
    }

    /// Whether proactive initiation is configured.
    pub fn proactive_configured(&self) -> (r: bool)
        ensures
            r == (self.spec_settings().behaviors.proactive_initiation is Some),
    {
        self.settings.behaviors.proactive_initiation.is_some()
    }

    /// Compute the reply delay in milliseconds: 15 ms per character, scaled
    /// by mood and busyness, jittered by a factor in [0.8, 1.2), and clamped
    /// to the configured reply-delay bounds.
    pub fn calculate_delay(&self, message: &str, context: &SessionContext) -> (d: u32)
        requires
            self.wf(),
            context.wf(),
            message@.len() <= MAX_MESSAGE_CHARS,
        ensures
            self.spec_settings().behaviors.spec_reply_delay().0 <= d
                <= self.spec_settings().behaviors.spec_reply_delay().1,
            exists|jit: int|
                8000 <= jit <= 11999 && #[trigger] delay_outcome(
                    d,
                    message@.len(),
                    *context,
                    jit,
                    self.spec_settings().behaviors.spec_reply_delay().0,
                    self.spec_settings().behaviors.spec_reply_delay().1,
                ),
    {
        let (lo, hi) = match self.settings.behaviors.reply_delay {
            Some(r) => r,
            None => (500u32, 2000u32),
        };
        let n = message.unicode_len();
        let mut base: u64 = n as u64 * 15;
        assert(base <= 0x0100_0000u64 * 15);
        if let Some(mood) = context.mood {
            let factor: u64 = match mood {
                Mood::Happy => 8000,
                Mood::Neutral => 10000,
                Mood::Busy => 15000,
                Mood::Tired => 18000,
                Mood::Annoyed => 13000,
                Mood::Other => 10000,
            };
            assert(factor == mood_delay_factor(mood));
            base = scale10k(base, factor);
        }
        assert(base <= 2 * 0x0100_0000u64 * 15);
        if let Some(bz) = context.busy_level {
            base = scale10k(base, 10000 + bz as u64);
        }
        assert(base <= 4 * 0x0100_0000u64 * 15);
        assert(base == unjittered_delay(message@.len(), *context));
        let jit = rand_in(8000, 11999);
        let jittered = scale10k(base, jit);
        let d = clamp_u64(jittered, lo, hi);
        proof {
            assert(delay_outcome(d, message@.len(), *context, jit as int, lo, hi));
            assert(lo == self.spec_settings().behaviors.spec_reply_delay().0);
            assert(hi == self.spec_settings().behaviors.spec_reply_delay().1);
            assert(exists|j: int|
                8000 <= j <= 11999 && #[trigger] delay_outcome(
                    d,
                    message@.len(),
                    *context,
                    j,
                    self.spec_settings().behaviors.spec_reply_delay().0,
                    self.spec_settings().behaviors.spec_reply_delay().1,
                )) by {
                assert(delay_outcome(
                    d,
                    message@.len(),
                    *context,
                    jit as int,
                    self.spec_settings().behaviors.spec_reply_delay().0,
                    self.spec_settings().behaviors.spec_reply_delay().1,
                ));
            }
        }
        d
    }

    /// Decide whether to ignore the message (read without replying). When the
    /// adjusted ignore probability fires, the result is a deferred decision
    /// if an idle-delay configuration exists, else a plain `Idle`.
    pub fn should_ignore(&self, message: &str, context: &SessionContext) -> (r: Option<
        BehaviorAction,
    >)
        requires
            self.wf(),
            context.wf(),
        ensures
            ({
                let b = self.spec_settings().behaviors;
                &&& (r matches Some(a) ==> crate::actions::ignore_outcome(seq![a], message@, b))
                &&& effective_ignore_rate(b, *context) == 0 ==> r is None
                &&& effective_ignore_rate(b, *context) >= RATE_ONE ==> r is Some
            }),
    {
        let b = &self.settings.behaviors;
        let mut rate: u64 = b.ignore_rate as u64;
        if let Some(i) = context.interest_level {
            let interest_factor: u64 = 20000 - scale10k(i as u64, 12000);
            rate = scale10k(rate, interest_factor);
            if rate > RATE_ONE as u64 {
                rate = RATE_ONE as u64;
            }
        }
        if let Some(bz) = context.busy_level {
            let mut contribution: u64 = scale10k(bz as u64, 1000);
            if contribution > 1000 {
                contribution = 1000;
            }
            rate = rate + contribution;
            if rate > RATE_ONE as u64 {
                rate = RATE_ONE as u64;
            }
        }
        assert(rate == effective_ignore_rate(*b, *context));
        if rate == 0 {
            return None;
        }
        if roll(rate as u32) {
            if let Some(cfg) = &b.idle_delay_config {
                let delay = rand_in(cfg.delay_range_ms.0 as u64, cfg.delay_range_ms.1 as u64);
                Some(BehaviorAction::DelayedDecision(delay as u32, message.to_owned()))
            } else {
                Some(BehaviorAction::Idle)
            }
        } else {
            None
        }
    }

    /// Introduce one small flaw into the message: an interior character is
    /// either duplicated or replaced by a similar character. Messages shorter
    /// than 3 characters come back untouched.
    pub fn introduce_typo(&self, message: &str) -> (r: String)
        ensures
            crate::actions::is_typo_of(r@, message@),
    {
        let ghost m = message@;
        let n = message.unicode_len();
        if n < 3 {
            return message.to_owned();
        }
        let pos64 = rand_in(1, (n - 2) as u64);
        let pos: usize = pos64 as usize;
        assert(1 <= pos && pos < n - 1);
        if rand_in(0, 1) == 0 {
            // Duplicate the character at `pos`.
            let mut s = String::from_str(message.substring_char(0, pos + 1));
            s.append(message.substring_char(pos, n));
            proof {
                assert(crate::actions::typo_dup_at(s@, m, pos as int));
                assert(crate::actions::is_typo_of(s@, m));
            }
            s
        } else {
            // Replace the character at `pos` with a similar one.
            let k = rand_in(0, 6);
            let sim: &str = match k {
                0 => "的",
                1 => "地",
                2 => "得",
                3 => "在",
                4 => "再",
                5 => "做",
                _ => "作",
            };
            proof {
                reveal_strlit("的");
                reveal_strlit("地");
                reveal_strlit("得");
                reveal_strlit("在");
                reveal_strlit("再");
                reveal_strlit("做");
                reveal_strlit("作");
                assert(sim@ =~= seq![crate::actions::similar_chars()[k as int]]);
            }
            let mut s = String::from_str(message.substring_char(0, pos));
            s.append(sim);
            s.append(message.substring_char(pos + 1, n));
            proof {
                assert(crate::actions::typo_subst_at(s@, m, pos as int, k as int));
                assert(crate::actions::typo_subst_with(s@, m, pos as int));
                assert(crate::actions::is_typo_of(s@, m));
            }
            s
        }
    }

    /// Build the fixed six-step retract-and-fix chain: speak a flawed version
    /// of the message, wait, retract it, and speak the original.
    pub fn build_typo_correction_chain(&self, message: &str) -> (chain: Vec<BehaviorAction>)
        requires
            self.wf(),
        ensures
            crate::actions::typo_chain(
                chain@,
                message@,
                self.spec_settings().behaviors.spec_fix_delay(),
            ),
    {
        let typo_version = self.introduce_typo(message);
        let fix_delay = match &self.settings.behaviors.typo_correction {
            Some(c) => c.fix_delay_ms,
            None => 1500,
        };
        let mut chain: Vec<BehaviorAction> = Vec::new();
        chain.push(BehaviorAction::Wait(800));
        chain.push(BehaviorAction::Speak(typo_version));
        chain.push(BehaviorAction::Wait(fix_delay));
        chain.push(BehaviorAction::Retract(0));
        chain.push(BehaviorAction::Wait(500));
        chain.push(BehaviorAction::Speak(message.to_owned()));
        chain
    }

    /// Assemble the normal reply chain: the primary delay, then each segment,
    /// with a scaled delay between consecutive segments only.
    pub fn build_normal_chain(&self, delay: u32, segments: Vec<String>) -> (chain: Vec<
        BehaviorAction,
    >)
        requires
            self.wf(),
            segments@.len() >= 1,
        ensures
            crate::actions::normal_chain_with(
                chain@,
                segments.deep_view(),
                delay,
                self.spec_settings().behaviors.segment_delay_factor.0,
                self.spec_settings().behaviors.segment_delay_factor.1,
            ),
    {
        let ghost segs = segments.deep_view();
        let (fmin, fmax) = self.settings.behaviors.segment_delay_factor;
        let mut chain: Vec<BehaviorAction> = Vec::new();
        chain.push(BehaviorAction::Wait(delay));
        let mut i: usize = 0;
        while i < segments.len()
            invariant
                self.wf(),
                i <= segments@.len(),
                segments@.len() >= 1,
                segs == segments.deep_view(),
                fmin == self.spec_settings().behaviors.segment_delay_factor.0,
                fmax == self.spec_settings().behaviors.segment_delay_factor.1,
                fmax <= RATE_ONE,
                chain@.len() == if i < segments@.len() {
                    2 * i + 1int
                } else {
                    2 * i
                },
                forall|j: int|
                    0 <= j < chain@.len() ==> ((#[trigger] chain@[j]) is Wait || chain@[j]
                        is Speak),
                chain@[0] == BehaviorAction::Wait(delay),
                forall|j: int|
                    0 <= j < i ==> crate::actions::is_speak(#[trigger] chain@[2 * j + 1], segs[j]),
                forall|j: int|
                    0 <= j < i && j < segments@.len() - 1 ==> ((#[trigger] chain@[2 * j
                        + 2]) matches BehaviorAction::Wait(w) && crate::actions::is_segment_wait(
                        w,
                        delay,
                        fmin,
                        fmax,
                    )),
            decreases segments@.len() - i,
        {
            chain.push(BehaviorAction::Speak(segments[i].clone()));
            if i + 1 < segments.len() {
                let f = rand_in(fmin as u64, fmax as u64);
                let w64 = scale10k(delay as u64, f);
                let w = w64 as u32;
                proof {
                    assert(crate::actions::scaled_wait(w as int, delay, f as int));
                }
                chain.push(BehaviorAction::Wait(w));
            }
            i = i + 1;
        }
        chain
    }

    /// Split the message at natural break points (sentence-ending punctuation
    /// and line breaks), never inside a character, trimming whitespace at the
    /// cut points and never emitting an empty segment. Splitting is
    /// probabilistic: long accumulated runs are likelier to be cut, and the
    /// segment count never exceeds the configured maximum.
    #[verifier::rlimit(30)]
    pub fn segment_message(&self, message: &str) -> (segments: Vec<String>)
        requires
            self.wf(),
        ensures
            crate::text::valid_segmentation(
                message@,
                segments.deep_view(),
                self.spec_settings().behaviors.spec_max_segments(),
            ),
            self.spec_settings().behaviors.spec_max_segments() <= 1 ==> segments.deep_view()
                =~= seq![message@],
    {
        let ghost m = message@;
        let max_segments: usize = match self.settings.behaviors.multi_segment {
            Some(k) => k as usize,
            None => 1,
        };
        if max_segments <= 1 {
            let mut one: Vec<String> = Vec::new();
            one.push(String::from_str(message));
            assert(one.deep_view() =~= seq![m]);
            return one;
        }
        let actual_max = rand_in(1, max_segments as u64) as usize;
        if actual_max <= 1 {
            let mut one: Vec<String> = Vec::new();
            one.push(String::from_str(message));
            assert(one.deep_view() =~= seq![m]);
            return one;
        }
        let n = message.unicode_len();
        let (min_t, max_t) = match self.settings.behaviors.segmentation_threshold_range {
            Some(r) => r,
            None => (40u32, 100u32),
        };
        let mut segments: Vec<String> = Vec::new();
        let ghost mut cuts: Seq<int> = seq![0int];
        let mut start: usize = 0;
        let mut i: usize = 0;
        while i < n
            invariant
                m == message@,
                n == m.len(),
                start <= i <= n,
                2 <= actual_max <= max_segments,
                min_t <= max_t,
                cuts.len() == segments.deep_view().len() + 1,
                cuts[0] == 0,
                forall|j: int| 0 <= j < cuts.len() - 1 ==> #[trigger] cuts[j] <= cuts[j + 1],
                forall|j: int| 0 <= j < cuts.len() ==> 0 <= #[trigger] cuts[j] <= n,
                cuts.last() == start as int,
                forall|j: int|
                    0 <= j < segments.deep_view().len() ==> #[trigger] segments.deep_view()[j]
                        == crate::text::spec_trim(m.subrange(cuts[j], cuts[j + 1]))
                        && segments.deep_view()[j].len() > 0,
                segments.deep_view().len() <= actual_max - 1,
            decreases n - i,
        {
            let ch = message.get_char(i);
            if crate::text::delimiter_char(ch) && segments.len() + 1 < actual_max {
                let current_len = i + 1 - start;
                let split_threshold = rand_in(min_t as u64, max_t as u64);
                if current_len as u64 >= split_threshold {
                    if rand_in(0, 9) < 3 {
                        let chunk = message.substring_char(start, i + 1);
                        let trimmed = crate::text::trim_str(chunk);
                        if trimmed.unicode_len() > 0 {
                            let ghost old_dv = segments.deep_view();
                            segments.push(String::from_str(trimmed));
                            proof {
                                cuts = cuts.push(i as int + 1);
                                assert(segments.deep_view() =~= old_dv.push(trimmed@));
                            }
                            start = i + 1;
                        }
                    }
                }
            }
            i = i + 1;
        }
        if start < n {
            let chunk = message.substring_char(start, n);
            let trimmed = crate::text::trim_str(chunk);
            if trimmed.unicode_len() > 0 {
                let ghost old_dv = segments.deep_view();
                segments.push(String::from_str(trimmed));
                proof {
                    cuts = cuts.push(n as int);
                    assert(segments.deep_view() =~= old_dv.push(trimmed@));
                }
            } else {
                assert(crate::text::spec_trim(m.subrange(start as int, n as int)).len() == 0);
            }
        }
        if segments.len() == 0 {
            let mut one: Vec<String> = Vec::new();
            one.push(String::from_str(message));
            assert(one.deep_view() =~= seq![m]);
            return one;
        }
        proof {
            assert(m.subrange(cuts.last(), m.len() as int).len() == 0 ==> crate::text::spec_trim(
                m.subrange(cuts.last(), m.len() as int),
            ).len() == 0);
            assert(crate::text::is_chunked_segmentation(m, segments.deep_view(), cuts));
        }
        segments
    }

    /// The main decision: given a message and the conversational context,
    /// produce the chain of actions that delivers (or withholds) the reply.
    pub fn decide(&self, message: &str, context: &SessionContext) -> (chain: Vec<BehaviorAction>)
        requires
            self.wf(),
            context.wf(),
            message@.len() <= MAX_MESSAGE_CHARS,
        ensures
            decide_post(chain@, message@, self.spec_settings(), *context),
    {
        let ghost m = message@;
        let ghost s = self.spec_settings();
        if !self.settings.enabled {
            // With the simulation off, degrade to a plain echo reply.
            let mut chain: Vec<BehaviorAction> = Vec::new();
            chain.push(BehaviorAction::Speak(message.to_owned()));
            return chain;
        }
        if let Some(action) = self.should_ignore(message, context) {
            let ghost a = action;
            let mut chain: Vec<BehaviorAction> = Vec::new();
            chain.push(action);
            proof {
                assert(chain@ =~= seq![a]);
            }
            return chain;
        }
        if self.should_trigger_typo() {
            return self.build_typo_correction_chain(message);
        }
        let delay = self.calculate_delay(message, context);
        let segments = self.segment_message(message);
        let chain = self.build_normal_chain(delay, segments);
        proof {
            assert(crate::actions::normal_outcome(chain@, m, s.behaviors));
        }
        chain
    }

    /// Re-evaluate after a deferred decision: reply with a normal chain with
    /// the adjusted reply-after-delay probability, stay silent otherwise.
    pub fn decide_after_delay(&self, message: &str, context: &SessionContext) -> (chain: Vec<
        BehaviorAction,
    >)
        requires
            self.wf(),
            context.wf(),
            message@.len() <= MAX_MESSAGE_CHARS,
        ensures
            decide_after_delay_post(chain@, message@, self.spec_settings(), *context),
    {
        let ghost m = message@;
        let ghost s = self.spec_settings();
        let mut rate: u64 = match &self.settings.behaviors.idle_delay_config {
            Some(c) => c.reply_after_delay_rate as u64,
            None => 5000,
        };
        if let Some(i) = context.interest_level {
            rate = rate + scale10k(i as u64, 2000);
            if rate > RATE_ONE as u64 {
                rate = RATE_ONE as u64;
            }
        }
        if let Some(bz) = context.busy_level {
            let sub = scale10k(bz as u64, 1500);
            rate = if rate >= sub + 1000 {
                rate - sub
            } else {
                1000
            };
        }
        assert(rate == effective_reply_after_delay_rate(s.behaviors, *context));
        if roll(rate as u32) {
            let delay = self.calculate_delay(message, context);
            let segments = self.segment_message(message);
            let chain = self.build_normal_chain(delay, segments);
            proof {
                assert(crate::actions::normal_outcome(chain@, m, s.behaviors));
            }
            chain
        } else {
            let mut chain: Vec<BehaviorAction> = Vec::new();
            chain.push(BehaviorAction::Idle);
            chain
        }
    }

    /// Derive the dynamic proactive parameters for a session: an idle
    /// threshold in minutes (never below 10) sampled from the context-scaled
    /// range, the adjusted success probability, and a cooldown in minutes
    /// sampled from the configured range.
    pub fn get_proactive_parameters(&self, context: &SessionContext) -> (r: (u32, u32, u32))
        requires
            self.wf(),
            context.wf(),
        ensures
            r.1 == proactive_success_rate(self.spec_settings().behaviors, *context),
            r.1 <= RATE_ONE,
            ({
                let cfg = spec_proactive_config(self.spec_settings().behaviors);
                let lo = proactive_scaled_threshold(cfg.idle_threshold_range.0, *context);
                let hi = proactive_scaled_threshold(cfg.idle_threshold_range.1, *context);
                &&& vstd::math::max(lo, 10) <= r.0 as int
                &&& r.0 as int <= vstd::math::max(vstd::math::max(lo, hi), 10)
                &&& cfg.cooldown_range.0 <= r.2 <= cfg.cooldown_range.1
            }),
    {
        let ghost ctx = *context;
        let cfg = match &self.settings.behaviors.proactive_initiation {
            Some(c) => *c,
            None => crate::settings::ProactiveConfig::default(),
        };
        assert(cfg == spec_proactive_config(self.spec_settings().behaviors));
        // Success probability.
        let base: u64 = cfg.success_rate as u64;
        let mut success: u64 = match context.interest_level {
            Some(i) => {
                if i >= 5000 {
                    let v = base + scale10k((i - 5000) as u64, 4000);
                    if v > RATE_ONE as u64 {
                        RATE_ONE as u64
                    } else {
                        v
                    }
                } else {
                    let d = scale10k((5000 - i) as u64, 4000);
                    if base >= d {
                        base - d
                    } else {
                        0
                    }
                }
            },
            None => {
                let v = base + 1000;
                if v > RATE_ONE as u64 {
                    RATE_ONE as u64
                } else {
                    v
                }
            },
        };
        if let Some(bz) = context.busy_level {
            let d = scale10k(bz as u64, 2000);
            success = if success >= d {
                success - d
            } else {
                0
            };
        }
        if let Some(mood) = context.mood {
            match mood {
                Mood::Happy => {
                    success = success + 1000;
                    if success > RATE_ONE as u64 {
                        success = RATE_ONE as u64;
                    }
                },
                Mood::Annoyed | Mood::Tired | Mood::Busy => {
                    success = if success >= 1000 {
                        success - 1000
                    } else {
                        0
                    };
                },
                _ => {},
            }
        }
        assert(success == proactive_success_rate(self.spec_settings().behaviors, ctx));
        // Idle-threshold range, scaled by the context.
        let mut t_lo: u64 = cfg.idle_threshold_range.0 as u64;
        let mut t_hi: u64 = cfg.idle_threshold_range.1 as u64;
        assert(t_lo <= 0x0100_0000u64 && t_hi <= 0x0100_0000u64);
        if let Some(i) = context.interest_level {
            let f = 12500 - scale10k(i as u64, 5000);
            t_lo = scale10k(t_lo, f);
            t_hi = scale10k(t_hi, f);
        }
        assert(t_lo <= 0x0200_0000u64 && t_hi <= 0x0200_0000u64);
        if let Some(bz) = context.busy_level {
            let f = 10000 + scale10k(bz as u64, 5000);
            t_lo = scale10k(t_lo, f);
            t_hi = scale10k(t_hi, f);
        }
        assert(t_lo <= 0x0400_0000u64 && t_hi <= 0x0400_0000u64);
        if let Some(mood) = context.mood {
            match mood {
                Mood::Happy => {
                    t_lo = scale10k(t_lo, 8000);
                    t_hi = scale10k(t_hi, 8000);
                },
                Mood::Annoyed | Mood::Tired | Mood::Busy => {
                    t_lo = scale10k(t_lo, 12000);
                    t_hi = scale10k(t_hi, 12000);
                },
                _ => {},
            }
        }
        assert(t_lo == proactive_scaled_threshold(cfg.idle_threshold_range.0, ctx));
        assert(t_hi == proactive_scaled_threshold(cfg.idle_threshold_range.1, ctx));
        if t_lo > t_hi {
            t_hi = t_lo;
        }
        let sample = rand_in(t_lo, t_hi);
        let threshold: u32 = if sample < 10 {
            10
        } else {
            sample as u32
        };
        // Cooldown range.
        let cooldown = rand_in(cfg.cooldown_range.0 as u64, cfg.cooldown_range.1 as u64) as u32;
        (threshold, success as u32, cooldown)
    }

    /// Decide whether this reply gets the retract-and-fix treatment.
    pub fn should_trigger_typo(&self) -> (r: bool)
        requires
            self.wf(),
        ensures
            r ==> self.spec_settings().behaviors.typo_correction is Some,
            self.spec_settings().behaviors.typo_correction is None ==> !r,
            self.spec_settings().behaviors.typo_correction matches Some(c) && c.trigger_rate == 0
                ==> !r,
            self.spec_settings().behaviors.typo_correction matches Some(c) && c.trigger_rate
                >= RATE_ONE ==> r,
    {
        if let Some(cfg) = &self.settings.behaviors.typo_correction {
            roll(cfg.trigger_rate)
        } else {
            false
        }
    }
}

} // verus!
