//! The busy spinner: its glyph frames per platform, the verb shown for a turn, and
//! how the streamed-character counter catches up with the real output.

use vstd::prelude::*;
use crate::text::chars_of;
use std::collections::hash_map::DefaultHasher;
use std::hash::{BuildHasher, BuildHasherDefault};

verus! {

/// Milliseconds per spinner frame.
pub const SPINNER_FRAME_MS: u64 = 120;

/// Milliseconds per step of the character counter.
pub const SPINNER_TICK_MS: u64 = 50;

/// How long a reasoning phase is shown as "thinking" at least.
pub const SPINNER_THINKING_MIN_MS: u64 = 2_000;

/// How long "thought for …" stays after thinking ends.
pub const SPINNER_THOUGHT_HOLD_MS: u64 = 2_000;

/// Which glyph set the terminal gets.
#[derive(Debug, Clone, Copy, PartialEq, Eq, Structural)]
pub enum SpinnerPlatform {
    Macos,
    WindowsLinux,
    Ghostty,
}

pub open spec fn ghostty_term() -> Seq<char> {
    seq!['x', 't', 'e', 'r', 'm', '-', 'g', 'h', 'o', 's', 't', 't', 'y']
}

/// Ghostty (by `TERM`) first, then macOS, then everything else.
pub open spec fn spec_spinner_platform_for(term: Option<Seq<char>>, is_macos: bool) -> SpinnerPlatform {
    if term == Some(ghostty_term()) {
        SpinnerPlatform::Ghostty
    } else if is_macos {
        SpinnerPlatform::Macos
    } else {
        SpinnerPlatform::WindowsLinux
    }
}

pub open spec fn opt_view(term: Option<&str>) -> Option<Seq<char>> {
    match term {
        Some(t) => Some(t@),
        None => None,
    }
}

/// The spinner platform for a `TERM` value and host.
pub fn spinner_platform_for(term: Option<&str>, is_macos: bool) -> (p: SpinnerPlatform)
    ensures
        p == spec_spinner_platform_for(opt_view(term), is_macos),
{
    let is_ghostty = match term {
        Some(t) => {
            let cs = chars_of(t);
            let ghostty = vec!['x', 't', 'e', 'r', 'm', '-', 'g', 'h', 'o', 's', 't', 't', 'y'];
            crate::text::chars_equal(cs.as_slice(), ghostty.as_slice())
        },
        None => false,
    };
    if is_ghostty {
        SpinnerPlatform::Ghostty
    } else if is_macos {
        SpinnerPlatform::Macos
    } else {
        SpinnerPlatform::WindowsLinux
    }
}

/// The six base glyphs of a platform.
pub open spec fn base_frames(platform: SpinnerPlatform) -> Seq<&'static str> {
    match platform {
        SpinnerPlatform::Macos => seq!["·", "✢", "✳", "✶", "✻", "✽"],
        SpinnerPlatform::WindowsLinux => seq!["·", "✢", "*", "✶", "✻", "✽"],
        SpinnerPlatform::Ghostty => seq!["·", "✢", "✳", "✶", "✻", "*"],
    }
}

/// The twelve frames: the six base glyphs, then the same six backwards.
pub open spec fn spec_spinner_frames(platform: SpinnerPlatform) -> Seq<&'static str> {
    base_frames(platform) + base_frames(platform).reverse()
}

/// The spinner's frames for `platform`.
pub fn spinner_frames(platform: SpinnerPlatform) -> (frames: [&'static str; 12])
    ensures
        frames@ == spec_spinner_frames(platform),
{
    let base: [&'static str; 6] = match platform {
        SpinnerPlatform::Macos => ["·", "✢", "✳", "✶", "✻", "✽"],
        SpinnerPlatform::WindowsLinux => ["·", "✢", "*", "✶", "✻", "✽"],
        SpinnerPlatform::Ghostty => ["·", "✢", "✳", "✶", "✻", "*"],
    };
    assert(base@ =~= base_frames(platform));
    let frames: [&'static str; 12] = [
        base[0], base[1], base[2], base[3], base[4], base[5],
        base[5], base[4], base[3], base[2], base[1], base[0],
    ];
    assert(frames@ =~= spec_spinner_frames(platform));
    frames
}

/// The built-in spinner verbs.
pub open spec fn spec_builtin_spinner_verbs() -> Seq<&'static str> {
    seq![
        "Accomplishing", "Actioning", "Actualizing", "Architecting", "Baking", "Beaming", "Beboppin'", 
        "Befuddling", "Billowing", "Blanching", "Bloviating", "Boogieing", "Boondoggling", "Booping", 
        "Bootstrapping", "Brewing", "Bunning", "Burrowing", "Calculating", "Canoodling", 
        "Caramelizing", "Cascading", "Catapulting", "Cerebrating", "Channeling", "Channelling", 
        "Choreographing", "Churning", "Clauding", "Coalescing", "Cogitating", "Combobulating", 
        "Composing", "Computing", "Concocting", "Considering", "Contemplating", "Cooking", "Crafting", 
        "Creating", "Crunching", "Crystallizing", "Cultivating", "Deciphering", "Deliberating", 
        "Determining", "Dilly-dallying", "Discombobulating", "Doing", "Doodling", "Drizzling", 
        "Ebbing", "Effecting", "Elucidating", "Embellishing", "Enchanting", "Envisioning", 
        "Evaporating", "Fermenting", "Fiddle-faddling", "Finagling", "Flambéing", 
        "Flibbertigibbeting", "Flowing", "Flummoxing", "Fluttering", "Forging", "Forming", 
        "Frolicking", "Frosting", "Gallivanting", "Galloping", "Garnishing", "Generating", 
        "Gesticulating", "Germinating", "Gitifying", "Grooving", "Gusting", "Harmonizing", "Hashing", 
        "Hatching", "Herding", "Honking", "Hullaballooing", "Hyperspacing", "Ideating", "Imagining", 
        "Improvising", "Incubating", "Inferring", "Infusing", "Ionizing", "Jitterbugging", 
        "Julienning", "Kneading", "Leavening", "Levitating", "Lollygagging", "Manifesting", 
        "Marinating", "Meandering", "Metamorphosing", "Misting", "Moonwalking", "Moseying", "Mulling", 
        "Mustering", "Musing", "Nebulizing", "Nesting", "Newspapering", "Noodling", "Nucleating", 
        "Orbiting", "Orchestrating", "Osmosing", "Perambulating", "Percolating", "Perusing", 
        "Philosophising", "Photosynthesizing", "Pollinating", "Pondering", "Pontificating", "Pouncing", 
        "Precipitating", "Prestidigitating", "Processing", "Proofing", "Propagating", "Puttering", 
        "Puzzling", "Quantumizing", "Razzle-dazzling", "Razzmatazzing", "Recombobulating", 
        "Reticulating", "Roosting", "Ruminating", "Sautéing", "Scampering", "Schlepping", "Scurrying", 
        "Seasoning", "Shenaniganing", "Shimmying", "Simmering", "Skedaddling", "Sketching", 
        "Slithering", "Smooshing", "Sock-hopping", "Spelunking", "Spinning", "Sprouting", "Stewing", 
        "Sublimating", "Swirling", "Swooping", "Symbioting", "Synthesizing", "Tempering", "Thinking", 
        "Thundering", "Tinkering", "Tomfoolering", "Topsy-turvying", "Transfiguring", "Transmuting", 
        "Twisting", "Undulating", "Unfurling", "Unravelling", "Vibing", "Waddling", "Wandering", 
        "Warping", "Whatchamacalliting", "Whirlpooling", "Whirring", "Whisking", "Wibbling", "Working", 
        "Wrangling", "Zesting", "Zigzagging",
    ]
}

/// The built-in spinner verbs, in order.
pub fn builtin_spinner_verbs() -> (verbs: [&'static str; 187])
    ensures
        verbs@ == spec_builtin_spinner_verbs(),
{
    let verbs = [
        "Accomplishing", "Actioning", "Actualizing", "Architecting", "Baking", "Beaming", "Beboppin'", 
        "Befuddling", "Billowing", "Blanching", "Bloviating", "Boogieing", "Boondoggling", "Booping", 
        "Bootstrapping", "Brewing", "Bunning", "Burrowing", "Calculating", "Canoodling", 
        "Caramelizing", "Cascading", "Catapulting", "Cerebrating", "Channeling", "Channelling", 
        "Choreographing", "Churning", "Clauding", "Coalescing", "Cogitating", "Combobulating", 
        "Composing", "Computing", "Concocting", "Considering", "Contemplating", "Cooking", "Crafting", 
        "Creating", "Crunching", "Crystallizing", "Cultivating", "Deciphering", "Deliberating", 
        "Determining", "Dilly-dallying", "Discombobulating", "Doing", "Doodling", "Drizzling", 
        "Ebbing", "Effecting", "Elucidating", "Embellishing", "Enchanting", "Envisioning", 
        "Evaporating", "Fermenting", "Fiddle-faddling", "Finagling", "Flambéing", 
        "Flibbertigibbeting", "Flowing", "Flummoxing", "Fluttering", "Forging", "Forming", 
        "Frolicking", "Frosting", "Gallivanting", "Galloping", "Garnishing", "Generating", 
        "Gesticulating", "Germinating", "Gitifying", "Grooving", "Gusting", "Harmonizing", "Hashing", 
        "Hatching", "Herding", "Honking", "Hullaballooing", "Hyperspacing", "Ideating", "Imagining", 
        "Improvising", "Incubating", "Inferring", "Infusing", "Ionizing", "Jitterbugging", 
        "Julienning", "Kneading", "Leavening", "Levitating", "Lollygagging", "Manifesting", 
        "Marinating", "Meandering", "Metamorphosing", "Misting", "Moonwalking", "Moseying", "Mulling", 
        "Mustering", "Musing", "Nebulizing", "Nesting", "Newspapering", "Noodling", "Nucleating", 
        "Orbiting", "Orchestrating", "Osmosing", "Perambulating", "Percolating", "Perusing", 
        "Philosophising", "Photosynthesizing", "Pollinating", "Pondering", "Pontificating", "Pouncing", 
        "Precipitating", "Prestidigitating", "Processing", "Proofing", "Propagating", "Puttering", 
        "Puzzling", "Quantumizing", "Razzle-dazzling", "Razzmatazzing", "Recombobulating", 
        "Reticulating", "Roosting", "Ruminating", "Sautéing", "Scampering", "Schlepping", "Scurrying", 
        "Seasoning", "Shenaniganing", "Shimmying", "Simmering", "Skedaddling", "Sketching", 
        "Slithering", "Smooshing", "Sock-hopping", "Spelunking", "Spinning", "Sprouting", "Stewing", 
        "Sublimating", "Swirling", "Swooping", "Symbioting", "Synthesizing", "Tempering", "Thinking", 
        "Thundering", "Tinkering", "Tomfoolering", "Topsy-turvying", "Transfiguring", "Transmuting", 
        "Twisting", "Undulating", "Unfurling", "Unravelling", "Vibing", "Waddling", "Wandering", 
        "Warping", "Whatchamacalliting", "Whirlpooling", "Whirring", "Whisking", "Wibbling", "Working", 
        "Wrangling", "Zesting", "Zigzagging",
    ];
    assert(verbs@ =~= spec_builtin_spinner_verbs());
    verbs
}

/// Hashes `(turn, prompt)` with a fresh `DefaultHasher` (`BuildHasher::hash_one` on
/// `BuildHasherDefault<DefaultHasher>`, which hashes the turn, then the prompt,
/// then finishes). Nothing is stated of the value: the standard library leaves the
/// hasher's algorithm open between releases, and the turn is hashed by its
/// native-endian bytes, so the value differs from machine to machine.
#[verifier::external_body]
fn hash_turn_and_prompt(turn: u64, prompt: &str) -> u64 {
    BuildHasherDefault::<DefaultHasher>::default().hash_one((turn, prompt))
}

/// The built-in verb a hash value picks: the value (as a `usize`) modulo the
/// number of verbs.
pub open spec fn spec_verb_for_hash(hash: u64) -> &'static str {
    spec_builtin_spinner_verbs()[((hash as usize) % 187) as int]
}

/// The built-in verb the hash value `hash` picks.
pub fn verb_for_hash(hash: u64) -> (verb: &'static str)
    ensures
        verb == spec_verb_for_hash(hash),
{
    let verbs = builtin_spinner_verbs();
    let index = (hash as usize) % 187;
    verbs[index]
}

/// The built-in verb for `turn` and `prompt`: the one the hash of the pair picks.
/// Which one that is rests on the hasher, so the contract says only that it is
/// one of the built-in verbs.
pub fn builtin_spinner_verb(turn: u64, prompt: &str) -> (verb: &'static str)
    ensures
        exists|i: int| 0 <= i < 187 && verb == #[trigger] spec_builtin_spinner_verbs()[i],
{
    let hash = hash_turn_and_prompt(turn, prompt);
    let verb = verb_for_hash(hash);
    assert(verb == spec_builtin_spinner_verbs()[((hash as usize) % 187) as int]);
    verb
}

/// The spinner's counters for the current turn.
#[derive(Debug, Clone, Copy, PartialEq, Eq, Default)]
pub struct SpinnerClock {
    pub active: bool,
    pub started_at_ms: u64,
    pub assistant_characters: usize,
    pub last_output_at_ms: u64,
    pub reasoning_started_at_ms: Option<u64>,
    pub thinking_until_ms: Option<u64>,
    pub thought_until_ms: Option<u64>,
    pub thought_duration_ms: u64,
    pub displayed_characters: usize,
    pub last_advance_at_ms: u64,
}

/// How many characters one tick reveals for a remaining `gap`: three while under 70,
/// 15% (at least eight) while under 200, fifty beyond.
pub open spec fn tick_increment(gap: int) -> int {
    if gap < 70 {
        3
    } else if gap < 200 {
        let fifteen_percent = (gap * 15 + 99) / 100;
        if fifteen_percent < 8 {
            8
        } else {
            fifteen_percent
        }
    } else {
        50
    }
}

/// The counter after `ticks` steps towards `target`, each step revealing
/// `tick_increment` of the remaining gap and never passing the target.
pub open spec fn reveal_ticks(displayed: int, target: int, ticks: int) -> int
    decreases ticks,
{
    if ticks <= 0 || displayed >= target {
        displayed
    } else {
        let next = displayed + tick_increment(target - displayed);
        reveal_ticks(if next > target {
            target
        } else {
            next
        }, target, ticks - 1)
    }
}

/// The whole number of ticks between two instants, at most 128.
pub open spec fn tick_count(from_ms: int, to_ms: int) -> int {
    let ticks = (to_ms - from_ms) / (SPINNER_TICK_MS as int);
    if ticks > 128 {
        128
    } else {
        ticks
    }
}

/// The clock after an animation frame at `now_ms`: nothing while hidden; during tool
/// use the output clock is kept current; the character counter then catches up tick
/// by tick (at once under reduced motion).
pub open spec fn spec_advance(s: SpinnerClock, visible: bool, tool_use: bool, reduced_motion: bool, now_ms: u64) -> SpinnerClock {
    if !visible {
        s
    } else {
        let s1 = if tool_use {
            SpinnerClock { last_output_at_ms: now_ms, ..s }
        } else {
            s
        };
        if now_ms <= s1.last_advance_at_ms {
            s1
        } else if reduced_motion {
            SpinnerClock {
                displayed_characters: s1.assistant_characters,
                last_advance_at_ms: now_ms,
                ..s1
            }
        } else {
            SpinnerClock {
                displayed_characters: reveal_ticks(
                    s1.displayed_characters as int,
                    s1.assistant_characters as int,
                    tick_count(s1.last_advance_at_ms as int, now_ms as int),
                ) as usize,
                last_advance_at_ms: now_ms,
                ..s1
            }
        }
    }
}

proof fn lemma_reveal_ticks_bounds(displayed: int, target: int, ticks: int)
    requires
        0 <= displayed,
    ensures
        displayed <= reveal_ticks(displayed, target, ticks),
        displayed <= target ==> reveal_ticks(displayed, target, ticks) <= target,
    decreases ticks,
{
    if ticks > 0 && displayed < target {
        let next = displayed + tick_increment(target - displayed);
        let clipped = if next > target {
            target
        } else {
            next
        };
        lemma_reveal_ticks_bounds(clipped, target, ticks - 1);
    }
}

impl SpinnerClock {
    /// A new turn starting at `now_ms`.
    pub fn started(now_ms: u64) -> (s: Self)
        ensures
            s == (SpinnerClock {
                active: true,
                started_at_ms: now_ms,
                last_output_at_ms: now_ms,
                last_advance_at_ms: now_ms,
                ..SpinnerClock::spec_default()
            }),
    {
        SpinnerClock {
            active: true,
            started_at_ms: now_ms,
            assistant_characters: 0,
            last_output_at_ms: now_ms,
            reasoning_started_at_ms: None,
            thinking_until_ms: None,
            thought_until_ms: None,
            thought_duration_ms: 0,
            displayed_characters: 0,
            last_advance_at_ms: now_ms,
        }
    }

    /// The idle clock.
    pub open spec fn spec_default() -> Self {
        SpinnerClock {
            active: false,
            started_at_ms: 0,
            assistant_characters: 0,
            last_output_at_ms: 0,
            reasoning_started_at_ms: None,
            thinking_until_ms: None,
            thought_until_ms: None,
            thought_duration_ms: 0,
            displayed_characters: 0,
            last_advance_at_ms: 0,
        }
    }

    /// The idle clock, as between turns.
    pub fn idle() -> (s: Self)
        ensures
            s == SpinnerClock::spec_default(),
    {
        SpinnerClock {
            active: false,
            started_at_ms: 0,
            assistant_characters: 0,
            last_output_at_ms: 0,
            reasoning_started_at_ms: None,
            thinking_until_ms: None,
            thought_until_ms: None,
            thought_duration_ms: 0,
            displayed_characters: 0,
            last_advance_at_ms: 0,
        }
    }

    /// Milliseconds since the turn started.
    pub fn elapsed_ms(&self, now_ms: u64) -> (e: u64)
        ensures
            e == if now_ms >= self.started_at_ms {
                now_ms - self.started_at_ms
            } else {
                0
            },
    {
        now_ms.saturating_sub(self.started_at_ms)
    }

    /// Assistant output of `utf16_units` UTF-16 code units arrived at `now_ms`.
    pub fn note_assistant_output(&mut self, utf16_units: usize, now_ms: u64, reduced_motion: bool)
        requires
            old(self).assistant_characters + utf16_units <= usize::MAX,
        ensures
            !old(self).active || utf16_units == 0 ==> *final(self) == *old(self),
            old(self).active && utf16_units > 0 ==> *final(self) == (SpinnerClock {
                assistant_characters: (old(self).assistant_characters + utf16_units) as usize,
                last_output_at_ms: now_ms,
                displayed_characters: if reduced_motion {
                    (old(self).assistant_characters + utf16_units) as usize
                } else {
                    old(self).displayed_characters
                },
                ..*old(self)
            }),
    {
        if !self.active || utf16_units == 0 {
            return;
        }
        self.assistant_characters += utf16_units;
        self.last_output_at_ms = now_ms;
        if reduced_motion {
            self.displayed_characters = self.assistant_characters;
        }
    }

    /// Reasoning began at `now_ms`; only the first start of a turn counts.
    pub fn note_reasoning_started(&mut self, now_ms: u64)
        ensures
            *final(self) == if old(self).active && old(self).reasoning_started_at_ms is None {
                SpinnerClock { reasoning_started_at_ms: Some(now_ms), ..*old(self) }
            } else {
                *old(self)
            },
    {
        if self.active && self.reasoning_started_at_ms.is_none() {
            self.reasoning_started_at_ms = Some(now_ms);
        }
    }

    /// Reasoning ended at `now_ms`: "thinking" lasts at least two seconds from its
    /// start, then "thought for …" holds two seconds more.
    pub fn note_reasoning_finished(&mut self, now_ms: u64)
        requires
            old(self).reasoning_started_at_ms matches Some(started) ==> ({
                let until = if now_ms >= started + SPINNER_THINKING_MIN_MS || started + SPINNER_THINKING_MIN_MS > u64::MAX {
                    if started + SPINNER_THINKING_MIN_MS > u64::MAX && now_ms < u64::MAX {
                        u64::MAX as int
                    } else {
                        now_ms as int
                    }
                } else {
                    started + SPINNER_THINKING_MIN_MS
                };
                until + SPINNER_THOUGHT_HOLD_MS <= u64::MAX
            }),
        ensures
            old(self).reasoning_started_at_ms is None ==> *final(self) == *old(self),
            old(self).reasoning_started_at_ms matches Some(started) ==> ({
                let min_end = if started + SPINNER_THINKING_MIN_MS > u64::MAX {
                    u64::MAX as int
                } else {
                    started + SPINNER_THINKING_MIN_MS
                };
                let until = if now_ms >= min_end {
                    now_ms as int
                } else {
                    min_end
                };
                *final(self) == SpinnerClock {
                    reasoning_started_at_ms: None,
                    thinking_until_ms: Some(until as u64),
                    thought_until_ms: Some((until + SPINNER_THOUGHT_HOLD_MS) as u64),
                    thought_duration_ms: if now_ms >= started {
                        (now_ms - started) as u64
                    } else {
                        0
                    },
                    ..*old(self)
                }
            }),
    {
        let started_at_ms = match self.reasoning_started_at_ms {
            Some(started) => started,
            None => {
                return;
            },
        };
        self.reasoning_started_at_ms = None;
        let duration = now_ms.saturating_sub(started_at_ms);
        let min_end = started_at_ms.saturating_add(SPINNER_THINKING_MIN_MS);
        let thinking_until_ms = if now_ms >= min_end {
            now_ms
        } else {
            min_end
        };
        self.thinking_until_ms = Some(thinking_until_ms);
        self.thought_until_ms = Some(thinking_until_ms + SPINNER_THOUGHT_HOLD_MS);
        self.thought_duration_ms = duration;
    }

    /// One animation frame at `now_ms` (see `spec_advance`).
    pub fn advance(&mut self, visible: bool, tool_use: bool, reduced_motion: bool, now_ms: u64)
        ensures
            *final(self) == spec_advance(*old(self), visible, tool_use, reduced_motion, now_ms),
    {
        if !visible {
            return;
        }
        if tool_use {
            self.last_output_at_ms = now_ms;
        }
        if now_ms <= self.last_advance_at_ms {
            return;
        }
        let target_characters = self.assistant_characters;
        if reduced_motion {
            self.displayed_characters = target_characters;
            self.last_advance_at_ms = now_ms;
            return;
        }
        let raw_ticks = (now_ms - self.last_advance_at_ms) / SPINNER_TICK_MS;
        let ticks: u64 = if raw_ticks > 128 {
            128
        } else {
            raw_ticks
        };
        let ghost start = self.displayed_characters as int;
        let mut done: u64 = 0;
        let mut displayed = self.displayed_characters;
        while done < ticks
            invariant
                done <= ticks,
                reveal_ticks(displayed as int, target_characters as int, (ticks - done) as int)
                    == reveal_ticks(start, target_characters as int, ticks as int),
            ensures
                displayed as int == reveal_ticks(start, target_characters as int, ticks as int),
            decreases ticks - done,
        {
            if displayed >= target_characters {
                break;
            }
            let gap = target_characters - displayed;
            let increment: usize = if gap < 70 {
                3
            } else if gap < 200 {
                let fifteen_percent = (gap * 15 + 99) / 100;
                if fifteen_percent < 8 {
                    8
                } else {
                    fifteen_percent
                }
            } else {
                50
            };
            let next = displayed.saturating_add(increment);
            displayed = if next > target_characters {
                target_characters
            } else {
                next
            };
            done += 1;
        }
        self.displayed_characters = displayed;
        self.last_advance_at_ms = now_ms;
    }
}

} // verus!
verus! {

/// Each platform's twelve frames read the same forwards and backwards, so the
/// animation sweeps out and back and shows each end glyph twice.
pub proof fn law_frames_are_a_palindrome(platform: SpinnerPlatform, i: int)
    requires
        0 <= i < 12,
    ensures
        spec_spinner_frames(platform).len() == 12,
        spec_spinner_frames(platform)[i] == spec_spinner_frames(platform)[11 - i],
{
}

/// The revealed-character counter never runs backwards and never passes the number
/// of characters really received.
pub proof fn law_counter_catches_up_monotonically(
    s: SpinnerClock,
    visible: bool,
    tool_use: bool,
    reduced_motion: bool,
    now_ms: u64,
)
    requires
        s.displayed_characters <= s.assistant_characters,
    ensures
        s.displayed_characters <= spec_advance(s, visible, tool_use, reduced_motion, now_ms).displayed_characters,
        spec_advance(s, visible, tool_use, reduced_motion, now_ms).displayed_characters
            <= s.assistant_characters,
{
    lemma_reveal_ticks_bounds(
        s.displayed_characters as int,
        s.assistant_characters as int,
        tick_count(s.last_advance_at_ms as int, now_ms as int),
    );
}

/// Under reduced motion every shown frame after the clock moved reveals everything.
pub proof fn law_reduced_motion_reveals_everything(s: SpinnerClock, tool_use: bool, now_ms: u64)
    requires
        now_ms > s.last_advance_at_ms,
    ensures
        spec_advance(s, true, tool_use, true, now_ms).displayed_characters == s.assistant_characters,
{
}

} // verus!
