//! Agent personality settings and the onboarding wizard's decisions.
//!
//! The wizard asks a fixed series of questions; each answer updates the
//! configuration being built, and the last question decides whether it is
//! applied.  Asking the questions and printing the summary are the
//! caller's work: it shows the question for `step()`, passes the answer to
//! `answer`, and repeats until the wizard is done.
use vstd::prelude::*;
use crate::assoc::{entries_map, insert_entry, keys_distinct};
use crate::text::{parse_u64, parse_unsigned_spec, parse_usize};

verus! {

/// Number of personality profiles offered.
pub const PROFILE_COUNT: usize = 5;

/// Number of tunable traits.
pub const TRAIT_COUNT: usize = 6;

/// Largest trait value.
pub const MAX_TRAIT_VALUE: u64 = 100;

/// Key of profile `i`.
pub open spec fn profile_key_spec(i: nat) -> Seq<char> {
    if i == 0 {
        "balanced"@
    } else if i == 1 {
        "ops"@
    } else if i == 2 {
        "mentor"@
    } else if i == 3 {
        "forensic"@
    } else {
        "creative"@
    }
}

/// Key of profile `i`.
pub fn profile_key(i: usize) -> (r: &'static str)
    requires
        i < PROFILE_COUNT,
    ensures
        r@ == profile_key_spec(i as nat),
{
    if i == 0 {
        "balanced"
    } else if i == 1 {
        "ops"
    } else if i == 2 {
        "mentor"
    } else if i == 3 {
        "forensic"
    } else {
        "creative"
    }
}

/// Menu line of profile `i`.
pub open spec fn profile_label_spec(i: nat) -> Seq<char> {
    if i == 0 {
        "Balanced - Default all-rounder"@
    } else if i == 1 {
        "Ops - Efficient, direct, action-oriented"@
    } else if i == 2 {
        "Mentor - Educational, explanatory, patient"@
    } else if i == 3 {
        "Forensic - Analytical, thorough, evidence-focused"@
    } else {
        "Creative - Imaginative, exploratory, novel approaches"@
    }
}

/// Menu line of profile `i`.
pub fn profile_label(i: usize) -> (r: &'static str)
    requires
        i < PROFILE_COUNT,
    ensures
        r@ == profile_label_spec(i as nat),
{
    if i == 0 {
        "Balanced - Default all-rounder"
    } else if i == 1 {
        "Ops - Efficient, direct, action-oriented"
    } else if i == 2 {
        "Mentor - Educational, explanatory, patient"
    } else if i == 3 {
        "Forensic - Analytical, thorough, evidence-focused"
    } else {
        "Creative - Imaginative, exploratory, novel approaches"
    }
}

/// Key of trait `i`.
pub open spec fn trait_key_spec(i: nat) -> Seq<char> {
    if i == 0 {
        "precision"@
    } else if i == 1 {
        "warmth"@
    } else if i == 2 {
        "boldness"@
    } else if i == 3 {
        "brevity"@
    } else if i == 4 {
        "curiosity"@
    } else {
        "skepticism"@
    }
}

/// Key of trait `i`.
pub fn trait_key(i: usize) -> (r: &'static str)
    requires
        i < TRAIT_COUNT,
    ensures
        r@ == trait_key_spec(i as nat),
{
    if i == 0 {
        "precision"
    } else if i == 1 {
        "warmth"
    } else if i == 2 {
        "boldness"
    } else if i == 3 {
        "brevity"
    } else if i == 4 {
        "curiosity"
    } else {
        "skepticism"
    }
}

/// Description of trait `i`, as the wizard shows it.
pub open spec fn trait_label_spec(i: nat) -> Seq<char> {
    if i == 0 {
        "Precision - Detail level vs brevity"@
    } else if i == 1 {
        "Warmth - Friendly vs clinical"@
    } else if i == 2 {
        "Boldness - Confident vs cautious"@
    } else if i == 3 {
        "Brevity - Concise vs detailed"@
    } else if i == 4 {
        "Curiosity - Questioning vs accepting"@
    } else {
        "Skepticism - Challenging vs trusting"@
    }
}

/// Description of trait `i`, as the wizard shows it.
pub fn trait_label(i: usize) -> (r: &'static str)
    requires
        i < TRAIT_COUNT,
    ensures
        r@ == trait_label_spec(i as nat),
{
    if i == 0 {
        "Precision - Detail level vs brevity"
    } else if i == 1 {
        "Warmth - Friendly vs clinical"
    } else if i == 2 {
        "Boldness - Confident vs cautious"
    } else if i == 3 {
        "Brevity - Concise vs detailed"
    } else if i == 4 {
        "Curiosity - Questioning vs accepting"
    } else {
        "Skepticism - Challenging vs trusting"
    }
}

/// An agent's personality, queue and breaker settings.
#[derive(Debug, Clone)]
pub struct PersonalityConfig {
    pub profile: String,
    /// Trait values, each trait once.
    pub traits: Vec<(String, u8)>,
    pub max_in_flight: usize,
    pub adaptive_enabled: bool,
    pub interactive_limit: usize,
    pub background_limit: usize,
    pub failure_threshold: u64,
    pub cooldown_secs: u64,
    pub parliament_enabled: bool,
    pub curiosity_enabled: bool,
    pub worldmodel_enabled: bool,
    pub mythic_enabled: bool,
}

/// The content of a `PersonalityConfig`.
pub struct PersonalityView {
    pub profile: Seq<char>,
    pub traits: Map<Seq<char>, u8>,
    pub max_in_flight: usize,
    pub adaptive_enabled: bool,
    pub interactive_limit: usize,
    pub background_limit: usize,
    pub failure_threshold: u64,
    pub cooldown_secs: u64,
    pub parliament_enabled: bool,
    pub curiosity_enabled: bool,
    pub worldmodel_enabled: bool,
    pub mythic_enabled: bool,
}

impl View for PersonalityConfig {
    type V = PersonalityView;

    open spec fn view(&self) -> PersonalityView {
        PersonalityView {
            profile: self.profile@,
            traits: entries_map(self.traits@),
            max_in_flight: self.max_in_flight,
            adaptive_enabled: self.adaptive_enabled,
            interactive_limit: self.interactive_limit,
            background_limit: self.background_limit,
            failure_threshold: self.failure_threshold,
            cooldown_secs: self.cooldown_secs,
            parliament_enabled: self.parliament_enabled,
            curiosity_enabled: self.curiosity_enabled,
            worldmodel_enabled: self.worldmodel_enabled,
            mythic_enabled: self.mythic_enabled,
        }
    }
}

/// The default settings: the balanced profile, no trait overrides, four
/// tasks in flight with adaptive concurrency, limits of three interactive
/// and five background tasks, a breaker that opens after five failures for
/// thirty seconds, and no experimental feature.
pub open spec fn default_personality() -> PersonalityView {
    PersonalityView {
        profile: "balanced"@,
        traits: Map::empty(),
        max_in_flight: 4,
        adaptive_enabled: true,
        interactive_limit: 3,
        background_limit: 5,
        failure_threshold: 5,
        cooldown_secs: 30,
        parliament_enabled: false,
        curiosity_enabled: false,
        worldmodel_enabled: false,
        mythic_enabled: false,
    }
}

impl Default for PersonalityConfig {
    fn default() -> (c: Self)
        ensures
            c@ == default_personality(),
            c.traits@.len() == 0,
    {
        let c = PersonalityConfig {
            profile: "balanced".to_owned(),
            traits: Vec::new(),
            max_in_flight: 4,
            adaptive_enabled: true,
            interactive_limit: 3,
            background_limit: 5,
            failure_threshold: 5,
            cooldown_secs: 30,
            parliament_enabled: false,
            curiosity_enabled: false,
            worldmodel_enabled: false,
            mythic_enabled: false,
        };
        assert(entries_map(c.traits@) =~= Map::<Seq<char>, u8>::empty());
        c
    }
}

/// The question the wizard asks next, or how it ended.
#[derive(Clone, Copy, Debug, PartialEq, Eq, Structural)]
pub enum WizardStep {
    /// Choose one of the profiles.
    Profile,
    /// Value of trait `i`, 0 to 100; blank keeps the profile's value.
    Trait(usize),
    /// Tasks in flight at once.
    MaxInFlight,
    /// Adaptive concurrency, yes or no.
    Adaptive,
    /// Limit on interactive tasks.
    InteractiveLimit,
    /// Limit on background tasks.
    BackgroundLimit,
    /// Failures before a provider's breaker opens.
    FailureThreshold,
    /// Seconds a breaker stays open.
    Cooldown,
    /// Agent parliament, yes or no.
    Parliament,
    /// Curiosity budget, yes or no.
    Curiosity,
    /// World-model shards, yes or no.
    WorldModel,
    /// Mythic memory, yes or no.
    Mythic,
    /// Apply the settings, yes or no.
    Confirm,
    /// The settings were applied.
    Finished,
    /// The settings were declined.
    Cancelled,
}

/// An answer to one question.
#[derive(Debug)]
pub enum WizardAnswer {
    /// The index of the chosen item.
    Selected(usize),
    /// The text typed in.
    Text(String),
    /// Yes or no.
    Confirmed(bool),
}

/// Whether `a` answers the question of step `s`.
pub open spec fn answer_fits(s: WizardStep, a: WizardAnswer) -> bool {
    match s {
        WizardStep::Profile => match a {
            WizardAnswer::Selected(i) => i < PROFILE_COUNT,
            _ => false,
        },
        WizardStep::Trait(i) => i < TRAIT_COUNT && a is Text,
        WizardStep::MaxInFlight | WizardStep::InteractiveLimit | WizardStep::BackgroundLimit
        | WizardStep::FailureThreshold | WizardStep::Cooldown => a is Text,
        WizardStep::Adaptive | WizardStep::Parliament | WizardStep::Curiosity
        | WizardStep::WorldModel | WizardStep::Mythic | WizardStep::Confirm => a is Confirmed,
        WizardStep::Finished | WizardStep::Cancelled => false,
    }
}

/// The step after `s` has been answered with `a`.
pub open spec fn step_after(s: WizardStep, a: WizardAnswer) -> WizardStep {
    match s {
        WizardStep::Profile => WizardStep::Trait(0),
        WizardStep::Trait(i) => if i + 1 < TRAIT_COUNT {
            WizardStep::Trait((i + 1) as usize)
        } else {
            WizardStep::MaxInFlight
        },
        WizardStep::MaxInFlight => WizardStep::Adaptive,
        WizardStep::Adaptive => WizardStep::InteractiveLimit,
        WizardStep::InteractiveLimit => WizardStep::BackgroundLimit,
        WizardStep::BackgroundLimit => WizardStep::FailureThreshold,
        WizardStep::FailureThreshold => WizardStep::Cooldown,
        WizardStep::Cooldown => WizardStep::Parliament,
        WizardStep::Parliament => WizardStep::Curiosity,
        WizardStep::Curiosity => WizardStep::WorldModel,
        WizardStep::WorldModel => WizardStep::Mythic,
        WizardStep::Mythic => WizardStep::Confirm,
        WizardStep::Confirm => match a {
            WizardAnswer::Confirmed(true) => WizardStep::Finished,
            _ => WizardStep::Cancelled,
        },
        WizardStep::Finished => WizardStep::Finished,
        WizardStep::Cancelled => WizardStep::Cancelled,
    }
}

/// The text of a text answer.
pub open spec fn answer_text(a: WizardAnswer) -> Seq<char> {
    match a {
        WizardAnswer::Text(t) => t@,
        _ => Seq::empty(),
    }
}

/// The choice of a yes-or-no answer.
pub open spec fn answer_yes(a: WizardAnswer) -> bool {
    match a {
        WizardAnswer::Confirmed(b) => b,
        _ => false,
    }
}

/// The index of a selection.
pub open spec fn answer_index(a: WizardAnswer) -> nat {
    match a {
        WizardAnswer::Selected(i) => i as nat,
        _ => 0,
    }
}

/// The settings after step `s` has been answered with `a`.  A number that
/// does not parse leaves the setting as it was; so does a trait value
/// above 100.
pub open spec fn apply_answer(c: PersonalityView, s: WizardStep, a: WizardAnswer) -> PersonalityView {
    let t = answer_text(a);
    match s {
        WizardStep::Profile => PersonalityView { profile: profile_key_spec(answer_index(a)), ..c },
        WizardStep::Trait(i) => match parse_unsigned_spec(t, 255) {
            Some(v) => if v <= MAX_TRAIT_VALUE {
                PersonalityView { traits: c.traits.insert(trait_key_spec(i as nat), v as u8), ..c }
            } else {
                c
            },
            None => c,
        },
        WizardStep::MaxInFlight => match parse_unsigned_spec(t, usize::MAX as nat) {
            Some(v) => PersonalityView { max_in_flight: v as usize, ..c },
            None => c,
        },
        WizardStep::InteractiveLimit => match parse_unsigned_spec(t, usize::MAX as nat) {
            Some(v) => PersonalityView { interactive_limit: v as usize, ..c },
            None => c,
        },
        WizardStep::BackgroundLimit => match parse_unsigned_spec(t, usize::MAX as nat) {
            Some(v) => PersonalityView { background_limit: v as usize, ..c },
            None => c,
        },
        WizardStep::FailureThreshold => match parse_unsigned_spec(t, u64::MAX as nat) {
            Some(v) => PersonalityView { failure_threshold: v as u64, ..c },
            None => c,
        },
        WizardStep::Cooldown => match parse_unsigned_spec(t, u64::MAX as nat) {
            Some(v) => PersonalityView { cooldown_secs: v as u64, ..c },
            None => c,
        },
        WizardStep::Adaptive => PersonalityView { adaptive_enabled: answer_yes(a), ..c },
        WizardStep::Parliament => PersonalityView { parliament_enabled: answer_yes(a), ..c },
        WizardStep::Curiosity => PersonalityView { curiosity_enabled: answer_yes(a), ..c },
        WizardStep::WorldModel => PersonalityView { worldmodel_enabled: answer_yes(a), ..c },
        WizardStep::Mythic => PersonalityView { mythic_enabled: answer_yes(a), ..c },
        WizardStep::Confirm | WizardStep::Finished | WizardStep::Cancelled => c,
    }
}

/// Why the wizard produced no settings.
#[derive(Debug, PartialEq, Eq, Structural)]
pub enum WizardError {
    /// The settings were declined at the last question.
    Cancelled,
}

impl WizardError {
    /// The text that describes the error.
    pub fn message(&self) -> (r: &'static str)
        ensures
            r@ == "Configuration cancelled"@,
    {
        "Configuration cancelled"
    }
}

/// `str::parse::<u8>`.
fn parse_u8(s: &str) -> (r: Option<u8>)
    ensures
        match parse_unsigned_spec(s@, 255) {
            Some(v) => r == Some(v as u8),
            None => r is None,
        },
{
    match parse_u64(s) {
        Some(v) => if v <= 255 {
            Some(v as u8)
        } else {
            None
        },
        None => None,
    }
}

/// The onboarding wizard: the question it is at and the settings built so
/// far.
#[derive(Debug)]
pub struct PersonalityWizard {
    step: WizardStep,
    config: PersonalityConfig,
}

impl PersonalityWizard {
    #[verifier::type_invariant]
    spec fn inv(self) -> bool {
        &&& keys_distinct(self.config.traits@)
        &&& (self.step matches WizardStep::Trait(i) ==> i < TRAIT_COUNT)
    }

    /// The question the wizard is at, or how it ended.
    pub closed spec fn current(self) -> WizardStep {
        self.step
    }

    /// The settings built so far.
    pub closed spec fn settings(self) -> PersonalityView {
        self.config@
    }

    /// A wizard at its first question, with the default settings.
    pub fn start() -> (w: Self)
        ensures
            w.current() == WizardStep::Profile,
            w.settings() == default_personality(),
    {
        PersonalityWizard { step: WizardStep::Profile, config: PersonalityConfig::default() }
    }

    /// The question the wizard is at, or how it ended.
    pub fn step(&self) -> (s: WizardStep)
        ensures
            s == self.current(),
    {
        self.step
    }

    /// The settings built so far.
    pub fn config(&self) -> (c: &PersonalityConfig)
        ensures
            c@ == self.settings(),
    {
        &self.config
    }

    /// Whether `a` answers the current question.
    pub fn accepts(&self, a: &WizardAnswer) -> (r: bool)
        ensures
            r == answer_fits(self.current(), *a),
    {
        match self.step {
            WizardStep::Profile => match a {
                WizardAnswer::Selected(i) => *i < PROFILE_COUNT,
                _ => false,
            },
            WizardStep::Trait(i) => i < TRAIT_COUNT && matches!(a, WizardAnswer::Text(_)),
            WizardStep::MaxInFlight | WizardStep::InteractiveLimit | WizardStep::BackgroundLimit
            | WizardStep::FailureThreshold | WizardStep::Cooldown => matches!(
                a,
                WizardAnswer::Text(_)
            ),
            WizardStep::Adaptive | WizardStep::Parliament | WizardStep::Curiosity
            | WizardStep::WorldModel | WizardStep::Mythic | WizardStep::Confirm => matches!(
                a,
                WizardAnswer::Confirmed(_)
            ),
            WizardStep::Finished | WizardStep::Cancelled => false,
        }
    }

    /// Takes the answer to the current question.
    pub fn answer(&mut self, a: WizardAnswer)
        requires
            answer_fits(old(self).current(), a),
        ensures
            final(self).current() == step_after(old(self).current(), a),
            final(self).settings() == apply_answer(old(self).settings(), old(self).current(), a),
    {
        proof {
            use_type_invariant(&*self);
        }
        let step = self.step;
        let ghost before = self.config@;
        let mut config = PersonalityConfig::default();
        std::mem::swap(&mut config, &mut self.config);
        let next = match step {
            WizardStep::Profile => {
                let i = match &a {
                    WizardAnswer::Selected(i) => *i,
                    _ => 0,
                };
                config.profile = profile_key(i).to_owned();
                WizardStep::Trait(0)
            },
            WizardStep::Trait(i) => {
                if let WizardAnswer::Text(t) = &a {
                    if let Some(v) = parse_u8(t.as_str()) {
                        if (v as u64) <= MAX_TRAIT_VALUE {
                            insert_entry(&mut config.traits, trait_key(i).to_owned(), v);
                        }
                    }
                }
                if i + 1 < TRAIT_COUNT {
                    WizardStep::Trait(i + 1)
                } else {
                    WizardStep::MaxInFlight
                }
            },
            WizardStep::MaxInFlight => {
                if let WizardAnswer::Text(t) = &a {
                    if let Some(v) = parse_usize(t.as_str()) {
                        config.max_in_flight = v;
                    }
                }
                WizardStep::Adaptive
            },
            WizardStep::InteractiveLimit => {
                if let WizardAnswer::Text(t) = &a {
                    if let Some(v) = parse_usize(t.as_str()) {
                        config.interactive_limit = v;
                    }
                }
                WizardStep::BackgroundLimit
            },
            WizardStep::BackgroundLimit => {
                if let WizardAnswer::Text(t) = &a {
                    if let Some(v) = parse_usize(t.as_str()) {
                        config.background_limit = v;
                    }
                }
                WizardStep::FailureThreshold
            },
            WizardStep::FailureThreshold => {
                if let WizardAnswer::Text(t) = &a {
                    if let Some(v) = parse_u64(t.as_str()) {
                        config.failure_threshold = v;
                    }
                }
                WizardStep::Cooldown
            },
            WizardStep::Cooldown => {
                if let WizardAnswer::Text(t) = &a {
                    if let Some(v) = parse_u64(t.as_str()) {
                        config.cooldown_secs = v;
                    }
                }
                WizardStep::Parliament
            },
            WizardStep::Adaptive => {
                if let WizardAnswer::Confirmed(b) = &a {
                    config.adaptive_enabled = *b;
                }
                WizardStep::InteractiveLimit
            },
            WizardStep::Parliament => {
                if let WizardAnswer::Confirmed(b) = &a {
                    config.parliament_enabled = *b;
                }
                WizardStep::Curiosity
            },
            WizardStep::Curiosity => {
                if let WizardAnswer::Confirmed(b) = &a {
                    config.curiosity_enabled = *b;
                }
                WizardStep::WorldModel
            },
            WizardStep::WorldModel => {
                if let WizardAnswer::Confirmed(b) = &a {
                    config.worldmodel_enabled = *b;
                }
                WizardStep::Mythic
            },
            WizardStep::Mythic => {
                if let WizardAnswer::Confirmed(b) = &a {
                    config.mythic_enabled = *b;
                }
                WizardStep::Confirm
            },
            WizardStep::Confirm => {
                match &a {
                    WizardAnswer::Confirmed(true) => WizardStep::Finished,
                    _ => WizardStep::Cancelled,
                }
            },
            WizardStep::Finished => WizardStep::Finished,
            WizardStep::Cancelled => WizardStep::Cancelled,
        };
        assert(config@ == apply_answer(before, step, a));
        self.config = config;
        self.step = next;
    }

    /// The settings, once the wizard has ended: applied when the last
    /// question was answered yes, cancelled otherwise.
    pub fn finish(self) -> (r: Result<PersonalityConfig, WizardError>)
        requires
            self.current() == WizardStep::Finished || self.current() == WizardStep::Cancelled,
        ensures
            self.current() == WizardStep::Finished ==> (r matches Ok(c) && c@ == self.settings()),
            self.current() == WizardStep::Cancelled ==> r == Err::<PersonalityConfig, WizardError>(
                WizardError::Cancelled,
            ),
    {
        match self.step {
            WizardStep::Finished => Ok(self.config),
            _ => Err(WizardError::Cancelled),
        }
    }
}

/// Trait values stay within 0 to 100, and only the six trait keys occur.
pub open spec fn traits_well_formed(traits: Map<Seq<char>, u8>) -> bool {
    forall|k: Seq<char>|
        #[trigger] traits.contains_key(k) ==> traits[k] <= MAX_TRAIT_VALUE && exists|i: nat|
            i < TRAIT_COUNT && k == #[trigger] trait_key_spec(i)
}

/// No answer puts a trait value above 100 or an unknown trait into the
/// settings.
pub proof fn law_traits_stay_in_range(c: PersonalityView, s: WizardStep, a: WizardAnswer)
    requires
        traits_well_formed(c.traits),
        answer_fits(s, a),
    ensures
        traits_well_formed(apply_answer(c, s, a).traits),
{
    let r = apply_answer(c, s, a);
    if let WizardStep::Trait(i) = s {
        assert forall|k: Seq<char>| #[trigger] r.traits.contains_key(k) implies r.traits[k]
            <= MAX_TRAIT_VALUE && exists|j: nat|
            j < TRAIT_COUNT && k == #[trigger] trait_key_spec(j) by {
            if k == trait_key_spec(i as nat) {
                assert(trait_key_spec(i as nat) == k);
            }
        }
    }
}

/// A blank answer to a question that asks for a number leaves the settings
/// as they were.
pub proof fn law_blank_keeps_setting(c: PersonalityView, s: WizardStep, a: WizardAnswer)
    requires
        a is Text,
        answer_fits(s, a),
        answer_text(a).len() == 0,
    ensures
        apply_answer(c, s, a) == c,
{
}

/// The position of a step in the series of questions; the two ends come
/// last.
pub open spec fn step_index(s: WizardStep) -> nat {
    match s {
        WizardStep::Profile => 0,
        WizardStep::Trait(i) => 1 + i as nat,
        WizardStep::MaxInFlight => 7,
        WizardStep::Adaptive => 8,
        WizardStep::InteractiveLimit => 9,
        WizardStep::BackgroundLimit => 10,
        WizardStep::FailureThreshold => 11,
        WizardStep::Cooldown => 12,
        WizardStep::Parliament => 13,
        WizardStep::Curiosity => 14,
        WizardStep::WorldModel => 15,
        WizardStep::Mythic => 16,
        WizardStep::Confirm => 17,
        WizardStep::Finished | WizardStep::Cancelled => 18,
    }
}

/// Every accepted answer moves the wizard one question on, so it ends
/// after eighteen answers; it ends applied exactly when the last answer is
/// yes.
pub proof fn law_wizard_progress(s: WizardStep, a: WizardAnswer)
    requires
        answer_fits(s, a),
    ensures
        step_index(step_after(s, a)) == step_index(s) + 1,
        step_index(s) < 18,
        step_index(step_after(s, a)) == 18 <==> (step_after(s, a) == WizardStep::Finished
            || step_after(s, a) == WizardStep::Cancelled),
        s == WizardStep::Confirm ==> (step_after(s, a) == WizardStep::Finished <==> answer_yes(a)),
{
}

/// `a` and `b` agree on every setting that step `s` does not ask about.
pub open spec fn agree_outside_step(a: PersonalityView, b: PersonalityView, s: WizardStep) -> bool {
    &&& (s != WizardStep::Profile ==> a.profile == b.profile)
    &&& (!(s is Trait) ==> a.traits == b.traits)
    &&& (s != WizardStep::MaxInFlight ==> a.max_in_flight == b.max_in_flight)
    &&& (s != WizardStep::Adaptive ==> a.adaptive_enabled == b.adaptive_enabled)
    &&& (s != WizardStep::InteractiveLimit ==> a.interactive_limit == b.interactive_limit)
    &&& (s != WizardStep::BackgroundLimit ==> a.background_limit == b.background_limit)
    &&& (s != WizardStep::FailureThreshold ==> a.failure_threshold == b.failure_threshold)
    &&& (s != WizardStep::Cooldown ==> a.cooldown_secs == b.cooldown_secs)
    &&& (s != WizardStep::Parliament ==> a.parliament_enabled == b.parliament_enabled)
    &&& (s != WizardStep::Curiosity ==> a.curiosity_enabled == b.curiosity_enabled)
    &&& (s != WizardStep::WorldModel ==> a.worldmodel_enabled == b.worldmodel_enabled)
    &&& (s != WizardStep::Mythic ==> a.mythic_enabled == b.mythic_enabled)
}

/// The number a text answer gives for a setting whose largest value is
/// `max`, or `old` when the text is not such a number.
pub open spec fn number_or(t: Seq<char>, max: nat, old: nat) -> nat {
    match parse_unsigned_spec(t, max) {
        Some(v) => v,
        None => old,
    }
}

/// Each answer writes only the setting its question asks about: the chosen
/// profile's key; the trait's value when the text is a number up to 100;
/// the parsed number for a numeric question (the old value when the text is
/// not a number); the yes-or-no choice for a switch.  The last question
/// writes nothing.
pub proof fn law_answer_writes_its_setting(c: PersonalityView, s: WizardStep, a: WizardAnswer)
    requires
        answer_fits(s, a),
    ensures
        agree_outside_step(c, apply_answer(c, s, a), s),
        s == WizardStep::Profile ==> apply_answer(c, s, a).profile == profile_key_spec(
            answer_index(a),
        ),
        s matches WizardStep::Trait(i) ==> apply_answer(c, s, a).traits == (match parse_unsigned_spec(
            answer_text(a),
            255,
        ) {
            Some(v) => if v <= MAX_TRAIT_VALUE {
                c.traits.insert(trait_key_spec(i as nat), v as u8)
            } else {
                c.traits
            },
            None => c.traits,
        }),
        s == WizardStep::MaxInFlight ==> apply_answer(c, s, a).max_in_flight == number_or(
            answer_text(a),
            usize::MAX as nat,
            c.max_in_flight as nat,
        ),
        s == WizardStep::InteractiveLimit ==> apply_answer(c, s, a).interactive_limit == number_or(
            answer_text(a),
            usize::MAX as nat,
            c.interactive_limit as nat,
        ),
        s == WizardStep::BackgroundLimit ==> apply_answer(c, s, a).background_limit == number_or(
            answer_text(a),
            usize::MAX as nat,
            c.background_limit as nat,
        ),
        s == WizardStep::FailureThreshold ==> apply_answer(c, s, a).failure_threshold == number_or(
            answer_text(a),
            u64::MAX as nat,
            c.failure_threshold as nat,
        ),
        s == WizardStep::Cooldown ==> apply_answer(c, s, a).cooldown_secs == number_or(
            answer_text(a),
            u64::MAX as nat,
            c.cooldown_secs as nat,
        ),
        s == WizardStep::Adaptive ==> apply_answer(c, s, a).adaptive_enabled == answer_yes(a),
        s == WizardStep::Parliament ==> apply_answer(c, s, a).parliament_enabled == answer_yes(a),
        s == WizardStep::Curiosity ==> apply_answer(c, s, a).curiosity_enabled == answer_yes(a),
        s == WizardStep::WorldModel ==> apply_answer(c, s, a).worldmodel_enabled == answer_yes(a),
        s == WizardStep::Mythic ==> apply_answer(c, s, a).mythic_enabled == answer_yes(a),
        s == WizardStep::Confirm ==> apply_answer(c, s, a) == c,
{
}

} // verus!
