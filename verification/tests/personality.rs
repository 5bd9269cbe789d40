use zeroclaw::personality::{
    profile_key, trait_key, PersonalityConfig, PersonalityWizard, WizardAnswer, WizardError,
    WizardStep,
};

fn run(answers: Vec<WizardAnswer>) -> Result<PersonalityConfig, WizardError> {
    let mut w = PersonalityWizard::start();
    for a in answers {
        assert!(w.accepts(&a), "answer not accepted at {:?}", w.step());
        w.answer(a);
    }
    w.finish()
}

fn text(s: &str) -> WizardAnswer {
    WizardAnswer::Text(s.to_string())
}

fn all_defaults(confirm: bool) -> Vec<WizardAnswer> {
    let mut v = vec![WizardAnswer::Selected(0)];
    for _ in 0..6 {
        v.push(text(""));
    }
    v.push(text(""));
    v.push(WizardAnswer::Confirmed(true));
    v.push(text(""));
    v.push(text(""));
    v.push(text(""));
    v.push(text(""));
    for _ in 0..4 {
        v.push(WizardAnswer::Confirmed(false));
    }
    v.push(WizardAnswer::Confirmed(confirm));
    v
}

#[test]
fn default_personality() {
    let c = PersonalityConfig::default();
    assert_eq!(c.profile, "balanced");
    assert!(c.traits.is_empty());
    assert_eq!(c.max_in_flight, 4);
    assert!(c.adaptive_enabled);
    assert_eq!(c.interactive_limit, 3);
    assert_eq!(c.background_limit, 5);
    assert_eq!(c.failure_threshold, 5);
    assert_eq!(c.cooldown_secs, 30);
    assert!(!c.parliament_enabled && !c.curiosity_enabled && !c.worldmodel_enabled && !c.mythic_enabled);
}

#[test]
fn blank_answers_keep_defaults() {
    let c = run(all_defaults(true)).unwrap();
    assert_eq!(c.profile, "balanced");
    assert!(c.traits.is_empty());
    assert_eq!(c.max_in_flight, 4);
    assert_eq!(c.failure_threshold, 5);
    assert_eq!(c.cooldown_secs, 30);
}

#[test]
fn declining_cancels() {
    assert_eq!(run(all_defaults(false)).unwrap_err(), WizardError::Cancelled);
    assert_eq!(WizardError::Cancelled.message(), "Configuration cancelled");
}

#[test]
fn answers_fill_the_settings() {
    let answers = vec![
        WizardAnswer::Selected(3),
        text("80"),
        text("101"),
        text("abc"),
        text("0"),
        text(" 50"),
        text("100"),
        text("8"),
        WizardAnswer::Confirmed(false),
        text("2"),
        text("x"),
        text("7"),
        text("45"),
        WizardAnswer::Confirmed(true),
        WizardAnswer::Confirmed(false),
        WizardAnswer::Confirmed(true),
        WizardAnswer::Confirmed(false),
        WizardAnswer::Confirmed(true),
    ];
    let c = run(answers).unwrap();
    assert_eq!(c.profile, "forensic");
    let mut traits = c.traits.clone();
    traits.sort();
    assert_eq!(traits, vec![("brevity".to_string(), 0), ("precision".to_string(), 80), ("skepticism".to_string(), 100)]);
    assert_eq!(c.max_in_flight, 8);
    assert!(!c.adaptive_enabled);
    assert_eq!(c.interactive_limit, 2);
    assert_eq!(c.background_limit, 5);
    assert_eq!(c.failure_threshold, 7);
    assert_eq!(c.cooldown_secs, 45);
    assert!(c.parliament_enabled);
    assert!(!c.curiosity_enabled);
    assert!(c.worldmodel_enabled);
    assert!(!c.mythic_enabled);
}

#[test]
fn wizard_walks_the_questions_in_order() {
    let mut w = PersonalityWizard::start();
    assert_eq!(w.step(), WizardStep::Profile);
    assert!(!w.accepts(&WizardAnswer::Selected(5)));
    assert!(!w.accepts(&text("1")));
    w.answer(WizardAnswer::Selected(1));
    assert_eq!(w.config().profile, "ops");
    for i in 0..6 {
        assert_eq!(w.step(), WizardStep::Trait(i));
        w.answer(text("50"));
    }
    assert_eq!(w.config().traits.len(), 6);
    assert_eq!(w.step(), WizardStep::MaxInFlight);
    assert_eq!(profile_key(4), "creative");
    assert_eq!(trait_key(5), "skepticism");
}
