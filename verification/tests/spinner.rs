use picopilot::spinner::{
    builtin_spinner_verb, builtin_spinner_verbs, spinner_frames, spinner_platform_for,
    verb_for_hash, SpinnerClock, SpinnerPlatform,
};

#[test]
fn spinner_frames_match_each_platform_and_double_the_endpoints() {
    assert_eq!(
        spinner_frames(SpinnerPlatform::Macos),
        ["·", "✢", "✳", "✶", "✻", "✽", "✽", "✻", "✶", "✳", "✢", "·"]
    );
    assert_eq!(
        spinner_frames(SpinnerPlatform::WindowsLinux),
        ["·", "✢", "*", "✶", "✻", "✽", "✽", "✻", "✶", "*", "✢", "·"]
    );
    assert_eq!(
        spinner_frames(SpinnerPlatform::Ghostty),
        ["·", "✢", "✳", "✶", "✻", "*", "*", "✻", "✶", "✳", "✢", "·"]
    );
    assert_eq!(
        spinner_platform_for(Some("xterm-ghostty"), true),
        SpinnerPlatform::Ghostty
    );
    assert_eq!(
        spinner_platform_for(Some("xterm-256color"), true),
        SpinnerPlatform::Macos
    );
    assert_eq!(
        spinner_platform_for(Some("xterm-256color"), false),
        SpinnerPlatform::WindowsLinux
    );
}

#[test]
fn frames_read_the_same_backwards() {
    for platform in [
        SpinnerPlatform::Macos,
        SpinnerPlatform::WindowsLinux,
        SpinnerPlatform::Ghostty,
    ] {
        let frames = spinner_frames(platform);
        for i in 0..12 {
            assert_eq!(frames[i], frames[11 - i]);
        }
    }
    assert_eq!(spinner_platform_for(None, false), SpinnerPlatform::WindowsLinux);
    assert_eq!(spinner_platform_for(None, true), SpinnerPlatform::Macos);
}

#[test]
fn builtin_verbs_are_stable_for_a_turn_and_come_from_the_list() {
    let first = builtin_spinner_verb(1, "inspect");
    assert_eq!(first, builtin_spinner_verb(1, "inspect"));
    assert!(builtin_spinner_verbs().contains(&first));
    assert_eq!(builtin_spinner_verbs().len(), 187);
    assert_eq!(builtin_spinner_verbs()[0], "Accomplishing");
    assert_eq!(builtin_spinner_verbs()[186], "Zigzagging");
}

#[test]
fn the_character_counter_catches_up_by_ticks() {
    let mut clock = SpinnerClock::started(1_000);
    clock.note_assistant_output(400, 1_000, false);
    assert_eq!(clock.assistant_characters, 400);
    assert_eq!(clock.displayed_characters, 0);
    clock.advance(true, false, false, 1_050);
    assert_eq!(clock.displayed_characters, 50);
    clock.advance(true, false, false, 1_049);
    assert_eq!(clock.displayed_characters, 50);
    clock.advance(true, false, false, 1_150);
    assert_eq!(clock.displayed_characters, 150);
    clock.advance(true, false, false, 1_200);
    assert_eq!(clock.displayed_characters, 200);
    clock.advance(true, false, false, 1_250);
    assert_eq!(clock.displayed_characters, 250);
    clock.advance(true, false, false, 1_300);
    assert_eq!(clock.displayed_characters, 273);
    clock.advance(true, false, false, 100_000);
    assert_eq!(clock.displayed_characters, 400);
    clock.assistant_characters = 4_000;
    clock.advance(true, false, true, 100_100);
    assert_eq!(clock.displayed_characters, 4_000);
}

#[test]
fn hidden_spinners_do_not_move_and_tools_keep_the_output_clock_fresh() {
    let mut clock = SpinnerClock::started(0);
    clock.note_assistant_output(10, 0, false);
    let before = clock;
    clock.advance(false, true, false, 500);
    assert_eq!(clock, before);
    clock.advance(true, true, false, 500);
    assert_eq!(clock.last_output_at_ms, 500);
    assert_eq!(clock.displayed_characters, 10);
}

#[test]
fn thinking_holds_two_seconds_then_reports_its_duration() {
    let mut clock = SpinnerClock::started(0);
    clock.note_reasoning_started(500);
    clock.note_reasoning_started(900);
    assert_eq!(clock.reasoning_started_at_ms, Some(500));
    clock.note_reasoning_finished(1_500);
    assert_eq!(clock.reasoning_started_at_ms, None);
    assert_eq!(clock.thinking_until_ms, Some(2_500));
    assert_eq!(clock.thought_until_ms, Some(4_500));
    assert_eq!(clock.thought_duration_ms, 1_000);
    assert_eq!(clock.elapsed_ms(4_000), 4_000);
}

#[test]
fn a_hash_picks_its_verb_by_remainder() {
    assert_eq!(verb_for_hash(0), "Accomplishing");
    assert_eq!(verb_for_hash(187), "Accomplishing");
    assert_eq!(verb_for_hash(186), "Zigzagging");
    assert_eq!(verb_for_hash(188), "Actioning");
}
