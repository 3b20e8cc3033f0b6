use caffi::anilabel::{mix, AniLabel, FRAMES_PER_STEP};

#[test]
fn mix_fixes_one_more_character() {
    assert_eq!(mix("March", "April"), "Mpril");
    assert_eq!(mix("March", "Mpril"), "Maril");
    assert_eq!(mix("March", "Maril"), "Marcl");
    assert_eq!(mix("March", "Marcl"), "March");
    assert_eq!(mix("March", "March"), "March");
}

#[test]
fn mix_grows_a_shorter_label() {
    assert_eq!(mix("May", ""), "M");
    assert_eq!(mix("May", "M"), "Ma");
    assert_eq!(mix("May", "Ma"), "May");
    assert_eq!(mix("May", "May"), "May");
}

#[test]
fn mix_cuts_a_longer_label_once_the_text_is_reached() {
    assert_eq!(mix("May", "March"), "Maych");
    assert_eq!(mix("May", "Maych"), "May");
    assert_eq!(mix("May", "Mayxyz"), "May");
    assert_eq!(mix("", "March"), "");
    assert_eq!(mix("", ""), "");
}

#[test]
fn mix_counts_characters_not_bytes() {
    assert_eq!(mix("m\u{e4}rz", "mai"), "m\u{e4}i");
    assert_eq!(mix("mai", "m\u{e4}rz"), "marz");
}

#[test]
fn label_starts_empty() {
    let label = AniLabel::default();
    assert_eq!(label.animated_text(), "");
    assert_eq!(label.label(), "");
}

#[test]
fn label_steps_on_every_fourth_frame() {
    assert_eq!(FRAMES_PER_STEP, 4);
    let mut label = AniLabel::default();
    label.set_animated_text(String::from("May"));
    assert_eq!(label.animated_text(), "May");
    assert_eq!(label.label(), "");
    label.tick(1);
    label.tick(2);
    label.tick(3);
    label.tick(-1);
    label.tick(-3);
    assert_eq!(label.label(), "");
    label.tick(4);
    assert_eq!(label.label(), "M");
    label.tick(5);
    assert_eq!(label.label(), "M");
    label.tick(0);
    assert_eq!(label.label(), "Ma");
    label.tick(-8);
    assert_eq!(label.label(), "May");
    label.tick(12);
    assert_eq!(label.label(), "May");
    label.set_animated_text(String::from("June"));
    assert_eq!(label.label(), "May");
    label.tick(16);
    assert_eq!(label.label(), "Jay");
}

#[test]
fn every_step_gets_one_more_character_right() {
    for (text, start) in [("March", "April"), ("May", "September"), ("September", "May"), ("June", "July"), ("", "May"), ("May", "")] {
        let wanted: Vec<char> = text.chars().collect();
        let mut label = String::from(start);
        let mut right = 0;
        for _ in 0..=wanted.len() {
            label = mix(text, &label);
            let shown: Vec<char> = label.chars().collect();
            let agree = wanted.iter().zip(shown.iter()).take_while(|(a, b)| a == b).count();
            assert!(agree > right || label == text);
            right = agree;
        }
        assert_eq!(label, text);
        assert_eq!(mix(text, &label), text);
    }
}
