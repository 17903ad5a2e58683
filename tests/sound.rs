use syntec::sound::{
    alert_sound, beep, boot_sound, connection_sound, crash_sound, cue_sounds, ending_sound,
    error_sound, fade_sound, flicker_sound, flicker_sound_at, multi_beep, processing_sound,
    success_sound, Cue, Sound,
};

#[test]
fn beep_is_a_short_high_tone() {
    assert_eq!(beep(), vec![Sound::Tone(800, 150)]);
}

#[test]
fn error_sound_is_a_low_tone() {
    assert_eq!(error_sound(), vec![Sound::Tone(400, 300)]);
}

#[test]
fn crash_sound_falls() {
    assert_eq!(crash_sound(), vec![
        Sound::Tone(800, 100),
        Sound::Tone(700, 100),
        Sound::Tone(600, 100),
        Sound::Tone(500, 100),
        Sound::Tone(400, 400),
    ]);
}

#[test]
fn multi_beep_separates_beeps() {
    assert_eq!(multi_beep(2, 40), vec![
        Sound::Tone(800, 150),
        Sound::Silence(40),
        Sound::Tone(800, 150),
        Sound::Silence(40),
    ]);
    assert!(multi_beep(0, 40).is_empty());
}

#[test]
fn processing_sound_rises() {
    assert_eq!(processing_sound(), vec![
        Sound::Tone(800, 100),
        Sound::Silence(200),
        Sound::Tone(850, 100),
        Sound::Silence(200),
        Sound::Tone(900, 100),
        Sound::Silence(200),
    ]);
}

#[test]
fn connection_sound_dials_then_links() {
    let s = connection_sound();
    assert_eq!(s.len(), 12);
    assert_eq!(s[0], Sound::Tone(800, 70));
    assert_eq!(s[8], Sound::Tone(1200, 70));
    assert_eq!(s[9], Sound::Silence(30));
    assert_eq!(s[10], Sound::Silence(200));
    assert_eq!(s[11], Sound::Tone(1200, 200));
}

#[test]
fn fixed_cues() {
    assert_eq!(alert_sound(), vec![Sound::Tone(1200, 100), Sound::Silence(70), Sound::Tone(1200, 100)]);
    assert_eq!(success_sound(), vec![Sound::Tone(800, 100), Sound::Silence(50), Sound::Tone(1000, 150)]);
    assert_eq!(fade_sound().len(), 7);
    assert_eq!(fade_sound()[6], Sound::Tone(400, 300));
    assert_eq!(ending_sound()[6], Sound::Tone(300, 400));
    assert_eq!(boot_sound()[4], Sound::Tone(1200, 200));
    assert_eq!(cue_sounds(Cue::Error), error_sound());
    assert_eq!(cue_sounds(Cue::Connection), connection_sound());
}

#[test]
fn flicker_sound_stays_in_band() {
    assert_eq!(flicker_sound_at(0), vec![Sound::Tone(500, 50)]);
    assert_eq!(flicker_sound_at(740), vec![Sound::Tone(740, 50)]);
    for _ in 0..50 {
        match flicker_sound()[0] {
            Sound::Tone(f, ms) => {
                assert!((500..1000).contains(&f));
                assert_eq!(ms, 50);
            }
            Sound::Silence(_) => panic!("flicker is a tone"),
        }
    }
}
