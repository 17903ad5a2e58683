//! Audio cues as fixed sequences of tones and silences.

use vstd::prelude::*;
use crate::chance::random_below;

verus! {

/// One segment of an audio cue.
#[derive(Clone, Copy, Debug, PartialEq, Eq, Structural)]
pub enum Sound {
    /// A tone of the given frequency (Hz) for the given number of milliseconds.
    Tone(u32, u64),
    /// Silence for the given number of milliseconds.
    Silence(u64),
}

/// The named audio cues the presentation layer plays at story beats.
#[derive(Clone, Copy, Debug, PartialEq, Eq, Structural)]
pub enum Cue {
    Beep,
    Error,
    Alert,
    Success,
    Processing,
    Flicker,
    Fade,
    Ending,
    Boot,
    Crash,
    Connection,
}

/// Classic PC beep: 800 Hz for 150 ms.
pub fn beep() -> (r: Vec<Sound>)
    ensures
        r@ == seq![Sound::Tone(800, 150)],
{
    vec![Sound::Tone(800, 150)]
}

/// Error tone: 400 Hz for 300 ms.
pub fn error_sound() -> (r: Vec<Sound>)
    ensures
        r@ == seq![Sound::Tone(400, 300)],
{
    vec![Sound::Tone(400, 300)]
}

/// `count` beeps, each followed by `delay_ms` of silence.
pub open spec fn beeps(count: nat, delay_ms: u64) -> Seq<Sound>
    decreases count,
{
    if count == 0 {
        seq![]
    } else {
        beeps((count - 1) as nat, delay_ms) + seq![Sound::Tone(800, 150), Sound::Silence(delay_ms)]
    }
}

/// Several beeps separated by a delay.
pub fn multi_beep(count: u8, delay_ms: u64) -> (r: Vec<Sound>)
    ensures
        r@ == beeps(count as nat, delay_ms),
{
    let mut r: Vec<Sound> = Vec::new();
    let mut i: u8 = 0;
    while i < count
        invariant
            i <= count,
            r@ == beeps(i as nat, delay_ms),
        decreases count - i,
    {
        r.push(Sound::Tone(800, 150));
        r.push(Sound::Silence(delay_ms));
        i += 1;
        assert(r@ =~= beeps(i as nat, delay_ms));
    }
    r
}

/// Alert: two short high beeps.
pub fn alert_sound() -> (r: Vec<Sound>)
    ensures
        r@ == seq![Sound::Tone(1200, 100), Sound::Silence(70), Sound::Tone(1200, 100)],
{
    vec![Sound::Tone(1200, 100), Sound::Silence(70), Sound::Tone(1200, 100)]
}

/// Success: two ascending tones.
pub fn success_sound() -> (r: Vec<Sound>)
    ensures
        r@ == seq![Sound::Tone(800, 100), Sound::Silence(50), Sound::Tone(1000, 150)],
{
    vec![Sound::Tone(800, 100), Sound::Silence(50), Sound::Tone(1000, 150)]
}

/// The first `k` rising processing beeps, each followed by a pause.
pub open spec fn rising_beeps(k: nat) -> Seq<Sound>
    decreases k,
{
    if k == 0 {
        seq![]
    } else {
        rising_beeps((k - 1) as nat) + seq![
            Sound::Tone((800 + 50 * (k - 1)) as u32, 100),
            Sound::Silence(200),
        ]
    }
}

/// Processing: three rising beeps, each followed by a pause.
pub fn processing_sound() -> (r: Vec<Sound>)
    ensures
        r@ == seq![
            Sound::Tone(800, 100),
            Sound::Silence(200),
            Sound::Tone(850, 100),
            Sound::Silence(200),
            Sound::Tone(900, 100),
            Sound::Silence(200),
        ],
{
    let mut r: Vec<Sound> = Vec::new();
    let mut i: u32 = 0;
    while i < 3
        invariant
            i <= 3,
            r@ == rising_beeps(i as nat),
        decreases 3 - i,
    {
        r.push(Sound::Tone(800 + i * 50, 100));
        r.push(Sound::Silence(200));
        i += 1;
        assert(r@ =~= rising_beeps(i as nat));
    }
    reveal_with_fuel(rising_beeps, 4);
    assert(r@ =~= seq![
        Sound::Tone(800, 100),
        Sound::Silence(200),
        Sound::Tone(850, 100),
        Sound::Silence(200),
        Sound::Tone(900, 100),
        Sound::Silence(200),
    ]);
    r
}

/// Flicker interference: a 50 ms tone at 500 Hz plus `offset_hz` (taken
/// modulo 500), so always in 500..1000 Hz.
pub fn flicker_sound_at(offset_hz: u32) -> (r: Vec<Sound>)
    ensures
        r@ == seq![Sound::Tone((500 + offset_hz % 500) as u32, 50)],
{
    vec![Sound::Tone(500 + offset_hz % 500, 50)]
}

/// Flicker interference at a random frequency in 500..1000 Hz.
pub fn flicker_sound() -> (r: Vec<Sound>)
    ensures
        r@.len() == 1,
        r@[0] matches Sound::Tone(f, ms) && 500 <= f < 1000 && ms == 50,
{
    let offset = random_below(500);
    flicker_sound_at(offset)
}

/// Fading consciousness: four descending tones.
pub fn fade_sound() -> (r: Vec<Sound>)
    ensures
        r@ == seq![
            Sound::Tone(1000, 200),
            Sound::Silence(100),
            Sound::Tone(800, 200),
            Sound::Silence(150),
            Sound::Tone(600, 250),
            Sound::Silence(200),
            Sound::Tone(400, 300),
        ],
{
    vec![
        Sound::Tone(1000, 200),
        Sound::Silence(100),
        Sound::Tone(800, 200),
        Sound::Silence(150),
        Sound::Tone(600, 250),
        Sound::Silence(200),
        Sound::Tone(400, 300),
    ]
}

/// Dramatic ending: a descending arpeggio.
pub fn ending_sound() -> (r: Vec<Sound>)
    ensures
        r@ == seq![
            Sound::Tone(1200, 200),
            Sound::Silence(100),
            Sound::Tone(900, 200),
            Sound::Silence(100),
            Sound::Tone(600, 200),
            Sound::Silence(100),
            Sound::Tone(300, 400),
        ],
{
    vec![
        Sound::Tone(1200, 200),
        Sound::Silence(100),
        Sound::Tone(900, 200),
        Sound::Silence(100),
        Sound::Tone(600, 200),
        Sound::Silence(100),
        Sound::Tone(300, 400),
    ]
}

/// Boot chime: three rising tones.
pub fn boot_sound() -> (r: Vec<Sound>)
    ensures
        r@ == seq![
            Sound::Tone(800, 150),
            Sound::Silence(50),
            Sound::Tone(1000, 150),
            Sound::Silence(50),
            Sound::Tone(1200, 200),
        ],
{
    vec![
        Sound::Tone(800, 150),
        Sound::Silence(50),
        Sound::Tone(1000, 150),
        Sound::Silence(50),
        Sound::Tone(1200, 200),
    ]
}

/// Crash: five falling tones with no gaps, the last one long.
pub fn crash_sound() -> (r: Vec<Sound>)
    ensures
        r@ == seq![
            Sound::Tone(800, 100),
            Sound::Tone(700, 100),
            Sound::Tone(600, 100),
            Sound::Tone(500, 100),
            Sound::Tone(400, 400),
        ],
{
    vec![
        Sound::Tone(800, 100),
        Sound::Tone(700, 100),
        Sound::Tone(600, 100),
        Sound::Tone(500, 100),
        Sound::Tone(400, 400),
    ]
}

/// The dial-up tones of the connection sound, before the final tone.
pub open spec fn dial_tones(k: nat) -> Seq<Sound>
    decreases k,
{
    if k == 0 {
        seq![]
    } else {
        dial_tones((k - 1) as nat) + seq![
            Sound::Tone((800 + 100 * (k - 1)) as u32, 70),
            Sound::Silence(30),
        ]
    }
}

/// Connection: five rising dial-up tones, a pause, then the link tone.
pub fn connection_sound() -> (r: Vec<Sound>)
    ensures
        r@ == dial_tones(5) + seq![Sound::Silence(200), Sound::Tone(1200, 200)],
{
    let mut r: Vec<Sound> = Vec::new();
    let mut i: u32 = 0;
    while i < 5
        invariant
            i <= 5,
            r@ == dial_tones(i as nat),
        decreases 5 - i,
    {
        r.push(Sound::Tone(800 + i * 100, 70));
        r.push(Sound::Silence(30));
        i += 1;
        assert(r@ =~= dial_tones(i as nat));
    }
    r.push(Sound::Silence(200));
    r.push(Sound::Tone(1200, 200));
    assert(r@ =~= dial_tones(5) + seq![Sound::Silence(200), Sound::Tone(1200, 200)]);
    r
}

/// The segments of a named cue.
pub fn cue_sounds(cue: Cue) -> (r: Vec<Sound>)
    ensures
        cue != Cue::Flicker ==> r@ == cue_spec(cue),
        cue == Cue::Flicker ==> r@.len() == 1 && (r@[0] matches Sound::Tone(f, ms) && 500 <= f
            < 1000 && ms == 50),
{
    match cue {
        Cue::Beep => beep(),
        Cue::Error => error_sound(),
        Cue::Alert => alert_sound(),
        Cue::Success => success_sound(),
        Cue::Processing => processing_sound(),
        Cue::Flicker => flicker_sound(),
        Cue::Fade => fade_sound(),
        Cue::Ending => ending_sound(),
        Cue::Boot => boot_sound(),
        Cue::Crash => crash_sound(),
        Cue::Connection => connection_sound(),
    }
}

/// The fixed segments of every cue but the randomised flicker.
pub open spec fn cue_spec(cue: Cue) -> Seq<Sound> {
    match cue {
        Cue::Beep => seq![Sound::Tone(800, 150)],
        Cue::Error => seq![Sound::Tone(400, 300)],
        Cue::Alert => seq![Sound::Tone(1200, 100), Sound::Silence(70), Sound::Tone(1200, 100)],
        Cue::Success => seq![Sound::Tone(800, 100), Sound::Silence(50), Sound::Tone(1000, 150)],
        Cue::Processing => seq![
            Sound::Tone(800, 100),
            Sound::Silence(200),
            Sound::Tone(850, 100),
            Sound::Silence(200),
            Sound::Tone(900, 100),
            Sound::Silence(200),
        ],
        Cue::Fade => seq![
            Sound::Tone(1000, 200),
            Sound::Silence(100),
            Sound::Tone(800, 200),
            Sound::Silence(150),
            Sound::Tone(600, 250),
            Sound::Silence(200),
            Sound::Tone(400, 300),
        ],
        Cue::Ending => seq![
            Sound::Tone(1200, 200),
            Sound::Silence(100),
            Sound::Tone(900, 200),
            Sound::Silence(100),
            Sound::Tone(600, 200),
            Sound::Silence(100),
            Sound::Tone(300, 400),
        ],
        Cue::Boot => seq![
            Sound::Tone(800, 150),
            Sound::Silence(50),
            Sound::Tone(1000, 150),
            Sound::Silence(50),
            Sound::Tone(1200, 200),
        ],
        Cue::Crash => seq![
            Sound::Tone(800, 100),
            Sound::Tone(700, 100),
            Sound::Tone(600, 100),
            Sound::Tone(500, 100),
            Sound::Tone(400, 400),
        ],
        Cue::Connection => dial_tones(5) + seq![Sound::Silence(200), Sound::Tone(1200, 200)],
        Cue::Flicker => seq![],
    }
}

} // verus!
