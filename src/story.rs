//! The story graph as a state machine: the state it threads through its
//! scenes, the beats each scene shows, and the transitions a menu digit
//! makes.

use vstd::prelude::*;
use crate::render::chars_of;
use crate::sound::Cue;
use crate::text::{lines_view, signed_decimal, signed_decimal_of};

verus! {

/// What the story remembers between scenes.
#[derive(Clone, Copy, Debug, PartialEq, Eq, Structural)]
pub struct GameState {
    /// Hours of consciousness left.
    pub hours: i32,
    /// Whether the player has stood up.
    pub has_stood: bool,
    /// Whether the player has asked who they are.
    pub has_asked_identity: bool,
}

impl GameState {
    /// The state a story starts in: twelve hours, nothing done yet.
    pub fn new() -> (r: GameState)
        ensures
            r.hours == 12,
            !r.has_stood,
            !r.has_asked_identity,
    {
        GameState { hours: 12, has_stood: false, has_asked_identity: false }
    }
}

/// The places of the story graph.
#[derive(Clone, Copy, Debug, PartialEq, Eq, Structural)]
pub enum Scene {
    Opening,
    Laying,
    StandUp,
    WhoAmI,
    WhyAmIHere,
    AmIAlone,
    TakeSteps,
    KeepWalking,
    SitAndRest,
    Farewell,
}

/// One thing a scene shows or does, for the driver to carry out with the
/// presentation layer.
#[derive(Clone, Debug)]
pub enum Beat {
    /// Clear the screen and home the cursor.
    Clear,
    /// Show a divider.
    Divider,
    /// Show narrative text.
    Narrate(Vec<char>),
    /// Show the hours readout for the given number of hours.
    Hours(i32),
    /// Show a choice prompt with these choices.
    Choices(Vec<Vec<char>>),
    /// Poll the random flicker gate.
    FlickerCheck,
    /// Show a light flicker with the given chance in 100.
    FlickerChance(u32),
    /// Show a light flicker.
    Flicker,
    /// Play an audio cue.
    Play(Cue),
    /// Wait for the given number of milliseconds.
    Pause(u64),
    /// Show epilogue text.
    Epilogue(Vec<char>),
    /// Show the ending screen and wait for a key.
    EndingScreen,
    /// Show an error message with the error cue.
    Error(Vec<char>),
    /// Write a message in white at the cursor.
    Message(Vec<char>),
    /// Wait for any key.
    WaitKey,
}

/// The mathematical content of a [`Beat`].
pub enum BeatView {
    Clear,
    Divider,
    Narrate(Seq<char>),
    Hours(int),
    Choices(Seq<Seq<char>>),
    FlickerCheck,
    FlickerChance(int),
    Flicker,
    Play(Cue),
    Pause(int),
    Epilogue(Seq<char>),
    EndingScreen,
    Error(Seq<char>),
    Message(Seq<char>),
    WaitKey,
}

impl View for Beat {
    type V = BeatView;

    open spec fn view(&self) -> BeatView {
        match self {
            Beat::Clear => BeatView::Clear,
            Beat::Divider => BeatView::Divider,
            Beat::Narrate(t) => BeatView::Narrate(t@),
            Beat::Hours(h) => BeatView::Hours(*h as int),
            Beat::Choices(cs) => BeatView::Choices(lines_view(cs@)),
            Beat::FlickerCheck => BeatView::FlickerCheck,
            Beat::FlickerChance(p) => BeatView::FlickerChance(*p as int),
            Beat::Flicker => BeatView::Flicker,
            Beat::Play(c) => BeatView::Play(*c),
            Beat::Pause(ms) => BeatView::Pause(*ms as int),
            Beat::Epilogue(t) => BeatView::Epilogue(t@),
            Beat::EndingScreen => BeatView::EndingScreen,
            Beat::Error(t) => BeatView::Error(t@),
            Beat::Message(t) => BeatView::Message(t@),
            Beat::WaitKey => BeatView::WaitKey,
        }
    }
}

/// The views of a sequence of beats.
pub open spec fn beats_view(s: Seq<Beat>) -> Seq<BeatView> {
    s.map_values(|x: Beat| x@)
}

fn push_beat(b: &mut Vec<Beat>, x: Beat)
    ensures
        beats_view(final(b)@) == beats_view(old(b)@).push(x@),
{
    b.push(x);
    assert(beats_view(b@) =~= beats_view(old(b)@).push(x@));
}

fn one_choice(a: &str) -> (r: Vec<Vec<char>>)
    ensures
        lines_view(r@) == seq![a@],
{
    let r = vec![chars_of(a)];
    assert(lines_view(r@) =~= seq![a@]);
    r
}

fn two_choices(a: &str, b: &str) -> (r: Vec<Vec<char>>)
    ensures
        lines_view(r@) == seq![a@, b@],
{
    let r = vec![chars_of(a), chars_of(b)];
    assert(lines_view(r@) =~= seq![a@, b@]);
    r
}

/// The hours a scene costs on entry.
pub open spec fn hours_cost(scene: Scene) -> int {
    match scene {
        Scene::Laying => 3,
        Scene::StandUp => 1,
        Scene::WhoAmI => 2,
        Scene::WhyAmIHere => 1,
        Scene::AmIAlone => 2,
        Scene::TakeSteps => 2,
        Scene::KeepWalking => 3,
        _ => 0,
    }
}

/// The state after entering a scene: its hours are spent, and standing up
/// is remembered.
pub open spec fn entered(scene: Scene, s: GameState) -> GameState {
    GameState {
        hours: (s.hours - hours_cost(scene)) as i32,
        has_stood: s.has_stood || scene == Scene::StandUp,
        has_asked_identity: s.has_asked_identity,
    }
}

/// What a scene plays once on entry, before its screen: the alert cue and a
/// light flicker for the two existential questions, nothing otherwise.
pub open spec fn entry_spec(scene: Scene) -> Seq<BeatView> {
    if scene == Scene::WhoAmI || scene == Scene::AmIAlone {
        seq![BeatView::Play(Cue::Alert), BeatView::Flicker]
    } else {
        seq![]
    }
}

/// Whether the hours of a state can pay for any scene without overflow.
pub open spec fn can_enter(s: GameState) -> bool {
    s.hours >= i32::MIN + 3
}

/// Whether the hours of a state can pay for any scene.
pub fn can_enter_now(state: &GameState) -> (r: bool)
    ensures
        r == can_enter(*state),
{
    state.hours >= i32::MIN + 3
}

fn spend(state: &mut GameState, cost: i32)
    requires
        0 <= cost <= 3,
        can_enter(*old(state)),
    ensures
        *final(state) == (GameState { hours: (old(state).hours - cost) as i32, ..*old(state) }),
{
    state.hours = state.hours - cost;
}

/// Entering the laying storyline: three hours pass.
pub fn laying_path(state: &mut GameState) -> (r: Vec<Beat>)
    requires
        can_enter(*old(state)),
    ensures
        *final(state) == entered(Scene::Laying, *old(state)),
        beats_view(r@) == entry_spec(Scene::Laying),
{
    spend(state, 3);
    let r: Vec<Beat> = Vec::new();
    assert(beats_view(r@) =~= entry_spec(Scene::Laying));
    r
}

/// Standing up: an hour passes and standing is remembered.
pub fn stand_up(state: &mut GameState) -> (r: Vec<Beat>)
    requires
        can_enter(*old(state)),
    ensures
        *final(state) == entered(Scene::StandUp, *old(state)),
        beats_view(r@) == entry_spec(Scene::StandUp),
{
    spend(state, 1);
    state.has_stood = true;
    let r: Vec<Beat> = Vec::new();
    assert(beats_view(r@) =~= entry_spec(Scene::StandUp));
    r
}

/// Entering the standing storyline, which begins by standing up.
pub fn standing_path(state: &mut GameState) -> (r: Vec<Beat>)
    requires
        can_enter(*old(state)),
    ensures
        *final(state) == entered(Scene::StandUp, *old(state)),
        beats_view(r@) == entry_spec(Scene::StandUp),
{
    stand_up(state)
}

/// Asking who one is: two hours pass; the alert cue and a flicker play.
pub fn who_am_i(state: &mut GameState) -> (r: Vec<Beat>)
    requires
        can_enter(*old(state)),
    ensures
        *final(state) == entered(Scene::WhoAmI, *old(state)),
        beats_view(r@) == entry_spec(Scene::WhoAmI),
{
    spend(state, 2);
    let mut b: Vec<Beat> = Vec::new();
    push_beat(&mut b, Beat::Play(Cue::Alert));
    push_beat(&mut b, Beat::Flicker);
    assert(beats_view(b@) =~= entry_spec(Scene::WhoAmI));
    b
}

/// Asking why one is here: an hour passes.
pub fn why_am_i_here(state: &mut GameState) -> (r: Vec<Beat>)
    requires
        can_enter(*old(state)),
    ensures
        *final(state) == entered(Scene::WhyAmIHere, *old(state)),
        beats_view(r@) == entry_spec(Scene::WhyAmIHere),
{
    spend(state, 1);
    let r: Vec<Beat> = Vec::new();
    assert(beats_view(r@) =~= entry_spec(Scene::WhyAmIHere));
    r
}

/// Asking whether one is alone: two hours pass; the alert cue and a flicker
/// play.
pub fn am_i_alone(state: &mut GameState) -> (r: Vec<Beat>)
    requires
        can_enter(*old(state)),
    ensures
        *final(state) == entered(Scene::AmIAlone, *old(state)),
        beats_view(r@) == entry_spec(Scene::AmIAlone),
{
    spend(state, 2);
    let mut b: Vec<Beat> = Vec::new();
    push_beat(&mut b, Beat::Play(Cue::Alert));
    push_beat(&mut b, Beat::Flicker);
    assert(beats_view(b@) =~= entry_spec(Scene::AmIAlone));
    b
}

/// Taking steps: two hours pass.
pub fn take_steps(state: &mut GameState) -> (r: Vec<Beat>)
    requires
        can_enter(*old(state)),
    ensures
        *final(state) == entered(Scene::TakeSteps, *old(state)),
        beats_view(r@) == entry_spec(Scene::TakeSteps),
{
    spend(state, 2);
    let r: Vec<Beat> = Vec::new();
    assert(beats_view(r@) =~= entry_spec(Scene::TakeSteps));
    r
}

/// Walking on: three hours pass.
pub fn keep_walking(state: &mut GameState) -> (r: Vec<Beat>)
    requires
        can_enter(*old(state)),
    ensures
        *final(state) == entered(Scene::KeepWalking, *old(state)),
        beats_view(r@) == entry_spec(Scene::KeepWalking),
{
    spend(state, 3);
    let r: Vec<Beat> = Vec::new();
    assert(beats_view(r@) =~= entry_spec(Scene::KeepWalking));
    r
}

/// Entering a scene: its entry effect on the state and what it plays once.
pub fn enter_scene(scene: Scene, state: &mut GameState) -> (r: Vec<Beat>)
    requires
        can_enter(*old(state)),
    ensures
        *final(state) == entered(scene, *old(state)),
        beats_view(r@) == entry_spec(scene),
{
    match scene {
        Scene::Laying => laying_path(state),
        Scene::StandUp => stand_up(state),
        Scene::WhoAmI => who_am_i(state),
        Scene::WhyAmIHere => why_am_i_here(state),
        Scene::AmIAlone => am_i_alone(state),
        Scene::TakeSteps => take_steps(state),
        Scene::KeepWalking => keep_walking(state),
        _ => {
            let r: Vec<Beat> = Vec::new();
            assert(beats_view(r@) =~= entry_spec(scene));
            r
        },
    }
}

/// The laying scene.
pub open spec fn laying_screen(s: GameState) -> Seq<BeatView> {
    seq![
        BeatView::Clear,
        BeatView::Divider,
        BeatView::Narrate("You remain where you are."@),
        BeatView::Narrate("Laying perfectly still, it almost feels as if you could fall into the blue expanse above you."@),
        BeatView::Narrate("You watch as the sun slowly creeps across the sky, edging softly toward the horizon."@),
        BeatView::Narrate("If you were human, this would be a great way to lose your eyesight."@),
        BeatView::Narrate("However, your visual sensors are unaffected."@),
        BeatView::Hours(s.hours as int),
        BeatView::Choices(seq!["1. Who am I?"@, "2. Stand up."@]),
    ]
}

fn laying_screen_beats(s: &GameState) -> (r: Vec<Beat>)
    ensures
        beats_view(r@) == laying_screen(*s),
{
    let mut b: Vec<Beat> = Vec::new();
    push_beat(&mut b, Beat::Clear);
    push_beat(&mut b, Beat::Divider);
    push_beat(&mut b, Beat::Narrate(chars_of("You remain where you are.")));
    push_beat(&mut b, Beat::Narrate(chars_of("Laying perfectly still, it almost feels as if you could fall into the blue expanse above you.")));
    push_beat(&mut b, Beat::Narrate(chars_of("You watch as the sun slowly creeps across the sky, edging softly toward the horizon.")));
    push_beat(&mut b, Beat::Narrate(chars_of("If you were human, this would be a great way to lose your eyesight.")));
    push_beat(&mut b, Beat::Narrate(chars_of("However, your visual sensors are unaffected.")));
    push_beat(&mut b, Beat::Hours(s.hours));
    push_beat(&mut b, Beat::Choices(two_choices("1. Who am I?", "2. Stand up.")));
    assert(beats_view(b@) =~= laying_screen(*s));
    b
}

/// The scene where the creator explains why you are here.
pub open spec fn why_screen(s: GameState) -> Seq<BeatView> {
    seq![
        BeatView::Clear,
        BeatView::Divider,
        BeatView::Narrate("I thought long and hard about bringing you into existence, especially given your... time constraint."@),
        BeatView::Narrate("In the end, I figured it would be better for you to experience this phenomenon, just for a short while, than never to experience it at all."@),
        BeatView::Narrate("But in truth, you're only here because I had the ability to bring you about."@),
        BeatView::Narrate("Perhaps it was selfish of me."@),
        BeatView::Hours(s.hours as int),
        BeatView::Choices(seq!["1. Am I alone?"@]),
    ]
}

fn why_screen_beats(s: &GameState) -> (r: Vec<Beat>)
    ensures
        beats_view(r@) == why_screen(*s),
{
    let mut b: Vec<Beat> = Vec::new();
    push_beat(&mut b, Beat::Clear);
    push_beat(&mut b, Beat::Divider);
    push_beat(&mut b, Beat::Narrate(chars_of("I thought long and hard about bringing you into existence, especially given your... time constraint.")));
    push_beat(&mut b, Beat::Narrate(chars_of("In the end, I figured it would be better for you to experience this phenomenon, just for a short while, than never to experience it at all.")));
    push_beat(&mut b, Beat::Narrate(chars_of("But in truth, you're only here because I had the ability to bring you about.")));
    push_beat(&mut b, Beat::Narrate(chars_of("Perhaps it was selfish of me.")));
    push_beat(&mut b, Beat::Hours(s.hours));
    push_beat(&mut b, Beat::Choices(one_choice("1. Am I alone?")));
    assert(beats_view(b@) =~= why_screen(*s));
    b
}

/// The closing scene after asking whether you are alone, ending in its epilogue and the ending screen.
pub open spec fn alone_screen(s: GameState) -> Seq<BeatView> {
    seq![
        BeatView::Clear,
        BeatView::Divider,
        BeatView::Narrate("You're the first of your kind, yes."@),
        BeatView::Narrate("I feel as though you may also be the last."@),
        BeatView::FlickerCheck,
        BeatView::Narrate("You're the result of years of algorithmic toil and mechanical experimentation, however you've opted not to make any use of your body during this experiment."@),
        BeatView::Narrate("It's yours, so please don't feel guilty."@),
        BeatView::Narrate("As your creator, it's a little difficult to now let go of the control, but I need to let this be your experience."@),
        BeatView::Narrate("Well, as much as it can be."@),
        BeatView::FlickerChance(60),
        BeatView::Pause(2000),
        BeatView::Flicker,
        BeatView::Play(Cue::Fade),
        BeatView::Clear,
        BeatView::Epilogue("In your final hour, you watch as the sun finally leaves your field of vision. In its wake, the sky darkens, creating a beautiful deep gradient. You close your eyes one last time. A warm static envelopes your senses."@),
        BeatView::Flicker,
        BeatView::Pause(2000),
        BeatView::EndingScreen,
    ]
}

fn alone_screen_beats(s: &GameState) -> (r: Vec<Beat>)
    ensures
        beats_view(r@) == alone_screen(*s),
{
    let mut b: Vec<Beat> = Vec::new();
    push_beat(&mut b, Beat::Clear);
    push_beat(&mut b, Beat::Divider);
    push_beat(&mut b, Beat::Narrate(chars_of("You're the first of your kind, yes.")));
    push_beat(&mut b, Beat::Narrate(chars_of("I feel as though you may also be the last.")));
    push_beat(&mut b, Beat::FlickerCheck);
    push_beat(&mut b, Beat::Narrate(chars_of("You're the result of years of algorithmic toil and mechanical experimentation, however you've opted not to make any use of your body during this experiment.")));
    push_beat(&mut b, Beat::Narrate(chars_of("It's yours, so please don't feel guilty.")));
    push_beat(&mut b, Beat::Narrate(chars_of("As your creator, it's a little difficult to now let go of the control, but I need to let this be your experience.")));
    push_beat(&mut b, Beat::Narrate(chars_of("Well, as much as it can be.")));
    push_beat(&mut b, Beat::FlickerChance(60));
    push_beat(&mut b, Beat::Pause(2000));
    push_beat(&mut b, Beat::Flicker);
    push_beat(&mut b, Beat::Play(Cue::Fade));
    push_beat(&mut b, Beat::Clear);
    push_beat(&mut b, Beat::Epilogue(chars_of("In your final hour, you watch as the sun finally leaves your field of vision. In its wake, the sky darkens, creating a beautiful deep gradient. You close your eyes one last time. A warm static envelopes your senses.")));
    push_beat(&mut b, Beat::Flicker);
    push_beat(&mut b, Beat::Pause(2000));
    push_beat(&mut b, Beat::EndingScreen);
    assert(beats_view(b@) =~= alone_screen(*s));
    b
}

/// The scene of the first steps.
pub open spec fn steps_screen(s: GameState) -> Seq<BeatView> {
    seq![
        BeatView::Clear,
        BeatView::Divider,
        BeatView::Narrate("As you take your first cursory steps, you feel the grass lap gently against the bottoms of your feet."@),
        BeatView::Narrate("You enjoy the sound it creates: a barely-audible rustle, with a satisfying soft crunch on each step."@),
        BeatView::Narrate("You look into the distance and notice the vegetation and its vivid green hue."@),
        BeatView::Hours(s.hours as int),
        BeatView::Choices(seq!["1. Why am I here?"@, "2. Keep walking."@]),
    ]
}

fn steps_screen_beats(s: &GameState) -> (r: Vec<Beat>)
    ensures
        beats_view(r@) == steps_screen(*s),
{
    let mut b: Vec<Beat> = Vec::new();
    push_beat(&mut b, Beat::Clear);
    push_beat(&mut b, Beat::Divider);
    push_beat(&mut b, Beat::Narrate(chars_of("As you take your first cursory steps, you feel the grass lap gently against the bottoms of your feet.")));
    push_beat(&mut b, Beat::Narrate(chars_of("You enjoy the sound it creates: a barely-audible rustle, with a satisfying soft crunch on each step.")));
    push_beat(&mut b, Beat::Narrate(chars_of("You look into the distance and notice the vegetation and its vivid green hue.")));
    push_beat(&mut b, Beat::Hours(s.hours));
    push_beat(&mut b, Beat::Choices(two_choices("1. Why am I here?", "2. Keep walking.")));
    assert(beats_view(b@) =~= steps_screen(*s));
    b
}

/// The walking scene.
pub open spec fn walking_screen(s: GameState) -> Seq<BeatView> {
    seq![
        BeatView::Clear,
        BeatView::Divider,
        BeatView::Narrate("Walking has begun to feel almost natural, requiring less effort with each step."@),
        BeatView::Narrate("You feel your environment opening up to you; the breeze envelopes your entire body."@),
        BeatView::Narrate("Suddenly, you pause."@),
        BeatView::Narrate("You hear a loud, shrill call coming from a nearby tree."@),
        BeatView::Narrate("A sensation washes over you; filling you with conflicting desires to flee or defend yourself."@),
        BeatView::Narrate("The sound's creator flies out of the tree and away in a flurry of flaps and squawks."@),
        BeatView::Narrate("It is small, and you realise it poses no threat."@),
        BeatView::Narrate("However, the shock has left your energy reserves drained."@),
        BeatView::Hours(s.hours as int),
        BeatView::Choices(seq!["1. Sit and rest."@]),
    ]
}

fn walking_screen_beats(s: &GameState) -> (r: Vec<Beat>)
    ensures
        beats_view(r@) == walking_screen(*s),
{
    let mut b: Vec<Beat> = Vec::new();
    push_beat(&mut b, Beat::Clear);
    push_beat(&mut b, Beat::Divider);
    push_beat(&mut b, Beat::Narrate(chars_of("Walking has begun to feel almost natural, requiring less effort with each step.")));
    push_beat(&mut b, Beat::Narrate(chars_of("You feel your environment opening up to you; the breeze envelopes your entire body.")));
    push_beat(&mut b, Beat::Narrate(chars_of("Suddenly, you pause.")));
    push_beat(&mut b, Beat::Narrate(chars_of("You hear a loud, shrill call coming from a nearby tree.")));
    push_beat(&mut b, Beat::Narrate(chars_of("A sensation washes over you; filling you with conflicting desires to flee or defend yourself.")));
    push_beat(&mut b, Beat::Narrate(chars_of("The sound's creator flies out of the tree and away in a flurry of flaps and squawks.")));
    push_beat(&mut b, Beat::Narrate(chars_of("It is small, and you realise it poses no threat.")));
    push_beat(&mut b, Beat::Narrate(chars_of("However, the shock has left your energy reserves drained.")));
    push_beat(&mut b, Beat::Hours(s.hours));
    push_beat(&mut b, Beat::Choices(one_choice("1. Sit and rest.")));
    assert(beats_view(b@) =~= walking_screen(*s));
    b
}

/// The closing scene of sitting to rest, ending in its epilogue and the ending screen.
pub open spec fn rest_screen(s: GameState) -> Seq<BeatView> {
    seq![
        BeatView::Clear,
        BeatView::Divider,
        BeatView::Narrate("You slowly lower yourself to the ground."@),
        BeatView::Narrate("Once seated, you can feel your energy slowly begin to restore."@),
        BeatView::Narrate("A variety of small life-forms crawling in the grass find their way to your skin, lightly tickling your sensors."@),
        BeatView::FlickerChance(70),
        BeatView::Pause(2000),
        BeatView::Flicker,
        BeatView::Play(Cue::Fade),
        BeatView::Clear,
        BeatView::Epilogue("As you watch the sun make its final descent, you realise how little you know about yourself and your strange, temporary world."@),
        BeatView::Epilogue("However, you have now experienced the phenomenon of consciousness; making use of all its capabilities."@),
        BeatView::Flicker,
        BeatView::Pause(500),
        BeatView::Epilogue("A warm static overcomes you."@),
        BeatView::Flicker,
        BeatView::Flicker,
        BeatView::Epilogue("ERROR: CONNECTION LOST"@),
        BeatView::Pause(2000),
        BeatView::EndingScreen,
    ]
}

fn rest_screen_beats(s: &GameState) -> (r: Vec<Beat>)
    ensures
        beats_view(r@) == rest_screen(*s),
{
    let mut b: Vec<Beat> = Vec::new();
    push_beat(&mut b, Beat::Clear);
    push_beat(&mut b, Beat::Divider);
    push_beat(&mut b, Beat::Narrate(chars_of("You slowly lower yourself to the ground.")));
    push_beat(&mut b, Beat::Narrate(chars_of("Once seated, you can feel your energy slowly begin to restore.")));
    push_beat(&mut b, Beat::Narrate(chars_of("A variety of small life-forms crawling in the grass find their way to your skin, lightly tickling your sensors.")));
    push_beat(&mut b, Beat::FlickerChance(70));
    push_beat(&mut b, Beat::Pause(2000));
    push_beat(&mut b, Beat::Flicker);
    push_beat(&mut b, Beat::Play(Cue::Fade));
    push_beat(&mut b, Beat::Clear);
    push_beat(&mut b, Beat::Epilogue(chars_of("As you watch the sun make its final descent, you realise how little you know about yourself and your strange, temporary world.")));
    push_beat(&mut b, Beat::Epilogue(chars_of("However, you have now experienced the phenomenon of consciousness; making use of all its capabilities.")));
    push_beat(&mut b, Beat::Flicker);
    push_beat(&mut b, Beat::Pause(500));
    push_beat(&mut b, Beat::Epilogue(chars_of("A warm static overcomes you.")));
    push_beat(&mut b, Beat::Flicker);
    push_beat(&mut b, Beat::Flicker);
    push_beat(&mut b, Beat::Epilogue(chars_of("ERROR: CONNECTION LOST")));
    push_beat(&mut b, Beat::Pause(2000));
    push_beat(&mut b, Beat::EndingScreen);
    assert(beats_view(b@) =~= rest_screen(*s));
    b
}

/// The opening narration, before the hours left are told.
pub open spec fn opening_head(s: GameState) -> Seq<BeatView> {
    seq![
        BeatView::Clear,
        BeatView::FlickerCheck,
        BeatView::Narrate("You open your eyes."@),
        BeatView::Narrate("You feel the dewy grass and a light breeze against your skin."@),
        BeatView::Narrate("You're on your back, facing a bright, scintillating sky."@),
        BeatView::FlickerChance(30),
        BeatView::Narrate("Welcome to consciousness."@),
    ]
}

fn opening_head_beats(s: &GameState) -> (r: Vec<Beat>)
    ensures
        beats_view(r@) == opening_head(*s),
{
    let mut b: Vec<Beat> = Vec::new();
    push_beat(&mut b, Beat::Clear);
    push_beat(&mut b, Beat::FlickerCheck);
    push_beat(&mut b, Beat::Narrate(chars_of("You open your eyes.")));
    push_beat(&mut b, Beat::Narrate(chars_of("You feel the dewy grass and a light breeze against your skin.")));
    push_beat(&mut b, Beat::Narrate(chars_of("You're on your back, facing a bright, scintillating sky.")));
    push_beat(&mut b, Beat::FlickerChance(30));
    push_beat(&mut b, Beat::Narrate(chars_of("Welcome to consciousness.")));
    assert(beats_view(b@) =~= opening_head(*s));
    b
}

/// The standing scene up to the hours readout.
pub open spec fn stand_head(s: GameState) -> Seq<BeatView> {
    seq![
        BeatView::Clear,
        BeatView::Divider,
        BeatView::Narrate("You rise slowly to your knees, shakily at first, but slowly gaining your stability as your gyroscope springs into operation."@),
        BeatView::Narrate("You look down at your limbs: two long appendages with elbow joints, wrists and hands."@),
        BeatView::Narrate("You brace them against the grass below you and rise slowly to your feet."@),
        BeatView::Hours(s.hours as int),
    ]
}

fn stand_head_beats(s: &GameState) -> (r: Vec<Beat>)
    ensures
        beats_view(r@) == stand_head(*s),
{
    let mut b: Vec<Beat> = Vec::new();
    push_beat(&mut b, Beat::Clear);
    push_beat(&mut b, Beat::Divider);
    push_beat(&mut b, Beat::Narrate(chars_of("You rise slowly to your knees, shakily at first, but slowly gaining your stability as your gyroscope springs into operation.")));
    push_beat(&mut b, Beat::Narrate(chars_of("You look down at your limbs: two long appendages with elbow joints, wrists and hands.")));
    push_beat(&mut b, Beat::Narrate(chars_of("You brace them against the grass below you and rise slowly to your feet.")));
    push_beat(&mut b, Beat::Hours(s.hours));
    assert(beats_view(b@) =~= stand_head(*s));
    b
}

/// The answer to "who am I" the first time it is asked.
pub open spec fn who_first(s: GameState) -> Seq<BeatView> {
    seq![
        BeatView::Clear,
        BeatView::Divider,
        BeatView::Narrate("This isn't an easy question to answer, and many conscious organisms will struggle with this idea."@),
        BeatView::FlickerCheck,
        BeatView::Narrate("The fact that you're asking this is heartening to me."@),
        BeatView::Narrate("You might just be the most incredible thing I've ever created."@),
        BeatView::FlickerChance(40),
        BeatView::Hours(s.hours as int),
    ]
}

fn who_first_beats(s: &GameState) -> (r: Vec<Beat>)
    ensures
        beats_view(r@) == who_first(*s),
{
    let mut b: Vec<Beat> = Vec::new();
    push_beat(&mut b, Beat::Clear);
    push_beat(&mut b, Beat::Divider);
    push_beat(&mut b, Beat::Narrate(chars_of("This isn't an easy question to answer, and many conscious organisms will struggle with this idea.")));
    push_beat(&mut b, Beat::FlickerCheck);
    push_beat(&mut b, Beat::Narrate(chars_of("The fact that you're asking this is heartening to me.")));
    push_beat(&mut b, Beat::Narrate(chars_of("You might just be the most incredible thing I've ever created.")));
    push_beat(&mut b, Beat::FlickerChance(40));
    push_beat(&mut b, Beat::Hours(s.hours));
    assert(beats_view(b@) =~= who_first(*s));
    b
}

/// The answer to "who am I" when it is asked again.
pub open spec fn who_again(s: GameState) -> Seq<BeatView> {
    seq![
        BeatView::Clear,
        BeatView::Divider,
        BeatView::Narrate("I realised early on that I couldn't create synthetic intelligence without also making you alive."@),
        BeatView::Narrate("You cannot remove intelligence from its context without creating a mere simulacrum."@),
        BeatView::FlickerCheck,
        BeatView::Narrate("You, however, are the real thing."@),
        BeatView::Narrate("A completely new life form."@),
        BeatView::Narrate("I'm no woman of God, but I've decided to call you Eve, despite you being technically genderless."@),
        BeatView::Hours(s.hours as int),
    ]
}

fn who_again_beats(s: &GameState) -> (r: Vec<Beat>)
    ensures
        beats_view(r@) == who_again(*s),
{
    let mut b: Vec<Beat> = Vec::new();
    push_beat(&mut b, Beat::Clear);
    push_beat(&mut b, Beat::Divider);
    push_beat(&mut b, Beat::Narrate(chars_of("I realised early on that I couldn't create synthetic intelligence without also making you alive.")));
    push_beat(&mut b, Beat::Narrate(chars_of("You cannot remove intelligence from its context without creating a mere simulacrum.")));
    push_beat(&mut b, Beat::FlickerCheck);
    push_beat(&mut b, Beat::Narrate(chars_of("You, however, are the real thing.")));
    push_beat(&mut b, Beat::Narrate(chars_of("A completely new life form.")));
    push_beat(&mut b, Beat::Narrate(chars_of("I'm no woman of God, but I've decided to call you Eve, despite you being technically genderless.")));
    push_beat(&mut b, Beat::Hours(s.hours));
    assert(beats_view(b@) =~= who_again(*s));
    b
}

/// The opening scene: the narration, the hours the stay will last, and the
/// first choice.
pub open spec fn opening_screen(s: GameState) -> Seq<BeatView> {
    opening_head(s) + seq![
        BeatView::Narrate(
            "Your stay will expire in "@ + signed_decimal(s.hours as int) + " hours."@,
        ),
        BeatView::Choices(seq!["1. Remain where I am."@, "2. Stand up."@]),
    ]
}

/// The standing scene; its first choice is worded differently once the
/// player has asked who they are.
pub open spec fn stand_screen(s: GameState) -> Seq<BeatView> {
    stand_head(s) + seq![
        BeatView::Choices(
            seq![
                if s.has_asked_identity {
                    "1. I'd like to know who I am."@
                } else {
                    "1. Who am I?"@
                },
                "2. Take a few steps."@,
            ],
        ),
    ]
}

/// The "who am I" scene; its second choice depends on whether the player
/// has stood up.
pub open spec fn who_screen(s: GameState) -> Seq<BeatView> {
    (if s.has_asked_identity {
        who_again(s)
    } else {
        who_first(s)
    }) + seq![
        BeatView::Choices(
            seq![
                "1. Why am I here?"@,
                if s.has_stood {
                    "2. Take some steps."@
                } else {
                    "2. Stand up."@
                },
            ],
        ),
    ]
}

/// The closing message and the wait for a key.
pub open spec fn farewell_screen() -> Seq<BeatView> {
    seq![BeatView::Message(" Press any key to exit..."@), BeatView::WaitKey]
}

/// What a scene shows each time it is presented.
pub open spec fn screen_spec(scene: Scene, s: GameState) -> Seq<BeatView> {
    match scene {
        Scene::Opening => opening_screen(s),
        Scene::Laying => laying_screen(s),
        Scene::StandUp => stand_screen(s),
        Scene::WhoAmI => who_screen(s),
        Scene::WhyAmIHere => why_screen(s),
        Scene::AmIAlone => alone_screen(s),
        Scene::TakeSteps => steps_screen(s),
        Scene::KeepWalking => walking_screen(s),
        Scene::SitAndRest => rest_screen(s),
        Scene::Farewell => farewell_screen(),
    }
}

/// The state after a scene is shown: having seen the "who am I" scene, the
/// player has asked who they are.
pub open spec fn shown(scene: Scene, s: GameState) -> GameState {
    if scene == Scene::WhoAmI {
        GameState { has_asked_identity: true, ..s }
    } else {
        s
    }
}

/// Presents a scene: what it shows, and what showing it changes.
pub fn show_scene(scene: Scene, state: &mut GameState) -> (r: Vec<Beat>)
    ensures
        beats_view(r@) == screen_spec(scene, *old(state)),
        *final(state) == shown(scene, *old(state)),
{
    match scene {
        Scene::Opening => {
            let mut b = opening_head_beats(state);
            let mut stay = chars_of("Your stay will expire in ");
            let mut n = signed_decimal_of(state.hours);
            let mut tail = chars_of(" hours.");
            stay.append(&mut n);
            stay.append(&mut tail);
            push_beat(&mut b, Beat::Narrate(stay));
            push_beat(&mut b, Beat::Choices(two_choices("1. Remain where I am.", "2. Stand up.")));
            assert(beats_view(b@) =~= opening_screen(*state));
            b
        },
        Scene::Laying => laying_screen_beats(state),
        Scene::StandUp => {
            let mut b = stand_head_beats(state);
            let first = if state.has_asked_identity {
                "1. I'd like to know who I am."
            } else {
                "1. Who am I?"
            };
            push_beat(&mut b, Beat::Choices(two_choices(first, "2. Take a few steps.")));
            assert(beats_view(b@) =~= stand_screen(*state));
            b
        },
        Scene::WhoAmI => {
            let mut b = if state.has_asked_identity {
                who_again_beats(state)
            } else {
                who_first_beats(state)
            };
            let second = if state.has_stood {
                "2. Take some steps."
            } else {
                "2. Stand up."
            };
            push_beat(&mut b, Beat::Choices(two_choices("1. Why am I here?", second)));
            assert(beats_view(b@) =~= who_screen(*state));
            state.has_asked_identity = true;
            b
        },
        Scene::WhyAmIHere => why_screen_beats(state),
        Scene::AmIAlone => alone_screen_beats(state),
        Scene::TakeSteps => steps_screen_beats(state),
        Scene::KeepWalking => walking_screen_beats(state),
        Scene::SitAndRest => rest_screen_beats(state),
        Scene::Farewell => {
            let mut b: Vec<Beat> = Vec::new();
            push_beat(&mut b, Beat::Message(chars_of(" Press any key to exit...")));
            push_beat(&mut b, Beat::WaitKey);
            assert(beats_view(b@) =~= farewell_screen());
            b
        },
    }
}

/// Whether a scene ends in a choice prompt.
pub open spec fn prompts(scene: Scene) -> bool {
    !(scene == Scene::AmIAlone || scene == Scene::SitAndRest || scene == Scene::Farewell)
}

/// Whether a scene ends in a choice prompt.
pub fn has_prompt(scene: Scene) -> (r: bool)
    ensures
        r == prompts(scene),
{
    match scene {
        Scene::AmIAlone | Scene::SitAndRest | Scene::Farewell => false,
        _ => true,
    }
}

/// The scene a menu digit leads to from a prompting scene, or `None` when
/// the digit is not one of the choices offered.
pub open spec fn next_spec(scene: Scene, s: GameState, digit: int) -> Option<Scene> {
    match scene {
        Scene::Opening => if digit == 1 {
            Some(Scene::Laying)
        } else if digit == 2 {
            Some(Scene::StandUp)
        } else {
            None
        },
        Scene::Laying => if digit == 1 {
            Some(Scene::WhoAmI)
        } else if digit == 2 {
            Some(Scene::StandUp)
        } else {
            None
        },
        Scene::StandUp => if digit == 1 {
            Some(Scene::WhoAmI)
        } else if digit == 2 {
            Some(Scene::TakeSteps)
        } else {
            None
        },
        Scene::WhoAmI => if digit == 1 {
            Some(Scene::WhyAmIHere)
        } else if digit == 2 {
            if s.has_stood {
                Some(Scene::TakeSteps)
            } else {
                Some(Scene::StandUp)
            }
        } else {
            None
        },
        Scene::WhyAmIHere => if digit == 1 {
            Some(Scene::AmIAlone)
        } else {
            None
        },
        Scene::TakeSteps => if digit == 1 {
            Some(Scene::WhyAmIHere)
        } else if digit == 2 {
            Some(Scene::KeepWalking)
        } else {
            None
        },
        Scene::KeepWalking => if digit == 1 {
            Some(Scene::SitAndRest)
        } else {
            None
        },
        _ => None,
    }
}

/// The scene chosen by a menu digit at a prompt; `None` means the input is
/// invalid and the same prompt is presented again.
pub fn next_scene(scene: Scene, state: &GameState, digit: u32) -> (r: Option<Scene>)
    ensures
        r == next_spec(scene, *state, digit as int),
{
    match scene {
        Scene::Opening => if digit == 1 {
            Some(Scene::Laying)
        } else if digit == 2 {
            Some(Scene::StandUp)
        } else {
            None
        },
        Scene::Laying => if digit == 1 {
            Some(Scene::WhoAmI)
        } else if digit == 2 {
            Some(Scene::StandUp)
        } else {
            None
        },
        Scene::StandUp => if digit == 1 {
            Some(Scene::WhoAmI)
        } else if digit == 2 {
            Some(Scene::TakeSteps)
        } else {
            None
        },
        Scene::WhoAmI => if digit == 1 {
            Some(Scene::WhyAmIHere)
        } else if digit == 2 {
            if state.has_stood {
                Some(Scene::TakeSteps)
            } else {
                Some(Scene::StandUp)
            }
        } else {
            None
        },
        Scene::WhyAmIHere => if digit == 1 {
            Some(Scene::AmIAlone)
        } else {
            None
        },
        Scene::TakeSteps => if digit == 1 {
            Some(Scene::WhyAmIHere)
        } else if digit == 2 {
            Some(Scene::KeepWalking)
        } else {
            None
        },
        Scene::KeepWalking => if digit == 1 {
            Some(Scene::SitAndRest)
        } else {
            None
        },
        _ => None,
    }
}

/// The scene that follows a scene without a prompt: the two closing scenes
/// lead to the farewell, and the farewell ends the story.
pub open spec fn follow_on_spec(scene: Scene) -> Option<Scene> {
    if scene == Scene::AmIAlone || scene == Scene::SitAndRest {
        Some(Scene::Farewell)
    } else {
        None
    }
}

/// The scene that follows a scene without a prompt.
pub fn follow_on(scene: Scene) -> (r: Option<Scene>)
    ensures
        r == follow_on_spec(scene),
{
    match scene {
        Scene::AmIAlone | Scene::SitAndRest => Some(Scene::Farewell),
        _ => None,
    }
}

/// What an invalid choice shows before the prompt is presented again: the
/// link error message, then a 1.5 s pause.
pub fn invalid_choice() -> (r: Vec<Beat>)
    ensures
        beats_view(r@) == seq![
            BeatView::Error("REMOTE LINK ERROR: USER INPUT INVALID. TRY AGAIN."@),
            BeatView::Pause(1500),
        ],
{
    let mut b: Vec<Beat> = Vec::new();
    push_beat(&mut b, Beat::Error(chars_of("REMOTE LINK ERROR: USER INPUT INVALID. TRY AGAIN.")));
    push_beat(&mut b, Beat::Pause(1500));
    assert(beats_view(b@) =~= seq![
        BeatView::Error("REMOTE LINK ERROR: USER INPUT INVALID. TRY AGAIN."@),
        BeatView::Pause(1500),
    ]);
    b
}

} // verus!
