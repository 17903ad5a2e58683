use syntec::story::{
    enter_scene, follow_on, has_prompt, invalid_choice, next_scene, show_scene, standing_path,
    Beat, GameState, Scene,
};

#[test]
fn a_story_starts_with_twelve_hours() {
    let s = GameState::new();
    assert_eq!(s, GameState { hours: 12, has_stood: false, has_asked_identity: false });
}

#[test]
fn standing_path_stands_up() {
    let mut s = GameState::new();
    let beats = standing_path(&mut s);
    assert!(beats.is_empty());
    assert_eq!(s, GameState { hours: 11, has_stood: true, has_asked_identity: false });
}

#[test]
fn entering_scenes_spends_hours() {
    let mut s = GameState::new();
    enter_scene(Scene::Laying, &mut s);
    assert_eq!(s.hours, 9);
    let beats = enter_scene(Scene::WhoAmI, &mut s);
    assert_eq!(s.hours, 7);
    assert_eq!(beats.len(), 2);
    enter_scene(Scene::KeepWalking, &mut s);
    assert_eq!(s.hours, 4);
}

#[test]
fn transitions_follow_the_graph() {
    let s = GameState::new();
    assert_eq!(next_scene(Scene::Opening, &s, 1), Some(Scene::Laying));
    assert_eq!(next_scene(Scene::Opening, &s, 2), Some(Scene::StandUp));
    assert_eq!(next_scene(Scene::Opening, &s, 3), None);
    assert_eq!(next_scene(Scene::WhoAmI, &s, 2), Some(Scene::StandUp));
    let stood = GameState { has_stood: true, ..s };
    assert_eq!(next_scene(Scene::WhoAmI, &stood, 2), Some(Scene::TakeSteps));
    assert_eq!(next_scene(Scene::KeepWalking, &s, 1), Some(Scene::SitAndRest));
    assert_eq!(next_scene(Scene::KeepWalking, &s, 2), None);
    assert!(!has_prompt(Scene::AmIAlone));
    assert_eq!(follow_on(Scene::SitAndRest), Some(Scene::Farewell));
    assert_eq!(follow_on(Scene::Farewell), None);
}

#[test]
fn opening_tells_the_hours() {
    let mut s = GameState::new();
    let beats = show_scene(Scene::Opening, &mut s);
    let found = beats.iter().any(|b| match b {
        Beat::Narrate(t) => t.iter().collect::<String>() == "Your stay will expire in 12 hours.",
        _ => false,
    });
    assert!(found);
}

#[test]
fn who_am_i_changes_after_it_is_shown() {
    let mut s = GameState::new();
    let first = show_scene(Scene::WhoAmI, &mut s);
    assert!(s.has_asked_identity);
    let again = show_scene(Scene::WhoAmI, &mut s);
    let narrate = |beats: &Vec<Beat>| -> String {
        match beats.iter().find(|b| matches!(b, Beat::Narrate(_))) {
            Some(Beat::Narrate(t)) => t.iter().collect(),
            _ => String::new(),
        }
    };
    assert!(narrate(&first).starts_with("This isn't an easy question"));
    assert!(narrate(&again).starts_with("I realised early on"));
}

#[test]
fn invalid_input_shows_the_link_error() {
    let beats = invalid_choice();
    assert_eq!(beats.len(), 2);
    match &beats[0] {
        Beat::Error(t) => assert_eq!(
            t.iter().collect::<String>(),
            "REMOTE LINK ERROR: USER INPUT INVALID. TRY AGAIN."
        ),
        _ => panic!("expected an error"),
    }
}
