use gloam::ecs::Game;

struct A;

struct B;

#[test]
fn test_native_comp() {
    let mut game: Game<A> = Game::new("");
    let _ = &mut game;
    let _other: Game<B> = Game::new("");
}

#[test]
fn entity_ids_count_up_from_zero() {
    let mut game: Game<u8> = Game::new("canvas");
    assert_eq!(game.add_entity(), 0);
    assert_eq!(game.add_entity(), 1);
    assert_eq!(game.add_entity(), 2);
}

#[test]
fn component_is_found_under_its_type_only() {
    let mut game: Game<u8> = Game::new("canvas");
    let e = game.add_entity();
    let f = game.add_entity();
    assert!(!game.has_component(e, "Position"));
    game.add_component_web(e, String::from("Position"), 7);
    assert!(game.has_component(e, "Position"));
    assert!(!game.has_component(e, "position"));
    assert!(!game.has_component(e, "Velocity"));
    assert!(!game.has_component(f, "Position"));
    game.add_component_web(e, String::from("Position"), 8);
    game.add_component_web(e, String::from("Velocity"), 9);
    assert!(game.has_component(e, "Position"));
    assert!(game.has_component(e, "Velocity"));
}

#[test]
fn component_for_missing_entity_is_dropped() {
    let mut game: Game<u8> = Game::new("canvas");
    game.add_component_web(0, String::from("Position"), 7);
    assert!(!game.has_component(0, "Position"));
    let e = game.add_entity();
    assert_eq!(e, 0);
    assert!(!game.has_component(e, "Position"));
}

#[test]
fn get_component_web_finds_nothing() {
    let mut game: Game<u8> = Game::new("canvas");
    let e = game.add_entity();
    game.add_component_web(e, String::from("Position"), 7);
    assert_eq!(game.get_component_web(e, String::from("Position")), None);
    assert_eq!(game.get_component_web(5, String::from("Position")), None);
    assert!(game.has_component(e, "Position"));
    game.update();
    game.draw();
}

#[test]
fn default_game_has_no_entities() {
    let mut game: Game<u8> = Game::default();
    assert!(!game.has_component(0, "Position"));
    assert!(!game.is_full());
    assert_eq!(game.add_entity(), 0);
}
