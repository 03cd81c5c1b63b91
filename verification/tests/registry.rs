use gloam::frame::{Action, Phase};
use gloam::game::Gloam;
use gloam::texture::{DrawCall, TextureError};

fn label(text: &str) -> String {
    String::from(text)
}

/// Runs one whole frame and returns the actions in the order they were issued.
fn run_frame(game: &mut Gloam<&'static str>) -> Vec<Action> {
    let mut issued = Vec::new();
    loop {
        let action = game.update();
        issued.push(action);
        if action == Action::Done {
            return issued;
        }
    }
}

#[test]
fn first_id_is_one() {
    let mut game: Gloam<&'static str> = Gloam::new();
    assert_eq!(game.add_object(label("Player"), "p"), 1);
}

#[test]
fn ids_grow_strictly_within_a_frame() {
    let mut game: Gloam<&'static str> = Gloam::new();
    let a = game.add_object(label("Enemy"), "a");
    let b = game.add_object(label("Enemy"), "b");
    let c = game.add_object(label("Player"), "c");
    assert_eq!((a, b, c), (1, 2, 3));
    assert!(a < b && b < c);
}

#[test]
fn empty_frame_draws_once() {
    let mut game: Gloam<&'static str> = Gloam::new();
    assert_eq!(game.phase(), Phase::Idle);
    assert_eq!(game.update(), Action::Render);
    assert_eq!(game.phase(), Phase::Rendering);
    assert_eq!(game.update(), Action::Done);
    assert_eq!(game.phase(), Phase::Idle);
    assert!(game.with_object(1).is_none());
}

#[test]
fn frame_sets_up_then_updates_then_draws() {
    let mut game: Gloam<&'static str> = Gloam::new();
    let a = game.add_object(label("A"), "a");
    let b = game.add_object(label("B"), "b");
    assert_eq!(
        run_frame(&mut game),
        vec![
            Action::Init(a),
            Action::Init(b),
            Action::Update(a),
            Action::Update(b),
            Action::Render,
            Action::Done,
        ]
    );
    assert_eq!(
        run_frame(&mut game),
        vec![Action::Update(a), Action::Update(b), Action::Render, Action::Done]
    );
}

#[test]
fn staged_object_is_hidden_until_promoted() {
    let mut game: Gloam<&'static str> = Gloam::new();
    let a = game.add_object(label("Enemy"), "a");
    assert!(game.with_object(a).is_none());
    assert!(game.with_type("Enemy").is_empty());
    assert!(game.find_objs_with_type("Enemy").is_empty());

    assert_eq!(game.update(), Action::Init(a));
    assert_eq!(game.phase(), Phase::Promoting);
    assert_eq!(game.promoted(), Some(&"a"));
    assert!(game.with_object(a).is_none());

    assert_eq!(game.update(), Action::Update(a));
    assert_eq!(game.phase(), Phase::Updating);
    assert!(game.promoted().is_none());
    assert_eq!(game.with_object(a), Some(&"a"));
    assert_eq!(game.find_objs_with_type("Enemy"), vec![a]);
}

#[test]
fn object_added_during_update_pass_waits_for_next_frame() {
    let mut game: Gloam<&'static str> = Gloam::new();
    let a = game.add_object(label("Spawner"), "a");
    assert_eq!(game.update(), Action::Init(a));
    assert_eq!(game.update(), Action::Update(a));
    // the update hook of `a` adds another object
    let b = game.add_object(label("Bullet"), "b");
    assert!(game.with_object(b).is_none());
    assert_eq!(game.update(), Action::Render);
    assert_eq!(game.update(), Action::Done);
    assert!(game.with_object(b).is_none());

    assert_eq!(
        run_frame(&mut game),
        vec![Action::Init(b), Action::Update(a), Action::Update(b), Action::Render, Action::Done]
    );
    assert_eq!(game.with_object(b), Some(&"b"));
}

#[test]
fn object_added_during_setup_waits_for_next_frame() {
    let mut game: Gloam<&'static str> = Gloam::new();
    let a = game.add_object(label("A"), "a");
    assert_eq!(game.update(), Action::Init(a));
    let b = game.add_object(label("B"), "b");
    assert_eq!(game.update(), Action::Update(a));
    assert_eq!(game.update(), Action::Render);
    assert_eq!(game.update(), Action::Done);
    assert!(game.with_object(b).is_none());
    assert_eq!(game.update(), Action::Init(b));
}

#[test]
fn removed_id_is_never_reused() {
    let mut game: Gloam<&'static str> = Gloam::new();
    let a = game.add_object(label("Enemy"), "a");
    run_frame(&mut game);
    game.destroy_object(a);
    run_frame(&mut game);
    assert!(game.with_object(a).is_none());
    let b = game.add_object(label("Enemy"), "b");
    assert_eq!(b, 2);
    assert!(b > a);
    run_frame(&mut game);
    assert!(game.with_object(a).is_none());
    assert_eq!(game.with_object(b), Some(&"b"));
}

#[test]
fn removal_takes_effect_at_next_frame_only() {
    let mut game: Gloam<&'static str> = Gloam::new();
    let a = game.add_object(label("Enemy"), "a");
    run_frame(&mut game);
    game.destroy_object(a);
    assert_eq!(game.with_object(a), Some(&"a"));
    assert_eq!(run_frame(&mut game), vec![Action::Render, Action::Done]);
    assert!(game.with_object(a).is_none());
}

#[test]
fn add_and_remove_before_promotion_cancels() {
    let mut game: Gloam<&'static str> = Gloam::new();
    let a = game.add_object(label("Enemy"), "a");
    let b = game.add_object(label("Enemy"), "b");
    game.destroy_object(a);
    assert_eq!(
        run_frame(&mut game),
        vec![Action::Init(b), Action::Update(b), Action::Render, Action::Done]
    );
    assert!(game.with_object(a).is_none());
    assert_eq!(game.find_objs_with_type("Enemy"), vec![b]);
    assert_eq!(run_frame(&mut game), vec![Action::Update(b), Action::Render, Action::Done]);
}

#[test]
fn removing_unknown_id_changes_nothing() {
    let mut game: Gloam<&'static str> = Gloam::new();
    let a = game.add_object(label("Enemy"), "a");
    game.destroy_object(77);
    assert_eq!(
        run_frame(&mut game),
        vec![Action::Init(a), Action::Update(a), Action::Render, Action::Done]
    );
    assert_eq!(game.with_object(a), Some(&"a"));
}

#[test]
fn update_is_due_once_per_live_object() {
    let mut game: Gloam<&'static str> = Gloam::new();
    let ids: Vec<usize> =
        vec!["a", "b", "c", "d"].into_iter().map(|o| game.add_object(label("T"), o)).collect();
    run_frame(&mut game);
    let issued = run_frame(&mut game);
    for id in &ids {
        assert_eq!(issued.iter().filter(|a| **a == Action::Update(*id)).count(), 1);
        assert_eq!(issued.iter().filter(|a| **a == Action::Init(*id)).count(), 0);
    }
    assert_eq!(issued.len(), 6);
}

#[test]
fn with_type_follows_promotion_order_and_drops_removed() {
    let mut game: Gloam<&'static str> = Gloam::new();
    let e1 = game.add_object(label("Enemy"), "e1");
    let p = game.add_object(label("Player"), "p");
    let e2 = game.add_object(label("Enemy"), "e2");
    run_frame(&mut game);
    let e3 = game.add_object(label("Enemy"), "e3");
    run_frame(&mut game);
    assert_eq!(game.with_type("Enemy"), vec![&"e1", &"e2", &"e3"]);
    assert_eq!(game.find_objs_with_type("Enemy"), vec![e1, e2, e3]);
    assert_eq!(game.with_type("Player"), vec![&"p"]);
    assert_eq!(game.find_obj_with_type("Enemy"), e1);
    assert_eq!(game.find_obj_with_type("Player"), p);

    game.destroy_object(e2);
    assert_eq!(game.with_type("Enemy"), vec![&"e1", &"e2", &"e3"]);
    run_frame(&mut game);
    assert_eq!(game.with_type("Enemy"), vec![&"e1", &"e3"]);
    assert_eq!(game.find_objs_with_type("Enemy"), vec![e1, e3]);
    assert_eq!(game.with_type("Player"), vec![&"p"]);
}

#[test]
fn labels_are_case_sensitive() {
    let mut game: Gloam<&'static str> = Gloam::new();
    let a = game.add_object(label("Enemy"), "a");
    run_frame(&mut game);
    assert!(game.with_type("enemy").is_empty());
    assert_eq!(game.find_objs_with_type("Enemy"), vec![a]);
}

#[test]
fn unknown_label_and_id_give_nothing() {
    let mut game: Gloam<&'static str> = Gloam::new();
    game.add_object(label("Enemy"), "a");
    run_frame(&mut game);
    assert!(game.with_type("Ghost").is_empty());
    assert!(game.find_objs_with_type("Ghost").is_empty());
    assert_eq!(game.find_obj_with_type("Ghost"), 0);
    assert!(game.with_object(0).is_none());
    assert!(game.with_object(99).is_none());
}

#[test]
fn with_objects_serves_single_id_lists() {
    let mut game: Gloam<&'static str> = Gloam::new();
    let a = game.add_object(label("A"), "a");
    let b = game.add_object(label("B"), "b");
    run_frame(&mut game);
    assert_eq!(game.with_objects(&vec![a]), Some(&"a"));
    assert_eq!(game.with_objects(&vec![b]), Some(&"b"));
    assert_eq!(game.with_objects(&vec![a, b]), None);
    assert_eq!(game.with_objects(&vec![]), None);
    assert_eq!(game.with_objects(&vec![42]), None);
}

#[test]
fn abandoned_frame_drops_the_batch_and_keeps_the_rest() {
    let mut game: Gloam<&'static str> = Gloam::new();
    let a = game.add_object(label("A"), "a");
    run_frame(&mut game);
    let b = game.add_object(label("B"), "b");
    let c = game.add_object(label("C"), "c");
    assert_eq!(game.update(), Action::Init(b));
    // the setup hook of `b` fails
    game.abandon();
    assert_eq!(game.phase(), Phase::Idle);
    assert!(game.with_object(b).is_none());
    assert!(game.with_object(c).is_none());
    assert_eq!(game.with_object(a), Some(&"a"));
    assert_eq!(run_frame(&mut game), vec![Action::Update(a), Action::Render, Action::Done]);
    let d = game.add_object(label("D"), "d");
    assert_eq!(d, 4);
}

#[test]
fn fresh_registry_is_not_exhausted() {
    let game: Gloam<&'static str> = Gloam::new();
    assert!(!game.is_exhausted());
}

const TWO_BY_ONE_RGBA: &str = "data:image/png;base64,iVBORw0KGgoAAAANSUhEUgAAAAIAAAABCAYAAAD0In+KAAAAEUlEQVR4nGP4z8Dwn6HhvwMAELoDvkeWIKAAAAAASUVORK5CYII=";

#[test]
fn registry_loads_textures_and_lists_draw_calls() {
    let mut game: Gloam<&'static str> = Gloam::new();
    assert!(game.draw_calls().is_empty());
    assert!(game.texture(0).is_none());
    assert_eq!(game.load_texture(TWO_BY_ONE_RGBA), Ok(0));
    assert_eq!(game.load_texture("no url"), Err(TextureError::NotADataUrl));
    assert_eq!(game.load_texture(TWO_BY_ONE_RGBA), Ok(1));
    assert_eq!(game.texture(1).map(|b| (b.width, b.height)), Some((2, 1)));
    assert_eq!(game.texture(0).map(|b| b.pixels.clone()), Some(vec![255, 0, 0, 255, 0, 128, 255, 64]));
    assert!(game.texture(2).is_none());
    assert_eq!(
        game.draw_calls(),
        vec![DrawCall { texture: 0, x: 0, y: 0 }, DrawCall { texture: 1, x: 0, y: 0 }]
    );
}

#[test]
fn loading_a_texture_leaves_the_frame_alone() {
    let mut game: Gloam<&'static str> = Gloam::new();
    let a = game.add_object(label("A"), "a");
    assert_eq!(game.update(), Action::Init(a));
    assert_eq!(game.load_texture(TWO_BY_ONE_RGBA), Ok(0));
    assert_eq!(game.phase(), Phase::Promoting);
    assert_eq!(game.update(), Action::Update(a));
    assert_eq!(game.update(), Action::Render);
    assert_eq!(game.draw_calls().len(), 1);
    assert_eq!(game.update(), Action::Done);
}

#[test]
fn lookup_finds_every_live_object_among_many() {
    let mut game: Gloam<usize> = Gloam::new();
    for n in 0..50usize {
        assert_eq!(game.add_object(label("N"), n * 10), n + 1);
    }
    loop {
        if game.update() == Action::Done {
            break;
        }
    }
    for id in vec![2usize, 3, 17, 49, 50] {
        game.destroy_object(id);
    }
    loop {
        if game.update() == Action::Done {
            break;
        }
    }
    for id in 0..=52usize {
        let gone = id == 0 || id > 50 || vec![2usize, 3, 17, 49, 50].contains(&id);
        let expected = if gone { None } else { Some((id - 1) * 10) };
        assert_eq!(game.with_object(id).copied(), expected);
    }
    assert_eq!(game.find_objs_with_type("N").len(), 45);
    assert_eq!(game.with_type("N").len(), 45);
    assert_eq!(game.find_obj_with_type("N"), 1);
}
