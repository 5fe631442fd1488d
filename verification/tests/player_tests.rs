use cache_manager::arena::{Arena, ArenaErr, Event, Perform};
use cache_manager::player::Player;

#[test]
fn test_arena_new_ok() {
    let arena = Arena::new();

    let events = arena.get_events();
    let fighters = arena.get_fighters();

    assert_eq!(events.len(), 0);
    assert_eq!(fighters.len(), 0);
}

#[test]
fn test_arena_add_event_ok() {
    let mut arena = Arena::new();
    if let Err(e) = arena.add_event(Player::new("10", "A"), Player::new("10", "B")) {
        panic!("Error while adding event : {e:?}");
    }
    let events = arena.get_events();

    assert_eq!(events.len(), 1);

    let fighters = arena.get_fighters();
    assert_eq!(fighters.len(), 2);
    assert_eq!(fighters.get(0).unwrap().get_name(), "A");
    assert_eq!(fighters.get(1).unwrap().get_name(), "B");
}

#[test]
#[should_panic]
fn test_arena_add_event_same_fighter_fail() {
    let mut arena = Arena::new();
    if let Err(e) = arena.add_event(Player::new("10", "A"), Player::new("10", "A")) {
        panic!("Error while adding event : {e:?}");
    }
}

#[test]
fn same_fighter_is_reported_and_changes_nothing() {
    let mut arena = Arena::new();
    assert_eq!(
        arena.add_event(Player::new("10", "A"), Player::new("10", "A")),
        Err(ArenaErr::SameFighterErr)
    );
    assert!(arena.get_events().is_empty());
    assert!(arena.get_fighters().is_empty());
}

#[test]
fn known_fighters_are_not_added_twice() {
    let mut arena = Arena::new();
    arena.add_fighter(Player::new("3", "C"));
    arena.add_event(Player::new("10", "A"), Player::new("3", "C")).unwrap();
    arena.add_event(Player::new("3", "C"), Player::new("10", "A")).unwrap();
    assert_eq!(arena.get_fighters().len(), 2);
    assert_eq!(
        arena.get_events(),
        &vec![Event::Duel(1, 0), Event::Duel(0, 1)]
    );
}

#[test]
fn handled_events_hurt_the_defender() {
    let mut arena = Arena::new();
    arena.add_event(Player::new("10", "A"), Player::new("7", "B")).unwrap();
    arena.add_event(Player::new("7", "B"), Player::new("10", "A")).unwrap();
    arena.handle_events();
    assert_eq!(arena.get_fighters()[0].get_health(), 93);
    assert_eq!(arena.get_fighters()[1].get_health(), 90);
    assert_eq!(arena.get_events().len(), 2);
    arena.handle_events();
    assert_eq!(arena.get_fighters()[0].get_health(), 86);
    assert_eq!(arena.get_fighters()[1].get_health(), 80);
}

#[test]
fn a_duel_performs_on_the_fighters_it_names() {
    let mut fighters = vec![Player::new("200", "A"), Player::new("1", "B")];
    assert_eq!(Event::Duel(0, 1).perform(&mut fighters), Ok(()));
    assert_eq!(fighters[1].get_health(), 0);
    assert_eq!(fighters[0].get_health(), 100);
}

#[test]
fn test_player_new_ok() {
    let player = Player::new("4", "A");

    assert_eq!(player.get_attack(), 4);
    assert_eq!(player.get_health(), 100);
    assert_eq!(player.get_name(), "A");
}

#[test]
fn test_player_new_too_big_attack() {
    let player = Player::new("1000000000", "A");

    assert_eq!(player.get_attack(), Player::get_default_attack());
    assert_eq!(player.get_health(), 100);
}

#[test]
fn test_player_new_negative_attack() {
    let player = Player::new("-12", "A");

    assert_eq!(player.get_attack(), Player::get_default_attack());
    assert_eq!(player.get_health(), 100);
}

#[test]
fn test_player_attacked_ok() {
    let player = Player::new("10", "A");
    let mut enemy = Player::new("10", "B");

    player.damage(&mut enemy);

    assert_eq!(enemy.get_health(), 90);
}

#[test]
fn test_player_attacked_too_much() {
    let player = Player::new("101", "A");
    let mut enemy = Player::new("10", "B");

    player.damage(&mut enemy);

    assert_eq!(enemy.get_health(), 0);
}

#[test]
fn test_player_attacked_negative() {
    let player = Player::new("-12", "A");
    let mut enemy = Player::new("10", "B");

    player.damage(&mut enemy);

    let enemy_health = enemy.get_health();
    assert_eq!(enemy_health, 100 - player.get_attack());
}

#[test]
fn test_player_heal_ok() {
    let mut player = Player::new("10", "A");
    let enemy = Player::new("10", "B");

    enemy.damage(&mut player);
    assert_eq!(player.get_health(), 90);

    let health_potion = 5u8;
    player.heal(health_potion);

    assert_eq!(player.get_health(), 95);
}

#[test]
fn test_player_heal_too_big() {
    let mut player = Player::new("10", "A");
    let enemy = Player::new("10", "B");

    enemy.damage(&mut player);
    assert_eq!(player.get_health(), 90);

    let health_potion = 100u8;
    player.heal(health_potion);

    assert_eq!(player.get_health(), 100);
}

#[test]
fn attack_is_read_after_trimming() {
    assert_eq!(Player::new("  12\n", "A").get_attack(), 12);
    assert_eq!(Player::new("", "A").get_attack(), 8);
    assert_eq!(Player::new("1 2", "A").get_attack(), 8);
    assert_eq!(Player::new("255", "A").get_attack(), 255);
    assert_eq!(Player::new("256", "A").get_attack(), 8);
}

#[test]
fn with_attack_falls_back_to_default() {
    assert_eq!(Player::with_attack(None, "A").get_attack(), 8);
    assert_eq!(Player::with_attack(Some(0), "A").get_attack(), 0);
    assert_eq!(Player::get_default_attack(), 8);
}

#[test]
fn set_health_takes_any_amount() {
    let mut player = Player::new("1", "A");
    player.set_health(250);
    assert_eq!(player.get_health(), 250);
    player.heal(10);
    assert_eq!(player.get_health(), 100);
    player.take_blow(30);
    assert_eq!(player.get_health(), 70);
    assert!(player.same_as(&player));
    assert!(!player.same_as(&Player::new("1", "A")));
}
