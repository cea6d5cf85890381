use pig_farm::economy::Money;
use pig_farm::pig::{MovementRequest, Pig};
use pig_farm::player::{Contact, InputSnapshot, Player, Wall};
use pig_farm::timer::Countdown;
use pig_farm::vector::Vec2;
use pig_farm::world::{setup, TickInput, World, PLAYER_SPEED};
use rand::rngs::StdRng;
use rand::SeedableRng;

fn idle() -> InputSnapshot {
    InputSnapshot { up: false, down: false, left: false, right: false, spawn: false }
}

fn spawn_key() -> InputSnapshot {
    InputSnapshot { up: false, down: false, left: false, right: false, spawn: true }
}

fn quiet(keys: InputSnapshot, dt: u16) -> TickInput {
    TickInput { keys, dt, player_position: Vec2 { x: 0, y: 0 }, contacts: Vec::new() }
}

fn touch(entity: u64, x: i64, y: i64) -> Contact {
    Contact { entity, normal: Vec2 { x, y }, time_of_impact: 0 }
}

fn ids(world: &World) -> Vec<u64> {
    world.pig_parent.pigs.iter().map(|pig| pig.id).collect()
}

#[test]
fn the_world_as_it_starts() {
    let world = setup();
    assert_eq!(PLAYER_SPEED, 100);
    assert_eq!(world.player, Player { position: Vec2 { x: 0, y: 0 }, speed: 100 });
    assert_eq!(world.money, Money(100));
    assert_eq!(
        world.walls,
        vec![Wall {
            id: 0,
            position: Vec2 { x: -100_000, y: 0 },
            half_extents: Vec2 { x: 2_000, y: 100_000 },
        }]
    );
    assert!(world.pig_parent.pigs.is_empty());
    assert_eq!(world.pig_parent.next_id, 1);
}

#[test]
fn pressing_spawn_buys_a_pig_beside_the_player() {
    let mut world = setup();
    let mut rng = StdRng::seed_from_u64(0);
    let mut input = quiet(spawn_key(), 16);
    input.player_position = Vec2 { x: 12_000, y: -4_000 };
    let output = world.tick(&input, &mut rng);
    assert_eq!(world.money, Money(90));
    assert_eq!(world.pig_parent.pigs.len(), 1);
    assert_eq!(world.pig_parent.pigs[0].home, Vec2 { x: 44_000, y: -4_000 });
    assert_eq!(world.pig_parent.pigs[0], Pig::new(1, Vec2 { x: 12_000, y: -4_000 }));
    assert_eq!(output.spawned, Some(world.pig_parent.pigs[0]));
    assert_eq!(world.player.position, Vec2 { x: 12_000, y: -4_000 });
    assert!(output.sold.is_empty());
    assert!(output.pig_requests.is_empty());
}

#[test]
fn thirty_seconds_later_the_pig_is_sold() {
    let mut world = setup();
    let mut rng = StdRng::seed_from_u64(0);
    world.tick(&quiet(spawn_key(), 16), &mut rng);
    assert_eq!(world.money, Money(90));
    let output = world.tick(&quiet(idle(), 30_000), &mut rng);
    assert_eq!(output.sold, vec![1]);
    assert!(world.pig_parent.pigs.is_empty());
    assert_eq!(world.money, Money(105));
    assert!(output.pig_requests.is_empty());
}

#[test]
fn pressing_spawn_with_too_little_money_does_nothing() {
    let mut world = setup();
    world.money = Money(5);
    let mut rng = StdRng::seed_from_u64(0);
    let output = world.tick(&quiet(spawn_key(), 16), &mut rng);
    assert_eq!(output.spawned, None);
    assert!(world.pig_parent.pigs.is_empty());
    assert_eq!(world.money, Money(5));
    assert_eq!(world.pig_parent.next_id, 1);
}

#[test]
fn holding_up_and_right_for_a_second() {
    let mut world = setup();
    let mut rng = StdRng::seed_from_u64(0);
    let keys = InputSnapshot { up: true, down: false, left: false, right: true, spawn: false };
    let output = world.tick(&quiet(keys, 1_000), &mut rng);
    assert_eq!(output.player_request, Vec2 { x: 70_710, y: 70_710 });
    assert_eq!(world.money, Money(100));
}

#[test]
fn a_touch_from_the_left_sends_the_pig_up_and_right() {
    let mut world = setup();
    let mut rng = StdRng::seed_from_u64(0);
    world.tick(&quiet(spawn_key(), 16), &mut rng);
    let mut input = quiet(idle(), 16);
    input.contacts = vec![touch(1, -1_000, 0)];
    let output = world.tick(&input, &mut rng);
    let pig = world.pig_parent.pigs[0];
    assert_eq!(pig.direction, Vec2 { x: 2_400, y: 2_400 });
    assert_eq!(pig.new_direction_timer, Countdown { remaining: 984 });
    assert_eq!(pig.lifetime, Countdown { remaining: 29_984 });
    assert_eq!(
        output.pig_requests,
        vec![MovementRequest { entity: 1, translation: Vec2 { x: 960, y: 960 } }]
    );
    assert!(output.wall_hits.is_empty());
}

#[test]
fn a_touched_wall_is_reported() {
    let mut world = setup();
    let mut rng = StdRng::seed_from_u64(0);
    world.tick(&quiet(spawn_key(), 16), &mut rng);
    let mut input = quiet(idle(), 16);
    input.contacts = vec![touch(0, 1_000, 0), touch(1, 0, 0), touch(5, 0, 1_000), touch(0, 0, -1_000)];
    let output = world.tick(&input, &mut rng);
    assert_eq!(output.wall_hits, vec![0, 0]);
    assert_eq!(world.pig_parent.pigs[0].direction, Vec2 { x: 1_000, y: 0 });
    assert_eq!(world.walls.len(), 1);
}

#[test]
fn a_new_pig_is_left_alone_in_the_tick_that_buys_it() {
    let mut world = setup();
    let mut rng = StdRng::seed_from_u64(0);
    let output = world.tick(&quiet(spawn_key(), 5_000), &mut rng);
    assert!(output.pig_requests.is_empty());
    assert_eq!(world.pig_parent.pigs[0].lifetime.remaining, 30_000);
    assert_eq!(world.pig_parent.pigs[0].new_direction_timer.remaining, 1_000);
}

#[test]
fn the_payout_of_a_tick_can_pay_for_a_pig() {
    let mut world = setup();
    let mut rng = StdRng::seed_from_u64(0);
    world.money = Money(10);
    world.tick(&quiet(spawn_key(), 16), &mut rng);
    assert_eq!(world.money, Money(0));
    let output = world.tick(&quiet(spawn_key(), 30_000), &mut rng);
    assert_eq!(output.sold, vec![1]);
    assert_eq!(output.spawned.map(|pig| pig.id), Some(2));
    assert_eq!(world.money, Money(5));
    assert_eq!(ids(&world), vec![2]);
}

#[test]
fn the_balance_moves_by_price_and_payout_only() {
    let mut world = setup();
    let mut rng = StdRng::seed_from_u64(11);
    let mut tick: u32 = 0;
    while tick < 400 {
        let before = world.money.0;
        let keys = if tick % 7 == 0 { spawn_key() } else { idle() };
        let mut input = quiet(keys, 700);
        if tick % 3 == 0 {
            input.contacts = vec![touch(1 + (tick as u64 % 5), -1_000, 0)];
        }
        let output = world.tick(&input, &mut rng);
        let bought: u64 = if output.spawned.is_some() { 10 } else { 0 };
        assert_eq!(world.money.0 + bought, before + 15 * output.sold.len() as u64);
        tick += 1;
    }
    assert!(world.money.0 > 100);
}

#[test]
fn a_pig_lives_thirty_seconds_whatever_touches_it() {
    let mut world = setup();
    let mut rng = StdRng::seed_from_u64(2);
    world.tick(&quiet(spawn_key(), 16), &mut rng);
    let mut lived: u32 = 0;
    loop {
        let mut input = quiet(idle(), 999);
        input.contacts = vec![touch(1, if lived % 2 == 0 { -1_000 } else { 1_000 }, 0)];
        let output = world.tick(&input, &mut rng);
        lived += 999;
        if lived < 30_000 {
            assert!(output.sold.is_empty());
            assert_eq!(ids(&world), vec![1]);
            assert_eq!(world.pig_parent.pigs[0].lifetime.remaining as u32, 30_000 - lived);
            assert_eq!(world.money, Money(90));
        } else {
            assert_eq!(output.sold, vec![1]);
            assert!(world.pig_parent.pigs.is_empty());
            assert_eq!(world.money, Money(105));
            break;
        }
    }
    assert_eq!(lived, 30_969);
    let output = world.tick(&quiet(idle(), 999), &mut rng);
    assert!(output.sold.is_empty());
    assert_eq!(world.money, Money(105));
}

#[test]
fn identifiers_are_not_given_twice() {
    let mut world = setup();
    let mut rng = StdRng::seed_from_u64(2);
    world.tick(&quiet(spawn_key(), 16), &mut rng);
    world.tick(&quiet(spawn_key(), 16), &mut rng);
    assert_eq!(ids(&world), vec![1, 2]);
    world.tick(&quiet(idle(), 29_990), &mut rng);
    assert_eq!(ids(&world), vec![2]);
    world.tick(&quiet(spawn_key(), 1), &mut rng);
    assert_eq!(ids(&world), vec![2, 3]);
    assert_eq!(world.pig_parent.next_id, 4);
}

#[test]
fn the_same_seed_gives_the_same_run() {
    let mut first = setup();
    let mut second = setup();
    let mut rng_one = StdRng::seed_from_u64(99);
    let mut rng_two = StdRng::seed_from_u64(99);
    let mut tick: u32 = 0;
    while tick < 60 {
        let keys = if tick < 5 { spawn_key() } else { idle() };
        let a = first.tick(&quiet(keys, 600), &mut rng_one);
        let b = second.tick(&quiet(keys, 600), &mut rng_two);
        assert_eq!(a.pig_requests, b.pig_requests);
        assert_eq!(a.sold, b.sold);
        assert_eq!(first.pig_parent.pigs, second.pig_parent.pigs);
        tick += 1;
    }
}

#[test]
fn wandering_pigs_ask_for_their_movement() {
    let mut world = setup();
    let mut rng = StdRng::seed_from_u64(8);
    world.tick(&quiet(spawn_key(), 16), &mut rng);
    let mut tick: u32 = 0;
    while tick < 25 {
        let output = world.tick(&quiet(idle(), 1_000), &mut rng);
        let pig = world.pig_parent.pigs[0];
        assert_eq!(
            output.pig_requests,
            vec![MovementRequest { entity: 1, translation: pig.movement(1_000) }]
        );
        let length = pig.direction.x * pig.direction.x + pig.direction.y * pig.direction.y;
        assert!(length <= 1_000_000);
        assert!(length > 996_000);
        assert!(pig.new_direction_timer.remaining > 0);
        assert!(pig.new_direction_timer.remaining < 3_000);
        tick += 1;
    }
}
