//! The whole simulation: what it holds, and the one step that carries it
//! through a tick.
//!
//! Collision resolution lies outside. Between two ticks the caller has it
//! move the player and the pigs by what the last tick asked for, and hands
//! the outcome to the next tick: where the player stands now, and what it
//! touched on the way.

use vstd::prelude::*;
use crate::economy::{Money, INITIAL_MONEY, PIG_PAYOUT, PIG_PRICE};
use crate::pig::{
    age, bumped, bumped_by_player, expires, outlives, pig_id, pig_lifetime, pig_wander, request_of,
    spawn_pig, wandered, MovementRequest, Pig, PigParent, PIG_SPAWN_OFFSET,
};
use crate::player::{
    axis, player_hit_wall, player_movement, stride, touched, touches_wall, Contact, InputSnapshot,
    Player, Wall,
};
use crate::vector::Vec2;

verus! {

/// How fast the player walks, in world units per second.
pub const PLAYER_SPEED: u16 = 100;

/// Everything that the simulation holds.
#[derive(Debug)]
pub struct World {
    pub player: Player,
    pub walls: Vec<Wall>,
    pub money: Money,
    pub pig_parent: PigParent,
}

/// What one tick is told.
#[derive(Debug)]
pub struct TickInput {
    pub keys: InputSnapshot,
    /// The milliseconds that have passed since the tick before.
    pub dt: u16,
    /// Where collision resolution has put the player.
    pub player_position: Vec2,
    /// What the player touched on its way there, in the order in which
    /// collision resolution reports it.
    pub contacts: Vec<Contact>,
}

/// What one tick decides, for the caller to carry out.
#[derive(Debug)]
pub struct TickOutput {
    /// Where the player wants to go from where it is.
    pub player_request: Vec2,
    /// The walls that the player ran into, one entry for each contact.
    pub wall_hits: Vec<u64>,
    /// The pigs that were sold and are gone.
    pub sold: Vec<u64>,
    /// Where each pig that is left wants to go from where it is.
    pub pig_requests: Vec<MovementRequest>,
    /// The pig that was bought, if one was.
    pub spawned: Option<Pig>,
}

/// The pigs after the contacts of a tick: each has shied from the touches
/// that were its own.
pub open spec fn shied(pigs: Seq<Pig>, contacts: Seq<Contact>, dt: u16) -> Seq<Pig> {
    pigs.map_values(|pig: Pig| bumped(pig, contacts, dt))
}

/// The pigs that a tick leaves alive, before they wander: those of `pigs`
/// that have more than `dt` milliseconds to live, touched and aged.
pub open spec fn survivors(pigs: Seq<Pig>, contacts: Seq<Contact>, dt: u16) -> Seq<Pig> {
    shied(pigs, contacts, dt).filter(outlives(dt)).map_values(age(dt))
}

/// The pigs that a tick sells: those of `pigs` that have `dt` milliseconds
/// to live or less.
pub open spec fn sold_in(pigs: Seq<Pig>, contacts: Seq<Contact>, dt: u16) -> Seq<u64> {
    shied(pigs, contacts, dt).filter(expires(dt)).map_values(pig_id())
}

/// What the balance comes to once the pigs that a tick sells have paid.
pub open spec fn funds(before: World, input: TickInput) -> int {
    before.money.0 + PIG_PAYOUT * sold_in(
        before.pig_parent.pigs@,
        input.contacts@,
        input.dt,
    ).len()
}

/// Whether a tick buys a pig: the spawn key went down, and the balance, with
/// what the pigs sold in this tick have paid, covers the price.
pub open spec fn buys(before: World, input: TickInput) -> bool {
    input.keys.spawn && funds(before, input) >= PIG_PRICE
}

/// `after` and `output` are what a tick can make of `before` and `input`.
///
/// The stages of a tick, in their order: the player's position is taken
/// over and its movement asked for; the contacts are searched for walls and
/// for pigs, which shy away; the pigs age, and those whose time is up are
/// sold; the pigs that are left wander; a pig is bought where the spawn key
/// went down and the money covers the price. All of it is fixed by `before`
/// and `input`, but for the draws of the pigs that change direction.
pub open spec fn ticked(before: World, input: TickInput, after: World, output: TickOutput) -> bool {
    let dt = input.dt;
    let herd = before.pig_parent.pigs@;
    let alive = survivors(herd, input.contacts@, dt);
    let newborn = Pig::newborn(before.pig_parent.next_id, input.player_position);
    &&& after.player == Player { position: input.player_position, speed: before.player.speed }
    &&& after.walls@ == before.walls@
    &&& output.player_request.x == axis(input.keys.right, input.keys.left) * stride(
        before.player.speed,
        input.keys,
        dt,
    )
    &&& output.player_request.y == axis(input.keys.up, input.keys.down) * stride(
        before.player.speed,
        input.keys,
        dt,
    )
    &&& output.wall_hits@ == input.contacts@.filter(touches_wall(before.walls@)).map_values(
        touched(),
    )
    &&& output.sold@ == sold_in(herd, input.contacts@, dt)
    &&& output.pig_requests@.len() == alive.len()
    &&& forall|j: int|
        0 <= j < alive.len() ==> wandered(#[trigger] alive[j], after.pig_parent.pigs@[j], dt)
    &&& forall|j: int|
        0 <= j < alive.len() ==> #[trigger] output.pig_requests@[j] == request_of(
            after.pig_parent.pigs@[j],
            dt,
        )
    &&& if buys(before, input) {
        &&& output.spawned == Some(newborn)
        &&& after.pig_parent.pigs@.len() == alive.len() + 1
        &&& after.pig_parent.pigs@.last() == newborn
        &&& after.pig_parent.next_id == before.pig_parent.next_id + 1
        &&& after.money.0 == funds(before, input) - PIG_PRICE
    } else {
        &&& output.spawned is None
        &&& after.pig_parent.pigs@.len() == alive.len()
        &&& after.pig_parent.next_id == before.pig_parent.next_id
        &&& after.money.0 == funds(before, input)
    }
}

impl World {
    /// The pigs are well formed and told apart by their identifiers.
    pub open spec fn wf(self) -> bool {
        self.pig_parent.wf()
    }

    /// What the machine's integers ask of a tick: that the balance can
    /// take the payout for the pigs that are sold, and, where a pig is
    /// bought, that an identifier is left for it and that it has room to
    /// appear beside the player.
    pub open spec fn has_room(self, input: TickInput) -> bool {
        &&& funds(self, input) <= u64::MAX
        &&& buys(self, input) ==> self.pig_parent.next_id < u64::MAX && input.player_position.x
            + PIG_SPAWN_OFFSET <= i64::MAX
    }

    /// Carries the simulation through one tick, stage by stage, and
    /// returns what the caller is to carry out.
    pub fn tick(&mut self, input: &TickInput, rng: &mut rand::rngs::StdRng) -> (output: TickOutput)
        requires
            old(self).wf(),
            old(self).has_room(*input),
        ensures
            final(self).wf(),
            ticked(*old(self), *input, *final(self), output),
    {
        let ghost herd = self.pig_parent.pigs@;
        self.player.position = input.player_position;
        let player_request = player_movement(&self.player, &input.keys, input.dt);
        let wall_hits = player_hit_wall(&input.contacts, &self.walls);
        bumped_by_player(&input.contacts, &mut self.pig_parent, input.dt);
        assert(self.pig_parent.pigs@ =~= shied(herd, input.contacts@, input.dt));
        let sold = pig_lifetime(&mut self.pig_parent, &mut self.money, input.dt);
        let pig_requests = pig_wander(&mut self.pig_parent, rng, input.dt);
        let spawned = spawn_pig(&input.keys, &mut self.money, &self.player, &mut self.pig_parent);
        TickOutput { player_request, wall_hits, sold, pig_requests, spawned }
    }
}

/// A tick has room wherever the balance could take the payout for every
/// pig of the herd, an identifier is left, and a pig has room to appear
/// beside the player: a test that needs no knowledge of which pigs are due.
pub proof fn lemma_room_for_a_tick(world: World, input: TickInput)
    requires
        world.money.0 + PIG_PAYOUT * world.pig_parent.pigs@.len() <= u64::MAX,
        world.pig_parent.next_id < u64::MAX,
        input.player_position.x + PIG_SPAWN_OFFSET <= i64::MAX,
    ensures
        world.has_room(input),
{
    let touched = shied(world.pig_parent.pigs@, input.contacts@, input.dt);
    touched.lemma_filter_len(expires(input.dt));
    let due: nat = touched.filter(expires(input.dt)).len();
    let all: nat = world.pig_parent.pigs@.len();
    assert(PIG_PAYOUT * due <= PIG_PAYOUT * all) by (nonlinear_arith)
        requires
            due <= all,
    ;
}

/// The wall that stands when the simulation starts: four units wide and
/// two hundred high, a hundred units to the left of the origin.
pub open spec fn opening_wall() -> Wall {
    Wall {
        id: 0,
        position: Vec2 { x: (-100_000) as i64, y: 0 },
        half_extents: Vec2 { x: 2_000, y: 100_000 },
    }
}

/// The simulation as it starts: the player at the origin, one wall to its
/// left, the opening balance, and no pigs.
pub fn setup() -> (world: World)
    ensures
        world.wf(),
        world.player == (Player { position: Vec2 { x: 0, y: 0 }, speed: PLAYER_SPEED }),
        world.walls@ == seq![opening_wall()],
        world.money == Money(INITIAL_MONEY),
        world.pig_parent.pigs@ == Seq::<Pig>::empty(),
        world.pig_parent.next_id == 1,
{
    let mut walls: Vec<Wall> = Vec::new();
    walls.push(
        Wall {
            id: 0,
            position: Vec2 { x: -100_000, y: 0 },
            half_extents: Vec2 { x: 2_000, y: 100_000 },
        },
    );
    assert(walls@ =~= seq![opening_wall()]);
    World {
        player: Player { position: Vec2 { x: 0, y: 0 }, speed: PLAYER_SPEED },
        walls,
        money: Money(INITIAL_MONEY),
        pig_parent: PigParent::new(1),
    }
}

} // verus!
