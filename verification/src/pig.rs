//! Pigs: bought by the player, wandering about, shying away from the
//! player's touch, and sold when their time is up.

use vstd::prelude::*;
use crate::economy::{Money, PIG_PAYOUT, PIG_PRICE};
use crate::fixed::UNIT;
use crate::player::{Contact, InputSnapshot, Player};
use crate::random::draw;
use crate::timer::Countdown;
use crate::vector::{
    lemma_unit_part_small, lemma_unit_vector_length, magnitude, signum, unit_component, Vec2,
};

verus! {

/// How long a pig lives, in milliseconds.
pub const PIG_LIFETIME: u16 = 30_000;

/// How fast a pig walks, in world units per second.
pub const PIG_SPEED: u16 = 25;

/// How far to the right of the player a pig appears, in thousandths.
pub const PIG_SPAWN_OFFSET: i64 = 32_000;

/// How far from home a pig is meant to stray, in thousandths. Nothing
/// holds a pig to it yet.
pub const PIG_WANDER_RANGE: i64 = 150_000;

/// The wait before a new pig, or one that was just touched, picks a way to
/// go, in milliseconds.
pub const SHORT_WAIT: u16 = 1_000;

/// The shortest wait between two changes of direction, in milliseconds.
pub const WANDER_WAIT_MIN: u16 = 1_500;

/// The bound that the wait between two changes of direction stays below, in
/// milliseconds.
pub const WANDER_WAIT_END: u16 = 3_000;

/// How often a direction is drawn again when the draw was zero, which
/// points nowhere.
pub const MAX_REDRAWS: u8 = 8;

/// How many times faster than its walk a pig shies away.
pub const EVASION_SPEED_FACTOR: i64 = 6;

/// The largest size that a component of a pig's direction takes: that of an
/// evasion at the highest speed over the longest tick.
pub const MAX_DIRECTION: i64 = 25_769_017_350;

/// One pig.
#[derive(Clone, Copy, Debug, PartialEq, Eq, Structural)]
pub struct Pig {
    /// Tells this pig from every other, those long gone too.
    pub id: u64,
    /// Runs once; the pig is sold when it runs out.
    pub lifetime: Countdown,
    /// World units per second.
    pub movement_speed: u16,
    /// Where the pig appeared.
    pub home: Vec2,
    /// Which way the pig walks. A direction that was drawn is `UNIT` long;
    /// one that a touch has set is as long as the evasion.
    pub direction: Vec2,
    /// Runs again and again; the pig picks a new direction when it runs out.
    pub new_direction_timer: Countdown,
    /// How far from home the pig is meant to stray, in thousandths.
    pub wander_range: i64,
}

/// Which way a pig shies from a touch with the given normal: `1` for up and
/// to the right, `-1` for down and to the left, `0` for staying on course.
/// The sign of `normal.x` decides, and that of `normal.y` where `normal.x`
/// is zero.
pub open spec fn evasion_sign(normal: Vec2) -> int {
    if normal.x < 0 {
        1
    } else if normal.x > 0 {
        -1
    } else if normal.y < 0 {
        1
    } else if normal.y > 0 {
        -1
    } else {
        0
    }
}

/// How far a pig of the given speed shies on each axis in a tick of `dt`
/// milliseconds, in thousandths.
pub open spec fn evasion_amount(speed: u16, dt: u16) -> int {
    EVASION_SPEED_FACTOR * (speed * dt)
}

/// How far something gets along one axis in `dt` milliseconds at `speed`,
/// where `direction` is its direction on that axis in thousandths: rounded
/// towards zero.
pub open spec fn travelled(direction: int, speed: u16, dt: u16) -> int {
    signum(direction) * ((magnitude(direction) * (speed * dt)) / (UNIT as int))
}

impl Pig {
    /// The direction stays within the range that the arithmetic is proved
    /// for.
    pub open spec fn wf(self) -> bool {
        &&& -MAX_DIRECTION <= self.direction.x <= MAX_DIRECTION
        &&& -MAX_DIRECTION <= self.direction.y <= MAX_DIRECTION
    }

    /// The pig that appears, under the identifier `id`, beside a player at
    /// `player_position`.
    pub open spec fn newborn(id: u64, player_position: Vec2) -> Pig {
        let place = Vec2 {
            x: (player_position.x + PIG_SPAWN_OFFSET) as i64,
            y: player_position.y,
        };
        Pig {
            id,
            lifetime: Countdown { remaining: PIG_LIFETIME },
            movement_speed: PIG_SPEED,
            home: place,
            direction: Vec2 { x: UNIT, y: 0 },
            new_direction_timer: Countdown { remaining: SHORT_WAIT },
            wander_range: PIG_WANDER_RANGE,
        }
    }

    /// The pig after the player touched it with the given contact normal, in
    /// a tick of `dt` milliseconds. A normal of zero leaves the pig as it
    /// is. Any other makes the evasion itself the pig's direction, and has
    /// the pig pick a new one after a short wait.
    pub open spec fn evaded(self, normal: Vec2, dt: u16) -> Pig {
        let sign = evasion_sign(normal);
        if sign == 0 {
            self
        } else {
            Pig {
                direction: Vec2 {
                    x: (sign * evasion_amount(self.movement_speed, dt)) as i64,
                    y: (sign * evasion_amount(self.movement_speed, dt)) as i64,
                },
                new_direction_timer: Countdown { remaining: SHORT_WAIT },
                ..self
            }
        }
    }

    /// The pig after its direction timer ran out and `wait`, `x` and `y`
    /// were drawn: it waits `wait` milliseconds for the next change, and
    /// walks the way of `(x, y)`. A draw of zero points nowhere: the pig
    /// then keeps its direction.
    pub open spec fn redirected(self, wait: u16, x: i32, y: i32) -> Pig {
        Pig {
            direction: if x == 0 && y == 0 {
                self.direction
            } else {
                Vec2 {
                    x: unit_component(x as int, x as int, y as int) as i64,
                    y: unit_component(y as int, x as int, y as int) as i64,
                }
            },
            new_direction_timer: Countdown { remaining: wait },
            ..self
        }
    }

    /// The pig after `dt` milliseconds in which its direction timer did
    /// not run out.
    pub open spec fn waited(self, dt: u16) -> Pig {
        Pig { new_direction_timer: self.new_direction_timer.after(dt as nat), ..self }
    }

    /// The pig after `dt` milliseconds of its life.
    pub open spec fn aged(self, dt: u16) -> Pig {
        Pig { lifetime: self.lifetime.after(dt as nat), ..self }
    }

    /// Creates the pig that appears beside a player at `player_position`.
    pub fn new(id: u64, player_position: Vec2) -> (pig: Pig)
        requires
            player_position.x + PIG_SPAWN_OFFSET <= i64::MAX,
        ensures
            pig == Pig::newborn(id, player_position),
            pig.wf(),
    {
        let place = Vec2 { x: player_position.x + PIG_SPAWN_OFFSET, y: player_position.y };
        Pig {
            id,
            lifetime: Countdown::from_millis(PIG_LIFETIME),
            movement_speed: PIG_SPEED,
            home: place,
            direction: Vec2 { x: UNIT, y: 0 },
            new_direction_timer: Countdown::from_millis(SHORT_WAIT),
            wander_range: PIG_WANDER_RANGE,
        }
    }

    /// Sets the wait and the direction that were drawn for the pig.
    pub fn redirect(&mut self, wait: u16, x: i32, y: i32)
        requires
            old(self).wf(),
        ensures
            *final(self) == old(self).redirected(wait, x, y),
            final(self).wf(),
    {
        self.new_direction_timer.reset(wait);
        match Vec2::unit(x, y) {
            Some(direction) => {
                proof {
                    lemma_unit_component_small(x as int, x as int, y as int);
                    lemma_unit_component_small(y as int, x as int, y as int);
                }
                self.direction = direction;
            },
            None => {},
        }
    }

    /// The movement that the pig asks for in a tick of `dt` milliseconds:
    /// its direction times its speed times the time.
    pub fn movement(&self, dt: u16) -> (request: Vec2)
        requires
            self.wf(),
        ensures
            request.x == travelled(self.direction.x as int, self.movement_speed, dt),
            request.y == travelled(self.direction.y as int, self.movement_speed, dt),
    {
        Vec2 {
            x: travel(self.direction.x, self.movement_speed, dt),
            y: travel(self.direction.y, self.movement_speed, dt),
        }
    }
}

/// A component of a unit vector is at most `UNIT` in size.
pub proof fn lemma_unit_component_small(a: int, x: int, y: int)
    requires
        a == x || a == y,
        x != 0 || y != 0,
    ensures
        -UNIT <= unit_component(a, x, y) <= UNIT,
{
    let size: nat = magnitude(a);
    let n: nat = (x * x + y * y) as nat;
    assert(size * size <= x * x + y * y && 0 < x * x + y * y) by (nonlinear_arith)
        requires
            size == a || size == -a,
            a == x || a == y,
            x != 0 || y != 0,
    ;
    lemma_unit_part_small(size, n);
    let part = crate::fixed::unit_part(size, n);
    assert(-1_000 <= signum(a) * part <= 1_000) by (nonlinear_arith)
        requires
            -1 <= signum(a) <= 1,
            0 <= part <= 1_000,
    ;
}

/// Computes `travelled`.
fn travel(direction: i64, speed: u16, dt: u16) -> (way: i64)
    requires
        -MAX_DIRECTION <= direction <= MAX_DIRECTION,
    ensures
        way == travelled(direction as int, speed, dt),
{
    let size: u128 = if direction < 0 {
        (-direction) as u128
    } else {
        direction as u128
    };
    assert(speed * dt <= 65_535 * 65_535) by (nonlinear_arith)
        requires
            speed <= 65_535,
            dt <= 65_535,
    ;
    let rate: u128 = (speed as u128) * (dt as u128);
    assert(size * rate <= 25_769_017_350 * (65_535 * 65_535)) by (nonlinear_arith)
        requires
            size <= 25_769_017_350,
            rate <= 65_535 * 65_535,
    ;
    assert(size == 0 ==> size * rate == 0) by (nonlinear_arith);
    let way: u128 = size * rate / 1_000;
    assert(signum(direction as int) * (way as int) == (if direction < 0 {
        -(way as int)
    } else {
        way as int
    })) by (nonlinear_arith)
        requires
            direction == 0 ==> way == 0,
            way >= 0,
            -1 <= signum(direction as int) <= 1,
            direction < 0 ==> signum(direction as int) == -1,
            direction > 0 ==> signum(direction as int) == 1,
            direction == 0 ==> signum(direction as int) == 0,
    ;
    if direction < 0 {
        -(way as i64)
    } else {
        way as i64
    }
}

/// Where a touch sends a pig: the direction that the pig takes after the
/// player touched it, for a tick of `dt` milliseconds, or `None` where the
/// contact normal is zero and the pig stays on course.
pub fn determine_evasion_translation(contact: &Contact, pig: &Pig, dt: u16) -> (evasion: Option<
    Vec2,
>)
    ensures
        evasion is None <==> evasion_sign(contact.normal) == 0,
        evasion matches Some(v) ==> v.x == evasion_sign(contact.normal) * evasion_amount(
            pig.movement_speed,
            dt,
        ) && v.y == v.x,
        evasion matches Some(v) ==> -MAX_DIRECTION <= v.x <= MAX_DIRECTION,
{
    assert(pig.movement_speed * dt <= 65_535 * 65_535) by (nonlinear_arith)
        requires
            pig.movement_speed <= 65_535,
            dt <= 65_535,
    ;
    let movement_amount: i64 = (pig.movement_speed as i64) * (dt as i64);
    let pig_contact: Vec2 = contact.normal;
    let evasion_amount: i64 = EVASION_SPEED_FACTOR * movement_amount;
    if pig_contact.x < 0 {
        Some(Vec2 { x: evasion_amount, y: evasion_amount })
    } else if pig_contact.x > 0 {
        Some(Vec2 { x: -evasion_amount, y: -evasion_amount })
    } else if pig_contact.y < 0 {
        Some(Vec2 { x: evasion_amount, y: evasion_amount })
    } else if pig_contact.y > 0 {
        Some(Vec2 { x: -evasion_amount, y: -evasion_amount })
    } else {
        None
    }
}

/// A touch sends a pig the same way whenever the contact normal has the
/// same signs: its size plays no part.
pub proof fn lemma_evasion_goes_by_signs(pig: Pig, first: Vec2, second: Vec2, dt: u16)
    requires
        signum(first.x as int) == signum(second.x as int),
        signum(first.y as int) == signum(second.y as int),
    ensures
        evasion_sign(first) == evasion_sign(second),
        pig.evaded(first, dt) == pig.evaded(second, dt),
{
}

/// The owner of all pigs: the pigs themselves, in the order in which they
/// appeared, and the identifier that the next one gets.
#[derive(Debug)]
pub struct PigParent {
    /// The pigs that are alive, oldest first.
    pub pigs: Vec<Pig>,
    /// The identifier of the next pig to appear.
    pub next_id: u64,
}

/// What a pig asks of collision resolution in one tick.
#[derive(Clone, Copy, Debug, PartialEq, Eq, Structural)]
pub struct MovementRequest {
    /// The pig that asks.
    pub entity: u64,
    /// Where it wants to go from where it is.
    pub translation: Vec2,
}

/// Every pig is well formed, no two share an identifier, and none has one
/// that is still to be given out.
pub open spec fn herd_wf(pigs: Seq<Pig>, next_id: u64) -> bool {
    &&& forall|i: int| 0 <= i < pigs.len() ==> (#[trigger] pigs[i]).wf() && pigs[i].id < next_id
    &&& forall|i: int, j: int| 0 <= i < j < pigs.len() ==> (#[trigger] pigs[i]).id != (
    #[trigger] pigs[j]).id
}

/// The pig after the player's contacts of one tick, taken in their order:
/// each contact with this pig sends it on an evasion.
pub open spec fn bumped(pig: Pig, contacts: Seq<Contact>, dt: u16) -> Pig
    decreases contacts.len(),
{
    if contacts.len() == 0 {
        pig
    } else {
        let before = bumped(pig, contacts.drop_last(), dt);
        if contacts.last().entity == pig.id {
            before.evaded(contacts.last().normal, dt)
        } else {
            before
        }
    }
}

/// What the draws for a change of direction can be: a wait from
/// `WANDER_WAIT_MIN` to below `WANDER_WAIT_END`, and two components from
/// minus one whole to below one whole.
pub open spec fn can_be_drawn(wait: u16, x: i32, y: i32) -> bool {
    &&& WANDER_WAIT_MIN <= wait < WANDER_WAIT_END
    &&& -UNIT <= x < UNIT
    &&& -UNIT <= y < UNIT
}

/// `after` is what `dt` milliseconds of wandering can make of `before`.
/// A pig whose direction timer runs out in that time takes a new wait and a
/// new direction from some draw; any other pig only has less left to wait.
pub open spec fn wandered(before: Pig, after: Pig, dt: u16) -> bool {
    if 0 < before.new_direction_timer.remaining <= dt {
        exists|wait: u16, x: i32, y: i32|
            can_be_drawn(wait, x, y) && after == #[trigger] before.redirected(wait, x, y)
    } else {
        after == before.waited(dt)
    }
}

/// The movement that a pig asks for in a tick of `dt` milliseconds.
pub open spec fn request_of(pig: Pig, dt: u16) -> MovementRequest {
    MovementRequest {
        entity: pig.id,
        translation: Vec2 {
            x: travelled(pig.direction.x as int, pig.movement_speed, dt) as i64,
            y: travelled(pig.direction.y as int, pig.movement_speed, dt) as i64,
        },
    }
}

/// The test that picks the pigs that are still alive after `dt`
/// milliseconds.
pub open spec fn outlives(dt: u16) -> spec_fn(Pig) -> bool {
    |pig: Pig| dt < pig.lifetime.remaining
}

/// The test that picks the pigs whose time is up within `dt` milliseconds.
pub open spec fn expires(dt: u16) -> spec_fn(Pig) -> bool {
    |pig: Pig| dt >= pig.lifetime.remaining
}

/// Makes a pig `dt` milliseconds older.
pub open spec fn age(dt: u16) -> spec_fn(Pig) -> Pig {
    |pig: Pig| pig.aged(dt)
}

/// The identifier of a pig.
pub open spec fn pig_id() -> spec_fn(Pig) -> u64 {
    |pig: Pig| pig.id
}

impl PigParent {
    /// The herd is well formed, and the next identifier is above every one
    /// in use.
    pub open spec fn wf(self) -> bool {
        herd_wf(self.pigs@, self.next_id)
    }

    /// An owner without pigs, whose first pig will get `first_id`.
    pub fn new(first_id: u64) -> (parent: PigParent)
        ensures
            parent.pigs@ == Seq::<Pig>::empty(),
            parent.next_id == first_id,
            parent.wf(),
    {
        PigParent { pigs: Vec::new(), next_id: first_id }
    }

    /// Where in the list the first pig with the identifier `id` stands.
    pub fn find(&self, id: u64) -> (place: Option<usize>)
        ensures
            place matches Some(i) ==> i < self.pigs@.len() && self.pigs@[i as int].id == id
                && forall|j: int| 0 <= j < i ==> self.pigs@[j].id != id,
            place is None ==> forall|j: int| 0 <= j < self.pigs@.len() ==> self.pigs@[j].id != id,
    {
        let mut i: usize = 0;
        while i < self.pigs.len()
            invariant
                i <= self.pigs@.len(),
                forall|j: int| 0 <= j < i ==> self.pigs@[j].id != id,
            decreases self.pigs@.len() - i,
        {
            if self.pigs[i].id == id {
                return Some(i);
            }
            i = i + 1;
        }
        None
    }
}

/// A touch changes neither who a pig is nor how long it has to live, and
/// leaves a well-formed pig well formed.
pub proof fn lemma_bumped_keeps(pig: Pig, contacts: Seq<Contact>, dt: u16)
    ensures
        pig.wf() ==> bumped(pig, contacts, dt).wf(),
        bumped(pig, contacts, dt).id == pig.id,
        bumped(pig, contacts, dt).lifetime == pig.lifetime,
        bumped(pig, contacts, dt).movement_speed == pig.movement_speed,
        bumped(pig, contacts, dt).home == pig.home,
        bumped(pig, contacts, dt).wander_range == pig.wander_range,
    decreases contacts.len(),
{
    if contacts.len() > 0 {
        lemma_bumped_keeps(pig, contacts.drop_last(), dt);
        let before = bumped(pig, contacts.drop_last(), dt);
        lemma_evasion_small(contacts.last().normal, before.movement_speed, dt);
    }
}

/// An evasion stays within the range that a direction may take.
pub proof fn lemma_evasion_small(normal: Vec2, speed: u16, dt: u16)
    ensures
        -MAX_DIRECTION <= evasion_sign(normal) * evasion_amount(speed, dt) <= MAX_DIRECTION,
{
    let amount = evasion_amount(speed, dt);
    let sign = evasion_sign(normal);
    assert(0 <= speed * dt <= 65_535 * 65_535) by (nonlinear_arith)
        requires
            0 <= speed <= 65_535,
            0 <= dt <= 65_535,
    ;
    assert(-25_769_017_350 <= sign * amount <= 25_769_017_350) by (nonlinear_arith)
        requires
            -1 <= sign <= 1,
            0 <= amount <= 25_769_017_350,
    ;
}

/// Wandering changes neither who a pig is nor how long it has to live.
pub proof fn lemma_wandered_keeps(before: Pig, after: Pig, dt: u16)
    requires
        wandered(before, after, dt),
    ensures
        after.id == before.id,
        after.lifetime == before.lifetime,
        after.movement_speed == before.movement_speed,
        after.home == before.home,
        after.wander_range == before.wander_range,
{
}

/// A direction that was drawn is one whole long, as nearly as integer
/// components allow: it is not longer than `UNIT`, and adding one to the
/// size of both components would make it longer.
pub proof fn lemma_drawn_direction_is_unit(pig: Pig, wait: u16, x: i32, y: i32)
    requires
        x != 0 || y != 0,
    ensures
        ({
            let direction = pig.redirected(wait, x, y).direction;
            &&& direction.length_squared() <= UNIT * UNIT
            &&& UNIT * UNIT < (magnitude(direction.x as int) + 1) * (magnitude(direction.x as int)
                + 1) + (magnitude(direction.y as int) + 1) * (magnitude(direction.y as int) + 1)
        }),
{
    lemma_unit_component_small(x as int, x as int, y as int);
    lemma_unit_component_small(y as int, x as int, y as int);
    lemma_unit_vector_length(x as int, y as int);
}

/// Buys a pig where the spawn key went down and the money covers the price.
///
/// The pig appears beside the player and joins the others at the end of
/// the list; it is returned so that the caller can show it. Where the key
/// did not go down, or the money does not cover the price, nothing changes
/// and nothing is said.
pub fn spawn_pig(
    input: &InputSnapshot,
    money: &mut Money,
    player: &Player,
    parent: &mut PigParent,
) -> (spawned: Option<Pig>)
    requires
        old(parent).wf(),
        input.spawn && old(money).0 >= PIG_PRICE ==> old(parent).next_id < u64::MAX
            && player.position.x + PIG_SPAWN_OFFSET <= i64::MAX,
    ensures
        final(parent).wf(),
        spawned is Some <==> input.spawn && old(money).0 >= PIG_PRICE,
        spawned matches Some(pig) ==> {
            &&& pig == Pig::newborn(old(parent).next_id, player.position)
            &&& final(parent).pigs@ == old(parent).pigs@.push(pig)
            &&& final(parent).next_id == old(parent).next_id + 1
            &&& final(money).0 == old(money).0 - PIG_PRICE
        },
        spawned is None ==> {
            &&& final(parent).pigs@ == old(parent).pigs@
            &&& final(parent).next_id == old(parent).next_id
            &&& *final(money) == *old(money)
        },
{
    if !input.spawn {
        return None;
    }
    if money.spend(PIG_PRICE) {
        let pig = Pig::new(parent.next_id, player.position);
        parent.pigs.push(pig);
        parent.next_id = parent.next_id + 1;
        Some(pig)
    } else {
        None
    }
}

/// Lets every pig that the player touched shy away.
///
/// The contacts are taken in their order. One with a pig of the list and a
/// normal other than zero makes the evasion the pig's direction, and has it
/// pick a new one after a short wait. Contacts with anything else change
/// nothing.
pub fn bumped_by_player(contacts: &Vec<Contact>, parent: &mut PigParent, dt: u16)
    requires
        old(parent).wf(),
    ensures
        final(parent).wf(),
        final(parent).next_id == old(parent).next_id,
        final(parent).pigs@.len() == old(parent).pigs@.len(),
        forall|j: int|
            0 <= j < old(parent).pigs@.len() ==> final(parent).pigs@[j] == bumped(
                #[trigger] old(parent).pigs@[j],
                contacts@,
                dt,
            ),
{
    let ghost before = parent.pigs@;
    let mut i: usize = 0;
    proof {
        assert(contacts@.take(0) =~= Seq::<Contact>::empty());
    }
    while i < contacts.len()
        invariant
            i <= contacts.len(),
            herd_wf(before, parent.next_id),
            parent.next_id == old(parent).next_id,
            parent.pigs@.len() == before.len(),
            forall|j: int|
                0 <= j < before.len() ==> parent.pigs@[j] == bumped(
                    #[trigger] before[j],
                    contacts@.take(i as int),
                    dt,
                ),
        decreases contacts.len() - i,
    {
        let contact: Contact = contacts[i];
        let ghost seen = contacts@.take(i as int);
        let ghost now = parent.pigs@;
        proof {
            assert(contacts@.take(i + 1).drop_last() =~= seen);
            assert(contacts@.take(i + 1).last() == contact);
            assert forall|j: int| 0 <= j < before.len() implies now[j].id == (
            #[trigger] before[j]).id && now[j].wf() by {
                lemma_bumped_keeps(before[j], seen, dt);
            }
        }
        match parent.find(contact.entity) {
            Some(k) => {
                let mut pig: Pig = parent.pigs[k];
                match determine_evasion_translation(&contact, &pig, dt) {
                    Some(direction) => {
                        pig.direction = direction;
                        pig.new_direction_timer.reset(SHORT_WAIT);
                        parent.pigs.set(k, pig);
                    },
                    None => {},
                }
                proof {
                    lemma_bumped_keeps(before[k as int], seen, dt);
                    assert(parent.pigs@[k as int] == now[k as int].evaded(contact.normal, dt));
                }
            },
            None => {},
        }
        i = i + 1;
    }
    proof {
        assert(contacts@.take(contacts.len() as int) =~= contacts@);
        assert forall|j: int| 0 <= j < before.len() implies (#[trigger] parent.pigs@[j]).wf()
            && parent.pigs@[j].id == before[j].id by {
            lemma_bumped_keeps(before[j], contacts@, dt);
        }
    }
}

/// Lets every pig wander for `dt` milliseconds, and returns what each asks
/// of collision resolution, in the order of the list.
///
/// A pig whose direction timer runs out draws a new wait and a new
/// direction from `rng`. A direction of zero is drawn again, up to
/// `MAX_REDRAWS` times; a pig that draws nothing but zeros keeps the
/// direction it has. Every pig, whether it drew or not, asks to move by its
/// direction times its speed times the time.
pub fn pig_wander(parent: &mut PigParent, rng: &mut rand::rngs::StdRng, dt: u16) -> (requests: Vec<
    MovementRequest,
>)
    requires
        old(parent).wf(),
    ensures
        final(parent).wf(),
        final(parent).next_id == old(parent).next_id,
        final(parent).pigs@.len() == old(parent).pigs@.len(),
        requests@.len() == old(parent).pigs@.len(),
        forall|j: int|
            0 <= j < old(parent).pigs@.len() ==> wandered(
                #[trigger] old(parent).pigs@[j],
                final(parent).pigs@[j],
                dt,
            ),
        forall|j: int|
            0 <= j < old(parent).pigs@.len() ==> #[trigger] requests@[j] == request_of(
                final(parent).pigs@[j],
                dt,
            ),
{
    let ghost before = parent.pigs@;
    let mut requests: Vec<MovementRequest> = Vec::new();
    let mut i: usize = 0;
    while i < parent.pigs.len()
        invariant
            i <= before.len(),
            herd_wf(before, parent.next_id),
            parent.next_id == old(parent).next_id,
            parent.pigs@.len() == before.len(),
            requests@.len() == i,
            forall|j: int| 0 <= j < i ==> wandered(#[trigger] before[j], parent.pigs@[j], dt),
            forall|j: int| 0 <= j < i ==> #[trigger] requests@[j] == request_of(parent.pigs@[j], dt),
            forall|j: int| 0 <= j < i ==> (#[trigger] parent.pigs@[j]).wf() && parent.pigs@[j].id
                == before[j].id,
            forall|j: int| i <= j < before.len() ==> parent.pigs@[j] == #[trigger] before[j],
        decreases before.len() - i,
    {
        let mut pig: Pig = parent.pigs[i];
        assert(pig == before[i as int]);
        if pig.new_direction_timer.tick(dt) {
            let wait: u16 = draw(rng, WANDER_WAIT_MIN as i32, WANDER_WAIT_END as i32) as u16;
            let mut x: i32 = draw(rng, -(UNIT as i32), UNIT as i32);
            let mut y: i32 = draw(rng, -(UNIT as i32), UNIT as i32);
            let mut redraws: u8 = 0;
            while x == 0 && y == 0 && redraws < MAX_REDRAWS
                invariant
                    -UNIT <= x < UNIT,
                    -UNIT <= y < UNIT,
                    redraws <= MAX_REDRAWS,
                decreases MAX_REDRAWS - redraws,
            {
                x = draw(rng, -(UNIT as i32), UNIT as i32);
                y = draw(rng, -(UNIT as i32), UNIT as i32);
                redraws = redraws + 1;
            }
            pig.redirect(wait, x, y);
            assert(can_be_drawn(wait, x, y));
            assert(pig == before[i as int].redirected(wait, x, y));
        } else {
            assert(pig == before[i as int].waited(dt));
        }
        let translation: Vec2 = pig.movement(dt);
        requests.push(MovementRequest { entity: pig.id, translation });
        parent.pigs.set(i, pig);
        i = i + 1;
    }
    requests
}

/// Lets every pig grow `dt` milliseconds older, and sells those whose time
/// is up: each leaves the list and pays `PIG_PAYOUT`. Returns the
/// identifiers of the pigs sold, in the order of the list, which the others
/// keep.
pub fn pig_lifetime(parent: &mut PigParent, money: &mut Money, dt: u16) -> (sold: Vec<u64>)
    requires
        old(parent).wf(),
        old(money).0 + PIG_PAYOUT * old(parent).pigs@.filter(expires(dt)).len() <= u64::MAX,
    ensures
        final(parent).wf(),
        final(parent).next_id == old(parent).next_id,
        final(parent).pigs@ == old(parent).pigs@.filter(outlives(dt)).map_values(age(dt)),
        sold@ == old(parent).pigs@.filter(expires(dt)).map_values(pig_id()),
        final(money).0 == old(money).0 + PIG_PAYOUT * sold@.len(),
{
    let ghost before = parent.pigs@;
    let mut kept: Vec<Pig> = Vec::new();
    let mut sold: Vec<u64> = Vec::new();
    let mut i: usize = 0;
    proof {
        assert(before.take(0) =~= Seq::<Pig>::empty());
        Seq::<Pig>::empty().lemma_filter_len(outlives(dt));
        Seq::<Pig>::empty().lemma_filter_len(expires(dt));
        assert(kept@ =~= before.take(0).filter(outlives(dt)).map_values(age(dt)));
        assert(sold@ =~= before.take(0).filter(expires(dt)).map_values(pig_id()));
    }
    while i < parent.pigs.len()
        invariant
            i <= before.len(),
            parent.pigs@ == before,
            herd_wf(before, parent.next_id),
            kept@ == before.take(i as int).filter(outlives(dt)).map_values(age(dt)),
            sold@ == before.take(i as int).filter(expires(dt)).map_values(pig_id()),
            money.0 == old(money).0 + PIG_PAYOUT * sold@.len(),
            old(money).0 + PIG_PAYOUT * before.filter(expires(dt)).len() <= u64::MAX,
            forall|a: int| 0 <= a < kept@.len() ==> (#[trigger] kept@[a]).wf() && kept@[a].id
                < parent.next_id,
            forall|a: int, b: int| 0 <= a < b < kept@.len() ==> (#[trigger] kept@[a]).id != (
            #[trigger] kept@[b]).id,
            forall|a: int, j: int| 0 <= a < kept@.len() && i <= j < before.len() ==> (
            #[trigger] kept@[a]).id != (#[trigger] before[j]).id,
        decreases before.len() - i,
    {
        let mut pig: Pig = parent.pigs[i];
        proof {
            let seen = before.take(i as int);
            assert(before.take(i + 1) =~= seen.push(pig));
            seen.lemma_filter_push(pig, outlives(dt));
            seen.lemma_filter_push(pig, expires(dt));
            assert(seen.filter(outlives(dt)).push(pig).map_values(age(dt)) =~= seen.filter(
                outlives(dt),
            ).map_values(age(dt)).push(pig.aged(dt)));
            assert(seen.filter(expires(dt)).push(pig).map_values(pig_id()) =~= seen.filter(
                expires(dt),
            ).map_values(pig_id()).push(pig.id));
        }
        pig.lifetime.tick(dt);
        if pig.lifetime.finished() {
            proof {
                before.lemma_filter_take_len(expires(dt), i + 1);
                let due: nat = before.filter(expires(dt)).len();
                assert(PIG_PAYOUT * (sold@.len() + 1) <= PIG_PAYOUT * due) by (nonlinear_arith)
                    requires
                        sold@.len() + 1 <= due,
                ;
            }
            money.credit(PIG_PAYOUT);
            sold.push(pig.id);
        } else {
            kept.push(pig);
        }
        i = i + 1;
    }
    proof {
        assert(before.take(before.len() as int) =~= before);
    }
    parent.pigs = kept;
    sold
}

} // verus!
