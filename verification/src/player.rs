//! The player: where the held keys ask it to go, and which walls it ran
//! into.

use vstd::prelude::*;
use crate::fixed::{diagonal, diagonal_part, lemma_diagonal_part};
use crate::vector::{magnitude, signum, Vec2};

verus! {

/// The one character that the keys steer.
#[derive(Clone, Copy, Debug, PartialEq, Eq, Structural)]
pub struct Player {
    /// Where collision resolution last put the player.
    pub position: Vec2,
    /// World units per second.
    pub speed: u16,
}

/// An obstacle that never moves.
#[derive(Clone, Copy, Debug, PartialEq, Eq, Structural)]
pub struct Wall {
    /// The name under which collision resolution reports a touch of it.
    pub id: u64,
    /// The centre of the wall.
    pub position: Vec2,
    /// Half its width and half its height.
    pub half_extents: Vec2,
}

/// The keys as they stand in one tick.
#[derive(Clone, Copy, Debug, PartialEq, Eq, Structural)]
pub struct InputSnapshot {
    /// Held down.
    pub up: bool,
    /// Held down.
    pub down: bool,
    /// Held down.
    pub left: bool,
    /// Held down.
    pub right: bool,
    /// Went down in this tick; a key that stays down does not count again.
    pub spawn: bool,
}

/// One touch that collision resolution reports for the player.
#[derive(Clone, Copy, Debug, PartialEq, Eq, Structural)]
pub struct Contact {
    /// What was touched.
    pub entity: u64,
    /// The direction in which the two are pushed apart.
    pub normal: Vec2,
    /// How far into the requested movement the touch happened, in
    /// thousandths.
    pub time_of_impact: i64,
}

/// What a pair of opposed keys asks for on its axis: `1` or `-1` where one
/// of them is held, `0` where neither is or where they cancel.
pub open spec fn axis(positive: bool, negative: bool) -> int {
    if positive == negative {
        0
    } else if positive {
        1
    } else {
        -1
    }
}

/// How far the player moves along an axis that is asked for, in a tick of
/// `dt` milliseconds: `speed * dt` where one axis is asked for, and that
/// divided by the square root of two where both are, so that the way made
/// is the same.
pub open spec fn stride(speed: u16, input: InputSnapshot, dt: u16) -> int {
    if axis(input.right, input.left) != 0 && axis(input.up, input.down) != 0 {
        diagonal_part((speed * dt) as nat) as int
    } else {
        speed * dt
    }
}

/// The component of a diagonal movement that stands for `v`: `v` divided
/// by the square root of two and rounded towards zero.
pub open spec fn diagonal_component(v: int) -> int {
    signum(v) * diagonal_part(magnitude(v))
}

/// Shortens a movement along both axes so that it is no longer than either
/// component was; a movement along one axis, or none, is left as it is.
pub fn normalize_diagonal_movement(target_y_movement: &mut i64, target_x_movement: &mut i64)
    ensures
        *old(target_x_movement) != 0 && *old(target_y_movement) != 0 ==> {
            &&& *final(target_x_movement) == diagonal_component(*old(target_x_movement) as int)
            &&& *final(target_y_movement) == diagonal_component(*old(target_y_movement) as int)
        },
        *old(target_x_movement) == 0 || *old(target_y_movement) == 0 ==> {
            &&& *final(target_x_movement) == *old(target_x_movement)
            &&& *final(target_y_movement) == *old(target_y_movement)
        },
{
    if *target_x_movement != 0 && *target_y_movement != 0 {
        *target_x_movement = shorten(*target_x_movement);
        *target_y_movement = shorten(*target_y_movement);
    }
}

/// Divides `v` by the square root of two.
fn shorten(v: i64) -> (r: i64)
    ensures
        r == diagonal_component(v as int),
{
    let size: u64 = if v < 0 {
        (-(v as i128)) as u64
    } else {
        v as u64
    };
    proof {
        lemma_diagonal_part(size as nat);
    }
    let part: u64 = diagonal(size);
    if v < 0 {
        -(part as i64)
    } else {
        part as i64
    }
}

/// The movement that the held keys ask of the player for a tick of `dt`
/// milliseconds.
pub fn player_movement(player: &Player, input: &InputSnapshot, dt: u16) -> (request: Vec2)
    ensures
        request.x == axis(input.right, input.left) * stride(player.speed, *input, dt),
        request.y == axis(input.up, input.down) * stride(player.speed, *input, dt),
{
    assert(player.speed * dt <= 65_535 * 65_535) by (nonlinear_arith)
        requires
            player.speed <= 65_535,
            dt <= 65_535,
    ;
    let movement_amount: i64 = (player.speed as i64) * (dt as i64);
    let mut target_y_movement: i64 = if input.up && !input.down {
        movement_amount
    } else if input.down && !input.up {
        -movement_amount
    } else {
        0
    };
    let mut target_x_movement: i64 = if input.right && !input.left {
        movement_amount
    } else if input.left && !input.right {
        -movement_amount
    } else {
        0
    };
    normalize_diagonal_movement(&mut target_y_movement, &mut target_x_movement);
    proof {
        let part = diagonal_part(movement_amount as nat) as int;
        let step = stride(player.speed, *input, dt);
        let sx = axis(input.right, input.left);
        let sy = axis(input.up, input.down);
        lemma_diagonal_part(movement_amount as nat);
        assert(diagonal_component(movement_amount as int) == signum(movement_amount as int)
            * part);
        assert(diagonal_component(-movement_amount) == signum(-movement_amount) * part);
        assert(sx * step == (if sx == 1 {
            step
        } else if sx == -1 {
            -step
        } else {
            0
        })) by (nonlinear_arith)
            requires
                -1 <= sx <= 1,
        ;
        assert(sy * step == (if sy == 1 {
            step
        } else if sy == -1 {
            -step
        } else {
            0
        })) by (nonlinear_arith)
            requires
                -1 <= sy <= 1,
        ;
        assert(1 * part == part && -1 * part == -part && 0 * part == 0) by (nonlinear_arith);
    }
    Vec2 { x: target_x_movement, y: target_y_movement }
}

/// Walking along both axes at once is no faster than walking along one.
///
/// The movement asked for is never longer than `speed * dt`; along a
/// single axis it is exactly that long; along both it falls short of it by
/// less than one thousandth on each axis.
pub proof fn lemma_diagonal_as_fast_as_axial(speed: u16, input: InputSnapshot, dt: u16)
    ensures
        ({
            let x = axis(input.right, input.left) * stride(speed, input, dt);
            let y = axis(input.up, input.down) * stride(speed, input, dt);
            let amount = speed * dt;
            &&& x * x + y * y <= amount * amount
            &&& (x == 0) != (y == 0) ==> x * x + y * y == amount * amount
            &&& x != 0 && y != 0 ==> amount * amount < (magnitude(x) + 1) * (magnitude(x) + 1) + (
            magnitude(y) + 1) * (magnitude(y) + 1)
        }),
{
    let sx = axis(input.right, input.left);
    let sy = axis(input.up, input.down);
    let amount: nat = (speed * dt) as nat;
    let part: nat = diagonal_part(amount);
    lemma_diagonal_part(amount);
    let x = sx * stride(speed, input, dt);
    let y = sy * stride(speed, input, dt);
    if sx != 0 && sy != 0 {
        assert(x * x == part * part && magnitude(x) == part) by (nonlinear_arith)
            requires
                x == sx * part,
                sx == 1 || sx == -1,
                magnitude(x) == x || magnitude(x) == -x,
                magnitude(x) >= 0,
        ;
        assert(y * y == part * part && magnitude(y) == part) by (nonlinear_arith)
            requires
                y == sy * part,
                sy == 1 || sy == -1,
                magnitude(y) == y || magnitude(y) == -y,
                magnitude(y) >= 0,
        ;
    } else {
        assert(x * x + y * y <= amount * amount && ((x == 0) != (y == 0) ==> x * x + y * y
            == amount * amount)) by (nonlinear_arith)
            requires
                x == sx * amount,
                y == sy * amount,
                sx == 0 || sy == 0,
                -1 <= sx <= 1,
                -1 <= sy <= 1,
        ;
    }
}

/// Some wall has the identifier `entity`.
pub open spec fn is_wall(walls: Seq<Wall>, entity: u64) -> bool {
    exists|i: int| 0 <= i < walls.len() && #[trigger] walls[i].id == entity
}

/// The test that picks the contacts with a wall.
pub open spec fn touches_wall(walls: Seq<Wall>) -> spec_fn(Contact) -> bool {
    |c: Contact| is_wall(walls, c.entity)
}

/// What a contact touched.
pub open spec fn touched() -> spec_fn(Contact) -> u64 {
    |c: Contact| c.entity
}

/// Whether `entity` is one of the walls.
pub fn carries_wall_tag(walls: &Vec<Wall>, entity: u64) -> (found: bool)
    ensures
        found == is_wall(walls@, entity),
{
    let mut i: usize = 0;
    while i < walls.len()
        invariant
            i <= walls.len(),
            forall|j: int| 0 <= j < i ==> walls@[j].id != entity,
        decreases walls.len() - i,
    {
        if walls[i].id == entity {
            return true;
        }
        i = i + 1;
    }
    false
}

/// The walls that the player ran into, one entry for each contact with a
/// wall, in the order of the contacts.
pub fn player_hit_wall(contacts: &Vec<Contact>, walls: &Vec<Wall>) -> (hits: Vec<u64>)
    ensures
        hits@ == contacts@.filter(touches_wall(walls@)).map_values(touched()),
{
    let mut hits: Vec<u64> = Vec::new();
    let mut i: usize = 0;
    proof {
        assert(contacts@.take(0) =~= Seq::<Contact>::empty());
        Seq::<Contact>::empty().lemma_filter_len(touches_wall(walls@));
        assert(hits@ =~= contacts@.take(0).filter(touches_wall(walls@)).map_values(touched()));
    }
    while i < contacts.len()
        invariant
            i <= contacts.len(),
            hits@ == contacts@.take(i as int).filter(touches_wall(walls@)).map_values(touched()),
        decreases contacts.len() - i,
    {
        let contact: Contact = contacts[i];
        proof {
            let seen = contacts@.take(i as int);
            assert(contacts@.take(i + 1) =~= seen.push(contact));
            seen.lemma_filter_push(contact, touches_wall(walls@));
            assert(seen.filter(touches_wall(walls@)).push(contact).map_values(touched())
                =~= seen.filter(touches_wall(walls@)).map_values(touched()).push(contact.entity));
        }
        if carries_wall_tag(walls, contact.entity) {
            hits.push(contact.entity);
        }
        i = i + 1;
    }
    proof {
        assert(contacts@.take(contacts.len() as int) =~= contacts@);
    }
    hits
}

} // verus!
