//! The collision resolver: what happens to the ball, the score and the
//! colliders when the ball overlaps them.

use vstd::prelude::*;
use crate::entity::{reversible, Entity, EntityKind, PlayerId};
use crate::geometry::{test_overlap, Aabb, Side, Vector2};
use crate::scoreboard::Scoreboard;

verus! {

/// The velocity of a ball after it struck the given face of a collider.
///
/// A component changes sign only where it points into the struck face: a
/// ball that is already moving away from the face keeps its velocity.
pub open spec fn reflected(velocity: Vector2, side: Side) -> Vector2 {
    match side {
        Side::Left => if velocity.x > 0 {
            Vector2 { x: (-velocity.x) as i64, y: velocity.y }
        } else {
            velocity
        },
        Side::Right => if velocity.x < 0 {
            Vector2 { x: (-velocity.x) as i64, y: velocity.y }
        } else {
            velocity
        },
        Side::Top => if velocity.y < 0 {
            Vector2 { x: velocity.x, y: (-velocity.y) as i64 }
        } else {
            velocity
        },
        Side::Bottom => if velocity.y > 0 {
            Vector2 { x: velocity.x, y: (-velocity.y) as i64 }
        } else {
            velocity
        },
    }
}

/// Reflects a velocity off the struck face of a collider.
pub fn reflect(velocity: Vector2, side: Side) -> (after: Vector2)
    requires
        reversible(velocity),
    ensures
        after == reflected(velocity, side),
        reversible(after),
{
    match side {
        Side::Left => if velocity.x > 0 {
            Vector2 { x: -velocity.x, y: velocity.y }
        } else {
            velocity
        },
        Side::Right => if velocity.x < 0 {
            Vector2 { x: -velocity.x, y: velocity.y }
        } else {
            velocity
        },
        Side::Top => if velocity.y < 0 {
            Vector2 { x: velocity.x, y: -velocity.y }
        } else {
            velocity
        },
        Side::Bottom => if velocity.y > 0 {
            Vector2 { x: velocity.x, y: -velocity.y }
        } else {
            velocity
        },
    }
}

/// A ball that has been reflected off a face moves away from that face, and
/// reflecting it off the same face again changes nothing.
pub proof fn lemma_reflection_settles(velocity: Vector2, side: Side)
    requires
        reversible(velocity),
    ensures
        reflected(reflected(velocity, side), side) == reflected(velocity, side),
        side == Side::Left ==> reflected(velocity, side).x <= 0,
        side == Side::Right ==> reflected(velocity, side).x >= 0,
        side == Side::Top ==> reflected(velocity, side).y >= 0,
        side == Side::Bottom ==> reflected(velocity, side).y <= 0,
        side == Side::Left && velocity.x > 0 ==> reflected(velocity, side).x == -velocity.x,
        side == Side::Right && velocity.x < 0 ==> reflected(velocity, side).x == -velocity.x,
        side == Side::Top && velocity.y < 0 ==> reflected(velocity, side).y == -velocity.y,
        side == Side::Bottom && velocity.y > 0 ==> reflected(velocity, side).y == -velocity.y,
{
}

/// What one collider does to the ball and the score.
#[derive(Clone, Copy, Debug, PartialEq, Eq, Structural)]
pub struct Contact {
    /// The velocity of the ball after the contact.
    pub velocity: Vector2,
    /// The score after the contact.
    pub scoreboard: Scoreboard,
    /// The collider was a scorable block and is to leave the registry.
    pub destroyed: bool,
    /// The collider was a wall: no further collider is looked at this tick.
    pub solid: bool,
}

/// The outcome of testing the ball against one collider.
///
/// Without overlap nothing changes. On overlap a paddle reflects the ball;
/// a wall reflects it and ends the tick's resolution; a scorable block
/// reflects it, credits the block's owner and is destroyed. A ball is no
/// collider.
pub open spec fn struck(
    ball: Aabb,
    velocity: Vector2,
    scoreboard: Scoreboard,
    collider: Entity,
) -> Contact {
    match ball.struck_side(collider.bounds()) {
        None => Contact { velocity, scoreboard, destroyed: false, solid: false },
        Some(side) => match collider.kind {
            EntityKind::Paddle { owner, speed } => Contact {
                velocity: reflected(velocity, side),
                scoreboard,
                destroyed: false,
                solid: false,
            },
            EntityKind::Ball { velocity: other } => Contact {
                velocity,
                scoreboard,
                destroyed: false,
                solid: false,
            },
            EntityKind::Wall => Contact {
                velocity: reflected(velocity, side),
                scoreboard,
                destroyed: false,
                solid: true,
            },
            EntityKind::ScorableBlock { owner } => Contact {
                velocity: reflected(velocity, side),
                scoreboard: scoreboard.credited(owner),
                destroyed: true,
                solid: false,
            },
        },
    }
}

/// Tests the ball against one collider and says what follows.
pub fn strike(ball: Aabb, velocity: Vector2, scoreboard: Scoreboard, collider: &Entity) -> (contact:
    Contact)
    requires
        reversible(velocity),
        collider.kind matches EntityKind::ScorableBlock { owner } ==> scoreboard.of(owner)
            < u32::MAX,
    ensures
        contact == struck(ball, velocity, scoreboard, *collider),
        reversible(contact.velocity),
{
    match test_overlap(ball, collider.bounding_box()) {
        None => Contact { velocity, scoreboard, destroyed: false, solid: false },
        Some(side) => match collider.kind {
            EntityKind::Paddle { owner, speed } => Contact {
                velocity: reflect(velocity, side),
                scoreboard,
                destroyed: false,
                solid: false,
            },
            EntityKind::Ball { velocity: other } => Contact {
                velocity,
                scoreboard,
                destroyed: false,
                solid: false,
            },
            EntityKind::Wall => Contact {
                velocity: reflect(velocity, side),
                scoreboard,
                destroyed: false,
                solid: true,
            },
            EntityKind::ScorableBlock { owner } => {
                let mut credited = scoreboard;
                credited.credit(owner);
                Contact {
                    velocity: reflect(velocity, side),
                    scoreboard: credited,
                    destroyed: true,
                    solid: false,
                }
            },
        },
    }
}

/// The state in which a resolution leaves the ball, the score and the
/// colliders.
pub struct Resolution {
    pub velocity: Vector2,
    pub scoreboard: Scoreboard,
    pub survivors: Seq<Entity>,
}

/// The resolution of one tick: the colliders are taken in their order, each
/// is tested against the ball with the velocity and score that the earlier
/// ones left, destroyed blocks leave the sequence, and the first wall that
/// the ball overlaps ends the resolution.
pub open spec fn resolved(
    ball: Aabb,
    velocity: Vector2,
    scoreboard: Scoreboard,
    colliders: Seq<Entity>,
) -> Resolution
    decreases colliders.len(),
{
    if colliders.len() == 0 {
        Resolution { velocity, scoreboard, survivors: colliders }
    } else {
        let contact = struck(ball, velocity, scoreboard, colliders[0]);
        if contact.solid {
            Resolution {
                velocity: contact.velocity,
                scoreboard: contact.scoreboard,
                survivors: colliders,
            }
        } else {
            let rest = resolved(ball, contact.velocity, contact.scoreboard, colliders.skip(1));
            Resolution {
                velocity: rest.velocity,
                scoreboard: rest.scoreboard,
                survivors: if contact.destroyed {
                    rest.survivors
                } else {
                    seq![colliders[0]] + rest.survivors
                },
            }
        }
    }
}

/// The number of scorable blocks in `colliders` that score for `player`.
pub open spec fn blocks_of(colliders: Seq<Entity>, player: PlayerId) -> nat
    decreases colliders.len(),
{
    if colliders.len() == 0 {
        0
    } else {
        let counted: nat = if colliders[0].kind == (EntityKind::ScorableBlock { owner: player }) {
            1
        } else {
            0
        };
        counted + blocks_of(colliders.skip(1), player)
    }
}

/// `survivors` is `colliders` with some of its scorable blocks taken out:
/// what stays keeps its order, and nothing occurs more often than before.
pub open spec fn remains_of(survivors: Seq<Entity>, colliders: Seq<Entity>) -> bool
    decreases colliders.len(),
{
    if colliders.len() == 0 {
        survivors.len() == 0
    } else {
        ||| (survivors.len() > 0 && survivors[0] == colliders[0] && remains_of(
            survivors.skip(1),
            colliders.skip(1),
        ))
        ||| (colliders[0].kind is ScorableBlock && remains_of(survivors, colliders.skip(1)))
    }
}

/// Every sequence is what remains of itself.
pub proof fn lemma_remains_of_itself(colliders: Seq<Entity>)
    ensures
        remains_of(colliders, colliders),
    decreases colliders.len(),
{
    if colliders.len() > 0 {
        lemma_remains_of_itself(colliders.skip(1));
    }
}

/// The blocks of a sequence are those of its parts.
pub proof fn lemma_blocks_of_concat(front: Seq<Entity>, back: Seq<Entity>, player: PlayerId)
    ensures
        blocks_of(front + back, player) == blocks_of(front, player) + blocks_of(back, player),
    decreases front.len(),
{
    if front.len() == 0 {
        assert(front + back =~= back);
    } else {
        assert((front + back).skip(1) =~= front.skip(1) + back);
        lemma_blocks_of_concat(front.skip(1), back, player);
    }
}

/// A sequence that holds nothing but blocks of one owner has as many blocks
/// of that owner as it is long, and none of the other owner; a sequence
/// without blocks has none of either.
pub proof fn lemma_blocks_of_uniform(colliders: Seq<Entity>, kind: EntityKind, player: PlayerId)
    requires
        forall|i: int| 0 <= i < colliders.len() ==> (#[trigger] colliders[i]).kind == kind,
    ensures
        blocks_of(colliders, player) == if kind == (EntityKind::ScorableBlock { owner: player }) {
            colliders.len()
        } else {
            0
        },
    decreases colliders.len(),
{
    if colliders.len() > 0 {
        let tail = colliders.skip(1);
        assert forall|i: int| 0 <= i < tail.len() implies (#[trigger] tail[i]).kind == kind by {
            assert(tail[i] == colliders[i + 1]);
        }
        lemma_blocks_of_uniform(tail, kind, player);
    }
}

/// What remains of walls and blocks are walls and blocks, and no more of
/// them than there were.
pub proof fn lemma_remains_are_obstacles(survivors: Seq<Entity>, colliders: Seq<Entity>)
    requires
        remains_of(survivors, colliders),
        forall|i: int| 0 <= i < colliders.len() ==> (#[trigger] colliders[i]).is_obstacle(),
    ensures
        forall|i: int| 0 <= i < survivors.len() ==> (#[trigger] survivors[i]).is_obstacle(),
        survivors.len() <= colliders.len(),
    decreases colliders.len(),
{
    if colliders.len() > 0 {
        let tail = colliders.skip(1);
        assert forall|i: int| 0 <= i < tail.len() implies (#[trigger] tail[i]).is_obstacle() by {
            assert(tail[i] == colliders[i + 1]);
        }
        if survivors.len() > 0 && survivors[0] == colliders[0] && remains_of(
            survivors.skip(1),
            tail,
        ) {
            lemma_remains_are_obstacles(survivors.skip(1), tail);
            assert forall|i: int| 0 <= i < survivors.len() implies (
            #[trigger] survivors[i]).is_obstacle() by {
                if i > 0 {
                    assert(survivors[i] == survivors.skip(1)[i - 1]);
                } else {
                    assert(survivors[0] == colliders[0]);
                }
            }
        } else {
            lemma_remains_are_obstacles(survivors, tail);
        }
    }
}

/// What remains of what remains of a sequence remains of that sequence.
pub proof fn lemma_remains_of_transitive(
    last: Seq<Entity>,
    middle: Seq<Entity>,
    first: Seq<Entity>,
)
    requires
        remains_of(last, middle),
        remains_of(middle, first),
    ensures
        remains_of(last, first),
    decreases first.len(),
{
    if first.len() > 0 {
        if middle.len() > 0 && middle[0] == first[0] && remains_of(middle.skip(1), first.skip(1)) {
            if last.len() > 0 && last[0] == middle[0] && remains_of(last.skip(1), middle.skip(1)) {
                lemma_remains_of_transitive(last.skip(1), middle.skip(1), first.skip(1));
            } else {
                lemma_remains_of_transitive(last, middle.skip(1), first.skip(1));
            }
        } else {
            lemma_remains_of_transitive(last, middle, first.skip(1));
        }
    }
}

/// A resolution only ever takes scorable blocks away, and each block that it
/// takes away adds exactly one point to the score of the block's owner: a
/// counter never shrinks, and no block is credited twice, because a
/// destroyed block is not among the colliders that are left.
pub proof fn lemma_resolution_accounts(
    ball: Aabb,
    velocity: Vector2,
    scoreboard: Scoreboard,
    colliders: Seq<Entity>,
    player: PlayerId,
)
    requires
        reversible(velocity),
        scoreboard.total() + colliders.len() <= u32::MAX,
    ensures
        ({
            let after = resolved(ball, velocity, scoreboard, colliders);
            &&& remains_of(after.survivors, colliders)
            &&& blocks_of(after.survivors, player) <= blocks_of(colliders, player)
            &&& after.scoreboard.of(player) == scoreboard.of(player) + blocks_of(colliders, player)
                - blocks_of(after.survivors, player)
            &&& after.scoreboard.of(player) >= scoreboard.of(player)
            &&& after.scoreboard.total() + after.survivors.len() == scoreboard.total()
                + colliders.len()
            &&& reversible(after.velocity)
        }),
    decreases colliders.len(),
{
    if colliders.len() > 0 {
        let contact = struck(ball, velocity, scoreboard, colliders[0]);
        if contact.solid {
            lemma_remains_of_itself(colliders);
        } else {
            let tail = colliders.skip(1);
            lemma_resolution_accounts(ball, contact.velocity, contact.scoreboard, tail, player);
            let rest = resolved(ball, contact.velocity, contact.scoreboard, tail);
            if !contact.destroyed {
                let kept = seq![colliders[0]] + rest.survivors;
                assert(kept.skip(1) =~= rest.survivors);
                assert(kept[0] == colliders[0]);
            }
        }
    }
}

/// Resolves the collisions of one tick.
///
/// `ball` is the bounding box of the ball after it has moved. The colliders
/// are taken in the order in which the vector holds them; destroyed blocks
/// are removed from it and the others keep their order.
pub fn resolve_collisions(
    ball: Aabb,
    velocity: &mut Vector2,
    scoreboard: &mut Scoreboard,
    colliders: &mut Vec<Entity>,
)
    requires
        reversible(*old(velocity)),
        old(scoreboard).total() + old(colliders).len() <= u32::MAX,
    ensures
        ({
            let after = resolved(ball, *old(velocity), *old(scoreboard), old(colliders)@);
            &&& *final(velocity) == after.velocity
            &&& *final(scoreboard) == after.scoreboard
            &&& final(colliders)@ == after.survivors
        }),
        reversible(*final(velocity)),
        final(scoreboard).total() + final(colliders).len() == old(scoreboard).total() + old(
            colliders,
        ).len(),
{
    let ghost whole = resolved(ball, *old(velocity), *old(scoreboard), old(colliders)@);
    let ghost budget = old(scoreboard).total() + old(colliders).len();
    let mut index: usize = 0;
    let mut stopped = false;
    proof {
        assert(colliders@.skip(0) =~= colliders@);
        assert(colliders@.take(0) + whole.survivors =~= whole.survivors);
    }
    while !stopped && index < colliders.len()
        invariant
            index <= colliders.len(),
            reversible(*velocity),
            budget <= u32::MAX,
            scoreboard.total() + colliders.len() == budget,
            stopped ==> whole.velocity == *velocity && whole.scoreboard == *scoreboard
                && whole.survivors == colliders@,
            !stopped ==> ({
                let rest = resolved(ball, *velocity, *scoreboard, colliders@.skip(index as int));
                &&& whole.velocity == rest.velocity
                &&& whole.scoreboard == rest.scoreboard
                &&& whole.survivors == colliders@.take(index as int) + rest.survivors
            }),
        decreases colliders.len() - index + (if stopped { 0int } else { 1int }),
    {
        let ghost before = colliders@;
        let ghost pending = before.skip(index as int);
        let collider = colliders[index];
        let contact = strike(ball, *velocity, *scoreboard, &collider);
        proof {
            assert(pending[0] == collider);
            assert(pending.skip(1) =~= before.skip(index as int + 1));
        }
        *velocity = contact.velocity;
        *scoreboard = contact.scoreboard;
        if contact.solid {
            stopped = true;
            proof {
                assert(before.take(index as int) + pending =~= before);
            }
        } else if contact.destroyed {
            colliders.remove(index);
            proof {
                assert(colliders@.skip(index as int) =~= before.skip(index as int + 1));
                assert(colliders@.take(index as int) =~= before.take(index as int));
            }
        } else {
            index = index + 1;
            proof {
                let rest = resolved(ball, *velocity, *scoreboard, before.skip(index as int));
                assert(before.take(index as int - 1) + (seq![collider] + rest.survivors)
                    =~= before.take(index as int) + rest.survivors);
            }
        }
    }
    proof {
        if !stopped {
            assert(colliders@.skip(index as int) =~= Seq::<Entity>::empty());
            assert(colliders@.take(index as int) =~= colliders@);
            let rest = resolved(ball, *velocity, *scoreboard, colliders@.skip(index as int));
            assert(colliders@.take(index as int) + rest.survivors =~= colliders@);
        }
    }
}

/// A ball that overlaps a wall is reflected off the struck face only, the
/// wall ends the resolution, and resolving the same overlap a second time
/// leaves the ball as the first resolution left it.
pub proof fn lemma_wall_hit_settles(
    ball: Aabb,
    velocity: Vector2,
    scoreboard: Scoreboard,
    wall: Entity,
    others: Seq<Entity>,
)
    requires
        reversible(velocity),
        wall.kind is Wall,
        ball.overlaps(wall.bounds()),
    ensures
        ({
            let colliders = seq![wall] + others;
            let side = ball.struck_side(wall.bounds())->Some_0;
            let once = resolved(ball, velocity, scoreboard, colliders);
            let twice = resolved(ball, once.velocity, once.scoreboard, once.survivors);
            &&& once.velocity == reflected(velocity, side)
            &&& once.scoreboard == scoreboard
            &&& once.survivors == colliders
            &&& twice == once
            &&& side == Side::Left && velocity.x > 0 ==> once.velocity.x < 0 && twice.velocity.x
                == once.velocity.x
        }),
{
    let colliders = seq![wall] + others;
    let side = ball.struck_side(wall.bounds())->Some_0;
    assert(colliders[0] == wall);
    lemma_reflection_settles(velocity, side);
}

} // verus!
