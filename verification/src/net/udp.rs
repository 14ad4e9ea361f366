//! Pointer frames that wait to be sent: they are merged, so that the newest
//! position goes out without delay and no distance is lost.

use vstd::prelude::*;

use crate::protocol::Payload;

verus! {

/// `n`, kept within the range of an `i32`.
pub open spec fn saturated(n: int) -> int {
    if n < i32::MIN {
        i32::MIN as int
    } else if n > i32::MAX {
        i32::MAX as int
    } else {
        n
    }
}

fn saturating_sum(a: i32, b: i32) -> (r: i32)
    ensures
        r == saturated(a + b),
{
    let n: i64 = a as i64 + b as i64;
    if n < i32::MIN as i64 {
        i32::MIN
    } else if n > i32::MAX as i64 {
        i32::MAX
    } else {
        n as i32
    }
}

/// What is left to send of two frames: movements of one round are added up, and
/// otherwise only the newer one counts.
pub open spec fn merged(current: Payload, next: Payload) -> Payload {
    match (current, next) {
        (
            Payload::PointerMoveRelative { session: s1, seq: _, dx: dx1, dy: dy1 },
            Payload::PointerMoveRelative { session: s2, seq: q2, dx: dx2, dy: dy2 },
        ) if s1 == s2 => Payload::PointerMoveRelative {
            session: s1,
            seq: q2,
            dx: saturated(dx1 + dx2) as i32,
            dy: saturated(dy1 + dy2) as i32,
        },
        _ => next,
    }
}

/// Merges a newer frame into one that waits to be sent.
pub fn merge_move(current: &mut Payload, next: Payload)
    ensures
        *final(current) == merged(*old(current), next),
{
    let both: Option<Payload> = match (&*current, &next) {
        (
            Payload::PointerMoveRelative { session: s1, seq: _, dx: dx1, dy: dy1 },
            Payload::PointerMoveRelative { session: s2, seq: q2, dx: dx2, dy: dy2 },
        ) => {
            if *s1 == *s2 {
                Some(
                    Payload::PointerMoveRelative {
                        session: *s1,
                        seq: *q2,
                        dx: saturating_sum(*dx1, *dx2),
                        dy: saturating_sum(*dy1, *dy2),
                    },
                )
            } else {
                None
            }
        },
        _ => None,
    };
    match both {
        Some(sum) => {
            *current = sum;
        },
        None => {
            *current = next;
        },
    }
}

/// What is left to send of a frame and those that came after it.
pub open spec fn merged_all(first: Payload, rest: Seq<Payload>) -> Payload
    decreases rest.len(),
{
    if rest.len() == 0 {
        first
    } else {
        merged(merged_all(first, rest.drop_last()), rest.last())
    }
}

/// Merges a frame with all that came after it.
pub fn merge_waiting(first: Payload, rest: Vec<Payload>) -> (frame: Payload)
    ensures
        frame == merged_all(first, rest@),
{
    let ghost all = rest@;
    let mut frame = first;
    assert(all.take(0) =~= Seq::<Payload>::empty());
    for next in it: rest
        invariant
            it.seq() == all,
            frame == merged_all(first, all.take(it.index())),
    {
        proof {
            let n = it.index();
            assert(all.take(n + 1).drop_last() =~= all.take(n));
            assert(all.take(n + 1).last() == next);
        }
        merge_move(&mut frame, next);
    }
    assert(all.take(all.len() as int) =~= all);
    frame
}

/// The distance of a movement.
pub open spec fn distance(p: Payload) -> (int, int) {
    match p {
        Payload::PointerMoveRelative { dx, dy, .. } => (dx as int, dy as int),
        _ => (0, 0),
    }
}

/// The distances of several movements together.
pub open spec fn total_distance(first: Payload, rest: Seq<Payload>) -> (int, int)
    decreases rest.len(),
{
    if rest.len() == 0 {
        distance(first)
    } else {
        let t = total_distance(first, rest.drop_last());
        (t.0 + distance(rest.last()).0, t.1 + distance(rest.last()).1)
    }
}

/// Whether a frame is a movement of the round `session`.
pub open spec fn is_movement(p: Payload, session: u64) -> bool {
    p matches Payload::PointerMoveRelative { session: s, .. } && s == session
}

/// The number of a frame within its round.
pub open spec fn number_of(p: Payload) -> u64 {
    match p {
        Payload::PointerMoveRelative { seq, .. } => seq,
        Payload::PointerMove { seq, .. } => seq,
        _ => 0,
    }
}

/// Merging movements of one round loses no distance, as long as the distances
/// travelled can be said in 32 bits. What is sent has the number of the last one.
pub proof fn law_no_distance_is_lost(first: Payload, rest: Seq<Payload>, session: u64)
    requires
        is_movement(first, session),
        forall|i: int| 0 <= i < rest.len() ==> #[trigger] is_movement(rest[i], session),
        forall|k: int|
            0 <= k <= rest.len() ==> {
                let t = #[trigger] total_distance(first, rest.take(k));
                i32::MIN <= t.0 <= i32::MAX && i32::MIN <= t.1 <= i32::MAX
            },
    ensures
        is_movement(merged_all(first, rest), session),
        distance(merged_all(first, rest)) == total_distance(first, rest),
        number_of(merged_all(first, rest)) == number_of(
            if rest.len() == 0 {
                first
            } else {
                rest.last()
            },
        ),
    decreases rest.len(),
{
    if rest.len() > 0 {
        let before = rest.drop_last();
        let n = rest.len() as int;
        assert forall|i: int| 0 <= i < before.len() implies #[trigger] is_movement(
            before[i],
            session,
        ) by {
            assert(is_movement(rest[i], session));
        }
        assert forall|k: int| 0 <= k <= before.len() implies ({
            let t = #[trigger] total_distance(first, before.take(k));
            i32::MIN <= t.0 <= i32::MAX && i32::MIN <= t.1 <= i32::MAX
        }) by {
            assert(before.take(k) =~= rest.take(k));
            let t = total_distance(first, rest.take(k));
        }
        law_no_distance_is_lost(first, before, session);
        assert(is_movement(rest[n - 1], session));
        assert(rest.take(n) =~= rest);
        let t = total_distance(first, rest.take(n));
    }
}

/// Of positions only the newest is sent.
pub proof fn law_newest_position_is_sent(first: Payload, rest: Seq<Payload>)
    requires
        rest.len() > 0,
        rest.last() is PointerMove,
    ensures
        merged_all(first, rest) == rest.last(),
{
}

/// A frame of a new round is never mixed with one of an old round.
pub proof fn law_rounds_are_not_mixed(current: Payload, next: Payload, session: u64)
    requires
        is_movement(next, session),
        !is_movement(current, session),
    ensures
        merged(current, next) == next,
{
}

/// Two movements of one round become one of that round, with the newer number and with
/// the distances added, each kept within 32 bits.
pub proof fn law_movements_are_added(
    session: u64,
    q: u64,
    r: u64,
    a: i32,
    b: i32,
    c: i32,
    d: i32,
)
    ensures
        ({
            let sum = merged(
                Payload::PointerMoveRelative { session, seq: q, dx: a, dy: b },
                Payload::PointerMoveRelative { session, seq: r, dx: c, dy: d },
            );
            &&& sum matches Payload::PointerMoveRelative { session: s, seq, dx: x, dy: y }
            &&& s == session
            &&& seq == r
            &&& -0x8000_0000 <= a + c <= 0x7FFF_FFFF ==> x == a + c
            &&& a + c > 0x7FFF_FFFF ==> x == 0x7FFF_FFFF
            &&& a + c < -0x8000_0000 ==> x == -0x8000_0000
            &&& -0x8000_0000 <= b + d <= 0x7FFF_FFFF ==> y == b + d
            &&& b + d > 0x7FFF_FFFF ==> y == 0x7FFF_FFFF
            &&& b + d < -0x8000_0000 ==> y == -0x8000_0000
        }),
{
}

/// Anything but two movements becomes the newer of the two.
pub proof fn law_newer_frame_counts(current: Payload, next: Payload)
    requires
        !(current is PointerMoveRelative) || !(next is PointerMoveRelative),
    ensures
        merged(current, next) == next,
{
}

} // verus!
