//! The keys that turn the sun.
use vstd::prelude::*;

verus! {

/// An axis about which the directional light turns.
#[derive(PartialEq, Eq, Structural, Debug, Clone, Copy)]
pub enum LightAxis {
    X,
    Y,
}

/// One turn of the directional light in a frame: about `axis`, forwards
/// (`direction` 1) or backwards (`direction` -1), by the frame's time times
/// the turning speed.
#[derive(PartialEq, Eq, Structural, Debug, Clone, Copy)]
pub struct LightTurn {
    pub axis: LightAxis,
    pub direction: i8,
}

/// The light keys held in a frame.
#[derive(PartialEq, Eq, Structural, Debug, Clone, Copy)]
pub struct LightKeys {
    pub h: bool,
    pub l: bool,
    pub j: bool,
    pub k: bool,
}

/// `s`, followed by `t` when `cond` holds.
pub open spec fn push_if(s: Seq<LightTurn>, cond: bool, t: LightTurn) -> Seq<LightTurn> {
    if cond {
        s.push(t)
    } else {
        s
    }
}

/// The turns for the keys held, in the order H, L, J, K: H and L turn the
/// light about the vertical axis forwards and backwards, J and K about the
/// horizontal axis.
pub open spec fn spec_light_turns(keys: LightKeys) -> Seq<LightTurn> {
    push_if(
        push_if(
            push_if(
                push_if(Seq::empty(), keys.h, LightTurn { axis: LightAxis::Y, direction: 1i8 }),
                keys.l,
                LightTurn { axis: LightAxis::Y, direction: -1i8 },
            ),
            keys.j,
            LightTurn { axis: LightAxis::X, direction: 1i8 },
        ),
        keys.k,
        LightTurn { axis: LightAxis::X, direction: -1i8 },
    )
}

/// `push_if(s, cond, t)` holds what `s` holds, and `t` when `cond` holds.
proof fn lemma_push_if_contains(s: Seq<LightTurn>, cond: bool, t: LightTurn, x: LightTurn)
    ensures
        push_if(s, cond, t).contains(x) <==> (s.contains(x) || (cond && x == t)),
        push_if(s, cond, t).len() == s.len() + if cond { 1int } else { 0int },
{
    if cond {
        let r = s.push(t);
        if s.contains(x) {
            let i = choose|i: int| 0 <= i < s.len() && s[i] == x;
            assert(r[i] == x);
        }
        if x == t {
            assert(r[s.len() as int] == x);
        }
        if r.contains(x) {
            let i = choose|i: int| 0 <= i < r.len() && r[i] == x;
            if i < s.len() {
                assert(s[i] == x);
            }
        }
    }
}

/// How many of `b` hold.
pub open spec fn count_held(b: bool) -> int {
    if b { 1 } else { 0 }
}

/// Each light key held gives exactly one turn, and each turn comes from a key
/// held: H turns forwards about the vertical axis and L backwards about it, J
/// forwards about the horizontal axis and K backwards about it. So H and L
/// turn the light about the same axis in opposite directions, and so do J and
/// K.
pub proof fn lemma_light_keys_turn(keys: LightKeys)
    ensures
        spec_light_turns(keys).len() == count_held(keys.h) + count_held(keys.l) + count_held(keys.j) + count_held(keys.k),
        spec_light_turns(keys).contains(LightTurn { axis: LightAxis::Y, direction: 1i8 }) <==> keys.h,
        spec_light_turns(keys).contains(LightTurn { axis: LightAxis::Y, direction: -1i8 }) <==> keys.l,
        spec_light_turns(keys).contains(LightTurn { axis: LightAxis::X, direction: 1i8 }) <==> keys.j,
        spec_light_turns(keys).contains(LightTurn { axis: LightAxis::X, direction: -1i8 }) <==> keys.k,
{
    let yf = LightTurn { axis: LightAxis::Y, direction: 1i8 };
    let yb = LightTurn { axis: LightAxis::Y, direction: -1i8 };
    let xf = LightTurn { axis: LightAxis::X, direction: 1i8 };
    let xb = LightTurn { axis: LightAxis::X, direction: -1i8 };
    let s0 = Seq::<LightTurn>::empty();
    let s1 = push_if(s0, keys.h, yf);
    let s2 = push_if(s1, keys.l, yb);
    let s3 = push_if(s2, keys.j, xf);
    let s4 = push_if(s3, keys.k, xb);
    assert(s4 == spec_light_turns(keys));
    assert forall|x: LightTurn| #[trigger] s4.contains(x) <==> (
        (keys.h && x == yf) || (keys.l && x == yb) || (keys.j && x == xf) || (keys.k && x == xb)) by {
        lemma_push_if_contains(s0, keys.h, yf, x);
        lemma_push_if_contains(s1, keys.l, yb, x);
        lemma_push_if_contains(s2, keys.j, xf, x);
        lemma_push_if_contains(s3, keys.k, xb, x);
    }
    lemma_push_if_contains(s0, keys.h, yf, yf);
    lemma_push_if_contains(s1, keys.l, yb, yb);
    lemma_push_if_contains(s2, keys.j, xf, xf);
    lemma_push_if_contains(s3, keys.k, xb, xb);
    assert(s4.contains(yf) <==> keys.h);
    assert(s4.contains(yb) <==> keys.l);
    assert(s4.contains(xf) <==> keys.j);
    assert(s4.contains(xb) <==> keys.k);
}

/// The turns to give the directional light for the keys held in a frame.
pub fn animate_light_direction(keys: LightKeys) -> (r: Vec<LightTurn>)
    ensures
        r@ == spec_light_turns(keys),
        r@.len() == count_held(keys.h) + count_held(keys.l) + count_held(keys.j) + count_held(keys.k),
        r@.contains(LightTurn { axis: LightAxis::Y, direction: 1i8 }) <==> keys.h,
        r@.contains(LightTurn { axis: LightAxis::Y, direction: -1i8 }) <==> keys.l,
        r@.contains(LightTurn { axis: LightAxis::X, direction: 1i8 }) <==> keys.j,
        r@.contains(LightTurn { axis: LightAxis::X, direction: -1i8 }) <==> keys.k,
{
    proof {
        lemma_light_keys_turn(keys);
    }
    let mut turns: Vec<LightTurn> = Vec::new();
    if keys.h {
        turns.push(LightTurn { axis: LightAxis::Y, direction: 1 });
    }
    if keys.l {
        turns.push(LightTurn { axis: LightAxis::Y, direction: -1 });
    }
    if keys.j {
        turns.push(LightTurn { axis: LightAxis::X, direction: 1 });
    }
    if keys.k {
        turns.push(LightTurn { axis: LightAxis::X, direction: -1 });
    }
    turns
}

} // verus!
