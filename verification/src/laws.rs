//! Proved laws of the transition engine and the history.

use crate::calc::{
    current_frames, cur_entry, init_hist, spec_push, spec_redo, spec_redo_reason, spec_undo,
    spec_undo_reason, Hist,
};
use crate::state::{blank_frame, spec_clear, spec_step, CalcError, Frame, Input, StateID};
use vstd::prelude::*;

verus! {

/// The transition engine is referentially pure: the outcome is a function of
/// the state view and the input symbol alone, so two applications to equal
/// arguments give equal outcomes.  The executable `State::step` is tied to
/// `spec_step` by its contract and takes the state behind a shared reference,
/// so it can never change the state it is applied to.
pub proof fn lemma_step_deterministic(m1: Seq<Frame>, m2: Seq<Frame>, i1: Input, i2: Input)
    requires
        m1 == m2,
        i1 == i2,
    ensures
        spec_step(m1, i1) == spec_step(m2, i2),
{
}

/// Entering three digits consecutively, starting from a state without typed
/// digits (or right after equals, where the first digit starts afresh),
/// accumulates them in base 3: `current` becomes d1*9 + d2*3 + d3.
pub proof fn lemma_three_digits(
    m: Seq<Frame>,
    m1: Seq<Frame>,
    m2: Seq<Frame>,
    m3: Seq<Frame>,
    d1: u8,
    d2: u8,
    d3: u8,
)
    requires
        m.len() >= 1,
        m.last().current == 0 || m.last().id == StateID::BeginAfterEquals,
        spec_step(m, Input::Number(d1)) == Ok::<Seq<Frame>, CalcError>(m1),
        spec_step(m1, Input::Number(d2)) == Ok::<Seq<Frame>, CalcError>(m2),
        spec_step(m2, Input::Number(d3)) == Ok::<Seq<Frame>, CalcError>(m3),
    ensures
        m3.last().current == d1 * 9 + d2 * 3 + d3,
{
}

/// The clear boundary: `Clear` on a state without typed digits is always
/// rejected asking for input; on any other state it resets only the typed
/// digits and leaves `sum`, `factor` and the enclosing chain untouched.
pub proof fn lemma_clear_boundary(m: Seq<Frame>)
    requires
        m.len() >= 1,
    ensures
        m.last().current == 0 ==> spec_step(m, Input::Clear) == Err::<Seq<Frame>, CalcError>(
            CalcError::ExpectInput,
        ),
        m.last().current != 0 ==> (spec_step(m, Input::Clear) matches Ok(m2) && m2.last().current
            == 0 && m2.last().sum == m.last().sum && m2.last().factor == m.last().factor
            && m2.drop_last() == m.drop_last()),
{
    if m.last().current != 0 {
        assert(spec_clear(m).drop_last() =~= m.drop_last());
    }
}

/// The history after a whole sequence of accepted pushes.
pub open spec fn push_all(h: Hist, ms: Seq<Seq<Frame>>) -> Hist
    decreases ms.len(),
{
    if ms.len() == 0 {
        h
    } else {
        push_all(spec_push(h, ms[0]), ms.skip(1))
    }
}

/// The history after `n` undos in a row.
pub open spec fn undo_n(h: Hist, n: nat) -> Hist
    decreases n,
{
    if n == 0 {
        h
    } else {
        undo_n(spec_undo(h), (n - 1) as nat)
    }
}

/// The history after `n` redos in a row.
pub open spec fn redo_n(h: Hist, n: nat) -> Hist
    decreases n,
{
    if n == 0 {
        h
    } else {
        redo_n(spec_redo(h), (n - 1) as nat)
    }
}

/// Redo right after undo restores the instance exactly, and the other way
/// round: the cursor moves are inverse to each other.
pub proof fn lemma_undo_then_redo(h: Hist)
    requires
        0 <= h.pos < 64,
    ensures
        spec_redo(spec_undo(h)) == h,
        spec_undo(spec_redo(h)) == h,
{
    assert(spec_redo(spec_undo(h)) =~= h);
    assert(spec_undo(spec_redo(h)) =~= h);
}

/// The shape of a history reached from the fresh instance by `k` accepted
/// pushes, before the ring has wrapped: slots `0..=k` hold sequence numbers
/// `0..=k` in order, slot `0` still holds the initial blank state, and the
/// remaining slots are untouched.
pub open spec fn linear_hist(h: Hist, k: int) -> bool {
    &&& h.slots.len() == 64
    &&& 0 <= k <= 63
    &&& h.pos == k
    &&& h.count == k + 1
    &&& h.slots[0] == Some((0int, seq![blank_frame()]))
    &&& forall|i: int|
        0 <= i <= k ==> (#[trigger] h.slots[i]) is Some && h.slots[i]->Some_0.0 == i
    &&& forall|j: int| k < j < 64 ==> (#[trigger] h.slots[j]) is None
}

/// One more push keeps the linear shape while the ring has room.
pub proof fn lemma_push_linear(h: Hist, m: Seq<Frame>, k: int)
    requires
        linear_hist(h, k),
        k < 63,
    ensures
        linear_hist(spec_push(h, m), k + 1),
{
}

/// Pushing a whole sequence keeps the linear shape while the ring has room.
pub proof fn lemma_push_all_linear(ms: Seq<Seq<Frame>>, h: Hist, k: int)
    requires
        linear_hist(h, k),
        k + ms.len() <= 63,
    ensures
        linear_hist(push_all(h, ms), k + ms.len()),
    decreases ms.len(),
{
    if ms.len() > 0 {
        lemma_push_linear(h, ms[0], k);
        lemma_push_all_linear(ms.skip(1), spec_push(h, ms[0]), k + 1);
    }
}

/// While the cursor has not reached slot zero, `n` undos only move it back
/// `n` slots.
pub proof fn lemma_undo_n_moves(h: Hist, n: nat)
    requires
        0 <= h.pos < 64,
        n <= h.pos,
    ensures
        undo_n(h, n) == (Hist { pos: h.pos - n, ..h }),
    decreases n,
{
    if n == 0 {
        assert((Hist { pos: h.pos - 0, ..h }) =~= h);
    } else {
        assert(spec_undo(h) =~= (Hist { pos: h.pos - 1, ..h }));
        lemma_undo_n_moves(spec_undo(h), (n - 1) as nat);
        assert((Hist { pos: h.pos - 1 - ((n - 1) as nat), ..h }) =~= (Hist { pos: h.pos - n, ..h }));
    }
}

/// While the cursor stays below the last slot, `n` redos only move it forward
/// `n` slots.
pub proof fn lemma_redo_n_moves(h: Hist, n: nat)
    requires
        0 <= h.pos < 64,
        h.pos + n <= 63,
    ensures
        redo_n(h, n) == (Hist { pos: h.pos + n, ..h }),
    decreases n,
{
    if n == 0 {
        assert((Hist { pos: h.pos + 0, ..h }) =~= h);
    } else {
        assert(spec_redo(h) =~= (Hist { pos: h.pos + 1, ..h }));
        lemma_redo_n_moves(spec_redo(h), (n - 1) as nat);
        assert((Hist { pos: h.pos + 1 + ((n - 1) as nat), ..h }) =~= (Hist { pos: h.pos + n, ..h }));
    }
}

/// The fresh instance has the linear shape with no pushes yet.
pub proof fn lemma_init_linear()
    ensures
        linear_hist(init_hist(), 0),
{
}

/// Undo/redo symmetry from a fresh instance.  After any sequence of at most
/// 63 accepted pushes (the ring capacity less the initial slot):
/// as many undos as pushes are each legal and return to the initial blank
/// state; one further undo is rejected; and as many redos, each legal, return
/// exactly to the final history.
pub proof fn lemma_undo_redo_symmetry(ms: Seq<Seq<Frame>>)
    requires
        ms.len() <= 63,
    ensures
        ({
            let h = push_all(init_hist(), ms);
            let back = undo_n(h, ms.len() as nat);
            &&& back.pos == 0
            &&& current_frames(back) == seq![blank_frame()]
            &&& redo_n(back, ms.len() as nat) == h
            &&& spec_undo_reason(back) is Some
            &&& forall|j: int|
                0 <= j < ms.len() ==> spec_undo_reason(#[trigger] undo_n(h, j as nat)) is None
            &&& forall|j: int|
                0 <= j < ms.len() ==> spec_redo_reason(#[trigger] redo_n(back, j as nat)) is None
        }),
{
    let k = ms.len() as int;
    let h = push_all(init_hist(), ms);
    let back = undo_n(h, ms.len() as nat);
    lemma_init_linear();
    lemma_push_all_linear(ms, init_hist(), 0);
    assert(linear_hist(h, k));
    lemma_undo_n_moves(h, ms.len() as nat);
    assert(back == (Hist { pos: 0, ..h }));
    assert(current_frames(back) == h.slots[0]->Some_0.1);
    lemma_redo_n_moves(back, ms.len() as nat);
    assert(redo_n(back, ms.len() as nat) =~= h);
    assert(spec_undo_reason(back) is Some);
    assert forall|j: int| 0 <= j < ms.len() implies spec_undo_reason(
        #[trigger] undo_n(h, j as nat),
    ) is None by {
        lemma_undo_n_moves(h, j as nat);
        let hj = undo_n(h, j as nat);
        assert(hj.pos == k - j);
        assert(hj.slots[k - j - 1] is Some);
        assert(cur_entry(hj).0 == k - j);
    }
    assert forall|j: int| 0 <= j < ms.len() implies spec_redo_reason(
        #[trigger] redo_n(back, j as nat),
    ) is None by {
        lemma_redo_n_moves(back, j as nat);
        let hj = redo_n(back, j as nat);
        assert(hj.pos == j);
        assert(hj.slots[j + 1] is Some);
        assert(cur_entry(hj).0 == j);
    }
}

} // verus!
