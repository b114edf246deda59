//! Fixed-capacity undo/redo history over calculator states.
//!
//! A calculator instance holds a circular log of 64 visited states with
//! monotonically increasing sequence numbers and a cursor marking the current
//! one.  Undo and redo only move the cursor; the sequence-number comparison
//! (not raw slot adjacency) distinguishes genuinely earlier or later entries
//! from stale overwritten ones after the ring wraps.

use crate::state::{
    blank_frame, lemma_view_shape, spec_step, CalcError, Frame, Input, Operator, Parenthesis,
    State,
};
use std::rc::Rc;
use vstd::prelude::*;

verus! {

/// Number of slots in the circular history.
pub const BUFFER_SIZE: usize = 64;

/// The abstract content of a calculator instance: every slot as its sequence
/// number and state view, the ring position, and the next sequence number.
#[verifier::ext_equal]
pub struct Hist {
    pub slots: Seq<Option<(int, Seq<Frame>)>>,
    pub pos: int,
    pub count: int,
}

/// The ring position one step forward, wrapping.
pub open spec fn spec_next_pos(pos: int) -> int {
    if pos < 63 {
        pos + 1
    } else {
        0
    }
}

/// The ring position one step back, wrapping.
pub open spec fn spec_previous_pos(pos: int) -> int {
    if pos > 0 {
        pos - 1
    } else {
        63
    }
}

/// The entry at the current ring position.
pub open spec fn cur_entry(h: Hist) -> (int, Seq<Frame>) {
    h.slots[h.pos]->Some_0
}

/// The view of the state at the current ring position.
pub open spec fn current_frames(h: Hist) -> Seq<Frame> {
    cur_entry(h).1
}

/// Well-formedness of a calculator instance's content: 64 slots, the cursor
/// on a populated slot, and every sequence number below the counter.
pub open spec fn hist_wf(h: Hist) -> bool {
    &&& h.slots.len() == 64
    &&& 0 <= h.pos < 64
    &&& h.slots[h.pos] is Some
    &&& h.count >= 1
    &&& forall|i: int|
        0 <= i < 64 ==> (#[trigger] h.slots[i] matches Some(e) ==> 0 <= e.0 < h.count
            && e.1.len() >= 1)
}

/// Appending a state: the cursor advances one slot, which is overwritten with
/// the next sequence number and the state.
pub open spec fn spec_push(h: Hist, m: Seq<Frame>) -> Hist {
    let p = spec_next_pos(h.pos);
    Hist { slots: h.slots.update(p, Some((h.count, m))), pos: p, count: h.count + 1 }
}

/// Undo: only the cursor moves back.
pub open spec fn spec_undo(h: Hist) -> Hist {
    Hist { pos: spec_previous_pos(h.pos), ..h }
}

/// Redo: only the cursor moves forward.
pub open spec fn spec_redo(h: Hist) -> Hist {
    Hist { pos: spec_next_pos(h.pos), ..h }
}

/// Why undo is currently rejected, or `None` when it is legal: the slot
/// behind the cursor must exist and hold a sequence number not larger than
/// the current one.
pub open spec fn spec_undo_reason(h: Hist) -> Option<CalcError> {
    match h.slots[spec_previous_pos(h.pos)] {
        None => Some(CalcError::NoPreviousCalculation),
        Some(e) => if e.0 > cur_entry(h).0 {
            Some(CalcError::UndoExhausted)
        } else {
            None::<CalcError>
        },
    }
}

/// Why redo is currently rejected, or `None` when it is legal: the slot ahead
/// of the cursor must exist and hold a sequence number not smaller than the
/// current one.
pub open spec fn spec_redo_reason(h: Hist) -> Option<CalcError> {
    match h.slots[spec_next_pos(h.pos)] {
        None => Some(CalcError::NoNextCalculation),
        Some(e) => if e.0 < cur_entry(h).0 {
            Some(CalcError::NoNextCalculation)
        } else {
            None::<CalcError>
        },
    }
}

/// The integer the host should display for a state view: `sum` after equals,
/// else the typed digits.
pub open spec fn spec_display(m: Seq<Frame>) -> int {
    if m.last().present_sum {
        m.last().sum as int
    } else {
        m.last().current as int
    }
}

/// The content of a freshly created instance: one populated slot holding the
/// blank state with sequence number zero.
pub open spec fn init_hist() -> Hist {
    Hist {
        slots: Seq::new(
            64,
            |i: int|
                if i == 0 {
                    Some((0int, seq![blank_frame()]))
                } else {
                    None::<(int, Seq<Frame>)>
                },
        ),
        pos: 0,
        count: 1,
    }
}

/// The input symbol behind each of the twelve primary key codes, `None` for
/// any other byte.
pub open spec fn spec_symbol_of_code(b: u8) -> Option<Input> {
    if b == 48 {
        Some(Input::Number(0))
    } else if b == 49 {
        Some(Input::Number(1))
    } else if b == 50 {
        Some(Input::Number(2))
    } else if b == 43 {
        Some(Input::Operator(Operator::Plus))
    } else if b == 45 {
        Some(Input::Operator(Operator::Minus))
    } else if b == 42 {
        Some(Input::Operator(Operator::Times))
    } else if b == 47 {
        Some(Input::Operator(Operator::Div))
    } else if b == 40 {
        Some(Input::Parenthesis(Parenthesis::Open))
    } else if b == 41 {
        Some(Input::Parenthesis(Parenthesis::Close))
    } else if b == 61 {
        Some(Input::Equals)
    } else if b == 67 {
        Some(Input::Clear)
    } else if b == 65 {
        Some(Input::ClearAll)
    } else {
        None::<Input>
    }
}

/// Whether a byte is one of the key codes the calculator understands,
/// undo (`U`) and redo (`R`) included.
pub open spec fn is_key_code(b: u8) -> bool {
    b == 85 || b == 82 || spec_symbol_of_code(b) is Some
}

/// What one submitted key code does to an instance: undo and redo move the
/// cursor when legal, a primary symbol is appended when the transition engine
/// accepts it, and a rejected code changes nothing.
pub open spec fn spec_input(h: Hist, b: u8) -> Hist {
    if b == 85 {
        if spec_undo_reason(h) is None {
            spec_undo(h)
        } else {
            h
        }
    } else if b == 82 {
        if spec_redo_reason(h) is None {
            spec_redo(h)
        } else {
            h
        }
    } else {
        match spec_symbol_of_code(b) {
            None => h,
            Some(sym) => match spec_step(current_frames(h), sym) {
                Ok(m) => spec_push(h, m),
                Err(_) => h,
            },
        }
    }
}

/// The primary input symbol reported at each index of the enabled-input
/// query, in the host's fixed order.
pub open spec fn input_of_index(k: int) -> Input {
    if k == 0 {
        Input::Number(0)
    } else if k == 1 {
        Input::Number(1)
    } else if k == 2 {
        Input::Number(2)
    } else if k == 3 {
        Input::Operator(Operator::Plus)
    } else if k == 4 {
        Input::Operator(Operator::Minus)
    } else if k == 5 {
        Input::Operator(Operator::Times)
    } else if k == 6 {
        Input::Operator(Operator::Div)
    } else if k == 7 {
        Input::Parenthesis(Parenthesis::Open)
    } else if k == 8 {
        Input::Parenthesis(Parenthesis::Close)
    } else if k == 9 {
        Input::Equals
    } else if k == 10 {
        Input::Clear
    } else {
        Input::ClearAll
    }
}

/// The rejection reason reported at one index of the enabled-input query,
/// `None` where the input would be accepted.
pub open spec fn spec_enabled_reason(h: Hist, k: int) -> Option<CalcError> {
    if k == 12 {
        spec_undo_reason(h)
    } else if k == 13 {
        spec_redo_reason(h)
    } else {
        match spec_step(current_frames(h), input_of_index(k)) {
            Ok(_) => None::<CalcError>,
            Err(e) => Some(e),
        }
    }
}

/// A calculator instance: the circular history and its cursor.
pub struct Terncalc {
    states: Vec<Option<(usize, Rc<State>)>>,
    pos: usize,
    count: usize,
}

impl Terncalc {
    /// The abstract content of this instance.
    pub closed spec fn hist(self) -> Hist {
        Hist {
            slots: self.states@.map(
                |i: int, o: Option<(usize, Rc<State>)>|
                    match o {
                        None => None::<(int, Seq<Frame>)>,
                        Some(e) => Some((e.0 as int, e.1@)),
                    },
            ),
            pos: self.pos as int,
            count: self.count as int,
        }
    }

    /// Well-formedness of this instance.
    pub open spec fn wf(self) -> bool {
        hist_wf(self.hist())
    }
}

impl View for Terncalc {
    type V = Hist;

    open spec fn view(&self) -> Hist {
        self.hist()
    }
}

impl Terncalc {
    /// A new instance at its initial blank state.
    pub fn new() -> (r: Terncalc)
        ensures
            r@ == init_hist(),
            r.wf(),
    {
        let state = Rc::new(State::new());
        let mut states: Vec<Option<(usize, Rc<State>)>> = Vec::new();
        states.push(Some((0, state)));
        while states.len() < BUFFER_SIZE
            invariant
                1 <= states@.len() <= 64,
                states@[0] matches Some(e) && e.0 == 0usize && e.1@ == seq![blank_frame()],
                forall|i: int| 1 <= i < states@.len() ==> states@[i] is None,
            decreases 64 - states.len(),
        {
            states.push(None);
        }
        let r = Terncalc { states, pos: 0, count: 1 };
        proof {
            assert(r.hist().slots =~= init_hist().slots);
            assert(r@ =~= init_hist());
        }
        r
    }

    /// The ring position one step forward, wrapping.
    pub fn next_pos(pos: usize) -> (r: usize)
        requires
            pos < 64,
        ensures
            r as int == spec_next_pos(pos as int),
    {
        if pos < BUFFER_SIZE - 1 {
            pos + 1
        } else {
            0
        }
    }

    /// The ring position one step back, wrapping.
    pub fn previous_pos(pos: usize) -> (r: usize)
        requires
            pos < 64,
        ensures
            r as int == spec_previous_pos(pos as int),
    {
        if pos > 0 {
            pos - 1
        } else {
            BUFFER_SIZE - 1
        }
    }

    /// The sequence number and state at the cursor.
    pub fn current_id_and_state(&self) -> (r: (usize, Rc<State>))
        requires
            self.wf(),
        ensures
            Some((r.0 as int, r.1@)) == self@.slots[self@.pos],
    {
        match &self.states[self.pos] {
            Some(e) => (e.0, e.1.clone()),
            None => vstd::pervasive::unreached(),
        }
    }

    /// Appends a state behind the cursor, overwriting the oldest entry once
    /// the ring has wrapped.
    pub fn next_state(&mut self, state: Rc<State>)
        requires
            old(self).wf(),
            old(self)@.count < usize::MAX as int,
            state@.len() >= 1,
        ensures
            final(self)@ == spec_push(old(self)@, state@),
            final(self).wf(),
    {
        self.pos = Self::next_pos(self.pos);
        self.states.set(self.pos, Some((self.count, state)));
        self.count = self.count + 1;
        proof {
            assert(self@.slots =~= spec_push(old(self)@, state@).slots);
            assert(self@ =~= spec_push(old(self)@, state@));
        }
    }

    /// Applies an input symbol that is known to be accepted and appends the
    /// resulting state.
    pub fn force_step(&mut self, input: Input)
        requires
            old(self).wf(),
            old(self)@.count < usize::MAX as int,
            spec_step(current_frames(old(self)@), input) is Ok,
        ensures
            final(self)@ == spec_push(
                old(self)@,
                spec_step(current_frames(old(self)@), input)->Ok_0,
            ),
            final(self).wf(),
    {
        let (_, st) = self.current_id_and_state();
        let next = match State::step(&st, input) {
            Ok(n) => n,
            Err(_) => vstd::pervasive::unreached(),
        };
        proof {
            lemma_view_shape(&*next);
        }
        self.next_state(next);
    }

    /// Why undo is currently rejected, or `None` when it is legal.  Never
    /// changes the instance.
    pub fn undo_enabled(&self) -> (r: Option<CalcError>)
        requires
            self.wf(),
        ensures
            r == spec_undo_reason(self@),
    {
        let cur = self.current_id_and_state().0;
        match &self.states[Self::previous_pos(self.pos)] {
            Some(e) => if e.0 > cur {
                Some(CalcError::UndoExhausted)
            } else {
                None
            },
            None => Some(CalcError::NoPreviousCalculation),
        }
    }

    /// Why redo is currently rejected, or `None` when it is legal.  Never
    /// changes the instance.
    pub fn redo_enabled(&self) -> (r: Option<CalcError>)
        requires
            self.wf(),
        ensures
            r == spec_redo_reason(self@),
    {
        let cur = self.current_id_and_state().0;
        match &self.states[Self::next_pos(self.pos)] {
            Some(e) => if e.0 < cur {
                Some(CalcError::NoNextCalculation)
            } else {
                None
            },
            None => Some(CalcError::NoNextCalculation),
        }
    }

    /// Moves the cursor one step back.  Legal only while undo is enabled.
    pub fn force_undo(&mut self)
        requires
            old(self).wf(),
            spec_undo_reason(old(self)@) is None,
        ensures
            final(self)@ == spec_undo(old(self)@),
            final(self).wf(),
    {
        self.pos = Self::previous_pos(self.pos);
        proof {
            assert(self@ =~= spec_undo(old(self)@));
        }
    }

    /// Moves the cursor one step forward.  Legal only while redo is enabled.
    pub fn force_redo(&mut self)
        requires
            old(self).wf(),
            spec_redo_reason(old(self)@) is None,
        ensures
            final(self)@ == spec_redo(old(self)@),
            final(self).wf(),
    {
        self.pos = Self::next_pos(self.pos);
        proof {
            assert(self@ =~= spec_redo(old(self)@));
        }
    }

    /// The input symbol behind a primary key code.
    pub fn symbol_of_code(b: u8) -> (r: Option<Input>)
        ensures
            r == spec_symbol_of_code(b),
    {
        match b {
            48 => Some(Input::Number(0)),
            49 => Some(Input::Number(1)),
            50 => Some(Input::Number(2)),
            43 => Some(Input::Operator(Operator::Plus)),
            45 => Some(Input::Operator(Operator::Minus)),
            42 => Some(Input::Operator(Operator::Times)),
            47 => Some(Input::Operator(Operator::Div)),
            40 => Some(Input::Parenthesis(Parenthesis::Open)),
            41 => Some(Input::Parenthesis(Parenthesis::Close)),
            61 => Some(Input::Equals),
            67 => Some(Input::Clear),
            65 => Some(Input::ClearAll),
            _ => None,
        }
    }

    /// Submits one key code: undo (`U`), redo (`R`), or a primary symbol.  A
    /// rejected code leaves the instance unchanged.
    pub fn input(&mut self, input_char: u8)
        requires
            old(self).wf(),
            old(self)@.count < usize::MAX as int,
            is_key_code(input_char),
        ensures
            final(self)@ == spec_input(old(self)@, input_char),
            final(self).wf(),
    {
        if input_char == 85 {
            match self.undo_enabled() {
                None => self.force_undo(),
                Some(_) => {},
            }
        } else if input_char == 82 {
            match self.redo_enabled() {
                None => self.force_redo(),
                Some(_) => {},
            }
        } else {
            let sym = match Self::symbol_of_code(input_char) {
                Some(s) => s,
                None => vstd::pervasive::unreached(),
            };
            let (_, st) = self.current_id_and_state();
            match State::step(&st, sym) {
                Ok(n) => {
                    proof {
                        lemma_view_shape(&*n);
                    }
                    self.next_state(n);
                },
                Err(_) => {},
            }
        }
    }

    /// The integer to display right now: the current state's `sum` after
    /// equals, else its typed digits.
    pub fn display_value(&self) -> (r: i64)
        requires
            self.wf(),
        ensures
            r as int == spec_display(current_frames(self@)),
    {
        let (_, st) = self.current_id_and_state();
        proof {
            lemma_view_shape(&*st);
        }
        if st.present_sum {
            st.sum
        } else {
            st.current
        }
    }

    /// Whether the sequence-number counter has reached its width limit, after
    /// which no further entry can be appended.
    pub fn sequence_exhausted(&self) -> (r: bool)
        ensures
            r == (self@.count == usize::MAX as int),
    {
        self.count == usize::MAX
    }

    /// For each of the twelve primary input symbols plus undo and redo, the
    /// rejection reason it would meet right now, `None` where it would be
    /// accepted.  Never changes the instance.
    pub fn enabled_reasons(&self) -> (r: Vec<Option<CalcError>>)
        requires
            self.wf(),
        ensures
            r@.len() == 14,
            forall|k: int| 0 <= k < 14 ==> r@[k] == spec_enabled_reason(self@, k),
    {
        let (_, st) = self.current_id_and_state();
        let mut v: Vec<Option<CalcError>> = Vec::new();
        v.push(Self::step_reason(&st, Input::Number(0)));
        v.push(Self::step_reason(&st, Input::Number(1)));
        v.push(Self::step_reason(&st, Input::Number(2)));
        v.push(Self::step_reason(&st, Input::Operator(Operator::Plus)));
        v.push(Self::step_reason(&st, Input::Operator(Operator::Minus)));
        v.push(Self::step_reason(&st, Input::Operator(Operator::Times)));
        v.push(Self::step_reason(&st, Input::Operator(Operator::Div)));
        v.push(Self::step_reason(&st, Input::Parenthesis(Parenthesis::Open)));
        v.push(Self::step_reason(&st, Input::Parenthesis(Parenthesis::Close)));
        v.push(Self::step_reason(&st, Input::Equals));
        v.push(Self::step_reason(&st, Input::Clear));
        v.push(Self::step_reason(&st, Input::ClearAll));
        v.push(self.undo_enabled());
        v.push(self.redo_enabled());
        v
    }

    /// The rejection reason one symbol would meet against one state, `None`
    /// where it would be accepted.
    fn step_reason(st: &Rc<State>, input: Input) -> (r: Option<CalcError>)
        ensures
            (match spec_step(st@, input) {
                Ok(_) => r is None,
                Err(e) => r == Some(e),
            }),
    {
        match State::step(st, input) {
            Ok(_) => None,
            Err(e) => Some(e),
        }
    }
}

} // verus!
