//! Arithmetic state and transition engine.
//!
//! A `State` is one immutable snapshot of calculator progress.  Applying an
//! input symbol never mutates a state; it either produces a fresh state or a
//! rejection reason.  States opened by a parenthesis keep a shared,
//! reference-counted link to the enclosing state, so the whole chain of
//! enclosing states is modelled as a sequence of `Frame`s, oldest first.

use std::rc::Rc;
use vstd::prelude::*;

verus! {

/// An arithmetic or syntactic operator key.
#[derive(Clone, Copy, PartialEq, Eq, Structural, Debug)]
pub enum Operator {
    Plus,
    Minus,
    Times,
    Div,
}

/// A parenthesis key.
#[derive(Clone, Copy, PartialEq, Eq, Structural, Debug)]
pub enum Parenthesis {
    Open,
    Close,
}

/// One input symbol delivered by the host.
#[derive(Clone, Copy, PartialEq, Eq, Structural, Debug)]
pub enum Input {
    Number(u8),
    Operator(Operator),
    Parenthesis(Parenthesis),
    Equals,
    Clear,
    ClearAll,
}

/// The syntactic phase of a state: it governs which input symbols are
/// currently legal.
#[derive(Clone, Copy, PartialEq, Eq, Structural, Debug)]
pub enum StateID {
    Begin,
    BeginAfterOperator,
    BeginAfterEquals,
    Number,
    ForceOperator,
}

/// Why an input symbol was rejected.  Every rejection is local and
/// recoverable: the calculator simply does not advance.
#[derive(Clone, Copy, PartialEq, Eq, Structural, Debug)]
pub enum CalcError {
    InvalidDigit,
    Overflow,
    DivisionByZero,
    UnmatchedParenthesis,
    UnclosedParenthesis,
    ExpectNumber,
    ExpectOperator,
    ExpectInput,
    ExpectNumberOrParenthesis,
    ExpectNumberWithoutMinus,
    UndoExhausted,
    NoPreviousCalculation,
    NoNextCalculation,
}

impl CalcError {
    /// A short human-readable description of the rejection.
    pub fn message(&self) -> &'static str {
        match self {
            CalcError::InvalidDigit => "Nonternary input",
            CalcError::Overflow => "Overflow",
            CalcError::DivisionByZero => "Division by zero",
            CalcError::UnmatchedParenthesis => "No matching open parenthesis",
            CalcError::UnclosedParenthesis => "Unclosed parenthesis",
            CalcError::ExpectNumber => "Expect number",
            CalcError::ExpectOperator => "Expect operator",
            CalcError::ExpectInput => "Expect input",
            CalcError::ExpectNumberOrParenthesis => "Expect number or parenthesis",
            CalcError::ExpectNumberWithoutMinus => "Expect number (without minus)",
            CalcError::UndoExhausted => "Undo buffer exhausted",
            CalcError::NoPreviousCalculation => "No previous calculation",
            CalcError::NoNextCalculation => "No next calculation",
        }
    }
}

/// The scalar fields of one state, without the link to its enclosing state.
/// A whole state is abstracted as a `Seq<Frame>`: the frames of the enclosing
/// chain, oldest first, with the live frame last.
pub struct Frame {
    pub sum: i64,
    pub factor: i64,
    pub division: bool,
    pub present_sum: bool,
    pub current: i64,
    pub id: StateID,
}

/// One immutable snapshot of calculator progress.
#[derive(Debug)]
pub struct State {
    /// Total accumulated once an addition or subtraction has resolved.
    pub sum: i64,
    /// The in-progress multiplicative term.
    pub factor: i64,
    /// True if the next resolution of `factor` divides rather than multiplies.
    pub division: bool,
    /// Whether the host should display `sum` (after equals) or `current`.
    pub present_sum: bool,
    /// Digits typed since the last operator, as a base-3 numeral.
    pub current: i64,
    /// The syntactic phase.
    pub id: StateID,
    /// The enclosing state while inside an open parenthesis.
    pub stack: Option<Rc<State>>,
}

/// The frame of a freshly constructed blank state.
pub open spec fn blank_frame() -> Frame {
    Frame { sum: 0, factor: 1, division: false, present_sum: false, current: 0, id: StateID::Begin }
}

/// The frames of an enclosing chain, oldest first.
pub open spec fn stack_frames(st: Option<Rc<State>>) -> Seq<Frame>
    decreases st,
{
    match st {
        None => Seq::empty(),
        Some(p) => stack_frames(p.stack).push(p.frame()),
    }
}

impl State {
    /// The scalar fields of this state alone.
    pub open spec fn frame(self) -> Frame {
        Frame {
            sum: self.sum,
            factor: self.factor,
            division: self.division,
            present_sum: self.present_sum,
            current: self.current,
            id: self.id,
        }
    }

    /// The freshly constructed blank state.
    pub open spec fn spec_new() -> State {
        State {
            sum: 0,
            factor: 1,
            division: false,
            present_sum: false,
            current: 0,
            id: StateID::Begin,
            stack: None,
        }
    }
}

impl View for State {
    type V = Seq<Frame>;

    /// The frames of the enclosing chain followed by this state's own frame.
    open spec fn view(&self) -> Seq<Frame> {
        stack_frames(self.stack).push(self.frame())
    }
}

/// A state always views to at least one frame, and the last frame carries its
/// own scalar fields.
pub proof fn lemma_view_shape(s: &State)
    ensures
        s@.len() >= 1,
        s@.last() == s.frame(),
        s@.drop_last() == stack_frames(s.stack),
{
    assert(s@.drop_last() =~= stack_frames(s.stack));
}

/// Two states sharing one enclosing chain view alike but for the last frame.
pub proof fn lemma_same_stack_view(a: State, b: State)
    requires
        a.stack == b.stack,
    ensures
        a@ == b@.drop_last().push(a.frame()),
{
    assert(b@.drop_last() =~= stack_frames(b.stack));
    assert(a@ =~= b@.drop_last().push(a.frame()));
}

/// A state is the blank state exactly when its view is the one blank frame.
pub proof fn lemma_blank_view(s: &State)
    ensures
        (*s == State::spec_new()) <==> (s@ == seq![blank_frame()]),
{
    if *s == State::spec_new() {
        assert(s@ =~= seq![blank_frame()]);
    }
    if s@ == seq![blank_frame()] {
        match s.stack {
            Some(p) => {
                lemma_view_shape(s);
                assert(stack_frames(s.stack).len() >= 1);
                assert(false);
            },
            None => {
                assert(s@.last() == s.frame());
                assert(s.frame() == blank_frame());
            },
        }
    }
}

impl Clone for State {
    /// Cloning keeps the scalar fields and shares the enclosing chain.
    fn clone(&self) -> (r: Self)
        ensures
            r == *self,
    {
        State {
            sum: self.sum,
            factor: self.factor,
            division: self.division,
            present_sum: self.present_sum,
            current: self.current,
            id: self.id,
            stack: match &self.stack {
                None => None,
                Some(p) => Some(p.clone()),
            },
        }
    }
}

/// Division as the machine truncates it: the quotient is rounded toward zero.
pub open spec fn trunc_div(x: int, d: int) -> int
    recommends
        d != 0,
{
    if x == 0 {
        0
    } else if x > 0 && d > 0 {
        x / d
    } else if x < 0 && d < 0 {
        (x * -1) / (d * -1)
    } else if x < 0 {
        ((x * -1) / d) * -1
    } else {
        (x / (d * -1)) * -1
    }
}

/// Folding `current` into `factor`: divide if a division is pending, else
/// multiply; always drain `current`.
pub open spec fn spec_finish_factor(f: Frame) -> Result<Frame, CalcError> {
    if f.division {
        if f.current == 0 {
            Err(CalcError::DivisionByZero)
        } else {
            let q = trunc_div(f.factor as int, f.current as int);
            if q < i64::MIN || q > i64::MAX {
                Err(CalcError::Overflow)
            } else {
                Ok(Frame { factor: q as i64, division: false, current: 0, ..f })
            }
        }
    } else {
        let p = f.factor as int * f.current as int;
        if p < i64::MIN || p > i64::MAX {
            Err(CalcError::Overflow)
        } else {
            Ok(Frame { factor: p as i64, current: 0, ..f })
        }
    }
}

/// Folding `current` into `factor` and `factor` into `sum`; `factor` returns
/// to the multiplicative identity.
pub open spec fn spec_finish_current(f: Frame) -> Result<Frame, CalcError> {
    match spec_finish_factor(f) {
        Err(e) => Err(e),
        Ok(g) => {
            let s = g.sum as int + g.factor as int;
            if s < i64::MIN || s > i64::MAX {
                Err(CalcError::Overflow)
            } else {
                Ok(Frame { sum: s as i64, factor: 1, ..g })
            }
        },
    }
}

/// Entering one digit: validate it, append it to `current` in base 3, and
/// probe that a later fold of the result could still succeed.  After equals
/// the digit starts a fresh computation.
pub open spec fn spec_number(m: Seq<Frame>, n: int, after_equals: bool) -> Result<
    Seq<Frame>,
    CalcError,
> {
    let base = if after_equals {
        seq![blank_frame()]
    } else {
        m
    };
    if n < 0 || 2 < n {
        Err(CalcError::InvalidDigit)
    } else {
        let t = base.last().current * 3;
        if t < i64::MIN || t > i64::MAX {
            Err(CalcError::Overflow)
        } else {
            let c = t + n;
            if c < i64::MIN || c > i64::MAX {
                Err(CalcError::Overflow)
            } else {
                let f = Frame {
                    current: c as i64,
                    present_sum: false,
                    id: StateID::Number,
                    ..base.last()
                };
                match spec_finish_current(f) {
                    Err(e) => Err(e),
                    Ok(_) => Ok(base.drop_last().push(f)),
                }
            }
        }
    }
}

/// An addition or subtraction key: fold everything into `sum` and open a new
/// term; a minus seeds the term with the additive inverse of the identity.
pub open spec fn spec_plus(m: Seq<Frame>, minus: bool) -> Result<Seq<Frame>, CalcError> {
    match spec_finish_current(m.last()) {
        Err(e) => Err(e),
        Ok(f) => Ok(
            m.drop_last().push(
                Frame {
                    factor: if minus {
                        -1i64
                    } else {
                        f.factor
                    },
                    present_sum: false,
                    id: StateID::BeginAfterOperator,
                    ..f
                },
            ),
        ),
    }
}

/// A multiplication or division key: fold `current` into `factor`, or, right
/// after equals, continue computing from the previous result.
pub open spec fn spec_times(m: Seq<Frame>, after_equals: bool, division: bool) -> Result<
    Seq<Frame>,
    CalcError,
> {
    let step1 = if after_equals {
        Ok(Frame { factor: m.last().sum, sum: 0, ..m.last() })
    } else {
        spec_finish_factor(m.last())
    };
    match step1 {
        Err(e) => Err(e),
        Ok(f) => Ok(
            m.drop_last().push(
                Frame { division: division, present_sum: false, id: StateID::Begin, ..f },
            ),
        ),
    }
}

/// An open parenthesis pushes a blank frame; right after equals the whole
/// computation starts afresh inside the parenthesis.
pub open spec fn spec_open(m: Seq<Frame>, after_equals: bool) -> Seq<Frame> {
    if after_equals {
        seq![blank_frame(), blank_frame()]
    } else {
        m.push(blank_frame())
    }
}

/// A close parenthesis folds the top frame to a value, hands the value to the
/// enclosing frame as its `current`, and probes that a later fold of that
/// frame could still succeed.
pub open spec fn spec_close(m: Seq<Frame>) -> Result<Seq<Frame>, CalcError> {
    match spec_finish_current(m.last()) {
        Err(e) => Err(e),
        Ok(f) => {
            if m.len() < 2 {
                Err(CalcError::UnmatchedParenthesis)
            } else {
                let parent = Frame { current: f.sum, ..m[m.len() - 2] };
                match spec_finish_current(parent) {
                    Err(e) => Err(e),
                    Ok(_) => Ok(
                        m.take(m.len() - 2).push(
                            Frame { present_sum: false, id: StateID::ForceOperator, ..parent },
                        ),
                    ),
                }
            }
        },
    }
}

/// Clear resets only the typed digits.
pub open spec fn spec_clear(m: Seq<Frame>) -> Seq<Frame> {
    m.drop_last().push(
        Frame { current: 0, present_sum: false, id: StateID::Number, ..m.last() },
    )
}

/// Equals folds everything into `sum` and selects it for display.
pub open spec fn spec_equals(m: Seq<Frame>) -> Result<Seq<Frame>, CalcError> {
    match spec_finish_current(m.last()) {
        Err(e) => Err(e),
        Ok(f) => Ok(
            m.drop_last().push(
                Frame { present_sum: true, id: StateID::BeginAfterEquals, ..f },
            ),
        ),
    }
}

/// The transition engine: one input symbol against one state view, yielding
/// the next view or the rejection reason, per the legality table of the
/// syntactic phases.
pub open spec fn spec_step(m: Seq<Frame>, input: Input) -> Result<Seq<Frame>, CalcError>
    recommends
        m.len() >= 1,
{
    match input {
        Input::Number(n) => match m.last().id {
            StateID::Begin | StateID::BeginAfterOperator | StateID::Number => spec_number(
                m,
                n as int,
                false,
            ),
            StateID::BeginAfterEquals => spec_number(m, n as int, true),
            StateID::ForceOperator => Err(CalcError::ExpectOperator),
        },
        Input::Operator(Operator::Plus) => match m.last().id {
            StateID::BeginAfterEquals | StateID::Number | StateID::ForceOperator => spec_plus(
                m,
                false,
            ),
            StateID::Begin | StateID::BeginAfterOperator => Err(CalcError::ExpectNumber),
        },
        Input::Operator(Operator::Minus) => match m.last().id {
            StateID::BeginAfterOperator => Err(CalcError::ExpectNumberWithoutMinus),
            _ => spec_plus(m, true),
        },
        Input::Operator(Operator::Times) => match m.last().id {
            StateID::Number | StateID::ForceOperator => spec_times(m, false, false),
            StateID::BeginAfterEquals => spec_times(m, true, false),
            StateID::Begin | StateID::BeginAfterOperator => Err(CalcError::ExpectNumber),
        },
        Input::Operator(Operator::Div) => match m.last().id {
            StateID::Number | StateID::ForceOperator => spec_times(m, false, true),
            StateID::BeginAfterEquals => spec_times(m, true, true),
            StateID::Begin | StateID::BeginAfterOperator => Err(CalcError::ExpectNumber),
        },
        Input::Parenthesis(Parenthesis::Open) => match m.last().id {
            StateID::Begin | StateID::BeginAfterOperator => Ok(spec_open(m, false)),
            StateID::BeginAfterEquals => Ok(spec_open(m, true)),
            StateID::Number | StateID::ForceOperator => Err(CalcError::ExpectNumberOrParenthesis),
        },
        Input::Parenthesis(Parenthesis::Close) => match m.last().id {
            StateID::Number => spec_close(m),
            _ => Err(CalcError::ExpectOperator),
        },
        Input::Equals => if m.len() > 1 {
            Err(CalcError::UnclosedParenthesis)
        } else {
            match m.last().id {
                StateID::BeginAfterEquals => Err(CalcError::ExpectInput),
                _ => spec_equals(m),
            }
        },
        Input::Clear => if m.last().current == 0 {
            Err(CalcError::ExpectInput)
        } else {
            Ok(spec_clear(m))
        },
        Input::ClearAll => if m == seq![blank_frame()] {
            Err(CalcError::ExpectInput)
        } else {
            Ok(seq![blank_frame()])
        },
    }
}

impl State {
    /// A freshly constructed blank state.
    pub fn new() -> (r: State)
        ensures
            r == State::spec_new(),
            r@ == seq![blank_frame()],
    {
        let r = State {
            sum: 0,
            factor: 1,
            division: false,
            present_sum: false,
            current: 0,
            id: StateID::Begin,
            stack: None,
        };
        proof {
            assert(r@ =~= seq![blank_frame()]);
        }
        r
    }

    /// Folds `current` into `factor`.  On failure nothing changes.
    pub fn finish_factor(&mut self) -> (r: Result<(), CalcError>)
        ensures
            match spec_finish_factor(old(self).frame()) {
                Ok(f) => r == Ok::<(), CalcError>(()) && final(self).frame() == f
                    && final(self).stack == old(self).stack,
                Err(e) => r == Err::<(), CalcError>(e) && *final(self) == *old(self),
            },
    {
        if self.division {
            match self.factor.checked_div(self.current) {
                None => {
                    if self.current == 0 {
                        return Err(CalcError::DivisionByZero);
                    } else {
                        return Err(CalcError::Overflow);
                    }
                },
                Some(q) => {
                    self.factor = q;
                    self.division = false;
                },
            }
        } else {
            match self.factor.checked_mul(self.current) {
                None => {
                    return Err(CalcError::Overflow);
                },
                Some(p) => {
                    self.factor = p;
                },
            }
        }
        self.current = 0;
        Ok(())
    }

    /// Folds `current` into `factor` and `factor` into `sum`.  On failure
    /// nothing changes.
    pub fn finish_current(&mut self) -> (r: Result<(), CalcError>)
        ensures
            match spec_finish_current(old(self).frame()) {
                Ok(f) => r == Ok::<(), CalcError>(()) && final(self).frame() == f
                    && final(self).stack == old(self).stack,
                Err(e) => r == Err::<(), CalcError>(e) && *final(self) == *old(self),
            },
    {
        let mut tmp = self.clone();
        match tmp.finish_factor() {
            Err(e) => Err(e),
            Ok(()) => {
                match tmp.sum.checked_add(tmp.factor) {
                    None => Err(CalcError::Overflow),
                    Some(s) => {
                        tmp.sum = s;
                        tmp.factor = 1;
                        *self = tmp;
                        Ok(())
                    },
                }
            },
        }
    }

    /// Enters one digit (0-2).  After equals the digit starts a fresh
    /// computation; a digit whose later fold would fail is rejected now.
    pub fn number(&self, n: i64, after_equals: bool) -> (r: Result<State, CalcError>)
        ensures
            match spec_number(self@, n as int, after_equals) {
                Ok(m) => r matches Ok(s) && s@ == m,
                Err(e) => r == Err::<State, CalcError>(e),
            },
    {
        let ghost base: Seq<Frame> = if after_equals {
            seq![blank_frame()]
        } else {
            self@
        };
        let mut state = if after_equals {
            State::new()
        } else {
            self.clone()
        };
        proof {
            lemma_view_shape(&state);
            assert(state@ == base);
        }
        if n < 0 || 2 < n {
            return Err(CalcError::InvalidDigit);
        }
        let t = match state.current.checked_mul(3) {
            None => {
                return Err(CalcError::Overflow);
            },
            Some(t) => t,
        };
        let c = match t.checked_add(n) {
            None => {
                return Err(CalcError::Overflow);
            },
            Some(c) => c,
        };
        let ghost before = state;
        state.current = c;
        state.present_sum = false;
        state.id = StateID::Number;
        proof {
            lemma_same_stack_view(state, before);
        }
        let mut probe = state.clone();
        match probe.finish_current() {
            Err(e) => Err(e),
            Ok(()) => Ok(state),
        }
    }

    /// An addition or subtraction key.
    pub fn plus(&self, minus: bool) -> (r: Result<State, CalcError>)
        ensures
            match spec_plus(self@, minus) {
                Ok(m) => r matches Ok(s) && s@ == m,
                Err(e) => r == Err::<State, CalcError>(e),
            },
    {
        let mut state = self.clone();
        match state.finish_current() {
            Err(e) => Err(e),
            Ok(()) => {
                if minus {
                    state.factor = -1;
                }
                state.present_sum = false;
                state.id = StateID::BeginAfterOperator;
                proof {
                    lemma_same_stack_view(state, *self);
                }
                Ok(state)
            },
        }
    }

    /// A multiplication or division key.
    pub fn times(&self, after_equals: bool, division: bool) -> (r: Result<State, CalcError>)
        ensures
            match spec_times(self@, after_equals, division) {
                Ok(m) => r matches Ok(s) && s@ == m,
                Err(e) => r == Err::<State, CalcError>(e),
            },
    {
        let mut state = self.clone();
        if after_equals {
            state.factor = state.sum;
            state.sum = 0;
        } else {
            match state.finish_factor() {
                Err(e) => {
                    return Err(e);
                },
                Ok(()) => {},
            }
        }
        state.division = division;
        state.present_sum = false;
        state.id = StateID::Begin;
        proof {
            lemma_same_stack_view(state, *self);
        }
        Ok(state)
    }

    /// An open parenthesis: a blank state whose enclosing state is the caller,
    /// or a fresh blank one right after equals.
    pub fn open(this: &Rc<State>, after_equals: bool) -> (r: State)
        ensures
            r@ == spec_open(this@, after_equals),
    {
        let mut state = State::new();
        if after_equals {
            state.stack = Some(Rc::new(State::new()));
        } else {
            state.stack = Some(Rc::clone(this));
        }
        state.present_sum = false;
        state.id = StateID::Begin;
        proof {
            assert(state@ =~= spec_open(this@, after_equals));
        }
        state
    }

    /// A close parenthesis: folds this state to a value and restores the
    /// enclosing state with that value as its `current`.
    pub fn close(&self) -> (r: Result<State, CalcError>)
        ensures
            match spec_close(self@) {
                Ok(m) => r matches Ok(s) && s@ == m,
                Err(e) => r == Err::<State, CalcError>(e),
            },
    {
        proof {
            lemma_view_shape(self);
        }
        let mut state = self.clone();
        match state.finish_current() {
            Err(e) => {
                return Err(e);
            },
            Ok(()) => {},
        }
        let value = state.sum;
        let mut parent = match &state.stack {
            None => {
                return Err(CalcError::UnmatchedParenthesis);
            },
            Some(p) => {
                proof {
                    lemma_view_shape(&**p);
                    assert(self@.drop_last() == (**p)@);
                    assert(self@[self@.len() - 2] == (**p)@.last());
                }
                (**p).clone()
            },
        };
        let ghost grand = parent;
        parent.current = value;
        proof {
            lemma_same_stack_view(parent, grand);
            assert(parent@ =~= self@.take(self@.len() - 2).push(parent.frame()));
        }
        let mut probe = parent.clone();
        match probe.finish_current() {
            Err(e) => {
                return Err(e);
            },
            Ok(()) => {},
        }
        let ghost mid = parent;
        parent.present_sum = false;
        parent.id = StateID::ForceOperator;
        proof {
            lemma_same_stack_view(parent, mid);
            assert(parent@ =~= self@.take(self@.len() - 2).push(parent.frame()));
        }
        Ok(parent)
    }

    /// Clear: resets only the typed digits.
    pub fn clear(&self) -> (r: State)
        ensures
            r@ == spec_clear(self@),
    {
        let mut state = self.clone();
        state.current = 0;
        state.present_sum = false;
        state.id = StateID::Number;
        proof {
            lemma_same_stack_view(state, *self);
        }
        state
    }

    /// Equals: folds everything into `sum` and selects it for display.
    pub fn equals(&self) -> (r: Result<State, CalcError>)
        ensures
            match spec_equals(self@) {
                Ok(m) => r matches Ok(s) && s@ == m,
                Err(e) => r == Err::<State, CalcError>(e),
            },
    {
        let mut state = self.clone();
        match state.finish_current() {
            Err(e) => Err(e),
            Ok(()) => {
                state.present_sum = true;
                state.id = StateID::BeginAfterEquals;
                proof {
                    lemma_same_stack_view(state, *self);
                }
                Ok(state)
            },
        }
    }

    /// Whether this state equals the freshly constructed blank state.
    pub fn is_blank(&self) -> (r: bool)
        ensures
            r == (*self == State::spec_new()),
    {
        self.sum == 0 && self.factor == 1 && !self.division && !self.present_sum && self.current
            == 0 && (match self.id {
            StateID::Begin => true,
            _ => false,
        }) && self.stack.is_none()
    }

    /// Applies one input symbol to a state: the next state, or the reason the
    /// symbol is rejected.  The given state is never changed.
    pub fn step(this: &Rc<State>, input: Input) -> (r: Result<Rc<State>, CalcError>)
        ensures
            match spec_step(this@, input) {
                Ok(m) => r matches Ok(s) && s@ == m,
                Err(e) => r == Err::<Rc<State>, CalcError>(e),
            },
    {
        proof {
            lemma_view_shape(&**this);
        }
        match input {
            Input::Number(n) => match this.id {
                StateID::ForceOperator => Err(CalcError::ExpectOperator),
                StateID::BeginAfterEquals => match this.number(n as i64, true) {
                    Ok(s) => Ok(Rc::new(s)),
                    Err(e) => Err(e),
                },
                _ => match this.number(n as i64, false) {
                    Ok(s) => Ok(Rc::new(s)),
                    Err(e) => Err(e),
                },
            },
            Input::Operator(Operator::Plus) => match this.id {
                StateID::Begin | StateID::BeginAfterOperator => Err(CalcError::ExpectNumber),
                _ => match this.plus(false) {
                    Ok(s) => Ok(Rc::new(s)),
                    Err(e) => Err(e),
                },
            },
            Input::Operator(Operator::Minus) => match this.id {
                StateID::BeginAfterOperator => Err(CalcError::ExpectNumberWithoutMinus),
                _ => match this.plus(true) {
                    Ok(s) => Ok(Rc::new(s)),
                    Err(e) => Err(e),
                },
            },
            Input::Operator(Operator::Times) => match this.id {
                StateID::Begin | StateID::BeginAfterOperator => Err(CalcError::ExpectNumber),
                StateID::BeginAfterEquals => match this.times(true, false) {
                    Ok(s) => Ok(Rc::new(s)),
                    Err(e) => Err(e),
                },
                _ => match this.times(false, false) {
                    Ok(s) => Ok(Rc::new(s)),
                    Err(e) => Err(e),
                },
            },
            Input::Operator(Operator::Div) => match this.id {
                StateID::Begin | StateID::BeginAfterOperator => Err(CalcError::ExpectNumber),
                StateID::BeginAfterEquals => match this.times(true, true) {
                    Ok(s) => Ok(Rc::new(s)),
                    Err(e) => Err(e),
                },
                _ => match this.times(false, true) {
                    Ok(s) => Ok(Rc::new(s)),
                    Err(e) => Err(e),
                },
            },
            Input::Parenthesis(Parenthesis::Open) => match this.id {
                StateID::Number | StateID::ForceOperator => Err(
                    CalcError::ExpectNumberOrParenthesis,
                ),
                StateID::BeginAfterEquals => Ok(Rc::new(State::open(this, true))),
                _ => Ok(Rc::new(State::open(this, false))),
            },
            Input::Parenthesis(Parenthesis::Close) => match this.id {
                StateID::Number => match this.close() {
                    Ok(s) => Ok(Rc::new(s)),
                    Err(e) => Err(e),
                },
                _ => Err(CalcError::ExpectOperator),
            },
            Input::Equals => {
                if this.stack.is_some() {
                    proof {
                        match &this.stack {
                            Some(p) => {
                                lemma_view_shape(&**p);
                            },
                            None => {},
                        }
                    }
                    Err(CalcError::UnclosedParenthesis)
                } else {
                    match this.id {
                        StateID::BeginAfterEquals => Err(CalcError::ExpectInput),
                        _ => match this.equals() {
                            Ok(s) => Ok(Rc::new(s)),
                            Err(e) => Err(e),
                        },
                    }
                }
            },
            Input::Clear => {
                if this.current == 0 {
                    Err(CalcError::ExpectInput)
                } else {
                    Ok(Rc::new(this.clear()))
                }
            },
            Input::ClearAll => {
                proof {
                    lemma_blank_view(&**this);
                }
                if this.is_blank() {
                    Err(CalcError::ExpectInput)
                } else {
                    Ok(Rc::new(State::new()))
                }
            },
        }
    }
}

} // verus!
