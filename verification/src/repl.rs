//! The evaluator: a single-pass, stack-based reducer over one line of
//! tokens.  Its state is an operand stack, an optional pending operation
//! (an operator already bound to its left operand, awaiting the right one),
//! and a sign flag for a pending unary negation.  `spec_run` is the
//! mathematical transition system; `process_line` computes it.

use vstd::prelude::*;
use crate::float::{
    f64_add_bits, f64_mul_bits, f64_of_dec_bits, f64_of_int_bits, f64_sub_bits, float_obj, Float,
    NEG_ONE_BITS,
};
use crate::integer::{int_obj, Integer};
use crate::lexer::{find_char, is_ws, spec_token_at, ws_run, Lexer, Token};
use crate::numbers::{parse_dec_i64, parse_dec_u32, parse_radix_i64};
use crate::object::{lookup, BoundOp, ObjView, Object, OpKind, Payload};

verus! {

/// A diagnostic the evaluator reports while the line continues; the
/// offending token has no stack effect.
#[derive(Debug)]
pub enum Diagnostic {
    /// A radix literal without a base/digit separator.
    InvalidRadixFormat { text: String },
    /// A radix literal whose base part is no unsigned decimal number.
    InvalidBase { text: String },
    /// A radix base outside 2..=36.
    BaseOutOfRange { base: u32 },
    /// Radix digits invalid for the base, or a value too large.
    InvalidDigits { text: String, base: u32 },
    /// A decimal integer literal too large for a 64-bit signed integer.
    IntegerOutOfRange { text: String },
    /// The requested operation name is absent on the popped value.
    NoOperation { name: String },
}

/// The model of a diagnostic.
pub ghost enum DiagView {
    InvalidRadixFormat { text: Seq<char> },
    InvalidBase { text: Seq<char> },
    BaseOutOfRange { base: u32 },
    InvalidDigits { text: Seq<char>, base: u32 },
    IntegerOutOfRange { text: Seq<char> },
    NoOperation { name: Seq<char> },
}

impl View for Diagnostic {
    type V = DiagView;

    closed spec fn view(&self) -> DiagView {
        match self {
            Diagnostic::InvalidRadixFormat { text } => DiagView::InvalidRadixFormat {
                text: text@,
            },
            Diagnostic::InvalidBase { text } => DiagView::InvalidBase { text: text@ },
            Diagnostic::BaseOutOfRange { base } => DiagView::BaseOutOfRange { base: *base },
            Diagnostic::InvalidDigits { text, base } => DiagView::InvalidDigits {
                text: text@,
                base: *base,
            },
            Diagnostic::IntegerOutOfRange { text } => DiagView::IntegerOutOfRange { text: text@ },
            Diagnostic::NoOperation { name } => DiagView::NoOperation { name: name@ },
        }
    }
}

/// The evaluator's state over one line.
pub ghost struct EvalState {
    pub stack: Seq<ObjView>,
    pub pending: Option<BoundOp>,
    pub sign: bool,
    pub diags: Seq<DiagView>,
}

pub open spec fn init_state() -> EvalState {
    EvalState { stack: Seq::empty(), pending: None, sign: false, diags: Seq::empty() }
}

/// The bits of the promoted floating-point result of `op`.
pub open spec fn f64_op_bits(op: OpKind, a: u64, b: u64) -> u64 {
    match op {
        OpKind::Add => f64_add_bits(a, b),
        OpKind::Sub => f64_sub_bits(a, b),
        OpKind::Mul => f64_mul_bits(a, b),
    }
}

/// The wrapped two's-complement result of `op` on two integers.
pub open spec fn wrap_op(op: OpKind, a: i64, b: i64) -> i64 {
    match op {
        OpKind::Add => vstd::wrapping::i64_specs::wrapping_add(a, b),
        OpKind::Sub => vstd::wrapping::i64_specs::wrapping_sub(a, b),
        OpKind::Mul => vstd::wrapping::i64_specs::wrapping_mul(a, b),
    }
}

/// The value a pending operation produces from its right operand: integer
/// with integer stays integer; any operand pair involving a floating-point
/// value is promoted to floating point, the integer side widened first.
pub open spec fn spec_apply(b: BoundOp, rhs: Payload) -> ObjView {
    match (b.left, rhs) {
        (Payload::Int(a), Payload::Int(c)) => int_obj(wrap_op(b.op, a, c)),
        (Payload::Int(a), Payload::FloatBits(f)) => float_obj(
            f64_op_bits(b.op, f64_of_int_bits(a), f),
        ),
        (Payload::FloatBits(g), Payload::Int(c)) => float_obj(
            f64_op_bits(b.op, g, f64_of_int_bits(c)),
        ),
        (Payload::FloatBits(g), Payload::FloatBits(f)) => float_obj(f64_op_bits(b.op, g, f)),
    }
}

pub open spec fn payload_obj(p: Payload) -> ObjView {
    match p {
        Payload::Int(v) => int_obj(v),
        Payload::FloatBits(b) => float_obj(b),
    }
}

/// A numeric literal's effect: the sign flag is consumed before this point.
/// A pending operation takes the literal as its right operand and the single
/// result replaces nothing on the stack (the only case where a literal does
/// not push its own bare value); otherwise the literal pushes its own value.
pub open spec fn lit_step(st: EvalState, p: Payload) -> EvalState {
    match st.pending {
        Some(b) => EvalState {
            stack: st.stack.push(spec_apply(b, p)),
            pending: None,
            sign: false,
            diags: st.diags,
        },
        None => EvalState {
            stack: st.stack.push(payload_obj(p)),
            pending: None,
            sign: false,
            diags: st.diags,
        },
    }
}

/// An integer-valued literal's effect, after applying the sign flag.
pub open spec fn int_lit_step(st: EvalState, v: i64) -> EvalState {
    let signed: i64 = if st.sign {
        (-v) as i64
    } else {
        v
    };
    lit_step(st, Payload::Int(signed))
}

/// A radix literal's effect: the base must be an unsigned decimal in
/// [2, 36] and the digits valid for it; each failure reports a diagnostic
/// and skips the token with no stack effect and the sign flag kept.
pub open spec fn radix_step(st: EvalState, text: Seq<char>) -> EvalState {
    let rp = find_char(text, 0, 'r');
    if rp < 0 {
        EvalState { diags: st.diags.push(DiagView::InvalidRadixFormat { text }), ..st }
    } else {
        let base_txt = text.subrange(0, rp);
        let digits = text.subrange(rp + 1, text.len() as int);
        match parse_dec_u32(base_txt) {
            None => EvalState { diags: st.diags.push(DiagView::InvalidBase { text: base_txt }), ..st },
            Some(base) => {
                if base < 2 || base > 36 {
                    EvalState { diags: st.diags.push(DiagView::BaseOutOfRange { base }), ..st }
                } else {
                    match parse_radix_i64(digits, base as int) {
                        None => EvalState {
                            diags: st.diags.push(DiagView::InvalidDigits { text: digits, base }),
                            ..st
                        },
                        Some(v) => int_lit_step(st, v),
                    }
                }
            },
        }
    }
}

/// `+` or `*`: pop the stack top, look the operation up on it and make it
/// pending.  An absent operation reports a diagnostic and drops the
/// operator (the popped value is lost, the pending slot is untouched); an
/// empty stack is a no-op that also clears the sign flag.
pub open spec fn op_step(st: EvalState, name: Seq<char>) -> EvalState {
    if st.stack.len() > 0 {
        let top = st.stack.last();
        let rest = st.stack.drop_last();
        match lookup(top.props, name) {
            Some(b) => EvalState { stack: rest, pending: Some(b), sign: st.sign, diags: st.diags },
            None => EvalState {
                stack: rest,
                pending: st.pending,
                sign: st.sign,
                diags: st.diags.push(DiagView::NoOperation { name }),
            },
        }
    } else {
        EvalState { sign: false, ..st }
    }
}

/// `-`: with an operation already pending it is a literal-negation signal
/// and toggles the sign flag; otherwise it behaves as `+`/`*` do with the
/// `sub` operation, except that on an empty stack it toggles the sign flag,
/// supporting a leading unary minus.
pub open spec fn minus_step(st: EvalState, name: Seq<char>) -> EvalState {
    if st.pending is Some {
        EvalState { sign: !st.sign, ..st }
    } else if st.stack.len() > 0 {
        op_step(st, name)
    } else {
        EvalState { sign: !st.sign, ..st }
    }
}

/// One token's effect on the evaluator state.  All token kinds not listed
/// here are inert: consumed with no effect.
pub open spec fn spec_step(st: EvalState, tok: Token, text: Seq<char>) -> EvalState {
    match tok {
        Token::Integer => match parse_dec_i64(text) {
            Some(v) => int_lit_step(st, v),
            None => EvalState { diags: st.diags.push(DiagView::IntegerOutOfRange { text }), ..st },
        },
        Token::Float => {
            let bits0 = f64_of_dec_bits(text);
            let bits = if st.sign {
                f64_mul_bits(NEG_ONE_BITS, bits0)
            } else {
                bits0
            };
            lit_step(st, Payload::FloatBits(bits))
        },
        Token::RadixNumber => radix_step(st, text),
        Token::Plus => op_step(st, "add"@),
        Token::Minus => minus_step(st, "sub"@),
        Token::Star => op_step(st, "mul"@),
        _ => st,
    }
}

/// Running the evaluator from position `i` in state `st` to the end of the
/// token stream.
pub open spec fn spec_run(s: Seq<char>, i: int, st: EvalState) -> EvalState
    decreases s.len() - i,
{
    if 0 <= i < s.len() {
        let (tok, end) = spec_token_at(s, i);
        if i < end <= s.len() {
            spec_run(s, end, spec_step(st, tok, s.subrange(i, end)))
        } else {
            st
        }
    } else {
        st
    }
}

/// What evaluating one line leaves behind: the result value, if any, and
/// the diagnostics in report order.
pub struct LineOutcome {
    pub result: Option<Object>,
    pub diagnostics: Vec<Diagnostic>,
}

/// Apply a pending operation to its right operand, producing the new value
/// of the promoted kind.
pub fn apply_bound(b: BoundOp, rhs: Payload) -> (o: Object)
    ensures
        o@ == spec_apply(b, rhs),
{
    match (b.left, rhs) {
        (Payload::Int(a), Payload::Int(c)) => {
            let v = match b.op {
                OpKind::Add => a.wrapping_add(c),
                OpKind::Sub => a.wrapping_sub(c),
                OpKind::Mul => a.wrapping_mul(c),
            };
            Integer::new(v).obj
        },
        (Payload::Int(a), Payload::FloatBits(f)) => {
            Float::new(f64_apply(b.op, crate::float::f64_of_int(a), f)).obj
        },
        (Payload::FloatBits(g), Payload::Int(c)) => {
            Float::new(f64_apply(b.op, g, crate::float::f64_of_int(c))).obj
        },
        (Payload::FloatBits(g), Payload::FloatBits(f)) => Float::new(f64_apply(b.op, g, f)).obj,
    }
}

fn f64_apply(op: OpKind, a: u64, b: u64) -> (r: u64)
    ensures
        r == f64_op_bits(op, a, b),
{
    match op {
        OpKind::Add => crate::float::f64_add(a, b),
        OpKind::Sub => crate::float::f64_sub(a, b),
        OpKind::Mul => crate::float::f64_mul(a, b),
    }
}

/// The length of the run of whitespace characters just before `j`.
pub open spec fn ws_run_back(s: Seq<char>, j: int) -> int
    decreases j,
{
    if 0 < j <= s.len() && is_ws(s[j - 1]) {
        1 + ws_run_back(s, j - 1)
    } else {
        0
    }
}

/// The text with surrounding whitespace removed.
pub open spec fn trim_ws(s: Seq<char>) -> Seq<char> {
    let a = ws_run(s, 0);
    if a == s.len() {
        Seq::empty()
    } else {
        s.subrange(a, s.len() - ws_run_back(s, s.len() as int))
    }
}

fn ws_run_back_x(s: &Vec<char>, j: usize) -> (r: usize)
    requires
        j <= s@.len(),
    ensures
        r == ws_run_back(s@, j as int),
        r <= j,
        forall|k: int| j - r <= k < j ==> is_ws(#[trigger] s@[k]),
    decreases j,
{
    if j > 0 && crate::lexer::is_ws_x(s[j - 1]) {
        1 + ws_run_back_x(s, j - 1)
    } else {
        0
    }
}

/// Whether the line, with surrounding whitespace trimmed, is the literal
/// `exit` that ends the interactive loop without being evaluated.
pub fn is_exit_command(line: &str) -> (r: bool)
    ensures
        r == (trim_ws(line@) == "exit"@),
{
    proof {
        reveal_strlit("exit");
    }
    let chars = crate::lexer::str_chars(line);
    let n = chars.len();
    let a = crate::lexer::ws_run_x(&chars, 0);
    if a == n {
        proof {
            assert(trim_ws(line@) =~= Seq::<char>::empty());
            assert("exit"@.len() == 4);
        }
        return false;
    }
    let b = ws_run_back_x(&chars, n);
    proof {
        assert(!is_ws(line@[a as int]));
        assert(n - b > a) by {
            if n - b <= a {
                assert(is_ws(line@[a as int]));
            }
        }
    }
    let end = n - b;
    let r = end - a == 4 && chars[a] == 'e' && chars[a + 1] == 'x' && chars[a + 2] == 'i'
        && chars[a + 3] == 't';
    proof {
        let t = trim_ws(line@);
        assert(t =~= line@.subrange(a as int, end as int));
        if r {
            assert(t =~= "exit"@);
        } else {
            if t == "exit"@ {
                assert(t.len() == 4);
                assert(t[0] == line@[a as int]);
                assert(t[1] == line@[a + 1]);
                assert(t[2] == line@[a + 2]);
                assert(t[3] == line@[a + 3]);
                assert(false);
            }
        }
    }
    r
}

pub struct Repl {}

impl Repl {
    pub fn new() -> Repl {
        Repl {}
    }

    /// Tokenize and evaluate one line: numeric literals build values or
    /// complete a pending operation, `+`/`-`/`*` bind operations, every
    /// other token is inert.  The result is the final stack top, if any,
    /// with the diagnostics the line produced.
    pub fn process_line(&mut self, line: &str) -> (out: LineOutcome)
        ensures
            ({
                let fin = spec_run(line@, 0, init_state());
                &&& out.diagnostics@.map_values(|d: Diagnostic| d@) == fin.diags
                &&& match out.result {
                    Some(o) => fin.stack.len() > 0 && o@ == fin.stack.last(),
                    None => fin.stack.len() == 0,
                }
            }),
    {
        let mut lexer = Lexer::new(line);
        let mut stack: Vec<Object> = Vec::new();
        let mut pending: Option<BoundOp> = None;
        let mut sign: bool = false;
        let mut diags: Vec<Diagnostic> = Vec::new();
        proof {
            assert(stack@.map_values(|o: Object| o@) =~= Seq::<ObjView>::empty());
            assert(diags@.map_values(|d: Diagnostic| d@) =~= Seq::<DiagView>::empty());
        }
        loop
            invariant
                lexer.wf(),
                lexer.input() == line@,
                0 <= lexer.position() <= line@.len(),
                spec_run(
                    line@,
                    lexer.position(),
                    (EvalState {
                        stack: stack@.map_values(|o: Object| o@),
                        pending,
                        sign,
                        diags: diags@.map_values(|d: Diagnostic| d@),
                    }),
                ) == spec_run(line@, 0, init_state()),
            ensures
                spec_run(line@, 0, init_state()) == (EvalState {
                    stack: stack@.map_values(|o: Object| o@),
                    pending,
                    sign,
                    diags: diags@.map_values(|d: Diagnostic| d@),
                }),
            decreases line@.len() - lexer.position(),
        {
            let ghost pre = EvalState {
                stack: stack@.map_values(|o: Object| o@),
                pending,
                sign,
                diags: diags@.map_values(|d: Diagnostic| d@),
            };
            let r = lexer.next_token();
            match r {
                None => {
                    break ;
                },
                Some((tok, span)) => {
                    let ghost text = line@.subrange(span.0 as int, span.1 as int);
                    proof {
                        assert(spec_run(line@, span.0 as int, pre) == spec_run(
                            line@,
                            span.1 as int,
                            spec_step(pre, tok, text),
                        ));
                    }
                    match tok {
                        Token::Integer => {
                            let tc = lexer.token_chars();
                            proof {
                                assert(tc@.subrange(0, tc@.len() as int) =~= text);
                            }
                            match crate::numbers::parse_dec(&tc, 0, tc.len()) {
                                Some(v0) => {
                                    let v: i64 = if sign {
                                        -v0
                                    } else {
                                        v0
                                    };
                                    sign = false;
                                    match pending {
                                        Some(b) => {
                                            let o = apply_bound(b, Payload::Int(v));
                                            stack.push(o);
                                            pending = None;
                                        },
                                        None => {
                                            let n = Integer::new(v);
                                            stack.push(n.obj);
                                        },
                                    }
                                    proof {
                                        assert(stack@.map_values(|o: Object| o@)
                                            =~= pre.stack.push(stack@.last()@));
                                    }
                                },
                                None => {
                                    diags.push(
                                        Diagnostic::IntegerOutOfRange { text: lexer.slice() },
                                    );
                                    proof {
                                        assert(diags@.map_values(|d: Diagnostic| d@)
                                            =~= pre.diags.push(diags@.last()@));
                                    }
                                },
                            }
                        },
                        Token::Float => {
                            let txt = lexer.slice();
                            let bits0 = crate::float::f64_of_dec(txt.as_str());
                            let bits: u64 = if sign {
                                crate::float::f64_mul(NEG_ONE_BITS, bits0)
                            } else {
                                bits0
                            };
                            sign = false;
                            match pending {
                                Some(b) => {
                                    let o = apply_bound(b, Payload::FloatBits(bits));
                                    stack.push(o);
                                    pending = None;
                                },
                                None => {
                                    let f = Float::new(bits);
                                    stack.push(f.obj);
                                },
                            }
                            proof {
                                assert(stack@.map_values(|o: Object| o@) =~= pre.stack.push(
                                    stack@.last()@,
                                ));
                            }
                        },
                        Token::RadixNumber => {
                            let tc = lexer.token_chars();
                            proof {
                                assert(tc@ =~= text);
                            }
                            match crate::lexer::find_char_x(&tc, 0, 'r') {
                                None => {
                                    diags.push(
                                        Diagnostic::InvalidRadixFormat { text: lexer.slice() },
                                    );
                                    proof {
                                        assert(diags@.map_values(|d: Diagnostic| d@)
                                            =~= pre.diags.push(diags@.last()@));
                                    }
                                },
                                Some(rp) => {
                                    match crate::numbers::parse_base(&tc, 0, rp) {
                                        None => {
                                            let bt = crate::numbers::chars_range_to_string(
                                                &tc,
                                                0,
                                                rp,
                                            );
                                            diags.push(Diagnostic::InvalidBase { text: bt });
                                            proof {
                                                assert(diags@.map_values(|d: Diagnostic| d@)
                                                    =~= pre.diags.push(diags@.last()@));
                                            }
                                        },
                                        Some(base) => {
                                            if base < 2 || base > 36 {
                                                diags.push(Diagnostic::BaseOutOfRange { base });
                                                proof {
                                                    assert(diags@.map_values(|d: Diagnostic| d@)
                                                        =~= pre.diags.push(diags@.last()@));
                                                }
                                            } else {
                                                match crate::numbers::parse_radix(
                                                    &tc,
                                                    rp + 1,
                                                    tc.len(),
                                                    base,
                                                ) {
                                                    None => {
                                                        let dt =
                                                            crate::numbers::chars_range_to_string(
                                                            &tc,
                                                            rp + 1,
                                                            tc.len(),
                                                        );
                                                        diags.push(
                                                            Diagnostic::InvalidDigits {
                                                                text: dt,
                                                                base,
                                                            },
                                                        );
                                                        proof {
                                                            assert(diags@.map_values(
                                                                |d: Diagnostic| d@,
                                                            ) =~= pre.diags.push(diags@.last()@));
                                                        }
                                                    },
                                                    Some(v0) => {
                                                        let v: i64 = if sign {
                                                            -v0
                                                        } else {
                                                            v0
                                                        };
                                                        sign = false;
                                                        match pending {
                                                            Some(b) => {
                                                                let o = apply_bound(
                                                                    b,
                                                                    Payload::Int(v),
                                                                );
                                                                stack.push(o);
                                                                pending = None;
                                                            },
                                                            None => {
                                                                let n = Integer::new(v);
                                                                stack.push(n.obj);
                                                            },
                                                        }
                                                        proof {
                                                            assert(stack@.map_values(
                                                                |o: Object| o@,
                                                            ) =~= pre.stack.push(stack@.last()@));
                                                        }
                                                    },
                                                }
                                            }
                                        },
                                    }
                                },
                            }
                        },
                        Token::Plus => {
                            match stack.pop() {
                                Some(top) => {
                                    proof {
                                        assert(stack@.map_values(|o: Object| o@)
                                            =~= pre.stack.drop_last());
                                        assert(top@ == pre.stack.last());
                                    }
                                    match top.get("add") {
                                        Some(b) => {
                                            pending = Some(b);
                                        },
                                        None => {
                                            diags.push(
                                                Diagnostic::NoOperation { name: "add".to_owned() },
                                            );
                                            proof {
                                                assert(diags@.map_values(|d: Diagnostic| d@)
                                                    =~= pre.diags.push(diags@.last()@));
                                            }
                                        },
                                    }
                                },
                                None => {
                                    sign = false;
                                },
                            }
                        },
                        Token::Minus => {
                            if pending.is_some() {
                                sign = !sign;
                            } else {
                                match stack.pop() {
                                    Some(top) => {
                                        proof {
                                            assert(stack@.map_values(|o: Object| o@)
                                                =~= pre.stack.drop_last());
                                            assert(top@ == pre.stack.last());
                                        }
                                        match top.get("sub") {
                                            Some(b) => {
                                                pending = Some(b);
                                            },
                                            None => {
                                                diags.push(
                                                    Diagnostic::NoOperation {
                                                        name: "sub".to_owned(),
                                                    },
                                                );
                                                proof {
                                                    assert(diags@.map_values(|d: Diagnostic| d@)
                                                        =~= pre.diags.push(diags@.last()@));
                                                }
                                            },
                                        }
                                    },
                                    None => {
                                        sign = !sign;
                                    },
                                }
                            }
                        },
                        Token::Star => {
                            match stack.pop() {
                                Some(top) => {
                                    proof {
                                        assert(stack@.map_values(|o: Object| o@)
                                            =~= pre.stack.drop_last());
                                        assert(top@ == pre.stack.last());
                                    }
                                    match top.get("mul") {
                                        Some(b) => {
                                            pending = Some(b);
                                        },
                                        None => {
                                            diags.push(
                                                Diagnostic::NoOperation { name: "mul".to_owned() },
                                            );
                                            proof {
                                                assert(diags@.map_values(|d: Diagnostic| d@)
                                                    =~= pre.diags.push(diags@.last()@));
                                            }
                                        },
                                    }
                                },
                                None => {
                                    sign = false;
                                },
                            }
                        },
                        _ => {},
                    }
                    proof {
                        assert((EvalState {
                            stack: stack@.map_values(|o: Object| o@),
                            pending,
                            sign,
                            diags: diags@.map_values(|d: Diagnostic| d@),
                        }) == spec_step(pre, tok, text));
                    }
                },
            }
        }
        let result = stack.pop();
        LineOutcome { result, diagnostics: diags }
    }
}

} // verus!
