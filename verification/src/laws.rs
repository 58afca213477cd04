//! Laws relating the tokenizer and the evaluator: what holds of whole
//! classes of inputs, proved from the components' own specifications.

use vstd::prelude::*;
use crate::integer::int_obj;
use crate::lexer::{
    digit_run, float_len, radix_len, spec_token_at, Token,
};
use crate::numbers::{all_digits, is_digit, parse_dec_i64};
use crate::object::{lookup, BoundOp, OpKind, Payload};
use crate::repl::{init_state, spec_step, DiagView};

verus! {

proof fn lemma_digit_run_all(s: Seq<char>, i: int)
    requires
        0 <= i <= s.len(),
        all_digits(s),
    ensures
        digit_run(s, i) == s.len() - i,
    decreases s.len() - i,
{
    if i < s.len() {
        lemma_digit_run_all(s, i + 1);
    }
}

/// Law: a string of decimal digits tokenizes as exactly one Integer token
/// spanning the whole input.
pub proof fn lemma_decimal_is_one_integer_token(s: Seq<char>)
    requires
        s.len() > 0,
        all_digits(s),
    ensures
        spec_token_at(s, 0) == (Token::Integer, s.len() as int),
{
    lemma_digit_run_all(s, 0);
    assert(is_digit(s[0]));
    assert(!crate::lexer::is_ws(s[0]));
    assert(radix_len(s, 0) == 0);
    assert(float_len(s, 0) == 0);
}

/// Law: evaluating a line whose tokens are an integer literal, one of the
/// operators `+`, `-`, `*`, and a second integer literal leaves exactly the
/// mathematically correct integer result on the stack, with no pending
/// operation and no diagnostic, whenever that result is representable.
pub proof fn lemma_integer_binary_send(ta: Seq<char>, tb: Seq<char>, op: Token, a: i64, b: i64)
    requires
        parse_dec_i64(ta) == Some(a),
        parse_dec_i64(tb) == Some(b),
        op == Token::Plus || op == Token::Minus || op == Token::Star,
        op == Token::Plus ==> i64::MIN <= a + b <= i64::MAX,
        op == Token::Minus ==> i64::MIN <= a - b <= i64::MAX,
        op == Token::Star ==> i64::MIN <= a * b <= i64::MAX,
    ensures
        ({
            let opchars: Seq<char> = if op == Token::Plus {
                seq!['+']
            } else if op == Token::Minus {
                seq!['-']
            } else {
                seq!['*']
            };
            let exact: int = if op == Token::Plus {
                a + b
            } else if op == Token::Minus {
                a - b
            } else {
                a * b
            };
            let fin = spec_step(
                spec_step(spec_step(init_state(), Token::Integer, ta), op, opchars),
                Token::Integer,
                tb,
            );
            &&& fin.stack =~= seq![int_obj(exact as i64)]
            &&& fin.pending is None
            &&& fin.sign == false
            &&& fin.diags =~= Seq::<DiagView>::empty()
        }),
{
    reveal_strlit("add");
    reveal_strlit("sub");
    reveal_strlit("mul");
    assert("add"@ != "sub"@) by {
        assert("add"@[0] == 'a' && "sub"@[0] == 's');
    }
    assert("add"@ != "mul"@) by {
        assert("add"@[0] == 'a' && "mul"@[0] == 'm');
    }
    assert("sub"@ != "mul"@) by {
        assert("sub"@[0] == 's' && "mul"@[0] == 'm');
    }
    let st1 = spec_step(init_state(), Token::Integer, ta);
    assert(st1.stack =~= seq![int_obj(a)]);
    assert(st1.pending is None && st1.sign == false);
    let props = int_obj(a).props;
    let bo_a = BoundOp { op: OpKind::Add, left: Payload::Int(a) };
    let bo_s = BoundOp { op: OpKind::Sub, left: Payload::Int(a) };
    let bo_m = BoundOp { op: OpKind::Mul, left: Payload::Int(a) };
    let tail1 = seq![("sub"@, bo_s), ("mul"@, bo_m)];
    let tail2 = seq![("mul"@, bo_m)];
    assert(props.drop_first() =~~= tail1);
    assert(tail1.drop_first() =~~= tail2);
    assert(lookup(tail2, "mul"@) == Some(bo_m));
    assert(lookup(tail1, "sub"@) == Some(bo_s));
    assert(lookup(tail1, "mul"@) == lookup(tail2, "mul"@));
    assert(lookup(props, "add"@) == Some(bo_a));
    assert(lookup(props, "sub"@) == lookup(tail1, "sub"@));
    assert(lookup(props, "mul"@) == lookup(tail1, "mul"@));
    let opchars: Seq<char> = if op == Token::Plus {
        seq!['+']
    } else if op == Token::Minus {
        seq!['-']
    } else {
        seq!['*']
    };
    let st2 = spec_step(st1, op, opchars);
    assert(st1.stack.drop_last() =~= Seq::<crate::object::ObjView>::empty());
    assert(st2.stack =~= Seq::<crate::object::ObjView>::empty());
    assert(st2.sign == false);
    assert(st2.diags =~= Seq::<DiagView>::empty());
    let bo = if op == Token::Plus {
        bo_a
    } else if op == Token::Minus {
        bo_s
    } else {
        bo_m
    };
    assert(st2.pending == Some(bo));
    let fin = spec_step(st2, Token::Integer, tb);
    if op == Token::Star {
        assert(vstd::wrapping::i64_specs::wrapping_mul(a, b) == a * b) by {
            if a * b >= 0 {
                vstd::arithmetic::div_mod::lemma_small_mod(
                    (a * b) as nat,
                    0x1_0000_0000_0000_0000,
                );
            } else {
                vstd::arithmetic::div_mod::lemma_mod_add_multiples_vanish(
                    a * b,
                    0x1_0000_0000_0000_0000,
                );
                vstd::arithmetic::div_mod::lemma_small_mod(
                    (a * b + 0x1_0000_0000_0000_0000) as nat,
                    0x1_0000_0000_0000_0000,
                );
            }
        }
    }
    assert(fin.stack =~= st2.stack.push(int_obj(wrap_op_value(op, a, b))));
}

spec fn wrap_op_value(op: Token, a: i64, b: i64) -> i64 {
    if op == Token::Plus {
        vstd::wrapping::i64_specs::wrapping_add(a, b)
    } else if op == Token::Minus {
        vstd::wrapping::i64_specs::wrapping_sub(a, b)
    } else {
        vstd::wrapping::i64_specs::wrapping_mul(a, b)
    }
}

} // verus!
