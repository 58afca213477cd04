//! The whole-number numeric kind: a 64-bit signed integer payload with the
//! three arithmetic operations bound to it.

use vstd::prelude::*;
use crate::object::{BoundOp, ObjView, Object, OpKind, Payload};

verus! {

/// The model of the `Object` an integer kind constructs: an "integer" class
/// tag, the payload, and the three arithmetic operations each bound to this
/// value as their left operand.
pub open spec fn int_obj(v: i64) -> ObjView {
    ObjView {
        class: "integer"@,
        self_value: Some(Payload::Int(v)),
        props: seq![
            ("add"@, BoundOp { op: OpKind::Add, left: Payload::Int(v) }),
            ("sub"@, BoundOp { op: OpKind::Sub, left: Payload::Int(v) }),
            ("mul"@, BoundOp { op: OpKind::Mul, left: Payload::Int(v) }),
        ],
    }
}

pub struct Integer {
    pub obj: Object,
}

impl Integer {
    /// Construct the whole-number kind over `value` and register its `add`,
    /// `sub` and `mul` operations.
    pub fn new(value: i64) -> (n: Integer)
        ensures
            n.obj@ == int_obj(value),
    {
        let mut obj = Object::new(Some(Payload::Int(value)), "integer".to_owned());
        obj.set("add".to_owned(), BoundOp { op: OpKind::Add, left: Payload::Int(value) });
        obj.set("sub".to_owned(), BoundOp { op: OpKind::Sub, left: Payload::Int(value) });
        obj.set("mul".to_owned(), BoundOp { op: OpKind::Mul, left: Payload::Int(value) });
        proof {
            reveal_strlit("add");
            reveal_strlit("sub");
            reveal_strlit("mul");
            assert("add"@ != "sub"@) by {
                assert("add"@[0] == 'a' && "sub"@[0] == 's');
            }
            assert("add"@ != "mul"@) by {
                assert("add"@[0] == 'a' && "mul"@[0] == 'm');
            }
            assert("sub"@ != "mul"@) by {
                assert("sub"@[0] == 's' && "mul"@[0] == 'm');
            }
            let bo = |k: OpKind| BoundOp { op: k, left: Payload::Int(value) };
            let p1 = seq![("add"@, bo(OpKind::Add))];
            let p2 = p1.push(("sub"@, bo(OpKind::Sub)));
            crate::object::lemma_insert_appends(
                Seq::<(Seq<char>, BoundOp)>::empty(),
                "add"@,
                bo(OpKind::Add),
            );
            assert(Seq::<(Seq<char>, BoundOp)>::empty().push(("add"@, bo(OpKind::Add))) =~= p1);
            crate::object::lemma_insert_appends(p1, "sub"@, bo(OpKind::Sub));
            crate::object::lemma_insert_appends(p2, "mul"@, bo(OpKind::Mul));
            assert(obj@.props =~= int_obj(value).props);
        }
        Integer { obj }
    }

    /// The payload, when the wrapped object indeed holds an integer payload.
    pub fn get_self_value(&self) -> (r: Option<i64>)
        ensures
            r == (match self.obj@.self_value {
                Some(Payload::Int(v)) => Some(v),
                _ => None::<i64>,
            }),
    {
        match self.obj.get_self_value() {
            Some(Payload::Int(v)) => Some(v),
            _ => None,
        }
    }
}

} // verus!
