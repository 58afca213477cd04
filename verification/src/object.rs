//! The runtime value model: an `Object` carries an optional numeric payload,
//! a class tag, and a name-keyed table of bound operations.  Absence of a
//! requested operation is a normal, checked outcome; reading the payload with
//! the wrong expected kind fails cleanly with `None`.

use vstd::prelude::*;
use crate::numbers::{chars_to_string, dec_chars, spec_dec_str};

verus! {

/// A rendered result: the textual form where the library can produce it, or
/// what the caller needs to finish the job.  A floating-point result is
/// rendered by the caller from its bits (ten digits after the decimal
/// point); a non-numeric payload renders as an opaque reference form
/// carrying the class tag, which is no stable output.
pub enum Rendered {
    Text(String),
    FloatBits(u64),
    Opaque(String),
}

/// The model of a rendered result.
pub ghost enum RenderedView {
    Text(Seq<char>),
    FloatBits(u64),
    Opaque(Seq<char>),
}

impl View for Rendered {
    type V = RenderedView;

    closed spec fn view(&self) -> RenderedView {
        match self {
            Rendered::Text(s) => RenderedView::Text(s@),
            Rendered::FloatBits(b) => RenderedView::FloatBits(*b),
            Rendered::Opaque(s) => RenderedView::Opaque(s@),
        }
    }
}

/// The textual form of a value: the integer kind renders as its plain
/// decimal digits; the float kind is handed back as bits to render with ten
/// digits after the decimal point; a class tag inconsistent with its payload
/// renders as an error marker; any other class renders opaquely, or as a nil
/// marker when no payload is present.
pub open spec fn spec_render(o: ObjView) -> RenderedView {
    if o.class == "integer"@ {
        match o.self_value {
            Some(Payload::Int(v)) => RenderedView::Text(spec_dec_str(v as int)),
            _ => RenderedView::Text("Error!"@),
        }
    } else if o.class == "float"@ {
        match o.self_value {
            Some(Payload::FloatBits(b)) => RenderedView::FloatBits(b),
            _ => RenderedView::Text("Error!"@),
        }
    } else {
        match o.self_value {
            Some(_) => RenderedView::Opaque(o.class),
            None => RenderedView::Text("nil"@),
        }
    }
}

/// A numeric payload.  The set of payload kinds is closed by design: a
/// 64-bit signed integer, or a 64-bit IEEE-754 floating-point number carried
/// as its bit pattern (`src/float.rs` holds the operations on such bits).
#[derive(Clone, Copy, Debug, PartialEq, Eq, Structural)]
pub enum Payload {
    Int(i64),
    FloatBits(u64),
}

/// The operation names a numeric value registers in its table.
#[derive(Clone, Copy, Debug, PartialEq, Eq, Structural)]
pub enum OpKind {
    Add,
    Sub,
    Mul,
}

/// An operation already bound to its left operand, awaiting the right one.
#[derive(Clone, Copy, Debug, PartialEq, Eq, Structural)]
pub struct BoundOp {
    pub op: OpKind,
    pub left: Payload,
}

/// The mathematical model of an `Object`: its class tag, payload, and
/// operation table, the table as a sequence of (name, operation) pairs in
/// insertion order with no name repeated.
pub ghost struct ObjView {
    pub class: Seq<char>,
    pub self_value: Option<Payload>,
    pub props: Seq<(Seq<char>, BoundOp)>,
}

/// The operation bound to `key` in a table, if any.
pub open spec fn lookup(props: Seq<(Seq<char>, BoundOp)>, key: Seq<char>) -> Option<BoundOp>
    decreases props.len(),
{
    if props.len() == 0 {
        None
    } else if props[0].0 == key {
        Some(props[0].1)
    } else {
        lookup(props.drop_first(), key)
    }
}

/// A table after binding `key` to `value`: the existing entry for `key` is
/// replaced in place, or a new entry is appended.
pub open spec fn insert_prop(
    props: Seq<(Seq<char>, BoundOp)>,
    key: Seq<char>,
    value: BoundOp,
) -> Seq<(Seq<char>, BoundOp)>
    decreases props.len(),
{
    if props.len() == 0 {
        seq![(key, value)]
    } else if props[0].0 == key {
        seq![(key, value)] + props.drop_first()
    } else {
        seq![props[0]] + insert_prop(props.drop_first(), key, value)
    }
}

pub struct Object {
    self_value: Option<Payload>,
    properties: Vec<(String, BoundOp)>,
    class: String,
}

impl View for Object {
    type V = ObjView;

    closed spec fn view(&self) -> ObjView {
        ObjView {
            class: self.class@,
            self_value: self.self_value,
            props: self.properties@.map_values(|p: (String, BoundOp)| (p.0@, p.1)),
        }
    }
}

/// Relies on `<str as PartialEq>::eq`: two string slices are equal exactly
/// when they consist of the same characters.
#[verifier::external_body]
fn str_eq(a: &str, b: &str) -> (r: bool)
    ensures
        r == (a@ == b@),
{
    a == b
}

impl Object {
    pub fn new(self_value: Option<Payload>, class: String) -> (o: Object)
        ensures
            o@ == (ObjView { class: class@, self_value, props: Seq::<(Seq<char>, BoundOp)>::empty() }),
    {
        let o = Object { self_value, properties: Vec::new(), class };
        proof {
            assert(o@.props =~= Seq::<(Seq<char>, BoundOp)>::empty());
        }
        o
    }

    pub fn set_self_value(&mut self, value: Payload, class: String)
        ensures
            final(self)@ == (ObjView {
                class: class@,
                self_value: Some(value),
                props: old(self)@.props,
            }),
    {
        self.self_value = Some(value);
        self.class = class;
    }

    pub fn get_class(&self) -> (c: &str)
        ensures
            c@ == self@.class,
    {
        self.class.as_str()
    }

    pub fn get_self_value(&self) -> (p: Option<Payload>)
        ensures
            p == self@.self_value,
    {
        self.self_value
    }

    /// Bind `key` to `value` in the operation table, replacing any entry
    /// already held under that name.
    pub fn set(&mut self, key: String, value: BoundOp)
        ensures
            final(self)@ == (ObjView {
                class: old(self)@.class,
                self_value: old(self)@.self_value,
                props: insert_prop(old(self)@.props, key@, value),
            }),
    {
        let n = self.properties.len();
        let mut i: usize = 0;
        while i < n
            invariant
                i <= n,
                n == self.properties.len(),
                *self == *old(self),
                forall|j: int| 0 <= j < i ==> self@.props[j].0 != key@,
            decreases n - i,
        {
            if str_eq(self.properties[i].0.as_str(), key.as_str()) {
                proof {
                    lemma_insert_at_match(self@.props, key@, value, i as int);
                }
                self.properties.set(i, (key, value));
                proof {
                    assert(self@.props =~= insert_prop(old(self)@.props, key@, value));
                }
                return ;
            }
            i += 1;
        }
        proof {
            lemma_insert_appends(self@.props, key@, value);
        }
        self.properties.push((key, value));
        proof {
            assert(self@.props =~= insert_prop(old(self)@.props, key@, value));
        }
    }

    /// Look up the operation bound to `key`; absence is a normal outcome.
    pub fn get(&self, key: &str) -> (r: Option<BoundOp>)
        ensures
            r == lookup(self@.props, key@),
    {
        let n = self.properties.len();
        let mut i: usize = 0;
        while i < n
            invariant
                i <= n,
                n == self.properties.len(),
                forall|j: int| 0 <= j < i ==> self@.props[j].0 != key@,
            decreases n - i,
        {
            if str_eq(self.properties[i].0.as_str(), key) {
                proof {
                    lemma_lookup_first_match(self@.props, key@, i as int);
                }
                return Some(self.properties[i].1);
            }
            i += 1;
        }
        proof {
            lemma_lookup_absent(self@.props, key@);
        }
        None
    }

    pub fn properties_len(&self) -> (n: usize)
        ensures
            n == self@.props.len(),
    {
        self.properties.len()
    }

    /// Render this value's textual form, as far as the payload kinds allow.
    pub fn render(&self) -> (r: Rendered)
        ensures
            r@ == spec_render(self@),
    {
        if str_eq(self.class.as_str(), "integer") {
            match self.self_value {
                Some(Payload::Int(v)) => Rendered::Text(chars_to_string(&dec_chars(v))),
                _ => Rendered::Text("Error!".to_owned()),
            }
        } else if str_eq(self.class.as_str(), "float") {
            match self.self_value {
                Some(Payload::FloatBits(b)) => Rendered::FloatBits(b),
                _ => Rendered::Text("Error!".to_owned()),
            }
        } else {
            match self.self_value {
                Some(_) => Rendered::Opaque(self.class.clone()),
                None => Rendered::Text("nil".to_owned()),
            }
        }
    }

    /// The names bound in the operation table, in insertion order.
    pub fn property_names(&self) -> (names: Vec<String>)
        ensures
            names@.map_values(|s: String| s@) == self@.props.map_values(
                |p: (Seq<char>, BoundOp)| p.0,
            ),
    {
        let mut names: Vec<String> = Vec::new();
        let n = self.properties.len();
        let mut i: usize = 0;
        while i < n
            invariant
                i <= n,
                n == self.properties.len(),
                names@.len() == i,
                forall|j: int| 0 <= j < i ==> names@[j]@ == self@.props[j].0,
            decreases n - i,
        {
            names.push(self.properties[i].0.clone());
            i += 1;
        }
        proof {
            assert(names@.map_values(|s: String| s@) =~= self@.props.map_values(
                |p: (Seq<char>, BoundOp)| p.0,
            ));
        }
        names
    }
}

/// If the first `i` entries miss `key` and entry `i` holds it, the lookup
/// finds entry `i`.
proof fn lemma_lookup_first_match(props: Seq<(Seq<char>, BoundOp)>, key: Seq<char>, i: int)
    requires
        0 <= i < props.len(),
        props[i].0 == key,
        forall|j: int| 0 <= j < i ==> props[j].0 != key,
    ensures
        lookup(props, key) == Some(props[i].1),
    decreases i,
{
    if i > 0 {
        lemma_lookup_first_match(props.drop_first(), key, i - 1);
    }
}

/// If no entry holds `key`, the lookup misses.
proof fn lemma_lookup_absent(props: Seq<(Seq<char>, BoundOp)>, key: Seq<char>)
    requires
        forall|j: int| 0 <= j < props.len() ==> props[j].0 != key,
    ensures
        lookup(props, key) is None,
    decreases props.len(),
{
    if props.len() > 0 {
        lemma_lookup_absent(props.drop_first(), key);
    }
}

/// If the first `i` entries miss `key` and entry `i` holds it, binding `key`
/// replaces entry `i` in place.
proof fn lemma_insert_at_match(
    props: Seq<(Seq<char>, BoundOp)>,
    key: Seq<char>,
    value: BoundOp,
    i: int,
)
    requires
        0 <= i < props.len(),
        props[i].0 == key,
        forall|j: int| 0 <= j < i ==> props[j].0 != key,
    ensures
        insert_prop(props, key, value) =~= props.update(i, (key, value)),
    decreases i,
{
    if i == 0 {
        assert(insert_prop(props, key, value) =~= props.update(0, (key, value)));
    } else {
        lemma_insert_at_match(props.drop_first(), key, value, i - 1);
        assert(insert_prop(props, key, value) =~= seq![props[0]] + props.drop_first().update(
            i - 1,
            (key, value),
        ));
        assert(seq![props[0]] + props.drop_first().update(i - 1, (key, value)) =~= props.update(
            i,
            (key, value),
        ));
    }
}

/// If no entry holds `key`, binding it appends a fresh entry.
pub proof fn lemma_insert_appends(props: Seq<(Seq<char>, BoundOp)>, key: Seq<char>, value: BoundOp)
    requires
        forall|j: int| 0 <= j < props.len() ==> props[j].0 != key,
    ensures
        insert_prop(props, key, value) =~= props.push((key, value)),
    decreases props.len(),
{
    if props.len() == 0 {
        assert(insert_prop(props, key, value) =~= props.push((key, value)));
    } else {
        lemma_insert_appends(props.drop_first(), key, value);
        assert(insert_prop(props, key, value) =~= seq![props[0]] + props.drop_first().push(
            (key, value),
        ));
        assert(seq![props[0]] + props.drop_first().push((key, value)) =~= props.push(
            (key, value),
        ));
    }
}

} // verus!
