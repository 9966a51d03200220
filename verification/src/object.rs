//! The runtime values and what each of them can do.

use vstd::prelude::*;
use crate::list::List;
use crate::list::spec_list_get;
use crate::list::spec_list_set;
use crate::number::ArithFault;
use crate::number::decimal;
use crate::number::render_int;
use crate::number::num_add;
use crate::number::num_sub;
use crate::number::num_mul;
use crate::number::num_div;
use crate::number::num_mod;
use crate::number::num_pow;
use crate::number::spec_num_add;
use crate::number::spec_num_sub;
use crate::number::spec_num_mul;
use crate::number::spec_num_div;
use crate::number::spec_num_mod;
use crate::number::spec_num_pow;

verus! {

/// The five variants a runtime value can take.
#[derive(Clone, Copy, PartialEq, Eq, Debug, Structural)]
pub enum ObjType {
    Null,
    Boolean,
    Number,
    Text,
    List,
}

/// The named operations a variant may or may not implement.
#[derive(Clone, Copy, PartialEq, Eq, Debug, Structural)]
pub enum Capability {
    ToText,
    ToBoolean,
    ToNumber,
    GetItem,
    SetItem,
    DelItem,
    Add,
    Sub,
    Mul,
    Div,
    Mod,
    Pow,
    Eql,
    Neq,
    Lth,
    Gth,
    Leq,
    Geq,
}

/// A runtime value.
#[derive(Debug, PartialEq)]
pub enum Object {
    Null,
    Boolean(bool),
    Number(i64),
    Text(String),
    List(List),
}

/// The mathematical value an `Object` stands for.
pub enum ObjectView {
    Null,
    Boolean(bool),
    Number(int),
    Text(Seq<char>),
    List(Seq<ObjectView>),
}

/// The value that `o` stands for.
pub open spec fn object_view(o: Object) -> ObjectView
    decreases o,
{
    match o {
        Object::Null => ObjectView::Null,
        Object::Boolean(b) => ObjectView::Boolean(b),
        Object::Number(n) => ObjectView::Number(n as int),
        Object::Text(t) => ObjectView::Text(t@),
        Object::List(l) => ObjectView::List(objects_view(l.contents@)),
    }
}

/// The values that the elements of `s` stand for, in order.
pub open spec fn objects_view(s: Seq<Object>) -> Seq<ObjectView>
    decreases s,
{
    Seq::new(
        s.len(),
        |i: int|
            if 0 <= i < s.len() {
                object_view(s[i])
            } else {
                ObjectView::Null
            },
    )
}

impl View for Object {
    type V = ObjectView;

    open spec fn view(&self) -> ObjectView {
        object_view(*self)
    }
}

impl ObjectView {
    /// The variant of this value.
    pub open spec fn obj_type(self) -> ObjType {
        match self {
            ObjectView::Null => ObjType::Null,
            ObjectView::Boolean(_) => ObjType::Boolean,
            ObjectView::Number(_) => ObjType::Number,
            ObjectView::Text(_) => ObjType::Text,
            ObjectView::List(_) => ObjType::List,
        }
    }
}

impl Clone for Object {
    fn clone(&self) -> (r: Object)
        ensures
            r@ == self@,
        decreases self,
    {
        match self {
            Object::Null => Object::Null,
            Object::Boolean(b) => Object::Boolean(*b),
            Object::Number(n) => Object::Number(*n),
            Object::Text(t) => Object::Text(t.clone()),
            Object::List(l) => Object::List(l.clone()),
        }
    }
}

/// The two-operand operations of the object model.
#[derive(Clone, Copy, PartialEq, Eq, Debug, Structural)]
pub enum Oper {
    Add,
    Sub,
    Mul,
    Div,
    Mod,
    Pow,
    Eql,
    Neq,
    Lth,
    Gth,
    Leq,
    Geq,
}

impl Oper {
    /// The capability that this operation asks of its left operand.
    pub open spec fn spec_capability(self) -> Capability {
        match self {
            Oper::Add => Capability::Add,
            Oper::Sub => Capability::Sub,
            Oper::Mul => Capability::Mul,
            Oper::Div => Capability::Div,
            Oper::Mod => Capability::Mod,
            Oper::Pow => Capability::Pow,
            Oper::Eql => Capability::Eql,
            Oper::Neq => Capability::Neq,
            Oper::Lth => Capability::Lth,
            Oper::Gth => Capability::Gth,
            Oper::Leq => Capability::Leq,
            Oper::Geq => Capability::Geq,
        }
    }

    /// The capability that this operation asks of its left operand.
    pub fn capability(self) -> (c: Capability)
        ensures
            c == self.spec_capability(),
    {
        match self {
            Oper::Add => Capability::Add,
            Oper::Sub => Capability::Sub,
            Oper::Mul => Capability::Mul,
            Oper::Div => Capability::Div,
            Oper::Mod => Capability::Mod,
            Oper::Pow => Capability::Pow,
            Oper::Eql => Capability::Eql,
            Oper::Neq => Capability::Neq,
            Oper::Lth => Capability::Lth,
            Oper::Gth => Capability::Gth,
            Oper::Leq => Capability::Leq,
            Oper::Geq => Capability::Geq,
        }
    }
}

/// A typed failure of a capability. A caller can tell the variants apart
/// and recover from each.
#[derive(Debug, PartialEq)]
pub enum ObjError {
    /// The key names no position of the container.
    InvalidKey(Object),
    /// The source variant cannot stand for the target variant.
    InvalidCast { from: ObjType, to: ObjType },
    /// The left operand implements the operation, but not with this right
    /// operand.
    UnsupportedOperation { oper: Capability, lhs: ObjType, rhs: ObjType },
    /// The variant does not implement the capability at all.
    NotImplemented { capability: Capability, variant: ObjType },
    /// The operands are of the right variants, but the operation has no
    /// result on their values.
    Arithmetic { oper: Capability, fault: ArithFault },
}

/// The mathematical value an `ObjError` stands for.
pub enum ObjErrorView {
    InvalidKey(ObjectView),
    InvalidCast { from: ObjType, to: ObjType },
    UnsupportedOperation { oper: Capability, lhs: ObjType, rhs: ObjType },
    NotImplemented { capability: Capability, variant: ObjType },
    Arithmetic { oper: Capability, fault: ArithFault },
}

impl View for ObjError {
    type V = ObjErrorView;

    open spec fn view(&self) -> ObjErrorView {
        match *self {
            ObjError::InvalidKey(k) => ObjErrorView::InvalidKey(k@),
            ObjError::InvalidCast { from, to } => ObjErrorView::InvalidCast { from, to },
            ObjError::UnsupportedOperation { oper, lhs, rhs } => ObjErrorView::UnsupportedOperation {
                oper,
                lhs,
                rhs,
            },
            ObjError::NotImplemented { capability, variant } => ObjErrorView::NotImplemented {
                capability,
                variant,
            },
            ObjError::Arithmetic { oper, fault } => ObjErrorView::Arithmetic { oper, fault },
        }
    }
}

/// The view of what a capability returns.
pub open spec fn result_view<T: View>(r: Result<T, ObjError>) -> Result<T::V, ObjErrorView> {
    match r {
        Ok(v) => Ok(v@),
        Err(e) => Err(e@),
    }
}

/// Boolean coercion: `Null`, the number zero, the empty text and the empty
/// list are false, a `Boolean` is the truth value it wraps, and every other
/// value is true.
pub open spec fn truthy(v: ObjectView) -> bool {
    match v {
        ObjectView::Null => false,
        ObjectView::Boolean(b) => b,
        ObjectView::Number(n) => n != 0,
        ObjectView::Text(t) => t.len() > 0,
        ObjectView::List(l) => l.len() > 0,
    }
}

/// The rendering of a value as text.
pub open spec fn render(v: ObjectView) -> Seq<char>
    decreases v, 0nat,
{
    match v {
        ObjectView::Null => "null"@,
        ObjectView::Boolean(b) => if b {
            "true"@
        } else {
            "false"@
        },
        ObjectView::Number(n) => decimal(n),
        ObjectView::Text(t) => t,
        ObjectView::List(l) => "["@ + render_joined(l, l.len()) + "]"@,
    }
}

/// The renderings of the first `n` elements of `items`, in order, with a
/// comma and a blank between each two.
pub open spec fn render_joined(items: Seq<ObjectView>, n: nat) -> Seq<char>
    decreases items, n,
{
    if n == 0 || n > items.len() {
        Seq::empty()
    } else if n == 1 {
        render(items[0])
    } else {
        render_joined(items, (n - 1) as nat) + ", "@ + render(items[n - 1])
    }
}

/// The rendering of a list: its elements' renderings between brackets.
pub open spec fn render_list(items: Seq<ObjectView>) -> Seq<char> {
    render(ObjectView::List(items))
}

/// The value of a key that is a number; any other key cannot be cast.
pub open spec fn spec_to_number(v: ObjectView) -> Result<int, ObjErrorView> {
    match v {
        ObjectView::Number(n) => Ok(n),
        _ => Err(ObjErrorView::InvalidCast { from: v.obj_type(), to: ObjType::Number }),
    }
}

/// A number, or the arithmetic fault of `oper`.
pub open spec fn lifted(oper: Oper, r: Result<i64, ArithFault>) -> Result<ObjectView, ObjErrorView> {
    match r {
        Ok(n) => Ok(ObjectView::Number(n as int)),
        Err(fault) => Err(ObjErrorView::Arithmetic { oper: oper.spec_capability(), fault }),
    }
}

/// What `oper` makes of two numbers.
pub open spec fn spec_number_binary(oper: Oper, a: int, b: int) -> Result<ObjectView, ObjErrorView> {
    match oper {
        Oper::Add => lifted(oper, spec_num_add(a, b)),
        Oper::Sub => lifted(oper, spec_num_sub(a, b)),
        Oper::Mul => lifted(oper, spec_num_mul(a, b)),
        Oper::Div => lifted(oper, spec_num_div(a, b)),
        Oper::Mod => lifted(oper, spec_num_mod(a, b)),
        Oper::Pow => lifted(oper, spec_num_pow(a, b)),
        Oper::Eql => Ok(ObjectView::Boolean(a == b)),
        Oper::Neq => Ok(ObjectView::Boolean(a != b)),
        Oper::Lth => Ok(ObjectView::Boolean(a < b)),
        Oper::Gth => Ok(ObjectView::Boolean(a > b)),
        Oper::Leq => Ok(ObjectView::Boolean(a <= b)),
        Oper::Geq => Ok(ObjectView::Boolean(a >= b)),
    }
}

/// What `oper` makes of `lhs` and `rhs`. The left operand decides: only a
/// number implements the operations, and only with a number on the right.
pub open spec fn spec_binary(oper: Oper, lhs: ObjectView, rhs: ObjectView) -> Result<
    ObjectView,
    ObjErrorView,
> {
    match lhs {
        ObjectView::Number(a) => match rhs {
            ObjectView::Number(b) => spec_number_binary(oper, a, b),
            _ => Err(
                ObjErrorView::UnsupportedOperation {
                    oper: oper.spec_capability(),
                    lhs: ObjType::Number,
                    rhs: rhs.obj_type(),
                },
            ),
        },
        _ => Err(
            ObjErrorView::NotImplemented {
                capability: oper.spec_capability(),
                variant: lhs.obj_type(),
            },
        ),
    }
}

/// What reading `key` from `v` yields: only a list can be read by key.
pub open spec fn spec_get_item(v: ObjectView, key: ObjectView) -> Result<ObjectView, ObjErrorView> {
    match v {
        ObjectView::List(items) => spec_list_get(items, key),
        _ => Err(
            ObjErrorView::NotImplemented { capability: Capability::GetItem, variant: v.obj_type() },
        ),
    }
}

/// The value that writing `val` under `key` makes of `v`: only a list can
/// be written by key.
pub open spec fn spec_set_item(v: ObjectView, key: ObjectView, val: ObjectView) -> Result<
    ObjectView,
    ObjErrorView,
> {
    match v {
        ObjectView::List(items) => match spec_list_set(items, key, val) {
            Ok(items2) => Ok(ObjectView::List(items2)),
            Err(e) => Err(e),
        },
        _ => Err(
            ObjErrorView::NotImplemented { capability: Capability::SetItem, variant: v.obj_type() },
        ),
    }
}

impl Object {
    /// The variant of this value.
    pub fn obj_type(&self) -> (t: ObjType)
        ensures
            t == self@.obj_type(),
    {
        match self {
            Object::Null => ObjType::Null,
            Object::Boolean(_) => ObjType::Boolean,
            Object::Number(_) => ObjType::Number,
            Object::Text(_) => ObjType::Text,
            Object::List(_) => ObjType::List,
        }
    }

    /// Text conversion. Every variant has a rendering.
    pub fn to_text(&self) -> (r: Result<String, ObjError>)
        ensures
            r matches Ok(s) && s@ == render(self@),
        decreases self, 1nat,
    {
        match self {
            Object::Null => Ok(String::from_str("null")),
            Object::Boolean(b) => if *b {
                Ok(String::from_str("true"))
            } else {
                Ok(String::from_str("false"))
            },
            Object::Number(n) => Ok(render_int(*n)),
            Object::Text(t) => Ok(t.clone()),
            Object::List(l) => Ok(l.to_string()),
        }
    }

    /// Boolean coercion. Every variant has a truth value.
    pub fn to_boolean(&self) -> (r: Result<bool, ObjError>)
        ensures
            r matches Ok(b) && b == truthy(self@),
    {
        match self {
            Object::Null => Ok(false),
            Object::Boolean(b) => Ok(*b),
            Object::Number(n) => Ok(*n != 0),
            Object::Text(t) => Ok(!t.as_str().is_empty()),
            Object::List(l) => l.to_boolean(),
        }
    }

    /// The cast to a number: only a number can stand for one.
    pub fn to_number(&self) -> (r: Result<i64, ObjError>)
        ensures
            match r {
                Ok(n) => spec_to_number(self@) == Ok::<int, ObjErrorView>(n as int),
                Err(e) => spec_to_number(self@) == Err::<int, ObjErrorView>(e@),
            },
    {
        match self {
            Object::Number(n) => Ok(*n),
            _ => Err(ObjError::InvalidCast { from: self.obj_type(), to: ObjType::Number }),
        }
    }

    /// Reads the element that `key` names.
    pub fn get_item(&self, key: &Object) -> (r: Result<Object, ObjError>)
        ensures
            result_view(r) == spec_get_item(self@, key@),
    {
        match self {
            Object::List(l) => l.get_item(key),
            _ => Err(
                ObjError::NotImplemented {
                    capability: Capability::GetItem,
                    variant: self.obj_type(),
                },
            ),
        }
    }

    /// Writes `val` under `key`. On a failure the value is left as it was.
    pub fn set_item(&mut self, key: &Object, val: Object) -> (r: Result<(), ObjError>)
        ensures
            match r {
                Ok(()) => spec_set_item(old(self)@, key@, val@) == Ok::<ObjectView, ObjErrorView>(
                    final(self)@,
                ),
                Err(e) => spec_set_item(old(self)@, key@, val@) == Err::<ObjectView, ObjErrorView>(
                    e@,
                ) && final(self)@ == old(self)@,
            },
    {
        let variant = self.obj_type();
        match self {
            Object::List(l) => l.set_item(key, val),
            _ => Err(ObjError::NotImplemented { capability: Capability::SetItem, variant }),
        }
    }

    /// Removes the element that `key` names. No variant implements this yet.
    pub fn del_item(&mut self, key: &Object) -> (r: Result<(), ObjError>)
        ensures
            r matches Err(e) && e@ == (ObjErrorView::NotImplemented {
                capability: Capability::DelItem,
                variant: old(self)@.obj_type(),
            }),
            final(self)@ == old(self)@,
    {
        Err(ObjError::NotImplemented { capability: Capability::DelItem, variant: self.obj_type() })
    }

    /// Performs `oper` with this value on the left and `rhs` on the right.
    pub fn binary(&self, oper: Oper, rhs: &Object) -> (r: Result<Object, ObjError>)
        ensures
            result_view(r) == spec_binary(oper, self@, rhs@),
    {
        match self {
            Object::Number(a) => match rhs {
                Object::Number(b) => number_binary(oper, *a, *b),
                _ => Err(
                    ObjError::UnsupportedOperation {
                        oper: oper.capability(),
                        lhs: ObjType::Number,
                        rhs: rhs.obj_type(),
                    },
                ),
            },
            _ => Err(
                ObjError::NotImplemented { capability: oper.capability(), variant: self.obj_type() },
            ),
        }
    }
}

/// A number object, or the arithmetic fault of `oper`.
fn lift(oper: Oper, r: Result<i64, ArithFault>) -> (out: Result<Object, ObjError>)
    ensures
        result_view(out) == lifted(oper, r),
{
    match r {
        Ok(n) => Ok(Object::Number(n)),
        Err(fault) => Err(ObjError::Arithmetic { oper: oper.capability(), fault }),
    }
}

/// Performs `oper` on two numbers.
pub fn number_binary(oper: Oper, a: i64, b: i64) -> (r: Result<Object, ObjError>)
    ensures
        result_view(r) == spec_number_binary(oper, a as int, b as int),
{
    match oper {
        Oper::Add => lift(oper, num_add(a, b)),
        Oper::Sub => lift(oper, num_sub(a, b)),
        Oper::Mul => lift(oper, num_mul(a, b)),
        Oper::Div => lift(oper, num_div(a, b)),
        Oper::Mod => lift(oper, num_mod(a, b)),
        Oper::Pow => lift(oper, num_pow(a, b)),
        Oper::Eql => Ok(Object::Boolean(a == b)),
        Oper::Neq => Ok(Object::Boolean(a != b)),
        Oper::Lth => Ok(Object::Boolean(a < b)),
        Oper::Gth => Ok(Object::Boolean(a > b)),
        Oper::Leq => Ok(Object::Boolean(a <= b)),
        Oper::Geq => Ok(Object::Boolean(a >= b)),
    }
}

/// The name of a variant.
pub open spec fn spec_variant_name(t: ObjType) -> Seq<char> {
    match t {
        ObjType::Null => "Null"@,
        ObjType::Boolean => "Boolean"@,
        ObjType::Number => "Number"@,
        ObjType::Text => "Text"@,
        ObjType::List => "List"@,
    }
}

/// The name of a capability.
pub open spec fn spec_capability_name(c: Capability) -> Seq<char> {
    match c {
        Capability::ToText => "ToText"@,
        Capability::ToBoolean => "ToBoolean"@,
        Capability::ToNumber => "ToNumber"@,
        Capability::GetItem => "GetItem"@,
        Capability::SetItem => "SetItem"@,
        Capability::DelItem => "DelItem"@,
        Capability::Add => "Add"@,
        Capability::Sub => "Sub"@,
        Capability::Mul => "Mul"@,
        Capability::Div => "Div"@,
        Capability::Mod => "Mod"@,
        Capability::Pow => "Pow"@,
        Capability::Eql => "Eql"@,
        Capability::Neq => "Neq"@,
        Capability::Lth => "Lth"@,
        Capability::Gth => "Gth"@,
        Capability::Leq => "Leq"@,
        Capability::Geq => "Geq"@,
    }
}

/// The name of an arithmetic fault.
pub open spec fn spec_fault_name(f: ArithFault) -> Seq<char> {
    match f {
        ArithFault::Overflow => "overflow"@,
        ArithFault::DivisionByZero => "division by zero"@,
        ArithFault::NegativeExponent => "negative exponent"@,
    }
}

/// How a key is named in a message: a number by its decimal writing, any
/// other value by its variant.
pub open spec fn key_text(k: ObjectView) -> Seq<char> {
    match k {
        ObjectView::Number(n) => decimal(n),
        _ => spec_variant_name(k.obj_type()),
    }
}

/// The message of a typed failure.
pub open spec fn error_text(e: ObjErrorView) -> Seq<char> {
    match e {
        ObjErrorView::InvalidKey(k) => "invalid key: "@ + key_text(k),
        ObjErrorView::InvalidCast { from, to } => "invalid cast: "@ + spec_variant_name(from) + " to "@
            + spec_variant_name(to),
        ObjErrorView::UnsupportedOperation { oper, lhs, rhs } => "unsupported operation: "@
            + spec_capability_name(oper) + " of "@ + spec_variant_name(lhs) + " with "@
            + spec_variant_name(rhs),
        ObjErrorView::NotImplemented { capability, variant } => "not implemented: "@
            + spec_capability_name(capability) + " of "@ + spec_variant_name(variant),
        ObjErrorView::Arithmetic { oper, fault } => "arithmetic fault: "@ + spec_fault_name(fault)
            + " in "@ + spec_capability_name(oper),
    }
}

/// The text that stands for an element in the rendering of a list: the
/// element's own rendering or, where that failed, a marker that holds the
/// failure's message.
pub open spec fn spec_text_or_marker(r: Result<Seq<char>, ObjErrorView>) -> Seq<char> {
    match r {
        Ok(text) => text,
        Err(e) => "<to_string err: "@ + error_text(e) + ">"@,
    }
}

/// The name of a variant.
pub fn variant_name(t: ObjType) -> (s: &'static str)
    ensures
        s@ == spec_variant_name(t),
{
    match t {
        ObjType::Null => "Null",
        ObjType::Boolean => "Boolean",
        ObjType::Number => "Number",
        ObjType::Text => "Text",
        ObjType::List => "List",
    }
}

/// The name of a capability.
pub fn capability_name(c: Capability) -> (s: &'static str)
    ensures
        s@ == spec_capability_name(c),
{
    match c {
        Capability::ToText => "ToText",
        Capability::ToBoolean => "ToBoolean",
        Capability::ToNumber => "ToNumber",
        Capability::GetItem => "GetItem",
        Capability::SetItem => "SetItem",
        Capability::DelItem => "DelItem",
        Capability::Add => "Add",
        Capability::Sub => "Sub",
        Capability::Mul => "Mul",
        Capability::Div => "Div",
        Capability::Mod => "Mod",
        Capability::Pow => "Pow",
        Capability::Eql => "Eql",
        Capability::Neq => "Neq",
        Capability::Lth => "Lth",
        Capability::Gth => "Gth",
        Capability::Leq => "Leq",
        Capability::Geq => "Geq",
    }
}

/// The name of an arithmetic fault.
pub fn fault_name(f: ArithFault) -> (s: &'static str)
    ensures
        s@ == spec_fault_name(f),
{
    match f {
        ArithFault::Overflow => "overflow",
        ArithFault::DivisionByZero => "division by zero",
        ArithFault::NegativeExponent => "negative exponent",
    }
}

impl ObjError {
    /// The message of this failure.
    pub fn to_string(&self) -> (s: String)
        ensures
            s@ == error_text(self@),
    {
        match self {
            ObjError::InvalidKey(k) => {
                let mut s = String::from_str("invalid key: ");
                match k {
                    Object::Number(n) => {
                        let text = render_int(*n);
                        s.append(text.as_str());
                    },
                    _ => {
                        s.append(variant_name(k.obj_type()));
                    },
                }
                s
            },
            ObjError::InvalidCast { from, to } => {
                let mut s = String::from_str("invalid cast: ");
                s.append(variant_name(*from));
                s.append(" to ");
                s.append(variant_name(*to));
                s
            },
            ObjError::UnsupportedOperation { oper, lhs, rhs } => {
                let mut s = String::from_str("unsupported operation: ");
                s.append(capability_name(*oper));
                s.append(" of ");
                s.append(variant_name(*lhs));
                s.append(" with ");
                s.append(variant_name(*rhs));
                s
            },
            ObjError::NotImplemented { capability, variant } => {
                let mut s = String::from_str("not implemented: ");
                s.append(capability_name(*capability));
                s.append(" of ");
                s.append(variant_name(*variant));
                s
            },
            ObjError::Arithmetic { oper, fault } => {
                let mut s = String::from_str("arithmetic fault: ");
                s.append(fault_name(*fault));
                s.append(" in ");
                s.append(capability_name(*oper));
                s
            },
        }
    }
}

/// The text that stands for an element in the rendering of a list: its own
/// rendering or, where that failed, a marker in its place.
pub fn text_or_marker(r: Result<String, ObjError>) -> (s: String)
    ensures
        s@ == spec_text_or_marker(result_view(r)),
{
    match r {
        Ok(text) => text,
        Err(e) => {
            let mut s = String::from_str("<to_string err: ");
            let message = e.to_string();
            s.append(message.as_str());
            s.append(">");
            s
        },
    }
}

} // verus!
