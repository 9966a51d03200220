//! The list: an ordered, growable sequence of values, read and written by
//! position from either end.

use vstd::prelude::*;
use crate::object::ObjError;
use crate::object::ObjErrorView;
use crate::object::Object;
use crate::object::ObjectView;
use crate::object::objects_view;
use crate::object::render_joined;
use crate::object::render_list;
use crate::object::result_view;
use crate::object::spec_to_number;
use crate::object::text_or_marker;

verus! {

/// An ordered, growable sequence of values.
#[derive(Debug, PartialEq)]
pub struct List {
    pub contents: Vec<Object>,
}

impl View for List {
    type V = Seq<ObjectView>;

    open spec fn view(&self) -> Seq<ObjectView> {
        objects_view(self.contents@)
    }
}

impl Clone for List {
    fn clone(&self) -> (r: List)
        ensures
            r@ == self@,
        decreases self,
    {
        let mut contents: Vec<Object> = Vec::new();
        let mut i: usize = 0;
        while i < self.contents.len()
            invariant
                i <= self.contents.len(),
                contents.len() == i,
                forall|j: int| 0 <= j < i ==> contents@[j]@ == self.contents@[j]@,
            decreases self.contents.len() - i,
        {
            let item = self.contents[i].clone();
            contents.push(item);
            i += 1;
        }
        let r = List { contents };
        assert(r@ =~= self@);
        r
    }
}

/// The position that `key` names in a container of `len` elements: counted
/// from the start where it is not negative, from the end where it is.
pub open spec fn spec_position(len: int, key: int) -> Option<int> {
    if 0 <= key < len {
        Some(key)
    } else if -len <= key < 0 {
        Some(len + key)
    } else {
        None
    }
}

/// What reading `key` from a list of `items` yields.
pub open spec fn spec_list_get(items: Seq<ObjectView>, key: ObjectView) -> Result<
    ObjectView,
    ObjErrorView,
> {
    match spec_to_number(key) {
        Err(e) => Err(e),
        Ok(k) => match spec_position(items.len() as int, k) {
            Some(i) => Ok(items[i]),
            None => Err(ObjErrorView::InvalidKey(key)),
        },
    }
}

/// `items`, extended with `Null` up to the length `n` where it is shorter.
pub open spec fn padded(items: Seq<ObjectView>, n: int) -> Seq<ObjectView> {
    if items.len() >= n {
        items
    } else {
        items + Seq::new((n - items.len()) as nat, |i: int| ObjectView::Null)
    }
}

/// The list that writing `val` under `key` makes of `items`. A key at or
/// past the end extends the list with `Null` up to and including its
/// position; a negative key counts from the end and never extends.
pub open spec fn spec_list_set(items: Seq<ObjectView>, key: ObjectView, val: ObjectView) -> Result<
    Seq<ObjectView>,
    ObjErrorView,
> {
    match spec_to_number(key) {
        Err(e) => Err(e),
        Ok(k) => if 0 <= k < usize::MAX {
            Ok(padded(items, k + 1).update(k, val))
        } else if -items.len() <= k < 0 {
            Ok(items.update(items.len() + k, val))
        } else {
            Err(ObjErrorView::InvalidKey(key))
        },
    }
}

impl List {
    /// A list of the given elements.
    pub fn new(contents: Vec<Object>) -> (l: List)
        ensures
            l.contents == contents,
            l@ == objects_view(contents@),
    {
        List { contents }
    }

    /// The rendering of the list: `[`, the renderings of its elements with
    /// `, ` between each two, and `]`.
    pub fn to_string(&self) -> (s: String)
        ensures
            s@ == render_list(self@),
        decreases self, 0nat,
    {
        let mut ret = String::from_str("[");
        let mut i: usize = 0;
        while i < self.contents.len()
            invariant
                i <= self.contents.len(),
                ret@ == "["@ + render_joined(self@, i as nat),
            decreases self.contents.len() - i,
        {
            if i > 0 {
                ret.append(", ");
            }
            let item = text_or_marker(self.contents[i].to_text());
            ret.append(item.as_str());
            assert(self@[i as int] == self.contents@[i as int]@);
            assert(ret@ =~= "["@ + render_joined(self@, (i + 1) as nat));
            i += 1;
        }
        ret.append("]");
        ret
    }

    /// Text conversion of the list.
    pub fn to_text(&self) -> (r: Result<String, ObjError>)
        ensures
            r matches Ok(s) && s@ == render_list(self@),
    {
        Ok(self.to_string())
    }

    /// Boolean coercion of the list: true unless it is empty.
    pub fn to_boolean(&self) -> (r: Result<bool, ObjError>)
        ensures
            r matches Ok(b) && b == (self@.len() > 0),
    {
        Ok(self.contents.len() > 0)
    }

    /// Reads the element that `key` names: the key is cast to a number,
    /// which counts from the start, or from the end where it is negative.
    pub fn get_item(&self, key: &Object) -> (r: Result<Object, ObjError>)
        ensures
            result_view(r) == spec_list_get(self@, key@),
    {
        let num: i64 = match key.to_number() {
            Ok(n) => n,
            Err(e) => {
                return Err(e);
            },
        };
        match position(self.contents.len(), num) {
            Some(i) => Ok(self.contents[i].clone()),
            None => Err(ObjError::InvalidKey(key.clone())),
        }
    }

    /// Writes `val` under `key`. A key at or past the end extends the list
    /// with `Null` first; a negative key counts from the end. On a failure
    /// the list is left as it was.
    pub fn set_item(&mut self, key: &Object, val: Object) -> (r: Result<(), ObjError>)
        ensures
            match r {
                Ok(()) => spec_list_set(old(self)@, key@, val@) == Ok::<
                    Seq<ObjectView>,
                    ObjErrorView,
                >(final(self)@),
                Err(e) => spec_list_set(old(self)@, key@, val@) == Err::<
                    Seq<ObjectView>,
                    ObjErrorView,
                >(e@) && final(self)@ == old(self)@,
            },
    {
        let num: i64 = match key.to_number() {
            Ok(n) => n,
            Err(e) => {
                return Err(e);
            },
        };
        let len: usize = self.contents.len();
        let index: usize = if num >= 0 {
            if num as u64 >= usize::MAX as u64 {
                return Err(ObjError::InvalidKey(key.clone()));
            }
            num as usize
        } else {
            match position(len, num) {
                Some(i) => i,
                None => {
                    return Err(ObjError::InvalidKey(key.clone()));
                },
            }
        };
        while self.contents.len() <= index
            invariant
                len <= self.contents.len(),
                self.contents.len() <= index + 1 || self.contents.len() == len,
                index < usize::MAX,
                len == old(self)@.len(),
                forall|j: int| 0 <= j < len ==> self.contents@[j]@ == old(self)@[j],
                forall|j: int|
                    len <= j < self.contents.len() ==> self.contents@[j]@ == ObjectView::Null,
            decreases index + 1 - self.contents.len(),
        {
            self.contents.push(Object::Null);
        }
        self.contents[index] = val;
        assert(self@ =~= padded(old(self)@, index as int + 1).update(index as int, val@));
        Ok(())
    }
}

/// The position that `key` names in a container of `len` elements.
pub fn position(len: usize, key: i64) -> (r: Option<usize>)
    ensures
        match r {
            Some(i) => spec_position(len as int, key as int) == Some(i as int),
            None => spec_position(len as int, key as int) is None,
        },
{
    if key >= 0 {
        if (key as u64) < len as u64 {
            Some(key as usize)
        } else {
            None
        }
    } else {
        let back: u64 = (-(key as i128)) as u64;
        if back <= len as u64 {
            Some((len as u64 - back) as usize)
        } else {
            None
        }
    }
}

} // verus!
