//! The evaluation context: a stack of operand values and the table that
//! binds names to values.

use vstd::prelude::*;
use crate::object::Object;
use crate::object::ObjectView;
use crate::object::objects_view;

verus! {

/// One entry of the binding table.
#[derive(Debug)]
pub struct Binding {
    name: String,
    value: Object,
}

/// The evaluation context.
#[derive(Debug)]
pub struct Frame {
    stack: Vec<Object>,
    bindings: Vec<Binding>,
}

/// The mathematical value a `Frame` stands for.
pub struct FrameView {
    /// The operand values, the most recent last.
    pub stack: Seq<ObjectView>,
    /// The value bound to each bound name.
    pub bindings: Map<Seq<char>, ObjectView>,
}

/// The stack `stack` without what lies above the depth `depth`.
pub open spec fn cut(stack: Seq<ObjectView>, depth: int) -> Seq<ObjectView> {
    if 0 <= depth < stack.len() {
        stack.take(depth)
    } else {
        stack
    }
}

/// The table that a sequence of entries stands for. Where a name occurs
/// more than once, the last entry counts.
pub closed spec fn bindings_map(entries: Seq<Binding>) -> Map<Seq<char>, ObjectView>
    decreases entries.len(),
{
    if entries.len() == 0 {
        Map::empty()
    } else {
        bindings_map(entries.drop_last()).insert(entries.last().name@, entries.last().value@)
    }
}

/// No name occurs in two entries.
pub closed spec fn distinct_names(entries: Seq<Binding>) -> bool {
    forall|i: int, j: int|
        0 <= i < j < entries.len() ==> (#[trigger] entries[i]).name@ != (#[trigger] entries[j]).name@
}

/// No entry from position `from` on has the name `name`.
spec fn absent_from(entries: Seq<Binding>, from: int, name: Seq<char>) -> bool {
    forall|j: int| from <= j < entries.len() ==> (#[trigger] entries[j]).name@ != name
}

/// An entry that no later entry shadows is what the table holds for its name.
proof fn lemma_lookup(entries: Seq<Binding>, i: int)
    requires
        0 <= i < entries.len(),
        absent_from(entries, i + 1, entries[i].name@),
    ensures
        bindings_map(entries).contains_key(entries[i].name@),
        bindings_map(entries)[entries[i].name@] == entries[i].value@,
    decreases entries.len(),
{
    if i < entries.len() - 1 {
        let init = entries.drop_last();
        assert(entries[entries.len() - 1].name@ != entries[i].name@);
        assert forall|j: int| i + 1 <= j < init.len() implies (#[trigger] init[j]).name@
            != init[i].name@ by {
            assert(init[j] == entries[j]);
        }
        lemma_lookup(init, i);
    }
}

/// A name that no entry has is not in the table.
proof fn lemma_absent(entries: Seq<Binding>, name: Seq<char>)
    requires
        absent_from(entries, 0, name),
    ensures
        !bindings_map(entries).contains_key(name),
    decreases entries.len(),
{
    if entries.len() > 0 {
        let init = entries.drop_last();
        assert(entries[entries.len() - 1].name@ != name);
        assert forall|j: int| 0 <= j < init.len() implies (#[trigger] init[j]).name@ != name by {
            assert(init[j] == entries[j]);
        }
        lemma_absent(init, name);
    }
}

/// Replacing the value of an entry that no later entry shadows binds its
/// name anew and leaves every other name as it was.
proof fn lemma_rebind(entries: Seq<Binding>, i: int, binding: Binding)
    requires
        0 <= i < entries.len(),
        binding.name@ == entries[i].name@,
        absent_from(entries, i + 1, entries[i].name@),
    ensures
        bindings_map(entries.update(i, binding)) == bindings_map(entries).insert(
            binding.name@,
            binding.value@,
        ),
    decreases entries.len(),
{
    let after = entries.update(i, binding);
    if i == entries.len() - 1 {
        assert(after.drop_last() =~= entries.drop_last());
        assert(bindings_map(after) =~= bindings_map(entries).insert(binding.name@, binding.value@));
    } else {
        let init = entries.drop_last();
        assert(entries[entries.len() - 1].name@ != entries[i].name@);
        assert forall|j: int| i + 1 <= j < init.len() implies (#[trigger] init[j]).name@
            != init[i].name@ by {
            assert(init[j] == entries[j]);
        }
        lemma_rebind(init, i, binding);
        assert(after.drop_last() =~= init.update(i, binding));
        assert(after.last() == entries.last());
        assert(bindings_map(after) =~= bindings_map(entries).insert(binding.name@, binding.value@));
    }
}

/// Replacing an entry by one of the same name keeps the names distinct.
proof fn lemma_distinct_update(entries: Seq<Binding>, i: int, binding: Binding)
    requires
        0 <= i < entries.len(),
        binding.name@ == entries[i].name@,
    ensures
        distinct_names(entries) ==> distinct_names(entries.update(i, binding)),
{
    let after = entries.update(i, binding);
    if distinct_names(entries) {
        assert forall|a: int, b: int| 0 <= a < b < after.len() implies (#[trigger] after[a]).name@ != (
        #[trigger] after[b]).name@ by {
            assert(entries[a].name@ != entries[b].name@);
        }
    }
}

/// Adding an entry whose name no entry has keeps the names distinct.
proof fn lemma_distinct_push(entries: Seq<Binding>, binding: Binding)
    requires
        absent_from(entries, 0, binding.name@),
    ensures
        distinct_names(entries) ==> distinct_names(entries.push(binding)),
{
    let after = entries.push(binding);
    if distinct_names(entries) {
        assert forall|a: int, b: int| 0 <= a < b < after.len() implies (#[trigger] after[a]).name@ != (
        #[trigger] after[b]).name@ by {
            if b < entries.len() {
                assert(entries[a].name@ != entries[b].name@);
            } else {
                assert(entries[a].name@ != binding.name@);
            }
        }
    }
}

impl View for Frame {
    type V = FrameView;

    closed spec fn view(&self) -> FrameView {
        FrameView { stack: objects_view(self.stack@), bindings: bindings_map(self.bindings@) }
    }
}

impl Frame {
    /// The binding table keeps each name in one entry only. A new frame is
    /// so, and every operation keeps it so.
    pub closed spec fn wf(&self) -> bool {
        distinct_names(self.bindings@)
    }

    /// A frame with no operand and no binding.
    pub fn new() -> (f: Frame)
        ensures
            f@.stack == Seq::<ObjectView>::empty(),
            f@.bindings == Map::<Seq<char>, ObjectView>::empty(),
            f.wf(),
    {
        let f = Frame { stack: Vec::new(), bindings: Vec::new() };
        assert(f@.stack =~= Seq::<ObjectView>::empty());
        f
    }

    /// The number of operands on the stack.
    pub fn depth(&self) -> (n: usize)
        ensures
            n == self@.stack.len(),
    {
        self.stack.len()
    }

    /// Puts `val` on top of the operand stack.
    pub fn push(&mut self, val: Object)
        ensures
            final(self)@.stack == old(self)@.stack.push(val@),
            final(self)@.bindings == old(self)@.bindings,
            old(self).wf() ==> final(self).wf(),
    {
        self.stack.push(val);
        assert(self@.stack =~= old(self)@.stack.push(val@));
    }

    /// Takes the top of the operand stack, if there is one.
    pub fn pop(&mut self) -> (r: Option<Object>)
        ensures
            final(self)@.bindings == old(self)@.bindings,
            old(self).wf() ==> final(self).wf(),
            match r {
                Some(val) => old(self)@.stack.len() > 0 && val@ == old(self)@.stack.last()
                    && final(self)@.stack == old(self)@.stack.drop_last(),
                None => old(self)@.stack.len() == 0 && final(self)@.stack == old(self)@.stack,
            },
    {
        let r = self.stack.pop();
        assert(r is Some ==> self@.stack =~= old(self)@.stack.drop_last());
        r
    }

    /// Drops the operands above the given depth, if there are any.
    pub fn truncate(&mut self, depth: usize)
        ensures
            final(self)@.bindings == old(self)@.bindings,
            final(self)@.stack == cut(old(self)@.stack, depth as int),
            old(self).wf() ==> final(self).wf(),
    {
        while self.stack.len() > depth
            invariant
                self.bindings == old(self).bindings,
                depth <= self.stack.len() || self.stack.len() == old(self).stack.len(),
                self.stack.len() <= old(self).stack.len(),
                self.stack@ == old(self).stack@.take(self.stack.len() as int),
            decreases self.stack.len(),
        {
            self.stack.pop();
        }
        assert(self@.stack =~= cut(old(self)@.stack, depth as int));
    }

    /// A copy of the top of the operand stack, if there is one.
    pub fn top(&self) -> (r: Option<Object>)
        ensures
            match r {
                Some(val) => self@.stack.len() > 0 && val@ == self@.stack.last(),
                None => self@.stack.len() == 0,
            },
    {
        let n = self.stack.len();
        if n == 0 {
            None
        } else {
            Some(self.stack[n - 1].clone())
        }
    }

    /// A copy of the value bound to `name`, if the name is bound.
    pub fn get(&self, name: &str) -> (r: Option<Object>)
        ensures
            match r {
                Some(val) => self@.bindings.contains_key(name@) && val@ == self@.bindings[name@],
                None => !self@.bindings.contains_key(name@),
            },
    {
        match self.find(name) {
            Some(i) => Some(self.bindings[i].value.clone()),
            None => None,
        }
    }

    /// Binds `name` to `val`, in place of what it was bound to before.
    pub fn set(&mut self, name: String, val: Object)
        ensures
            final(self)@.stack == old(self)@.stack,
            final(self)@.bindings == old(self)@.bindings.insert(name@, val@),
            old(self).wf() ==> final(self).wf(),
    {
        let found = self.find(name.as_str());
        let ghost before = self.bindings@;
        let binding = Binding { name, value: val };
        match found {
            Some(i) => {
                proof {
                    lemma_rebind(before, i as int, binding);
                    lemma_distinct_update(before, i as int, binding);
                }
                self.bindings[i] = binding;
            },
            None => {
                proof {
                    lemma_distinct_push(before, binding);
                }
                self.bindings.push(binding);
                assert(self.bindings@.drop_last() =~= before);
            },
        }
    }

    /// The position of the entry that binds `name`.
    fn find(&self, name: &str) -> (r: Option<usize>)
        ensures
            match r {
                Some(i) => i < self.bindings@.len() && self.bindings@[i as int].name@ == name@
                    && self@.bindings.contains_key(name@) && self@.bindings[name@]
                    == self.bindings@[i as int].value@ && absent_from(
                    self.bindings@,
                    i as int + 1,
                    name@,
                ),
                None => !self@.bindings.contains_key(name@) && absent_from(self.bindings@, 0, name@),
            },
    {
        let key = String::from_str(name);
        let mut i: usize = self.bindings.len();
        while i > 0
            invariant
                i <= self.bindings.len(),
                key@ == name@,
                absent_from(self.bindings@, i as int, name@),
            decreases i,
        {
            i -= 1;
            if self.bindings[i].name == key {
                proof {
                    lemma_lookup(self.bindings@, i as int);
                }
                return Some(i);
            }
        }
        proof {
            lemma_absent(self.bindings@, name@);
        }
        None
    }
}

} // verus!
