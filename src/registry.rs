use vstd::prelude::*;
use crate::task::{InstanceView, TaskInstance, instances_view};
use crate::text::str_eq;

verus! {

/// The instances of `s` declared under `name`, in registry order.
pub open spec fn named(s: Seq<InstanceView>, name: Seq<char>) -> Seq<InstanceView>
    decreases s.len(),
{
    if s.len() == 0 {
        Seq::empty()
    } else {
        let rest = named(s.drop_last(), name);
        if s.last().name == name {
            rest.push(s.last())
        } else {
            rest
        }
    }
}

/// Index from task name to the instances declared under that name, kept as
/// one sequence in insertion order; the instances under one name are the
/// subsequence that carries it.
pub struct TaskRegistry {
    instances: Vec<TaskInstance>,
}

impl View for TaskRegistry {
    type V = Seq<InstanceView>;

    closed spec fn view(&self) -> Seq<InstanceView> {
        instances_view(self.instances@)
    }
}

impl TaskRegistry {
    /// An empty registry.
    pub fn new() -> (r: TaskRegistry)
        ensures
            r@ == Seq::<InstanceView>::empty(),
    {
        let r = TaskRegistry { instances: Vec::new() };
        assert(r@ =~= Seq::<InstanceView>::empty());
        r
    }

    /// Appends one instance.
    pub fn push(&mut self, instance: TaskInstance)
        ensures
            final(self)@ == old(self)@.push(instance@),
    {
        self.instances.push(instance);
        assert(self@ =~= old(self)@.push(instance@));
    }

    /// Number of instances over all names.
    pub fn len(&self) -> (r: usize)
        ensures
            r == self@.len(),
    {
        self.instances.len()
    }

    /// The instance at position `i` in insertion order.
    pub fn get(&self, i: usize) -> (r: &TaskInstance)
        requires
            i < self@.len(),
        ensures
            r@ == self@[i as int],
    {
        &self.instances[i]
    }

    /// The instances declared under `name`, in insertion order, or `None`
    /// when no file declared that name.
    pub fn lookup(&self, name: &str) -> (r: Option<Vec<TaskInstance>>)
        ensures
            match r {
                None => named(self@, name@).len() == 0,
                Some(v) => named(self@, name@).len() > 0 && instances_view(v@) == named(self@, name@),
            },
    {
        let mut out: Vec<TaskInstance> = Vec::new();
        let mut i: usize = 0;
        while i < self.instances.len()
            invariant
                i <= self.instances@.len(),
                instances_view(out@) == named(self@.subrange(0, i as int), name@),
            decreases self.instances@.len() - i,
        {
            let inst = &self.instances[i];
            assert(self@.subrange(0, i + 1).drop_last() =~= self@.subrange(0, i as int));
            if str_eq(inst.name.as_str(), name) {
                out.push(inst.duplicate());
            }
            assert(instances_view(out@) =~= named(self@.subrange(0, i + 1), name@));
            i = i + 1;
        }
        assert(self@.subrange(0, self@.len() as int) =~= self@);
        if out.len() == 0 {
            None
        } else {
            Some(out)
        }
    }
}

} // verus!
