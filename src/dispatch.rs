//! The dispatch table: which locally registered handler serves each target
//! of a server-to-client invocation. Registering a target a second time
//! replaces its handler.
use vstd::prelude::*;
use crate::text::same_text;

verus! {

/// The index of the first entry of `targets` equal to `target`.
pub open spec fn target_index(targets: Seq<Seq<char>>, target: Seq<char>) -> Option<int>
    decreases targets.len(),
{
    if targets.len() == 0 {
        None
    } else if targets.last() == target {
        match target_index(targets.drop_last(), target) {
            Some(i) => Some(i),
            None => Some(targets.len() - 1),
        }
    } else {
        target_index(targets.drop_last(), target)
    }
}

/// A found index lies within `targets` and names an entry equal to `target`.
pub proof fn lemma_target_index_bounds(targets: Seq<Seq<char>>, target: Seq<char>)
    ensures
        target_index(targets, target) is Some ==> 0 <= target_index(targets, target)->0
            < targets.len() && targets[target_index(targets, target)->0] == target,
    decreases targets.len(),
{
    if targets.len() > 0 {
        lemma_target_index_bounds(targets.drop_last(), target);
    }
}

pub struct DispatchTable<H> {
    targets: Vec<String>,
    handlers: Vec<H>,
}

impl<H> DispatchTable<H> {
    /// The registered targets, in order of first registration.
    pub closed spec fn targets(&self) -> Seq<Seq<char>> {
        self.targets@.map_values(|t: String| t@)
    }

    /// The handler of each registered target, at the target's index.
    pub closed spec fn handlers(&self) -> Seq<H> {
        self.handlers@
    }

    pub closed spec fn wf(&self) -> bool {
        self.targets@.len() == self.handlers@.len()
    }

    pub fn new() -> (r: Self)
        ensures
            r.wf(),
            r.targets() == Seq::<Seq<char>>::empty(),
    {
        DispatchTable { targets: Vec::new(), handlers: Vec::new() }
    }

    /// Finds the handler registered for `target`.
    pub fn lookup(&self, target: &str) -> (r: Option<usize>)
        requires
            self.wf(),
        ensures
            match target_index(self.targets(), target@) {
                Some(i) => r is Some && r->0 as int == i,
                None => r is None,
            },
            r is Some ==> r->0 < self.targets().len(),
    {
        let ghost all = self.targets();
        let mut i: usize = 0;
        let mut found: Option<usize> = None;
        while i < self.targets.len()
            invariant
                self.wf(),
                i <= self.targets@.len(),
                all == self.targets(),
                match target_index(all.subrange(0, i as int), target@) {
                    Some(j) => found is Some && found->0 as int == j,
                    None => found is None,
                },
                found is Some ==> found->0 < i,
            decreases self.targets.len() - i,
        {
            assert(all.subrange(0, i + 1).drop_last() == all.subrange(0, i as int));
            if found.is_none() && same_text(self.targets[i].as_str(), target) {
                found = Some(i);
            }
            i = i + 1;
        }
        assert(all.subrange(0, all.len() as int) == all);
        found
    }

    /// The number of registered targets.
    pub fn len(&self) -> (r: usize)
        requires
            self.wf(),
        ensures
            r == self.targets().len(),
    {
        self.targets.len()
    }

    /// The handler at `index`.
    pub fn handler(&self, index: usize) -> (r: &H)
        requires
            self.wf(),
            index < self.targets().len(),
        ensures
            *r == self.handlers()[index as int],
    {
        &self.handlers[index]
    }

    /// Registers `handler` for `target`, replacing any earlier one.
    pub fn register(&mut self, target: String, handler: H)
        requires
            old(self).wf(),
        ensures
            final(self).wf(),
            target_index(old(self).targets(), target@) is Some ==> final(self).targets() == old(
                self,
            ).targets(),
            target_index(old(self).targets(), target@) is Some ==> final(self).handlers() == old(
                self,
            ).handlers().update(target_index(old(self).targets(), target@)->0, handler),
            target_index(old(self).targets(), target@) is None ==> final(self).targets() == old(
                self,
            ).targets().push(target@),
            target_index(old(self).targets(), target@) is None ==> final(self).handlers() == old(
                self,
            ).handlers().push(handler),
    {
        proof {
            lemma_target_index_bounds(self.targets(), target@);
        }
        match self.lookup(target.as_str()) {
            Some(i) => {
                assert(i as int == target_index(old(self).targets(), target@)->0);
                self.handlers[i] = handler;
                assert(self.targets@ == old(self).targets@);
            },
            None => {
                let ghost t = target@;
                self.targets.push(target);
                self.handlers.push(handler);
                assert(self.targets() == old(self).targets().push(t));
            },
        }
    }
}

} // verus!
