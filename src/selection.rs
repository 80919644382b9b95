//! The list of files the user has selected.
//!
//! The list is kept in insertion order and may hold the same path more than
//! once. It starts out absent ("nothing selected yet"); adding makes it
//! present, removing keeps it present even when it becomes empty, and only
//! clearing makes it absent again.
use vstd::prelude::*;

verus! {

/// `s` with every element equal to `p` taken out, the rest in order.
pub open spec fn without(s: Seq<Seq<char>>, p: Seq<char>) -> Seq<Seq<char>>
    decreases s.len(),
{
    if s.len() == 0 {
        s
    } else if s.last() == p {
        without(s.drop_last(), p)
    } else {
        without(s.drop_last(), p).push(s.last())
    }
}

/// The entries of a list; an absent list has none.
pub open spec fn entries_of(v: Option<Seq<Seq<char>>>) -> Seq<Seq<char>> {
    match v {
        Some(s) => s,
        None => Seq::empty(),
    }
}

/// The state after adding `p`.
pub open spec fn added(v: Option<Seq<Seq<char>>>, p: Seq<char>) -> Option<Seq<Seq<char>>> {
    Some(entries_of(v).push(p))
}

/// The state after removing every entry equal to `p`.
pub open spec fn removed(v: Option<Seq<Seq<char>>>, p: Seq<char>) -> Option<Seq<Seq<char>>> {
    match v {
        Some(s) => Some(without(s, p)),
        None => None,
    }
}

/// An ordered, optional list of selected paths.
pub struct SelectionList {
    paths: Option<Vec<String>>,
}

impl View for SelectionList {
    type V = Option<Seq<Seq<char>>>;

    closed spec fn view(&self) -> Option<Seq<Seq<char>>> {
        match self.paths {
            Some(v) => Some(v@.map_values(|s: String| s@)),
            None => None,
        }
    }
}

/// `without(s, p)` never holds `p`, and is `s` itself when `s` has no `p`.
pub proof fn lemma_without_excludes(s: Seq<Seq<char>>, p: Seq<char>)
    ensures
        !without(s, p).contains(p),
        !s.contains(p) ==> without(s, p) == s,
    decreases s.len(),
{
    if s.len() > 0 {
        lemma_without_excludes(s.drop_last(), p);
        if !s.contains(p) {
            assert(!s.drop_last().contains(p)) by {
                if s.drop_last().contains(p) {
                    let j = choose|j: int| 0 <= j < s.drop_last().len() && s.drop_last()[j] == p;
                    assert(s[j] == p);
                }
            }
            assert(s.last() != p) by {
                assert(s[s.len() - 1] == s.last());
            }
            assert(s.drop_last().push(s.last()) =~= s);
        }
        let r = without(s.drop_last(), p);
        if s.last() != p {
            assert(!r.push(s.last()).contains(p)) by {
                if r.push(s.last()).contains(p) {
                    let j = choose|j: int| 0 <= j < r.push(s.last()).len() && r.push(s.last())[j] == p;
                    if j < r.len() {
                        assert(r[j] == p);
                    }
                }
            }
        }
    }
}

/// One user action on a selection.
pub enum SelectionOp {
    Add(Seq<char>),
    Remove(Seq<char>),
    Clear,
}

/// The state after one action, as `add`, `remove` and `clear` produce it.
pub open spec fn apply_op(v: Option<Seq<Seq<char>>>, op: SelectionOp) -> Option<Seq<Seq<char>>> {
    match op {
        SelectionOp::Add(p) => added(v, p),
        SelectionOp::Remove(p) => removed(v, p),
        SelectionOp::Clear => None,
    }
}

/// The state after a run of actions, starting from a new list.
pub open spec fn apply_ops(ops: Seq<SelectionOp>) -> Option<Seq<Seq<char>>>
    decreases ops.len(),
{
    if ops.len() == 0 {
        None
    } else {
        apply_op(apply_ops(ops.drop_last()), ops.last())
    }
}

/// Whether the action at `i` is an add that no later remove of the same
/// path, and no later clear, has undone.
pub open spec fn survives(ops: Seq<SelectionOp>, i: int) -> bool {
    &&& ops[i] is Add
    &&& forall|j: int|
        #![trigger ops[j]]
        i < j < ops.len() ==> !(ops[j] is Clear) && ops[j] != SelectionOp::Remove(ops[i]->Add_0)
}

/// The paths of the surviving adds among the first `n` actions, in the order
/// they were made.
pub open spec fn surviving_adds(ops: Seq<SelectionOp>, n: int) -> Seq<Seq<char>>
    decreases n,
{
    if n <= 0 {
        Seq::empty()
    } else if survives(ops, n - 1) {
        surviving_adds(ops, n - 1).push(ops[n - 1]->Add_0)
    } else {
        surviving_adds(ops, n - 1)
    }
}

proof fn lemma_without_push(s: Seq<Seq<char>>, x: Seq<char>, p: Seq<char>)
    ensures
        without(s.push(x), p) == if x == p {
            without(s, p)
        } else {
            without(s, p).push(x)
        },
{
    assert(s.push(x).drop_last() =~= s);
}

proof fn lemma_after_add(ops: Seq<SelectionOp>, m: int)
    requires
        ops.len() > 0,
        ops.last() is Add,
        0 <= m < ops.len(),
    ensures
        surviving_adds(ops, m) == surviving_adds(ops.drop_last(), m),
    decreases m,
{
    if m > 0 {
        lemma_after_add(ops, m - 1);
        let pre = ops.drop_last();
        assert(survives(ops, m - 1) == survives(pre, m - 1)) by {
            if survives(pre, m - 1) {
                assert forall|j: int| m - 1 < j < ops.len() implies !(#[trigger] ops[j] is Clear) && ops[j]
                    != SelectionOp::Remove(ops[m - 1]->Add_0) by {
                    if j < pre.len() {
                        assert(ops[j] == pre[j]);
                    }
                }
            }
            if survives(ops, m - 1) {
                assert forall|j: int| m - 1 < j < pre.len() implies !(#[trigger] pre[j] is Clear) && pre[j]
                    != SelectionOp::Remove(pre[m - 1]->Add_0) by {
                    assert(ops[j] == pre[j]);
                }
            }
        }
    }
}

proof fn lemma_after_clear(ops: Seq<SelectionOp>, m: int)
    requires
        ops.len() > 0,
        ops.last() is Clear,
        0 <= m <= ops.len(),
    ensures
        surviving_adds(ops, m) == Seq::<Seq<char>>::empty(),
    decreases m,
{
    if m > 0 {
        lemma_after_clear(ops, m - 1);
        if m - 1 < ops.len() - 1 {
            assert(ops[ops.len() - 1] is Clear);
        }
    }
}

proof fn lemma_after_remove(ops: Seq<SelectionOp>, p: Seq<char>, m: int)
    requires
        ops.len() > 0,
        ops.last() == SelectionOp::Remove(p),
        0 <= m < ops.len(),
    ensures
        surviving_adds(ops, m) == without(surviving_adds(ops.drop_last(), m), p),
    decreases m,
{
    let pre = ops.drop_last();
    if m > 0 {
        lemma_after_remove(ops, p, m - 1);
        let k = m - 1;
        let last = ops.len() - 1;
        assert(ops[last] == SelectionOp::Remove(p));
        if survives(pre, k) {
            lemma_without_push(surviving_adds(pre, k), pre[k]->Add_0, p);
            if pre[k]->Add_0 != p {
                assert forall|j: int| k < j < ops.len() implies !(#[trigger] ops[j] is Clear) && ops[j]
                    != SelectionOp::Remove(ops[k]->Add_0) by {
                    if j < pre.len() {
                        assert(ops[j] == pre[j]);
                    }
                }
            }
        } else if ops[k] is Add {
            let j0 = choose|j: int|
                #![trigger pre[j]]
                k < j < pre.len() && !(!(pre[j] is Clear) && pre[j] != SelectionOp::Remove(
                    pre[k]->Add_0,
                ));
            assert(ops[j0] == pre[j0]);
        }
    } else {
        assert(without(Seq::<Seq<char>>::empty(), p) == Seq::<Seq<char>>::empty());
    }
}

/// After any run of adds, removes and clears on a new list, its entries are
/// the paths of the adds that no later remove of the same path and no later
/// clear has undone, in the order they were added.
pub proof fn lemma_entries_are_surviving_adds(ops: Seq<SelectionOp>)
    ensures
        entries_of(apply_ops(ops)) == surviving_adds(ops, ops.len() as int),
    decreases ops.len(),
{
    if ops.len() > 0 {
        let pre = ops.drop_last();
        let n = ops.len() as int;
        lemma_entries_are_surviving_adds(pre);
        match ops.last() {
            SelectionOp::Add(p) => {
                lemma_after_add(ops, n - 1);
            },
            SelectionOp::Remove(p) => {
                lemma_after_remove(ops, p, n - 1);
                assert(ops[n - 1] == ops.last());
            },
            SelectionOp::Clear => {
                lemma_after_clear(ops, n);
            },
        }
    }
}

impl SelectionList {
    /// A list in the absent state: nothing selected yet.
    pub fn new() -> (r: SelectionList)
        ensures
            r@ is None,
    {
        SelectionList { paths: None }
    }

    /// Whether nothing has been selected since the start or the last clear.
    pub fn is_absent(&self) -> (r: bool)
        ensures
            r == (self@ is None),
    {
        self.paths.is_none()
    }

    /// Number of entries; an absent list has none.
    pub fn len(&self) -> (r: usize)
        ensures
            r == entries_of(self@).len(),
    {
        match &self.paths {
            Some(v) => v.len(),
            None => 0,
        }
    }

    /// The entries, in order.
    pub fn paths(&self) -> (r: Vec<String>)
        ensures
            r@.map_values(|s: String| s@) == entries_of(self@),
    {
        let mut out: Vec<String> = Vec::new();
        match &self.paths {
            Some(v) => {
                let mut i: usize = 0;
                while i < v.len()
                    invariant
                        i <= v.len(),
                        self@ == Some(v@.map_values(|s: String| s@)),
                        out.len() == i,
                        forall|j: int| 0 <= j < i ==> out[j]@ == v[j]@,
                    decreases v.len() - i,
                {
                    out.push(v[i].clone());
                    i = i + 1;
                }
            },
            None => {},
        }
        assert(out@.map_values(|s: String| s@) =~= entries_of(self@));
        out
    }

    /// Appends `path`, making the list present. Duplicates are kept.
    pub fn add(&mut self, path: String)
        ensures
            final(self)@ == added(old(self)@, path@),
    {
        let ghost before = self@;
        match &mut self.paths {
            Some(v) => {
                v.push(path);
            },
            None => {
                let mut v: Vec<String> = Vec::new();
                v.push(path);
                self.paths = Some(v);
            },
        }
        assert(entries_of(self@) =~= entries_of(before).push(path@));
    }

    /// Removes every entry equal to `path`. A present list stays present,
    /// even when no entry is left.
    pub fn remove(&mut self, path: &String)
        ensures
            final(self)@ == removed(old(self)@, path@),
            !entries_of(final(self)@).contains(path@),
            !entries_of(old(self)@).contains(path@) ==> final(self)@ == old(self)@,
    {
        let ghost before = self@;
        match &self.paths {
            Some(v) => {
                let mut kept: Vec<String> = Vec::new();
                let mut i: usize = 0;
                while i < v.len()
                    invariant
                        i <= v.len(),
                        before == Some(v@.map_values(|s: String| s@)),
                        kept@.map_values(|s: String| s@) =~= without(
                            v@.subrange(0, i as int).map_values(|s: String| s@),
                            path@,
                        ),
                    decreases v.len() - i,
                {
                    assert(v@.subrange(0, i + 1).map_values(|s: String| s@).drop_last()
                        =~= v@.subrange(0, i as int).map_values(|s: String| s@));
                    if v[i] != *path {
                        kept.push(v[i].clone());
                    }
                    i = i + 1;
                }
                assert(v@.subrange(0, v.len() as int) =~= v@);
                self.paths = Some(kept);
            },
            None => {},
        }
        proof {
            lemma_without_excludes(entries_of(before), path@);
        }
    }

    /// Discards every entry and returns to the absent state.
    pub fn clear(&mut self)
        ensures
            final(self)@ is None,
    {
        self.paths = None;
    }
}

} // verus!
