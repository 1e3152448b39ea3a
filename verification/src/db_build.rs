//! The order in which the scripts of a database build run, and how each script is wrapped into
//! an anonymous block. Reading the build description and the scripts, and running them, is left
//! to the caller.

use std::collections::HashSet;

use vstd::prelude::*;
use vstd::string::StringExecFns;

use crate::text::{blank, chars_of, text_eq, white_space};

verus! {

broadcast use vstd::std_specs::hash::group_hash_axioms;

/// A database build: schemas of the common database it needs first, and its scripts, each with
/// the names of the scripts it depends on.
#[derive(Debug)]
pub struct DbBuild {
    pub common_dependencies: Vec<String>,
    pub entries: Vec<DbBuildEntry>,
}

/// One script of a build: its file name and the names of the scripts that must run before it.
#[derive(Debug)]
pub struct DbBuildEntry {
    pub name: String,
    pub dependencies: Vec<String>,
}

/// `names` holds the text `name`.
pub open spec fn has_name(names: Seq<String>, name: Seq<char>) -> bool {
    exists|i: int| 0 <= i < names.len() && #[trigger] names[i]@ == name
}

/// Every dependency of `entry` is among the names in `completed`.
pub open spec fn deps_met(entry: DbBuildEntry, completed: Seq<String>) -> bool {
    forall|i: int| 0 <= i < entry.dependencies@.len() ==> has_name(completed, #[trigger] entry.dependencies@[i]@)
}

impl DbBuildEntry {
    /// True when the entry has no dependencies or all of them are in `completed`.
    pub fn dependencies_met(&self, completed: &Vec<String>) -> (r: bool)
        ensures
            r == deps_met(*self, completed@),
    {
        let mut i: usize = 0;
        while i < self.dependencies.len()
            invariant
                0 <= i <= self.dependencies@.len(),
                forall|t: int| 0 <= t < i ==> has_name(completed@, #[trigger] self.dependencies@[t]@),
            decreases self.dependencies@.len() - i,
        {
            let dep = &self.dependencies[i];
            let mut found = false;
            let mut j: usize = 0;
            while j < completed.len() && !found
                invariant
                    0 <= j <= completed@.len(),
                    found == exists|t: int| 0 <= t < j && #[trigger] completed@[t]@ == dep@,
                decreases completed@.len() - j,
            {
                if text_eq(completed[j].as_str(), dep.as_str()) {
                    found = true;
                }
                j = j + 1;
            }
            if !found {
                proof {
                    assert forall|t: int| 0 <= t < completed@.len() implies completed@[t]@ != dep@ by {}
                    assert(!has_name(completed@, self.dependencies@[i as int]@));
                }
                return false;
            }
            i = i + 1;
        }
        true
    }
}

impl DbBuild {
    /// The scripts of the build in an order that respects their dependencies.
    pub fn entries_ordered(&self) -> (r: OrderIter<'_>)
        ensures
            r.wf(),
            r.entries() == self.entries@,
            r.given() == Seq::<int>::empty(),
            r.returned() == Seq::new(self.entries@.len(), |i: int| false),
            r.completed() == Seq::<String>::empty(),
    {
        OrderIter::new(&self.entries)
    }
}

/// Goes through the entries of a build, each time giving the first entry not given yet whose
/// dependencies have all been given. Keeps which entries were given and, in order, their names;
/// `given` is the order in which the entries were given.
pub struct OrderIter<'e> {
    entries: &'e Vec<DbBuildEntry>,
    returned: HashSet<usize>,
    completed: Vec<String>,
    given: Ghost<Seq<int>>,
}

/// The first index at or after `from` of an entry not given yet whose dependencies are met.
pub open spec fn first_ready_from(
    entries: Seq<DbBuildEntry>,
    returned: Seq<bool>,
    completed: Seq<String>,
    from: int,
) -> Option<int>
    decreases entries.len() - from,
{
    if from >= entries.len() || from < 0 {
        None
    } else if !returned[from] && deps_met(entries[from], completed) {
        Some(from)
    } else {
        first_ready_from(entries, returned, completed, from + 1)
    }
}

/// For each of `n` entries, whether `order` gives it.
pub open spec fn given_of(n: nat, order: Seq<int>) -> Seq<bool> {
    Seq::new(n, |i: int| order.contains(i))
}

/// The names of the entries at the indices of `order`, in that order.
pub open spec fn names_of(entries: Seq<DbBuildEntry>, order: Seq<int>) -> Seq<String> {
    Seq::new(order.len(), |k: int| entries[order[k]].name)
}

/// The indices that the first `k` calls of `next` on a new iterator give, in order: each call
/// gives the first entry not given yet whose dependencies name entries already given, and the
/// run stops when there is none.
pub open spec fn run_order(entries: Seq<DbBuildEntry>, k: nat) -> Seq<int>
    decreases k,
{
    if k == 0 {
        Seq::empty()
    } else {
        let prev = run_order(entries, (k - 1) as nat);
        match first_ready_from(entries, given_of(entries.len(), prev), names_of(entries, prev), 0) {
            Some(i) => prev.push(i),
            None => prev,
        }
    }
}

/// Once the entries at `order` are given, some entry is left yet none of those left can be
/// given: the build cannot go on.
pub open spec fn blocked_after(entries: Seq<DbBuildEntry>, order: Seq<int>) -> bool {
    &&& exists|i: int| 0 <= i < entries.len() && !order.contains(i)
    &&& first_ready_from(entries, given_of(entries.len(), order), names_of(entries, order), 0) is None
}

/// Every entry of `order` comes after the entries its dependencies name.
pub open spec fn deps_first(entries: Seq<DbBuildEntry>, order: Seq<int>) -> bool {
    forall|k: int|
        0 <= k < order.len() ==> deps_met(entries[#[trigger] order[k]], names_of(entries, order.take(k)))
}

/// `order` gives each entry of the build exactly once, each after the entries its dependencies
/// name.
pub open spec fn is_build_order(entries: Seq<DbBuildEntry>, order: Seq<int>) -> bool {
    &&& order.len() == entries.len()
    &&& forall|k: int| 0 <= k < order.len() ==> 0 <= #[trigger] order[k] < entries.len()
    &&& order.no_duplicates()
    &&& forall|i: int| 0 <= i < entries.len() ==> #[trigger] order.contains(i)
    &&& deps_first(entries, order)
}

/// Some order gives every entry after the entries its dependencies name (no cycle, and no
/// dependency naming a script that is not in the build).
pub open spec fn orderable(entries: Seq<DbBuildEntry>) -> bool {
    exists|order: Seq<int>| is_build_order(entries, order)
}

proof fn lemma_first_ready(
    entries: Seq<DbBuildEntry>,
    returned: Seq<bool>,
    completed: Seq<String>,
    from: int,
)
    requires
        returned.len() == entries.len(),
    ensures
        first_ready_from(entries, returned, completed, from) matches Some(i) ==> from <= i
            < entries.len() && !returned[i] && deps_met(entries[i], completed) && 0 <= from,
    decreases entries.len() - from,
{
    if 0 <= from < entries.len() {
        lemma_first_ready(entries, returned, completed, from + 1);
    }
}

impl<'e> OrderIter<'e> {
    /// The entries gone through.
    pub closed spec fn entries(&self) -> Seq<DbBuildEntry> {
        self.entries@
    }

    /// For each entry, whether it was given.
    pub closed spec fn returned(&self) -> Seq<bool> {
        Seq::new(self.entries@.len(), |i: int| self.returned@.contains(i as usize))
    }

    /// The names of the entries given, in order.
    pub closed spec fn completed(&self) -> Seq<String> {
        self.completed@
    }

    /// The indices of the entries given, in order.
    pub closed spec fn given(&self) -> Seq<int> {
        self.given@
    }

    /// The iterator's bookkeeping agrees with the entries it gave, which are those that the same
    /// number of steps from a new iterator give.
    pub open spec fn wf(&self) -> bool {
        &&& self.returned() == given_of(self.entries().len(), self.given())
        &&& self.completed() == names_of(self.entries(), self.given())
        &&& self.given() == run_order(self.entries(), self.given().len())
    }

    /// The first entry that can be given next, if any.
    pub open spec fn next_ready(&self) -> Option<int> {
        first_ready_from(self.entries(), self.returned(), self.completed(), 0)
    }

    /// Some entry was not given yet, yet none of those has its dependencies met: the build
    /// cannot go on.
    pub open spec fn blocked(&self) -> bool {
        (exists|i: int| 0 <= i < self.returned().len() && !self.returned()[i]) && self.next_ready() is None
    }

    /// An iterator that has given nothing yet.
    pub fn new(entries: &'e Vec<DbBuildEntry>) -> (r: Self)
        ensures
            r.wf(),
            r.entries() == entries@,
            r.given() == Seq::<int>::empty(),
            r.returned() == Seq::new(entries@.len(), |i: int| false),
            r.completed() == Seq::<String>::empty(),
    {
        let returned: HashSet<usize> = HashSet::new();
        proof {
            assert(Seq::new(entries@.len(), |i: int| returned@.contains(i as usize)) =~= Seq::new(
                entries@.len(),
                |i: int| false,
            ));
            assert(given_of(entries@.len(), Seq::<int>::empty()) =~= Seq::new(
                entries@.len(),
                |i: int| false,
            ));
            assert(names_of(entries@, Seq::<int>::empty()) =~= Seq::<String>::empty());
        }
        OrderIter { entries, returned, completed: Vec::new(), given: Ghost(Seq::empty()) }
    }

    /// True when the build cannot go on (see [`OrderIter::blocked`]); the caller stops there.
    pub fn is_blocked(&self) -> (r: bool)
        requires
            self.wf(),
        ensures
            r == self.blocked(),
            r == blocked_after(self.entries(), self.given()),
    {
        let (ready, remaining) = self.scan();
        proof {
            let n = self.entries().len();
            if exists|i: int| 0 <= i < n && !self.given().contains(i) {
                let i = choose|i: int| 0 <= i < n && !self.given().contains(i);
                assert(!self.returned()[i]);
            }
            if exists|i: int| 0 <= i < self.returned().len() && !self.returned()[i] {
                let i = choose|i: int| 0 <= i < self.returned().len() && !self.returned()[i];
                assert(!self.given().contains(i));
            }
        }
        ready.is_none() && remaining
    }

    /// The first ready entry, and whether some entry was not given yet.
    fn scan(&self) -> (r: (Option<usize>, bool))
        requires
            self.wf(),
        ensures
            r.0 matches Some(i) ==> Some(i as int) == self.next_ready() && i < self.entries().len(),
            r.0 is None ==> self.next_ready() is None,
            r.1 == exists|i: int| 0 <= i < self.returned().len() && !self.returned()[i],
    {
        let mut remaining = false;
        let mut i: usize = 0;
        while i < self.entries.len()
            invariant
                self.wf(),
                0 <= i <= self.entries@.len(),
                first_ready_from(self.entries(), self.returned(), self.completed(), 0)
                    == first_ready_from(self.entries(), self.returned(), self.completed(), i as int),
                remaining == exists|t: int| 0 <= t < i && !self.returned()[t],
            decreases self.entries@.len() - i,
        {
            assert(self.returned()[i as int] == self.returned@.contains(i));
            if !self.returned.contains(&i) {
                if self.entries[i].dependencies_met(&self.completed) {
                    return (Some(i), true);
                }
                remaining = true;
            }
            i = i + 1;
        }
        (None, remaining)
    }

    /// Gives the first entry not given yet whose dependencies have all been given, and records
    /// it; `None` when every entry was given. Must not be called on a blocked iterator.
    pub fn next(&mut self) -> (r: Option<&'e DbBuildEntry>)
        requires
            old(self).wf(),
            !old(self).blocked(),
        ensures
            final(self).wf(),
            final(self).entries() == old(self).entries(),
            match old(self).next_ready() {
                None => r is None && final(self).given() == old(self).given()
                    && final(self).returned() == old(self).returned()
                    && final(self).completed() == old(self).completed() && forall|i: int|
                    0 <= i < old(self).returned().len() ==> old(self).returned()[i],
                Some(i) => !old(self).returned()[i] && deps_met(old(self).entries()[i], old(self).completed())
                    && r == Some(&old(self).entries()[i]) && final(self).given() == old(
                    self).given().push(i) && final(self).returned()
                    == old(self).returned().update(i, true) && final(self).completed() == old(
                    self).completed().push(old(self).entries()[i].name),
            },
    {
        let (ready, _) = self.scan();
        proof {
            lemma_first_ready(self.entries(), self.returned(), self.completed(), 0);
        }
        match ready {
            None => None,
            Some(i) => {
                let entries: &'e Vec<DbBuildEntry> = self.entries;
                let ghost old_set = self.returned@;
                self.returned.insert(i);
                let name = entries[i].name.clone();
                self.completed.push(name);
                proof {
                    let old_given = self.given@;
                    let n = self.entries@.len();
                    assert(run_order(self.entries@, (old_given.len() + 1) as nat) == old_given.push(
                        i as int,
                    ));
                    self.given = Ghost(old_given.push(i as int));
                    assert(self.returned@ == old_set.insert(i));
                    assert forall|j: int| 0 <= j < n implies #[trigger] self.returned()[j]
                        == self.given@.contains(j) by {
                        assert(j < self.entries.len());
                        assert(j as usize as int == j);
                        assert(self.returned()[j] == self.returned@.contains(j as usize));
                        assert(old(self).returned()[j] == old_set.contains(j as usize));
                        assert(old(self).returned()[j] == old_given.contains(j));
                        if j == i {
                            assert(self.given@[old_given.len() as int] == j);
                        } else if old_given.contains(j) {
                            let t = choose|t: int| 0 <= t < old_given.len() && old_given[t] == j;
                            assert(self.given@[t] == j);
                        } else if self.given@.contains(j) {
                            let t = choose|t: int| 0 <= t < self.given@.len() && self.given@[t] == j;
                            assert(t < old_given.len());
                            assert(old_given[t] == j);
                        }
                    }
                    assert(self.returned() =~= given_of(n, self.given@));
                    assert(self.returned() =~= old(self).returned().update(i as int, true));
                    assert(self.completed@ =~= names_of(self.entries@, self.given@));
                }
                Some(&entries[i])
            },
        }
    }
}

proof fn lemma_first_ready_some(
    entries: Seq<DbBuildEntry>,
    returned: Seq<bool>,
    completed: Seq<String>,
    from: int,
    x: int,
)
    requires
        0 <= from <= x < entries.len(),
        !returned[x],
        deps_met(entries[x], completed),
    ensures
        first_ready_from(entries, returned, completed, from) is Some,
    decreases x - from,
{
    if !(!returned[from] && deps_met(entries[from], completed)) {
        lemma_first_ready_some(entries, returned, completed, from + 1, x);
    }
}

/// The indices a run gives are entries of the build, each once, each after the entries its
/// dependencies name; a run of `k` steps gives at most `k` entries.
proof fn lemma_run_order_facts(entries: Seq<DbBuildEntry>, k: nat)
    ensures
        run_order(entries, k).len() <= k,
        forall|t: int|
            0 <= t < run_order(entries, k).len() ==> 0 <= #[trigger] run_order(entries, k)[t]
                < entries.len(),
        run_order(entries, k).no_duplicates(),
        deps_first(entries, run_order(entries, k)),
    decreases k,
{
    if k > 0 {
        let n = entries.len();
        let prev = run_order(entries, (k - 1) as nat);
        lemma_run_order_facts(entries, (k - 1) as nat);
        lemma_first_ready(entries, given_of(n, prev), names_of(entries, prev), 0);
        match first_ready_from(entries, given_of(n, prev), names_of(entries, prev), 0) {
            Some(i) => {
                let next = prev.push(i);
                assert(run_order(entries, k) == next);
                assert(!given_of(n, prev)[i]);
                assert(!prev.contains(i));
                assert forall|a: int, b: int|
                    0 <= a < next.len() && 0 <= b < next.len() && a != b implies next[a]
                    != next[b] by {
                    if a == prev.len() {
                        assert(prev[b] != i);
                    } else if b == prev.len() {
                        assert(prev[a] != i);
                    }
                }
                assert forall|t: int| 0 <= t < next.len() implies deps_met(
                    entries[#[trigger] next[t]],
                    names_of(entries, next.take(t)),
                ) by {
                    if t < prev.len() {
                        assert(next.take(t) =~= prev.take(t));
                        assert(next[t] == prev[t]);
                    } else {
                        assert(next.take(t) =~= prev);
                    }
                }
            },
            None => {},
        }
    }
}

/// The first position `q` at or before `p` whose entry `order` does not give, every earlier one
/// being given.
proof fn lemma_first_missing(perm: Seq<int>, order: Seq<int>, p: int) -> (q: int)
    requires
        0 <= p < perm.len(),
        !order.contains(perm[p]),
    ensures
        0 <= q <= p,
        !order.contains(perm[q]),
        forall|j: int| 0 <= j < q ==> order.contains(#[trigger] perm[j]),
    decreases p,
{
    if exists|j: int| 0 <= j < p && !order.contains(perm[j]) {
        let j = choose|j: int| 0 <= j < p && !order.contains(perm[j]);
        lemma_first_missing(perm, order, j)
    } else {
        p
    }
}

/// Distinct indices of `n` entries: at most `n` of them, all of the entries when there are `n`,
/// some entry missing when there are fewer.
proof fn lemma_cover(order: Seq<int>, n: nat)
    requires
        forall|t: int| 0 <= t < order.len() ==> 0 <= #[trigger] order[t] < n,
        order.no_duplicates(),
    ensures
        order.len() <= n,
        order.len() == n ==> forall|i: int| 0 <= i < n ==> #[trigger] order.contains(i),
        order.len() < n ==> exists|i: int| 0 <= i < n && !order.contains(i),
{
    broadcast use vstd::set::group_set_axioms, vstd::seq_lib::seq_to_set_is_finite;

    let set = order.to_set();
    let range = vstd::set_lib::set_int_range(0, n as int);
    order.unique_seq_to_set();
    vstd::set_lib::lemma_int_range(0, n as int);
    assert forall|x: int| set.contains(x) implies range.contains(x) by {
        let t = choose|t: int| 0 <= t < order.len() && order[t] == x;
    }
    assert(set.subset_of(range));
    vstd::set_lib::lemma_len_subset(set, range);
    if order.len() == n {
        vstd::set_lib::lemma_subset_equality(set, range);
        assert forall|i: int| 0 <= i < n implies #[trigger] order.contains(i) by {
            assert(range.contains(i));
        }
    }
    if order.len() < n {
        if forall|i: int| 0 <= i < n ==> order.contains(i) {
            assert(range.subset_of(set));
            vstd::set_lib::lemma_len_subset(range, set);
        }
    }
}

/// When some order of the build puts dependencies first, a state that leaves an entry ungiven
/// always has an entry that can be given next.
proof fn lemma_not_blocked(entries: Seq<DbBuildEntry>, order: Seq<int>, perm: Seq<int>)
    requires
        is_build_order(entries, perm),
        exists|i: int| 0 <= i < entries.len() && !order.contains(i),
    ensures
        first_ready_from(entries, given_of(entries.len(), order), names_of(entries, order), 0) is Some,
{
    let n = entries.len();
    let i = choose|i: int| 0 <= i < n && !order.contains(i);
    assert(perm.contains(i));
    let p = choose|p: int| 0 <= p < perm.len() && perm[p] == i;
    let q = lemma_first_missing(perm, order, p);
    let x = perm[q];
    let names = names_of(entries, order);
    let before = names_of(entries, perm.take(q));
    assert(deps_met(entries[perm[q]], before));
    assert forall|d: int| 0 <= d < entries[x].dependencies@.len() implies has_name(
        names,
        #[trigger] entries[x].dependencies@[d]@,
    ) by {
        let dep = entries[x].dependencies@[d]@;
        assert(has_name(before, dep));
        let t = choose|t: int| 0 <= t < before.len() && #[trigger] before[t]@ == dep;
        assert(perm.take(q)[t] == perm[t]);
        assert(order.contains(perm[t]));
        let s = choose|s: int| 0 <= s < order.len() && order[s] == perm[t];
        assert(names[s]@ == dep);
    }
    assert(!given_of(n, order)[x]);
    lemma_first_ready_some(entries, given_of(n, order), names, 0, x);
}

proof fn lemma_run_len(entries: Seq<DbBuildEntry>, perm: Seq<int>, k: nat)
    requires
        is_build_order(entries, perm),
        k <= entries.len(),
    ensures
        run_order(entries, k).len() == k,
    decreases k,
{
    if k > 0 {
        let prev = run_order(entries, (k - 1) as nat);
        lemma_run_len(entries, perm, (k - 1) as nat);
        lemma_run_order_facts(entries, (k - 1) as nat);
        lemma_cover(prev, entries.len());
        lemma_not_blocked(entries, prev, perm);
    }
}

proof fn lemma_unblocked_len(entries: Seq<DbBuildEntry>, k: nat)
    requires
        k <= entries.len(),
        forall|j: nat| j < k ==> !blocked_after(entries, #[trigger] run_order(entries, j)),
    ensures
        run_order(entries, k).len() == k,
    decreases k,
{
    if k > 0 {
        let prev = run_order(entries, (k - 1) as nat);
        lemma_unblocked_len(entries, (k - 1) as nat);
        lemma_run_order_facts(entries, (k - 1) as nat);
        lemma_cover(prev, entries.len());
        assert(!blocked_after(entries, run_order(entries, (k - 1) as nat)));
    }
}

/// When the build's scripts can be ordered with every script after those its dependencies name,
/// going through them never blocks: each of the first `n` steps gives a new script, and the `n`
/// scripts given are all the scripts of the build, each once, each after the scripts its
/// dependencies name.
pub proof fn lemma_build_runs_through(entries: Seq<DbBuildEntry>)
    requires
        orderable(entries),
    ensures
        forall|k: nat|
            k <= entries.len() ==> (#[trigger] run_order(entries, k)).len() == k
                && !blocked_after(entries, run_order(entries, k)),
        is_build_order(entries, run_order(entries, entries.len())),
{
    let n = entries.len();
    let perm = choose|perm: Seq<int>| is_build_order(entries, perm);
    assert forall|k: nat| k <= n implies (#[trigger] run_order(entries, k)).len() == k
        && !blocked_after(entries, run_order(entries, k)) by {
        lemma_run_len(entries, perm, k);
        lemma_run_order_facts(entries, k);
        lemma_cover(run_order(entries, k), n);
        if k < n {
            lemma_not_blocked(entries, run_order(entries, k), perm);
        }
    }
    lemma_run_len(entries, perm, n);
    lemma_run_order_facts(entries, n);
    lemma_cover(run_order(entries, n), n);
}

/// Going through a build's scripts blocks at some step exactly when no order puts every script
/// after the scripts its dependencies name: a cycle, or a dependency on a script that is not in
/// the build.
pub proof fn lemma_build_blocks_iff_unorderable(entries: Seq<DbBuildEntry>)
    ensures
        (exists|k: nat| k <= entries.len() && blocked_after(entries, #[trigger] run_order(entries, k)))
            <==> !orderable(entries),
{
    let n = entries.len();
    if orderable(entries) {
        lemma_build_runs_through(entries);
    } else {
        if !exists|k: nat| k <= n && blocked_after(entries, #[trigger] run_order(entries, k)) {
            lemma_unblocked_len(entries, n);
            lemma_run_order_facts(entries, n);
            lemma_cover(run_order(entries, n), n);
            assert(is_build_order(entries, run_order(entries, n)));
        }
    }
}

/// `path` without its leading `/` characters.
pub open spec fn without_leading_slashes(path: Seq<char>) -> Seq<char>
    decreases path.len(),
{
    if path.len() > 0 && path[0] == '/' {
        without_leading_slashes(path.drop_first())
    } else {
        path
    }
}

/// The part of `path` that is joined to the working directory: `path` without its leading `/`
/// characters.
pub fn relative_path_part(path: &str) -> (r: String)
    ensures
        r@ == without_leading_slashes(path@),
{
    let chars = chars_of(path);
    let mut start: usize = 0;
    assert(path@.skip(0) =~= path@);
    while start < chars.len() && chars[start] == '/'
        invariant
            chars@ == path@,
            0 <= start <= chars@.len(),
            without_leading_slashes(path@) == without_leading_slashes(path@.skip(start as int)),
        decreases chars@.len() - start,
    {
        proof {
            assert(path@.skip(start as int).drop_first() =~= path@.skip(start + 1));
        }
        start = start + 1;
    }
    let mut out = String::new();
    let mut k: usize = start;
    while k < chars.len()
        invariant
            chars@ == path@,
            start <= k <= chars@.len(),
            out@ == path@.subrange(start as int, k as int),
        decreases chars@.len() - k,
    {
        crate::text::push_char(&mut out, chars[k]);
        k = k + 1;
        assert(out@ =~= path@.subrange(start as int, k as int));
    }
    proof {
        assert(path@.skip(start as int) =~= path@.subrange(start as int, chars@.len() as int));
        assert(path@.skip(0) =~= path@);
    }
    out
}

/// The first word of a script: its characters from the first that is not white space up to the
/// next white space (empty when the script is blank).
pub open spec fn first_word(s: Seq<char>) -> Seq<char> {
    let start = leading_space_len(s, 0);
    s.subrange(start, word_end(s, start))
}

/// The index of the first character at or after `from` that is not white space.
pub open spec fn leading_space_len(s: Seq<char>, from: int) -> int
    decreases s.len() - from,
{
    if from >= s.len() || from < 0 {
        s.len() as int
    } else if white_space(s[from]) {
        leading_space_len(s, from + 1)
    } else {
        from
    }
}

/// The index of the first white space character at or after `from`.
pub open spec fn word_end(s: Seq<char>, from: int) -> int
    decreases s.len() - from,
{
    if from >= s.len() || from < 0 {
        s.len() as int
    } else if white_space(s[from]) {
        from
    } else {
        word_end(s, from + 1)
    }
}

/// How a script runs as a Postgres anonymous block: a script that starts with `do` is one
/// already; one that starts with `begin` or `declare` is wrapped in `do $body$ ... $body$;`;
/// any other non-blank script also gets a `begin ... end;` around it; a blank script is left as
/// it is.
pub open spec fn anonymous_block_text(s: Seq<char>) -> Seq<char> {
    let w = first_word(s);
    if w.len() == 0 || w == "do"@ {
        s
    } else if w == "begin"@ || w == "declare"@ {
        "do $body$\n"@ + s + "\n$body$;"@
    } else {
        "do $body$\nbegin\n"@ + s + "\nend;\n$body$;"@
    }
}

/// `t` begins with the word `word`: its first characters are `word`, followed by white space or
/// by the end of `t`.
pub open spec fn starts_with_word(t: Seq<char>, word: Seq<char>) -> bool {
    &&& t.len() >= word.len()
    &&& t.subrange(0, word.len() as int) == word
    &&& (t.len() == word.len() || white_space(t[word.len() as int]))
}

proof fn lemma_leading_white(w: Seq<char>, t: Seq<char>, from: int)
    requires
        blank(w),
        t.len() == 0 || !white_space(t[0]),
        0 <= from <= w.len(),
    ensures
        leading_space_len(w + t, from) == w.len(),
    decreases w.len() - from,
{
    let s = w + t;
    if from < w.len() {
        assert(s[from] == w[from]);
        lemma_leading_white(w, t, from + 1);
    } else if t.len() > 0 {
        assert(s[from] == t[0]);
    }
}

proof fn lemma_word_end_shift(w: Seq<char>, t: Seq<char>, k: int)
    requires
        0 <= k <= t.len(),
    ensures
        word_end(w + t, w.len() + k) == w.len() + word_end(t, k),
    decreases t.len() - k,
{
    if k < t.len() {
        assert((w + t)[w.len() + k] == t[k]);
        lemma_word_end_shift(w, t, k + 1);
    }
}

proof fn lemma_word_end_bounds(t: Seq<char>, k: int)
    requires
        0 <= k <= t.len(),
    ensures
        k <= word_end(t, k) <= t.len(),
        word_end(t, k) == t.len() || white_space(t[word_end(t, k)]),
        forall|i: int| k <= i < word_end(t, k) ==> !white_space(#[trigger] t[i]),
    decreases t.len() - k,
{
    if k < t.len() && !white_space(t[k]) {
        lemma_word_end_bounds(t, k + 1);
    }
}

proof fn lemma_word_end_at(t: Seq<char>, k: int, e: int)
    requires
        0 <= k <= e <= t.len(),
        forall|i: int| k <= i < e ==> !white_space(#[trigger] t[i]),
        e == t.len() || white_space(t[e]),
    ensures
        word_end(t, k) == e,
    decreases e - k,
{
    if k < e {
        lemma_word_end_at(t, k + 1, e);
    }
}

/// The first word of white space `w` followed by a text `t` that does not start with white
/// space is the word that `t` starts with: it is `word` exactly when `t` starts with the word
/// `word`.
proof fn lemma_first_word_is(w: Seq<char>, t: Seq<char>, word: Seq<char>)
    requires
        blank(w),
        t.len() == 0 || !white_space(t[0]),
        word.len() > 0,
        forall|i: int| 0 <= i < word.len() ==> !white_space(#[trigger] word[i]),
    ensures
        first_word(w + t) == word <==> starts_with_word(t, word),
        first_word(w + t).len() == 0 <==> t.len() == 0,
{
    let s = w + t;
    lemma_leading_white(w, t, 0);
    lemma_word_end_shift(w, t, 0);
    lemma_word_end_bounds(t, 0);
    let e = word_end(t, 0);
    assert(first_word(s) =~= t.subrange(0, e));
    if t.len() > 0 {
        lemma_word_end_bounds(t, 1);
        assert(e >= 1);
    }
    if starts_with_word(t, word) {
        assert forall|i: int| 0 <= i < word.len() implies !white_space(#[trigger] t[i]) by {
            assert(t.subrange(0, word.len() as int)[i] == t[i]);
        }
        lemma_word_end_at(t, 0, word.len() as int);
    }
    if first_word(s) == word {
        assert(e == word.len());
    }
}

/// The wrapping of a script is chosen by its first word, after any leading white space (line
/// breaks and tabs included): for white space `w` followed by a text `t` that does not start
/// with white space, a script whose `t` is empty or starts with the word `do` is left as it is,
/// one whose `t` starts with `begin` or `declare` is wrapped in `do $body$ ... $body$;`, and any
/// other gets `begin ... end;` inside that as well. So leading white space never changes the
/// wrapping, and a script that is not blank is returned unchanged only when its first word is
/// `do`.
pub proof fn lemma_anonymous_block_by_first_word(w: Seq<char>, t: Seq<char>)
    requires
        blank(w),
        t.len() == 0 || !white_space(t[0]),
    ensures
        t.len() == 0 ==> anonymous_block_text(w + t) == w + t,
        starts_with_word(t, "do"@) ==> anonymous_block_text(w + t) == w + t,
        starts_with_word(t, "begin"@) || starts_with_word(t, "declare"@) ==> anonymous_block_text(
            w + t,
        ) == "do $body$\n"@ + (w + t) + "\n$body$;"@,
        t.len() > 0 && !starts_with_word(t, "do"@) && !starts_with_word(t, "begin"@)
            && !starts_with_word(t, "declare"@) ==> anonymous_block_text(w + t) == "do $body$\nbegin\n"@
            + (w + t) + "\nend;\n$body$;"@,
{
    reveal_strlit("do");
    reveal_strlit("begin");
    reveal_strlit("declare");
    lemma_first_word_is(w, t, "do"@);
    lemma_first_word_is(w, t, "begin"@);
    lemma_first_word_is(w, t, "declare"@);
}

/// Wraps a script as an anonymous block (see [`anonymous_block_text`]).
pub fn anonymous_block(block: String) -> (r: String)
    ensures
        r@ == anonymous_block_text(block@),
{
    let chars = chars_of(block.as_str());
    let n = chars.len();
    let mut start: usize = 0;
    while start < n && crate::text::is_white_space(chars[start])
        invariant
            chars@ == block@,
            n == chars@.len(),
            0 <= start <= n,
            leading_space_len(block@, 0) == leading_space_len(block@, start as int),
        decreases n - start,
    {
        start = start + 1;
    }
    let mut end: usize = start;
    while end < n && !crate::text::is_white_space(chars[end])
        invariant
            chars@ == block@,
            n == chars@.len(),
            start <= end <= n,
            start == leading_space_len(block@, 0),
            word_end(block@, start as int) == word_end(block@, end as int),
        decreases n - end,
    {
        end = end + 1;
    }
    let mut word = String::new();
    let mut k: usize = start;
    while k < end
        invariant
            chars@ == block@,
            start <= k <= end <= n,
            n == chars@.len(),
            word@ == block@.subrange(start as int, k as int),
        decreases end - k,
    {
        crate::text::push_char(&mut word, chars[k]);
        k = k + 1;
        assert(word@ =~= block@.subrange(start as int, k as int));
    }
    proof {
        assert(first_word(block@) == word@);
    }
    if start == end || text_eq(word.as_str(), "do") {
        block
    } else if text_eq(word.as_str(), "begin") || text_eq(word.as_str(), "declare") {
        let mut r = "do $body$\n".to_owned();
        r.append(block.as_str());
        r.append("\n$body$;");
        r
    } else {
        let mut r = "do $body$\nbegin\n".to_owned();
        r.append(block.as_str());
        r.append("\nend;\n$body$;");
        r
    }
}

} // verus!
