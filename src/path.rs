use vstd::prelude::*;

verus! {

/// The definitions entered on the current path: distinct indices of a table
/// of `n` entries.
pub open spec fn path_ok(path: Seq<usize>, n: int) -> bool {
    &&& path.no_duplicates()
    &&& forall|i: int| 0 <= i < path.len() ==> (path[i] as int) < n
}

proof fn lemma_range_set(n: usize)
    ensures
        Set::new(|x: usize| x < n).finite(),
        Set::new(|x: usize| x < n).len() == n,
    decreases n,
{
    if n == 0 {
        assert(Set::new(|x: usize| x < n) =~= Set::<usize>::empty());
    } else {
        let m = (n - 1) as usize;
        lemma_range_set(m);
        assert(Set::new(|x: usize| x < n) =~= Set::new(|x: usize| x < m).insert(m));
    }
}

/// A path that lacks one more index of the table is shorter than the table.
pub proof fn lemma_path_bound(path: Seq<usize>, n: usize, idx: usize)
    requires
        path_ok(path, n as int),
        idx < n,
        !path.contains(idx),
    ensures
        path.len() < n,
        path_ok(path.push(idx), n as int),
{
    let p = path.push(idx);
    assert forall|i: int, j: int| 0 <= i < p.len() && 0 <= j < p.len() && i != j implies p[i] != p[j] by {
        if i < path.len() && j < path.len() {
        } else if i == path.len() {
            assert(path[j] == p[j]);
        } else {
            assert(path[i] == p[i]);
        }
    }
    assert(p.no_duplicates());
    p.unique_seq_to_set();
    lemma_range_set(n);
    assert(p.to_set().subset_of(Set::new(|x: usize| x < n)));
    vstd::set_lib::lemma_len_subset(p.to_set(), Set::new(|x: usize| x < n));
}

/// A path of distinct definitions is never longer than the table: a chain
/// of references followed without a prompt in between resolves at most
/// `n` definitions before a repeated one is met and rejected as a cycle.
pub proof fn lemma_path_within_table(path: Seq<usize>, n: usize)
    requires
        path_ok(path, n as int),
    ensures
        path.len() <= n,
{
    path.unique_seq_to_set();
    lemma_range_set(n);
    assert(path.to_set().subset_of(Set::new(|x: usize| x < n)));
    vstd::set_lib::lemma_len_subset(path.to_set(), Set::new(|x: usize| x < n));
}

/// Whether `idx` is on the path.
pub fn path_contains(path: &Vec<usize>, idx: usize) -> (r: bool)
    ensures
        r == path@.contains(idx),
{
    let mut i: usize = 0;
    while i < path.len()
        invariant
            i <= path@.len(),
            forall|j: int| 0 <= j < i ==> path@[j] != idx,
        decreases path.len() - i,
    {
        if path[i] == idx {
            return true;
        }
        i = i + 1;
    }
    false
}

/// The path extended by one more index.
pub fn path_push(path: &Vec<usize>, idx: usize) -> (r: Vec<usize>)
    ensures
        r@ == path@.push(idx),
{
    let mut r: Vec<usize> = Vec::new();
    let mut i: usize = 0;
    while i < path.len()
        invariant
            i <= path@.len(),
            r@ == path@.subrange(0, i as int),
        decreases path.len() - i,
    {
        r.push(path[i]);
        i = i + 1;
    }
    r.push(idx);
    proof {
        assert(r@ =~= path@.push(idx));
    }
    r
}

} // verus!
