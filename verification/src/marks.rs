//! The marks: identifiers of records, kept in rising order with none twice.

use vstd::prelude::*;

verus! {

/// Each element is smaller than the next.
pub open spec fn strictly_increasing(ids: Seq<u64>) -> bool {
    forall|i: int, j: int| 0 <= i < j < ids.len() ==> ids[i] < ids[j]
}

/// Two lists in rising order that hold the same identifiers are the same
/// list.
pub proof fn lemma_same_marks(a: Seq<u64>, b: Seq<u64>)
    requires
        strictly_increasing(a),
        strictly_increasing(b),
        a.to_set() == b.to_set(),
    ensures
        a == b,
    decreases a.len(),
{
    if a.len() == 0 {
        if b.len() > 0 {
            assert(b.to_set().contains(b[0]));
            assert(a.to_set().contains(b[0]));
        }
        assert(a =~= b);
    } else {
        let top = a.last();
        assert(a.to_set().contains(top));
        assert(b.to_set().contains(top));
        assert(b.contains(top));
        let at = choose|at: int| 0 <= at < b.len() && b[at] == top;
        if at < b.len() - 1 {
            let above = b.last();
            assert(b.to_set().contains(above));
            assert(a.contains(above));
            let k = choose|k: int| 0 <= k < a.len() && a[k] == above;
            assert(a[k] <= top);
        }
        let a0 = a.drop_last();
        let b0 = b.drop_last();
        assert forall|x: u64| a0.to_set().contains(x) <==> b0.to_set().contains(x) by {
            if a0.contains(x) {
                let k = choose|k: int| 0 <= k < a0.len() && a0[k] == x;
                assert(a[k] == x);
                assert(a.to_set().contains(x));
                assert(b.contains(x));
                let m = choose|m: int| 0 <= m < b.len() && b[m] == x;
                assert(x < top);
                assert(b0[m] == x);
            }
            if b0.contains(x) {
                let m = choose|m: int| 0 <= m < b0.len() && b0[m] == x;
                assert(b[m] == x);
                assert(b.to_set().contains(x));
                assert(a.contains(x));
                let k = choose|k: int| 0 <= k < a.len() && a[k] == x;
                assert(x < top);
                assert(a0[k] == x);
            }
        }
        assert(a0.to_set() =~= b0.to_set());
        lemma_same_marks(a0, b0);
        assert(a =~= a0.push(top));
        assert(b =~= b0.push(top));
    }
}

/// Where `id` stands in the list, or would stand: the number of marks that
/// are smaller.
pub fn slot(marks: &Vec<u64>, id: u64) -> (at: usize)
    requires
        strictly_increasing(marks@),
    ensures
        at <= marks@.len(),
        forall|j: int| 0 <= j < at ==> marks@[j] < id,
        forall|j: int| at <= j < marks@.len() ==> marks@[j] >= id,
{
    let mut at: usize = 0;
    while at < marks.len() && marks[at] < id
        invariant
            at <= marks@.len(),
            forall|j: int| 0 <= j < at ==> marks@[j] < id,
        decreases marks@.len() - at,
    {
        at = at + 1;
    }
    at
}

/// Whether `id` is marked.
pub fn is_marked(marks: &Vec<u64>, id: u64) -> (marked: bool)
    requires
        strictly_increasing(marks@),
    ensures
        marked == marks@.to_set().contains(id),
{
    let at: usize = slot(marks, id);
    let marked = at < marks.len() && marks[at] == id;
    proof {
        if marks@.contains(id) && !marked {
            let k = choose|k: int| 0 <= k < marks@.len() && marks@[k] == id;
            assert(marks@[k] == id);
        }
    }
    marked
}

/// Marks `id`, keeping the list in rising order. A mark that is there
/// already is not added again.
pub fn add_mark(marks: &mut Vec<u64>, id: u64)
    requires
        strictly_increasing(old(marks)@),
    ensures
        strictly_increasing(final(marks)@),
        final(marks)@.to_set() == old(marks)@.to_set().insert(id),
{
    let at: usize = slot(marks, id);
    if at < marks.len() && marks[at] == id {
        assert(marks@.to_set().contains(id));
        assert(marks@.to_set() =~= marks@.to_set().insert(id));
        return ;
    }
    marks.insert(at, id);
    proof {
        let before = old(marks)@;
        let after = marks@;
        before.insert_ensures(at as int, id);
        assert forall|i: int, j: int| 0 <= i < j < after.len() implies after[i] < after[j] by {
            if i < at && j > at {
                assert(after[j] == before[j - 1]);
            }
        }
        assert forall|x: u64| after.to_set().contains(x) <==> before.to_set().insert(id).contains(
            x,
        ) by {
            if after.contains(x) {
                let k = choose|k: int| 0 <= k < after.len() && after[k] == x;
                if k < at {
                    assert(before[k] == x);
                } else if k > at {
                    assert(before[k - 1] == x);
                }
            }
            if before.contains(x) {
                let k = choose|k: int| 0 <= k < before.len() && before[k] == x;
                if k < at {
                    assert(after[k] == x);
                } else {
                    assert(after[k + 1] == x);
                }
            }
            if x == id {
                assert(after[at as int] == x);
            }
        }
        assert(after.to_set() =~= before.to_set().insert(id));
    }
}

/// Takes the mark off `id`, where it has one.
pub fn remove_mark(marks: &mut Vec<u64>, id: u64)
    requires
        strictly_increasing(old(marks)@),
    ensures
        strictly_increasing(final(marks)@),
        final(marks)@.to_set() == old(marks)@.to_set().remove(id),
{
    let at: usize = slot(marks, id);
    if at < marks.len() && marks[at] == id {
        marks.remove(at);
        proof {
            let before = old(marks)@;
            let after = marks@;
            before.remove_ensures(at as int);
            assert forall|i: int, j: int| 0 <= i < j < after.len() implies after[i] < after[j] by {
                let bi = if i < at { i } else { i + 1 };
                let bj = if j < at { j } else { j + 1 };
                assert(after[i] == before[bi]);
                assert(after[j] == before[bj]);
            }
            assert forall|x: u64| after.to_set().contains(x) <==> before.to_set().remove(
                id,
            ).contains(x) by {
                if after.contains(x) {
                    let k = choose|k: int| 0 <= k < after.len() && after[k] == x;
                    let bk = if k < at { k } else { k + 1 };
                    assert(before[bk] == x);
                }
                if before.contains(x) && x != id {
                    let k = choose|k: int| 0 <= k < before.len() && before[k] == x;
                    if k < at {
                        assert(after[k] == x);
                    } else {
                        assert(k > at);
                        assert(after[k - 1] == x);
                    }
                }
            }
            assert(after.to_set() =~= before.to_set().remove(id));
        }
    } else {
        proof {
            if marks@.contains(id) {
                let k = choose|k: int| 0 <= k < marks@.len() && marks@[k] == id;
                assert(marks@[k] == id);
            }
            assert(marks@.to_set() =~= marks@.to_set().remove(id));
        }
    }
}

} // verus!
