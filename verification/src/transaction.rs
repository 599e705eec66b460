//! Transactions, and their order in a block.
//!
//! The transactions of a block are grouped by the VM that they are for. Within
//! one VM they keep the order in which they came.

use vstd::prelude::*;

verus! {

/// The VM that a transaction is for.
#[derive(Clone, Copy, Debug, PartialEq, Eq, PartialOrd, Ord, Hash, Default)]
pub struct VmId(pub u64);

/// A transaction.
#[derive(Debug, PartialEq, Eq, Hash)]
pub struct Transaction {
    pub vm: VmId,
    pub payload: Vec<u8>,
}

impl View for Transaction {
    type V = (u64, Seq<u8>);

    open spec fn view(&self) -> (u64, Seq<u8>) {
        (self.vm.0, self.payload@)
    }
}

impl Clone for Transaction {
    fn clone(&self) -> (r: Self)
        ensures
            r@ == self@,
            r.vm == self.vm,
            r.payload@ == self.payload@,
    {
        Transaction { vm: self.vm, payload: crate::bytes::copy_bytes(&self.payload) }
    }
}

impl Transaction {
    /// A transaction for a VM.
    pub fn new(vm: VmId, payload: Vec<u8>) -> (r: Self)
        ensures
            r@ == (vm.0, payload@),
            r.vm == vm,
            r.payload == payload,
    {
        Transaction { vm, payload }
    }

    /// The VM that the transaction is for.
    pub fn vm(&self) -> (r: VmId)
        ensures
            r.0 == self@.0,
            r == self.vm,
    {
        self.vm
    }

    /// What the VM is given.
    pub fn payload(&self) -> (r: &[u8])
        ensures
            r@ == self@.1,
            r@ == self.payload@,
    {
        self.payload.as_slice()
    }
}

/// The transactions of `s` for the VM `vm`, in order.
pub open spec fn of_vm(s: Seq<Transaction>, vm: u64) -> Seq<Transaction>
    decreases s.len(),
{
    if s.len() == 0 {
        Seq::empty()
    } else if s.last().vm.0 == vm {
        of_vm(s.drop_last(), vm).push(s.last())
    } else {
        of_vm(s.drop_last(), vm)
    }
}

/// Whether transactions stand in the order of their VMs.
pub open spec fn grouped(s: Seq<Transaction>) -> bool {
    forall|i: int, j: int| 0 <= i <= j < s.len() ==> (#[trigger] s[i]).vm.0 <= (#[trigger] s[j]).vm.0
}

/// Whether `a` and `b` have the same transactions for every VM, in the same order.
pub open spec fn same_by_vm(a: Seq<Transaction>, b: Seq<Transaction>) -> bool {
    forall|vm: u64| #[trigger] of_vm(a, vm) == of_vm(b, vm)
}

/// Whether all VMs of `a` come before or with all VMs of `b`.
spec fn not_after(a: Seq<Transaction>, b: Seq<Transaction>) -> bool {
    forall|i: int, j: int|
        0 <= i < a.len() && 0 <= j < b.len() ==> (#[trigger] a[i]).vm.0 <= (#[trigger] b[j]).vm.0
}

proof fn lemma_of_vm_add(a: Seq<Transaction>, b: Seq<Transaction>, vm: u64)
    ensures
        of_vm(a + b, vm) == of_vm(a, vm) + of_vm(b, vm),
    decreases b.len(),
{
    if b.len() == 0 {
        assert(a + b =~= a);
        assert(of_vm(a, vm) + of_vm(b, vm) =~= of_vm(a, vm));
    } else {
        assert((a + b).drop_last() =~= a + b.drop_last());
        lemma_of_vm_add(a, b.drop_last(), vm);
        assert(of_vm(a + b, vm) =~= of_vm(a, vm) + of_vm(b, vm));
    }
}

proof fn lemma_of_vm_none(s: Seq<Transaction>, vm: u64)
    requires
        forall|i: int| 0 <= i < s.len() ==> (#[trigger] s[i]).vm.0 != vm,
    ensures
        of_vm(s, vm) == Seq::<Transaction>::empty(),
    decreases s.len(),
{
    if s.len() > 0 {
        assert forall|i: int| 0 <= i < s.drop_last().len() implies (
        #[trigger] s.drop_last()[i]).vm.0 != vm by {
            assert(s.drop_last()[i] == s[i]);
        }
        lemma_of_vm_none(s.drop_last(), vm);
        assert(s[s.len() - 1].vm.0 != vm);
    }
}

/// What is left of two halves, and what has been taken off their ends: the
/// transactions that each half and the taken part hold together, VM by VM.
spec fn split_by_vm(
    left: Seq<Transaction>,
    right: Seq<Transaction>,
    taken: Seq<Transaction>,
    vm: u64,
) -> Seq<Transaction> {
    of_vm(left, vm) + of_vm(right, vm) + of_vm(taken, vm)
}

/// Taking the last of the left half past the right half changes nothing, where it
/// is for a later VM than any of the right half.
proof fn lemma_take_left(
    left: Seq<Transaction>,
    right: Seq<Transaction>,
    taken: Seq<Transaction>,
    vm: u64,
)
    requires
        left.len() > 0,
        forall|i: int| 0 <= i < right.len() ==> (#[trigger] right[i]).vm.0 < left.last().vm.0,
    ensures
        split_by_vm(left.drop_last(), right, seq![left.last()] + taken, vm) == split_by_vm(
            left,
            right,
            taken,
            vm,
        ),
{
    let x = left.last();
    lemma_of_vm_add(seq![x], taken, vm);
    assert(seq![x].drop_last() =~= Seq::<Transaction>::empty());
    reveal_with_fuel(of_vm, 2);
    if x.vm.0 == vm {
        lemma_of_vm_none(right, vm);
        assert(of_vm(seq![x], vm) =~= seq![x]);
    } else {
        assert(of_vm(seq![x], vm) =~= Seq::<Transaction>::empty());
    }
    assert(split_by_vm(left.drop_last(), right, seq![x] + taken, vm) =~= split_by_vm(
        left,
        right,
        taken,
        vm,
    ));
}

/// Taking the last of the right half changes nothing.
proof fn lemma_take_right(
    left: Seq<Transaction>,
    right: Seq<Transaction>,
    taken: Seq<Transaction>,
    vm: u64,
)
    requires
        right.len() > 0,
    ensures
        split_by_vm(left, right.drop_last(), seq![right.last()] + taken, vm) == split_by_vm(
            left,
            right,
            taken,
            vm,
        ),
{
    let y = right.last();
    lemma_of_vm_add(seq![y], taken, vm);
    assert(seq![y].drop_last() =~= Seq::<Transaction>::empty());
    reveal_with_fuel(of_vm, 2);
    if y.vm.0 == vm {
        assert(of_vm(seq![y], vm) =~= seq![y]);
    } else {
        assert(of_vm(seq![y], vm) =~= Seq::<Transaction>::empty());
    }
    assert(split_by_vm(left, right.drop_last(), seq![y] + taken, vm) =~= split_by_vm(
        left,
        right,
        taken,
        vm,
    ));
}

/// The elements of `v` in reverse.
fn reversed(v: Vec<Transaction>) -> (r: Vec<Transaction>)
    ensures
        r@ == v@.reverse(),
{
    let ghost all = v@;
    let mut rest = v;
    let mut out: Vec<Transaction> = Vec::new();
    while rest.len() > 0
        invariant
            rest@ == all.take(rest@.len() as int),
            rest@.len() <= all.len(),
            out@ == all.skip(rest@.len() as int).reverse(),
        decreases rest@.len(),
    {
        let ghost n = rest@.len() as int;
        if let Some(x) = rest.pop() {
            out.push(x);
            assert(rest@ =~= all.take(n - 1));
            assert(out@ =~= all.skip(n - 1).reverse());
        }
    }
    assert(out@ =~= all.reverse());
    out
}

/// Two grouped halves as one. Of transactions for the same VM, those of the left
/// half come first.
fn merge(left: Vec<Transaction>, right: Vec<Transaction>) -> (r: Vec<Transaction>)
    requires
        grouped(left@),
        grouped(right@),
    ensures
        grouped(r@),
        same_by_vm(r@, left@ + right@),
{
    let ghost (l0, r0) = (left@, right@);
    let mut l = left;
    let mut r = right;
    let mut out: Vec<Transaction> = Vec::new();
    assert(out@.reverse() =~= Seq::<Transaction>::empty());
    assert forall|vm: u64| #[trigger] split_by_vm(l@, r@, out@.reverse(), vm) == of_vm(l0, vm)
        + of_vm(r0, vm) by {
        assert(split_by_vm(l@, r@, out@.reverse(), vm) =~= of_vm(l0, vm) + of_vm(r0, vm));
    }
    while l.len() > 0 || r.len() > 0
        invariant
            grouped(l@),
            grouped(r@),
            grouped(out@.reverse()),
            not_after(l@, out@.reverse()),
            not_after(r@, out@.reverse()),
            forall|vm: u64| #[trigger]
                split_by_vm(l@, r@, out@.reverse(), vm) == of_vm(l0, vm) + of_vm(r0, vm),
        decreases l@.len() + r@.len(),
    {
        let ghost (l1, r1, taken) = (l@, r@, out@.reverse());
        let take_left = if l.len() == 0 {
            false
        } else if r.len() == 0 {
            true
        } else {
            l[l.len() - 1].vm.0 > r[r.len() - 1].vm.0
        };
        if take_left {
            if let Some(x) = l.pop() {
                assert(forall|i: int| 0 <= i < r1.len() ==> (#[trigger] r1[i]).vm.0 < x.vm.0) by {
                    if r1.len() > 0 {
                        assert(r1[r1.len() - 1].vm.0 < x.vm.0);
                    }
                }
                out.push(x);
                assert(out@.reverse() =~= seq![x] + taken);
                assert forall|vm: u64| #[trigger]
                    split_by_vm(l@, r@, out@.reverse(), vm) == of_vm(l0, vm) + of_vm(r0, vm) by {
                    assert(l@ =~= l1.drop_last());
                    lemma_take_left(l1, r1, taken, vm);
                    assert(split_by_vm(l1, r1, taken, vm) == of_vm(l0, vm) + of_vm(r0, vm));
                }
            }
        } else {
            if let Some(y) = r.pop() {
                assert(forall|i: int| 0 <= i < l1.len() ==> (#[trigger] l1[i]).vm.0 <= y.vm.0) by {
                    if l1.len() > 0 {
                        assert(l1[l1.len() - 1].vm.0 <= y.vm.0);
                    }
                }
                out.push(y);
                assert(out@.reverse() =~= seq![y] + taken);
                assert forall|vm: u64| #[trigger]
                    split_by_vm(l@, r@, out@.reverse(), vm) == of_vm(l0, vm) + of_vm(r0, vm) by {
                    assert(r@ =~= r1.drop_last());
                    lemma_take_right(l1, r1, taken, vm);
                    assert(split_by_vm(l1, r1, taken, vm) == of_vm(l0, vm) + of_vm(r0, vm));
                }
            }
        }
    }
    let merged = reversed(out);
    assert forall|vm: u64| #[trigger] of_vm(merged@, vm) == of_vm(l0 + r0, vm) by {
        lemma_of_vm_add(l0, r0, vm);
        assert(split_by_vm(l@, r@, merged@, vm) == of_vm(l0, vm) + of_vm(r0, vm));
        assert(split_by_vm(l@, r@, merged@, vm) =~= of_vm(merged@, vm));
    }
    merged
}

/// The transactions grouped by VM, and otherwise in the order in which they came.
pub fn sort_by_vm(transactions: Vec<Transaction>) -> (r: Vec<Transaction>)
    ensures
        grouped(r@),
        same_by_vm(r@, transactions@),
        forall|i: int, j: int|
            0 <= i <= j < r@.len() ==> (#[trigger] r@[i]).vm.0 <= (#[trigger] r@[j]).vm.0,
        r@.to_multiset() == transactions@.to_multiset(),
        r@.len() == transactions@.len(),
    decreases transactions@.len(),
{
    if transactions.len() <= 1 {
        return transactions;
    }
    let ghost all = transactions@;
    let mut left = transactions;
    let mid = left.len() / 2;
    let right = left.split_off(mid);
    assert(left@ + right@ =~= all);
    let ghost (l0, r0) = (left@, right@);
    let left = sort_by_vm(left);
    let right = sort_by_vm(right);
    let r = merge(left, right);
    assert forall|vm: u64| #[trigger] of_vm(r@, vm) == of_vm(all, vm) by {
        lemma_of_vm_add(left@, right@, vm);
        lemma_of_vm_add(l0, r0, vm);
        assert(of_vm(r@, vm) == of_vm(left@ + right@, vm));
        assert(of_vm(left@, vm) == of_vm(l0, vm));
        assert(of_vm(right@, vm) == of_vm(r0, vm));
    }
    proof {
        same_by_vm_same_transactions(r@, all);
    }
    r
}

proof fn lemma_of_vm_count(s: Seq<Transaction>, x: Transaction)
    ensures
        s.to_multiset().count(x) == of_vm(s, x.vm.0).to_multiset().count(x),
    decreases s.len(),
{
    broadcast use vstd::seq_lib::group_to_multiset_ensures;

    if s.len() > 0 {
        lemma_of_vm_count(s.drop_last(), x);
        assert(s =~= s.drop_last().push(s.last()));
    }
}

/// Sorting loses no transaction and adds none.
pub proof fn same_by_vm_same_transactions(a: Seq<Transaction>, b: Seq<Transaction>)
    requires
        same_by_vm(a, b),
    ensures
        a.to_multiset() == b.to_multiset(),
        a.len() == b.len(),
{
    broadcast use vstd::seq_lib::group_to_multiset_ensures;

    assert forall|x: Transaction| a.to_multiset().count(x) == b.to_multiset().count(x) by {
        lemma_of_vm_count(a, x);
        lemma_of_vm_count(b, x);
        assert(of_vm(a, x.vm.0) == of_vm(b, x.vm.0));
    }
    assert(a.to_multiset() =~= b.to_multiset());
    assert(a.len() == a.to_multiset().len() && b.len() == b.to_multiset().len());
}

proof fn lemma_of_vm_last(s: Seq<Transaction>, vm: u64)
    requires
        of_vm(s, vm).len() > 0,
    ensures
        exists|i: int| 0 <= i < s.len() && (#[trigger] s[i]).vm.0 == vm,
    decreases s.len(),
{
    if s.last().vm.0 == vm {
        assert(s[s.len() - 1].vm.0 == vm);
    } else {
        lemma_of_vm_last(s.drop_last(), vm);
        let i = choose|i: int| 0 <= i < s.len() - 1 && (#[trigger] s.drop_last()[i]).vm.0 == vm;
        assert(s[i].vm.0 == vm);
    }
}

/// There is only one way to group transactions by VM and keep their order
/// otherwise.
pub proof fn grouping_is_unique(a: Seq<Transaction>, b: Seq<Transaction>)
    requires
        grouped(a),
        grouped(b),
        same_by_vm(a, b),
    ensures
        a == b,
    decreases a.len(),
{
    same_by_vm_same_transactions(a, b);
    if a.len() == 0 {
        assert(a =~= b);
    } else {
        let (x, y) = (a.last(), b.last());
        assert(of_vm(a, x.vm.0).last() == x);
        assert(of_vm(b, x.vm.0) == of_vm(a, x.vm.0));
        assert(of_vm(b, y.vm.0).last() == y);
        assert(of_vm(a, y.vm.0) == of_vm(b, y.vm.0));
        lemma_of_vm_last(b, x.vm.0);
        lemma_of_vm_last(a, y.vm.0);
        let i = choose|i: int| 0 <= i < b.len() && (#[trigger] b[i]).vm.0 == x.vm.0;
        let j = choose|j: int| 0 <= j < a.len() && (#[trigger] a[j]).vm.0 == y.vm.0;
        assert(b[i].vm.0 <= b[b.len() - 1].vm.0);
        assert(a[j].vm.0 <= a[a.len() - 1].vm.0);
        assert(x == y);
        assert forall|vm: u64| #[trigger] of_vm(a.drop_last(), vm) == of_vm(b.drop_last(), vm) by {
            assert(of_vm(a, vm) == of_vm(b, vm));
            if x.vm.0 == vm {
                assert(of_vm(a.drop_last(), vm) =~= of_vm(a, vm).drop_last());
                assert(of_vm(b.drop_last(), vm) =~= of_vm(b, vm).drop_last());
            }
        }
        grouping_is_unique(a.drop_last(), b.drop_last());
        assert(a =~= a.drop_last().push(x));
        assert(b =~= b.drop_last().push(y));
    }
}

proof fn lemma_of_vm_filter(s: Seq<Transaction>, vm: u64)
    ensures
        of_vm(s, vm) == s.filter(|t: Transaction| t.vm.0 == vm),
    decreases s.len(),
{
    reveal(Seq::filter);
    if s.len() > 0 {
        lemma_of_vm_filter(s.drop_last(), vm);
    }
}

/// Grouping puts lower VMs first, and picking out the transactions for one VM gives the
/// same list before and after it.
pub proof fn grouping_keeps_order_of_each_vm(a: Seq<Transaction>, b: Seq<Transaction>, vm: u64)
    requires
        grouped(a),
        same_by_vm(a, b),
    ensures
        a.filter(|t: Transaction| t.vm.0 == vm) == b.filter(|t: Transaction| t.vm.0 == vm),
        forall|i: int, j: int|
            0 <= i < j < a.len() ==> (#[trigger] a[i]).vm.0 <= (#[trigger] a[j]).vm.0,
{
    lemma_of_vm_filter(a, vm);
    lemma_of_vm_filter(b, vm);
    assert(of_vm(a, vm) == of_vm(b, vm));
}

/// In a block, the transactions for one VM stand together.
pub proof fn vm_stands_together(s: Seq<Transaction>, i: int, k: int, j: int)
    requires
        grouped(s),
        0 <= i <= k <= j < s.len(),
        s[i].vm.0 == s[j].vm.0,
    ensures
        s[k].vm.0 == s[i].vm.0,
{
}

} // verus!
