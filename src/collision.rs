//! Output names that avoid collisions, and reconciliation of a new output
//! against the earlier members of its collision set.
//!
//! The collision set of a canonical output `stem.jxl` is `stem.jxl`,
//! `stem(1).jxl`, `stem(2).jxl`, ... A new output is written to the first free
//! member; when that is not the canonical name, every earlier member with the
//! same content digest is removed as a duplicate, members with other content are
//! kept (and reported), and the new output is then moved to the canonical name.
//! That move replaces whatever the canonical name held: the newest conversion
//! always becomes the canonical output.
use vstd::prelude::*;

verus! {

/// Collision indices above this are not probed: the conversion fails instead.
pub const MAX_COLLISION_INDEX: u64 = 9999;

/// The decimal digit `d` (for `d < 10`).
pub open spec fn digit_char(d: nat) -> char {
    seq!['0', '1', '2', '3', '4', '5', '6', '7', '8', '9'][d as int]
}

/// The decimal form of `n`, without leading zeros.
pub open spec fn decimal(n: nat) -> Seq<char>
    decreases n,
{
    if n < 10 {
        seq![digit_char(n)]
    } else {
        decimal(n / 10) + seq![digit_char(n % 10)]
    }
}

/// The extension of every output.
pub open spec fn jxl_suffix() -> Seq<char> {
    seq!['.', 'j', 'x', 'l']
}

/// The file name of member `n` of the collision set of `stem`.
pub open spec fn candidate(stem: Seq<char>, n: nat) -> Seq<char> {
    if n == 0 {
        stem + jxl_suffix()
    } else {
        stem + seq!['('] + decimal(n) + seq![')'] + jxl_suffix()
    }
}

fn digit_str(d: u64) -> (r: &'static str)
    requires
        d < 10,
    ensures
        r@ == seq![digit_char(d as nat)],
{
    proof {
        reveal_strlit("0");
        reveal_strlit("1");
        reveal_strlit("2");
        reveal_strlit("3");
        reveal_strlit("4");
        reveal_strlit("5");
        reveal_strlit("6");
        reveal_strlit("7");
        reveal_strlit("8");
        reveal_strlit("9");
    }
    let r = if d == 0 {
        "0"
    } else if d == 1 {
        "1"
    } else if d == 2 {
        "2"
    } else if d == 3 {
        "3"
    } else if d == 4 {
        "4"
    } else if d == 5 {
        "5"
    } else if d == 6 {
        "6"
    } else if d == 7 {
        "7"
    } else if d == 8 {
        "8"
    } else {
        "9"
    };
    assert(r@ =~= seq![digit_char(d as nat)]);
    r
}

/// The decimal form of `n`.
pub fn decimal_string(n: u64) -> (r: String)
    ensures
        r@ == decimal(n as nat),
    decreases n,
{
    if n < 10 {
        String::from_str(digit_str(n))
    } else {
        let mut s = decimal_string(n / 10);
        s.append(digit_str(n % 10));
        s
    }
}

/// The file name of member `n` of the collision set of `stem`: `stem.jxl` for
/// `n == 0`, else `stem(n).jxl`.
pub fn candidate_name(stem: &str, n: u64) -> (r: String)
    ensures
        r@ == candidate(stem@, n as nat),
{
    proof {
        reveal_strlit(".jxl");
        reveal_strlit("(");
        reveal_strlit(")");
        assert(".jxl"@ =~= jxl_suffix());
        assert("("@ =~= seq!['(']);
        assert(")"@ =~= seq![')']);
    }
    let mut name = String::from_str(stem);
    if n > 0 {
        name.append("(");
        let digits = decimal_string(n);
        name.append(digits.as_str());
        name.append(")");
    }
    name.append(".jxl");
    name
}

/// What to do after looking at member `index` of a collision set.
#[derive(PartialEq, Eq, Structural, Clone, Copy, Debug)]
pub enum Probe {
    /// The member is free: write the new output there.
    Use(u64),
    /// The member is taken: look at this next member.
    Next(u64),
    /// Every member up to the bound is taken.
    Exhausted,
}

/// One step of the search for the first free member of a collision set, which
/// starts at index 0 and ends at `MAX_COLLISION_INDEX`.
pub fn probe_step(index: u64, occupied: bool) -> (r: Probe)
    requires
        index <= MAX_COLLISION_INDEX,
    ensures
        !occupied ==> r == Probe::Use(index),
        occupied && index < MAX_COLLISION_INDEX ==> r == Probe::Next((index + 1) as u64),
        occupied && index == MAX_COLLISION_INDEX ==> r == Probe::Exhausted,
{
    if !occupied {
        Probe::Use(index)
    } else if index < MAX_COLLISION_INDEX {
        Probe::Next(index + 1)
    } else {
        Probe::Exhausted
    }
}

/// The first free member of a collision set, given which of its first members
/// are taken (`occupied[i]` for member `i`); `None` when all of those are taken.
pub fn first_free(occupied: &Vec<bool>) -> (r: Option<usize>)
    ensures
        match r {
            Some(n) => n < occupied@.len() && !occupied@[n as int] && forall|i: int|
                0 <= i < n ==> #[trigger] occupied@[i],
            None => forall|i: int| 0 <= i < occupied@.len() ==> #[trigger] occupied@[i],
        },
{
    let mut i: usize = 0;
    while i < occupied.len()
        invariant
            i <= occupied@.len(),
            forall|j: int| 0 <= j < i ==> #[trigger] occupied@[j],
        decreases occupied@.len() - i,
    {
        if !occupied[i] {
            return Some(i);
        }
        i = i + 1;
    }
    None
}

/// One step of the reconciliation of a new output.
#[derive(PartialEq, Eq, Structural, Clone, Copy, Debug)]
pub enum Reconcile {
    /// The member at this index has the new output's content: remove it.
    RemoveDuplicate(usize),
    /// The member at this index has other content: keep it and report it.
    KeepDistinct(usize),
    /// Move the new output from this index to the canonical name.
    Promote(usize),
}

/// Step `k` of the reconciliation of a new output written at member
/// `existing.len()`, where `existing[i]` is the digest of member `i`.
pub open spec fn reconcile_step(new_digest: u64, existing: Seq<u64>, k: int) -> Reconcile {
    let n = existing.len();
    if k < n {
        let i = n - 1 - k;
        if existing[i] == new_digest {
            Reconcile::RemoveDuplicate(i as usize)
        } else {
            Reconcile::KeepDistinct(i as usize)
        }
    } else {
        Reconcile::Promote(n as usize)
    }
}

/// The reconciliation of a new output with digest `new_digest`, written at
/// member `existing.len()` of its collision set, where `existing[i]` is the
/// digest of member `i`. Nothing is to be done when the new output took the
/// canonical name. Otherwise the earlier members are visited from the highest
/// index down to the canonical one, each removed when its digest equals the new
/// one and kept otherwise, and the new output is then promoted to the canonical
/// name.
pub fn reconcile_plan(new_digest: u64, existing: &Vec<u64>) -> (plan: Vec<Reconcile>)
    requires
        existing@.len() < usize::MAX,
    ensures
        existing@.len() == 0 ==> plan@.len() == 0,
        existing@.len() > 0 ==> plan@.len() == existing@.len() + 1,
        forall|k: int|
            0 <= k < plan@.len() ==> plan@[k] == reconcile_step(new_digest, existing@, k),
{
    let n = existing.len();
    let mut plan: Vec<Reconcile> = Vec::new();
    if n == 0 {
        return plan;
    }
    let mut k: usize = 0;
    while k < n
        invariant
            n == existing@.len(),
            k <= n,
            plan@.len() == k,
            forall|j: int| 0 <= j < k ==> plan@[j] == reconcile_step(new_digest, existing@, j),
        decreases n - k,
    {
        let i = n - 1 - k;
        if existing[i] == new_digest {
            plan.push(Reconcile::RemoveDuplicate(i));
        } else {
            plan.push(Reconcile::KeepDistinct(i));
        }
        k = k + 1;
    }
    plan.push(Reconcile::Promote(n));
    plan
}

/// The members of a collision set as digests: `Some(d)` for a member that holds
/// a file with digest `d`, `None` for a free one.
pub open spec fn apply_step(slots: Seq<Option<u64>>, step: Reconcile) -> Seq<Option<u64>> {
    match step {
        Reconcile::RemoveDuplicate(i) => slots.update(i as int, None),
        Reconcile::KeepDistinct(_) => slots,
        Reconcile::Promote(i) => slots.update(0, slots[i as int]).update(i as int, None),
    }
}

/// The collision set after the steps of `plan`, taken in order.
pub open spec fn apply_plan(slots: Seq<Option<u64>>, plan: Seq<Reconcile>) -> Seq<Option<u64>>
    decreases plan.len(),
{
    if plan.len() == 0 {
        slots
    } else {
        apply_step(apply_plan(slots, plan.drop_last()), plan.last())
    }
}

proof fn lemma_removal_prefix(slots: Seq<Option<u64>>, new_digest: u64, existing: Seq<u64>, plan: Seq<Reconcile>, k: int)
    requires
        slots.len() == existing.len() + 1,
        existing.len() < usize::MAX,
        0 <= k <= existing.len(),
        plan.len() >= k,
        forall|j: int| 0 <= j < plan.len() ==> plan[j] == reconcile_step(new_digest, existing, j),
    ensures
        apply_plan(slots, plan.subrange(0, k)).len() == slots.len(),
        forall|i: int|
            0 <= i < slots.len() ==> #[trigger] apply_plan(slots, plan.subrange(0, k))[i] == (if i
                < existing.len() - k || i == existing.len() || existing[i] != new_digest {
                slots[i]
            } else {
                None::<u64>
            }),
    decreases k,
{
    if k > 0 {
        lemma_removal_prefix(slots, new_digest, existing, plan, k - 1);
        let p = plan.subrange(0, k);
        assert(p.drop_last() =~= plan.subrange(0, k - 1));
        assert(p.last() == reconcile_step(new_digest, existing, k - 1));
        let prev = apply_plan(slots, plan.subrange(0, k - 1));
        let cur = apply_plan(slots, p);
        assert(cur == apply_step(prev, p.last()));
        assert forall|i: int| 0 <= i < slots.len() implies #[trigger] cur[i] == (if i
            < existing.len() - k || i == existing.len() || existing[i] != new_digest {
            slots[i]
        } else {
            None::<u64>
        }) by {
            assert(prev[i] == (if i < existing.len() - (k - 1) || i == existing.len()
                || existing[i] != new_digest {
                slots[i]
            } else {
                None::<u64>
            }));
        }
    } else {
        assert(plan.subrange(0, 0) =~= Seq::<Reconcile>::empty());
    }
}

/// Reconciliation leaves exactly one file at the canonical name, holding the new
/// output, and frees the member where the new output was written. Every other
/// member is removed when it held the new output's content and is otherwise left
/// as it was.
pub proof fn lemma_reconcile_outcome(new_digest: u64, existing: Seq<u64>, plan: Seq<Reconcile>)
    requires
        0 < existing.len() < usize::MAX,
        plan.len() == existing.len() + 1,
        forall|k: int| 0 <= k < plan.len() ==> plan[k] == reconcile_step(new_digest, existing, k),
    ensures
        ({
            let n = existing.len() as int;
            let before = Seq::new(existing.len(), |i: int| Some(existing[i])).push(Some(new_digest));
            let after = apply_plan(before, plan);
            &&& after.len() == n + 1
            &&& after[0] == Some(new_digest)
            &&& after[n] == None::<u64>
            &&& forall|i: int| 0 < i < n ==> after[i] == (if existing[i] == new_digest {
                None
            } else {
                Some(existing[i])
            })
        }),
{
    let n = existing.len() as int;
    let before = Seq::new(existing.len(), |i: int| Some(existing[i])).push(Some(new_digest));
    lemma_removal_prefix(before, new_digest, existing, plan, n);
    assert(plan.drop_last() =~= plan.subrange(0, n));
    assert(plan.last() == Reconcile::Promote(n as usize));
    let mid = apply_plan(before, plan.subrange(0, n));
    assert(mid[n] == before[n]);
    assert(apply_plan(before, plan) == apply_step(mid, plan.last()));
}

/// When every earlier member holds the new output's content, reconciliation
/// leaves a single file, at the canonical name, and no numbered member.
pub proof fn lemma_reconcile_identical(new_digest: u64, existing: Seq<u64>, plan: Seq<Reconcile>)
    requires
        0 < existing.len() < usize::MAX,
        plan.len() == existing.len() + 1,
        forall|k: int| 0 <= k < plan.len() ==> plan[k] == reconcile_step(new_digest, existing, k),
        forall|i: int| 0 <= i < existing.len() ==> existing[i] == new_digest,
    ensures
        ({
            let before = Seq::new(existing.len(), |i: int| Some(existing[i])).push(Some(new_digest));
            let after = apply_plan(before, plan);
            &&& after.len() == existing.len() + 1
            &&& after[0] == Some(new_digest)
            &&& forall|i: int| 0 < i < after.len() ==> after[i] == None::<u64>
        }),
{
    lemma_reconcile_outcome(new_digest, existing, plan);
}

} // verus!
