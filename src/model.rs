use vstd::prelude::*;

use crate::types::{AddressId, UserRole};

verus! {

/// The role of `id` in a role table indexed by id; ids outside the table hold none.
pub open spec fn role_of(roles: Seq<UserRole>, id: AddressId) -> UserRole {
    if id < roles.len() {
        roles[id as int]
    } else {
        UserRole::Unassigned
    }
}

/// How many entries of the role table hold `r`.
pub open spec fn count_role(roles: Seq<UserRole>, r: UserRole) -> nat
    decreases roles.len(),
{
    if roles.len() == 0 {
        0
    } else {
        count_role(roles.drop_last(), r) + if roles.last() == r { 1nat } else { 0nat }
    }
}

/// How many of `signers` currently hold the board-member role.
pub open spec fn valid_signer_count(signers: Seq<AddressId>, roles: Seq<UserRole>) -> nat
    decreases signers.len(),
{
    if signers.len() == 0 {
        0
    } else {
        valid_signer_count(signers.drop_last(), roles) + if role_of(roles, signers.last())
            is BoardMember {
            1nat
        } else {
            0nat
        }
    }
}

/// The signers that currently hold the board-member role, in their order.
pub open spec fn board_signers(signers: Seq<AddressId>, roles: Seq<UserRole>) -> Seq<AddressId>
    decreases signers.len(),
{
    if signers.len() == 0 {
        Seq::empty()
    } else if role_of(roles, signers.last()) is BoardMember {
        board_signers(signers.drop_last(), roles).push(signers.last())
    } else {
        board_signers(signers.drop_last(), roles)
    }
}

/// No id occurs twice.
pub open spec fn ids_distinct(ids: Seq<AddressId>) -> bool {
    forall|i: int, j: int| 0 <= i < ids.len() && 0 <= j < ids.len() && i != j ==> ids[i] != ids[j]
}

pub proof fn lemma_count_push(roles: Seq<UserRole>, x: UserRole, r: UserRole)
    ensures
        count_role(roles.push(x), r) == count_role(roles, r) + if x == r { 1nat } else { 0nat },
{
    assert(roles.push(x).drop_last() =~= roles);
}

pub proof fn lemma_count_update(roles: Seq<UserRole>, i: int, x: UserRole, r: UserRole)
    requires
        0 <= i < roles.len(),
    ensures
        count_role(roles.update(i, x), r) + (if roles[i] == r { 1nat } else { 0nat })
            == count_role(roles, r) + (if x == r { 1nat } else { 0nat }),
    decreases roles.len(),
{
    if i == roles.len() - 1 {
        assert(roles.update(i, x).drop_last() =~= roles.drop_last());
    } else {
        assert(roles.update(i, x).drop_last() =~= roles.drop_last().update(i, x));
        lemma_count_update(roles.drop_last(), i, x, r);
    }
}

pub proof fn lemma_count_le(roles: Seq<UserRole>, r: UserRole)
    ensures
        count_role(roles, r) <= roles.len(),
    decreases roles.len(),
{
    if roles.len() > 0 {
        lemma_count_le(roles.drop_last(), r);
    }
}

/// The valid signers are at most all signers, and all of them exactly when every
/// signer holds the board-member role.
pub proof fn lemma_valid_signer_count_bounds(signers: Seq<AddressId>, roles: Seq<UserRole>)
    ensures
        valid_signer_count(signers, roles) <= signers.len(),
        valid_signer_count(signers, roles) == signers.len() <==> (forall|i: int|
            0 <= i < signers.len() ==> (#[trigger] role_of(roles, signers[i])) is BoardMember),
    decreases signers.len(),
{
    if signers.len() > 0 {
        let prefix = signers.drop_last();
        lemma_valid_signer_count_bounds(prefix, roles);
        if valid_signer_count(signers, roles) == signers.len() {
            assert forall|i: int| 0 <= i < signers.len() implies (#[trigger] role_of(
                roles,
                signers[i],
            )) is BoardMember by {
                if i < signers.len() - 1 {
                    assert(prefix[i] == signers[i]);
                }
            }
        }
        if forall|i: int| 0 <= i < signers.len() ==> (#[trigger] role_of(roles, signers[i])) is BoardMember {
            assert forall|i: int| 0 <= i < prefix.len() implies (#[trigger] role_of(
                roles,
                prefix[i],
            )) is BoardMember by {
                assert(prefix[i] == signers[i]);
            }
            assert(role_of(roles, signers[signers.len() - 1]) is BoardMember);
        }
    }
}

pub proof fn lemma_valid_signer_count_push(signers: Seq<AddressId>, s: AddressId, roles: Seq<UserRole>)
    ensures
        valid_signer_count(signers.push(s), roles) == valid_signer_count(signers, roles) + if role_of(
            roles,
            s,
        ) is BoardMember {
            1nat
        } else {
            0nat
        },
{
    assert(signers.push(s).drop_last() =~= signers);
}

pub proof fn lemma_board_signers_push(signers: Seq<AddressId>, s: AddressId, roles: Seq<UserRole>)
    ensures
        board_signers(signers.push(s), roles) == if role_of(roles, s) is BoardMember {
            board_signers(signers, roles).push(s)
        } else {
            board_signers(signers, roles)
        },
{
    assert(signers.push(s).drop_last() =~= signers);
}

/// The signers kept by `board_signers` are those among `signers` that hold the
/// board-member role, and all of them count as valid.
pub proof fn lemma_board_signers(signers: Seq<AddressId>, roles: Seq<UserRole>)
    ensures
        forall|x: AddressId| #[trigger] board_signers(signers, roles).contains(x) <==> (signers.contains(x)
            && role_of(roles, x) is BoardMember),
        board_signers(signers, roles).len() == valid_signer_count(signers, roles),
        valid_signer_count(board_signers(signers, roles), roles) == valid_signer_count(signers, roles),
        ids_distinct(signers) ==> ids_distinct(board_signers(signers, roles)),
    decreases signers.len(),
{
    if signers.len() > 0 {
        let prefix = signers.drop_last();
        let last = signers.last();
        lemma_board_signers(prefix, roles);
        let bp = board_signers(prefix, roles);
        assert forall|x: AddressId| signers.contains(x) <==> (prefix.contains(x) || x == last) by {
            if signers.contains(x) {
                let k = choose|k: int| 0 <= k < signers.len() && signers[k] == x;
                if k < signers.len() - 1 {
                    assert(prefix[k] == x);
                }
            }
            if prefix.contains(x) {
                let k = choose|k: int| 0 <= k < prefix.len() && prefix[k] == x;
                assert(signers[k] == x);
            }
            if x == last {
                assert(signers[signers.len() - 1] == x);
            }
        }
        if role_of(roles, last) is BoardMember {
            lemma_valid_signer_count_push(bp, last, roles);
            assert forall|x: AddressId| #[trigger] bp.push(last).contains(x) <==> (bp.contains(x) || x == last) by {
                if bp.push(last).contains(x) {
                    let k = choose|k: int| 0 <= k < bp.push(last).len() && bp.push(last)[k] == x;
                    if k < bp.len() {
                        assert(bp[k] == x);
                    }
                }
                if bp.contains(x) {
                    let k = choose|k: int| 0 <= k < bp.len() && bp[k] == x;
                    assert(bp.push(last)[k] == x);
                }
                if x == last {
                    assert(bp.push(last)[bp.len() as int] == x);
                }
            }
            if ids_distinct(signers) {
                assert(ids_distinct(prefix)) by {
                    assert forall|i: int, j: int| 0 <= i < prefix.len() && 0 <= j < prefix.len() && i != j
                        implies prefix[i] != prefix[j] by {
                        assert(prefix[i] == signers[i] && prefix[j] == signers[j]);
                    }
                }
                assert(!prefix.contains(last)) by {
                    if prefix.contains(last) {
                        let k = choose|k: int| 0 <= k < prefix.len() && prefix[k] == last;
                        assert(signers[k] == signers[signers.len() - 1]);
                    }
                }
                assert(!bp.contains(last));
                let q = bp.push(last);
                assert forall|i: int, j: int| 0 <= i < q.len() && 0 <= j < q.len() && i != j
                    implies q[i] != q[j] by {
                    if i == bp.len() {
                        assert(bp.contains(q[j]));
                    } else if j == bp.len() {
                        assert(bp.contains(q[i]));
                    }
                }
            }
        } else {
            if ids_distinct(signers) {
                assert(ids_distinct(prefix)) by {
                    assert forall|i: int, j: int| 0 <= i < prefix.len() && 0 <= j < prefix.len() && i != j
                        implies prefix[i] != prefix[j] by {
                        assert(prefix[i] == signers[i] && prefix[j] == signers[j]);
                    }
                }
            }
        }
    }
}


/// `signers` with `x` recorded, where it is not already.
pub open spec fn add_signer(signers: Seq<AddressId>, x: AddressId) -> Seq<AddressId> {
    if signers.contains(x) {
        signers
    } else {
        signers.push(x)
    }
}

/// `signers` without any occurrence of `x`, in their order.
pub open spec fn drop_id(signers: Seq<AddressId>, x: AddressId) -> Seq<AddressId>
    decreases signers.len(),
{
    if signers.len() == 0 {
        Seq::empty()
    } else if signers.last() == x {
        drop_id(signers.drop_last(), x)
    } else {
        drop_id(signers.drop_last(), x).push(signers.last())
    }
}

pub proof fn lemma_drop_id_push(signers: Seq<AddressId>, s: AddressId, x: AddressId)
    ensures
        drop_id(signers.push(s), x) == if s == x {
            drop_id(signers, x)
        } else {
            drop_id(signers, x).push(s)
        },
{
    assert(signers.push(s).drop_last() =~= signers);
}

pub proof fn lemma_drop_id(signers: Seq<AddressId>, x: AddressId)
    ensures
        forall|y: AddressId| #[trigger] drop_id(signers, x).contains(y) <==> (signers.contains(y) && y != x),
        ids_distinct(signers) ==> ids_distinct(drop_id(signers, x)),
        !signers.contains(x) ==> drop_id(signers, x) == signers,
    decreases signers.len(),
{
    if signers.len() > 0 {
        let prefix = signers.drop_last();
        let last = signers.last();
        lemma_drop_id(prefix, x);
        let dp = drop_id(prefix, x);
        assert forall|y: AddressId| signers.contains(y) <==> (prefix.contains(y) || y == last) by {
            if signers.contains(y) {
                let k = choose|k: int| 0 <= k < signers.len() && signers[k] == y;
                if k < signers.len() - 1 {
                    assert(prefix[k] == y);
                }
            }
            if prefix.contains(y) {
                let k = choose|k: int| 0 <= k < prefix.len() && prefix[k] == y;
                assert(signers[k] == y);
            }
            if y == last {
                assert(signers[signers.len() - 1] == y);
            }
        }
        if ids_distinct(signers) {
            assert(ids_distinct(prefix)) by {
                assert forall|i: int, j: int| 0 <= i < prefix.len() && 0 <= j < prefix.len() && i != j
                    implies prefix[i] != prefix[j] by {
                    assert(prefix[i] == signers[i] && prefix[j] == signers[j]);
                }
            }
            assert(!prefix.contains(last)) by {
                if prefix.contains(last) {
                    let k = choose|k: int| 0 <= k < prefix.len() && prefix[k] == last;
                    assert(signers[k] == signers[signers.len() - 1]);
                }
            }
        }
        if last != x {
            let q = dp.push(last);
            assert forall|y: AddressId| #[trigger] q.contains(y) <==> (dp.contains(y) || y == last) by {
                if q.contains(y) {
                    let k = choose|k: int| 0 <= k < q.len() && q[k] == y;
                    if k < dp.len() {
                        assert(dp[k] == y);
                    }
                }
                if dp.contains(y) {
                    let k = choose|k: int| 0 <= k < dp.len() && dp[k] == y;
                    assert(q[k] == y);
                }
                if y == last {
                    assert(q[dp.len() as int] == y);
                }
            }
            if ids_distinct(signers) {
                assert(!dp.contains(last));
                assert forall|i: int, j: int| 0 <= i < q.len() && 0 <= j < q.len() && i != j
                    implies q[i] != q[j] by {
                    if i == dp.len() {
                        assert(dp.contains(q[j]));
                    } else if j == dp.len() {
                        assert(dp.contains(q[i]));
                    }
                }
            }
            if !signers.contains(x) {
                assert(!prefix.contains(x));
                assert(q =~= signers);
            }
        } else {
            assert(signers.contains(x)) by {
                assert(signers[signers.len() - 1] == x);
            }
        }
    }
}

pub proof fn lemma_add_signer(signers: Seq<AddressId>, x: AddressId)
    ensures
        forall|y: AddressId| #[trigger] add_signer(signers, x).contains(y) <==> (signers.contains(y) || y == x),
        ids_distinct(signers) ==> ids_distinct(add_signer(signers, x)),
        add_signer(add_signer(signers, x), x) == add_signer(signers, x),
{
    let q = signers.push(x);
    assert forall|y: AddressId| #[trigger] q.contains(y) <==> (signers.contains(y) || y == x) by {
        if q.contains(y) {
            let k = choose|k: int| 0 <= k < q.len() && q[k] == y;
            if k < signers.len() {
                assert(signers[k] == y);
            }
        }
        if signers.contains(y) {
            let k = choose|k: int| 0 <= k < signers.len() && signers[k] == y;
            assert(q[k] == y);
        }
        if y == x {
            assert(q[signers.len() as int] == y);
        }
    }
    if !signers.contains(x) {
        assert(q.contains(x));
        if ids_distinct(signers) {
            assert forall|i: int, j: int| 0 <= i < q.len() && 0 <= j < q.len() && i != j
                implies q[i] != q[j] by {
                if i == signers.len() {
                    assert(signers.contains(q[j]));
                } else if j == signers.len() {
                    assert(signers.contains(q[i]));
                }
            }
        }
    }
}

/// Whether `x` occurs in `v`.
pub fn contains_id(v: &Vec<AddressId>, x: AddressId) -> (r: bool)
    ensures
        r == v@.contains(x),
{
    let mut i: usize = 0;
    while i < v.len()
        invariant
            i <= v@.len(),
            forall|k: int| 0 <= k < i ==> v@[k] != x,
        decreases v@.len() - i,
    {
        if v[i] == x {
            assert(v@[i as int] == x);
            return true;
        }
        i = i + 1;
    }
    false
}

/// A copy of `v` without `x`.
pub fn without_id(v: &Vec<AddressId>, x: AddressId) -> (r: Vec<AddressId>)
    ensures
        r@ == drop_id(v@, x),
{
    let mut out: Vec<AddressId> = Vec::new();
    let mut i: usize = 0;
    while i < v.len()
        invariant
            i <= v@.len(),
            out@ == drop_id(v@.subrange(0, i as int), x),
        decreases v@.len() - i,
    {
        proof {
            assert(v@.subrange(0, i + 1) =~= v@.subrange(0, i as int).push(v@[i as int]));
            lemma_drop_id_push(v@.subrange(0, i as int), v@[i as int], x);
        }
        if v[i] != x {
            out.push(v[i]);
        }
        i = i + 1;
    }
    assert(v@.subrange(0, i as int) =~= v@);
    out
}

} // verus!
