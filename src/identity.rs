use vstd::prelude::*;

use crate::types::{addresses_equal, Address, AddressId, MultisigError, UNKNOWN_USER_ID};

verus! {

/// The id bound to `a` in a registry that holds the address of id `k` at index `k - 1`:
/// the position after the last occurrence of `a`, or 0 where `a` does not occur.
pub open spec fn id_of(users: Seq<Address>, a: Address) -> nat
    decreases users.len(),
{
    if users.len() == 0 {
        0
    } else if users.last() == a {
        users.len()
    } else {
        id_of(users.drop_last(), a)
    }
}

/// The registry after `insert_new(a)`: unchanged where `a` is known, else `a` appended.
pub open spec fn inserted(users: Seq<Address>, a: Address) -> Seq<Address> {
    if id_of(users, a) == 0 {
        users.push(a)
    } else {
        users
    }
}

/// No address occurs twice.
pub open spec fn addresses_distinct(users: Seq<Address>) -> bool {
    forall|i: int, j: int| 0 <= i < users.len() && 0 <= j < users.len() && i != j ==> users[i] != users[j]
}

pub proof fn lemma_id_of_bounds(users: Seq<Address>, a: Address)
    ensures
        id_of(users, a) <= users.len(),
        id_of(users, a) > 0 ==> users[id_of(users, a) - 1] == a,
        id_of(users, a) == 0 <==> (forall|i: int| 0 <= i < users.len() ==> users[i] != a),
    decreases users.len(),
{
    if users.len() > 0 && users.last() != a {
        lemma_id_of_bounds(users.drop_last(), a);
        if id_of(users, a) == 0 {
            assert forall|i: int| 0 <= i < users.len() implies users[i] != a by {
                if i < users.len() - 1 {
                    assert(users.drop_last()[i] == users[i]);
                }
            }
        }
    }
}

pub proof fn lemma_id_of_index(users: Seq<Address>, i: int)
    requires
        addresses_distinct(users),
        0 <= i < users.len(),
    ensures
        id_of(users, users[i]) == i + 1,
{
    lemma_id_of_bounds(users, users[i]);
}

pub proof fn lemma_id_of_push(users: Seq<Address>, b: Address, a: Address)
    ensures
        id_of(users.push(b), a) == if a == b { users.len() + 1 } else { id_of(users, a) },
{
    assert(users.push(b).drop_last() =~= users);
}

/// Bidirectional registry between addresses and small integer ids.
/// Ids start at 1, are handed out in order and are never reused.
pub struct IdentityIndex {
    addresses: Vec<Address>,
}

impl View for IdentityIndex {
    type V = Seq<Address>;

    closed spec fn view(&self) -> Seq<Address> {
        self.addresses@
    }
}

impl IdentityIndex {
    pub open spec fn wf(&self) -> bool {
        &&& addresses_distinct(self@)
        &&& self@.len() < u64::MAX
    }

    pub fn new() -> (r: Self)
        ensures
            r.wf(),
            r@ == Seq::<Address>::empty(),
    {
        IdentityIndex { addresses: Vec::new() }
    }

    /// Number of registered addresses, which is also the largest id handed out.
    pub fn len(&self) -> (r: usize)
        ensures
            r == self@.len(),
    {
        self.addresses.len()
    }

    /// The id of `a`, or `UNKNOWN_USER_ID` where it was never registered.
    pub fn get_id(&self, a: &Address) -> (r: AddressId)
        requires
            self.wf(),
        ensures
            r == id_of(self@, *a),
    {
        let mut i: usize = 0;
        while i < self.addresses.len()
            invariant
                self.wf(),
                i <= self@.len(),
                forall|j: int| 0 <= j < i ==> self@[j] != *a,
            decreases self@.len() - i,
        {
            if addresses_equal(&self.addresses[i], a) {
                proof {
                    lemma_id_of_index(self@, i as int);
                }
                return (i + 1) as AddressId;
            }
            i = i + 1;
        }
        proof {
            lemma_id_of_bounds(self@, *a);
        }
        UNKNOWN_USER_ID
    }

    /// The id of `a`; fails with `UnknownUser` where it was never registered.
    pub fn get_id_non_zero(&self, a: &Address) -> (r: Result<AddressId, MultisigError>)
        requires
            self.wf(),
        ensures
            id_of(self@, *a) == 0 ==> r == Err::<AddressId, MultisigError>(MultisigError::UnknownUser),
            id_of(self@, *a) != 0 ==> r == Ok::<AddressId, MultisigError>(id_of(self@, *a) as AddressId),
    {
        let id = self.get_id(a);
        if id == UNKNOWN_USER_ID {
            Err(MultisigError::UnknownUser)
        } else {
            Ok(id)
        }
    }

    /// Registers `a` where it is unknown and returns its id; a known address keeps
    /// its id and nothing changes.
    pub fn insert_new(&mut self, a: &Address) -> (r: AddressId)
        requires
            old(self).wf(),
            old(self)@.len() + 1 < u64::MAX,
        ensures
            final(self).wf(),
            final(self)@ == inserted(old(self)@, *a),
            r == id_of(final(self)@, *a),
            r != 0,
    {
        let id = self.get_id(a);
        if id != 0 {
            return id;
        }
        proof {
            lemma_id_of_bounds(self@, *a);
            lemma_id_of_push(self@, *a, *a);
        }
        self.addresses.push(*a);
        self.addresses.len() as AddressId
    }

    /// The address bound to `id`, if any.
    pub fn get_address(&self, id: AddressId) -> (r: Option<Address>)
        ensures
            (1 <= id <= self@.len()) ==> r == Some(self@[id - 1]),
            !(1 <= id <= self@.len()) ==> r is None,
    {
        if id >= 1 && id <= self.addresses.len() as u64 {
            Some(self.addresses[(id - 1) as usize])
        } else {
            None
        }
    }

    /// Forgets every address registered after the first `n`.
    pub fn truncate(&mut self, n: usize)
        requires
            old(self).wf(),
            n <= old(self)@.len(),
        ensures
            final(self).wf(),
            final(self)@ == old(self)@.subrange(0, n as int),
    {
        self.addresses.truncate(n);
    }

    /// Every registered address, in order of registration.
    pub fn addresses(&self) -> (r: &Vec<Address>)
        ensures
            r@ == self@,
    {
        &self.addresses
    }
}

} // verus!
