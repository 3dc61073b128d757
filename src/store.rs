use std::collections::HashMap;
use vstd::prelude::*;
use vstd::string::StringExecFns;

verus! {

broadcast use vstd::std_specs::hash::group_hash_axioms;

/// A stored record: a display name.
#[derive(Debug)]
pub struct User {
    pub name: String,
}

/// What a create hands back: the assigned identifier and the name.
#[derive(Debug)]
pub struct CreatedUser {
    pub id: u32,
    pub name: String,
}

/// `k` is a key of `m` and no key of `m` is greater.
pub open spec fn is_max_key(m: Map<u32, Seq<char>>, k: u32) -> bool {
    m.contains_key(k) && forall|j: u32| m.contains_key(j) ==> j <= k
}

/// The identifier that the next create assigns: one greater than the
/// greatest key of `m`, or 1 where `m` is empty.
pub open spec fn next_id(m: Map<u32, Seq<char>>) -> int {
    if exists|k: u32| is_max_key(m, k) {
        (choose|k: u32| is_max_key(m, k)) + 1
    } else {
        1
    }
}

/// The keys of `m` are exactly 1 through `n`.
pub open spec fn keys_dense(m: Map<u32, Seq<char>>, n: int) -> bool {
    forall|k: u32| m.contains_key(k) <==> 1 <= k <= n
}

/// Where the keys are 1 through `n`, the next identifier is `n + 1`.
pub proof fn lemma_next_id_of_dense(m: Map<u32, Seq<char>>, n: int)
    requires
        0 <= n <= u32::MAX,
        keys_dense(m, n),
    ensures
        next_id(m) == n + 1,
{
    if n == 0 {
        assert(!exists|k: u32| is_max_key(m, k));
    } else {
        assert(is_max_key(m, n as u32));
        let k = choose|k: u32| is_max_key(m, k);
        assert(k <= n as u32 && n as u32 <= k);
    }
}

/// The text of the reply to a fetch of an absent identifier.
pub open spec fn not_found_text() -> Seq<char> {
    "User not found"@
}

/// The reply to a fetch of an absent identifier.
pub fn user_not_found() -> (r: String)
    ensures
        r@ == not_found_text(),
{
    String::from_str("User not found")
}

/// The record store: identifiers mapped to records. Identifiers are
/// assigned by the store, one above the greatest present, so they run
/// from 1 with no gap; records are never changed or removed.
pub struct UserStore {
    users: HashMap<u32, User>,
    max_id: u32,
}

impl View for UserStore {
    type V = Map<u32, Seq<char>>;

    /// Each identifier of the store mapped to its record's name.
    closed spec fn view(&self) -> Map<u32, Seq<char>> {
        Map::new(|k: u32| self.users@.contains_key(k), |k: u32| self.users@[k].name@)
    }
}

impl UserStore {
    /// The store's invariant: its identifiers are exactly 1 through the
    /// greatest one.
    pub closed spec fn wf(&self) -> bool {
        keys_dense(self@, self.max_id as int)
    }

    /// An empty store.
    pub fn new() -> (r: Self)
        ensures
            r.wf(),
            r@ == Map::<u32, Seq<char>>::empty(),
    {
        let r = UserStore { users: HashMap::new(), max_id: 0 };
        assert(r@ =~= Map::<u32, Seq<char>>::empty());
        r
    }

    /// The number of records.
    pub fn len(&self) -> (r: u32)
        requires
            self.wf(),
        ensures
            r as int == self@.dom().len(),
    {
        proof {
            self.lemma_dom_len();
        }
        self.max_id
    }

    proof fn lemma_dom_len(&self)
        requires
            self.wf(),
        ensures
            self@.dom().len() == self.max_id as int,
            self@.dom() == id_range(self.max_id as int),
    {
        assert(self@.dom() =~= id_range(self.max_id as int));
        lemma_id_range_len(self.max_id as int);
    }

    /// Creates a record named `name` under the identifier one above the
    /// greatest present (1 in an empty store). `None`, with the store
    /// unchanged, where that identifier would not fit in a `u32`.
    pub fn post_user(&mut self, name: String) -> (r: Option<CreatedUser>)
        requires
            old(self).wf(),
        ensures
            final(self).wf(),
            next_id(old(self)@) == old(self)@.dom().len() + 1,
            r.is_none() <==> next_id(old(self)@) > u32::MAX,
            r.is_none() ==> final(self)@ == old(self)@,
            r matches Some(c) ==> {
                &&& c.id == next_id(old(self)@)
                &&& c.name@ == name@
                &&& !old(self)@.contains_key(c.id)
                &&& final(self)@ == old(self)@.insert(c.id, name@)
            },
    {
        proof {
            self.lemma_dom_len();
            lemma_next_id_of_dense(self@, self.max_id as int);
        }
        if self.max_id == u32::MAX {
            return None;
        }
        let id = self.max_id + 1;
        let kept = name.clone();
        self.users.insert(id, User { name: kept });
        self.max_id = id;
        proof {
            assert(self@ =~= old(self)@.insert(id, name@));
        }
        Some(CreatedUser { id, name })
    }

    /// The record under `id`, if there is one.
    pub fn user(&self, id: u32) -> (r: Option<User>)
        ensures
            r matches Some(u) ==> self@.contains_key(id) && u.name@ == self@[id],
            r.is_none() ==> !self@.contains_key(id),
    {
        match self.users.get(&id) {
            Some(u) => Some(User { name: u.name.clone() }),
            None => None,
        }
    }
}

/// The identifiers 1 through `n`.
pub open spec fn id_range(n: int) -> Set<u32> {
    Set::new(|k: u32| 1 <= k <= n)
}

/// There are `n` identifiers from 1 through `n`.
pub proof fn lemma_id_range_len(n: int)
    requires
        0 <= n <= u32::MAX,
    ensures
        id_range(n).finite(),
        id_range(n).len() == n,
    decreases n,
{
    if n == 0 {
        assert(id_range(n) =~= Set::<u32>::empty());
    } else {
        lemma_id_range_len(n - 1);
        assert(id_range(n) =~= id_range(n - 1).insert(n as u32));
    }
}

} // verus!
