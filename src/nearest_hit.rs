use vstd::prelude::*;

verus! {

// A hit is placed along its ray by the parameter `t` of the point
// `origin + t * direction`. The hits that a query admits have `t` above a
// positive lower bound, and on non-negative IEEE doubles the bit pattern read
// as an unsigned integer orders exactly as the number does. So a hit is
// ranked here by that integer, its key: the nearest hit has the least key.

/// The nearer of two optional keys; on a tie the first one stays.
pub open spec fn nearer(a: Option<u64>, b: Option<u64>) -> Option<u64> {
    match (a, b) {
        (None, _) => b,
        (_, None) => a,
        (Some(x), Some(y)) => if y < x { b } else { a },
    }
}

/// The least key among the members that were hit, `None` if none was.
pub open spec fn min_key(keys: Seq<Option<u64>>) -> Option<u64>
    decreases keys.len(),
{
    if keys.len() == 0 {
        None
    } else {
        nearer(min_key(keys.drop_last()), keys.last())
    }
}

/// The least key is one that was hit, and no member was hit nearer; there is
/// none exactly when every member was missed.
pub proof fn lemma_min_key_is_least(keys: Seq<Option<u64>>)
    ensures
        min_key(keys) is None <==> forall|j: int| 0 <= j < keys.len() ==> keys[j] is None,
        min_key(keys) matches Some(k) ==> {
            &&& keys.contains(Some(k))
            &&& forall|j: int| 0 <= j < keys.len() ==> (#[trigger] keys[j] matches Some(m) ==> k <= m)
        },
    decreases keys.len(),
{
    if keys.len() > 0 {
        let init = keys.drop_last();
        lemma_min_key_is_least(init);
        assert forall|j: int| 0 <= j < keys.len() - 1 implies keys[j] == init[j] by {}
        if let Some(k) = min_key(keys) {
            if min_key(keys) == min_key(init) {
                let j = choose|j: int| 0 <= j < init.len() && init[j] == Some(k);
                assert(keys[j] == Some(k));
            } else {
                assert(keys[keys.len() - 1] == Some(k));
            }
        }
    }
}

/// The nearest hit of a scene does not depend on the order of its members:
/// two sequences of member hits that hold the same hits, each as often, have
/// the same least key.
pub proof fn lemma_min_key_order_independent(a: Seq<Option<u64>>, b: Seq<Option<u64>>)
    requires
        a.to_multiset() =~= b.to_multiset(),
    ensures
        min_key(a) == min_key(b),
{
    broadcast use vstd::seq_lib::group_to_multiset_ensures;

    lemma_min_key_is_least(a);
    lemma_min_key_is_least(b);
    assert forall|x: Option<u64>| a.contains(x) <==> b.contains(x) by {
        assert(a.to_multiset().count(x) == b.to_multiset().count(x));
    }
    if let Some(k) = min_key(a) {
        let i = choose|i: int| 0 <= i < b.len() && b[i] == Some(k);
        assert(b[i] is Some);
        if let Some(m) = min_key(b) {
            let j = choose|j: int| 0 <= j < a.len() && a[j] == Some(m);
            assert(a[j] is Some);
        }
    } else if let Some(m) = min_key(b) {
        let j = choose|j: int| 0 <= j < a.len() && a[j] == Some(m);
        assert(a[j] is Some);
    }
}

/// The member that was hit, with the key of its hit.
#[derive(Clone, Copy, Debug, PartialEq, Eq, Structural)]
pub struct Nearest {
    pub index: usize,
    pub key: u64,
}

/// The state of a query over the members of a scene, taken one at a time:
/// the nearest hit found so far.
pub struct ClosestHit {
    best: Option<Nearest>,
}

impl ClosestHit {
    /// The nearest hit found so far.
    pub closed spec fn view(&self) -> Option<Nearest> {
        self.best
    }

    /// No member has been hit yet.
    pub fn new() -> (r: Self)
        ensures
            r@ == None::<Nearest>,
    {
        ClosestHit { best: None }
    }

    /// The upper end of the interval in which the next member is searched:
    /// the key of the nearest hit so far, or `t_max` while there is none.
    pub fn bound(&self, t_max: u64) -> (r: u64)
        ensures
            r == match self@ {
                Some(n) => n.key,
                None => t_max,
            },
    {
        match self.best {
            Some(n) => n.key,
            None => t_max,
        }
    }

    /// Takes member `index`'s hit at `key`. It becomes the nearest hit if
    /// there was none, or if it is strictly nearer than the one there was.
    pub fn offer(&mut self, index: usize, key: u64) -> (accepted: bool)
        ensures
            accepted == match old(self)@ {
                Some(n) => key < n.key,
                None => true,
            },
            final(self)@ == if accepted {
                Some(Nearest { index, key })
            } else {
                old(self)@
            },
    {
        let accepted = match self.best {
            Some(n) => key < n.key,
            None => true,
        };
        if accepted {
            self.best = Some(Nearest { index, key });
        }
        accepted
    }

    /// The nearest hit found.
    pub fn nearest(&self) -> (r: Option<Nearest>)
        ensures
            r == self@,
    {
        self.best
    }
}

/// The key of an optional nearest hit.
pub open spec fn key_of(n: Option<Nearest>) -> Option<u64> {
    match n {
        Some(n) => Some(n.key),
        None => None,
    }
}

/// Runs a query over the hits of all members, in order: `keys[i]` is the key
/// of member `i`'s hit, `None` for a miss. The result is the nearest hit,
/// the first member of least key where several share it.
pub fn closest(keys: &Vec<Option<u64>>) -> (r: Option<Nearest>)
    ensures
        key_of(r) == min_key(keys@),
        r matches Some(n) ==> {
            &&& n.index < keys@.len()
            &&& keys@[n.index as int] == Some(n.key)
            &&& forall|j: int| 0 <= j < n.index ==> (#[trigger] keys@[j] matches Some(k) ==> n.key < k)
        },
{
    let mut query = ClosestHit::new();
    let mut i: usize = 0;
    while i < keys.len()
        invariant
            i <= keys@.len(),
            key_of(query@) == min_key(keys@.subrange(0, i as int)),
            query@ matches Some(n) ==> {
                &&& n.index < i
                &&& keys@[n.index as int] == Some(n.key)
                &&& forall|j: int| 0 <= j < n.index ==> (#[trigger] keys@[j] matches Some(k) ==> n.key < k)
                &&& forall|j: int| 0 <= j < i ==> (#[trigger] keys@[j] matches Some(k) ==> n.key <= k)
            },
            query@ is None ==> forall|j: int| 0 <= j < i ==> keys@[j] is None,
        decreases keys@.len() - i,
    {
        assert(keys@.subrange(0, i + 1).drop_last() == keys@.subrange(0, i as int));
        if let Some(k) = keys[i] {
            query.offer(i, k);
        }
        i = i + 1;
    }
    assert(keys@.subrange(0, keys@.len() as int) == keys@);
    query.nearest()
}

} // verus!
