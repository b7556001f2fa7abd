//! The handler registry: caller-supplied callbacks keyed by identifier,
//! invoked in registration order for every matching event.

use vstd::prelude::*;
use vstd::string::StrSliceExecFns;

verus! {

/// A caller-supplied callback.  The library never implements this trait
/// itself: callers hand in their own handlers, so nothing is promised of
/// what `handle` does.
pub trait Handler {
    /// What a matching event carries to the handler.
    type Payload;

    /// Invoked once per matching event, with that event's payload.  The
    /// returned flag reports whether the handler succeeded; dispatch
    /// continues to the remaining handlers either way.
    fn handle(&self, data: &Self::Payload) -> bool;
}

/// Whether two texts hold the same characters.
pub fn str_eq(a: &str, b: &str) -> (r: bool)
    ensures
        r == (a@ == b@),
{
    let n = a.unicode_len();
    if n != b.unicode_len() {
        return false;
    }
    let mut i: usize = 0;
    while i < n
        invariant
            n == a@.len() && n == b@.len(),
            i <= n,
            forall|t: int| 0 <= t < i ==> a@[t] == b@[t],
        decreases n - i,
    {
        if a.get_char(i) != b.get_char(i) {
            return false;
        }
        i = i + 1;
    }
    proof {
        assert(a@ =~= b@);
    }
    true
}

/// The indices of the keys equal to `key`, in order.
pub open spec fn matching(keys: Seq<Seq<char>>, key: Seq<char>) -> Seq<int>
    decreases keys.len(),
{
    if keys.len() == 0 {
        Seq::empty()
    } else {
        let pre = matching(keys.drop_last(), key);
        if keys.last() == key {
            pre.push(keys.len() - 1)
        } else {
            pre
        }
    }
}

/// The matching indices are exactly the positions registered under the
/// key: an index is selected if and only if its key equals the given one.
pub proof fn lemma_matching_exact(keys: Seq<Seq<char>>, key: Seq<char>, i: int)
    ensures
        matching(keys, key).contains(i) <==> (0 <= i < keys.len() && keys[i] == key),
    decreases keys.len(),
{
    if keys.len() == 0 {
    } else {
        let pre = matching(keys.drop_last(), key);
        lemma_matching_exact(keys.drop_last(), key, i);
        if keys.last() == key {
            assert forall|x: int| pre.contains(x) implies matching(keys, key).contains(x) by {
                let w = choose|w: int| 0 <= w < pre.len() && pre[w] == x;
                assert(matching(keys, key)[w] == x);
            }
            if matching(keys, key).contains(i) {
                let w = choose|w: int|
                    0 <= w < matching(keys, key).len() && matching(keys, key)[w] == i;
                if w < pre.len() {
                    assert(pre[w] == i);
                    assert(pre.contains(i));
                }
            }
            assert(matching(keys, key)[pre.len() as int] == keys.len() - 1);
            assert(matching(keys, key).contains(keys.len() - 1));
        } else {
            assert(matching(keys, key) == pre);
        }
    }
}

/// The matching indices come in registration order: each lies in range,
/// and they increase strictly.
pub proof fn lemma_matching_ordered(keys: Seq<Seq<char>>, key: Seq<char>)
    ensures
        forall|i: int|
            0 <= i < matching(keys, key).len() ==> 0 <= #[trigger] matching(keys, key)[i]
                < keys.len(),
        forall|i: int, j: int|
            0 <= i < j < matching(keys, key).len() ==> matching(keys, key)[i] < matching(
                keys,
                key,
            )[j],
    decreases keys.len(),
{
    if keys.len() > 0 {
        lemma_matching_ordered(keys.drop_last(), key);
        let pre = matching(keys.drop_last(), key);
        let m = matching(keys, key);
        if keys.last() == key {
            assert(m == pre.push(keys.len() - 1));
            assert forall|i: int| 0 <= i < m.len() implies 0 <= #[trigger] m[i] < keys.len() by {
                if i < pre.len() {
                    assert(m[i] == pre[i]);
                } else {
                    assert(m[i] == keys.len() - 1);
                }
            }
            assert forall|i: int, j: int| 0 <= i < j < m.len() implies m[i] < m[j] by {
                assert(m[i] == pre[i]);
                if j < pre.len() {
                    assert(m[j] == pre[j]);
                } else {
                    assert(m[j] == keys.len() - 1);
                    assert(pre[i] < keys.drop_last().len());
                }
            }
        } else {
            assert(m == pre);
            assert forall|i: int| 0 <= i < m.len() implies 0 <= #[trigger] m[i] < keys.len() by {
                assert(m[i] == pre[i]);
            }
            assert forall|i: int, j: int| 0 <= i < j < m.len() implies m[i] < m[j] by {
                assert(m[i] == pre[i] && m[j] == pre[j]);
            }
        }
    }
}

/// A key under which nothing was registered matches nothing: dispatching
/// it invokes no handler and raises no error.
pub proof fn lemma_unmatched_key(keys: Seq<Seq<char>>, key: Seq<char>)
    requires
        !keys.contains(key),
    ensures
        matching(keys, key) == Seq::<int>::empty(),
    decreases keys.len(),
{
    if keys.len() > 0 {
        assert(keys.last() != key);
        assert forall|i: int| 0 <= i < keys.drop_last().len() implies keys.drop_last()[i] != key by {
            assert(keys.drop_last()[i] == keys[i]);
        }
        assert(!keys.drop_last().contains(key));
        lemma_unmatched_key(keys.drop_last(), key);
    }
}

/// An ordered collection of `(key, handler)` pairs.  Keys are compared by
/// exact character equality; several handlers may share a key, and one key
/// may be registered more than once.
pub struct Registry<H: Handler> {
    entries: Vec<(String, H)>,
}

impl<H: Handler> Registry<H> {
    /// The registration keys, in registration order.
    pub closed spec fn keys(self) -> Seq<Seq<char>> {
        self.entries@.map(|i: int, e: (String, H)| e.0@)
    }

    /// An empty registry.
    pub fn new() -> (r: Self)
        ensures
            r.keys() == Seq::<Seq<char>>::empty(),
    {
        let r = Registry { entries: Vec::new() };
        proof {
            assert(r.keys() =~= Seq::<Seq<char>>::empty());
        }
        r
    }

    /// Number of registered handlers.
    pub fn len(&self) -> (r: usize)
        ensures
            r == self.keys().len(),
    {
        self.entries.len()
    }

    /// Append a handler under a key.  No uniqueness is required and
    /// nothing is de-duplicated.
    pub fn register(&mut self, key: String, handler: H)
        ensures
            final(self).keys() == old(self).keys().push(key@),
    {
        let ghost k = key@;
        self.entries.push((key, handler));
        proof {
            assert(self.keys() =~= old(self).keys().push(k));
        }
    }

    /// Invoke, synchronously and in registration order, every handler
    /// whose key equals the given key.  The result pairs each invoked
    /// entry's index with the flag that its handler returned: exactly the
    /// matching entries are invoked, and a failing handler never stops a
    /// sibling from running.
    ///
    /// Reentrant mutation is forbidden, not merely tolerated: dispatch
    /// borrows the registry for its whole run and hands each handler only
    /// the payload, so a handler that tries to register or remove entries
    /// during its own invocation is rejected at compile time.
    pub fn dispatch(&self, key: &str, data: &H::Payload) -> (r: Vec<(usize, bool)>)
        ensures
            r@.map(|t: int, p: (usize, bool)| p.0 as int) == matching(self.keys(), key@),
    {
        let mut r: Vec<(usize, bool)> = Vec::new();
        let n = self.entries.len();
        let mut i: usize = 0;
        while i < n
            invariant
                n == self.entries@.len(),
                i <= n,
                r@.map(|t: int, p: (usize, bool)| p.0 as int) == matching(
                    self.keys().take(i as int),
                    key@,
                ),
            decreases n - i,
        {
            let ghost r0 = r@;
            let e = &self.entries[i];
            if str_eq(e.0.as_str(), key) {
                let flag = e.1.handle(data);
                r.push((i, flag));
            }
            proof {
                let ks = self.keys();
                assert(ks.take(i + 1).drop_last() =~= ks.take(i as int));
                assert(ks.take(i + 1).last() == ks[i as int]);
                assert(ks[i as int] == self.entries@[i as int].0@);
                if ks[i as int] == key@ {
                    assert(r@ =~= r0.push((i, r@.last().1)));
                    assert(r@.map(|t: int, p: (usize, bool)| p.0 as int) =~= matching(
                        ks.take(i + 1),
                        key@,
                    ));
                } else {
                    assert(r@.map(|t: int, p: (usize, bool)| p.0 as int) =~= matching(
                        ks.take(i + 1),
                        key@,
                    ));
                }
            }
            i = i + 1;
        }
        proof {
            assert(self.keys().take(n as int) =~= self.keys());
        }
        r
    }
}

} // verus!
