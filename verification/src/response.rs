//! The rate-limit envelope: response data wrapped with the rate-limit
//! snapshot of the call that produced it, and the combinators that map,
//! iterate and merge such envelopes.

use vstd::prelude::*;

verus! {

/// A value paired with rate-limit information.
///
/// Any function that resolves a rate-limited method of the API returns its
/// result inside this wrapper, so the quota state can be checked inline
/// without a second call. The three counters use the sentinel `-1` for
/// "not reported by the server"; no other value is a sentinel.
///
/// The snapshot is fixed at construction: of all combinators only
/// [`Response::map`] replaces the payload, and none replaces the snapshot.
/// Payload and snapshot are plain public fields, so reading or writing the
/// payload needs no unwrapping.
#[derive(Debug)]
pub struct Response<T> {
    /// The rate limit ceiling for the given request.
    pub rate_limit: i32,
    /// The number of requests left for the current rate window.
    pub rate_limit_remaining: i32,
    /// The UTC Unix timestamp at which the rate window resets.
    pub rate_limit_reset: i32,
    /// The decoded response from the request.
    pub response: T,
}

impl<T> Response<T> {
    /// The rate-limit snapshot as a triple: ceiling, remaining, reset time.
    pub open spec fn snapshot(self) -> (i32, i32, i32) {
        (self.rate_limit, self.rate_limit_remaining, self.rate_limit_reset)
    }

    /// Builds an envelope from a snapshot triple and a payload.
    pub fn from_snapshot(snap: (i32, i32, i32), response: T) -> (r: Response<T>)
        ensures
            r.snapshot() == snap,
            r.response == response,
    {
        Response {
            rate_limit: snap.0,
            rate_limit_remaining: snap.1,
            rate_limit_reset: snap.2,
            response,
        }
    }

    /// Converts a `Response<T>` to a `Response<U>` by running its contained
    /// payload through the given function, exactly once. The rate-limit
    /// snapshot is carried over unchanged.
    ///
    /// This is an associated function rather than a method, so that it
    /// cannot conflict with a method of the contained `T`.
    pub fn map<F: FnOnce(T) -> U, U>(src: Response<T>, fun: F) -> (r: Response<U>)
        requires
            call_requires(fun, (src.response,)),
        ensures
            r.snapshot() == src.snapshot(),
            call_ensures(fun, (src.response,), r.response),
    {
        Response {
            rate_limit: src.rate_limit,
            rate_limit_remaining: src.rate_limit_remaining,
            rate_limit_reset: src.rate_limit_reset,
            response: fun(src.response),
        }
    }
}

impl<T> Response<Vec<T>> {
    /// Returns an iterator that yields references into the contained
    /// collection, each wrapped in an envelope carrying this envelope's
    /// rate-limit snapshot.
    pub fn iter<'a>(&'a self) -> (r: ResponseIterRef<'a, T>)
        ensures
            r.wf(),
            r.snapshot() == self.snapshot(),
            r.remaining() == self.response@,
    {
        ResponseIterRef {
            rate_limit: self.rate_limit,
            rate_limit_remaining: self.rate_limit_remaining,
            rate_limit_reset: self.rate_limit_reset,
            elems: &self.response,
            front: 0,
            back: self.response.len(),
        }
    }

    /// Returns a cursor for iterating over the contained collection with
    /// mutable access to its elements.
    ///
    /// The cursor copies this envelope's rate-limit snapshot and wraps
    /// every yielded element in an envelope carrying that copy. Because a
    /// cursor holds no borrow, the envelope is handed to each call of
    /// [`ResponseIterMut::next`] or [`ResponseIterMut::next_back`]
    /// alongside the cursor.
    pub fn iter_mut(&mut self) -> (r: ResponseIterMut)
        ensures
            *final(self) == *old(self),
            r.snapshot() == old(self).snapshot(),
            r.lo() == 0,
            r.hi() == old(self).response@.len(),
    {
        ResponseIterMut {
            rate_limit: self.rate_limit,
            rate_limit_remaining: self.rate_limit_remaining,
            rate_limit_reset: self.rate_limit_reset,
            front: 0,
            back: self.response.len(),
        }
    }

    /// Consumes the envelope into an iterator that yields the elements of
    /// the contained collection by value, each wrapped in an envelope
    /// carrying this envelope's rate-limit snapshot.
    pub fn into_iter(self) -> (r: ResponseIter<T>)
        ensures
            r.snapshot() == self.snapshot(),
            r.remaining() == self.response@,
    {
        ResponseIter {
            rate_limit: self.rate_limit,
            rate_limit_remaining: self.rate_limit_remaining,
            rate_limit_reset: self.rate_limit_reset,
            elems: self.response,
        }
    }
}

/// Iterator over `&Response<Vec<T>>`, returned by [`Response::iter`].
///
/// Yields the elements in their original order, front to back; the back end
/// can be consumed too for reverse traversal. Every yielded element comes
/// wrapped in an envelope holding an identical copy of the parent's
/// rate-limit snapshot, and the exact number of elements still to come is
/// always available through [`ResponseIterRef::len`].
pub struct ResponseIterRef<'a, T> {
    rate_limit: i32,
    rate_limit_remaining: i32,
    rate_limit_reset: i32,
    elems: &'a Vec<T>,
    front: usize,
    back: usize,
}

impl<'a, T> ResponseIterRef<'a, T> {
    /// The cursors stand inside the collection.
    pub closed spec fn wf(self) -> bool {
        self.front <= self.back <= self.elems@.len()
    }

    /// The snapshot every yielded envelope carries.
    pub closed spec fn snapshot(self) -> (i32, i32, i32) {
        (self.rate_limit, self.rate_limit_remaining, self.rate_limit_reset)
    }

    /// The elements not yet yielded, in order.
    pub closed spec fn remaining(self) -> Seq<T> {
        self.elems@.subrange(self.front as int, self.back as int)
    }

    /// Yields the next element from the front, or `None` when the
    /// iteration is exhausted.
    pub fn next(&mut self) -> (r: Option<Response<&'a T>>)
        requires
            old(self).wf(),
        ensures
            final(self).wf(),
            final(self).snapshot() == old(self).snapshot(),
            old(self).remaining().len() == 0 ==> r is None && final(self).remaining()
                == old(self).remaining(),
            old(self).remaining().len() > 0 ==> ({
                &&& final(self).remaining() == old(self).remaining().drop_first()
                &&& r matches Some(resp) && resp.snapshot() == old(self).snapshot()
                    && *resp.response == old(self).remaining()[0]
            }),
    {
        if self.front < self.back {
            let v: &'a Vec<T> = self.elems;
            let e: &'a T = &v[self.front];
            self.front = self.front + 1;
            proof {
                assert(self.remaining() =~= old(self).remaining().drop_first());
            }
            Some(Response {
                rate_limit: self.rate_limit,
                rate_limit_remaining: self.rate_limit_remaining,
                rate_limit_reset: self.rate_limit_reset,
                response: e,
            })
        } else {
            None
        }
    }

    /// Yields the next element from the back, or `None` when the iteration
    /// is exhausted.
    pub fn next_back(&mut self) -> (r: Option<Response<&'a T>>)
        requires
            old(self).wf(),
        ensures
            final(self).wf(),
            final(self).snapshot() == old(self).snapshot(),
            old(self).remaining().len() == 0 ==> r is None && final(self).remaining()
                == old(self).remaining(),
            old(self).remaining().len() > 0 ==> ({
                &&& final(self).remaining() == old(self).remaining().drop_last()
                &&& r matches Some(resp) && resp.snapshot() == old(self).snapshot()
                    && *resp.response == old(self).remaining().last()
            }),
    {
        if self.front < self.back {
            let v: &'a Vec<T> = self.elems;
            self.back = self.back - 1;
            let e: &'a T = &v[self.back];
            proof {
                assert(self.remaining() =~= old(self).remaining().drop_last());
            }
            Some(Response {
                rate_limit: self.rate_limit,
                rate_limit_remaining: self.rate_limit_remaining,
                rate_limit_reset: self.rate_limit_reset,
                response: e,
            })
        } else {
            None
        }
    }

    /// The exact number of elements still to be yielded.
    pub fn len(&self) -> (n: usize)
        requires
            self.wf(),
        ensures
            n == self.remaining().len(),
    {
        self.back - self.front
    }

    /// Lower and upper bound on the elements still to be yielded; both
    /// bounds equal the exact remaining count.
    pub fn size_hint(&self) -> (r: (usize, Option<usize>))
        requires
            self.wf(),
        ensures
            r.0 == self.remaining().len(),
            r.1 == Some(self.remaining().len() as usize),
    {
        (self.back - self.front, Some(self.back - self.front))
    }
}

/// Cursor over a `Response<Vec<T>>` with mutable element access, returned
/// by [`Response::iter_mut`].
///
/// Yields the elements in their original order, front to back; the back
/// end can be consumed too for reverse traversal. Every yielded element
/// comes wrapped in an envelope holding an identical copy of the parent's
/// rate-limit snapshot, and the exact number of elements still to come is
/// always available through [`ResponseIterMut::len`].
///
/// The cursor holds positions, not a borrow: each call of `next` or
/// `next_back` takes the envelope being iterated, and the element it
/// yields borrows from that argument.
pub struct ResponseIterMut {
    rate_limit: i32,
    rate_limit_remaining: i32,
    rate_limit_reset: i32,
    front: usize,
    back: usize,
}

impl ResponseIterMut {
    /// The snapshot every yielded envelope carries.
    pub closed spec fn snapshot(self) -> (i32, i32, i32) {
        (self.rate_limit, self.rate_limit_remaining, self.rate_limit_reset)
    }

    /// The position of the next element to be yielded from the front.
    pub closed spec fn lo(self) -> int {
        self.front as int
    }

    /// The position one past the next element to be yielded from the back.
    pub closed spec fn hi(self) -> int {
        self.back as int
    }

    /// The cursors stand inside a collection of the given length.
    pub open spec fn fits(self, len: int) -> bool {
        0 <= self.lo() <= self.hi() <= len
    }

    /// Yields the next element from the front of the given envelope's
    /// collection, with mutable access, or `None` when the iteration is
    /// exhausted. The envelope's own snapshot and the other elements are
    /// left untouched.
    pub fn next<'b, T>(&mut self, src: &'b mut Response<Vec<T>>) -> (r: Option<
        Response<&'b mut T>,
    >)
        requires
            old(self).fits(old(src).response@.len() as int),
        ensures
            final(self).snapshot() == old(self).snapshot(),
            final(self).hi() == old(self).hi(),
            old(self).lo() >= old(self).hi() ==> ({
                &&& r is None
                &&& final(self).lo() == old(self).lo()
                &&& *final(src) == *old(src)
            }),
            old(self).lo() < old(self).hi() ==> ({
                &&& final(self).lo() == old(self).lo() + 1
                &&& r matches Some(resp)
                &&& resp.snapshot() == old(self).snapshot()
                &&& *resp.response == old(src).response@[old(self).lo()]
                &&& final(src).response@ == old(src).response@.update(
                    old(self).lo(),
                    *final(resp.response),
                )
                &&& final(src).snapshot() == old(src).snapshot()
            }),
    {
        if self.front < self.back {
            let i = self.front;
            self.front = i + 1;
            Some(Response {
                rate_limit: self.rate_limit,
                rate_limit_remaining: self.rate_limit_remaining,
                rate_limit_reset: self.rate_limit_reset,
                response: &mut src.response[i],
            })
        } else {
            None
        }
    }

    /// Yields the next element from the back of the given envelope's
    /// collection, with mutable access, or `None` when the iteration is
    /// exhausted. The envelope's own snapshot and the other elements are
    /// left untouched.
    pub fn next_back<'b, T>(&mut self, src: &'b mut Response<Vec<T>>) -> (r: Option<
        Response<&'b mut T>,
    >)
        requires
            old(self).fits(old(src).response@.len() as int),
        ensures
            final(self).snapshot() == old(self).snapshot(),
            final(self).lo() == old(self).lo(),
            old(self).lo() >= old(self).hi() ==> ({
                &&& r is None
                &&& final(self).hi() == old(self).hi()
                &&& *final(src) == *old(src)
            }),
            old(self).lo() < old(self).hi() ==> ({
                &&& final(self).hi() == old(self).hi() - 1
                &&& r matches Some(resp)
                &&& resp.snapshot() == old(self).snapshot()
                &&& *resp.response == old(src).response@[old(self).hi() - 1]
                &&& final(src).response@ == old(src).response@.update(
                    old(self).hi() - 1,
                    *final(resp.response),
                )
                &&& final(src).snapshot() == old(src).snapshot()
            }),
    {
        if self.front < self.back {
            let i = self.back - 1;
            self.back = i;
            Some(Response {
                rate_limit: self.rate_limit,
                rate_limit_remaining: self.rate_limit_remaining,
                rate_limit_reset: self.rate_limit_reset,
                response: &mut src.response[i],
            })
        } else {
            None
        }
    }

    /// The exact number of elements still to be yielded.
    pub fn len(&self) -> (n: usize)
        ensures
            n == self.hi() - self.lo() || (self.hi() < self.lo() && n == 0),
    {
        if self.back > self.front {
            self.back - self.front
        } else {
            0
        }
    }

    /// Lower and upper bound on the elements still to be yielded; both
    /// bounds equal the exact remaining count.
    pub fn size_hint(&self) -> (r: (usize, Option<usize>))
        ensures
            r.1 == Some(r.0),
            r.0 == self.hi() - self.lo() || (self.hi() < self.lo() && r.0 == 0),
    {
        let n = self.len();
        (n, Some(n))
    }
}

/// Iterator over an owned `Response<Vec<T>>`, returned by
/// [`Response::into_iter`].
///
/// Yields the elements by value in their original order; the back end can
/// be consumed too for reverse traversal. Every yielded element comes
/// wrapped in an envelope holding an identical copy of the parent's
/// rate-limit snapshot, and the exact number of elements still to come is
/// always available through [`ResponseIter::len`].
pub struct ResponseIter<T> {
    rate_limit: i32,
    rate_limit_remaining: i32,
    rate_limit_reset: i32,
    elems: Vec<T>,
}

impl<T> ResponseIter<T> {
    /// The snapshot every yielded envelope carries.
    pub closed spec fn snapshot(self) -> (i32, i32, i32) {
        (self.rate_limit, self.rate_limit_remaining, self.rate_limit_reset)
    }

    /// The elements not yet yielded, in order.
    pub closed spec fn remaining(self) -> Seq<T> {
        self.elems@
    }

    /// Yields the next element from the front, or `None` when the
    /// iteration is exhausted.
    pub fn next(&mut self) -> (r: Option<Response<T>>)
        ensures
            final(self).snapshot() == old(self).snapshot(),
            old(self).remaining().len() == 0 ==> r is None && final(self).remaining()
                == old(self).remaining(),
            old(self).remaining().len() > 0 ==> ({
                &&& final(self).remaining() == old(self).remaining().drop_first()
                &&& r matches Some(resp) && resp.snapshot() == old(self).snapshot()
                    && resp.response == old(self).remaining()[0]
            }),
    {
        if self.elems.len() > 0 {
            let e = self.elems.remove(0);
            proof {
                assert(self.remaining() =~= old(self).remaining().drop_first());
            }
            Some(Response {
                rate_limit: self.rate_limit,
                rate_limit_remaining: self.rate_limit_remaining,
                rate_limit_reset: self.rate_limit_reset,
                response: e,
            })
        } else {
            None
        }
    }

    /// Yields the next element from the back, or `None` when the iteration
    /// is exhausted.
    pub fn next_back(&mut self) -> (r: Option<Response<T>>)
        ensures
            final(self).snapshot() == old(self).snapshot(),
            old(self).remaining().len() == 0 ==> r is None && final(self).remaining()
                == old(self).remaining(),
            old(self).remaining().len() > 0 ==> ({
                &&& final(self).remaining() == old(self).remaining().drop_last()
                &&& r matches Some(resp) && resp.snapshot() == old(self).snapshot()
                    && resp.response == old(self).remaining().last()
            }),
    {
        match self.elems.pop() {
            Some(e) => Some(Response {
                rate_limit: self.rate_limit,
                rate_limit_remaining: self.rate_limit_remaining,
                rate_limit_reset: self.rate_limit_reset,
                response: e,
            }),
            None => None,
        }
    }

    /// The exact number of elements still to be yielded.
    pub fn len(&self) -> (n: usize)
        ensures
            n == self.remaining().len(),
    {
        self.elems.len()
    }

    /// Lower and upper bound on the elements still to be yielded; both
    /// bounds equal the exact remaining count.
    pub fn size_hint(&self) -> (r: (usize, Option<usize>))
        ensures
            r.0 == self.remaining().len(),
            r.1 == Some(self.remaining().len() as usize),
    {
        (self.elems.len(), Some(self.elems.len()))
    }
}

/// The "unknown" snapshot: nothing reported yet.
pub open spec fn unknown_snapshot() -> (i32, i32, i32) {
    (-1i32, -1i32, -1i32)
}

/// The reconciliation rule of [`merge`]: the item's snapshot replaces the
/// running one when its reset time is strictly later, or when the reset
/// times are equal and the item has strictly fewer requests remaining.
pub open spec fn adopt(run: (i32, i32, i32), item: (i32, i32, i32)) -> (i32, i32, i32) {
    if item.2 > run.2 || (item.2 == run.2 && item.1 < run.1) {
        item
    } else {
        run
    }
}

/// The snapshot that [`merge`] reconciles from a sequence of envelopes:
/// a left fold of [`adopt`] starting from the unknown snapshot.
pub open spec fn merged_snapshot<T>(items: Seq<Response<T>>) -> (i32, i32, i32)
    decreases items.len(),
{
    if items.len() == 0 {
        unknown_snapshot()
    } else {
        adopt(merged_snapshot(items.drop_last()), items.last().snapshot())
    }
}

/// Merging a single envelope whose reset time is known keeps its
/// snapshot as it is: the known reset time beats the unknown one, so the
/// whole snapshot is adopted.
pub proof fn lemma_merge_single<T>(r: Response<T>)
    requires
        r.rate_limit_reset > -1,
    ensures
        merged_snapshot(seq![r]) == r.snapshot(),
{
    assert(seq![r].drop_last() =~= Seq::<Response<T>>::empty());
    assert(merged_snapshot(Seq::<Response<T>>::empty()) == unknown_snapshot());
    assert(seq![r].last() == r);
    assert(merged_snapshot(seq![r]) == adopt(unknown_snapshot(), r.snapshot()));
}

/// The reconciled reset time never moves backwards: appending one more
/// envelope to the input can only keep or raise it.
pub proof fn lemma_merged_reset_monotone<T>(items: Seq<Response<T>>, r: Response<T>)
    ensures
        merged_snapshot(items.push(r)).2 >= merged_snapshot(items).2,
{
    assert(items.push(r).drop_last() =~= items);
    assert(items.push(r).last() == r);
}

/// Collects many single envelopes into one envelope of a collection,
/// reconciling their snapshots.
///
/// The payloads are appended in input order, every one of them, no matter
/// which snapshot wins. The snapshot starts unknown and each item's
/// snapshot is adopted or ignored by the [`adopt`] rule, in input order.
/// An empty input yields the unknown snapshot and an empty collection.
pub fn merge<T>(items: Vec<Response<T>>) -> (r: Response<Vec<T>>)
    ensures
        r.snapshot() == merged_snapshot(items@),
        r.response@.len() == items@.len(),
        forall|i: int| 0 <= i < items@.len() ==> r.response@[i] == items@[i].response,
{
    let ghost orig: Seq<Response<T>> = items@;
    let mut rest = items;
    let mut resp: Response<Vec<T>> = Response {
        rate_limit: -1,
        rate_limit_remaining: -1,
        rate_limit_reset: -1,
        response: Vec::new(),
    };
    while rest.len() > 0
        invariant
            rest@ == orig.subrange(orig.len() - rest@.len(), orig.len() as int),
            resp.response@.len() == orig.len() - rest@.len(),
            forall|i: int|
                0 <= i < resp.response@.len() ==> resp.response@[i] == orig[i].response,
            resp.snapshot() == merged_snapshot(orig.subrange(0, orig.len() - rest@.len())),
        decreases rest@.len(),
    {
        let ghost done: int = orig.len() - rest@.len();
        let item = rest.remove(0);
        proof {
            assert(item == orig[done]);
            assert(rest@ =~= orig.subrange(orig.len() - rest@.len(), orig.len() as int));
        }
        if item.rate_limit_reset > resp.rate_limit_reset {
            resp.rate_limit = item.rate_limit;
            resp.rate_limit_remaining = item.rate_limit_remaining;
            resp.rate_limit_reset = item.rate_limit_reset;
        } else if item.rate_limit_reset == resp.rate_limit_reset
            && item.rate_limit_remaining < resp.rate_limit_remaining {
            resp.rate_limit = item.rate_limit;
            resp.rate_limit_remaining = item.rate_limit_remaining;
            resp.rate_limit_reset = item.rate_limit_reset;
        }
        resp.response.push(item.response);
        proof {
            let pre = orig.subrange(0, done);
            let cur = orig.subrange(0, done + 1);
            assert(cur.drop_last() =~= pre);
            assert(cur.last() == orig[done]);
        }
    }
    proof {
        assert(orig.subrange(0, orig.len() as int) =~= orig);
    }
    resp
}

} // verus!
