//! Stepping through a list of optional values.

use vstd::prelude::*;

verus! {

/// A source of optional values that can be stepped through in order.
pub trait OptionIteratorExt<T> {
    /// The optional entries still ahead, in order.
    spec fn remaining(&self) -> Seq<Option<T>>;

    /// Steps to the next optional entry; `None` once the source is spent.
    fn next_option(&mut self) -> (r: Option<Option<T>>)
        ensures
            old(self).remaining().len() == 0 ==> r is None && final(self).remaining() == old(self).remaining(),
            old(self).remaining().len() > 0 ==> r == Option::Some(old(self).remaining()[0])
                && final(self).remaining() == old(self).remaining().skip(1),
    ;
}

/// Steps through a list of optional values, resolving each to a result: a
/// present value becomes `Ok`, an absent one the given error.
pub struct OkOr<T, E> {
    /// The optional values, in order.
    pub items: Vec<Option<T>>,
    /// The error standing in for each absent value.
    pub err: E,
    /// How many entries have been stepped past.
    pub pos: usize,
}

impl<T: Copy, E: Copy> OkOr<T, E> {
    /// The cursor never runs past the end.
    pub open spec fn wf(self) -> bool {
        self.pos <= self.items@.len()
    }

    /// The optional entries still ahead, in order.
    pub open spec fn spec_remaining(self) -> Seq<Option<T>> {
        self.items@.skip(self.pos as int)
    }

    /// The error standing in for absent values, for contracts.
    pub open spec fn spec_err(self) -> E {
        self.err
    }

    /// Builds a stepper over the given optional values.
    pub fn new(items: Vec<Option<T>>, err: E) -> (r: OkOr<T, E>)
        ensures
            r.wf(),
            r.spec_remaining() == items@,
            r.spec_err() == err,
    {
        let r = OkOr { items, err, pos: 0 };
        proof {
            assert(r.items@.skip(0) =~= r.items@);
        }
        r
    }

    /// Steps to the next value, resolved to a result.
    pub fn next(&mut self) -> (r: Option<Result<T, E>>)
        requires
            old(self).wf(),
        ensures
            final(self).wf(),
            final(self).spec_err() == old(self).spec_err(),
            old(self).spec_remaining().len() == 0 ==> r is None && final(self).spec_remaining()
                == old(self).spec_remaining(),
            old(self).spec_remaining().len() > 0 ==> r == Option::Some(
                match old(self).spec_remaining()[0] {
                    Option::Some(v) => Result::<T, E>::Ok(v),
                    Option::None => Result::<T, E>::Err(old(self).spec_err()),
                },
            ) && final(self).spec_remaining() == old(self).spec_remaining().skip(1),
    {
        if self.pos < self.items.len() {
            let v = self.items[self.pos];
            self.pos = self.pos + 1;
            proof {
                assert(self.items@.skip(self.pos as int) =~= old(self).items@.skip(
                    old(self).pos as int,
                ).skip(1));
            }
            match v {
                Option::Some(x) => Option::Some(Result::Ok(x)),
                Option::None => Option::Some(Result::Err(self.err)),
            }
        } else {
            Option::None
        }
    }
}

impl<T: Copy, E: Copy> OptionIteratorExt<T> for OkOr<T, E> {
    open spec fn remaining(&self) -> Seq<Option<T>> {
        if self.pos <= self.items@.len() {
            self.items@.skip(self.pos as int)
        } else {
            Seq::empty()
        }
    }

    fn next_option(&mut self) -> (r: Option<Option<T>>) {
        if self.pos < self.items.len() {
            let v = self.items[self.pos];
            self.pos = self.pos + 1;
            proof {
                assert(self.items@.skip(self.pos as int) =~= old(self).items@.skip(
                    old(self).pos as int,
                ).skip(1));
            }
            Option::Some(v)
        } else {
            proof {
                if old(self).pos > old(self).items@.len() {
                    assert(old(self).remaining() == Seq::<Option<T>>::empty());
                }
            }
            Option::None
        }
    }
}

} // verus!
