//! Stepping through a list of fallible values.

use vstd::prelude::*;

use crate::util::iter::option::OkOr;

verus! {

/// A source of fallible values that can be stepped through in order.
pub trait ResultIteratorExt<T, E> {
    /// The resolved entries still ahead, in order.
    spec fn remaining_results(&self) -> Seq<Result<T, E>>;

    /// Steps to the next resolved entry; `None` once the source is spent.
    fn next_result(&mut self) -> (r: Option<Result<T, E>>)
        ensures
            old(self).remaining_results().len() == 0 ==> r is None && final(self).remaining_results() == old(self).remaining_results(),
            old(self).remaining_results().len() > 0 ==> r == Option::Some(
                old(self).remaining_results()[0],
            ) && final(self).remaining_results() == old(self).remaining_results().skip(1),
    ;
}

impl<T: Copy, E: Copy> ResultIteratorExt<T, E> for OkOr<T, E> {
    open spec fn remaining_results(&self) -> Seq<Result<T, E>> {
        if self.wf() {
            self.spec_remaining().map_values(
                |o: Option<T>|
                    match o {
                        Option::Some(v) => Result::<T, E>::Ok(v),
                        Option::None => Result::<T, E>::Err(self.spec_err()),
                    },
            )
        } else {
            Seq::empty()
        }
    }

    fn next_result(&mut self) -> (r: Option<Result<T, E>>) {
        if self.pos > self.items.len() {
            return Option::None;
        }
        let r = self.next();
        proof {
            let oldrr = old(self).remaining_results();
            let newrr = self.remaining_results();
            if old(self).spec_remaining().len() > 0 {
                assert(oldrr[0] == match old(self).spec_remaining()[0] {
                    Option::Some(v) => Result::<T, E>::Ok(v),
                    Option::None => Result::<T, E>::Err(old(self).spec_err()),
                });
                assert(newrr =~= oldrr.skip(1)) by {
                    assert forall|i: int| 0 <= i < newrr.len() implies newrr[i] == oldrr.skip(
                        1,
                    )[i] by {
                        assert(oldrr.skip(1)[i] == oldrr[i + 1]);
                        assert(self.spec_remaining()[i] == old(self).spec_remaining()[i + 1]) by {
                            assert(self.spec_remaining() == old(self).spec_remaining().skip(1));
                            assert(old(self).spec_remaining().skip(1)[i] == old(self).spec_remaining()[i + 1]);
                        }
                    }
                }
            } else {
                assert(newrr =~= oldrr);
            }
        }
        r
    }
}

} // verus!
