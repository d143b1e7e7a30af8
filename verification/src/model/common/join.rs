//! Writing a list of items one after another, where writing an item may fail.
use crate::error::ErrorKind;
use vstd::prelude::*;

verus! {

/// The wire forms of `es`, in order, given by `f`; the first failure wins.
pub open spec fn spec_join<T>(es: Seq<T>, f: spec_fn(T) -> Result<Seq<u8>, ErrorKind>) -> Result<
    Seq<u8>,
    ErrorKind,
>
    decreases es.len(),
{
    if es.len() == 0 {
        Ok(Seq::empty())
    } else {
        match f(es[0]) {
            Err(e) => Err(e),
            Ok(b) => match spec_join(es.skip(1), f) {
                Err(e) => Err(e),
                Ok(r) => Ok(b + r),
            },
        }
    }
}

/// Writing one more item at the end.
pub proof fn lemma_join_push<T>(es: Seq<T>, x: T, f: spec_fn(T) -> Result<Seq<u8>, ErrorKind>)
    ensures
        spec_join(es.push(x), f) == match spec_join(es, f) {
            Err(e) => Err(e),
            Ok(b) => match f(x) {
                Err(e) => Err::<Seq<u8>, ErrorKind>(e),
                Ok(y) => Ok(b + y),
            },
        },
    decreases es.len(),
{
    let ex = es.push(x);
    if es.len() == 0 {
        assert(ex.skip(1) =~= Seq::<T>::empty());
        assert(ex[0] == x);
        assert(spec_join(ex.skip(1), f) == Ok::<Seq<u8>, ErrorKind>(Seq::empty()));
        assert(spec_join(es, f) == Ok::<Seq<u8>, ErrorKind>(Seq::empty()));
        match f(x) {
            Err(e) => {},
            Ok(y) => {
                assert(y + Seq::<u8>::empty() =~= Seq::<u8>::empty() + y);
                assert(spec_join(ex, f) == Ok::<Seq<u8>, ErrorKind>(y + Seq::<u8>::empty()));
            },
        }
    } else {
        lemma_join_push(es.skip(1), x, f);
        assert(ex.skip(1) =~= es.skip(1).push(x));
        assert(ex[0] == es[0]);
        match f(es[0]) {
            Err(e) => {},
            Ok(b0) => match spec_join(es.skip(1), f) {
                Err(e) => {},
                Ok(r) => match f(x) {
                    Err(e) => {},
                    Ok(y) => {
                        assert(b0 + (r + y) =~= b0 + r + y);
                    },
                },
            },
        }
    }
}


/// When the items before `i` are written and the item at `i` fails, writing
/// the whole list fails the same way.
pub proof fn lemma_join_prefix_fails<T>(
    all: Seq<T>,
    i: int,
    f: spec_fn(T) -> Result<Seq<u8>, ErrorKind>,
)
    requires
        0 <= i < all.len(),
        spec_join(all.take(i), f) is Ok,
        f(all[i]) is Err,
    ensures
        spec_join(all, f) == Err::<Seq<u8>, ErrorKind>(f(all[i])->Err_0),
    decreases i,
{
    if i > 0 {
        let p = all.take(i);
        assert(p[0] == all[0]);
        assert(p.skip(1) =~= all.skip(1).take(i - 1));
        assert(all.skip(1)[i - 1] == all[i]);
        lemma_join_prefix_fails(all.skip(1), i - 1, f);
    }
}

} // verus!
