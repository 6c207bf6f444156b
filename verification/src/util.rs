//! Utilities.

use vstd::prelude::*;
use vstd::string::*;

verus! {

/// The text of the successful calls among `calls`, in order.
pub open spec fn texts<E>(calls: Seq<Result<String, E>>) -> Seq<char>
    decreases calls.len(),
{
    if calls.len() == 0 {
        Seq::empty()
    } else {
        texts(calls.drop_last()) + match calls.last() {
            Ok(s) => s@,
            Err(_) => Seq::empty(),
        }
    }
}

/// Call `j` of the writing of `items`: even calls format item `j / 2`, odd
/// calls write the spacer; `r` is what the call returned.
pub open spec fn call_made<T, E, FT: Fn(&T) -> Result<String, E>, FS: Fn() -> Result<String, E>>(
    items: Seq<T>,
    format: FT,
    format_spacer: FS,
    j: int,
    r: Result<String, E>,
) -> bool {
    if j % 2 == 0 {
        call_ensures(format, (&items[j / 2],), r)
    } else {
        call_ensures(format_spacer, (), r)
    }
}

/// The unit result of a call: its error, if it failed.
pub open spec fn unit_of<E>(c: Result<String, E>) -> Result<(), E> {
    match c {
        Ok(_) => Ok(()),
        Err(e) => Err(e),
    }
}

/// `a`, if it is an error; otherwise `b` (as `Result::and` gives it).
pub open spec fn and_unit<E>(a: Result<(), E>, b: Result<(), E>) -> Result<(), E> {
    match a {
        Err(e) => Err(e),
        Ok(_) => b,
    }
}

/// The result of the writing whose calls were `calls`: the first item's
/// error, if it failed; otherwise the error of the last step (its spacer's
/// error first), if that step failed; otherwise success.
pub open spec fn writing_result<E>(calls: Seq<Result<String, E>>) -> Result<(), E> {
    if calls.len() == 0 {
        Ok(())
    } else {
        and_unit(
            unit_of(calls[0]),
            if calls.len() >= 3 {
                and_unit(unit_of(calls[calls.len() - 2]), unit_of(calls[calls.len() - 1]))
            } else {
                Ok(())
            },
        )
    }
}

/// Format an iterator pointwise with a spacer. The first item is formatted;
/// then, whatever that gave, each further item is written as the spacer and
/// then the item, both calls made, until a step in which either fails. The
/// result is the first item's error if it failed, else the failing step's
/// error (the spacer's first), else success. The text of each successful call
/// is written onto `out`.
pub fn format_iter_with_spacer<T, E, FT: Fn(&T) -> Result<String, E>, FS: Fn() -> Result<String, E>>(
    items: &[T],
    out: &mut String,
    format: FT,
    format_spacer: FS,
) -> (r: Result<(), E>)
    requires
        forall|i: int| 0 <= i < items@.len() ==> call_requires(format, (&items@[i],)),
        call_requires(format_spacer, ()),
    ensures
        exists|calls: Seq<Result<String, E>>|
            {
                &&& items@.len() == 0 ==> calls.len() == 0
                &&& items@.len() > 0 ==> calls.len() % 2 == 1 && calls.len() <= 2 * items@.len() - 1
                &&& forall|j: int| 0 <= j < calls.len() ==> call_made(items@, format, format_spacer, j, #[trigger] calls[j])
                &&& forall|j: int| 1 <= j < calls.len() - 2 ==> #[trigger] calls[j] is Ok
                &&& (items@.len() > 0 && calls.len() < 2 * items@.len() - 1) ==> {
                    &&& calls.len() >= 3
                    &&& and_unit(unit_of(calls[calls.len() - 2]), unit_of(calls[calls.len() - 1])) is Err
                }
                &&& final(out)@ == old(out)@ + texts(calls)
                &&& r == writing_result(calls)
            },
{
    let n = items.len();
    let ghost mut calls: Seq<Result<String, E>> = Seq::empty();
    if n == 0 {
        assert(final(out)@ =~= old(out)@ + texts(calls));
        return Ok(());
    }
    let first = format(&items[0]);
    proof {
        calls = calls.push(first);
        assert(calls.drop_last() =~= Seq::<Result<String, E>>::empty());
        assert(call_made(items@, format, format_spacer, 0, calls[0]));
    }
    assert(texts(calls.drop_last()) =~= Seq::<char>::empty());
    match &first {
        Ok(s) => {
            out.append(s.as_str());
            assert(texts(calls) =~= s@);
        },
        Err(_) => {
            assert(texts(calls) =~= Seq::<char>::empty());
        },
    }
    assert(out@ =~= old(out)@ + texts(calls));
    let mut rest: Result<(), E> = Ok(());
    let mut stopped = false;
    let mut i: usize = 1;
    while i < n && !stopped
        invariant
            n == items@.len(),
            1 <= i <= n,
            forall|k: int| 0 <= k < items@.len() ==> call_requires(format, (&items@[k],)),
            call_requires(format_spacer, ()),
            calls.len() == 2 * i - 1,
            calls[0] == first,
            forall|j: int| 0 <= j < calls.len() ==> call_made(items@, format, format_spacer, j, #[trigger] calls[j]),
            forall|j: int| 1 <= j < calls.len() - 2 ==> #[trigger] calls[j] is Ok,
            !stopped ==> forall|j: int| 1 <= j < calls.len() ==> #[trigger] calls[j] is Ok,
            !stopped ==> rest == Ok::<(), E>(()),
            stopped ==> calls.len() >= 3 && rest == and_unit(
                unit_of(calls[calls.len() - 2]),
                unit_of(calls[calls.len() - 1]),
            ) && rest is Err,
            out@ == old(out)@ + texts(calls),
        decreases n - i,
    {
        let sp = format_spacer();
        proof {
            let c0 = calls;
            calls = calls.push(sp);
            assert(calls.drop_last() =~= c0);
            assert(call_made(items@, format, format_spacer, calls.len() - 1, calls.last()));
        }
        let mut sp_err: Option<E> = None;
        match sp {
            Ok(s) => {
                out.append(s.as_str());
            },
            Err(e) => {
                sp_err = Some(e);
            },
        }
        assert(out@ =~= old(out)@ + texts(calls));
        let piece = format(&items[i]);
        proof {
            let c0 = calls;
            calls = calls.push(piece);
            assert(calls.drop_last() =~= c0);
            assert((calls.len() - 1) / 2 == i);
            assert(call_made(items@, format, format_spacer, calls.len() - 1, calls.last()));
        }
        let mut piece_err: Option<E> = None;
        match piece {
            Ok(s) => {
                out.append(s.as_str());
            },
            Err(e) => {
                piece_err = Some(e);
            },
        }
        assert(out@ =~= old(out)@ + texts(calls));
        match sp_err {
            Some(e) => {
                rest = Err(e);
                stopped = true;
            },
            None => match piece_err {
                Some(e) => {
                    rest = Err(e);
                    stopped = true;
                },
                None => {},
            },
        }
        i = i + 1;
    }
    match first {
        Err(e) => Err(e),
        Ok(_) => rest,
    }
}

} // verus!
