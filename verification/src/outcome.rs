//! Sequences of outcomes, where the first failure decides, and sequences of
//! sequences laid end to end.

use vstd::prelude::*;

verus! {

/// The values of a sequence of outcomes if every one is a success, and
/// otherwise the first failure among them.
pub open spec fn all_or_first<T, E>(s: Seq<Result<T, E>>) -> Result<Seq<T>, E>
    decreases s.len(),
{
    if s.len() == 0 {
        Ok(Seq::empty())
    } else {
        match all_or_first(s.drop_last()) {
            Err(e) => Err(e),
            Ok(v) => match s.last() {
                Ok(x) => Ok(v.push(x)),
                Err(e) => Err(e),
            },
        }
    }
}

/// One more outcome at the end changes nothing after a failure, and
/// otherwise adds its value or becomes the failure.
pub proof fn lemma_all_or_first_step<T, E>(s: Seq<Result<T, E>>, k: int)
    requires
        0 <= k < s.len(),
    ensures
        all_or_first(s.take(k + 1)) == match all_or_first(s.take(k)) {
            Err(e) => Err(e),
            Ok(v) => match s[k] {
                Ok(x) => Ok(v.push(x)),
                Err(e) => Err(e),
            },
        },
{
    assert(s.take(k + 1).drop_last() =~= s.take(k));
    assert(s.take(k + 1).last() == s[k]);
}

/// A failure among the first `k` outcomes is the failure of the whole
/// sequence.
pub proof fn lemma_failure_stays<T, E>(s: Seq<Result<T, E>>, k: int)
    requires
        0 <= k <= s.len(),
        all_or_first(s.take(k)) is Err,
    ensures
        all_or_first(s) == all_or_first(s.take(k)),
    decreases s.len() - k,
{
    if k == s.len() {
        assert(s.take(k) =~= s);
    } else {
        lemma_all_or_first_step(s, k);
        lemma_failure_stays(s, k + 1);
    }
}

/// What [`all_or_first`] hands out: on success the value of every outcome,
/// in order; on failure the failure before which there are only successes.
pub proof fn lemma_all_or_first<T, E>(s: Seq<Result<T, E>>)
    ensures
        match all_or_first(s) {
            Ok(v) => v.len() == s.len() && forall|i: int| 0 <= i < s.len() ==> s[i] == Ok::<T, E>(v[i]),
            Err(e) => exists|i: int|
                0 <= i < s.len() && s[i] == Err::<T, E>(e) && forall|j: int|
                    0 <= j < i ==> (#[trigger] s[j]) is Ok,
        },
    decreases s.len(),
{
    if s.len() > 0 {
        let p = s.drop_last();
        lemma_all_or_first(p);
        match all_or_first(p) {
            Err(e) => {
                let i = choose|i: int|
                    0 <= i < p.len() && p[i] == Err::<T, E>(e) && forall|j: int|
                        0 <= j < i ==> (#[trigger] p[j]) is Ok;
                assert(s[i] == p[i]);
                assert forall|j: int| 0 <= j < i implies (#[trigger] s[j]) is Ok by {
                    assert(s[j] == p[j]);
                }
            },
            Ok(v) => match s.last() {
                Ok(x) => {
                    assert forall|i: int| 0 <= i < s.len() implies s[i] == Ok::<T, E>(
                        v.push(x)[i],
                    ) by {
                        if i < p.len() {
                            assert(s[i] == p[i]);
                        }
                    }
                },
                Err(e) => {
                    let i = s.len() - 1;
                    assert forall|j: int| 0 <= j < i implies (#[trigger] s[j]) is Ok by {
                        assert(s[j] == p[j]);
                    }
                },
            },
        }
    }
}

/// Where every outcome is a success, the values of all are handed out.
pub proof fn lemma_all_succeed<T, E>(s: Seq<Result<T, E>>, v: Seq<T>)
    requires
        v.len() == s.len(),
        forall|i: int| 0 <= i < s.len() ==> (#[trigger] s[i]) == Ok::<T, E>(v[i]),
    ensures
        all_or_first(s) == Ok::<Seq<T>, E>(v),
    decreases s.len(),
{
    if s.len() > 0 {
        let p = s.drop_last();
        let w = v.drop_last();
        assert forall|i: int| 0 <= i < p.len() implies (#[trigger] p[i]) == Ok::<T, E>(w[i]) by {
            assert(p[i] == s[i]);
        }
        lemma_all_succeed(p, w);
        assert(s.last() == s[s.len() - 1]);
        assert(w.push(v.last()) =~= v);
    } else {
        assert(v =~= Seq::<T>::empty());
    }
}

/// A failure before which there are only successes is the failure of the
/// whole sequence.
pub proof fn lemma_first_failure<T, E>(s: Seq<Result<T, E>>, k: int, e: E)
    requires
        0 <= k < s.len(),
        s[k] == Err::<T, E>(e),
        forall|i: int| 0 <= i < k ==> (#[trigger] s[i]) is Ok,
    ensures
        all_or_first(s) == Err::<Seq<T>, E>(e),
{
    lemma_prefix_succeeds(s, k);
    lemma_all_or_first_step(s, k);
    lemma_failure_stays(s, k + 1);
}

proof fn lemma_prefix_succeeds<T, E>(s: Seq<Result<T, E>>, k: int)
    requires
        0 <= k <= s.len(),
        forall|i: int| 0 <= i < k ==> (#[trigger] s[i]) is Ok,
    ensures
        all_or_first(s.take(k)) is Ok,
    decreases k,
{
    if k > 0 {
        lemma_prefix_succeeds(s, k - 1);
        lemma_all_or_first_step(s, k - 1);
    } else {
        assert(s.take(0) =~= Seq::<Result<T, E>>::empty());
    }
}

/// The sequences of `s` laid end to end.
pub open spec fn joined<T>(s: Seq<Seq<T>>) -> Seq<T>
    decreases s.len(),
{
    if s.len() == 0 {
        Seq::empty()
    } else {
        joined(s.drop_last()) + s.last()
    }
}

/// Laying one more sequence at the end appends it.
pub proof fn lemma_joined_step<T>(s: Seq<Seq<T>>, k: int)
    requires
        0 <= k < s.len(),
    ensures
        joined(s.take(k + 1)) == joined(s.take(k)) + s[k],
{
    assert(s.take(k + 1).drop_last() =~= s.take(k));
    assert(s.take(k + 1).last() == s[k]);
}

} // verus!
