//! The consumer's subscription bookkeeping: the topics the user asked for,
//! and the topics the whole group has subscribed to.
use vstd::prelude::*;

use crate::cluster::clone_bytes;
use crate::metadata::bytes_eq;

verus! {

/// Whether a run of names holds one with the given bytes.
pub open spec fn names_contain(s: Seq<Vec<u8>>, x: Seq<u8>) -> bool {
    exists|i: int| 0 <= i < s.len() && (#[trigger] s[i])@ == x
}

/// No name occurs twice in the run.
pub open spec fn names_distinct(s: Seq<Vec<u8>>) -> bool {
    forall|i: int, j: int| 0 <= i < j < s.len() ==> (#[trigger] s[i])@ != (#[trigger] s[j])@
}

/// What membership becomes when one name is appended.
pub proof fn lemma_contain_push(s: Seq<Vec<u8>>, e: Vec<u8>, x: Seq<u8>)
    ensures
        names_contain(s.push(e), x) <==> (names_contain(s, x) || e@ == x),
{
    if names_contain(s, x) {
        let w = choose|w: int| 0 <= w < s.len() && (#[trigger] s[w])@ == x;
        assert(s.push(e)[w]@ == x);
    }
    if e@ == x {
        assert(s.push(e)[s.len() as int]@ == x);
    }
    if names_contain(s.push(e), x) {
        let w = choose|w: int| 0 <= w < s.push(e).len() && (#[trigger] s.push(e)[w])@ == x;
        if w < s.len() {
            assert(s[w]@ == x);
        }
    }
}

/// The topic sets a consumer tracks.
pub struct Subscriptions {
    /// The topics the user has requested.
    pub subscription: Vec<Vec<u8>>,
    /// The topics the whole group has subscribed to; grows on every
    /// subscribe and is read by the group leader on assignment.
    pub group_subscription: Vec<Vec<u8>>,
}

impl Subscriptions {
    /// Both sets hold each name at most once.
    pub open spec fn wf(self) -> bool {
        &&& names_distinct(self.subscription@)
        &&& names_distinct(self.group_subscription@)
    }

    pub fn new() -> (r: Self)
        ensures
            r.subscription@.len() == 0,
            r.group_subscription@.len() == 0,
            r.wf(),
    {
        Subscriptions { subscription: Vec::new(), group_subscription: Vec::new() }
    }

    /// A subscription holding the given topics, deduplicated, in both sets.
    pub fn with_topics(topic_names: Vec<Vec<u8>>) -> (r: Self)
        ensures
            r.wf(),
            forall|x: Seq<u8>|
                #![trigger names_contain(r.subscription@, x)]
                names_contain(r.subscription@, x) <==> names_contain(topic_names@, x),
            forall|x: Seq<u8>|
                #![trigger names_contain(r.group_subscription@, x)]
                names_contain(r.group_subscription@, x) <==> names_contain(topic_names@, x),
    {
        let subscription = dedup_names(&topic_names);
        let group_subscription = dedup_names(&topic_names);
        Subscriptions { subscription, group_subscription }
    }

    /// Replaces the user's topics and folds them into the group's set.
    pub fn subscribe(&mut self, topic_names: Vec<Vec<u8>>)
        requires
            old(self).wf(),
        ensures
            final(self).wf(),
            forall|x: Seq<u8>|
                #![trigger names_contain(final(self).subscription@, x)]
                names_contain(final(self).subscription@, x) <==> names_contain(topic_names@, x),
            forall|x: Seq<u8>|
                #![trigger names_contain(final(self).group_subscription@, x)]
                names_contain(final(self).group_subscription@, x) <==> (names_contain(
                    old(self).group_subscription@,
                    x,
                ) || names_contain(topic_names@, x)),
    {
        self.subscription = dedup_names(&topic_names);
        let merged = union_names(&self.group_subscription, &topic_names);
        self.group_subscription = merged;
    }
}

/// Copies the distinct names of a run, keeping first occurrences.
pub fn dedup_names(names: &Vec<Vec<u8>>) -> (r: Vec<Vec<u8>>)
    ensures
        names_distinct(r@),
        forall|x: Seq<u8>|
            #![trigger names_contain(r@, x)]
            names_contain(r@, x) <==> names_contain(names@, x),
{
    let mut out: Vec<Vec<u8>> = Vec::new();
    let n = names.len();
    let mut i: usize = 0;
    while i < n
        invariant
            i <= n,
            n == names@.len(),
            names_distinct(out@),
            forall|x: Seq<u8>|
                #![trigger names_contain(out@, x)]
                names_contain(out@, x) <==> names_contain(names@.take(i as int), x),
        decreases n - i,
    {
        let ghost before = out@;
        let present = contains_name(&out, &names[i]);
        if !present {
            out.push(clone_bytes(&names[i]));
            proof {
                assert forall|ii: int, jj: int|
                    0 <= ii < jj < out@.len() implies (#[trigger] out@[ii])@ != (#[trigger] out@[
                    jj
                ])@ by {
                    if jj < out@.len() - 1 {
                        assert(before[ii]@ != before[jj]@);
                    } else {
                        assert(!names_contain(before, out@[jj]@));
                        assert(before[ii] == out@[ii]);
                        if before[ii]@ == out@[jj]@ {
                            assert(names_contain(before, out@[jj]@));
                        }
                    }
                }
            }
        }
        proof {
            assert(names@.take(i + 1) =~= names@.take(i as int).push(names@[i as int]));
            assert forall|x: Seq<u8>|
                #![trigger names_contain(out@, x)]
                names_contain(out@, x) <==> names_contain(names@.take(i + 1), x) by {
                lemma_contain_push(names@.take(i as int), names@[i as int], x);
                if !present {
                    assert(out@ == before.push(out@[before.len() as int]));
                    lemma_contain_push(before, out@[before.len() as int], x);
                    assert(out@[before.len() as int]@ == names@[i as int]@);
                } else {
                    assert(out@ == before);
                    if names@[i as int]@ == x {
                        assert(names_contain(before, names@[i as int]@));
                        assert(names_contain(before, x));
                    }
                }
            }
        }
        i = i + 1;
    }
    proof {
        assert(names@.take(n as int) =~= names@);
    }
    out
}

/// Whether a run holds a name with the given bytes.
pub fn contains_name(names: &Vec<Vec<u8>>, x: &Vec<u8>) -> (r: bool)
    ensures
        r <==> names_contain(names@, x@),
{
    let n = names.len();
    let mut i: usize = 0;
    while i < n
        invariant
            i <= n,
            n == names@.len(),
            forall|j: int| 0 <= j < i as int ==> (#[trigger] names@[j])@ != x@,
        decreases n - i,
    {
        if bytes_eq(&names[i], x) {
            return true;
        }
        i = i + 1;
    }
    proof {
        if names_contain(names@, x@) {
            let w = choose|w: int| 0 <= w < names@.len() && (#[trigger] names@[w])@ == x@;
        }
    }
    false
}

/// The union of two runs of names, distinct, keeping the left run first.
pub fn union_names(left: &Vec<Vec<u8>>, right: &Vec<Vec<u8>>) -> (r: Vec<Vec<u8>>)
    requires
        names_distinct(left@),
    ensures
        names_distinct(r@),
        forall|x: Seq<u8>|
            #![trigger names_contain(r@, x)]
            names_contain(r@, x) <==> (names_contain(left@, x) || names_contain(right@, x)),
{
    let mut out: Vec<Vec<u8>> = Vec::new();
    let nl = left.len();
    let mut i: usize = 0;
    while i < nl
        invariant
            i <= nl,
            nl == left@.len(),
            out@.len() == i as int,
            forall|j: int| 0 <= j < i as int ==> (#[trigger] out@[j])@ == left@[j]@,
            names_distinct(left@),
        decreases nl - i,
    {
        out.push(clone_bytes(&left[i]));
        i = i + 1;
    }
    proof {
        assert forall|ii: int, jj: int|
            0 <= ii < jj < out@.len() implies (#[trigger] out@[ii])@ != (#[trigger] out@[jj])@ by {
            assert(left@[ii]@ != left@[jj]@);
        }
        assert forall|x: Seq<u8>|
            #![trigger names_contain(out@, x)]
            names_contain(out@, x) <==> names_contain(left@, x) by {
            if names_contain(out@, x) {
                let w = choose|w: int| 0 <= w < out@.len() && (#[trigger] out@[w])@ == x;
                assert(left@[w]@ == x);
            }
            if names_contain(left@, x) {
                let w = choose|w: int| 0 <= w < left@.len() && (#[trigger] left@[w])@ == x;
                assert(out@[w]@ == x);
            }
        }
    }
    let nr = right.len();
    let mut k: usize = 0;
    let ghost base = out@;
    while k < nr
        invariant
            k <= nr,
            nr == right@.len(),
            names_distinct(out@),
            forall|x: Seq<u8>|
                #![trigger names_contain(out@, x)]
                names_contain(out@, x) <==> (names_contain(base, x) || names_contain(
                    right@.take(k as int),
                    x,
                )),
        decreases nr - k,
    {
        let ghost before = out@;
        let present = contains_name(&out, &right[k]);
        if !present {
            out.push(clone_bytes(&right[k]));
            proof {
                assert forall|ii: int, jj: int|
                    0 <= ii < jj < out@.len() implies (#[trigger] out@[ii])@ != (#[trigger] out@[
                    jj
                ])@ by {
                    if jj < out@.len() - 1 {
                        assert(before[ii]@ != before[jj]@);
                    } else {
                        assert(!names_contain(before, out@[jj]@));
                        assert(before[ii] == out@[ii]);
                        if before[ii]@ == out@[jj]@ {
                            assert(names_contain(before, out@[jj]@));
                        }
                    }
                }
            }
        }
        proof {
            assert(right@.take(k + 1) =~= right@.take(k as int).push(right@[k as int]));
            assert forall|x: Seq<u8>|
                #![trigger names_contain(out@, x)]
                names_contain(out@, x) <==> (names_contain(base, x) || names_contain(
                    right@.take(k + 1),
                    x,
                )) by {
                lemma_contain_push(right@.take(k as int), right@[k as int], x);
                if !present {
                    assert(out@ == before.push(out@[before.len() as int]));
                    lemma_contain_push(before, out@[before.len() as int], x);
                    assert(out@[before.len() as int]@ == right@[k as int]@);
                } else {
                    assert(out@ == before);
                    if right@[k as int]@ == x {
                        assert(names_contain(before, right@[k as int]@));
                        assert(names_contain(before, x));
                    }
                }
            }
        }
        k = k + 1;
    }
    proof {
        assert(right@.take(nr as int) =~= right@);
    }
    out
}

} // verus!
