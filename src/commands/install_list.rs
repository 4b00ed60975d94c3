//! Listing the versions that can be installed.
use vstd::prelude::*;
use crate::input_version::versions_view;
use crate::version::{lemma_version_order, version_eq, version_lt, Version, VersionModel};

verus! {

/// The listing of the versions that the mirror offers.
#[derive(Debug)]
pub struct InstallList {}

/// `vs[j]` is the first of `vs` with its precedence.
pub open spec fn first_of_its_precedence(vs: Seq<VersionModel>, j: int) -> bool {
    forall|k: int| 0 <= k < j ==> !version_eq(#[trigger] vs[k], vs[j])
}

pub open spec fn strictly_increasing(rs: Seq<VersionModel>) -> bool {
    forall|a: int, b: int| 0 <= a < b < rs.len() ==> version_lt(#[trigger] rs[a], #[trigger] rs[b])
}

proof fn lemma_no_equal(rv: Seq<VersionModel>, p: int, x: VersionModel)
    requires
        strictly_increasing(rv),
        0 <= p <= rv.len(),
        forall|a: int| 0 <= a < p ==> version_lt(#[trigger] rv[a], x),
        p < rv.len() ==> !version_lt(rv[p], x) && !version_eq(rv[p], x),
    ensures
        forall|a: int| 0 <= a < rv.len() ==> !version_eq(#[trigger] rv[a], x),
        p < rv.len() ==> version_lt(x, rv[p]),
{
    if p < rv.len() {
        lemma_version_order(x, rv[p], rv[p]);
    }
    assert forall|a: int| 0 <= a < rv.len() implies !version_eq(#[trigger] rv[a], x) by {
        lemma_version_order(rv[a], x, x);
        if a > p {
            lemma_version_order(x, rv[p], rv[a]);
            lemma_version_order(rv[a], x, rv[p]);
        }
    };
}

proof fn lemma_insert_in_order(rv: Seq<VersionModel>, p: int, x: VersionModel)
    requires
        strictly_increasing(rv),
        0 <= p <= rv.len(),
        forall|a: int| 0 <= a < p ==> version_lt(#[trigger] rv[a], x),
        p < rv.len() ==> version_lt(x, rv[p]),
    ensures
        strictly_increasing(rv.insert(p, x)),
{
    let nv = rv.insert(p, x);
    assert forall|a: int, b: int| 0 <= a < b < nv.len() implies version_lt(
        #[trigger] nv[a],
        #[trigger] nv[b],
    ) by {
        if b == p {
            assert(nv[a] == rv[a]);
        } else if a == p {
            assert(nv[b] == rv[b - 1]);
            if b - 1 > p {
                lemma_version_order(x, rv[p], rv[b - 1]);
            }
        } else if a < p && b < p {
            assert(nv[a] == rv[a] && nv[b] == rv[b]);
        } else if a < p {
            assert(nv[a] == rv[a] && nv[b] == rv[b - 1]);
        } else {
            assert(nv[a] == rv[a - 1] && nv[b] == rv[b - 1]);
        }
    };
}

impl InstallList {
    /// The versions in increasing order, each precedence once: the first
    /// version of each precedence is kept, as a stable sort followed by
    /// removing repeats keeps it.
    #[verifier::rlimit(40)]
    pub fn sorted_unique(versions: &Vec<Version>) -> (r: Vec<Version>)
        ensures
            strictly_increasing(versions_view(r@)),
            kept_from(versions_view(versions@), versions_view(r@)),
            all_represented(versions_view(versions@), versions_view(r@)),
    {
        let ghost vs = versions_view(versions@);
        let mut r: Vec<Version> = Vec::new();
        // where each kept version comes from, and where each read version went
        let ghost mut src: Seq<int> = Seq::empty();
        let ghost mut home: Seq<int> = Seq::empty();
        let mut i: usize = 0;
        while i < versions.len()
            invariant
                i <= versions@.len(),
                vs == versions_view(versions@),
                kept_invariant(vs, versions_view(r@), src, home, i as int),
            decreases versions@.len() - i,
        {
            let x = &versions[i];
            assert(vs[i as int] == x@);
            let ghost rv = versions_view(r@);
            let mut p: usize = 0;
            while p < r.len() && matches!(r[p].compare(x), std::cmp::Ordering::Less)
                invariant
                    p <= r@.len(),
                    rv == versions_view(r@),
                    forall|a: int| 0 <= a < p ==> version_lt(#[trigger] rv[a], x@),
                decreases r@.len() - p,
            {
                assert(rv[p as int] == r@[p as int]@);
                p += 1;
            }
            let equal = p < r.len() && matches!(r[p].compare(x), std::cmp::Ordering::Equal);
            if p < r.len() {
                assert(rv[p as int] == r@[p as int]@);
            }
            if !equal {
                let c = x.copy();
                r.insert(p, c);
                proof {
                    assert(versions_view(r@) =~= rv.insert(p as int, x@));
                    lemma_keep_new(vs, rv, src, home, i as int, p as int);
                    src = src.insert(p as int, i as int);
                    home = Seq::new(
                        home.len(),
                        |j: int|
                            if home[j] >= p {
                                home[j] + 1
                            } else {
                                home[j]
                            },
                    ).push(p as int);
                }
            } else {
                proof {
                    lemma_keep_repeat(vs, rv, src, home, i as int, p as int);
                    home = home.push(p as int);
                }
            }
            i += 1;
        }
        proof {
            lemma_finish(vs, versions_view(r@), src, home);
        }
        r
    }
}

/// `x` is the first of `vs` with its precedence.
pub open spec fn first_copy_in(vs: Seq<VersionModel>, x: VersionModel) -> bool {
    exists|j: int| 0 <= j < vs.len() && x == #[trigger] vs[j] && first_of_its_precedence(vs, j)
}

/// Some version of `rv` has the precedence of `x`.
pub open spec fn has_equal(rv: Seq<VersionModel>, x: VersionModel) -> bool {
    exists|a: int| 0 <= a < rv.len() && version_eq(x, #[trigger] rv[a])
}

/// Each kept version is the first of its precedence among `vs`.
pub open spec fn kept_from(vs: Seq<VersionModel>, rv: Seq<VersionModel>) -> bool {
    forall|a: int| 0 <= a < rv.len() ==> #[trigger] first_copy_in(vs, rv[a])
}

/// Each of `vs` has a kept version of equal precedence.
pub open spec fn all_represented(vs: Seq<VersionModel>, rv: Seq<VersionModel>) -> bool {
    forall|j: int| 0 <= j < vs.len() ==> #[trigger] has_equal(rv, vs[j])
}

proof fn lemma_finish(vs: Seq<VersionModel>, rv: Seq<VersionModel>, src: Seq<int>, home: Seq<int>)
    requires
        kept_invariant(vs, rv, src, home, vs.len() as int),
    ensures
        kept_from(vs, rv),
        all_represented(vs, rv),
{
    assert forall|j: int| 0 <= j < vs.len() implies #[trigger] has_equal(rv, vs[j]) by {
        assert(0 <= home[j] < rv.len());
        assert(version_eq(vs[j], rv[home[j]]));
    };
    assert forall|a: int| 0 <= a < rv.len() implies #[trigger] first_copy_in(vs, rv[a]) by {
        assert(0 <= src[a]);
        assert(rv[a] == vs[src[a]]);
    };
}

/// The state of the listing after reading `i` versions: the kept versions
/// `rv` increase; `src` gives, for each, the first read version of its
/// precedence; `home` gives, for each read version, the kept one of equal
/// precedence.
pub open spec fn kept_invariant(
    vs: Seq<VersionModel>,
    rv: Seq<VersionModel>,
    src: Seq<int>,
    home: Seq<int>,
    i: int,
) -> bool {
    &&& 0 <= i <= vs.len()
    &&& strictly_increasing(rv)
    &&& src.len() == rv.len()
    &&& forall|a: int|
        0 <= a < rv.len() ==> 0 <= #[trigger] src[a] < i && rv[a] == vs[src[a]]
            && first_of_its_precedence(vs, src[a])
    &&& home.len() == i
    &&& forall|j: int| 0 <= j < i ==> 0 <= #[trigger] home[j] < rv.len() && version_eq(vs[j], rv[home[j]])
}

proof fn lemma_keep_repeat(vs: Seq<VersionModel>, rv: Seq<VersionModel>, src: Seq<int>, home: Seq<int>, i: int, p: int)
    requires
        kept_invariant(vs, rv, src, home, i),
        i < vs.len(),
        0 <= p < rv.len(),
        version_eq(rv[p], vs[i]),
    ensures
        kept_invariant(vs, rv, src, home.push(p), i + 1),
{
    let nh = home.push(p);
    assert forall|j: int| 0 <= j < i + 1 implies 0 <= #[trigger] nh[j] < rv.len() && version_eq(vs[j], rv[nh[j]]) by {
        if j < i {
            assert(nh[j] == home[j]);
        }
    };
}

proof fn lemma_keep_new(vs: Seq<VersionModel>, rv: Seq<VersionModel>, src: Seq<int>, home: Seq<int>, i: int, p: int)
    requires
        kept_invariant(vs, rv, src, home, i),
        i < vs.len(),
        0 <= p <= rv.len(),
        forall|a: int| 0 <= a < p ==> version_lt(#[trigger] rv[a], vs[i]),
        p < rv.len() ==> !version_lt(rv[p], vs[i]) && !version_eq(rv[p], vs[i]),
    ensures
        kept_invariant(
            vs,
            rv.insert(p, vs[i]),
            src.insert(p, i),
            Seq::new(home.len(), |j: int| if home[j] >= p { home[j] + 1 } else { home[j] }).push(p),
            i + 1,
        ),
{
    let x = vs[i];
    lemma_no_equal(rv, p, x);
    lemma_insert_in_order(rv, p, x);
    let nv = rv.insert(p, x);
    let ns = src.insert(p, i);
    let nh = Seq::new(home.len(), |j: int| if home[j] >= p { home[j] + 1 } else { home[j] }).push(p);
    assert(first_of_its_precedence(vs, i)) by {
        assert forall|k: int| 0 <= k < i implies !version_eq(#[trigger] vs[k], vs[i]) by {
            let a = home[k];
            assert(version_eq(vs[k], rv[a]));
            assert(!version_eq(rv[a], x));
        };
    };
    assert forall|a: int| 0 <= a < nv.len() implies 0 <= #[trigger] ns[a] < i + 1 && nv[a] == vs[ns[a]]
        && first_of_its_precedence(vs, ns[a]) by {
        if a < p {
            assert(ns[a] == src[a] && nv[a] == rv[a]);
        } else if a > p {
            assert(ns[a] == src[a - 1] && nv[a] == rv[a - 1]);
        }
    };
    assert forall|j: int| 0 <= j < i + 1 implies 0 <= #[trigger] nh[j] < nv.len() && version_eq(vs[j], nv[nh[j]]) by {
        if j < i {
            if home[j] >= p {
                assert(nv[home[j] + 1] == rv[home[j]]);
            } else {
                assert(nv[home[j]] == rv[home[j]]);
            }
        } else {
            assert(nv[p] == x);
        }
    };
}

} // verus!
