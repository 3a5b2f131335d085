//! The output bucket aggregator: ordered line sequences keyed by an optional
//! file-type scope, created lazily on first access, with insertion order
//! preserved within each bucket.

use vstd::prelude::*;

use crate::text::extend_vec;

verus! {

/// One output bucket: the lines bound for one scope's output file.
pub struct Bucket {
    pub scope: Option<String>,
    pub lines: Vec<String>,
}

/// Mathematical form of a bucket.
pub ghost struct BucketV {
    pub scope: Option<Seq<char>>,
    pub lines: Seq<Seq<char>>,
}

impl DeepView for Bucket {
    type V = BucketV;

    open spec fn deep_view(&self) -> BucketV {
        BucketV { scope: self.scope.deep_view(), lines: self.lines.deep_view() }
    }
}

/// All output buckets of one run, in order of first access.
pub struct Buckets {
    pub buckets: Vec<Bucket>,
}

impl View for Buckets {
    type V = Seq<BucketV>;

    open spec fn view(&self) -> Seq<BucketV> {
        self.buckets.deep_view()
    }
}

/// Index of the bucket holding `scope`, or -1 when none does yet.
pub open spec fn scope_index(bs: Seq<BucketV>, scope: Option<Seq<char>>) -> int
    decreases bs.len(),
{
    if bs.len() == 0 {
        -1
    } else if bs[0].scope == scope {
        0
    } else if scope_index(bs.drop_first(), scope) < 0 {
        -1
    } else {
        1 + scope_index(bs.drop_first(), scope)
    }
}

/// The lines collected so far for `scope`; none when its bucket does not
/// exist yet.
pub open spec fn lines_of(bs: Seq<BucketV>, scope: Option<Seq<char>>) -> Seq<Seq<char>> {
    let i = scope_index(bs, scope);
    if i >= 0 {
        bs[i].lines
    } else {
        Seq::empty()
    }
}

/// `bs` after appending `ls` to the bucket of `scope`, creating that bucket
/// at the end when it does not exist yet — also when `ls` is empty, as a
/// first access alone already creates the bucket.
pub open spec fn append_to_scope(
    bs: Seq<BucketV>,
    scope: Option<Seq<char>>,
    ls: Seq<Seq<char>>,
) -> Seq<BucketV> {
    let i = scope_index(bs, scope);
    if i >= 0 {
        bs.update(i, BucketV { scope, lines: bs[i].lines + ls })
    } else {
        bs.push(BucketV { scope, lines: ls })
    }
}

/// Every scope owns at most one bucket.
pub open spec fn wf_buckets(bs: Seq<BucketV>) -> bool {
    forall|i: int, j: int| 0 <= i < j < bs.len() ==> bs[i].scope != bs[j].scope
}

pub proof fn lemma_scope_index_props(bs: Seq<BucketV>, scope: Option<Seq<char>>)
    ensures
        scope_index(bs, scope) < 0 ==> forall|j: int| 0 <= j < bs.len() ==> bs[j].scope != scope,
        scope_index(bs, scope) >= 0 ==> {
            &&& scope_index(bs, scope) < bs.len()
            &&& bs[scope_index(bs, scope)].scope == scope
            &&& forall|j: int| 0 <= j < scope_index(bs, scope) ==> bs[j].scope != scope
        },
    decreases bs.len(),
{
    if bs.len() == 0 {
    } else if bs[0].scope == scope {
    } else {
        lemma_scope_index_props(bs.drop_first(), scope);
        let t = bs.drop_first();
        if scope_index(t, scope) >= 0 {
            assert forall|j: int| 0 <= j < scope_index(bs, scope) implies bs[j].scope != scope by {
                if j > 0 {
                    assert(bs[j] == t[j - 1]);
                }
            }
        } else {
            assert forall|j: int| 0 <= j < bs.len() implies bs[j].scope != scope by {
                if j > 0 {
                    assert(bs[j] == t[j - 1]);
                }
            }
        }
    }
}

pub proof fn lemma_scope_index_at(bs: Seq<BucketV>, scope: Option<Seq<char>>, k: int)
    requires
        0 <= k < bs.len(),
        bs[k].scope == scope,
        forall|j: int| 0 <= j < k ==> bs[j].scope != scope,
    ensures
        scope_index(bs, scope) == k,
    decreases bs.len(),
{
    if k == 0 {
    } else {
        let t = bs.drop_first();
        assert(t[k - 1] == bs[k]);
        assert forall|j: int| 0 <= j < k - 1 implies t[j].scope != scope by {
            assert(t[j] == bs[j + 1]);
        }
        lemma_scope_index_at(t, scope, k - 1);
    }
}

/// How one append changes what each scope holds: the appended scope's lines
/// grow by exactly `ls` at the end, every other scope's lines are untouched.
pub proof fn lemma_append_lines(
    bs: Seq<BucketV>,
    scope: Option<Seq<char>>,
    ls: Seq<Seq<char>>,
    q: Option<Seq<char>>,
)
    requires
        wf_buckets(bs),
    ensures
        q == scope ==> lines_of(append_to_scope(bs, scope, ls), q) == lines_of(bs, q) + ls,
        q != scope ==> lines_of(append_to_scope(bs, scope, ls), q) == lines_of(bs, q),
{
    lemma_scope_index_props(bs, scope);
    lemma_scope_index_props(bs, q);
    let i = scope_index(bs, scope);
    let bs2 = append_to_scope(bs, scope, ls);
    if i >= 0 {
        assert(forall|j: int| 0 <= j < bs2.len() ==> bs2[j].scope == bs[j].scope);
        if q == scope {
            lemma_scope_index_at(bs2, q, i);
        } else {
            let k = scope_index(bs, q);
            if k >= 0 {
                lemma_scope_index_at(bs2, q, k);
                assert(bs2[k].lines == bs[k].lines);
            } else {
                lemma_scope_index_props(bs2, q);
                if scope_index(bs2, q) >= 0 {
                    let k2 = scope_index(bs2, q);
                    assert(bs[k2].scope == q);
                    assert(false);
                }
            }
        }
    } else {
        let n = bs.len() as int;
        if q == scope {
            lemma_scope_index_at(bs2, q, n);
            assert(lines_of(bs, q) + ls =~= ls);
        } else {
            let k = scope_index(bs, q);
            if k >= 0 {
                assert(forall|j: int| 0 <= j < n ==> bs2[j] == bs[j]);
                lemma_scope_index_at(bs2, q, k);
            } else {
                lemma_scope_index_props(bs2, q);
                if scope_index(bs2, q) >= 0 {
                    let k2 = scope_index(bs2, q);
                    assert(k2 == n || bs[k2].scope == q);
                    assert(false);
                }
            }
        }
    }
}

/// An append never disturbs the one-bucket-per-scope shape.
pub proof fn lemma_append_wf(bs: Seq<BucketV>, scope: Option<Seq<char>>, ls: Seq<Seq<char>>)
    requires
        wf_buckets(bs),
    ensures
        wf_buckets(append_to_scope(bs, scope, ls)),
{
    lemma_scope_index_props(bs, scope);
    let i = scope_index(bs, scope);
    let bs2 = append_to_scope(bs, scope, ls);
    if i >= 0 {
        assert(forall|j: int| 0 <= j < bs2.len() ==> bs2[j].scope == bs[j].scope);
    } else {
        assert forall|a: int, b: int| 0 <= a < b < bs2.len() implies bs2[a].scope != bs2[b].scope by {
            if b < bs.len() {
            } else {
                assert(bs2[a].scope == bs[a].scope);
            }
        }
    }
}

/// Lines already collected for a scope stay, in order, in front of whatever
/// a later append adds: processing order is preserved within every bucket.
pub proof fn lemma_bucket_order_preserved(
    bs: Seq<BucketV>,
    scope: Option<Seq<char>>,
    ls: Seq<Seq<char>>,
    q: Option<Seq<char>>,
)
    requires
        wf_buckets(bs),
    ensures
        lines_of(bs, q).is_prefix_of(lines_of(append_to_scope(bs, scope, ls), q)),
{
    lemma_append_lines(bs, scope, ls, q);
    if q == scope {
        assert(lines_of(bs, q).is_prefix_of(lines_of(bs, q) + ls));
    } else {
        assert(lines_of(bs, q).is_prefix_of(lines_of(bs, q)));
    }
}

impl Buckets {
    /// A fresh, empty aggregator.
    pub fn new() -> (r: Buckets)
        ensures
            r@ == Seq::<BucketV>::empty(),
            wf_buckets(r@),
    {
        let r = Buckets { buckets: Vec::new() };
        proof {
            assert(r@ =~= Seq::<BucketV>::empty());
        }
        r
    }

    /// Appends `lines` to the bucket of `scope`, creating it on first access.
    pub fn append_lines(&mut self, scope: &Option<String>, lines: Vec<String>)
        ensures
            final(self)@ == append_to_scope(old(self)@, scope.deep_view(), lines.deep_view()),
    {
        broadcast use crate::text::lemma_deep_view_index;

        let n = self.buckets.len();
        let mut k: usize = 0;
        while k < n
            invariant
                k <= n,
                n == self.buckets@.len(),
                *self == *old(self),
                forall|j: int| 0 <= j < k ==> self@[j].scope != scope.deep_view(),
            decreases n - k,
        {
            let same = match (scope, &self.buckets[k].scope) {
                (None, None) => true,
                (Some(a), Some(b)) => a.eq(b),
                _ => false,
            };
            if same {
                proof {
                    lemma_scope_index_at(self@, scope.deep_view(), k as int);
                }
                let mut bucket = self.buckets.remove(k);
                let ghost old_lines = bucket.lines.deep_view();
                extend_vec(&mut bucket.lines, lines);
                self.buckets.insert(k, bucket);
                proof {
                    assert(self@ =~= append_to_scope(
                        old(self)@,
                        scope.deep_view(),
                        lines.deep_view(),
                    ));
                }
                return ;
            }
            k += 1;
        }
        proof {
            lemma_scope_index_props(self@, scope.deep_view());
            if scope_index(self@, scope.deep_view()) >= 0 {
                assert(false);
            }
        }
        let scope2 = match scope {
            Some(s) => Some(s.clone()),
            None => None,
        };
        self.buckets.push(Bucket { scope: scope2, lines });
        proof {
            assert(self@ =~= append_to_scope(old(self)@, scope.deep_view(), lines.deep_view()));
        }
    }
}

} // verus!
