//! Ordering by score, and the merge of the results of each site.
use vstd::prelude::*;
use crate::model::{Answer, Error, Question};

verus! {

broadcast use vstd::seq_lib::group_to_multiset_ensures;

/// Something with a score.
pub trait Scored {
    spec fn score_of(&self) -> int;

    fn score_value(&self) -> (r: i32)
        ensures
            r as int == self.score_of();
}

impl Scored for Answer {
    open spec fn score_of(&self) -> int {
        self.score as int
    }

    fn score_value(&self) -> (r: i32) {
        self.score
    }
}

impl Scored for Question {
    open spec fn score_of(&self) -> int {
        self.score as int
    }

    fn score_value(&self) -> (r: i32) {
        self.score
    }
}

/// Scores never increase along `s`.
pub open spec fn by_score_desc<T: Scored>(s: Seq<T>) -> bool {
    forall|i: int, j: int| 0 <= i < j < s.len() ==> s[i].score_of() >= s[j].score_of()
}

/// Orders `v` by non-increasing score; items of equal score keep their order.
pub fn sort_by_score<T: Scored>(v: &mut Vec<T>)
    ensures
        by_score_desc(final(v)@),
        final(v)@.to_multiset() == old(v)@.to_multiset(),
        final(v)@.len() == old(v)@.len(),
{
    let n = v.len();
    if n == 0 {
        return;
    }
    let mut i: usize = 1;
    while i < n
        invariant
            n == v@.len(),
            1 <= i <= n,
            v@.to_multiset() == old(v)@.to_multiset(),
            by_score_desc(v@.subrange(0, i as int)),
        decreases n - i,
    {
        let ghost s0 = v@;
        let x = v.remove(i);
        let xs = x.score_value();
        let ghost s1 = v@;
        assert(s1 =~= s0.remove(i as int));
        let mut pos: usize = 0;
        while pos < i && v[pos].score_value() >= xs
            invariant
                v@ == s1,
                s1.len() == n - 1,
                i < n,
                pos <= i,
                forall|k: int| 0 <= k < pos ==> s1[k].score_of() >= xs,
            decreases i - pos,
        {
            pos += 1;
        }
        v.insert(pos, x);
        let ghost s2 = v@;
        assert(s2 =~= s1.insert(pos as int, x));
        assert forall|a: int, b: int| 0 <= a < b < i + 1 implies
            #[trigger] s2.subrange(0, i + 1)[a].score_of() >= #[trigger] s2.subrange(0, i + 1)[b].score_of() by {
            assert(s0.subrange(0, i as int)[0] == s0[0]);
            if a < pos && b < pos {
                assert(s0.subrange(0, i as int)[a] == s2[a]);
                assert(s0.subrange(0, i as int)[b] == s2[b]);
            } else if a < pos && b == pos {
            } else if a < pos {
                assert(s2[b] == s0[b - 1]);
                assert(s0.subrange(0, i as int)[a] == s2[a]);
                assert(s0.subrange(0, i as int)[pos as int] == s0[pos as int]);
                assert(s0.subrange(0, i as int)[b - 1] == s0[b - 1]);
            } else if a == pos {
                assert(s2[b] == s0[b - 1]);
                assert(s0.subrange(0, i as int)[pos as int] == s0[pos as int]);
                assert(s0.subrange(0, i as int)[b - 1] == s0[b - 1]);
                assert(s0[pos as int].score_of() < xs);
            } else {
                assert(s2[a] == s0[a - 1]);
                assert(s2[b] == s0[b - 1]);
                assert(s0.subrange(0, i as int)[a - 1] == s0[a - 1]);
                assert(s0.subrange(0, i as int)[b - 1] == s0[b - 1]);
            }
        }
        i += 1;
    }
    assert(v@.subrange(0, n as int) =~= v@);
}

/// `q` is `p` with its answers ordered by score: same fields, same answers.
pub open spec fn answers_ranked(p: Question, q: Question) -> bool {
    q.id == p.id && q.score == p.score && q.title == p.title && q.body == p.body
        && q.answers@.to_multiset() == p.answers@.to_multiset()
        && q.answers@.len() == p.answers@.len()
        && by_score_desc(q.answers@)
}

/// The questions `qs`, each with its answers ordered by non-increasing score.
pub fn preprocess(qs: Vec<Question>) -> (r: Vec<Question>)
    ensures
        r@.len() == qs@.len(),
        forall|i: int| 0 <= i < qs@.len() ==> answers_ranked(#[trigger] qs@[i], r@[i]),
{
    let ghost orig = qs@;
    let mut rest = qs;
    let mut out: Vec<Question> = Vec::new();
    while rest.len() > 0
        invariant
            out@.len() + rest@.len() == orig.len(),
            rest@ == orig.subrange(out@.len() as int, orig.len() as int),
            forall|i: int| 0 <= i < out@.len() ==> answers_ranked(#[trigger] orig[i], out@[i]),
        decreases rest@.len(),
    {
        let ghost k = out@.len();
        let mut q = rest.remove(0);
        assert(q == orig[k as int]);
        sort_by_score(&mut q.answers);
        out.push(q);
        assert(rest@ =~= orig.subrange(out@.len() as int, orig.len() as int));
    }
    out
}

/// The questions of the successful results `rs`, in order.
pub open spec fn flatten(rs: Seq<Result<Vec<Question>, Error>>) -> Seq<Question>
    decreases rs.len(),
{
    if rs.len() == 0 {
        Seq::empty()
    } else {
        flatten(rs.drop_last()) + match rs.last() {
            Ok(v) => v@,
            Err(_) => Seq::empty(),
        }
    }
}

/// `r` is the merge of `rs`: an error exactly when a site failed, and then
/// that site's error; else every question of `rs`, in the order of `rs` or,
/// where `by_score` asks for it, by non-increasing score.
pub open spec fn merged(rs: Seq<Result<Vec<Question>, Error>>, by_score: bool, r: Result<Vec<Question>, Error>) -> bool {
    &&& r is Err <==> exists|i: int| 0 <= i < rs.len() && #[trigger] rs[i] is Err
    &&& r matches Err(e) ==> exists|i: int| 0 <= i < rs.len() && #[trigger] rs[i] == Err::<Vec<Question>, Error>(e)
    &&& r matches Ok(v) ==> (!by_score ==> v@ == flatten(rs))
    &&& r matches Ok(v) ==> (by_score ==> by_score_desc(v@) && v@.to_multiset() == flatten(rs).to_multiset())
}

/// The results of the sites merged: an error as soon as one site failed,
/// else all questions in the order of `rs`, ordered by non-increasing score
/// where `by_score` asks for it.
pub fn merge_results(rs: Vec<Result<Vec<Question>, Error>>, by_score: bool)
    -> (r: Result<Vec<Question>, Error>)
    ensures
        merged(rs@, by_score, r),
{
    let ghost orig = rs@;
    let mut j: usize = 0;
    while j < rs.len() && !rs[j].is_err()
        invariant
            orig == rs@,
            j <= rs@.len(),
            forall|i: int| 0 <= i < j ==> #[trigger] orig[i] is Ok,
        decreases rs@.len() - j,
    {
        j += 1;
    }
    let mut rest = rs;
    if j < rest.len() {
        let item = rest.remove(j);
        assert(item == orig[j as int]);
        match item {
            Err(e) => {
                return Err(e);
            },
            Ok(_) => {},
        }
    }
    let mut out: Vec<Question> = Vec::new();
    while rest.len() > 0
        invariant
            forall|i: int| 0 <= i < orig.len() ==> #[trigger] orig[i] is Ok,
            rest@ == orig.subrange(orig.len() - rest@.len(), orig.len() as int),
            rest@.len() <= orig.len(),
            out@ == flatten(orig.subrange(0, orig.len() - rest@.len())),
        decreases rest@.len(),
    {
        let ghost k = orig.len() - rest@.len();
        let item = rest.remove(0);
        assert(item == orig[k]);
        assert(orig.subrange(0, k + 1).drop_last() =~= orig.subrange(0, k));
        match item {
            Err(e) => {
                return Err(e);
            },
            Ok(mut v) => {
                out.append(&mut v);
            },
        }
        assert(rest@ =~= orig.subrange(orig.len() - rest@.len(), orig.len() as int));
    }
    assert(orig.subrange(0, orig.len() as int) =~= orig);
    if by_score {
        sort_by_score(&mut out);
    }
    Ok(out)
}

/// Every question of `qs` has its answers ordered by score.
pub open spec fn all_answers_ranked(qs: Seq<Question>) -> bool {
    forall|i: int| 0 <= i < qs.len() ==> by_score_desc(#[trigger] qs[i].answers@)
}

/// Every successful result of `rs` has its questions' answers ordered by score.
pub open spec fn results_answers_ranked(rs: Seq<Result<Vec<Question>, Error>>) -> bool {
    forall|k: int| 0 <= k < rs.len() ==> (#[trigger] rs[k] matches Ok(v) ==> all_answers_ranked(v@))
}

proof fn lemma_flatten_ranked(rs: Seq<Result<Vec<Question>, Error>>)
    requires
        results_answers_ranked(rs),
    ensures
        all_answers_ranked(flatten(rs)),
    decreases rs.len(),
{
    if rs.len() > 0 {
        let init = rs.drop_last();
        assert forall|k: int| 0 <= k < init.len() implies (#[trigger] init[k] matches Ok(v) ==> all_answers_ranked(v@)) by {
            assert(init[k] == rs[k]);
        }
        lemma_flatten_ranked(init);
        let tail = match rs.last() {
            Ok(v) => v@,
            Err(_) => Seq::empty(),
        };
        assert(rs[rs.len() - 1] == rs.last());
        let f = flatten(rs);
        assert(f == flatten(init) + tail);
        assert forall|i: int| 0 <= i < f.len() implies by_score_desc(#[trigger] f[i].answers@) by {
            if i >= flatten(init).len() {
                assert(f[i] == tail[i - flatten(init).len()]);
            }
        }
    }
}

/// The result of a search over several sites ranks by score twice: its
/// questions come in non-increasing score, and so do the answers of each,
/// given per-site results whose answers `preprocess` ordered.
pub proof fn lemma_ranking(rs: Seq<Result<Vec<Question>, Error>>, r: Result<Vec<Question>, Error>)
    requires
        results_answers_ranked(rs),
        merged(rs, true, r),
    ensures
        r matches Ok(v) ==> by_score_desc(v@) && all_answers_ranked(v@),
{
    if let Ok(v) = r {
        lemma_flatten_ranked(rs);
        let f = flatten(rs);
        assert forall|i: int| 0 <= i < v@.len() implies by_score_desc(#[trigger] v@[i].answers@) by {
            assert(v@.contains(v@[i]));
            assert(v@.to_multiset().count(v@[i]) > 0);
            assert(f.to_multiset().count(v@[i]) > 0);
            assert(f.contains(v@[i]));
            let j = choose|j: int| 0 <= j < f.len() && f[j] == v@[i];
            assert(by_score_desc(f[j].answers@));
        }
    }
}

} // verus!
