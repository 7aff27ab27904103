//! Filtering a list of items by one of their fields.
//!
//! A filter source extracts an optional string value from each item; the
//! unique values populate filter tabs (absent values first, the rest in
//! lexicographic order), and filtering keeps the items whose value matches
//! the selection.

use vstd::prelude::*;
use crate::cache::{opt_view, seq_views};
use crate::jira_types::{IssueSummary, IssueSummaryView, clone_opt};
use crate::strutil::{chars_lt, lex_lt, lemma_lex_lt_trans, lemma_lex_trichotomy, str_eq,
    string_chars};

verus! {

/// Order on optional values: an absent value sorts before every present
/// one; present values sort lexicographically.
pub open spec fn opt_lt(a: Option<Seq<char>>, b: Option<Seq<char>>) -> bool {
    match (a, b) {
        (None, Some(_)) => true,
        (Some(u), Some(w)) => lex_lt(u, w),
        _ => false,
    }
}

/// Strictly sorted by [`opt_lt`].
pub open spec fn opt_sorted(s: Seq<Option<Seq<char>>>) -> bool {
    forall|i: int, j: int| 0 <= i < j < s.len() ==> opt_lt(#[trigger] s[i], #[trigger] s[j])
}

/// The views of a vector of optional strings.
pub open spec fn opt_views(s: Seq<Option<String>>) -> Seq<Option<Seq<char>>> {
    Seq::new(s.len(), |i: int| opt_view(s[i]))
}

proof fn lemma_opt_trichotomy(a: Option<Seq<char>>, b: Option<Seq<char>>)
    ensures
        opt_lt(a, b) || opt_lt(b, a) || a == b,
{
    match (a, b) {
        (Some(u), Some(w)) => {
            lemma_lex_trichotomy(u, w);
        }
        _ => {}
    }
}

proof fn lemma_opt_lt_trans(a: Option<Seq<char>>, b: Option<Seq<char>>, c: Option<Seq<char>>)
    requires
        opt_lt(a, b),
        opt_lt(b, c),
    ensures
        opt_lt(a, c),
{
    match (a, b, c) {
        (Some(u), Some(w), Some(x)) => {
            lemma_lex_lt_trans(u, w, x);
        }
        _ => {}
    }
}

/// Compare two optional values.
fn opt_lt_exec(a: &Option<String>, b: &Option<String>) -> (r: bool)
    ensures
        r == opt_lt(opt_view(*a), opt_view(*b)),
{
    match (a, b) {
        (None, Some(_)) => true,
        (Some(u), Some(w)) => {
            let cu = string_chars(u.as_str());
            let cw = string_chars(w.as_str());
            chars_lt(&cu, &cw)
        }
        _ => false,
    }
}

/// Are two optional values equal?
fn opt_eq_exec(a: &Option<String>, b: &Option<String>) -> (r: bool)
    ensures
        r == (opt_view(*a) == opt_view(*b)),
{
    match (a, b) {
        (None, None) => true,
        (Some(u), Some(w)) => str_eq(u.as_str(), w.as_str()),
        _ => false,
    }
}

/// Insert a value into a sorted list of distinct values, keeping it sorted;
/// a value already present is not duplicated.
fn insert_value(out: &mut Vec<Option<String>>, v: Option<String>)
    requires
        opt_sorted(opt_views(old(out)@)),
    ensures
        opt_sorted(opt_views(final(out)@)),
        forall|x: Option<Seq<char>>|
            opt_views(final(out)@).contains(x) <==> (opt_views(old(out)@).contains(x) || x
                == opt_view(v)),
{
    let ghost pre = opt_views(out@);
    let n = out.len();
    let mut i: usize = 0;
    while i < n && opt_lt_exec(&out[i], &v)
        invariant
            0 <= i <= n,
            n == out@.len(),
            out@ == old(out)@,
            pre == opt_views(out@),
            opt_sorted(pre),
            forall|j: int| 0 <= j < i ==> opt_lt(#[trigger] pre[j], opt_view(v)),
            i < n ==> pre[i as int] == opt_view(out@[i as int]),
        decreases n - i,
    {
        proof {
            assert(pre[i as int] == opt_view(out@[i as int]));
        }
        i += 1;
        proof {
            if i < n {
                assert(pre[i as int] == opt_view(out@[i as int]));
            }
        }
    }
    proof {
        if i < n {
            assert(pre[i as int] == opt_view(out@[i as int]));
        }
    }
    if i < out.len() {
        if opt_eq_exec(&out[i], &v) {
            proof {
                assert(pre[i as int] == opt_view(v));
                assert(pre.contains(opt_view(v)));
                assert(forall|x: Option<Seq<char>>|
                    opt_views(out@).contains(x) <==> (pre.contains(x) || x == opt_view(v)));
            }
            return ;
        }
    }
    let ghost vv = opt_view(v);
    out.insert(i, v);
    proof {
        let post = opt_views(out@);
        assert(post.len() == pre.len() + 1);
        assert forall|k: int| 0 <= k < post.len() implies post[k] == (if k < i {
            pre[k]
        } else if k == i {
            vv
        } else {
            pre[k - 1]
        }) by {
            assert(out@[k] == (if k < i {
                old(out)@[k]
            } else if k == i {
                v
            } else {
                old(out)@[k - 1]
            }));
        }
        if i < pre.len() {
            assert(!opt_lt(pre[i as int], vv) && pre[i as int] != vv);
            lemma_opt_trichotomy(pre[i as int], vv);
            assert(opt_lt(vv, pre[i as int]));
        }
        assert forall|a: int, b: int| 0 <= a < b < post.len() implies opt_lt(post[a], post[b]) by {
            if a < i && b == i {
                assert(opt_lt(pre[a], vv));
            } else if a == i && b > i {
                assert(opt_lt(vv, pre[i as int]));
                if b - 1 > i {
                    assert(opt_lt(pre[i as int], pre[b - 1]));
                    lemma_opt_lt_trans(vv, pre[i as int], pre[b - 1]);
                }
            }
        }
        assert forall|x: Option<Seq<char>>|
            post.contains(x) <==> (pre.contains(x) || x == vv) by {
            if post.contains(x) {
                let k = choose|k: int| 0 <= k < post.len() && post[k] == x;
                if k < i {
                    assert(pre[k] == x);
                } else if k > i {
                    assert(pre[k - 1] == x);
                }
            }
            if pre.contains(x) {
                let k = choose|k: int| 0 <= k < pre.len() && pre[k] == x;
                if k < i {
                    assert(post[k] == x);
                } else {
                    assert(post[k + 1] == x);
                }
            }
            if x == vv {
                assert(post[i as int] == x);
            }
        }
    }
}

/// Trait for filtering a list of items by a value. Multiple filter sources
/// can work on the same item type.
pub trait FilterSource<T: View>: Sized {
    /// Human-readable label of this filter source.
    spec fn spec_label(&self) -> Seq<char>;

    /// Whether this source filters at all.
    spec fn spec_active(&self) -> bool;

    /// The value of the filtered field for an item.
    spec fn spec_extract(&self, v: T::V) -> Option<Seq<char>>;

    /// Human-readable label of this filter source.
    fn label(&self) -> (r: String)
        ensures
            r@ == self.spec_label(),
    ;

    /// The value of the filtered field for an item.
    fn extract(&self, item: &T) -> (r: Option<String>)
        ensures
            opt_view(r) == self.spec_extract(item@),
    ;

    /// The distinct field values occurring in `items`, absent values first,
    /// the rest in lexicographic order; empty for an inactive source.
    fn unique_values(&self, items: &Vec<T>) -> (r: Vec<Option<String>>)
        ensures
            !self.spec_active() ==> r@.len() == 0,
            self.spec_active() ==> opt_sorted(opt_views(r@)) && (forall|x: Option<Seq<char>>|
                opt_views(r@).contains(x) <==> exists|i: int|
                    0 <= i < items@.len() && self.spec_extract(#[trigger] items@[i]@) == x),
    ;

    /// The item views whose extracted value equals `target`, in order.
    spec fn spec_filter_of(&self, vs: Seq<T::V>, target: Option<Seq<char>>) -> Seq<T::V>;

    /// [`FilterSource::spec_filter_of`] keeps exactly the matching items:
    /// it is empty on no items, and otherwise decided item by item.
    proof fn lemma_filter_of_unfold(&self, vs: Seq<T::V>, target: Option<Seq<char>>)
        ensures
            vs.len() == 0 ==> self.spec_filter_of(vs, target) == Seq::<T::V>::empty(),
            vs.len() > 0 ==> self.spec_filter_of(vs, target) == (if self.spec_extract(vs[0])
                == target {
                seq![vs[0]]
            } else {
                Seq::<T::V>::empty()
            }) + self.spec_filter_of(vs.drop_first(), target),
    ;

    /// The items whose field value matches the selection. `None` means no
    /// filtering; `Some(fv)` keeps the items whose value equals `fv`
    /// (including `Some(None)`: items with an absent value).
    fn filter<'a>(&self, items: &'a Vec<T>, value: Option<&Option<String>>) -> (r: Vec<&'a T>)
        ensures
            match value {
                None => ref_views(r@) == seq_views(items@),
                Some(fv) => ref_views(r@) == self.spec_filter_of(
                    seq_views(items@),
                    opt_view(*fv),
                ),
            },
    ;

    /// Whether this source filters at all.
    fn is_active(&self) -> (r: bool)
        ensures
            r == self.spec_active(),
    ;

    /// All variants of this filter source.
    fn all_variants() -> Vec<Self>;
}

/// The views of a vector of item references.
pub open spec fn ref_views<T: View>(s: Seq<&T>) -> Seq<T::V> {
    Seq::new(s.len(), |i: int| s[i]@)
}

/// The issue summaries whose filtered field equals `target`, in order.
pub open spec fn spec_issue_filter(
    f: IssueFilterField,
    vs: Seq<IssueSummaryView>,
    target: Option<Seq<char>>,
) -> Seq<IssueSummaryView>
    decreases vs.len(),
{
    if vs.len() == 0 {
        Seq::empty()
    } else {
        (if f.spec_extract(vs[0]) == target {
            seq![vs[0]]
        } else {
            Seq::empty()
        }) + spec_issue_filter(f, vs.drop_first(), target)
    }
}

proof fn lemma_issue_filter_push(
    f: IssueFilterField,
    vs: Seq<IssueSummaryView>,
    target: Option<Seq<char>>,
    v: IssueSummaryView,
)
    ensures
        spec_issue_filter(f, vs.push(v), target) == spec_issue_filter(f, vs, target) + (
        if f.spec_extract(v) == target {
            seq![v]
        } else {
            Seq::<IssueSummaryView>::empty()
        }),
    decreases vs.len(),
{
    let tail = if f.spec_extract(v) == target {
        seq![v]
    } else {
        Seq::<IssueSummaryView>::empty()
    };
    if vs.len() == 0 {
        assert(vs.push(v)[0] == v);
        assert(vs.push(v).drop_first() =~= Seq::<IssueSummaryView>::empty());
        assert(spec_issue_filter(f, Seq::<IssueSummaryView>::empty(), target)
            == Seq::<IssueSummaryView>::empty());
        assert(tail + Seq::<IssueSummaryView>::empty() =~= Seq::<IssueSummaryView>::empty()
            + tail);
    } else {
        assert(vs.push(v)[0] == vs[0]);
        assert(vs.push(v).drop_first() =~= vs.drop_first().push(v));
        lemma_issue_filter_push(f, vs.drop_first(), target, v);
        let head = if f.spec_extract(vs[0]) == target {
            seq![vs[0]]
        } else {
            Seq::<IssueSummaryView>::empty()
        };
        assert(head + (spec_issue_filter(f, vs.drop_first(), target) + tail) =~= (head
            + spec_issue_filter(f, vs.drop_first(), target)) + tail);
    }
}

/// Field of an issue summary to filter by.
#[derive(Debug, Clone, Copy, PartialEq, Eq, Structural)]
pub enum IssueFilterField {
    /// No filtering.
    NoFilter,
    Assignee,
    Epic,
    Status,
    Priority,
}

impl FilterSource<IssueSummary> for IssueFilterField {
    open spec fn spec_label(&self) -> Seq<char> {
        match self {
            IssueFilterField::NoFilter => "None"@,
            IssueFilterField::Assignee => "Assignee"@,
            IssueFilterField::Epic => "Epic"@,
            IssueFilterField::Status => "Status"@,
            IssueFilterField::Priority => "Priority"@,
        }
    }

    open spec fn spec_active(&self) -> bool {
        !(self is NoFilter)
    }

    open spec fn spec_extract(&self, v: IssueSummaryView) -> Option<Seq<char>> {
        match self {
            IssueFilterField::NoFilter => None,
            IssueFilterField::Assignee => v.assignee,
            IssueFilterField::Epic => v.epic,
            IssueFilterField::Status => Some(v.status),
            IssueFilterField::Priority => v.priority,
        }
    }

    open spec fn spec_filter_of(
        &self,
        vs: Seq<IssueSummaryView>,
        target: Option<Seq<char>>,
    ) -> Seq<IssueSummaryView> {
        spec_issue_filter(*self, vs, target)
    }

    proof fn lemma_filter_of_unfold(
        &self,
        vs: Seq<IssueSummaryView>,
        target: Option<Seq<char>>,
    ) {
    }

    fn label(&self) -> (r: String) {
        match self {
            IssueFilterField::NoFilter => "None".to_owned(),
            IssueFilterField::Assignee => "Assignee".to_owned(),
            IssueFilterField::Epic => "Epic".to_owned(),
            IssueFilterField::Status => "Status".to_owned(),
            IssueFilterField::Priority => "Priority".to_owned(),
        }
    }

    fn extract(&self, item: &IssueSummary) -> (r: Option<String>) {
        match self {
            IssueFilterField::NoFilter => None,
            IssueFilterField::Assignee => clone_opt(&item.assignee),
            IssueFilterField::Epic => clone_opt(&item.epic),
            IssueFilterField::Status => Some(item.status.clone()),
            IssueFilterField::Priority => clone_opt(&item.priority),
        }
    }

    fn unique_values(&self, items: &Vec<IssueSummary>) -> (r: Vec<Option<String>>) {
        let mut out: Vec<Option<String>> = Vec::new();
        if !self.is_active() {
            return out;
        }
        let n = items.len();
        let mut i: usize = 0;
        while i < n
            invariant
                0 <= i <= n,
                n == items@.len(),
                self.spec_active(),
                opt_sorted(opt_views(out@)),
                forall|x: Option<Seq<char>>|
                    opt_views(out@).contains(x) <==> exists|k: int|
                        0 <= k < i && self.spec_extract(#[trigger] items@[k]@) == x,
            decreases n - i,
        {
            let v = self.extract(&items[i]);
            let ghost vv = opt_view(v);
            insert_value(&mut out, v);
            proof {
                assert forall|x: Option<Seq<char>>|
                    opt_views(out@).contains(x) <==> exists|k: int|
                        0 <= k < i + 1 && self.spec_extract(#[trigger] items@[k]@) == x by {
                    if opt_views(out@).contains(x) {
                        if x == vv {
                            assert(self.spec_extract(items@[i as int]@) == x);
                        }
                    }
                    if exists|k: int|
                        0 <= k < i + 1 && self.spec_extract(#[trigger] items@[k]@) == x {
                        let k = choose|k: int|
                            0 <= k < i + 1 && self.spec_extract(#[trigger] items@[k]@) == x;
                        if k == i {
                            assert(x == vv);
                        }
                    }
                }
            }
            i += 1;
        }
        out
    }

    fn filter<'a>(&self, items: &'a Vec<IssueSummary>, value: Option<&Option<String>>) -> (r: Vec<
        &'a IssueSummary,
    >) {
        let mut out: Vec<&'a IssueSummary> = Vec::new();
        let n = items.len();
        proof {
            assert(ref_views(out@) =~= Seq::<IssueSummaryView>::empty());
            assert(seq_views(items@).take(0) =~= Seq::<IssueSummaryView>::empty());
        }
        match value {
            None => {
                let mut i: usize = 0;
                while i < n
                    invariant
                        0 <= i <= n,
                        n == items@.len(),
                        ref_views(out@) == seq_views(items@).take(i as int),
                    decreases n - i,
                {
                    let ghost prev = out@;
                    let item = &items[i];
                    proof {
                        assert(*item == items@[i as int]);
                    }
                    out.push(item);
                    proof {
                        assert(ref_views(prev) == seq_views(items@).take(i as int));
                        assert(prev.len() == ref_views(prev).len());
                        assert(prev.len() == i as int);
                        assert(out@ =~= prev.push(item));
                        assert(item@ == items@[i as int]@);
                        assert forall|k: int| 0 <= k < out@.len() implies ref_views(out@)[k]
                            == seq_views(items@).take(i as int + 1)[k] by {
                            if k < i {
                                assert(out@[k] == prev[k]);
                            }
                        }
                        assert(ref_views(out@) =~= seq_views(items@).take(i as int + 1));
                    }
                    i += 1;
                }
                proof {
                    assert(seq_views(items@).take(n as int) =~= seq_views(items@));
                }
                out
            }
            Some(fv) => {
                proof {
                    assert(self.spec_filter_of(seq_views(items@).take(0), opt_view(*fv))
                        == Seq::<IssueSummaryView>::empty());
                }
                let mut i: usize = 0;
                while i < n
                    invariant
                        0 <= i <= n,
                        n == items@.len(),
                        ref_views(out@) == self.spec_filter_of(
                            seq_views(items@).take(i as int),
                            opt_view(*fv),
                        ),
                    decreases n - i,
                {
                    proof {
                        lemma_issue_filter_push(
                            *self,
                            seq_views(items@).take(i as int),
                            opt_view(*fv),
                            seq_views(items@)[i as int],
                        );
                        assert(seq_views(items@).take(i as int).push(seq_views(items@)[i as int])
                            =~= seq_views(items@).take(i as int + 1));
                    }
                    let ghost prev = ref_views(out@);
                    let item_value = self.extract(&items[i]);
                    if opt_eq_exec(&item_value, fv) {
                        out.push(&items[i]);
                        proof {
                            assert(ref_views(out@) =~= prev + seq![items@[i as int]@]);
                        }
                    } else {
                        proof {
                            assert(ref_views(out@) =~= prev + Seq::<IssueSummaryView>::empty());
                        }
                    }
                    i += 1;
                }
                proof {
                    assert(seq_views(items@).take(n as int) =~= seq_views(items@));
                }
                out
            }
        }
    }

    fn is_active(&self) -> (r: bool) {
        !matches!(self, IssueFilterField::NoFilter)
    }

    fn all_variants() -> Vec<Self> {
        let mut r: Vec<IssueFilterField> = Vec::new();
        r.push(IssueFilterField::NoFilter);
        r.push(IssueFilterField::Assignee);
        r.push(IssueFilterField::Epic);
        r.push(IssueFilterField::Status);
        r.push(IssueFilterField::Priority);
        r
    }
}

} // verus!
