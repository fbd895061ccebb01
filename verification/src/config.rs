//! Editor preferences that outlive a session: the recent-files list, and the
//! panels that size their own text.

use vstd::prelude::*;

verus! {

/// How many recent files to remember.
pub const MAX_RECENT: usize = 12;

/// The panels that size their own text.
#[derive(Debug, Clone, Copy, PartialEq, Eq, Structural)]
pub enum Area {
    Ui,
    Tree,
    Inspector,
    Timeline,
}

/// The views of a list of paths.
pub open spec fn paths(v: Seq<String>) -> Seq<Seq<char>> {
    v.map_values(|p: String| p@)
}

/// `s` without any entry equal to `p`, in order.
pub open spec fn without_path(s: Seq<Seq<char>>, p: Seq<char>) -> Seq<Seq<char>>
    decreases s.len(),
{
    if s.len() == 0 {
        s
    } else {
        let rest = without_path(s.drop_last(), p);
        if s.last() == p {
            rest
        } else {
            rest.push(s.last())
        }
    }
}

/// The recent list after opening `p`: `p` first, then the others in their
/// old order, cut to the first `MAX_RECENT`.
pub open spec fn touched(s: Seq<Seq<char>>, p: Seq<char>) -> Seq<Seq<char>> {
    let all = seq![p] + without_path(s, p);
    if all.len() > MAX_RECENT {
        all.take(MAX_RECENT as int)
    } else {
        all
    }
}

/// The entries of `v` that are not `p`.
fn without(v: &Vec<String>, p: &String) -> (out: Vec<String>)
    ensures
        paths(out@) == without_path(paths(v@), p@),
{
    let mut out: Vec<String> = Vec::new();
    let mut i: usize = 0;
    while i < v.len()
        invariant
            i <= v.len(),
            paths(out@) == without_path(paths(v@).take(i as int), p@),
        decreases v.len() - i,
    {
        proof {
            assert(paths(v@).take(i + 1).drop_last() =~= paths(v@).take(i as int));
        }
        if !(v[i] == *p) {
            out.push(v[i].clone());
            proof {
                assert(paths(out@) =~= without_path(paths(v@).take(i as int), p@).push(v@[i as int]@));
            }
        }
        i += 1;
    }
    proof {
        assert(paths(v@).take(v.len() as int) =~= paths(v@));
    }
    out
}

/// Record a file as most-recently-used: moved to the front rather than
/// duplicated, and the list trimmed to `MAX_RECENT`.
pub fn touch_recent(recent: &mut Vec<String>, path: &str)
    ensures
        paths(final(recent)@) == touched(paths(old(recent)@), path@),
{
    let p = path.to_owned();
    let rest = without(recent, &p);
    let mut out: Vec<String> = Vec::new();
    out.push(p);
    let mut i: usize = 0;
    while i < rest.len()
        invariant
            i <= rest.len(),
            paths(out@) == seq![path@] + paths(rest@).take(i as int),
        decreases rest.len() - i,
    {
        let ghost prev = paths(out@);
        out.push(rest[i].clone());
        proof {
            assert(paths(out@) =~= prev.push(rest@[i as int]@));
            assert(paths(rest@).take(i + 1) =~= paths(rest@).take(i as int).push(rest@[i as int]@));
            assert(paths(out@) =~= seq![path@] + paths(rest@).take(i + 1));
        }
        i += 1;
    }
    proof {
        assert(paths(rest@).take(rest.len() as int) =~= paths(rest@));
    }
    if out.len() > MAX_RECENT {
        out.truncate(MAX_RECENT);
        proof {
            assert(paths(out@) =~= touched(paths(old(recent)@), path@));
        }
    }
    *recent = out;
}

/// Drop `path` from the recent list.
pub fn forget_recent(recent: &mut Vec<String>, path: &str)
    ensures
        paths(final(recent)@) == without_path(paths(old(recent)@), path@),
{
    let p = path.to_owned();
    *recent = without(recent, &p);
}

/// Forget every recent file.
pub fn clear_recent(recent: &mut Vec<String>)
    ensures
        final(recent)@.len() == 0,
{
    recent.clear();
}

proof fn lemma_without_path_members(s: Seq<Seq<char>>, p: Seq<char>)
    ensures
        forall|x: Seq<char>| #[trigger] without_path(s, p).contains(x) <==> (s.contains(x) && x != p),
        without_path(s, p).len() <= s.len(),
        no_duplicates(s) ==> no_duplicates(without_path(s, p)),
    decreases s.len(),
{
    if s.len() > 0 {
        let d = s.drop_last();
        lemma_without_path_members(d, p);
        let rest = without_path(d, p);
        assert forall|x: Seq<char>| #[trigger] without_path(s, p).contains(x) <==> (s.contains(x) && x != p) by {
            if s.contains(x) && x != p {
                let i = choose|i: int| 0 <= i < s.len() && s[i] == x;
                if i < s.len() - 1 {
                    assert(d[i] == x);
                    assert(d.contains(x));
                    assert(rest.contains(x));
                    if s.last() != p {
                        let k = choose|k: int| 0 <= k < rest.len() && rest[k] == x;
                        assert(rest.push(s.last())[k] == x);
                    }
                } else {
                    assert(rest.push(s.last())[rest.len() as int] == x);
                }
            }
            if without_path(s, p).contains(x) {
                if s.last() != p && x == s.last() {
                    assert(s[s.len() - 1] == x);
                } else {
                    if s.last() != p {
                        let k = choose|k: int| 0 <= k < rest.len() + 1 && rest.push(s.last())[k] == x;
                        assert(rest[k] == x);
                    }
                    assert(rest.contains(x));
                    assert(d.contains(x));
                    let k = choose|k: int| 0 <= k < d.len() && d[k] == x;
                    assert(s[k] == x);
                }
            }
        }
        if no_duplicates(s) {
            assert(no_duplicates(d)) by {
                assert forall|i: int, j: int| 0 <= i < j < d.len() implies #[trigger] d[i] != #[trigger] d[j] by {
                    assert(d[i] == s[i] && d[j] == s[j]);
                }
            }
            if s.last() != p {
                let r = rest.push(s.last());
                assert forall|i: int, j: int| 0 <= i < j < r.len() implies #[trigger] r[i] != #[trigger] r[j] by {
                    if j == rest.len() {
                        assert(rest.contains(r[i]));
                        let k = choose|k: int| 0 <= k < d.len() && d[k] == r[i];
                        assert(s[k] == r[i]);
                    } else {
                        assert(r[i] == rest[i] && r[j] == rest[j]);
                    }
                }
            }
        }
    }
}

proof fn lemma_without_absent_path(s: Seq<Seq<char>>, p: Seq<char>)
    ensures
        !s.contains(p) ==> without_path(s, p) == s,
    decreases s.len(),
{
    if s.len() > 0 && !s.contains(p) {
        let d = s.drop_last();
        assert(!d.contains(p)) by {
            if d.contains(p) {
                let k = choose|k: int| 0 <= k < d.len() && d[k] == p;
                assert(s[k] == p);
            }
        }
        lemma_without_absent_path(d, p);
        assert(s[s.len() - 1] != p);
        assert(d.push(s.last()) =~= s);
    }
}

/// Forgetting a file keeps every other file, in its old order.
pub proof fn forgetting_keeps_the_others_in_order(s: Seq<Seq<char>>, p: Seq<char>)
    ensures
        without_path(s, p) == s.filter(|x: Seq<char>| x != p),
    decreases s.len(),
{
    reveal(Seq::filter);
    if s.len() > 0 {
        forgetting_keeps_the_others_in_order(s.drop_last(), p);
    }
}

/// No path is listed twice.
pub open spec fn no_duplicates(s: Seq<Seq<char>>) -> bool {
    forall|i: int, j: int| 0 <= i < j < s.len() ==> #[trigger] s[i] != #[trigger] s[j]
}

/// Touching a file puts it first, lists it once, keeps the list within
/// `MAX_RECENT`, keeps every other file that fits in its old order, and never
/// introduces a duplicate.
pub proof fn touching_moves_to_front(s: Seq<Seq<char>>, p: Seq<char>)
    ensures
        touched(s, p).len() >= 1,
        touched(s, p)[0] == p,
        touched(s, p).len() <= MAX_RECENT,
        touched(s, p).len() == if 1 + without_path(s, p).len() < MAX_RECENT {
            1 + without_path(s, p).len()
        } else {
            MAX_RECENT as nat
        },
        forall|i: int| 0 < i < touched(s, p).len() ==> #[trigger] touched(s, p)[i] == without_path(s, p)[i - 1],
        !s.contains(p) ==> without_path(s, p) == s,
        forall|i: int| 0 < i < touched(s, p).len() ==> #[trigger] touched(s, p)[i] != p,
        no_duplicates(s) ==> no_duplicates(touched(s, p)),
        forall|x: Seq<char>| #[trigger] touched(s, p).contains(x) ==> x == p || s.contains(x),
{
    lemma_without_path_members(s, p);
    lemma_without_absent_path(s, p);
    let w = without_path(s, p);
    let all = seq![p] + w;
    let t = touched(s, p);
    assert forall|i: int| 0 < i < t.len() implies #[trigger] t[i] == w[i - 1] by {
        assert(t[i] == all[i]);
    }
    assert forall|i: int| 0 < i < t.len() implies #[trigger] t[i] != p by {
        assert(t[i] == all[i]);
        assert(all[i] == w[i - 1]);
        assert(w.contains(w[i - 1]));
    }
    assert forall|x: Seq<char>| #[trigger] t.contains(x) implies x == p || s.contains(x) by {
        let i = choose|i: int| 0 <= i < t.len() && t[i] == x;
        if i > 0 {
            assert(all[i] == w[i - 1]);
            assert(w.contains(w[i - 1]));
        }
    }
    if no_duplicates(s) {
        assert forall|i: int, j: int| 0 <= i < j < t.len() implies #[trigger] t[i] != #[trigger] t[j] by {
            assert(t[i] == all[i] && t[j] == all[j]);
            if i == 0 {
                assert(all[j] == w[j - 1]);
                assert(w.contains(w[j - 1]));
            } else {
                assert(all[i] == w[i - 1] && all[j] == w[j - 1]);
            }
        }
    }
}

} // verus!
