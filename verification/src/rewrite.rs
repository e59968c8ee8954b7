//! The rewrite policy's string logic: sequential, left-to-right replacement of
//! all non-overlapping occurrences of each pattern in an ordered rule list.

use vstd::prelude::*;

verus! {

/// The result of replacing every non-overlapping occurrence of `pat` in `s`
/// with `rep`, scanning left to right. An empty pattern matches at every
/// character boundary, so `rep` is then inserted before and after every
/// character of `s`.
pub open spec fn replace_all(s: Seq<char>, pat: Seq<char>, rep: Seq<char>) -> Seq<char>
    decreases s.len(),
{
    if pat.len() == 0 {
        if s.len() == 0 {
            rep
        } else {
            rep + seq![s[0]] + replace_all(s.skip(1), pat, rep)
        }
    } else if s.len() < pat.len() {
        s
    } else if s.subrange(0, pat.len() as int) == pat {
        rep + replace_all(s.skip(pat.len() as int), pat, rep)
    } else {
        seq![s[0]] + replace_all(s.skip(1), pat, rep)
    }
}

/// `pat` stands somewhere in `s` as a contiguous run of characters.
pub open spec fn occurs(s: Seq<char>, pat: Seq<char>) -> bool {
    exists|i: int|
        #![trigger s.subrange(i, i + pat.len() as int)]
        0 <= i && i + pat.len() <= s.len() && s.subrange(i, i + pat.len() as int) == pat
}

/// Applies each `(pattern, replacement)` rule in order, each to the result of
/// the previous step; an empty rule list gives `s` back.
pub open spec fn rewrite_spec(rules: Seq<(Seq<char>, Seq<char>)>, s: Seq<char>) -> Seq<char>
    decreases rules.len(),
{
    if rules.len() == 0 {
        s
    } else {
        rewrite_spec(rules.skip(1), replace_all(s, rules[0].0, rules[0].1))
    }
}

/// The mathematical content of a replacement list: each pair of strings as a
/// pair of character sequences, in the same order.
pub open spec fn rules_view(rules: Seq<(String, String)>) -> Seq<(Seq<char>, Seq<char>)> {
    rules.map(|i: int, p: (String, String)| (p.0@, p.1@))
}

/// A pattern that occurs nowhere in `s` leaves `s` unchanged, whatever the
/// replacement.
pub proof fn lemma_replace_all_no_occurrence(s: Seq<char>, pat: Seq<char>, rep: Seq<char>)
    requires
        !occurs(s, pat),
    ensures
        replace_all(s, pat, rep) == s,
    decreases s.len(),
{
    if pat.len() == 0 {
        assert(s.subrange(0, 0 + pat.len() as int) =~= pat);
        assert(occurs(s, pat));
    } else if s.len() < pat.len() {
    } else {
        if s.subrange(0, pat.len() as int) == pat {
            assert(s.subrange(0, 0 + pat.len() as int) == pat);
            assert(occurs(s, pat));
        }
        assert(!occurs(s.skip(1), pat)) by {
            if occurs(s.skip(1), pat) {
                let i = choose|i: int|
                    #![trigger s.skip(1).subrange(i, i + pat.len() as int)]
                    0 <= i && i + pat.len() <= s.skip(1).len()
                        && s.skip(1).subrange(i, i + pat.len() as int) == pat;
                assert(s.subrange(i + 1, i + 1 + pat.len() as int) =~= s.skip(1).subrange(
                    i,
                    i + pat.len() as int,
                ));
                assert(occurs(s, pat));
            }
        }
        lemma_replace_all_no_occurrence(s.skip(1), pat, rep);
        assert(seq![s[0]] + s.skip(1) =~= s);
    }
}

/// An empty rule list rewrites every string to itself.
pub proof fn lemma_rewrite_no_rules(s: Seq<char>)
    ensures
        rewrite_spec(Seq::<(Seq<char>, Seq<char>)>::empty(), s) == s,
{
}

/// Rules apply sequentially, not simultaneously: the first rule rewrites the
/// input, and the remaining rules rewrite that intermediate result.
pub proof fn lemma_rewrite_sequential(rules: Seq<(Seq<char>, Seq<char>)>, s: Seq<char>)
    requires
        rules.len() > 0,
    ensures
        rewrite_spec(rules, s) == rewrite_spec(
            rules.skip(1),
            replace_all(s, rules[0].0, rules[0].1),
        ),
{
}

/// A string in which no rule's pattern occurs is a fixed point of the rewrite.
pub proof fn lemma_rewrite_fixed_point(rules: Seq<(Seq<char>, Seq<char>)>, t: Seq<char>)
    requires
        forall|k: int| #![trigger rules[k]] 0 <= k < rules.len() ==> !occurs(t, rules[k].0),
    ensures
        rewrite_spec(rules, t) == t,
    decreases rules.len(),
{
    if rules.len() > 0 {
        assert(!occurs(t, rules[0].0));
        lemma_replace_all_no_occurrence(t, rules[0].0, rules[0].1);
        assert forall|k: int| #![trigger rules.skip(1)[k]]
            0 <= k < rules.skip(1).len() implies !occurs(t, rules.skip(1)[k].0) by {
            assert(rules.skip(1)[k] == rules[k + 1]);
        }
        lemma_rewrite_fixed_point(rules.skip(1), t);
    }
}

/// Once a rewrite has reached a string in which no rule's pattern occurs any
/// more, applying the same rule list again gives that string back unchanged.
pub proof fn lemma_rewrite_idempotent(rules: Seq<(Seq<char>, Seq<char>)>, s: Seq<char>)
    requires
        forall|k: int| #![trigger rules[k]]
            0 <= k < rules.len() ==> !occurs(rewrite_spec(rules, s), rules[k].0),
    ensures
        rewrite_spec(rules, rewrite_spec(rules, s)) == rewrite_spec(rules, s),
{
    lemma_rewrite_fixed_point(rules, rewrite_spec(rules, s));
}

/// True exactly when `pat` matches in `s` at character position `i`.
fn match_at(s: &str, i: usize, pat: &str) -> (b: bool)
    requires
        i + pat@.len() <= s@.len(),
        s@.len() <= usize::MAX,
    ensures
        b <==> s@.subrange(i as int, i as int + pat@.len() as int) == pat@,
{
    let m = pat.unicode_len();
    let mut j: usize = 0;
    while j < m
        invariant
            j <= m,
            m == pat@.len(),
            i + m <= s@.len() <= usize::MAX,
            forall|k: int| 0 <= k < j ==> s@[i + k] == pat@[k],
        decreases m - j,
    {
        if s.get_char(i + j) != pat.get_char(j) {
            assert(s@.subrange(i as int, i as int + pat@.len() as int)[j as int] != pat@[
                j as int
            ]);
            return false;
        }
        j += 1;
    }
    assert(s@.subrange(i as int, i as int + pat@.len() as int) =~= pat@);
    true
}

/// Replaces every non-overlapping occurrence of `pat` in `s` with `rep`,
/// scanning left to right.
pub fn replace_all_str(s: &str, pat: &str, rep: &str) -> (r: String)
    ensures
        r@ == replace_all(s@, pat@, rep@),
{
    let n = s.unicode_len();
    let m = pat.unicode_len();
    let mut r = String::new();
    let mut i: usize = 0;
    proof {
        assert(s@.skip(0) =~= s@);
        assert(r@ + replace_all(s@.skip(0), pat@, rep@) =~= replace_all(s@, pat@, rep@));
    }
    if m == 0 {
        while i < n
            invariant
                i <= n,
                n == s@.len(),
                pat@.len() == 0,
                replace_all(s@, pat@, rep@) == r@ + replace_all(s@.skip(i as int), pat@, rep@),
            decreases n - i,
        {
            r.append(rep);
            let c = s.substring_char(i, i + 1);
            r.append(c);
            proof {
                assert(s@.skip(i as int)[0] == s@[i as int]);
                assert(seq![s@[i as int]] =~= s@.subrange(i as int, i as int + 1));
                assert(s@.skip(i as int).skip(1) =~= s@.skip(i as int + 1));
            }
            i += 1;
        }
        proof {
            assert(s@.skip(n as int) =~= Seq::<char>::empty());
        }
        r.append(rep);
        r
    } else {
        while i < n
            invariant
                i <= n,
                n == s@.len(),
                m == pat@.len(),
                m > 0,
                replace_all(s@, pat@, rep@) == r@ + replace_all(s@.skip(i as int), pat@, rep@),
            decreases n - i,
        {
            if m <= n - i && match_at(s, i, pat) {
                r.append(rep);
                proof {
                    assert(s@.skip(i as int).subrange(0, m as int) =~= s@.subrange(
                        i as int,
                        i as int + m as int,
                    ));
                    assert(s@.skip(i as int).skip(m as int) =~= s@.skip(i as int + m as int));
                }
                i += m;
            } else {
                let c = s.substring_char(i, i + 1);
                r.append(c);
                proof {
                    let suf = s@.skip(i as int);
                    assert(suf[0] == s@[i as int]);
                    assert(seq![s@[i as int]] =~= s@.subrange(i as int, i as int + 1));
                    assert(suf.skip(1) =~= s@.skip(i as int + 1));
                    if m <= n - i {
                        assert(suf.subrange(0, m as int) =~= s@.subrange(
                            i as int,
                            i as int + m as int,
                        ));
                    } else {
                        assert(suf =~= seq![s@[i as int]] + s@.skip(i as int + 1));
                    }
                }
                i += 1;
            }
        }
        proof {
            assert(s@.skip(n as int) =~= Seq::<char>::empty());
            assert(r@ + replace_all(s@.skip(n as int), pat@, rep@) =~= r@);
        }
        r
    }
}

/// Applies each replacement pair in `rules`, in order, to `input`: at each
/// step every non-overlapping occurrence of the pair's pattern is replaced.
pub fn apply_rules(rules: &Vec<(String, String)>, input: &str) -> (r: String)
    ensures
        r@ == rewrite_spec(rules_view(rules@), input@),
{
    let mut cur = input.to_owned();
    let mut k: usize = 0;
    proof {
        assert(rules_view(rules@).skip(0) =~= rules_view(rules@));
    }
    while k < rules.len()
        invariant
            k <= rules@.len(),
            rewrite_spec(rules_view(rules@), input@) == rewrite_spec(
                rules_view(rules@).skip(k as int),
                cur@,
            ),
        decreases rules@.len() - k,
    {
        let pair = &rules[k];
        let next = replace_all_str(cur.as_str(), pair.0.as_str(), pair.1.as_str());
        proof {
            let rv = rules_view(rules@);
            assert(rv[k as int] == (rules@[k as int].0@, rules@[k as int].1@));
            assert(rv.skip(k as int)[0] == rv[k as int]);
            assert(rv.skip(k as int).skip(1) =~= rv.skip(k as int + 1));
        }
        cur = next;
        k += 1;
    }
    proof {
        assert(rules_view(rules@).skip(rules@.len() as int) =~= Seq::<(
            Seq<char>,
            Seq<char>,
        )>::empty());
    }
    cur
}

} // verus!
