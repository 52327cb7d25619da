//! Shell-style globs for file names.
use crate::text;
use vstd::prelude::*;

verus! {

/// Whether the glob matches the whole name: `*` stands for any run of
/// characters, `?` for any one, and any other character for itself.
pub open spec fn matches(pattern: Seq<char>, name: Seq<char>) -> bool
    decreases pattern.len(), name.len(),
{
    if pattern.len() == 0 {
        name.len() == 0
    } else if pattern[0] == '*' {
        matches(pattern.skip(1), name) || (name.len() > 0 && matches(pattern, name.skip(1)))
    } else {
        name.len() > 0 && (pattern[0] == '?' || pattern[0] == name[0]) && matches(
            pattern.skip(1),
            name.skip(1),
        )
    }
}

/// Whether what is left of the glob from `p` matches what is left of the name
/// from `n`.
spec fn rest_matches(pattern: Seq<char>, name: Seq<char>, p: int, n: int) -> bool {
    matches(pattern.skip(p), name.skip(n))
}

proof fn lemma_unfold(pattern: Seq<char>, name: Seq<char>, p: int, n: int)
    requires
        0 <= p <= pattern.len(),
        0 <= n <= name.len(),
    ensures
        rest_matches(pattern, name, p, n) == if p == pattern.len() {
            n == name.len()
        } else if pattern[p] == '*' {
            rest_matches(pattern, name, p + 1, n) || (n < name.len() && rest_matches(
                pattern,
                name,
                p,
                n + 1,
            ))
        } else {
            n < name.len() && (pattern[p] == '?' || pattern[p] == name[n]) && rest_matches(
                pattern,
                name,
                p + 1,
                n + 1,
            )
        },
{
    if p < pattern.len() {
        assert(pattern.skip(p).skip(1) =~= pattern.skip(p + 1));
    }
    if n < name.len() {
        assert(name.skip(n).skip(1) =~= name.skip(n + 1));
    }
}

/// A star that matches later in the name matches earlier as well.
proof fn lemma_star_absorbs(pattern: Seq<char>, name: Seq<char>, p: int, n: int, later: int)
    requires
        0 <= p < pattern.len(),
        pattern[p] == '*',
        0 <= n <= later <= name.len(),
        rest_matches(pattern, name, p, later),
    ensures
        rest_matches(pattern, name, p, n),
    decreases later - n,
{
    if n < later {
        lemma_star_absorbs(pattern, name, p, n + 1, later);
        lemma_unfold(pattern, name, p, n);
    }
}

/// A stretch of the glob without a star takes as many characters as it has.
proof fn lemma_stretch(pattern: Seq<char>, name: Seq<char>, from: int, to: int, n: int)
    requires
        0 <= from <= to <= pattern.len(),
        0 <= n <= name.len(),
        forall|i: int| from <= i < to ==> #[trigger] pattern[i] != '*',
        rest_matches(pattern, name, from, n),
    ensures
        n + (to - from) <= name.len(),
        rest_matches(pattern, name, to, n + (to - from)),
    decreases to - from,
{
    if from < to {
        lemma_unfold(pattern, name, from, n);
        lemma_stretch(pattern, name, from + 1, to, n + 1);
    }
}

/// Where a star at `sp` lets the rest of the glob match from `n` on, the stretch
/// behind the star fits from `n` on, and a next star may take the rest.
proof fn lemma_star_then_stretch(
    pattern: Seq<char>,
    name: Seq<char>,
    sp: int,
    to: int,
    n: int,
)
    requires
        0 <= sp < to <= pattern.len(),
        pattern[sp] == '*',
        forall|i: int| sp < i < to ==> #[trigger] pattern[i] != '*',
        0 <= n <= name.len(),
        rest_matches(pattern, name, sp, n),
    ensures
        n + (to - sp - 1) <= name.len(),
        to < pattern.len() && pattern[to] == '*' ==> rest_matches(
            pattern,
            name,
            to,
            n + (to - sp - 1),
        ),
    decreases name.len() - n,
{
    lemma_unfold(pattern, name, sp, n);
    if rest_matches(pattern, name, sp + 1, n) {
        lemma_stretch(pattern, name, sp + 1, to, n);
    } else {
        lemma_star_then_stretch(pattern, name, sp, to, n + 1);
        if to < pattern.len() && pattern[to] == '*' {
            lemma_star_absorbs(pattern, name, to, n + (to - sp - 1), n + 1 + (to - sp - 1));
        }
    }
}

/// Whether the glob matches the whole name.
pub fn glob_match(pattern: &str, name: &str) -> (r: bool)
    ensures
        r == matches(pattern@, name@),
{
    let globs = text::chars_of(pattern);
    let chars = text::chars_of(name);
    let ghost pat = globs@;
    let ghost nam = chars@;
    let mut p: usize = 0;
    let mut n: usize = 0;
    let mut star: Option<(usize, usize)> = None;
    assert(pat.skip(0) =~= pat && nam.skip(0) =~= nam);
    while n < chars.len()
        invariant
            p <= globs.len(),
            n <= chars.len(),
            globs@ == pat,
            pattern@ == pat,
            chars@ == nam,
            name@ == nam,
            star is None ==> matches(pat, nam) == rest_matches(pat, nam, p as int, n as int),
            star matches Some((sp, sn)) ==> {
                &&& sp < p
                &&& sn <= n
                &&& p - sp - 1 == n - sn
                &&& pat[sp as int] == '*'
                &&& forall|i: int| sp < i < p ==> #[trigger] pat[i] != '*'
                &&& matches(pat, nam) == rest_matches(pat, nam, sp as int, sn as int)
                &&& rest_matches(pat, nam, sp + 1, sn as int) == rest_matches(
                    pat,
                    nam,
                    p as int,
                    n as int,
                )
            },
        decreases
            chars.len() - (match star {
                Some((_, sn)) => sn as int,
                None => -1,
            }),
            globs.len() - p,
    {
        proof {
            lemma_unfold(pat, nam, p as int, n as int);
            if let Some((sp, sn)) = star {
                lemma_unfold(pat, nam, sp as int, sn as int);
            }
        }
        if p < globs.len() && globs[p] == '*' {
            proof {
                if let Some((sp, sn)) = star {
                    if rest_matches(pat, nam, sp as int, sn as int) {
                        lemma_star_then_stretch(pat, nam, sp as int, p as int, sn as int);
                    }
                }
            }
            star = Some((p, n));
            p += 1;
        } else if p < globs.len() && (globs[p] == '?' || globs[p] == chars[n]) {
            p += 1;
            n += 1;
        } else {
            match star {
                Some((sp, sn)) => {
                    p = sp + 1;
                    n = sn + 1;
                    star = Some((sp, n));
                },
                None => {
                    return false;
                },
            }
        }
    }
    proof {
        if let Some((sp, sn)) = star {
            lemma_unfold(pat, nam, sp as int, sn as int);
            if sn < nam.len() && rest_matches(pat, nam, sp as int, sn + 1) {
                lemma_star_then_stretch(pat, nam, sp as int, p as int, sn + 1);
            }
        }
        assert(matches(pat, nam) == rest_matches(pat, nam, p as int, n as int));
    }
    while p < globs.len() && globs[p] == '*'
        invariant
            p <= globs.len(),
            n == chars.len(),
            globs@ == pat,
            pattern@ == pat,
            chars@ == nam,
            name@ == nam,
            matches(pat, nam) == rest_matches(pat, nam, p as int, n as int),
        decreases globs.len() - p,
    {
        proof {
            lemma_unfold(pat, nam, p as int, n as int);
        }
        p += 1;
    }
    proof {
        lemma_unfold(pat, nam, p as int, n as int);
    }
    p == globs.len()
}

/// A lone star matches every name.
pub proof fn law_star_matches_everything(name: Seq<char>)
    ensures
        matches(seq!['*'], name),
    decreases name.len(),
{
    let star = seq!['*'];
    if name.len() > 0 {
        law_star_matches_everything(name.skip(1));
    } else {
        assert(star.skip(1) =~= Seq::empty());
        assert(matches(star.skip(1), name));
    }
}

/// A glob without wildcards matches the name that it spells and no other.
pub proof fn law_plain_glob_matches_itself_only(pattern: Seq<char>, name: Seq<char>)
    requires
        !pattern.contains('*'),
        !pattern.contains('?'),
    ensures
        matches(pattern, name) == (pattern == name),
    decreases pattern.len(),
{
    if pattern.len() > 0 {
        assert(pattern.contains(pattern[0]));
        if name.len() > 0 {
            let p = pattern.skip(1);
            assert forall|c: char| p.contains(c) implies pattern.contains(c) by {
                let i = choose|i: int| 0 <= i < p.len() && p[i] == c;
                assert(pattern[i + 1] == c);
            }
            law_plain_glob_matches_itself_only(p, name.skip(1));
            if p == name.skip(1) && pattern[0] == name[0] {
                assert(pattern =~= name) by {
                    assert forall|i: int| 0 <= i < pattern.len() implies pattern[i] == name[i] by {
                        if i > 0 {
                            assert(p[i - 1] == name.skip(1)[i - 1]);
                        }
                    }
                }
            }
        }
    } else {
        assert(name.len() == 0 ==> pattern =~= name);
    }
}

/// A glob of a star and a plain ending matches exactly the names with that
/// ending.
pub proof fn law_star_and_ending_matches_the_ending(ending: Seq<char>, name: Seq<char>)
    requires
        !ending.contains('*'),
        !ending.contains('?'),
    ensures
        matches(seq!['*'] + ending, name) == text::ends_with(name, ending),
    decreases name.len(),
{
    let pattern = seq!['*'] + ending;
    assert(pattern.skip(1) =~= ending);
    law_plain_glob_matches_itself_only(ending, name);
    if name.len() > 0 {
        law_star_and_ending_matches_the_ending(ending, name.skip(1));
        let i = name.len() - ending.len();
        if i > 0 {
            assert(name.skip(1).subrange(i - 1, i - 1 + ending.len()) =~= name.subrange(
                i,
                i + ending.len(),
            ));
        } else if i == 0 {
            assert(name.subrange(0, ending.len() as int) =~= name);
        }
    } else {
        assert(ending.len() == 0 ==> name.subrange(0, 0) =~= ending);
        assert(ending == name <==> ending.len() == 0) by {
            assert(ending.len() == 0 ==> ending =~= name);
        }
    }
}

/// A plain character stands for itself and `?` for any one character, whatever
/// follows; neither matches where the name is over.
pub proof fn law_characters_are_taken_one_by_one(
    first: char,
    pattern: Seq<char>,
    c: char,
    name: Seq<char>,
)
    requires
        first != '*',
    ensures
        matches(seq![first] + pattern, seq![c] + name) <==> (first == '?' || first == c) && matches(
            pattern,
            name,
        ),
        !matches(seq![first] + pattern, Seq::<char>::empty()),
        !matches(Seq::<char>::empty(), seq![c] + name),
        matches(Seq::<char>::empty(), Seq::<char>::empty()),
{
    assert((seq![first] + pattern).skip(1) =~= pattern);
    assert((seq![c] + name).skip(1) =~= name);
}

/// A star takes any run of characters: what follows it matches some rest of the name.
pub proof fn law_a_star_takes_any_run(pattern: Seq<char>, run: Seq<char>, rest: Seq<char>)
    ensures
        matches(pattern, rest) ==> matches(seq!['*'] + pattern, run + rest),
    decreases run.len(),
{
    let starred = seq!['*'] + pattern;
    assert(starred.skip(1) =~= pattern);
    if run.len() == 0 {
        assert(run + rest =~= rest);
    } else {
        law_a_star_takes_any_run(pattern, run.skip(1), rest);
        assert((run + rest).skip(1) =~= run.skip(1) + rest);
    }
}

/// And nothing but a run of characters: where no rest of the name matches what
/// follows the star, neither does the name match.
pub proof fn law_a_star_takes_only_a_run(pattern: Seq<char>, name: Seq<char>)
    requires
        forall|k: int| 0 <= k <= name.len() ==> !matches(pattern, #[trigger] name.skip(k)),
    ensures
        !matches(seq!['*'] + pattern, name),
    decreases name.len(),
{
    let starred = seq!['*'] + pattern;
    assert(starred.skip(1) =~= pattern);
    assert(name.skip(0) =~= name);
    if name.len() > 0 {
        let shorter = name.skip(1);
        assert forall|k: int| 0 <= k <= shorter.len() implies !matches(
            pattern,
            #[trigger] shorter.skip(k),
        ) by {
            assert(shorter.skip(k) =~= name.skip(k + 1));
        }
        law_a_star_takes_only_a_run(pattern, shorter);
    }
}

} // verus!
