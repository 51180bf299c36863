//! Path patterns and the choice of the rule that decides on a path.

use vstd::prelude::*;
use crate::check_robots::{Rule, RuleView};
use crate::text::to_chars;

verus! {

/// Tells whether a pattern without end anchor, in which `*` stands for any
/// run of characters, matches the whole of `text`.
pub open spec fn glob_matches(pattern: Seq<char>, text: Seq<char>) -> bool
    decreases pattern.len(), text.len(),
{
    if pattern.len() == 0 {
        text.len() == 0
    } else if pattern.last() == '*' {
        glob_matches(pattern.drop_last(), text) || (text.len() > 0 && glob_matches(
            pattern,
            text.drop_last(),
        ))
    } else {
        text.len() > 0 && text.last() == pattern.last() && glob_matches(
            pattern.drop_last(),
            text.drop_last(),
        )
    }
}

/// Tells whether a rule's pattern matches a path: with a `$` at its end the
/// rest of the pattern matches the whole path, without one the pattern
/// matches a prefix of the path.
pub open spec fn pattern_matches(pattern: Seq<char>, path: Seq<char>) -> bool {
    if pattern.len() > 0 && pattern.last() == '$' {
        glob_matches(pattern.drop_last(), path)
    } else {
        exists|n: int| 0 <= n <= path.len() && #[trigger] glob_matches(pattern, path.take(n))
    }
}

/// Tells whether a rule has a say on a path. A rule with an empty pattern has
/// none.
pub open spec fn rule_applies(rule: RuleView, path: Seq<char>) -> bool {
    rule.pattern.len() > 0 && pattern_matches(rule.pattern, path)
}

/// Tells whether rule `a` ranks at least as high as rule `b`: the longer
/// pattern ranks higher, and of two patterns of one length `Allow` does.
pub open spec fn ranks_at_least(a: RuleView, b: RuleView) -> bool {
    a.pattern.len() > b.pattern.len() || (a.pattern.len() == b.pattern.len() && (a.allow
        || !b.allow))
}

/// Tells whether `rules[k]` is the rule that decides on `path`: the first of
/// the highest ranking rules that apply.
pub open spec fn is_effective_rule(rules: Seq<RuleView>, path: Seq<char>, k: int) -> bool {
    &&& 0 <= k < rules.len()
    &&& rule_applies(rules[k], path)
    &&& forall|j: int|
        0 <= j < rules.len() && rule_applies(#[trigger] rules[j], path) ==> ranks_at_least(
            rules[k],
            rules[j],
        )
    &&& forall|j: int|
        0 <= j < k && rule_applies(#[trigger] rules[j], path) ==> !ranks_at_least(
            rules[j],
            rules[k],
        )
}

/// Tells whether the rules of a group let `path` be fetched: every
/// `Disallow` that applies is answered by an `Allow` that applies and whose
/// pattern is at least as long.
pub open spec fn path_allowed(rules: Seq<RuleView>, path: Seq<char>) -> bool {
    forall|i: int|
        0 <= i < rules.len() && rule_applies(#[trigger] rules[i], path) && !rules[i].allow
            ==> exists|j: int|
            0 <= j < rules.len() && rule_applies(#[trigger] rules[j], path) && rules[j].allow
                && rules[j].pattern.len() >= rules[i].pattern.len()
}

/// The text that explains a match by the rule with the given pattern.
pub open spec fn match_reason(pattern: Seq<char>) -> Seq<char> {
    "pattern '"@ + pattern + "'"@
}

/// The effective rule decides: where there is one, the path is allowed
/// exactly if that rule allows; where no rule applies, the path is allowed.
pub proof fn lemma_effective_rule_decides(rules: Seq<RuleView>, path: Seq<char>, k: int)
    ensures
        is_effective_rule(rules, path, k) ==> (path_allowed(rules, path) <==> rules[k].allow),
        (forall|j: int| 0 <= j < rules.len() ==> !rule_applies(#[trigger] rules[j], path))
            ==> path_allowed(rules, path),
{
    if is_effective_rule(rules, path, k) {
        if rules[k].allow {
            assert forall|i: int|
                0 <= i < rules.len() && rule_applies(#[trigger] rules[i], path)
                    && !rules[i].allow implies exists|j: int|
                0 <= j < rules.len() && rule_applies(#[trigger] rules[j], path) && rules[j].allow
                    && rules[j].pattern.len() >= rules[i].pattern.len() by {
                assert(ranks_at_least(rules[k], rules[i]));
                assert(rule_applies(rules[k], path));
            }
        } else {
            if path_allowed(rules, path) {
                let j = choose|j: int|
                    0 <= j < rules.len() && rule_applies(#[trigger] rules[j], path)
                        && rules[j].allow && rules[j].pattern.len() >= rules[k].pattern.len();
                assert(ranks_at_least(rules[k], rules[j]));
            }
        }
    }
}

/// At most one rule is the effective one.
pub proof fn lemma_effective_rule_unique(rules: Seq<RuleView>, path: Seq<char>, a: int, b: int)
    requires
        is_effective_rule(rules, path, a),
        is_effective_rule(rules, path, b),
    ensures
        a == b,
{
    if a < b {
        assert(ranks_at_least(rules[a], rules[b]));
    } else if b < a {
        assert(ranks_at_least(rules[b], rules[a]));
    }
}

proof fn lemma_glob_step(pattern: Seq<char>, text: Seq<char>, j: int, i: int)
    requires
        0 <= j < pattern.len(),
        0 <= i <= text.len(),
    ensures
        glob_matches(pattern.take(j + 1), text.take(i)) == if pattern[j] == '*' {
            glob_matches(pattern.take(j), text.take(i)) || (i > 0 && glob_matches(
                pattern.take(j + 1),
                text.take(i - 1),
            ))
        } else {
            i > 0 && text[i - 1] == pattern[j] && glob_matches(
                pattern.take(j),
                text.take(i - 1),
            )
        },
{
    let p = pattern.take(j + 1);
    let t = text.take(i);
    assert(p.last() == pattern[j]);
    assert(p.drop_last() == pattern.take(j));
    if i > 0 {
        assert(t.last() == text[i - 1]);
        assert(t.drop_last() == text.take(i - 1));
    }
}

/// One row of the matching table: `first` and `rest` say for each prefix of
/// `text` whether `pattern` matches it, `first` for the empty prefix and
/// `rest[i]` for the prefix of length `i + 1`.
spec fn row_holds(pattern: Seq<char>, text: Seq<char>, first: bool, rest: Seq<bool>, upto: int) -> bool {
    &&& first == glob_matches(pattern, text.take(0))
    &&& forall|i: int| 0 <= i < upto ==> #[trigger] rest[i] == glob_matches(pattern, text.take(i + 1))
}

/// Tells whether `pattern`, in which `*` stands for any run of characters,
/// matches the whole of `text` (`whole`) or some prefix of it.
pub fn glob_match(pattern: &Vec<char>, text: &Vec<char>, whole: bool) -> (r: bool)
    ensures
        whole ==> r == glob_matches(pattern@, text@),
        !whole ==> r == exists|n: int|
            0 <= n <= text@.len() && #[trigger] glob_matches(pattern@, text@.take(n)),
{
    let n = text.len();
    let m = pattern.len();
    let mut first: bool = true;
    let mut rest: Vec<bool> = Vec::new();
    let mut i: usize = 0;
    while i < n
        invariant
            i <= n == text.len(),
            rest.len() == i,
            forall|k: int| 0 <= k < i ==> !(#[trigger] rest@[k]),
        decreases n - i,
    {
        rest.push(false);
        i += 1;
    }
    assert(row_holds(pattern@.take(0), text@, first, rest@, n as int)) by {
        assert forall|k: int| 0 <= k < n implies #[trigger] rest@[k] == glob_matches(
            pattern@.take(0),
            text@.take(k + 1),
        ) by {
            assert(text@.take(k + 1).len() == k + 1);
        }
    }
    let mut j: usize = 0;
    while j < m
        invariant
            j <= m == pattern.len(),
            n == text.len(),
            rest.len() == n,
            row_holds(pattern@.take(j as int), text@, first, rest@, n as int),
        decreases m - j,
    {
        let star = pattern[j] == '*';
        let ghost above_first = first;
        let ghost above = rest@;
        // `diagonal` is the entry of the row above for the prefix one shorter.
        let mut diagonal = first;
        first = star && first;
        proof {
            lemma_glob_step(pattern@, text@, j as int, 0);
        }
        let mut i: usize = 0;
        while i < n
            invariant
                i <= n == text.len(),
                j < m == pattern.len(),
                rest.len() == n,
                above.len() == n,
                star == (pattern@[j as int] == '*'),
                row_holds(pattern@.take(j as int), text@, above_first, above, n as int),
                row_holds(pattern@.take(j + 1), text@, first, rest@, i as int),
                forall|k: int| i <= k < n ==> rest@[k] == above[k],
                diagonal == if i == 0 {
                    above_first
                } else {
                    above[i - 1]
                },
            decreases n - i,
        {
            let up = rest[i];
            let left = if i == 0 {
                first
            } else {
                rest[i - 1]
            };
            let here = if star {
                up || left
            } else {
                text[i] == pattern[j] && diagonal
            };
            proof {
                lemma_glob_step(pattern@, text@, j as int, i + 1);
                assert(up == above[i as int]);
            }
            rest.set(i, here);
            diagonal = up;
            i += 1;
        }
        j += 1;
    }
    assert(pattern@.take(m as int) == pattern@);
    if whole {
        assert(text@.take(n as int) == text@);
        if n == 0 {
            first
        } else {
            rest[n - 1]
        }
    } else {
        if first {
            return true;
        }
        let mut i: usize = 0;
        while i < n
            invariant
                i <= n == text.len(),
                rest.len() == n,
                row_holds(pattern@, text@, first, rest@, n as int),
                !first,
                !whole,
                forall|k: int| 0 <= k < i ==> !(#[trigger] rest@[k]),
            decreases n - i,
        {
            if rest[i] {
                assert(glob_matches(pattern@, text@.take(i + 1)));
                return true;
            }
            i += 1;
        }
        assert forall|k: int| 0 <= k <= n implies !#[trigger] glob_matches(
            pattern@,
            text@.take(k),
        ) by {
            if k > 0 {
                assert(!rest@[k - 1]);
            }
        }
        false
    }
}

/// Tells whether a rule's pattern matches a path.
pub fn matches_pattern(pattern: &str, path: &str) -> (r: bool)
    ensures
        r == pattern_matches(pattern@, path@),
{
    let mut body = to_chars(pattern);
    let text = to_chars(path);
    let anchored = body.len() > 0 && body[body.len() - 1] == '$';
    if anchored {
        body.pop();
    }
    glob_match(&body, &text, anchored)
}

/// Finds the rule that decides on `path`, by its index.
pub fn effective_rule(rules: &[Rule], path: &str) -> (r: Option<usize>)
    ensures
        match r {
            Some(k) => is_effective_rule(rules.deep_view(), path@, k as int),
            None => forall|j: int|
                0 <= j < rules.len() ==> !rule_applies(#[trigger] rules.deep_view()[j], path@),
        },
{
    let ghost views = rules.deep_view();
    let mut best: Option<usize> = None;
    let mut i: usize = 0;
    while i < rules.len()
        invariant
            i <= rules.len(),
            views == rules.deep_view(),
            match best {
                Some(k) => {
                    &&& k < i
                    &&& rule_applies(views[k as int], path@)
                    &&& forall|j: int|
                        0 <= j < i && rule_applies(#[trigger] views[j], path@) ==> ranks_at_least(
                            views[k as int],
                            views[j],
                        )
                    &&& forall|j: int|
                        0 <= j < k && rule_applies(#[trigger] views[j], path@) ==> !ranks_at_least(
                            views[j],
                            views[k as int],
                        )
                },
                None => forall|j: int| 0 <= j < i ==> !rule_applies(#[trigger] views[j], path@),
            },
        decreases rules.len() - i,
    {
        let rule = &rules[i];
        assert(views[i as int] == rule@);
        let length = rule.pattern.as_str().unicode_len();
        if length > 0 && matches_pattern(rule.pattern.as_str(), path) {
            match best {
                None => {
                    best = Some(i);
                },
                Some(k) => {
                    let held = &rules[k];
                    assert(views[k as int] == held@);
                    let held_length = held.pattern.as_str().unicode_len();
                    if length > held_length || (length == held_length && rule.allow
                        && !held.allow) {
                        best = Some(i);
                    }
                },
            }
        }
        i += 1;
    }
    best
}

/// Builds the text that explains a match by the rule with the given pattern.
pub fn reason_for(pattern: &str) -> (r: String)
    ensures
        r@ == match_reason(pattern@),
{
    let mut r = String::from_str("pattern '");
    r.append(pattern);
    r.append("'");
    r
}

} // verus!
