//! The choice of the group that speaks to a user agent.

use vstd::prelude::*;

verus! {

/// A user-agent token of a group, as written and in lowercase.
#[derive(Debug)]
pub struct AgentToken {
    pub raw: Vec<char>,
    pub lower: Vec<char>,
}

/// The mathematical value of an [`AgentToken`].
pub struct AgentTokenView {
    pub raw: Seq<char>,
    pub lower: Seq<char>,
}

impl View for AgentToken {
    type V = AgentTokenView;

    open spec fn view(&self) -> AgentTokenView {
        AgentTokenView { raw: self.raw@, lower: self.lower@ }
    }
}

impl DeepView for AgentToken {
    type V = AgentTokenView;

    open spec fn deep_view(&self) -> AgentTokenView {
        self@
    }
}

/// The length of a token that is a prefix of the user agent, both in
/// lowercase; 0 for a token that is none, and for `*`.
pub open spec fn token_prefix_len(t: AgentTokenView, ua: Seq<char>) -> nat {
    if t.lower.is_prefix_of(ua) && t.lower != seq!['*'] {
        t.lower.len()
    } else {
        0
    }
}

/// Tells whether a group names the user agent exactly, case aside.
pub open spec fn group_exact(g: Seq<AgentTokenView>, ua: Seq<char>) -> bool {
    exists|k: int| 0 <= k < g.len() && (#[trigger] g[k]).lower == ua
}

/// Tells whether a group has a token of length `n` or more that is a prefix
/// of the user agent.
pub open spec fn group_prefix_reaches(g: Seq<AgentTokenView>, ua: Seq<char>, n: nat) -> bool {
    exists|k: int| 0 <= k < g.len() && token_prefix_len(#[trigger] g[k], ua) >= n
}

/// Tells whether a group speaks to every user agent.
pub open spec fn group_wildcard(g: Seq<AgentTokenView>) -> bool {
    exists|k: int| 0 <= k < g.len() && (#[trigger] g[k]).raw == seq!['*']
}

/// Tells whether some group names the user agent exactly.
pub open spec fn any_exact(groups: Seq<Seq<AgentTokenView>>, ua: Seq<char>) -> bool {
    exists|i: int| 0 <= i < groups.len() && group_exact(#[trigger] groups[i], ua)
}

/// Tells whether some group has a nonempty token that is a prefix of the
/// user agent.
pub open spec fn any_prefix(groups: Seq<Seq<AgentTokenView>>, ua: Seq<char>) -> bool {
    exists|i: int| 0 <= i < groups.len() && group_prefix_reaches(#[trigger] groups[i], ua, 1)
}

/// Tells whether group `i` is the first that names the user agent exactly.
pub open spec fn is_first_exact(groups: Seq<Seq<AgentTokenView>>, ua: Seq<char>, i: int) -> bool {
    &&& 0 <= i < groups.len()
    &&& group_exact(groups[i], ua)
    &&& forall|j: int| 0 <= j < i ==> !group_exact(#[trigger] groups[j], ua)
}

/// Tells whether group `i` is the first of those with the longest token
/// that is a prefix of the user agent.
pub open spec fn is_longest_prefix(groups: Seq<Seq<AgentTokenView>>, ua: Seq<char>, i: int) -> bool {
    &&& 0 <= i < groups.len()
    &&& exists|n: nat|
        {
            &&& n >= 1
            &&& #[trigger] group_prefix_reaches(groups[i], ua, n)
            &&& forall|j: int|
                0 <= j < groups.len() ==> !group_prefix_reaches(
                    #[trigger] groups[j],
                    ua,
                    n + 1,
                )
            &&& forall|j: int| 0 <= j < i ==> !group_prefix_reaches(#[trigger] groups[j], ua, n)
        }
}

/// Tells whether group `i` is the first that speaks to every user agent.
pub open spec fn is_first_wildcard(groups: Seq<Seq<AgentTokenView>>, i: int) -> bool {
    &&& 0 <= i < groups.len()
    &&& group_wildcard(groups[i])
    &&& forall|j: int| 0 <= j < i ==> !group_wildcard(#[trigger] groups[j])
}

/// Tells whether group `i` is the one that speaks to the user agent, given
/// in lowercase: the first group that names it exactly; else the first of
/// those with the longest token that is a prefix of it; else the first
/// group for `*`.
pub open spec fn is_selected_index(groups: Seq<Seq<AgentTokenView>>, ua: Seq<char>, i: int) -> bool {
    if any_exact(groups, ua) {
        is_first_exact(groups, ua, i)
    } else if any_prefix(groups, ua) {
        is_longest_prefix(groups, ua, i)
    } else {
        is_first_wildcard(groups, i)
    }
}

/// The index of the group that speaks to the user agent, if there is one.
pub open spec fn selected_group(groups: Seq<Seq<AgentTokenView>>, ua: Seq<char>) -> Option<int> {
    if exists|i: int| is_selected_index(groups, ua, i) {
        Some(choose|i: int| is_selected_index(groups, ua, i))
    } else {
        None
    }
}

proof fn lemma_reaches_less(g: Seq<AgentTokenView>, ua: Seq<char>, n: nat, m: nat)
    requires
        group_prefix_reaches(g, ua, n),
        m <= n,
    ensures
        group_prefix_reaches(g, ua, m),
{
    let k = choose|k: int| 0 <= k < g.len() && token_prefix_len(#[trigger] g[k], ua) >= n;
    assert(token_prefix_len(g[k], ua) >= m);
}

/// At most one group is selected.
pub proof fn lemma_selected_index_unique(
    groups: Seq<Seq<AgentTokenView>>,
    ua: Seq<char>,
    a: int,
    b: int,
)
    requires
        is_selected_index(groups, ua, a),
        is_selected_index(groups, ua, b),
    ensures
        a == b,
{
    if !any_exact(groups, ua) && any_prefix(groups, ua) {
        let na = choose|n: nat|
            {
                &&& n >= 1
                &&& #[trigger] group_prefix_reaches(groups[a], ua, n)
                &&& forall|j: int|
                    0 <= j < groups.len() ==> !group_prefix_reaches(
                        #[trigger] groups[j],
                        ua,
                        n + 1,
                    )
                &&& forall|j: int|
                    0 <= j < a ==> !group_prefix_reaches(#[trigger] groups[j], ua, n)
            };
        let nb = choose|n: nat|
            {
                &&& n >= 1
                &&& #[trigger] group_prefix_reaches(groups[b], ua, n)
                &&& forall|j: int|
                    0 <= j < groups.len() ==> !group_prefix_reaches(
                        #[trigger] groups[j],
                        ua,
                        n + 1,
                    )
                &&& forall|j: int|
                    0 <= j < b ==> !group_prefix_reaches(#[trigger] groups[j], ua, n)
            };
        if na < nb {
            lemma_reaches_less(groups[b], ua, nb, na + 1);
            assert(!group_prefix_reaches(groups[b], ua, na + 1));
        } else if nb < na {
            lemma_reaches_less(groups[a], ua, na, nb + 1);
            assert(!group_prefix_reaches(groups[a], ua, nb + 1));
        } else if a < b {
            assert(!group_prefix_reaches(groups[a], ua, nb));
        } else if b < a {
            assert(!group_prefix_reaches(groups[b], ua, na));
        }
    } else if a < b {
        if any_exact(groups, ua) {
            assert(!group_exact(groups[a], ua));
        } else {
            assert(!group_wildcard(groups[a]));
        }
    } else if b < a {
        if any_exact(groups, ua) {
            assert(!group_exact(groups[b], ua));
        } else {
            assert(!group_wildcard(groups[b]));
        }
    }
}

fn tokens_exact(tokens: &Vec<AgentToken>, ua: &Vec<char>) -> (r: bool)
    ensures
        r == group_exact(tokens.deep_view(), ua@),
{
    let ghost g = tokens.deep_view();
    let mut k: usize = 0;
    while k < tokens.len()
        invariant
            k <= tokens.len(),
            g == tokens.deep_view(),
            forall|x: int| 0 <= x < k ==> (#[trigger] g[x]).lower != ua@,
        decreases tokens.len() - k,
    {
        assert(g[k as int] == tokens[k as int]@);
        if crate::text::same_chars(&tokens[k].lower, ua) {
            return true;
        }
        k += 1;
    }
    false
}

fn tokens_wildcard(tokens: &Vec<AgentToken>) -> (r: bool)
    ensures
        r == group_wildcard(tokens.deep_view()),
{
    let ghost g = tokens.deep_view();
    let mut k: usize = 0;
    while k < tokens.len()
        invariant
            k <= tokens.len(),
            g == tokens.deep_view(),
            forall|x: int| 0 <= x < k ==> (#[trigger] g[x]).raw != seq!['*'],
        decreases tokens.len() - k,
    {
        assert(g[k as int] == tokens[k as int]@);
        let raw = &tokens[k].raw;
        if raw.len() == 1 && raw[0] == '*' {
            assert(raw@ =~= seq!['*']);
            return true;
        }
        assert(raw@ != seq!['*']) by {
            if raw@ == seq!['*'] {
                assert(seq!['*'].len() == 1);
                assert(seq!['*'][0] == '*');
            }
        }
        k += 1;
    }
    false
}

fn tokens_prefix_len(tokens: &Vec<AgentToken>, ua: &Vec<char>) -> (r: usize)
    ensures
        forall|n: nat|
            n >= 1 ==> (#[trigger] group_prefix_reaches(tokens.deep_view(), ua@, n) <==> n <= r),
{
    let ghost g = tokens.deep_view();
    let mut best: usize = 0;
    let mut k: usize = 0;
    while k < tokens.len()
        invariant
            k <= tokens.len(),
            g == tokens.deep_view(),
            forall|x: int| 0 <= x < k ==> token_prefix_len(#[trigger] g[x], ua@) <= best,
            best >= 1 ==> exists|x: int| 0 <= x < k && token_prefix_len(#[trigger] g[x], ua@) == best,
        decreases tokens.len() - k,
    {
        assert(g[k as int] == tokens[k as int]@);
        let lower = &tokens[k].lower;
        let star = lower.len() == 1 && lower[0] == '*';
        proof {
            if star {
                assert(lower@ =~= seq!['*']);
            } else if lower@ == seq!['*'] {
                assert(seq!['*'].len() == 1);
                assert(seq!['*'][0] == '*');
            }
        }
        if !star && crate::text::starts_with(ua, lower) && lower.len() > best {
            best = lower.len();
        }
        k += 1;
    }
    assert forall|n: nat| n >= 1 implies (#[trigger] group_prefix_reaches(g, ua@, n) <==> n
        <= best) by {
        if n <= best {
            let x = choose|x: int| 0 <= x < g.len() && token_prefix_len(#[trigger] g[x], ua@) == best;
            assert(token_prefix_len(g[x], ua@) >= n);
        }
    }
    best
}

/// Picks the group that speaks to a user agent. `groups` holds the tokens of
/// each group and `ua` the user agent in lowercase.
pub fn select_group(groups: &Vec<Vec<AgentToken>>, ua: &Vec<char>) -> (r: Option<usize>)
    ensures
        match r {
            Some(i) => selected_group(groups.deep_view(), ua@) == Some(i as int),
            None => selected_group(groups.deep_view(), ua@) is None,
        },
{
    let ghost views = groups.deep_view();
    let n = groups.len();
    // An exact name wins.
    let mut i: usize = 0;
    while i < n
        invariant
            i <= n == groups.len(),
            views == groups.deep_view(),
            forall|j: int| 0 <= j < i ==> !group_exact(#[trigger] views[j], ua@),
        decreases n - i,
    {
        assert(views[i as int] == groups[i as int].deep_view());
        if tokens_exact(&groups[i], ua) {
            proof {
                assert(is_selected_index(views, ua@, i as int));
                let c = choose|c: int| is_selected_index(views, ua@, c);
                lemma_selected_index_unique(views, ua@, c, i as int);
            }
            return Some(i);
        }
        i += 1;
    }
    assert(!any_exact(views, ua@));
    // Then the longest prefix.
    let mut best: usize = 0;
    let mut at: usize = 0;
    let mut i: usize = 0;
    while i < n
        invariant
            i <= n == groups.len(),
            views == groups.deep_view(),
            forall|j: int| 0 <= j < i ==> !group_prefix_reaches(#[trigger] views[j], ua@, (best + 1) as nat),
            best >= 1 ==> at < i && group_prefix_reaches(views[at as int], ua@, best as nat),
            best >= 1 ==> forall|j: int| 0 <= j < at ==> !group_prefix_reaches(#[trigger] views[j], ua@, best as nat),
        decreases n - i,
    {
        assert(views[i as int] == groups[i as int].deep_view());
        let len = tokens_prefix_len(&groups[i], ua);
        if len > best {
            proof {
                assert(group_prefix_reaches(views[i as int], ua@, len as nat));
                assert forall|j: int| 0 <= j < i implies !group_prefix_reaches(
                    #[trigger] views[j],
                    ua@,
                    len as nat,
                ) by {
                    if group_prefix_reaches(views[j], ua@, len as nat) {
                        lemma_reaches_less(views[j], ua@, len as nat, (best + 1) as nat);
                    }
                }
                assert(!group_prefix_reaches(views[i as int], ua@, (len + 1) as nat));
                assert forall|j: int| 0 <= j < i + 1 implies !group_prefix_reaches(
                    #[trigger] views[j],
                    ua@,
                    (len + 1) as nat,
                ) by {
                    if j < i && group_prefix_reaches(views[j], ua@, (len + 1) as nat) {
                        lemma_reaches_less(views[j], ua@, (len + 1) as nat, (best + 1) as nat);
                    }
                }
            }
            best = len;
            at = i;
        } else {
            assert(!group_prefix_reaches(views[i as int], ua@, (best + 1) as nat));
        }
        i += 1;
    }
    if best >= 1 {
        proof {
            lemma_reaches_less(views[at as int], ua@, best as nat, 1);
            assert(any_prefix(views, ua@));
            assert(is_longest_prefix(views, ua@, at as int));
            assert(is_selected_index(views, ua@, at as int));
            let c = choose|c: int| is_selected_index(views, ua@, c);
            lemma_selected_index_unique(views, ua@, c, at as int);
        }
        return Some(at);
    }
    assert(!any_prefix(views, ua@));
    // Then the group for every user agent.
    let mut i: usize = 0;
    while i < n
        invariant
            i <= n == groups.len(),
            views == groups.deep_view(),
            !any_exact(views, ua@),
            !any_prefix(views, ua@),
            forall|j: int| 0 <= j < i ==> !group_wildcard(#[trigger] views[j]),
        decreases n - i,
    {
        assert(views[i as int] == groups[i as int].deep_view());
        if tokens_wildcard(&groups[i]) {
            proof {
                assert(is_selected_index(views, ua@, i as int));
                let c = choose|c: int| is_selected_index(views, ua@, c);
                lemma_selected_index_unique(views, ua@, c, i as int);
            }
            return Some(i);
        }
        i += 1;
    }
    assert forall|c: int| !is_selected_index(views, ua@, c) by {
        if is_first_wildcard(views, c) {
            assert(!group_wildcard(views[c]));
        }
    }
    None
}

} // verus!
