//! Per-host politeness: when a host was last asked, how long it wants to be
//! left alone, and what its robots.txt file says.

use vstd::prelude::*;
use crate::check_robots::{RobotsFetchResult, RobotsFetchResultView};
use crate::numbers::{decimal_text, push_decimal};
use crate::text::{first_index_of, lemma_first_index_of, lemma_first_index_of_bounds};
use crate::web_url::{WebUrl, WebUrlView};

verus! {

/// What is remembered of one host.
#[derive(Debug)]
struct HostState {
    host: String,
    last_fetch: Option<u64>,
    delay: Option<u64>,
    robots: Option<RobotsFetchResult>,
}

struct HostStateView {
    host: Seq<char>,
    last_fetch: Option<u64>,
    delay: Option<u64>,
    robots: Option<RobotsFetchResultView>,
}

impl View for HostState {
    type V = HostStateView;

    closed spec fn view(&self) -> HostStateView {
        HostStateView {
            host: self.host@,
            last_fetch: self.last_fetch,
            delay: self.delay,
            robots: self.robots.deep_view(),
        }
    }
}

impl DeepView for HostState {
    type V = HostStateView;

    closed spec fn deep_view(&self) -> HostStateView {
        self@
    }
}

/// The mathematical value of a [`Politeness`]: three maps keyed by host.
pub struct PolitenessView {
    /// When each host was last asked for a page, in milliseconds.
    pub last_fetch: Map<Seq<char>, u64>,
    /// The pause that each host asks for between two requests, in
    /// milliseconds.
    pub delay: Map<Seq<char>, u64>,
    /// What the robots.txt file of each host says.
    pub robots: Map<Seq<char>, RobotsFetchResultView>,
}

impl PolitenessView {
    /// The pause that `host` asks for; none if nothing is known of it.
    pub open spec fn delay_of(self, host: Seq<char>) -> u64 {
        if self.delay.contains_key(host) {
            self.delay[host]
        } else {
            0
        }
    }

    /// How long to wait at time `now` before `host` may be asked again, in
    /// milliseconds: what is left of its pause since the last request.
    pub open spec fn wait_needed(self, host: Seq<char>, now: u64) -> u64 {
        if self.last_fetch.contains_key(host) {
            let ready = self.last_fetch[host] + self.delay_of(host);
            if now >= ready {
                0
            } else if ready - now > u64::MAX {
                u64::MAX
            } else {
                (ready - now) as u64
            }
        } else {
            0
        }
    }

    /// Tells whether `host` lets `user_agent` fetch `path`. A host of which
    /// nothing is known allows everything.
    pub open spec fn permits(self, host: Seq<char>, path: Seq<char>, user_agent: Seq<char>) -> bool {
        if self.robots.contains_key(host) {
            self.robots[host].permits(path, user_agent)
        } else {
            true
        }
    }

    /// Tells whether the pause of every host is the one that its robots.txt
    /// policy asks of every user agent, and no host without known policy
    /// has a pause.
    pub open spec fn delays_follow_policies(self) -> bool {
        &&& forall|host: Seq<char>|
            #[trigger] self.delay.contains_key(host) == self.robots.contains_key(host)
        &&& forall|host: Seq<char>|
            #[trigger] self.robots.contains_key(host) ==> self.delay[host]
                == self.robots[host].default_delay()
    }

    /// The state after `host` was asked for a page at time `now`.
    pub open spec fn recorded(self, host: Seq<char>, now: u64) -> PolitenessView {
        PolitenessView { last_fetch: self.last_fetch.insert(host, now), ..self }
    }

    /// The state after the policy of `host` was learned.
    pub open spec fn installed(self, host: Seq<char>, policy: RobotsFetchResultView) -> PolitenessView {
        PolitenessView {
            delay: self.delay.insert(host, policy.default_delay()),
            robots: self.robots.insert(host, policy),
            ..self
        }
    }
}

/// The state in which nothing is known of any host.
pub open spec fn no_hosts() -> PolitenessView {
    PolitenessView { last_fetch: Map::empty(), delay: Map::empty(), robots: Map::empty() }
}

/// The URL of the robots.txt file that speaks for `url`: same scheme, host
/// and port. A URL without host has none.
pub open spec fn robots_url_of(url: WebUrlView) -> Option<Seq<char>> {
    match url.host {
        Some(host) => Some(
            url.scheme + "://"@ + host + match url.port {
                Some(port) => ":"@ + decimal_text(port as nat),
                None => Seq::empty(),
            } + "/robots.txt"@,
        ),
        None => None,
    }
}

/// Builds the URL of the robots.txt file that speaks for `url`.
pub fn robots_url(url: &WebUrl) -> (r: Option<String>)
    ensures
        r.deep_view() == robots_url_of(url@),
{
    match &url.host {
        Some(host) => {
            let mut r = url.scheme.clone();
            r.append("://");
            r.append(host.as_str());
            match url.port {
                Some(port) => {
                    r.append(":");
                    push_decimal(&mut r, port);
                },
                None => {},
            }
            r.append("/robots.txt");
            proof {
                let port_text = match url.port {
                    Some(port) => ":"@ + decimal_text(port as nat),
                    None => Seq::empty(),
                };
                assert(r@ =~= url.scheme@ + "://"@ + host@ + port_text + "/robots.txt"@);
            }
            Some(r)
        },
        None => None,
    }
}

/// The pause of a host is always the crawl delay of its robots.txt policy:
/// that holds when no host is known, and learning a policy or noting a
/// request keeps it. The pause of a host is then the crawl delay that its
/// policy asks of every user agent, or nothing if its policy is not known.
pub proof fn lemma_delays_follow_policies(
    p: PolitenessView,
    host: Seq<char>,
    policy: RobotsFetchResultView,
    now: u64,
)
    ensures
        no_hosts().delays_follow_policies(),
        p.delays_follow_policies() ==> p.installed(host, policy).delays_follow_policies(),
        p.delays_follow_policies() ==> p.recorded(host, now).delays_follow_policies(),
        p.delays_follow_policies() ==> p.delay_of(host) == if p.robots.contains_key(host) {
            p.robots[host].default_delay()
        } else {
            0
        },
{
    if p.delays_follow_policies() {
        let q = p.installed(host, policy);
        assert forall|h: Seq<char>| #[trigger]
            q.delay.contains_key(h) == q.robots.contains_key(h) by {
            assert(p.delay.contains_key(h) == p.robots.contains_key(h));
        }
        assert forall|h: Seq<char>| #[trigger] q.robots.contains_key(h) implies q.delay[h]
            == q.robots[h].default_delay() by {
            if h != host {
                assert(p.robots.contains_key(h));
            }
        }
        assert(p.delay.contains_key(host) == p.robots.contains_key(host));
    }
}

/// Between two requests to a host at least its pause passes: a request that
/// needs no wait at `later`, after one recorded at `earlier`, comes no
/// sooner than the pause of the host after it.
pub proof fn lemma_delay_respected(p: PolitenessView, host: Seq<char>, earlier: u64, later: u64)
    requires
        p.recorded(host, earlier).wait_needed(host, later) == 0,
    ensures
        later - earlier >= p.delay_of(host),
        p.recorded(host, earlier).delay_of(host) == p.delay_of(host),
{
}

/// Waiting as long as needed is enough: after the wait the host may be
/// asked.
pub proof fn lemma_wait_suffices(p: PolitenessView, host: Seq<char>, now: u64, then: u64)
    requires
        then - now >= p.wait_needed(host, now),
        p.wait_needed(host, now) < u64::MAX,
    ensures
        p.wait_needed(host, then) == 0,
{
}

spec fn state_hosts(states: Seq<HostStateView>) -> Seq<Seq<char>> {
    Seq::new(states.len(), |i: int| states[i].host)
}

spec fn slot(states: Seq<HostStateView>, host: Seq<char>) -> int {
    first_index_of(state_hosts(states), host)
}

spec fn maps_of(states: Seq<HostStateView>) -> PolitenessView {
    PolitenessView {
        last_fetch: Map::new(
            |h: Seq<char>| slot(states, h) < states.len() && states[slot(states, h)].last_fetch is Some,
            |h: Seq<char>| states[slot(states, h)].last_fetch->0,
        ),
        delay: Map::new(
            |h: Seq<char>| slot(states, h) < states.len() && states[slot(states, h)].delay is Some,
            |h: Seq<char>| states[slot(states, h)].delay->0,
        ),
        robots: Map::new(
            |h: Seq<char>| slot(states, h) < states.len() && states[slot(states, h)].robots is Some,
            |h: Seq<char>| states[slot(states, h)].robots->0,
        ),
    }
}

proof fn lemma_maps_after_push(before: Seq<HostStateView>, host: Seq<char>)
    requires
        slot(before, host) == before.len(),
    ensures
        maps_of(
            before.push(HostStateView { host, last_fetch: None, delay: None, robots: None }),
        ) == maps_of(before),
        slot(
            before.push(HostStateView { host, last_fetch: None, delay: None, robots: None }),
            host,
        ) == before.len(),
{
    let blank = HostStateView { host, last_fetch: None, delay: None, robots: None };
    let after = before.push(blank);
    assert(state_hosts(after) =~= state_hosts(before).push(host));
    lemma_first_index_of_bounds(state_hosts(before), host);
    lemma_first_index_of(state_hosts(after), host, before.len() as int);
    assert forall|h: Seq<char>|
        {
            let a = #[trigger] slot(after, h);
            let b = slot(before, h);
            &&& 0 <= a <= after.len()
            &&& 0 <= b <= before.len()
            &&& b < before.len() ==> a == b && after[a] == before[b]
            &&& b >= before.len() ==> a >= before.len()
        } by {
        lemma_first_index_of_bounds(state_hosts(before), h);
        lemma_first_index_of_bounds(state_hosts(after), h);
        let b = slot(before, h);
        if b < before.len() {
            assert forall|j: int| 0 <= j < b implies state_hosts(after)[j] != h by {
                assert(state_hosts(after)[j] == state_hosts(before)[j]);
            }
            assert(state_hosts(after)[b] == state_hosts(before)[b]);
            lemma_first_index_of(state_hosts(after), h, b);
        } else {
            let a = slot(after, h);
            if a < before.len() {
                assert(state_hosts(after)[a] == state_hosts(before)[a]);
            }
        }
    }
    assert(after[before.len() as int] == blank);
    assert(maps_of(after).last_fetch =~= maps_of(before).last_fetch);
    assert(maps_of(after).delay =~= maps_of(before).delay);
    assert(maps_of(after).robots =~= maps_of(before).robots);
}

proof fn lemma_maps_after_update(before: Seq<HostStateView>, at: int, state: HostStateView)
    requires
        0 <= at < before.len(),
        at == slot(before, state.host),
    ensures
        state.last_fetch is Some ==> maps_of(before.update(at, state)).last_fetch == maps_of(
            before,
        ).last_fetch.insert(state.host, state.last_fetch->0),
        state.last_fetch == before[at].last_fetch ==> maps_of(
            before.update(at, state),
        ).last_fetch == maps_of(before).last_fetch,
        state.delay is Some ==> maps_of(before.update(at, state)).delay == maps_of(
            before,
        ).delay.insert(state.host, state.delay->0),
        state.delay == before[at].delay ==> maps_of(before.update(at, state)).delay == maps_of(
            before,
        ).delay,
        state.robots is Some ==> maps_of(before.update(at, state)).robots == maps_of(
            before,
        ).robots.insert(state.host, state.robots->0),
        state.robots == before[at].robots ==> maps_of(before.update(at, state)).robots == maps_of(
            before,
        ).robots,
{
    let after = before.update(at, state);
    lemma_first_index_of_bounds(state_hosts(before), state.host);
    assert(state_hosts(after) =~= state_hosts(before));
    assert forall|h: Seq<char>|
        {
            let s = #[trigger] slot(before, h);
            0 <= s <= before.len() && (s == at <==> h == state.host) && (s < before.len() && s
                != at ==> after[s] == before[s])
        } by {
        lemma_first_index_of_bounds(state_hosts(before), h);
    }
    if state.last_fetch is Some {
        assert(maps_of(after).last_fetch =~= maps_of(before).last_fetch.insert(
            state.host,
            state.last_fetch->0,
        ));
    }
    if state.last_fetch == before[at].last_fetch {
        assert(maps_of(after).last_fetch =~= maps_of(before).last_fetch);
    }
    if state.delay is Some {
        assert(maps_of(after).delay =~= maps_of(before).delay.insert(state.host, state.delay->0));
    }
    if state.delay == before[at].delay {
        assert(maps_of(after).delay =~= maps_of(before).delay);
    }
    if state.robots is Some {
        assert(maps_of(after).robots =~= maps_of(before).robots.insert(
            state.host,
            state.robots->0,
        ));
    }
    if state.robots == before[at].robots {
        assert(maps_of(after).robots =~= maps_of(before).robots);
    }
}

/// The politeness scheduler.
#[derive(Debug)]
pub struct Politeness {
    hosts: Vec<HostState>,
}

impl View for Politeness {
    type V = PolitenessView;

    closed spec fn view(&self) -> PolitenessView {
        maps_of(self.hosts.deep_view())
    }
}

impl Politeness {
    /// A scheduler that knows no host.
    pub fn new() -> (p: Politeness)
        ensures
            p@ == no_hosts(),
    {
        let p = Politeness { hosts: Vec::new() };
        proof {
            let states = p.hosts.deep_view();
            assert(states.len() == 0);
            assert forall|h: Seq<char>| slot(states, h) >= states.len() by {
                lemma_first_index_of_bounds(state_hosts(states), h);
            }
            assert(p@.last_fetch =~= Map::empty());
            assert(p@.delay =~= Map::empty());
            assert(p@.robots =~= Map::empty());
        }
        p
    }

    fn find(&self, host: &String) -> (r: usize)
        ensures
            r == slot(self.hosts.deep_view(), host@),
            r <= self.hosts.len(),
    {
        let ghost keys = state_hosts(self.hosts.deep_view());
        let mut i: usize = 0;
        while i < self.hosts.len()
            invariant
                i <= self.hosts.len(),
                keys == state_hosts(self.hosts.deep_view()),
                forall|j: int| 0 <= j < i ==> keys[j] != host@,
            decreases self.hosts.len() - i,
        {
            assert(keys[i as int] == self.hosts[i as int].host@);
            if self.hosts[i].host == *host {
                proof {
                    lemma_first_index_of(keys, host@, i as int);
                }
                return i;
            }
            i += 1;
        }
        proof {
            lemma_first_index_of(keys, host@, i as int);
        }
        i
    }

    /// Finds the state of `host`, adding a blank one if there is none.
    fn slot_for(&mut self, host: &String) -> (r: usize)
        ensures
            final(self)@ == old(self)@,
            r == slot(final(self).hosts.deep_view(), host@),
            r < final(self).hosts.len(),
    {
        let ghost before = self.hosts.deep_view();
        let at = self.find(host);
        if at == self.hosts.len() {
            self.hosts.push(
                HostState { host: host.clone(), last_fetch: None, delay: None, robots: None },
            );
            proof {
                let after = self.hosts.deep_view();
                let blank = HostStateView {
                    host: host@,
                    last_fetch: None,
                    delay: None,
                    robots: None,
                };
                assert(after =~= before.push(blank));
                lemma_maps_after_push(before, host@);
            }
        }
        at
    }

    /// Tells whether the robots.txt policy of `host` is known.
    pub fn has_robots(&self, host: &str) -> (r: bool)
        ensures
            r == self@.robots.contains_key(host@),
    {
        let key = host.to_owned();
        let at = self.find(&key);
        if at < self.hosts.len() {
            assert(self.hosts.deep_view()[at as int] == self.hosts[at as int]@);
            self.hosts[at].robots.is_some()
        } else {
            false
        }
    }

    /// Takes in the robots.txt policy of `host` and the pause that it asks
    /// of every user agent.
    pub fn install_robots(&mut self, host: &str, policy: RobotsFetchResult)
        ensures
            final(self)@ == old(self)@.installed(host@, policy@),
    {
        let key = host.to_owned();
        let at = self.slot_for(&key);
        let ghost before = self.hosts.deep_view();
        let delay = policy.default_delay();
        let state = HostState {
            host: key,
            last_fetch: self.hosts[at].last_fetch,
            delay: Some(delay),
            robots: Some(policy),
        };
        assert(before[at as int] == self.hosts[at as int]@);
        self.hosts.set(at, state);
        proof {
            let after = self.hosts.deep_view();
            assert(after =~= before.update(at as int, state@));
            lemma_maps_after_update(before, at as int, state@);
        }
    }

    /// Tells whether `host` lets `user_agent` fetch `path`.
    pub fn permits(&self, host: &str, path: &str, user_agent: &str) -> (r: bool)
        ensures
            r == self@.permits(host@, path@, user_agent@),
    {
        let key = host.to_owned();
        let at = self.find(&key);
        if at < self.hosts.len() {
            assert(self.hosts.deep_view()[at as int] == self.hosts[at as int]@);
            match &self.hosts[at].robots {
                Some(policy) => policy.allow_path(path, user_agent),
                None => true,
            }
        } else {
            true
        }
    }

    /// The pause that `host` asks for, in milliseconds.
    pub fn delay_ms(&self, host: &str) -> (r: u64)
        ensures
            r == self@.delay_of(host@),
    {
        let key = host.to_owned();
        let at = self.find(&key);
        if at < self.hosts.len() {
            assert(self.hosts.deep_view()[at as int] == self.hosts[at as int]@);
            match self.hosts[at].delay {
                Some(delay) => delay,
                None => 0,
            }
        } else {
            0
        }
    }

    /// How long to wait at time `now_ms` before `host` may be asked again.
    pub fn wait_ms(&self, host: &str, now_ms: u64) -> (r: u64)
        ensures
            r == self@.wait_needed(host@, now_ms),
    {
        let key = host.to_owned();
        let at = self.find(&key);
        if at < self.hosts.len() {
            assert(self.hosts.deep_view()[at as int] == self.hosts[at as int]@);
            match self.hosts[at].last_fetch {
                Some(last) => {
                    let delay = match self.hosts[at].delay {
                        Some(delay) => delay,
                        None => 0,
                    };
                    let ready: u128 = last as u128 + delay as u128;
                    if now_ms as u128 >= ready {
                        0
                    } else if ready - now_ms as u128 > u64::MAX as u128 {
                        u64::MAX
                    } else {
                        (ready - now_ms as u128) as u64
                    }
                },
                None => 0,
            }
        } else {
            0
        }
    }

    /// Notes that `host` is asked for a page at time `now_ms`.
    pub fn record_fetch(&mut self, host: &str, now_ms: u64)
        ensures
            final(self)@ == old(self)@.recorded(host@, now_ms),
    {
        let key = host.to_owned();
        let at = self.slot_for(&key);
        let ghost before = self.hosts.deep_view();
        assert(before[at as int] == self.hosts[at as int]@);
        let mut taken = HostState {
            host: String::new(),
            last_fetch: None,
            delay: None,
            robots: None,
        };
        std::mem::swap(&mut self.hosts[at], &mut taken);
        let state = HostState {
            host: taken.host,
            last_fetch: Some(now_ms),
            delay: taken.delay,
            robots: taken.robots,
        };
        self.hosts.set(at, state);
        proof {
            let after = self.hosts.deep_view();
            assert(after =~= before.update(at as int, state@));
            lemma_first_index_of_bounds(state_hosts(before), host@);
            lemma_maps_after_update(before, at as int, state@);
        }
    }
}

} // verus!
