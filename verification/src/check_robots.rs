//! The Robots Exclusion Protocol: the rules of a robots.txt file, the choice
//! of the group that speaks to a user agent, and the decision whether a path
//! may be fetched.

use vstd::prelude::*;
use crate::check_robots::parse::{
    apply_directive, apply_line, closed_groups, initial_state, parse_lines, parse_robots,
    with_rule, Directive, ParseState, MAX_ROBOTS_TXT_SIZE,
};
use crate::check_robots::pattern::{
    effective_rule, is_effective_rule, lemma_effective_rule_decides, match_reason, path_allowed,
    reason_for, rule_applies,
};
use crate::check_robots::select::{
    is_selected_index, select_group, selected_group, AgentToken, AgentTokenView,
};
use crate::numbers::parse_thousandths;
use crate::text::{
    clone_texts, find_char, from_chars, lemma_first_index_of, lowercase, slice_of, to_chars,
    to_lower, to_lower_chars, trim,
};
use crate::web_url::{url_parse, WebUrl};

pub mod parse;
pub mod pattern;
pub mod select;

verus! {

/// One `Allow` or `Disallow` line.
#[derive(Debug)]
pub struct Rule {
    /// The path pattern; `*` stands for any run of characters, and a `$` at
    /// the end ties the pattern to the end of the path.
    pub pattern: String,
    pub allow: bool,
}

/// The mathematical value of a [`Rule`].
pub struct RuleView {
    pub pattern: Seq<char>,
    pub allow: bool,
}

impl View for Rule {
    type V = RuleView;

    open spec fn view(&self) -> RuleView {
        RuleView { pattern: self.pattern@, allow: self.allow }
    }
}

impl DeepView for Rule {
    type V = RuleView;

    open spec fn deep_view(&self) -> RuleView {
        self@
    }
}

impl Clone for Rule {
    fn clone(&self) -> (r: Self)
        ensures
            r == *self,
    {
        Rule { pattern: self.pattern.clone(), allow: self.allow }
    }
}

/// The rules and directives that a robots.txt file gives to some user
/// agents.
#[derive(Debug)]
pub struct Group {
    pub user_agents: Vec<String>,
    pub rules: Vec<Rule>,
    /// The least pause between two requests, in milliseconds: the seconds
    /// that the file gives, rounded down to whole thousandths.
    pub crawl_delay: Option<u64>,
    /// The allowed rate, in thousandths of a request per second, rounded
    /// down.
    pub request_rate: Option<u64>,
}

/// The mathematical value of a [`Group`].
pub struct GroupView {
    pub user_agents: Seq<Seq<char>>,
    pub rules: Seq<RuleView>,
    pub crawl_delay: Option<u64>,
    pub request_rate: Option<u64>,
}

impl View for Group {
    type V = GroupView;

    open spec fn view(&self) -> GroupView {
        GroupView {
            user_agents: self.user_agents.deep_view(),
            rules: self.rules.deep_view(),
            crawl_delay: self.crawl_delay,
            request_rate: self.request_rate,
        }
    }
}

impl DeepView for Group {
    type V = GroupView;

    open spec fn deep_view(&self) -> GroupView {
        self@
    }
}

/// Copies a list of rules.
pub fn clone_rules(rules: &Vec<Rule>) -> (r: Vec<Rule>)
    ensures
        r@ == rules@,
{
    let mut r: Vec<Rule> = Vec::new();
    let mut i: usize = 0;
    while i < rules.len()
        invariant
            i <= rules.len(),
            r@ == rules@.take(i as int),
        decreases rules.len() - i,
    {
        r.push(rules[i].clone());
        i += 1;
    }
    assert(rules@.take(rules.len() as int) == rules@);
    r
}

impl Clone for Group {
    fn clone(&self) -> (r: Self)
        ensures
            r@ == self@,
    {
        Group {
            user_agents: clone_texts(&self.user_agents),
            rules: clone_rules(&self.rules),
            crawl_delay: self.crawl_delay,
            request_rate: self.request_rate,
        }
    }
}

/// A parsed robots.txt file.
#[derive(Debug)]
pub struct Robot {
    groups: Vec<Group>,
    sitemaps: Vec<String>,
}

/// The mathematical value of a [`Robot`]: its groups in the order of the
/// file, and the sitemaps that the file names, each once, in the order in
/// which they first occur.
pub struct RobotView {
    pub groups: Seq<GroupView>,
    pub sitemaps: Seq<Seq<char>>,
}

impl View for Robot {
    type V = RobotView;

    closed spec fn view(&self) -> RobotView {
        RobotView { groups: self.groups.deep_view(), sitemaps: self.sitemaps.deep_view() }
    }
}

fn clone_groups(groups: &Vec<Group>) -> (r: Vec<Group>)
    ensures
        r.deep_view() == groups.deep_view(),
{
    let mut r: Vec<Group> = Vec::new();
    let mut i: usize = 0;
    while i < groups.len()
        invariant
            i <= groups.len(),
            r.len() == i,
            forall|j: int| 0 <= j < i ==> (#[trigger] r[j])@ == groups[j]@,
        decreases groups.len() - i,
    {
        r.push(groups[i].clone());
        i += 1;
    }
    assert(r.deep_view() =~= groups.deep_view());
    r
}

impl Clone for Robot {
    fn clone(&self) -> (r: Self)
        ensures
            r@ == self@,
    {
        let sitemaps = clone_texts(&self.sitemaps);
        assert(sitemaps.deep_view() =~= self.sitemaps.deep_view());
        Robot { groups: clone_groups(&self.groups), sitemaps }
    }
}

/// Tells whether `text` is among `texts`.
fn has_text(texts: &Vec<String>, text: &String) -> (r: bool)
    ensures
        r == texts.deep_view().contains(text@),
{
    let ghost views = texts.deep_view();
    let mut i: usize = 0;
    while i < texts.len()
        invariant
            i <= texts.len(),
            views == texts.deep_view(),
            forall|j: int| 0 <= j < i ==> views[j] != text@,
        decreases texts.len() - i,
    {
        assert(views[i as int] == texts[i as int]@);
        if texts[i] == *text {
            return true;
        }
        i += 1;
    }
    false
}

/// Puts a [`Robot`] together directive by directive.
#[derive(Debug)]
pub struct RobotsBuilder {
    groups: Vec<Group>,
    sitemaps: Vec<String>,
    current: Option<Group>,
}

impl View for RobotsBuilder {
    type V = ParseState;

    closed spec fn view(&self) -> ParseState {
        ParseState {
            groups: self.groups.deep_view(),
            sitemaps: self.sitemaps.deep_view(),
            current: self.current.deep_view(),
        }
    }
}

impl RobotsBuilder {
    /// A builder that has seen no directive.
    pub fn new() -> (b: RobotsBuilder)
        ensures
            b@ == initial_state(),
    {
        let b = RobotsBuilder { groups: Vec::new(), sitemaps: Vec::new(), current: None };
        assert(b.groups.deep_view() =~= Seq::empty());
        assert(b.sitemaps.deep_view() =~= Seq::empty());
        b
    }

    fn add_rule(&mut self, pattern: &Vec<char>, allow: bool)
        ensures
            final(self)@ == with_rule(old(self)@, RuleView { pattern: pattern@, allow }),
    {
        match self.current.take() {
            Some(mut g) => {
                let ghost before = g@;
                g.rules.push(Rule { pattern: from_chars(pattern), allow });
                assert(g.rules.deep_view() =~= before.rules.push(
                    RuleView { pattern: pattern@, allow },
                ));
                self.current = Some(g);
            },
            None => {},
        }
    }

    /// Takes in one directive with its value.
    pub fn apply(&mut self, d: Directive, value: &Vec<char>)
        ensures
            final(self)@ == apply_directive(old(self)@, d, value@),
    {
        match d {
            Directive::UserAgent => {
                let ghost before = self@;
                match self.current.take() {
                    Some(g) => {
                        self.groups.push(g);
                        assert(self.groups.deep_view() =~= before.groups.push(g@));
                    },
                    None => {},
                }
                let mut user_agents: Vec<String> = Vec::new();
                user_agents.push(from_chars(value));
                assert(user_agents.deep_view() =~= seq![value@]);
                let rules: Vec<Rule> = Vec::new();
                assert(rules.deep_view() =~= Seq::<RuleView>::empty());
                self.current = Some(
                    Group { user_agents, rules, crawl_delay: None, request_rate: None },
                );
            },
            Directive::Allow => {
                self.add_rule(value, true);
            },
            Directive::Disallow => {
                self.add_rule(value, false);
            },
            Directive::CrawlDelay => {
                match parse_thousandths(value) {
                    Some(delay) => match self.current.take() {
                        Some(mut g) => {
                            g.crawl_delay = Some(delay);
                            self.current = Some(g);
                        },
                        None => {},
                    },
                    None => {},
                }
            },
            Directive::RequestRate => {
                match parse_thousandths(value) {
                    Some(rate) => match self.current.take() {
                        Some(mut g) => {
                            g.request_rate = Some(rate);
                            self.current = Some(g);
                        },
                        None => {},
                    },
                    None => {},
                }
            },
            Directive::Sitemap => {
                let ghost before = self@;
                let sitemap = from_chars(value);
                if !has_text(&self.sitemaps, &sitemap) {
                    self.sitemaps.push(sitemap);
                    assert(self.sitemaps.deep_view() =~= before.sitemaps.push(value@));
                }
            },
            Directive::Unknown => {},
        }
    }

    /// Takes in one line of a robots.txt file.
    pub fn apply_line(&mut self, raw: &Vec<char>)
        ensures
            final(self)@ == apply_line(old(self)@, raw@),
    {
        let line = trim(raw);
        if line.len() == 0 || line[0] == '#' {
            return ;
        }
        let colon = find_char(&line, ':');
        if colon >= line.len() {
            return ;
        }
        let key = trim(&slice_of(&line, 0, colon));
        if key.len() == 0 {
            return ;
        }
        let value = trim(&slice_of(&line, colon + 1, line.len()));
        let d = Directive::from_key(&to_lower_chars(&key));
        self.apply(d, &value);
    }

    /// Closes the open group and hands out what was built.
    pub fn finish(self) -> (robot: Robot)
        ensures
            robot@ == (RobotView { groups: closed_groups(self@), sitemaps: self@.sitemaps }),
    {
        let mut groups = self.groups;
        let ghost before = groups.deep_view();
        match self.current {
            Some(g) => {
                groups.push(g);
                assert(groups.deep_view() =~= before.push(g@));
            },
            None => {},
        }
        Robot { groups, sitemaps: self.sitemaps }
    }
}

/// The user-agent tokens of each group with their lowercase forms.
pub open spec fn lowered_agents(groups: Seq<GroupView>) -> Seq<Seq<AgentTokenView>> {
    Seq::new(
        groups.len(),
        |i: int|
            Seq::new(
                groups[i].user_agents.len(),
                |k: int|
                    AgentTokenView {
                        raw: groups[i].user_agents[k],
                        lower: lowercase(groups[i].user_agents[k]),
                    },
            ),
    )
}

/// The index of the group of `robot` that speaks to `user_agent`.
pub open spec fn group_for(robot: RobotView, user_agent: Seq<char>) -> Option<int> {
    selected_group(lowered_agents(robot.groups), lowercase(user_agent))
}

/// Tells whether `robot` lets `user_agent` fetch `path`. Without a group
/// for the user agent every path is allowed.
pub open spec fn robot_allows_path(robot: RobotView, path: Seq<char>, user_agent: Seq<char>) -> bool {
    match group_for(robot, user_agent) {
        Some(i) => path_allowed(robot.groups[i].rules, path),
        None => true,
    }
}

/// Tells whether `robot` lets `user_agent` fetch `target`, which is an
/// absolute URL or a path: of a URL its path counts, and what is no URL is
/// taken as a path as it stands.
pub open spec fn robot_allows(robot: RobotView, target: Seq<char>, user_agent: Seq<char>) -> bool {
    match url_parse(target) {
        Some(u) => robot_allows_path(robot, u.path, user_agent),
        None => robot_allows_path(robot, target, user_agent),
    }
}

/// The number of rules that allow.
pub open spec fn count_allowing(rules: Seq<RuleView>) -> nat
    decreases rules.len(),
{
    if rules.len() == 0 {
        0
    } else {
        count_allowing(rules.drop_last()) + if rules.last().allow {
            1nat
        } else {
            0nat
        }
    }
}

/// A summary of the group that speaks to a user agent.
#[derive(Debug)]
pub struct GroupInfo {
    pub user_agents: Vec<String>,
    pub rule_count: usize,
    pub allow_count: usize,
    pub disallow_count: usize,
    /// The least pause between two requests, in milliseconds.
    pub crawl_delay: Option<u64>,
    /// The allowed rate, in thousandths of a request per second.
    pub request_rate: Option<u64>,
}

impl Clone for GroupInfo {
    fn clone(&self) -> (r: Self)
        ensures
            r.user_agents@ == self.user_agents@,
            r.rule_count == self.rule_count,
            r.allow_count == self.allow_count,
            r.disallow_count == self.disallow_count,
            r.crawl_delay == self.crawl_delay,
            r.request_rate == self.request_rate,
    {
        GroupInfo {
            user_agents: clone_texts(&self.user_agents),
            rule_count: self.rule_count,
            allow_count: self.allow_count,
            disallow_count: self.disallow_count,
            crawl_delay: self.crawl_delay,
            request_rate: self.request_rate,
        }
    }
}

/// Tells whether `info` sums up the group `g`.
pub open spec fn sums_up(info: GroupInfo, g: GroupView) -> bool {
    &&& info.user_agents.deep_view() == g.user_agents
    &&& info.rule_count == g.rules.len()
    &&& info.allow_count == count_allowing(g.rules)
    &&& info.disallow_count == g.rules.len() - count_allowing(g.rules)
    &&& info.crawl_delay == g.crawl_delay
    &&& info.request_rate == g.request_rate
}

fn count_allow_rules(rules: &Vec<Rule>) -> (r: usize)
    ensures
        r == count_allowing(rules.deep_view()),
        r <= rules.len(),
{
    let ghost views = rules.deep_view();
    let mut count: usize = 0;
    let mut i: usize = 0;
    while i < rules.len()
        invariant
            i <= rules.len(),
            views == rules.deep_view(),
            count == count_allowing(views.take(i as int)),
            count <= i,
        decreases rules.len() - i,
    {
        proof {
            assert(views.take(i + 1).drop_last() == views.take(i as int));
            assert(views.take(i + 1).last() == rules[i as int]@);
        }
        if rules[i].allow {
            count += 1;
        }
        i += 1;
    }
    assert(views.take(rules.len() as int) == views);
    count
}

impl Robot {
    /// Reads a robots.txt file. No text fails: lines that say nothing known
    /// are passed over, and a file over the size limit counts as empty.
    pub fn new(text_file: String) -> (robot: Robot)
        ensures
            robot@ == parse_robots(text_file@),
    {
        let text = text_file.as_str();
        if text.as_bytes().len() > MAX_ROBOTS_TXT_SIZE {
            let robot = Robot { groups: Vec::new(), sitemaps: Vec::new() };
            assert(robot.groups.deep_view() =~= Seq::empty());
            assert(robot.sitemaps.deep_view() =~= Seq::empty());
            return robot;
        }
        let chars = to_chars(text);
        let n = chars.len();
        let mut builder = RobotsBuilder::new();
        let mut pos: usize = 0;
        assert(chars@.skip(0) == chars@);
        while pos < n
            invariant
                pos <= n == chars.len(),
                parse_lines(chars@, initial_state()) == parse_lines(
                    chars@.skip(pos as int),
                    builder@,
                ),
            decreases n - pos,
        {
            let ghost rest = chars@.skip(pos as int);
            let mut end: usize = pos;
            while end < n && chars[end] != '\n'
                invariant
                    pos <= end <= n == chars.len(),
                    forall|j: int| pos <= j < end ==> chars@[j] != '\n',
                decreases n - end,
            {
                end += 1;
            }
            proof {
                assert forall|j: int| 0 <= j < end - pos implies rest[j] != '\n' by {
                    assert(rest[j] == chars@[pos + j]);
                }
                lemma_first_index_of(rest, '\n', end - pos);
                assert(rest.take(end - pos) == chars@.subrange(pos as int, end as int));
            }
            let line = slice_of(&chars, pos, end);
            builder.apply_line(&line);
            if end < n {
                proof {
                    assert(rest.skip(end - pos + 1) == chars@.skip(end + 1));
                }
                pos = end + 1;
            } else {
                pos = n;
            }
        }
        builder.finish()
    }

    fn lower_agents(&self) -> (r: Vec<Vec<AgentToken>>)
        ensures
            r.deep_view() == lowered_agents(self@.groups),
    {
        let ghost want = lowered_agents(self@.groups);
        let mut r: Vec<Vec<AgentToken>> = Vec::new();
        let mut i: usize = 0;
        while i < self.groups.len()
            invariant
                i <= self.groups.len(),
                want == lowered_agents(self@.groups),
                r.len() == i,
                forall|x: int| 0 <= x < i ==> (#[trigger] r[x]).deep_view() == want[x],
            decreases self.groups.len() - i,
        {
            let agents = &self.groups[i].user_agents;
            let mut tokens: Vec<AgentToken> = Vec::new();
            let mut k: usize = 0;
            while k < agents.len()
                invariant
                    k <= agents.len(),
                    i < self.groups.len(),
                    agents == &self.groups[i as int].user_agents,
                    want == lowered_agents(self@.groups),
                    tokens.len() == k,
                    forall|x: int| 0 <= x < k ==> (#[trigger] tokens[x])@ == want[i as int][x],
                decreases agents.len() - k,
            {
                let raw = to_chars(agents[k].as_str());
                let lower = to_lower(agents[k].as_str());
                tokens.push(AgentToken { raw, lower });
                k += 1;
            }
            assert(tokens.deep_view() =~= want[i as int]);
            r.push(tokens);
            i += 1;
        }
        assert(r.deep_view() =~= want);
        r
    }

    /// Finds the group that speaks to `user_agent`, by its place in the file.
    pub fn find_group_index(&self, user_agent: &str) -> (r: Option<usize>)
        ensures
            match r {
                Some(i) => group_for(self@, user_agent@) == Some(i as int) && i < self@.groups.len(),
                None => group_for(self@, user_agent@) is None,
            },
    {
        let tokens = self.lower_agents();
        let ua = to_lower(user_agent);
        let r = select_group(&tokens, &ua);
        proof {
            if let Some(i) = r {
                assert(is_selected_index(tokens.deep_view(), ua@, i as int));
            }
        }
        r
    }

    /// Finds the group that speaks to `user_agent`: the most specific one.
    pub fn find_group(&self, user_agent: &str) -> (r: Option<&Group>)
        ensures
            match group_for(self@, user_agent@) {
                Some(i) => 0 <= i < self@.groups.len() && r.is_some() && r.unwrap()@
                    == self@.groups[i],
                None => r.is_none(),
            },
    {
        match self.find_group_index(user_agent) {
            Some(i) => Some(&self.groups[i]),
            None => None,
        }
    }

    /// Finds among `rules` the one that decides on `path`, and says why.
    pub fn find_longest_matching_rule<'a>(&self, rules: &'a [Rule], path: &str) -> (r: Option<
        (&'a Rule, String),
    >)
        ensures
            match r {
                Some((rule, reason)) => {
                    &&& exists|k: int|
                        is_effective_rule(rules.deep_view(), path@, k) && *rule == rules@[k]
                    &&& reason@ == match_reason(rule.pattern@)
                },
                None => forall|j: int|
                    0 <= j < rules.len() ==> !rule_applies(
                        #[trigger] rules.deep_view()[j],
                        path@,
                    ),
            },
    {
        match effective_rule(rules, path) {
            Some(k) => {
                let rule = &rules[k];
                let reason = reason_for(rule.pattern.as_str());
                Some((rule, reason))
            },
            None => None,
        }
    }

    /// Tells whether `user_agent` may fetch `path`.
    pub fn allow_path(&self, path: &str, user_agent: &str) -> (r: bool)
        ensures
            r == robot_allows_path(self@, path@, user_agent@),
    {
        match self.find_group_index(user_agent) {
            Some(i) => {
                let group = &self.groups[i];
                let ghost rules = group.rules.deep_view();
                assert(self@.groups[i as int].rules == rules);
                let slice = group.rules.as_slice();
                assert(slice.deep_view() =~= rules);
                let k = effective_rule(slice, path);
                match k {
                    Some(k) => {
                        proof {
                            lemma_effective_rule_decides(rules, path@, k as int);
                        }
                        assert(rules[k as int] == group.rules[k as int]@);
                        group.rules[k].allow
                    },
                    None => {
                        proof {
                            lemma_effective_rule_decides(rules, path@, 0);
                        }
                        true
                    },
                }
            },
            None => true,
        }
    }

    /// Tells whether `user_agent` may fetch `url`, which is an absolute URL
    /// or a path.
    pub fn allow(&self, url: &str, user_agent: &str) -> (r: bool)
        ensures
            r == robot_allows(self@, url@, user_agent@),
    {
        match WebUrl::parse(url) {
            Some(u) => self.allow_path(u.path.as_str(), user_agent),
            None => self.allow_path(url, user_agent),
        }
    }

    /// The crawl delay that the file asks of `user_agent`, in milliseconds.
    pub fn crawl_delay(&self, user_agent: &str) -> (r: Option<u64>)
        ensures
            r == match group_for(self@, user_agent@) {
                Some(i) => self@.groups[i].crawl_delay,
                None => None,
            },
    {
        match self.find_group_index(user_agent) {
            Some(i) => self.groups[i].crawl_delay,
            None => None,
        }
    }

    /// The request rate that the file grants `user_agent`, in thousandths of
    /// a request per second.
    pub fn request_rate(&self, user_agent: &str) -> (r: Option<u64>)
        ensures
            r == match group_for(self@, user_agent@) {
                Some(i) => self@.groups[i].request_rate,
                None => None,
            },
    {
        match self.find_group_index(user_agent) {
            Some(i) => self.groups[i].request_rate,
            None => None,
        }
    }

    /// The sitemaps that the file names, each once, in the order in which
    /// they first occur.
    pub fn sitemaps(&self) -> (r: Vec<String>)
        ensures
            r.deep_view() == self@.sitemaps,
    {
        let r = clone_texts(&self.sitemaps);
        assert(r.deep_view() =~= self.sitemaps.deep_view());
        r
    }

    /// Sums up the group that speaks to `user_agent`.
    pub fn get_group_info(&self, user_agent: &str) -> (r: Option<GroupInfo>)
        ensures
            match group_for(self@, user_agent@) {
                Some(i) => r.is_some() && sums_up(r.unwrap(), self@.groups[i]),
                None => r.is_none(),
            },
    {
        match self.find_group_index(user_agent) {
            Some(i) => {
                let group = &self.groups[i];
                let user_agents = clone_texts(&group.user_agents);
                assert(user_agents.deep_view() =~= group.user_agents.deep_view());
                let allow_count = count_allow_rules(&group.rules);
                Some(
                    GroupInfo {
                        user_agents,
                        rule_count: group.rules.len(),
                        allow_count,
                        disallow_count: group.rules.len() - allow_count,
                        crawl_delay: group.crawl_delay,
                        request_rate: group.request_rate,
                    },
                )
            },
            None => None,
        }
    }
}

/// How the attempt to get the robots.txt file of a host ended.
#[derive(Debug)]
pub enum RobotsFetchResult {
    /// The file was there and has been read.
    Success(Robot),
    /// The host has no such file: every path is allowed.
    NotFound,
    /// The host refuses to show the file: no path is allowed.
    Forbidden,
    /// The host could not be reached or gave another answer: every path is
    /// allowed.
    Unavailable,
}

/// The mathematical value of a [`RobotsFetchResult`].
pub enum RobotsFetchResultView {
    Success(RobotView),
    NotFound,
    Forbidden,
    Unavailable,
}

impl View for RobotsFetchResult {
    type V = RobotsFetchResultView;

    open spec fn view(&self) -> RobotsFetchResultView {
        match self {
            RobotsFetchResult::Success(robot) => RobotsFetchResultView::Success(robot@),
            RobotsFetchResult::NotFound => RobotsFetchResultView::NotFound,
            RobotsFetchResult::Forbidden => RobotsFetchResultView::Forbidden,
            RobotsFetchResult::Unavailable => RobotsFetchResultView::Unavailable,
        }
    }
}

impl DeepView for RobotsFetchResult {
    type V = RobotsFetchResultView;

    open spec fn deep_view(&self) -> RobotsFetchResultView {
        self@
    }
}

impl Clone for RobotsFetchResult {
    fn clone(&self) -> (r: Self)
        ensures
            r@ == self@,
    {
        match self {
            RobotsFetchResult::Success(robot) => RobotsFetchResult::Success(robot.clone()),
            RobotsFetchResult::NotFound => RobotsFetchResult::NotFound,
            RobotsFetchResult::Forbidden => RobotsFetchResult::Forbidden,
            RobotsFetchResult::Unavailable => RobotsFetchResult::Unavailable,
        }
    }
}

/// The policy of a host from the answer to a request for its robots.txt
/// file, status code and body: a file that was found is read; a host
/// without file allows everything; a host that forbids the file allows
/// nothing; any other answer allows everything.
pub open spec fn policy_of(status: u16, body: Seq<char>) -> RobotsFetchResultView {
    if status == 200 {
        RobotsFetchResultView::Success(parse_robots(body))
    } else if status == 404 {
        RobotsFetchResultView::NotFound
    } else if status == 403 {
        RobotsFetchResultView::Forbidden
    } else {
        RobotsFetchResultView::Unavailable
    }
}

impl RobotsFetchResultView {
    /// Tells whether a host with this policy lets `user_agent` fetch `path`.
    pub open spec fn permits(self, path: Seq<char>, user_agent: Seq<char>) -> bool {
        match self {
            RobotsFetchResultView::Success(robot) => robot_allows_path(robot, path, user_agent),
            RobotsFetchResultView::NotFound => true,
            RobotsFetchResultView::Forbidden => false,
            RobotsFetchResultView::Unavailable => true,
        }
    }

    /// The crawl delay that the host asks of every user agent, in
    /// milliseconds; 0 if it asks for none.
    pub open spec fn default_delay(self) -> u64 {
        match self {
            RobotsFetchResultView::Success(robot) => match group_for(robot, "*"@) {
                Some(i) => match robot.groups[i].crawl_delay {
                    Some(delay) => delay,
                    None => 0,
                },
                None => 0,
            },
            _ => 0,
        }
    }
}

impl RobotsFetchResult {
    /// Reads the answer to a request for robots.txt.
    pub fn from_response(status: u16, body: String) -> (r: RobotsFetchResult)
        ensures
            r@ == policy_of(status, body@),
    {
        if status == 200 {
            RobotsFetchResult::Success(Robot::new(body))
        } else if status == 404 {
            RobotsFetchResult::NotFound
        } else if status == 403 {
            RobotsFetchResult::Forbidden
        } else {
            RobotsFetchResult::Unavailable
        }
    }

    /// Tells whether `user_agent` may fetch `path`.
    pub fn allow_path(&self, path: &str, user_agent: &str) -> (r: bool)
        ensures
            r == self@.permits(path@, user_agent@),
    {
        match self {
            RobotsFetchResult::Success(robot) => robot.allow_path(path, user_agent),
            RobotsFetchResult::NotFound => true,
            RobotsFetchResult::Forbidden => false,
            RobotsFetchResult::Unavailable => true,
        }
    }

    /// The crawl delay that the host asks of every user agent, in
    /// milliseconds; 0 if it asks for none.
    pub fn default_delay(&self) -> (r: u64)
        ensures
            r == self@.default_delay(),
    {
        match self {
            RobotsFetchResult::Success(robot) => match robot.crawl_delay("*") {
                Some(delay) => delay,
                None => 0,
            },
            _ => 0,
        }
    }
}

/// Reading the same file twice gives rules that agree on every user agent
/// and path.
pub proof fn lemma_parse_agrees(a: RobotView, b: RobotView, text: Seq<char>)
    requires
        a == parse_robots(text),
        b == parse_robots(text),
    ensures
        forall|path: Seq<char>, user_agent: Seq<char>|
            robot_allows_path(a, path, user_agent) == robot_allows_path(b, path, user_agent),
        forall|target: Seq<char>, user_agent: Seq<char>|
            robot_allows(a, target, user_agent) == robot_allows(b, target, user_agent),
{
}

} // verus!
