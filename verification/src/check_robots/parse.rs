//! What the lines of a robots.txt file mean: the directives, and the state
//! that they build up line by line.

use vstd::prelude::*;
use vstd::utf8::encode_utf8;
use crate::check_robots::{GroupView, RobotView, RuleView};
use crate::numbers::thousandths_of;
use crate::text::{first_index_of, lowercase, to_chars, trimmed};

verus! {

/// The directives of a robots.txt file.
#[derive(Debug, Clone, Copy, PartialEq, Eq, Structural)]
pub enum Directive {
    UserAgent,
    Allow,
    Disallow,
    CrawlDelay,
    RequestRate,
    Sitemap,
    /// A key that this library does not know; its line is ignored.
    Unknown,
}

/// The directive that a key, already in lowercase, stands for.
pub open spec fn directive_of(key: Seq<char>) -> Directive {
    if key == "user-agent"@ {
        Directive::UserAgent
    } else if key == "allow"@ {
        Directive::Allow
    } else if key == "disallow"@ {
        Directive::Disallow
    } else if key == "crawl-delay"@ {
        Directive::CrawlDelay
    } else if key == "request-rate"@ {
        Directive::RequestRate
    } else if key == "sitemap"@ {
        Directive::Sitemap
    } else {
        Directive::Unknown
    }
}

/// Tells whether `a` holds the characters of `b`.
fn is_text(a: &Vec<char>, b: &str) -> (r: bool)
    ensures
        r == (a@ == b@),
{
    let other = to_chars(b);
    crate::text::same_chars(a, &other)
}

impl Directive {
    /// The directive that a key, already in lowercase, stands for.
    pub fn from_key(key: &Vec<char>) -> (d: Directive)
        ensures
            d == directive_of(key@),
    {
        if is_text(key, "user-agent") {
            Directive::UserAgent
        } else if is_text(key, "allow") {
            Directive::Allow
        } else if is_text(key, "disallow") {
            Directive::Disallow
        } else if is_text(key, "crawl-delay") {
            Directive::CrawlDelay
        } else if is_text(key, "request-rate") {
            Directive::RequestRate
        } else if is_text(key, "sitemap") {
            Directive::Sitemap
        } else {
            Directive::Unknown
        }
    }
}

/// The largest robots.txt file that is read, in bytes. A larger one counts
/// as empty.
pub const MAX_ROBOTS_TXT_SIZE: usize = 500 * 1024;

/// What has been read of a robots.txt file so far: the groups that are
/// complete, the sitemaps, and the group that the next rule goes to.
pub struct ParseState {
    pub groups: Seq<GroupView>,
    pub sitemaps: Seq<Seq<char>>,
    pub current: Option<GroupView>,
}

/// The state before the first line.
pub open spec fn initial_state() -> ParseState {
    ParseState { groups: Seq::empty(), sitemaps: Seq::empty(), current: None }
}

/// The group that a `User-agent` line opens.
pub open spec fn new_group(agent: Seq<char>) -> GroupView {
    GroupView {
        user_agents: seq![agent],
        rules: Seq::empty(),
        crawl_delay: None,
        request_rate: None,
    }
}

/// The groups of a state, the open one included.
pub open spec fn closed_groups(st: ParseState) -> Seq<GroupView> {
    match st.current {
        Some(g) => st.groups.push(g),
        None => st.groups,
    }
}

/// The state after a rule: it joins the open group, and is dropped if no
/// group is open.
pub open spec fn with_rule(st: ParseState, rule: RuleView) -> ParseState {
    match st.current {
        Some(g) => ParseState { current: Some(GroupView { rules: g.rules.push(rule), ..g }), ..st },
        None => st,
    }
}

/// The state after a directive with its value. Every `User-agent` line opens
/// a new group. A delay or rate that is no number is dropped. A
/// sitemap is kept once.
pub open spec fn apply_directive(st: ParseState, d: Directive, value: Seq<char>) -> ParseState {
    match d {
        Directive::UserAgent => ParseState {
            groups: closed_groups(st),
            sitemaps: st.sitemaps,
            current: Some(new_group(value)),
        },
        Directive::Allow => with_rule(st, RuleView { pattern: value, allow: true }),
        Directive::Disallow => with_rule(st, RuleView { pattern: value, allow: false }),
        Directive::CrawlDelay => match (thousandths_of(value), st.current) {
            (Some(delay), Some(g)) => ParseState {
                current: Some(GroupView { crawl_delay: Some(delay), ..g }),
                ..st
            },
            _ => st,
        },
        Directive::RequestRate => match (thousandths_of(value), st.current) {
            (Some(rate), Some(g)) => ParseState {
                current: Some(GroupView { request_rate: Some(rate), ..g }),
                ..st
            },
            _ => st,
        },
        Directive::Sitemap => if st.sitemaps.contains(value) {
            st
        } else {
            ParseState { sitemaps: st.sitemaps.push(value), ..st }
        },
        Directive::Unknown => st,
    }
}

/// Splits a trimmed line at its first colon into key and value, both
/// trimmed. A line without colon or with an empty key has neither.
pub open spec fn split_directive(line: Seq<char>) -> Option<(Seq<char>, Seq<char>)> {
    let colon = first_index_of(line, ':');
    if colon < line.len() && trimmed(line.take(colon)).len() > 0 {
        Some((trimmed(line.take(colon)), trimmed(line.skip(colon + 1))))
    } else {
        None
    }
}

/// The state after one line of the file. Blank lines, comments and lines
/// that are no directive change nothing.
pub open spec fn apply_line(st: ParseState, raw: Seq<char>) -> ParseState {
    let line = trimmed(raw);
    if line.len() == 0 || line[0] == '#' {
        st
    } else {
        match split_directive(line) {
            Some((key, value)) => apply_directive(st, directive_of(lowercase(key)), value),
            None => st,
        }
    }
}

/// The state after all lines of `text`, from state `st`.
pub open spec fn parse_lines(text: Seq<char>, st: ParseState) -> ParseState
    decreases text.len(),
{
    if text.len() == 0 {
        st
    } else {
        let end = first_index_of(text, '\n');
        let next = apply_line(st, text.take(end));
        if 0 <= end < text.len() {
            parse_lines(text.skip(end + 1), next)
        } else {
            next
        }
    }
}

/// What a robots.txt file says.
pub open spec fn parse_robots(text: Seq<char>) -> RobotView {
    if encode_utf8(text).len() > MAX_ROBOTS_TXT_SIZE {
        RobotView { groups: Seq::empty(), sitemaps: Seq::empty() }
    } else {
        let st = parse_lines(text, initial_state());
        RobotView { groups: closed_groups(st), sitemaps: st.sitemaps }
    }
}

} // verus!
