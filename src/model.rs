//! Rules, criteria, actions and the events handed to the rule engine.
use vstd::prelude::*;
use crate::text::views;

verus! {

#[verifier::external_type_specification]
#[verifier::external_body]
pub struct ExRegex(regex::Regex);

/// What compiling a pattern gives: `None` when it compiles, else the error's debug text.
pub uninterp spec fn regex_error_text(pattern: Seq<char>) -> Option<Seq<char>>;

/// Relies on regex::Regex::new: whether a pattern compiles, and the error it reports,
/// depend on the pattern alone; and on regex::Regex::as_str, which gives back the text the
/// regex was compiled from.
#[verifier::external_body]
pub(crate) fn compile_regex(pattern: &str) -> (r: Result<Pattern, String>)
    ensures
        r is Ok <==> regex_error_text(pattern@) is None,
        r matches Ok(p) ==> p.source@ == pattern@,
        r matches Err(e) ==> regex_error_text(pattern@) == Some(e@),
{
    regex::Regex::new(pattern)
        .map(|regex| Pattern { source: regex.as_str().to_owned(), regex })
        .map_err(|e| format!("{:?}", e))
}

/// A compiled regular expression together with the text it was compiled from.
#[derive(Debug)]
pub struct Pattern {
    pub source: String,
    pub regex: regex::Regex,
}

/// An enforcement or notification effect of a rule.
#[derive(Clone, Copy, Debug, PartialEq, Eq, Structural)]
pub enum Action {
    Shadowban,
    EngineMark,
    BoostMark,
    IpBan,
    Close,
    EnableChatPanic,
    NotifySlack,
}

/// The condition half of a rule.
#[derive(Debug)]
pub enum Criterion {
    IpMatch(String),
    EmailContains(String),
    EmailRegex(Pattern),
    UsernameContains(String),
    UsernameRegex(Pattern),
    UseragentLengthLte(usize),
    Lua(String),
}

/// A criterion seen as plain values; a pattern is seen as its source text.
pub enum CriterionView {
    IpMatch(Seq<char>),
    EmailContains(Seq<char>),
    EmailRegex(Seq<char>),
    UsernameContains(Seq<char>),
    UsernameRegex(Seq<char>),
    UseragentLengthLte(nat),
    Lua(Seq<char>),
}

impl View for Criterion {
    type V = CriterionView;

    open spec fn view(&self) -> CriterionView {
        match self {
            Criterion::IpMatch(s) => CriterionView::IpMatch(s@),
            Criterion::EmailContains(s) => CriterionView::EmailContains(s@),
            Criterion::EmailRegex(p) => CriterionView::EmailRegex(p.source@),
            Criterion::UsernameContains(s) => CriterionView::UsernameContains(s@),
            Criterion::UsernameRegex(p) => CriterionView::UsernameRegex(p.source@),
            Criterion::UseragentLengthLte(n) => CriterionView::UseragentLengthLte(*n as nat),
            Criterion::Lua(s) => CriterionView::Lua(s@),
        }
    }
}

/// A named condition with the actions applied to the signups it catches.
#[derive(Debug)]
pub struct Rule {
    pub name: String,
    pub criterion: Criterion,
    pub actions: Vec<Action>,
    pub match_count: u64,
    pub most_recent_caught: Vec<String>,
    pub no_delay: bool,
    pub enabled: bool,
    pub susp_ip: bool,
}

pub struct RuleView {
    pub name: Seq<char>,
    pub criterion: CriterionView,
    pub actions: Seq<Action>,
    pub match_count: nat,
    pub most_recent_caught: Seq<Seq<char>>,
    pub no_delay: bool,
    pub enabled: bool,
    pub susp_ip: bool,
}

impl View for Rule {
    type V = RuleView;

    open spec fn view(&self) -> RuleView {
        RuleView {
            name: self.name@,
            criterion: self.criterion@,
            actions: self.actions@,
            match_count: self.match_count as nat,
            most_recent_caught: views(self.most_recent_caught@),
            no_delay: self.no_delay,
            enabled: self.enabled,
            susp_ip: self.susp_ip,
        }
    }
}

/// The signup that a "test" command asks the engine to evaluate.
#[derive(Debug)]
pub struct User {
    pub username: String,
    pub ip: String,
    pub finger_print: Option<String>,
    pub user_agent: String,
    pub email: String,
    pub susp_ip: bool,
}

pub struct UserView {
    pub username: Seq<char>,
    pub ip: Seq<char>,
    pub finger_print: Option<Seq<char>>,
    pub user_agent: Seq<char>,
    pub email: Seq<char>,
    pub susp_ip: bool,
}

impl View for User {
    type V = UserView;

    open spec fn view(&self) -> UserView {
        UserView {
            username: self.username@,
            ip: self.ip@,
            finger_print: match self.finger_print {
                Some(f) => Some(f@),
                None => None,
            },
            user_agent: self.user_agent@,
            email: self.email@,
            susp_ip: self.susp_ip,
        }
    }
}

/// A control message for the rule engine.
#[derive(Debug)]
pub enum Event {
    StatusCommand,
    AddRule(Rule),
    ShowRule(String),
    RemoveRule(String),
    DisableRules(String),
    EnableRules(String),
    ListRules,
    HypotheticalSignup(User),
}

pub enum EventView {
    StatusCommand,
    AddRule(RuleView),
    ShowRule(Seq<char>),
    RemoveRule(Seq<char>),
    DisableRules(Seq<char>),
    EnableRules(Seq<char>),
    ListRules,
    HypotheticalSignup(UserView),
}

impl View for Event {
    type V = EventView;

    open spec fn view(&self) -> EventView {
        match self {
            Event::StatusCommand => EventView::StatusCommand,
            Event::AddRule(r) => EventView::AddRule(r@),
            Event::ShowRule(s) => EventView::ShowRule(s@),
            Event::RemoveRule(s) => EventView::RemoveRule(s@),
            Event::DisableRules(s) => EventView::DisableRules(s@),
            Event::EnableRules(s) => EventView::EnableRules(s@),
            Event::ListRules => EventView::ListRules,
            Event::HypotheticalSignup(u) => EventView::HypotheticalSignup(u@),
        }
    }
}

} // verus!
