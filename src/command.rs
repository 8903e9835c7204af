//! The command interpreter: one chat command in, one directive or one parse error out.
use vstd::prelude::*;
use crate::error::{parse_error, ParseError, GENERIC_MESSAGE, PRINT_MESSAGE};
use crate::grammar::{
    actions_of, code_of, criterion_of, parse_actions, parse_criterion, signup_args, split_signup,
};
use crate::model::{Event, EventView, Rule, RuleView, User, UserView};
use crate::text::{is_space, same_text, split_by, split_on, split_space, split_words, trim_end_char, trim_end_of, views};

verus! {

/// One of the two maintenance programs an operator may launch.
#[derive(Clone, Copy, Debug, PartialEq, Eq, Structural)]
pub enum Script {
    Upgrade,
    Restart,
}

impl Script {
    /// The executable that the script names.
    pub fn program(&self) -> (r: &'static str)
        ensures
            r@ == (match self {
                Script::Upgrade => "./upgrade"@,
                Script::Restart => "./restart"@,
            }),
    {
        match self {
            Script::Upgrade => "./upgrade",
            Script::Restart => "./restart",
        }
    }
}

/// What a well-formed command asks for.
#[derive(Debug)]
pub enum Directive {
    /// Send this event to the rule engine; nothing is replied.
    Emit(Event),
    /// Launch a maintenance program.
    Run(Script),
    /// Decode the JSON payload into a user, then hand it to `hypothetical_signup`.
    CheckSignup(String),
}

pub enum DirectiveView {
    Emit(EventView),
    Run(Script),
    CheckSignup(Seq<char>),
}

impl View for Directive {
    type V = DirectiveView;

    open spec fn view(&self) -> DirectiveView {
        match self {
            Directive::Emit(e) => DirectiveView::Emit(e@),
            Directive::Run(s) => DirectiveView::Run(*s),
            Directive::CheckSignup(c) => DirectiveView::CheckSignup(c@),
        }
    }
}

pub open spec fn is_conjunction(t: Seq<char>) -> bool {
    t == "if"@ || t == "if_susp_ip"@ || t == "if_ip_susp"@
}

/// `rules add <name> <if> <kind> <check> <value> then <actions> [nodelay]`, given its words.
pub open spec fn add_outcome(a: Seq<Seq<char>>, code: Seq<char>) -> Result<EventView, Seq<char>> {
    if a.len() < 8 || !is_conjunction(a[3]) || a[7] != "then"@ {
        Err(GENERIC_MESSAGE@)
    } else {
        match criterion_of(a[4], a[5], a[6], code) {
            Err(m) => Err(m),
            Ok(c) => if a.len() < 9 {
                Err(GENERIC_MESSAGE@)
            } else {
                match actions_of(a[8]) {
                    None => Err(GENERIC_MESSAGE@),
                    Some(acts) => Ok(
                        EventView::AddRule(
                            RuleView {
                                name: a[2],
                                criterion: c,
                                actions: acts,
                                match_count: 0,
                                most_recent_caught: Seq::empty(),
                                no_delay: a.len() > 9 && a[9] == "nodelay"@,
                                enabled: true,
                                susp_ip: a[3] == "if_susp_ip"@ || a[3] == "if_ip_susp"@,
                            },
                        ),
                    ),
                }
            },
        }
    }
}

/// The outcome of a "signup ..." command.
pub open spec fn signup_outcome(cmd: Seq<char>) -> Result<DirectiveView, Seq<char>> {
    let a = signup_args(cmd);
    if a.len() < 2 || a[0] != "rules"@ {
        Err(GENERIC_MESSAGE@)
    } else if a[1] == "add"@ {
        match add_outcome(a, code_of(cmd)) {
            Ok(e) => Ok(DirectiveView::Emit(e)),
            Err(m) => Err(m),
        }
    } else if a[1] == "show"@ {
        if a.len() > 2 { Ok(DirectiveView::Emit(EventView::ShowRule(a[2]))) } else { Err(GENERIC_MESSAGE@) }
    } else if a[1] == "remove"@ {
        if a.len() > 2 { Ok(DirectiveView::Emit(EventView::RemoveRule(a[2]))) } else { Err(GENERIC_MESSAGE@) }
    } else if a[1] == "disable-re"@ {
        if a.len() > 2 { Ok(DirectiveView::Emit(EventView::DisableRules(a[2]))) } else { Err(GENERIC_MESSAGE@) }
    } else if a[1] == "enable-re"@ {
        if a.len() > 2 { Ok(DirectiveView::Emit(EventView::EnableRules(a[2]))) } else { Err(GENERIC_MESSAGE@) }
    } else if a[1] == "list"@ {
        Ok(DirectiveView::Emit(EventView::ListRules))
    } else if a[1] == "test"@ {
        Ok(DirectiveView::CheckSignup(code_of(cmd)))
    } else {
        Err(GENERIC_MESSAGE@)
    }
}

/// The outcome of a whole command, dispatched on its first white-space-separated word.
pub open spec fn command_outcome(cmd: Seq<char>) -> Result<DirectiveView, Seq<char>> {
    let first = split_space(cmd)[0];
    if first == "status"@ {
        Ok(DirectiveView::Emit(EventView::StatusCommand))
    } else if first == "signup"@ {
        signup_outcome(cmd)
    } else if first == "upgrade"@ {
        Ok(DirectiveView::Run(Script::Upgrade))
    } else if first == "restart"@ {
        Ok(DirectiveView::Run(Script::Restart))
    } else {
        Err(GENERIC_MESSAGE@)
    }
}

/// A result seen as plain values: the directive's view, or the error's message.
pub open spec fn outcome(r: Result<Directive, ParseError>) -> Result<DirectiveView, Seq<char>> {
    match r {
        Ok(d) => Ok(d@),
        Err(e) => Err(e.message@),
    }
}

pub open spec fn event_result(r: Result<Event, ParseError>) -> Result<EventView, Seq<char>> {
    match r {
        Ok(e) => Ok(e@),
        Err(e) => Err(e.message@),
    }
}

/// Builds the rule of an "add" command from its words; any failed step rejects the whole command.
pub fn build_add_rule(args: &Vec<String>, code: &str) -> (r: Result<Event, ParseError>)
    ensures
        event_result(r) == add_outcome(views(args@), code@),
{
    let ghost a = views(args@);
    if args.len() < 8 {
        return Err(parse_error(None));
    }
    assert(a[3] == args@[3]@ && a[7] == args@[7]@);
    let conj = args[3].as_str();
    let plain = same_text(conj, "if");
    let susp_ip = same_text(conj, "if_susp_ip") || same_text(conj, "if_ip_susp");
    if !(plain || susp_ip) || !same_text(args[7].as_str(), "then") {
        return Err(parse_error(None));
    }
    assert(a[4] == args@[4]@ && a[5] == args@[5]@ && a[6] == args@[6]@ && a[2] == args@[2]@);
    let criterion = match parse_criterion(args[4].as_str(), args[5].as_str(), args[6].as_str(), code) {
        Ok(c) => c,
        Err(e) => {
            return Err(e);
        },
    };
    if args.len() < 9 {
        return Err(parse_error(None));
    }
    assert(a[8] == args@[8]@);
    let actions = match parse_actions(args[8].as_str()) {
        Some(v) => v,
        None => {
            return Err(parse_error(None));
        },
    };
    let no_delay = if args.len() > 9 {
        assert(a[9] == args@[9]@);
        same_text(args[9].as_str(), "nodelay")
    } else {
        false
    };
    let rule = Rule {
        name: args[2].clone(),
        criterion,
        actions,
        match_count: 0,
        most_recent_caught: Vec::new(),
        no_delay,
        enabled: true,
        susp_ip,
    };
    assert(views(rule.most_recent_caught@) =~= Seq::<Seq<char>>::empty());
    Ok(Event::AddRule(rule))
}

fn named_event(args: &Vec<String>, which: u8) -> (r: Result<Directive, ParseError>)
    requires
        which < 4,
    ensures
        outcome(r) == (if args@.len() <= 2 {
            Err(GENERIC_MESSAGE@)
        } else if which == 0 {
            Ok(DirectiveView::Emit(EventView::ShowRule(args@[2]@)))
        } else if which == 1 {
            Ok(DirectiveView::Emit(EventView::RemoveRule(args@[2]@)))
        } else if which == 2 {
            Ok(DirectiveView::Emit(EventView::DisableRules(args@[2]@)))
        } else {
            Ok(DirectiveView::Emit(EventView::EnableRules(args@[2]@)))
        }),
{
    if args.len() <= 2 {
        return Err(parse_error(None));
    }
    let name = args[2].clone();
    let e = if which == 0 {
        Event::ShowRule(name)
    } else if which == 1 {
        Event::RemoveRule(name)
    } else if which == 2 {
        Event::DisableRules(name)
    } else {
        Event::EnableRules(name)
    };
    Ok(Directive::Emit(e))
}

/// Interprets a "signup ..." command.
pub fn handle_signup_command(command: &str) -> (r: Result<Directive, ParseError>)
    ensures
        outcome(r) == signup_outcome(command@),
{
    let (args, code) = split_signup(command);
    let ghost a = views(args@);
    if args.len() < 2 || !same_text(args[0].as_str(), "rules") {
        return Err(parse_error(None));
    }
    assert(a[0] == args@[0]@ && a[1] == args@[1]@);
    let sub = args[1].as_str();
    if same_text(sub, "add") {
        match build_add_rule(&args, code.as_str()) {
            Ok(e) => Ok(Directive::Emit(e)),
            Err(e) => Err(e),
        }
    } else if same_text(sub, "show") {
        named_event(&args, 0)
    } else if same_text(sub, "remove") {
        named_event(&args, 1)
    } else if same_text(sub, "disable-re") {
        named_event(&args, 2)
    } else if same_text(sub, "enable-re") {
        named_event(&args, 3)
    } else if same_text(sub, "list") {
        Ok(Directive::Emit(Event::ListRules))
    } else if same_text(sub, "test") {
        Ok(Directive::CheckSignup(code))
    } else {
        Err(parse_error(None))
    }
}

/// Interprets one chat command addressed to the bot.
pub fn handle_command(command: &str) -> (r: Result<Directive, ParseError>)
    ensures
        outcome(r) == command_outcome(command@),
{
    let words = split_words(command);
    proof {
        crate::text::lemma_split_space_nonempty(command@);
    }
    let first = words[0].as_str();
    if same_text(first, "status") {
        Ok(Directive::Emit(Event::StatusCommand))
    } else if same_text(first, "signup") {
        handle_signup_command(command)
    } else if same_text(first, "upgrade") {
        Ok(Directive::Run(Script::Upgrade))
    } else if same_text(first, "restart") {
        Ok(Directive::Run(Script::Restart))
    } else {
        Err(parse_error(None))
    }
}

/// The first piece of `s` is `p` when `s` starts with `p` and a white-space character and
/// `p` holds none.
proof fn lemma_first_word(p: Seq<char>, s: Seq<char>)
    requires
        s.len() > p.len(),
        s.subrange(0, p.len() as int) == p,
        is_space(s[p.len() as int]),
        forall|i: int| 0 <= i < p.len() ==> !is_space(p[i]),
    ensures
        split_space(s).len() >= 2,
        split_space(s)[0] == p,
    decreases s.len(),
{
    if s.len() == p.len() + 1 {
        assert(s.drop_last() =~= p);
        lemma_no_space_single(p);
    } else {
        let t = s.drop_last();
        assert(t.subrange(0, p.len() as int) =~= p);
        lemma_first_word(p, t);
    }
}

proof fn lemma_no_space_single(p: Seq<char>)
    requires
        forall|i: int| 0 <= i < p.len() ==> !is_space(p[i]),
    ensures
        split_space(p) == seq![p],
    decreases p.len(),
{
    if p.len() == 0 {
        assert(p =~= Seq::<char>::empty());
    } else {
        assert(!is_space(p[p.len() - 1]));
        lemma_no_space_single(p.drop_last());
        assert(p.drop_last().push(p.last()) =~= p);
        assert(split_space(p) =~= seq![p]);
    }
}

/// "status" yields the status event and no reply, whatever text follows it after white space.
pub proof fn lemma_status_ignores_rest(sep: char, rest: Seq<char>)
    requires
        is_space(sep),
    ensures
        command_outcome("status"@) == Ok::<DirectiveView, Seq<char>>(
            DirectiveView::Emit(EventView::StatusCommand),
        ),
        command_outcome("status"@ + seq![sep] + rest) == Ok::<DirectiveView, Seq<char>>(
            DirectiveView::Emit(EventView::StatusCommand),
        ),
{
    reveal_strlit("status");
    let p = "status"@;
    lemma_no_space_single(p);
    let s = p + seq![sep] + rest;
    assert(s.subrange(0, p.len() as int) =~= p);
    assert(s[p.len() as int] == sep);
    lemma_first_word(p, s);
}

/// An "add" command that is accepted carries exactly the actions its `+`-separated field
/// names; one that names an unknown action is rejected whole.
pub proof fn lemma_add_actions(cmd: Seq<char>)
    requires
        split_space(cmd)[0] == "signup"@,
        signup_args(cmd).len() >= 2,
        signup_args(cmd)[1] == "add"@,
    ensures
        command_outcome(cmd) matches Ok(DirectiveView::Emit(EventView::AddRule(r))) ==> (
            signup_args(cmd).len() > 8 && actions_of(signup_args(cmd)[8]) == Some(r.actions)),
        signup_args(cmd).len() > 8 && actions_of(signup_args(cmd)[8]) is None ==> command_outcome(
            cmd,
        ) is Err,
{
    reveal_strlit("signup");
    reveal_strlit("status");
    assert("signup"@[1] != "status"@[1]);
}

/// The criterion kind "print" is always refused with its own message, never the generic one,
/// whatever its check and value.
pub proof fn lemma_print_refused(cmd: Seq<char>)
    requires
        split_space(cmd)[0] == "signup"@,
        signup_args(cmd).len() >= 8,
        signup_args(cmd)[0] == "rules"@,
        signup_args(cmd)[1] == "add"@,
        is_conjunction(signup_args(cmd)[3]),
        signup_args(cmd)[7] == "then"@,
        signup_args(cmd)[4] == "print"@,
    ensures
        command_outcome(cmd) == Err::<DirectiveView, Seq<char>>(PRINT_MESSAGE@),
        PRINT_MESSAGE@ != GENERIC_MESSAGE@,
{
    reveal_strlit("signup");
    reveal_strlit("status");
    reveal_strlit("print");
    reveal_strlit("ip");
    reveal_strlit("Use lichess print ban instead");
    reveal_strlit("Could not parse user command");
    assert("signup"@[1] != "status"@[1]);
    assert("print"@.len() != "ip"@.len());
    assert(PRINT_MESSAGE@[0] != GENERIC_MESSAGE@[0]);
}

/// An "add" command is refused with the generic message unless its conjunction is "if" or
/// one of its two aliases and "then" stands in its place; an accepted one marks the rule for
/// the suspicious-IP pool exactly when the conjunction is one of the aliases.
pub proof fn lemma_susp_ip(cmd: Seq<char>)
    requires
        split_space(cmd)[0] == "signup"@,
        signup_args(cmd).len() >= 2,
        signup_args(cmd)[0] == "rules"@,
        signup_args(cmd)[1] == "add"@,
    ensures
        command_outcome(cmd) matches Ok(DirectiveView::Emit(EventView::AddRule(r))) ==> (
        r.susp_ip == (signup_args(cmd)[3] == "if_susp_ip"@ || signup_args(cmd)[3]
            == "if_ip_susp"@) && (signup_args(cmd)[3] == "if"@ ==> !r.susp_ip)),
        signup_args(cmd).len() >= 8 && (!is_conjunction(signup_args(cmd)[3])
            || signup_args(cmd)[7] != "then"@) ==> command_outcome(cmd)
            == Err::<DirectiveView, Seq<char>>(GENERIC_MESSAGE@),
{
    reveal_strlit("signup");
    reveal_strlit("status");
    reveal_strlit("if");
    reveal_strlit("if_susp_ip");
    reveal_strlit("if_ip_susp");
    assert("signup"@[1] != "status"@[1]);
    assert("if"@.len() != "if_susp_ip"@.len());
    assert("if"@.len() != "if_ip_susp"@.len());
}

/// Reply given when a maintenance program could not be launched.
pub const LAUNCH_FAILED_MESSAGE: &'static str = "Failed executing command.";

/// The reply after trying to launch a maintenance program: none on success.
pub fn launch_reply(launched: bool) -> (r: Option<String>)
    ensures
        launched ==> r is None,
        !launched ==> (r matches Some(m) && m@ == LAUNCH_FAILED_MESSAGE@),
{
    if launched {
        None
    } else {
        Some(LAUNCH_FAILED_MESSAGE.to_owned())
    }
}

/// The address inside a chat-rendered link `<prefix:address|address>`: the part after the
/// first `|`, without the closing `>`; `None` when there is no `|`.
pub open spec fn unwrapped_email(email: Seq<char>) -> Option<Seq<char>> {
    let p = split_on(email, '|');
    if p.len() < 2 {
        None
    } else {
        Some(trim_end_char(p[1], '>'))
    }
}

proof fn lemma_split_single(x: Seq<char>, sep: char)
    requires
        forall|i: int| 0 <= i < x.len() ==> x[i] != sep,
    ensures
        split_on(x, sep) == seq![x],
    decreases x.len(),
{
    if x.len() == 0 {
        assert(x =~= Seq::<char>::empty());
    } else {
        assert(x[x.len() - 1] != sep);
        lemma_split_single(x.drop_last(), sep);
        assert(x.drop_last().push(x.last()) =~= x);
        assert(split_on(x, sep) =~= seq![x]);
    }
}

proof fn lemma_split_pair(x: Seq<char>, y: Seq<char>, sep: char)
    requires
        forall|i: int| 0 <= i < x.len() ==> x[i] != sep,
        forall|i: int| 0 <= i < y.len() ==> y[i] != sep,
    ensures
        split_on(x + seq![sep] + y, sep) == seq![x, y],
    decreases y.len(),
{
    let s = x + seq![sep] + y;
    if y.len() == 0 {
        lemma_split_single(x, sep);
        assert(y =~= Seq::<char>::empty());
        assert(s.drop_last() =~= x);
        assert(s.last() == sep);
        assert(split_on(s, sep) =~= seq![x, y]);
    } else {
        let y0 = y.drop_last();
        assert(s.drop_last() =~= x + seq![sep] + y0);
        lemma_split_pair(x, y0, sep);
        assert(s.last() == y[y.len() - 1]);
        assert(y[y.len() - 1] != sep);
        assert(y0.push(y.last()) =~= y);
        assert(split_on(s, sep) =~= seq![x, y]);
    }
}

/// A link `<prefix|address>` whose prefix and address hold no `|`, and whose address does
/// not end in `>`, unwraps to the address.
pub proof fn lemma_email_unwrapped(prefix: Seq<char>, address: Seq<char>)
    requires
        forall|i: int| 0 <= i < prefix.len() ==> prefix[i] != '|',
        forall|i: int| 0 <= i < address.len() ==> address[i] != '|',
        address.len() == 0 || address.last() != '>',
    ensures
        unwrapped_email(prefix + seq!['|'] + address + seq!['>']) == Some(address),
{
    let tail = address.push('>');
    assert(prefix + seq!['|'] + address + seq!['>'] =~= prefix + seq!['|'] + tail);
    assert(forall|i: int| 0 <= i < tail.len() ==> tail[i] != '|') by {
        assert forall|i: int| 0 <= i < tail.len() implies tail[i] != '|' by {
            if i < address.len() {
                assert(tail[i] == address[i]);
            }
        }
    }
    lemma_split_pair(prefix, tail, '|');
    assert(tail.drop_last() =~= address);
    assert(tail.last() == '>');
    assert(trim_end_char(tail, '>') == trim_end_char(address, '>'));
    assert(trim_end_char(address, '>') == address);
}

/// Recovers the raw address from a chat-rendered email link.
pub fn unwrap_email(email: &str) -> (r: Option<String>)
    ensures
        r matches Some(s) ==> unwrapped_email(email@) == Some(s@),
        r is None ==> unwrapped_email(email@) is None,
{
    let parts = split_by(email, '|');
    if parts.len() < 2 {
        None
    } else {
        assert(views(parts@)[1] == parts@[1]@);
        Some(trim_end_of(parts[1].as_str(), '>'))
    }
}

/// The event of a "test" command, from the user decoded out of its payload: the email is
/// unwrapped and the suspicious-IP mark cleared.
pub fn hypothetical_signup(user: User) -> (r: Result<Event, ParseError>)
    ensures
        r is Ok <==> unwrapped_email(user.email@) is Some,
        r matches Ok(e) ==> e@ == EventView::HypotheticalSignup(
            UserView { email: unwrapped_email(user.email@).unwrap(), susp_ip: false, ..user@ },
        ),
        r matches Err(e) ==> e.message@ == GENERIC_MESSAGE@,
{
    match unwrap_email(user.email.as_str()) {
        Some(email) => {
            let u = User {
                username: user.username,
                ip: user.ip,
                finger_print: user.finger_print,
                user_agent: user.user_agent,
                email,
                susp_ip: false,
            };
            Ok(Event::HypotheticalSignup(u))
        },
        None => Err(parse_error(None)),
    }
}

/// The reply text for a handled command: a parse error is shown to the operator.
pub fn reply_for(r: Result<Option<String>, ParseError>) -> (t: Option<String>)
    ensures
        r matches Ok(x) ==> t == x,
        r matches Err(e) ==> (t matches Some(m) && m@ == e.message@),
{
    match r {
        Ok(x) => x,
        Err(e) => Some(e.message),
    }
}

} // verus!
