//! The rule sub-grammar: tokens, criteria and action sets of "signup rules ..." commands.
use vstd::prelude::*;
use crate::error::{parse_error, ParseError, BAD_INT_MESSAGE, BAD_REGEX_PREFIX, GENERIC_MESSAGE, PRINT_MESSAGE};
use crate::model::{compile_regex, regex_error_text, Action, Criterion, CriterionView};
use crate::text::{
    decimal_usize, join_by, join_with, parse_usize, same_text, split_by, split_on, split_space, split_words, trim,
    trim_space, views, views_push,
};

verus! {

/// Text put where the code between backticks stood, so that token positions stay put.
pub const CODE_PLACEHOLDER: &'static str = "$ $";

/// The text between the first pair of backticks, or nothing when there is no such pair.
pub open spec fn code_of(cmd: Seq<char>) -> Seq<char> {
    let p = split_on(cmd, '`');
    if p.len() > 2 {
        p[1]
    } else {
        Seq::<char>::empty()
    }
}

/// The backtick pieces with the code replaced and its two neighbours trimmed.
pub open spec fn layout(cmd: Seq<char>) -> Seq<Seq<char>> {
    let p = split_on(cmd, '`');
    if p.len() > 2 {
        p.update(0, trim(p[0])).update(1, CODE_PLACEHOLDER@).update(2, trim(p[2]))
    } else {
        p
    }
}

/// The white-space-separated words after the command's first word.
pub open spec fn signup_args(cmd: Seq<char>) -> Seq<Seq<char>> {
    split_space(join_with(layout(cmd), seq![' '])).drop_first()
}

/// Splits a "signup" command into its argument words and its backtick code.
pub fn split_signup(command: &str) -> (r: (Vec<String>, String))
    ensures
        views(r.0@) == signup_args(command@),
        r.1@ == code_of(command@),
{
    let mut pieces = split_by(command, '`');
    let ghost p = views(pieces@);
    let mut code = String::new();
    if pieces.len() > 2 {
        code = pieces[1].clone();
        let first = trim_space(pieces[0].as_str());
        let third = trim_space(pieces[2].as_str());
        pieces.set(0, first);
        pieces.set(1, CODE_PLACEHOLDER.to_owned());
        pieces.set(2, third);
        assert(views(pieces@) =~= layout(command@));
    } else {
        assert(views(pieces@) =~= layout(command@));
    }
    let joined = join_by(&pieces, " ");
    proof {
        reveal_strlit(" ");
        assert(" "@ =~= seq![' ']);
    }
    let words = split_words(joined.as_str());
    proof {
        crate::text::lemma_split_space_nonempty(joined@);
    }
    let mut args: Vec<String> = Vec::new();
    let mut i: usize = 1;
    while i < words.len()
        invariant
            1 <= i <= words@.len(),
            views(words@) == split_space(joined@),
            views(args@) == views(words@).subrange(1, i as int),
        decreases words@.len() - i,
    {
        let ghost before = args@;
        args.push(words[i].clone());
        proof {
            views_push(before, words@[i as int]);
            assert(views(words@).subrange(1, i as int + 1) =~= views(words@).subrange(1, i as int).push(words@[i as int]@));
        }
        i = i + 1;
    }
    assert(views(words@).subrange(1, words@.len() as int) =~= views(words@).drop_first());
    (args, code)
}

/// The action that a token of the action field names.
pub open spec fn action_named(t: Seq<char>) -> Option<Action> {
    if t == "shadowban"@ {
        Some(Action::Shadowban)
    } else if t == "engine"@ {
        Some(Action::EngineMark)
    } else if t == "boost"@ {
        Some(Action::BoostMark)
    } else if t == "ipban"@ {
        Some(Action::IpBan)
    } else if t == "close"@ {
        Some(Action::Close)
    } else if t == "panic"@ {
        Some(Action::EnableChatPanic)
    } else if t == "notify"@ {
        Some(Action::NotifySlack)
    } else {
        None
    }
}

/// No two of the tokens name the same action.
pub open spec fn names_distinct(toks: Seq<Seq<char>>) -> bool {
    forall|i: int, j: int|
        0 <= i < j < toks.len() ==> action_named(#[trigger] toks[i]) != action_named(
            #[trigger] toks[j],
        )
}

/// The actions named by the `+`-separated tokens of `field`, or `None` when any token is
/// unknown or two tokens name the same action.
pub open spec fn actions_of(field: Seq<char>) -> Option<Seq<Action>> {
    let toks = split_on(field, '+');
    if (forall|i: int| 0 <= i < toks.len() ==> (#[trigger] action_named(toks[i])) is Some)
        && names_distinct(toks) {
        Some(toks.map_values(|t: Seq<char>| action_named(t).unwrap()))
    } else {
        None
    }
}

/// Reads one action token.
pub fn action_from(t: &str) -> (r: Option<Action>)
    ensures
        r == action_named(t@),
{
    if same_text(t, "shadowban") {
        Some(Action::Shadowban)
    } else if same_text(t, "engine") {
        Some(Action::EngineMark)
    } else if same_text(t, "boost") {
        Some(Action::BoostMark)
    } else if same_text(t, "ipban") {
        Some(Action::IpBan)
    } else if same_text(t, "close") {
        Some(Action::Close)
    } else if same_text(t, "panic") {
        Some(Action::EnableChatPanic)
    } else if same_text(t, "notify") {
        Some(Action::NotifySlack)
    } else {
        None
    }
}

fn has_action(v: &Vec<Action>, a: Action) -> (r: bool)
    ensures
        r == exists|j: int| 0 <= j < v@.len() && v@[j] == a,
{
    let mut i: usize = 0;
    while i < v.len()
        invariant
            i <= v@.len(),
            forall|j: int| 0 <= j < i ==> v@[j] != a,
        decreases v@.len() - i,
    {
        if v[i] == a {
            return true;
        }
        i = i + 1;
    }
    false
}

/// Reads a `+`-separated action field; one unknown or repeated action rejects the whole field.
pub fn parse_actions(field: &str) -> (r: Option<Vec<Action>>)
    ensures
        r matches Some(v) ==> actions_of(field@) == Some(v@),
        r is None ==> actions_of(field@) is None,
{
    let toks = split_by(field, '+');
    let ghost t = split_on(field@, '+');
    let mut out: Vec<Action> = Vec::new();
    let mut i: usize = 0;
    while i < toks.len()
        invariant
            i <= toks@.len(),
            views(toks@) == t,
            out@ == t.subrange(0, i as int).map_values(|x: Seq<char>| action_named(x).unwrap()),
            forall|j: int| 0 <= j < i ==> (#[trigger] action_named(t[j])) is Some,
            t == split_on(field@, '+'),
            forall|j: int, k: int|
                0 <= j < k < i ==> action_named(#[trigger] t[j]) != action_named(#[trigger] t[k]),
        decreases toks@.len() - i,
    {
        assert(t[i as int] == toks@[i as int]@);
        match action_from(toks[i].as_str()) {
            Some(a) => {
                if has_action(&out, a) {
                    let ghost j = choose|j: int| 0 <= j < out@.len() && out@[j] == a;
                    assert(action_named(t[j]) == Some(a));
                    assert(!names_distinct(t));
                    return None;
                }
                assert forall|j: int| 0 <= j < i implies action_named(#[trigger] t[j])
                    != action_named(t[i as int]) by {
                    assert(out@[j] == action_named(t[j]).unwrap());
                }
                out.push(a);
                assert(out@ =~= t.subrange(0, i as int + 1).map_values(
                    |x: Seq<char>| action_named(x).unwrap(),
                ));
            },
            None => {
                assert(action_named(t[i as int]) is None);
                assert(!(forall|j: int| 0 <= j < t.len() ==> (#[trigger] action_named(t[j])) is Some));
                assert(t == split_on(field@, '+'));
                assert(actions_of(field@) is None);
                return None;
            },
        }
        i = i + 1;
    }
    assert(t.subrange(0, i as int) =~= t);
    assert(names_distinct(t));
    Some(out)
}

/// The criterion a pattern check builds, or the reply for a pattern that does not compile.
pub open spec fn regex_criterion(value: Seq<char>, email: bool) -> Result<CriterionView, Seq<char>> {
    match regex_error_text(value) {
        None => Ok(
            if email {
                CriterionView::EmailRegex(value)
            } else {
                CriterionView::UsernameRegex(value)
            },
        ),
        Some(t) => Err(BAD_REGEX_PREFIX@ + t),
    }
}

/// The criterion for (kind, check, value), or the reply that rejects it; `code` is the text
/// between backticks, which only the scripted kind uses.
pub open spec fn criterion_of(kind: Seq<char>, check: Seq<char>, value: Seq<char>, code: Seq<char>)
    -> Result<CriterionView, Seq<char>> {
    if kind == "ip"@ {
        if check == "equals"@ {
            Ok(CriterionView::IpMatch(value))
        } else {
            Err(GENERIC_MESSAGE@)
        }
    } else if kind == "print"@ {
        Err(PRINT_MESSAGE@)
    } else if kind == "email"@ {
        if check == "contains"@ {
            Ok(CriterionView::EmailContains(value))
        } else if check == "regex"@ {
            regex_criterion(value, true)
        } else {
            Err(GENERIC_MESSAGE@)
        }
    } else if kind == "username"@ {
        if check == "contains"@ {
            Ok(CriterionView::UsernameContains(value))
        } else if check == "regex"@ {
            regex_criterion(value, false)
        } else {
            Err(GENERIC_MESSAGE@)
        }
    } else if kind == "useragent"@ {
        if check == "length-lte"@ {
            match decimal_usize(value) {
                Some(n) => Ok(CriterionView::UseragentLengthLte(n as nat)),
                None => Err(BAD_INT_MESSAGE@),
            }
        } else {
            Err(GENERIC_MESSAGE@)
        }
    } else if kind == "lua"@ {
        Ok(CriterionView::Lua(code))
    } else {
        Err(GENERIC_MESSAGE@)
    }
}

/// A result seen as plain values: the criterion's view, or the error's message.
pub open spec fn criterion_result(r: Result<Criterion, ParseError>) -> Result<CriterionView, Seq<char>> {
    match r {
        Ok(c) => Ok(c@),
        Err(e) => Err(e.message@),
    }
}

fn compile_pattern(value: &str, email: bool) -> (r: Result<Criterion, ParseError>)
    ensures
        criterion_result(r) == regex_criterion(value@, email),
{
    match compile_regex(value) {
        Ok(p) => {
            if email {
                Ok(Criterion::EmailRegex(p))
            } else {
                Ok(Criterion::UsernameRegex(p))
            }
        },
        Err(detail) => {
            let message = BAD_REGEX_PREFIX.to_owned().concat(detail.as_str());
            Err(ParseError { message })
        },
    }
}

/// Builds the criterion of an "add" command; patterns and integers are checked here.
pub fn parse_criterion(kind: &str, check: &str, value: &str, code: &str) -> (r: Result<Criterion, ParseError>)
    ensures
        criterion_result(r) == criterion_of(kind@, check@, value@, code@),
{
    if same_text(kind, "ip") {
        if same_text(check, "equals") {
            Ok(Criterion::IpMatch(value.to_owned()))
        } else {
            Err(parse_error(None))
        }
    } else if same_text(kind, "print") {
        Err(parse_error(Some(PRINT_MESSAGE)))
    } else if same_text(kind, "email") {
        if same_text(check, "contains") {
            Ok(Criterion::EmailContains(value.to_owned()))
        } else if same_text(check, "regex") {
            compile_pattern(value, true)
        } else {
            Err(parse_error(None))
        }
    } else if same_text(kind, "username") {
        if same_text(check, "contains") {
            Ok(Criterion::UsernameContains(value.to_owned()))
        } else if same_text(check, "regex") {
            compile_pattern(value, false)
        } else {
            Err(parse_error(None))
        }
    } else if same_text(kind, "useragent") {
        if same_text(check, "length-lte") {
            match parse_usize(value) {
                Some(n) => Ok(Criterion::UseragentLengthLte(n)),
                None => Err(parse_error(Some(BAD_INT_MESSAGE))),
            }
        } else {
            Err(parse_error(None))
        }
    } else if same_text(kind, "lua") {
        Ok(Criterion::Lua(code.to_owned()))
    } else {
        Err(parse_error(None))
    }
}

} // verus!
