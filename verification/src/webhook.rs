//! Events from the forge: the directives in them, what is decided about them and what follows.

use crate::lexicon::{DECISION_ACCEPTED, DECISION_IGNORED, EVENT_ISSUES, EVENT_ISSUE_COMMENT};
use crate::text::{
    after_prefix, cat2, clone_opt, lines, lower, opt_view, str_eq, str_lines, str_lower,
    str_strip_prefix, str_words, views, words,
};
use vstd::prelude::*;
use vstd::string::*;

verus! {

/// The repository of an event.
pub struct WebhookRepository {
    pub full_name: String,
}

/// The issue of an event.
pub struct WebhookIssue {
    pub number: u64,
    pub body: Option<String>,
    pub created_at: Option<String>,
}

/// The comment of an event.
pub struct WebhookComment {
    pub id: i64,
    pub body: Option<String>,
    pub created_at: Option<String>,
}

/// Who caused an event.
pub struct WebhookSender {
    pub login: String,
}

/// What the forge sends with an event.
pub struct WebhookPayload {
    pub action: Option<String>,
    pub repository: Option<WebhookRepository>,
    pub issue: Option<WebhookIssue>,
    pub comment: Option<WebhookComment>,
    pub sender: Option<WebhookSender>,
    pub push_ref: Option<String>,
    pub after: Option<String>,
    pub deleted: Option<bool>,
}

/// A directive to a role.
#[verifier::ext_equal]
pub struct Directive<S> {
    pub role: S,
    pub directive: S,
    pub profile: Option<S>,
}

/// A directive at run time.
pub type ParsedDirective = Directive<String>;

/// The view of a directive.
pub open spec fn directive_view(d: ParsedDirective) -> Directive<Seq<char>> {
    Directive { role: d.role@, directive: d.directive@, profile: opt_view(d.profile) }
}

/// The role that a mention names: a bare `codex` stands for the orchestrator.
pub open spec fn mentioned_role(word: Seq<char>) -> Option<Seq<char>> {
    match after_prefix(lower(word), "@codex"@) {
        Some(rest) => if rest.len() == 0 {
            Some("codex-orch"@)
        } else if rest.len() > 1 && rest[0] == '-' {
            Some("codex"@ + rest)
        } else {
            None
        },
        None => None,
    }
}

/// The profile that a word asks for.
pub open spec fn asked_profile(ws: Seq<Seq<char>>) -> Option<Seq<char>> {
    if ws.len() < 3 {
        None
    } else {
        match after_prefix(ws[2], "profile="@) {
            Some(name) => if name.len() > 0 {
                Some(name)
            } else {
                None
            },
            None => None,
        }
    }
}

/// The directive on a line: a mention of a role, a word for what to do, and perhaps a profile.
pub open spec fn line_directive(line: Seq<char>) -> Option<Directive<Seq<char>>> {
    let ws = words(line);
    if ws.len() < 2 {
        None
    } else {
        match mentioned_role(ws[0]) {
            Some(role) => Some(
                Directive { role, directive: lower(ws[1]), profile: asked_profile(ws) },
            ),
            None => None,
        }
    }
}

/// The first directive on lines.
pub open spec fn first_directive(ls: Seq<Seq<char>>) -> Option<Directive<Seq<char>>>
    decreases ls.len(),
{
    if ls.len() == 0 {
        None
    } else if line_directive(ls[0]) is Some {
        line_directive(ls[0])
    } else {
        first_directive(ls.drop_first())
    }
}

/// The role that a mention names.
fn role_of(word: &str) -> (r: Option<String>)
    ensures
        opt_view(r) == mentioned_role(word@),
{
    let low = str_lower(word);
    match str_strip_prefix(low.as_str(), "@codex") {
        Some(rest) => if rest.is_empty() {
            Some("codex-orch".to_owned())
        } else if rest.unicode_len() > 1 && rest.get_char(0) == '-' {
            Some(cat2("codex", rest))
        } else {
            None
        },
        None => None,
    }
}

/// The directive on a line.
fn directive_on(line: &str) -> (r: Option<ParsedDirective>)
    ensures
        match line_directive(line@) {
            Some(d) => r matches Some(x) && directive_view(x) == d,
            None => r is None,
        },
{
    let ws = str_words(line);
    proof {
        assert(ws@.len() == views(ws@).len());
    }
    if ws.len() < 2 {
        return None;
    }
    proof {
        assert(views(ws@)[0] == ws@[0]@);
        assert(views(ws@)[1] == ws@[1]@);
    }
    match role_of(ws[0].as_str()) {
        Some(role) => {
            let mut profile: Option<String> = None;
            if ws.len() >= 3 {
                proof {
                    assert(views(ws@)[2] == ws@[2]@);
                }
                if let Some(name) = str_strip_prefix(ws[2].as_str(), "profile=") {
                    if !name.is_empty() {
                        profile = Some(name.to_owned());
                    }
                }
            }
            let directive = str_lower(ws[1].as_str());
            Some(Directive { role, directive, profile })
        },
        None => None,
    }
}

/// The first directive in a text.
pub fn parse_directive(text: &str) -> (r: Option<ParsedDirective>)
    ensures
        match first_directive(lines(text@)) {
            Some(d) => r matches Some(x) && directive_view(x) == d,
            None => r is None,
        },
{
    let ls = str_lines(text);
    let ghost all = views(ls@);
    let mut i: usize = 0;
    proof {
        assert(all.skip(0) =~= all);
    }
    while i < ls.len()
        invariant
            i <= ls@.len(),
            all == views(ls@),
            all == lines(text@),
            first_directive(all) == first_directive(all.skip(i as int)),
        decreases ls.len() - i,
    {
        proof {
            assert(all.skip(i as int)[0] == all[i as int]);
            assert(all.skip(i as int).drop_first() =~= all.skip(i + 1));
        }
        let found = directive_on(ls[i].as_str());
        if found.is_some() {
            return found;
        }
        i = i + 1;
    }
    None
}

/// What is known of an event.
pub struct EventContext {
    pub repo_full_name: String,
    pub issue_number: Option<u64>,
    pub actor_login: Option<String>,
    pub text: Option<String>,
    pub source_comment_id: Option<i64>,
    pub source_created_at: Option<String>,
}

/// The issue or comment of an event: its text, the number of the comment, and when it was written.
pub open spec fn event_source(event_type: Seq<char>, p: WebhookPayload) -> (
    Option<Seq<char>>,
    Option<i64>,
    Option<Seq<char>>,
) {
    if event_type == EVENT_ISSUE_COMMENT@ {
        match p.comment {
            Some(c) => (opt_view(c.body), Some(c.id), opt_view(c.created_at)),
            None => (None, None, None),
        }
    } else {
        match p.issue {
            Some(i) => (opt_view(i.body), None, opt_view(i.created_at)),
            None => (None, None, None),
        }
    }
}

/// What is known of an event, from what the forge sent; nothing where it names no repository.
pub fn extract_event_context(event_type: &str, payload: &WebhookPayload) -> (r: Option<
    EventContext,
>)
    ensures
        match payload.repository {
            None => r is None,
            Some(repo) => {
                let source = event_source(event_type@, *payload);
                &&& r is Some
                &&& r->0.repo_full_name@ == repo.full_name@
                &&& r->0.issue_number == (match payload.issue {
                    Some(i) => Some(i.number),
                    None => None,
                })
                &&& opt_view(r->0.actor_login) == (match payload.sender {
                    Some(s) => Some(s.login@),
                    None => None,
                })
                &&& opt_view(r->0.text) == source.0
                &&& r->0.source_comment_id == source.1
                &&& opt_view(r->0.source_created_at) == source.2
            },
        },
{
    let repo = match &payload.repository {
        Some(repo) => repo,
        None => {
            return None;
        },
    };
    let issue_number: Option<u64> = match &payload.issue {
        Some(i) => Some(i.number),
        None => None,
    };
    let actor_login = match &payload.sender {
        Some(s) => Some(s.login.clone()),
        None => None,
    };
    let mut text: Option<String> = None;
    let mut source_comment_id: Option<i64> = None;
    let mut source_created_at: Option<String> = None;
    if str_eq(event_type, EVENT_ISSUE_COMMENT) {
        match &payload.comment {
            Some(c) => {
                text = clone_opt(&c.body);
                source_comment_id = Some(c.id);
                source_created_at = clone_opt(&c.created_at);
            },
            None => {},
        }
    } else {
        match &payload.issue {
            Some(i) => {
                text = clone_opt(&i.body);
                source_created_at = clone_opt(&i.created_at);
            },
            None => {},
        }
    }
    Some(
        EventContext {
            repo_full_name: repo.full_name.clone(),
            issue_number,
            actor_login,
            text,
            source_comment_id,
            source_created_at,
        },
    )
}

/// What is decided about an event.
#[verifier::ext_equal]
pub struct Decision<S> {
    pub decision: S,
    pub reason_code: S,
    pub directive: Option<S>,
    pub target_role: Option<S>,
    pub principal_login: Option<S>,
    pub would_dispatch: bool,
}

/// A decision at run time.
pub type DecisionRecord = Decision<String>;

/// The view of a decision.
pub open spec fn decision_view(d: DecisionRecord) -> Decision<Seq<char>> {
    Decision {
        decision: d.decision@,
        reason_code: d.reason_code@,
        directive: opt_view(d.directive),
        target_role: opt_view(d.target_role),
        principal_login: opt_view(d.principal_login),
        would_dispatch: d.would_dispatch,
    }
}

/// The decision that leaves an event alone.
pub open spec fn ignored(reason: Seq<char>) -> Decision<Seq<char>> {
    Decision {
        decision: DECISION_IGNORED@,
        reason_code: reason,
        directive: None,
        target_role: None,
        principal_login: None,
        would_dispatch: false,
    }
}

/// The decision about an event: one of an issue or of a comment is accepted where its text holds a
/// directive; all else is ignored.
pub open spec fn decided(event_type: Seq<char>, text: Option<Option<Seq<char>>>) -> Decision<
    Seq<char>,
> {
    if event_type != EVENT_ISSUES@ && event_type != EVENT_ISSUE_COMMENT@ {
        ignored("unsupported_event"@)
    } else {
        match text {
            None => ignored("missing_context"@),
            Some(None) => ignored("no_directive"@),
            Some(Some(t)) => match first_directive(lines(t)) {
                Some(d) => Decision {
                    decision: DECISION_ACCEPTED@,
                    reason_code: "explicit_directive"@,
                    directive: Some(d.directive),
                    target_role: Some(d.role),
                    principal_login: None,
                    would_dispatch: true,
                },
                None => ignored("no_directive"@),
            },
        }
    }
}

/// The text of an event, where the event is known.
pub open spec fn context_text(context: Option<EventContext>) -> Option<Option<Seq<char>>> {
    match context {
        Some(c) => Some(opt_view(c.text)),
        None => None,
    }
}

/// The decision that leaves an event alone.
fn ignore(reason: &str) -> (r: DecisionRecord)
    ensures
        decision_view(r) == ignored(reason@),
{
    Decision {
        decision: DECISION_IGNORED.to_owned(),
        reason_code: reason.to_owned(),
        directive: None,
        target_role: None,
        principal_login: None,
        would_dispatch: false,
    }
}

/// Decides about an event.
pub fn decide(event_type: &str, context: Option<&EventContext>) -> (r: DecisionRecord)
    ensures
        decision_view(r) == decided(
            event_type@,
            context_text(
                match context {
                    Some(c) => Some(*c),
                    None => None,
                },
            ),
        ),
{
    if !str_eq(event_type, EVENT_ISSUES) && !str_eq(event_type, EVENT_ISSUE_COMMENT) {
        return ignore("unsupported_event");
    }
    match context {
        None => ignore("missing_context"),
        Some(c) => match &c.text {
            None => ignore("no_directive"),
            Some(t) => match parse_directive(t.as_str()) {
                Some(d) => Decision {
                    decision: DECISION_ACCEPTED.to_owned(),
                    reason_code: "explicit_directive".to_owned(),
                    directive: Some(d.directive),
                    target_role: Some(d.role),
                    principal_login: None,
                    would_dispatch: true,
                },
                None => ignore("no_directive"),
            },
        },
    }
}

/// A decision would dispatch exactly where it is accepted, and then it names a role and a directive.
pub proof fn law_accepted_decisions_are_complete(
    event_type: Seq<char>,
    text: Option<Option<Seq<char>>>,
)
    ensures
        ({
            let d = decided(event_type, text);
            &&& d.would_dispatch ==> d.decision == DECISION_ACCEPTED@ && d.directive is Some
                && d.target_role is Some
            &&& !d.would_dispatch ==> d.decision == DECISION_IGNORED@ && d.directive is None
                && d.target_role is None
        }),
{
}

/// The mention `@codex-<name>` of a role comes back as that role, in lower case.
pub proof fn law_mentions_name_roles(name: Seq<char>)
    requires
        name.len() > 0,
        lower(name) == name,
    ensures
        mentioned_role("@codex-"@ + name) == Some("codex"@ + (seq!['-'] + name)),
{
    reveal_strlit("@codex-");
    reveal_strlit("@codex");
    let w = "@codex-"@ + name;
    let p = "@codex"@;
    assert forall|i: int| 0 <= i < w.len() implies lower(w)[i] == #[trigger] w[i] by {
        if i >= 7 {
            assert(w[i] == name[i - 7]);
            assert(lower(name)[i - 7] == name[i - 7]);
        }
    }
    assert(lower(w) =~= w);
    assert(p.is_prefix_of(w)) by {
        assert(p =~= w.subrange(0, p.len() as int));
    }
    assert(w.skip(p.len() as int) =~= seq!['-'] + name);
}

/// A text is accepted exactly where one of its lines holds a directive: a mention of a role as its first
/// word and something to do as its second. The first such line counts, and its role and directive are what
/// is decided.
pub proof fn law_the_first_directive_counts(event_type: Seq<char>, text: Seq<char>, k: int)
    requires
        event_type == "issues"@ || event_type == "issue_comment"@,
        0 <= k < lines(text).len(),
        forall|j: int|
            0 <= j < k ==> words(#[trigger] lines(text)[j]).len() < 2 || mentioned_role(
                words(lines(text)[j])[0],
            ) is None,
    ensures
        words(lines(text)[k]).len() >= 2 ==> (mentioned_role(words(lines(text)[k])[0]) matches Some(role)
            ==> ({
            let d = decided(event_type, Some(Some(text)));
            &&& d.would_dispatch
            &&& d.decision == "accepted"@
            &&& d.reason_code == "explicit_directive"@
            &&& d.target_role == Some(role)
            &&& d.directive == Some(lower(words(lines(text)[k])[1]))
            &&& d.principal_login is None
        })),
        k == lines(text).len() - 1 && (words(lines(text)[k]).len() < 2 || mentioned_role(
            words(lines(text)[k])[0],
        ) is None) ==> !decided(event_type, Some(Some(text))).would_dispatch,
{
    lemma_first_directive(lines(text), k);
}

/// The first line with a directive is the one that counts.
proof fn lemma_first_directive(ls: Seq<Seq<char>>, k: int)
    requires
        0 <= k < ls.len(),
        forall|j: int|
            0 <= j < k ==> words(#[trigger] ls[j]).len() < 2 || mentioned_role(words(ls[j])[0]) is None,
    ensures
        line_directive(ls[k]) is Some ==> first_directive(ls) == line_directive(ls[k]),
        k == ls.len() - 1 && line_directive(ls[k]) is None ==> first_directive(ls) is None,
    decreases k,
{
    if k > 0 {
        assert(words(ls[0]).len() < 2 || mentioned_role(words(ls[0])[0]) is None);
        let t = ls.drop_first();
        assert(t[k - 1] == ls[k]);
        assert forall|j: int| 0 <= j < k - 1 implies words(#[trigger] t[j]).len() < 2
            || mentioned_role(words(t[j])[0]) is None by {
            assert(t[j] == ls[j + 1]);
        }
        lemma_first_directive(t, k - 1);
    } else {
        if ls.len() == 1 {
            assert(first_directive(ls.drop_first()) is None);
        }
    }
}

/// What is no event of an issue or of a comment is ignored, and so is one of which nothing is known or
/// that has no text.
pub proof fn law_other_events_are_ignored(event_type: Seq<char>, text: Option<Option<Seq<char>>>)
    ensures
        event_type != "issues"@ && event_type != "issue_comment"@ ==> decided(event_type, text).decision
            == "ignored"@ && decided(event_type, text).reason_code == "unsupported_event"@,
        event_type == "issues"@ || event_type == "issue_comment"@ ==> (text is None ==> decided(
            event_type,
            text,
        ).reason_code == "missing_context"@ && !decided(event_type, text).would_dispatch) && (text
            == Some(None::<Seq<char>>) ==> decided(event_type, text).reason_code == "no_directive"@
            && !decided(event_type, text).would_dispatch),
{
}

/// A bare mention is for the orchestrator; a mention counts in any case; and a word that does not begin
/// with one names no role.
pub proof fn law_bare_mentions_are_for_the_orchestrator(word: Seq<char>)
    ensures
        lower(word) == "@codex"@ ==> mentioned_role(word) == Some("codex-orch"@),
        !"@codex"@.is_prefix_of(lower(word)) ==> mentioned_role(word) is None,
        mentioned_role(word) matches Some(role) ==> role == "codex-orch"@ || "codex"@.is_prefix_of(role),
{
    if lower(word) == "@codex"@ {
        assert(lower(word).skip("@codex"@.len() as int) =~= Seq::<char>::empty());
        assert("@codex"@.is_prefix_of(lower(word)));
    }
    if let Some(role) = mentioned_role(word) {
        if role != "codex-orch"@ {
            let rest = after_prefix(lower(word), "@codex"@)->0;
            assert((("codex"@ + rest).take("codex"@.len() as int)) =~= "codex"@);
        }
    }
}

/// A profile is asked for by the third word, under its name, and by no other.
pub proof fn law_profiles_are_asked_by_name(line: Seq<char>)
    ensures
        line_directive(line) matches Some(d) ==> (d.profile matches Some(p) ==> words(line).len() > 2
            && words(line)[2] == "profile="@ + p && p.len() > 0),
        line_directive(line) matches Some(d) ==> (words(line).len() > 2 && "profile="@.is_prefix_of(
            words(line)[2],
        ) && words(line)[2].len() > "profile="@.len() ==> d.profile is Some),
{
    if let Some(d) = line_directive(line) {
        if let Some(p) = d.profile {
            assert(words(line)[2] =~= "profile="@ + p);
        }
    }
}

/// The text and the time of an event are those of its comment where it is one of a comment, else those of
/// its issue.
pub proof fn law_comments_speak_for_themselves(p: WebhookPayload, event_type: Seq<char>)
    ensures
        event_type == "issue_comment"@ ==> match p.comment {
            Some(c) => event_source(event_type, p) == (
                opt_view(c.body),
                Some(c.id),
                opt_view(c.created_at),
            ),
            None => event_source(event_type, p).0 is None && event_source(event_type, p).1 is None,
        },
        event_type != "issue_comment"@ ==> match p.issue {
            Some(i) => event_source(event_type, p) == (
                opt_view(i.body),
                None::<i64>,
                opt_view(i.created_at),
            ),
            None => event_source(event_type, p).0 is None,
        },
{
}

} // verus!
