//! Tickets that ask for an inquiry into a failed dispatch.

use crate::text::{
    add_text, blank, cat2, cat3, decimal_int, i64_text, law_decimal_is_one_to_one, opt_view,
    str_blank, str_trim, texts, trim, views,
};
use crate::types::{repo_text, IssueRef, RepoRef};
use vstd::prelude::*;
use vstd::string::*;

verus! {

/// The repository that holds the tickets.
pub const INQUISITION_REPO: &'static str = "forgejo-work";

/// Under which kind the spawning of a ticket is recorded.
pub const INQUISITION_CATEGORY: &'static str = "inquisition";

/// What a ticket tells of the failure.
pub struct InquisitionSpec {
    pub source_issue: IssueRef,
    pub source_issue_title: Option<String>,
    pub source_issue_url: Option<String>,
    pub dispatch_id: Option<i64>,
    pub directive: Option<String>,
    pub role_name: Option<String>,
    pub reason_code: String,
    pub exit_code: Option<i64>,
    pub run_dir: Option<String>,
    pub log_file: Option<String>,
    pub completion_file: Option<String>,
    pub error_text: Option<String>,
}

/// A line of a ticket, where there is something to say.
pub open spec fn opt_line(label: Seq<char>, value: Option<Seq<char>>) -> Seq<char> {
    match value {
        Some(v) => label + v + "\n"@,
        None => Seq::empty(),
    }
}

/// The number in decimal, where there is one.
pub open spec fn opt_decimal(n: Option<i64>) -> Option<Seq<char>> {
    match n {
        Some(v) => Some(decimal_int(v as int)),
        None => None,
    }
}

/// The text, where it is not blank.
pub open spec fn unless_blank(s: Seq<char>) -> Option<Seq<char>> {
    if blank(s) {
        None
    } else {
        Some(s)
    }
}

/// A block with an error text, where there is one.
pub open spec fn error_block(error: Option<Seq<char>>) -> Seq<char> {
    match error {
        Some(e) => "\nerror_text:\n```\n"@ + e + "\n```\n"@,
        None => Seq::empty(),
    }
}

/// Writes a line, where there is something to say.
fn put_line(out: &mut String, label: &str, value: &Option<String>)
    ensures
        final(out)@ == old(out)@ + opt_line(label@, opt_view(*value)),
{
    let ghost before = out@;
    match value {
        Some(v) => {
            let line = cat3(label, v.as_str(), "\n");
            out.append(line.as_str());
        },
        None => {
            proof {
                assert(before + Seq::<char>::empty() =~= before);
            }
        },
    }
}

/// Writes a line with a number, where there is one.
fn put_number(out: &mut String, label: &str, value: Option<i64>)
    ensures
        final(out)@ == old(out)@ + opt_line(label@, opt_decimal(value)),
{
    let text = match value {
        Some(v) => Some(i64_text(v)),
        None => None,
    };
    put_line(out, label, &text);
}

impl InquisitionSpec {
    /// The key under which the ticket is opened once.
    pub open spec fn key(self) -> Seq<char> {
        match self.dispatch_id {
            Some(id) => "dispatch:"@ + decimal_int(id as int) + ":inquisition"@,
            None => "issue:"@ + self.source_issue.full() + ":inquisition:"@ + self.reason_code@,
        }
    }

    /// The key under which the ticket is opened once: that of the dispatch, else that of the issue and
    /// the reason.
    pub fn dedupe_key(&self) -> (r: String)
        ensures
            r@ == self.key(),
    {
        match self.dispatch_id {
            Some(id) => {
                let n = i64_text(id);
                cat3("dispatch:", n.as_str(), ":inquisition")
            },
            None => {
                let issue = self.source_issue.text();
                let head = cat3("issue:", issue.as_str(), ":inquisition:");
                cat2(head.as_str(), self.reason_code.as_str())
            },
        }
    }

    /// The title of the ticket.
    pub open spec fn titled(self) -> Seq<char> {
        let head = "audit-failure: "@ + self.source_issue.full();
        let of = match self.dispatch_id {
            Some(id) => head + (" dispatch "@ + decimal_int(id as int)),
            None => head,
        };
        if blank(self.reason_code@) {
            of
        } else {
            of + (" ("@ + self.reason_code@ + ")"@)
        }
    }

    /// The title of the ticket.
    pub fn title(&self) -> (r: String)
        ensures
            r@ == self.titled(),
    {
        let issue = self.source_issue.text();
        let mut title = cat2("audit-failure: ", issue.as_str());
        if let Some(id) = self.dispatch_id {
            let n = i64_text(id);
            let of = cat2(" dispatch ", n.as_str());
            title.append(of.as_str());
        }
        if !str_blank(self.reason_code.as_str()) {
            let why = cat3(" (", self.reason_code.as_str(), ")");
            title.append(why.as_str());
        }
        title
    }

    /// The text of the ticket: it asks the auditor, and tells what is known of the failure.
    pub open spec fn told(self) -> Seq<char> {
        "@codex-audit audit-failure\n\nAutomatically spawned harness failure inquisition. Findings and follow-up issues belong in this repo.\n\n- source_issue: "@
            + self.source_issue.full() + "\n"@ + opt_line(
            "- source_url: "@,
            opt_view(self.source_issue_url),
        ) + opt_line("- source_title: "@, opt_view(self.source_issue_title)) + opt_line(
            "- dispatch_id: "@,
            opt_decimal(self.dispatch_id),
        ) + opt_line("- directive: "@, opt_view(self.directive)) + opt_line(
            "- role: "@,
            opt_view(self.role_name),
        ) + opt_line("- reason_code: "@, unless_blank(trim(self.reason_code@))) + opt_line(
            "- exit_code: "@,
            opt_decimal(self.exit_code),
        ) + opt_line("- run_dir: "@, opt_view(self.run_dir)) + opt_line(
            "- codex_log: "@,
            opt_view(self.log_file),
        ) + opt_line("- completion_file: "@, opt_view(self.completion_file)) + error_block(
            opt_view(self.error_text),
        )
    }

    /// The text of the ticket.
    pub fn body(&self) -> (r: String)
        ensures
            r@ == self.told(),
    {
        let issue = self.source_issue.text();
        let mut out = cat3(
            "@codex-audit audit-failure\n\nAutomatically spawned harness failure inquisition. Findings and follow-up issues belong in this repo.\n\n- source_issue: ",
            issue.as_str(),
            "\n",
        );
        put_line(&mut out, "- source_url: ", &self.source_issue_url);
        put_line(&mut out, "- source_title: ", &self.source_issue_title);
        put_number(&mut out, "- dispatch_id: ", self.dispatch_id);
        put_line(&mut out, "- directive: ", &self.directive);
        put_line(&mut out, "- role: ", &self.role_name);
        let reason = str_trim(self.reason_code.as_str());
        let reason_line = if str_blank(reason) {
            None
        } else {
            Some(reason.to_owned())
        };
        put_line(&mut out, "- reason_code: ", &reason_line);
        put_number(&mut out, "- exit_code: ", self.exit_code);
        put_line(&mut out, "- run_dir: ", &self.run_dir);
        put_line(&mut out, "- codex_log: ", &self.log_file);
        put_line(&mut out, "- completion_file: ", &self.completion_file);
        let ghost before = out@;
        match &self.error_text {
            Some(e) => {
                let block = cat3("\nerror_text:\n```\n", e.as_str(), "\n```\n");
                out.append(block.as_str());
            },
            None => {
                proof {
                    assert(before + Seq::<char>::empty() =~= before);
                }
            },
        }
        out
    }
}

/// The commands that open a ticket, once it is recorded that this is to be done.
pub struct InquisitionCommands {
    /// Makes sure of the repository.
    pub ensure_repo: Vec<String>,
    /// What is said where that fails.
    pub ensure_failure: String,
    /// Opens the ticket.
    pub create_issue: Vec<String>,
    /// What is said where that fails.
    pub create_failure: String,
}

/// The repository that holds the tickets of the owner.
pub open spec fn sink(owner: Seq<char>) -> Seq<char> {
    repo_text(owner, INQUISITION_REPO@)
}

/// The commands open the ticket: the repository of the owner is made sure of, and the ticket is opened
/// there for triage.
pub open spec fn opens_ticket(c: InquisitionCommands, owner: Seq<char>, spec: InquisitionSpec) -> bool {
    &&& views(c.ensure_repo@) == seq!["repo"@, "ensure"@, sink(owner)]
    &&& c.ensure_failure@ == "failed ensuring inquisition repo "@ + sink(owner)
    &&& views(c.create_issue@) == seq![
        "issue"@,
        "create"@,
        sink(owner),
        "--title"@,
        spec.titled(),
        "--body"@,
        spec.told(),
        "--workflow"@,
        "triage"@,
    ]
    &&& c.create_failure@ == "failed creating inquisition ticket in "@ + sink(owner)
}

/// The commands that open a ticket, where it was new to record that this is to be done.
pub fn maybe_spawn_inquisition(should_spawn: bool, default_owner: &str, spec: &InquisitionSpec) -> (r:
    Option<InquisitionCommands>)
    ensures
        r is Some <==> should_spawn,
        r matches Some(c) ==> opens_ticket(c, default_owner@, *spec),
{
    if !should_spawn {
        return None;
    }
    let sink_repo = RepoRef::new(default_owner, INQUISITION_REPO).text();
    let title = spec.title();
    let body = spec.body();
    let first = ["repo", "ensure", sink_repo.as_str()];
    let second = [
        "issue",
        "create",
        sink_repo.as_str(),
        "--title",
        title.as_str(),
        "--body",
        body.as_str(),
        "--workflow",
        "triage",
    ];
    let r = InquisitionCommands {
        ensure_repo: texts(&first),
        ensure_failure: cat2("failed ensuring inquisition repo ", sink_repo.as_str()),
        create_issue: texts(&second),
        create_failure: cat2("failed creating inquisition ticket in ", sink_repo.as_str()),
    };
    proof {
        assert(views(r.ensure_repo@) =~= seq!["repo"@, "ensure"@, sink(default_owner@)]);
        assert(views(r.create_issue@) =~= seq![
            "issue"@,
            "create"@,
            sink(default_owner@),
            "--title"@,
            spec.titled(),
            "--body"@,
            spec.told(),
            "--workflow"@,
            "triage"@,
        ]);
    }
    Some(r)
}

/// The arguments of the forge's command line tool: where its config and its token are, then what to do.
pub open spec fn ctl_args(
    config: Option<Seq<char>>,
    token_file: Seq<char>,
    args: Seq<Seq<char>>,
) -> Seq<Seq<char>> {
    match config {
        Some(c) => seq!["--config"@, c, "--token-file"@, token_file] + args,
        None => seq!["--token-file"@, token_file] + args,
    }
}

/// The arguments of the forge's command line tool.
pub fn run_forgejoctl(config_file: &Option<String>, token_file: &str, args: &Vec<String>) -> (r: Vec<
    String,
>)
    ensures
        views(r@) == ctl_args(opt_view(*config_file), token_file@, views(args@)),
{
    let mut out: Vec<String> = Vec::new();
    if let Some(c) = config_file {
        add_text(&mut out, "--config".to_owned());
        add_text(&mut out, c.clone());
    }
    add_text(&mut out, "--token-file".to_owned());
    add_text(&mut out, token_file.to_owned());
    let ghost head = views(out@);
    let mut rest = crate::text::clone_list(args);
    let ghost before = out@;
    let ghost tail = rest@;
    out.append(&mut rest);
    proof {
        assert(views(out@) =~= views(before) + views(tail));
        assert(views(out@) =~= ctl_args(opt_view(*config_file), token_file@, views(args@)));
    }
    out
}

/// Failures of dispatches share a ticket exactly where the dispatch is the same, whatever is told of
/// them.
pub proof fn law_one_inquisition_per_dispatch(a: InquisitionSpec, b: InquisitionSpec)
    requires
        a.dispatch_id is Some,
        b.dispatch_id is Some,
    ensures
        a.key() == b.key() <==> a.dispatch_id == b.dispatch_id,
{
    let m = decimal_int(a.dispatch_id->0 as int);
    let n = decimal_int(b.dispatch_id->0 as int);
    let h = "dispatch:"@;
    let t = ":inquisition"@;
    if a.key() == b.key() {
        assert(a.key() == h + m + t);
        assert(b.key() == h + n + t);
        assert((h + m + t).len() == h.len() + m.len() + t.len());
        assert((h + n + t).len() == h.len() + n.len() + t.len());
        assert(a.key().subrange(h.len() as int, (h.len() + m.len()) as int) =~= m);
        assert(b.key().subrange(h.len() as int, (h.len() + n.len()) as int) =~= n);
        law_decimal_is_one_to_one(a.dispatch_id->0 as int, b.dispatch_id->0 as int);
    }
}

/// The lines of what is known, each with its label.
pub open spec fn known_lines(known: Seq<(Seq<char>, Option<Seq<char>>)>) -> Seq<char>
    decreases known.len(),
{
    if known.len() == 0 {
        Seq::empty()
    } else {
        known_lines(known.drop_last()) + (match known.last().1 {
            Some(v) => known.last().0 + v + "\n"@,
            None => Seq::empty(),
        })
    }
}

/// One more thing that is known is one more line behind what was told.
proof fn lemma_one_more_line(
    head: Seq<char>,
    known: Seq<(Seq<char>, Option<Seq<char>>)>,
    label: Seq<char>,
    value: Option<Seq<char>>,
)
    ensures
        head + known_lines(known.push((label, value))) == head + known_lines(known) + opt_line(
            label,
            value,
        ),
{
    assert(known.push((label, value)).drop_last() =~= known);
    assert(head + (known_lines(known) + opt_line(label, value)) =~= head + known_lines(known)
        + opt_line(label, value));
}

/// A ticket asks the auditor, names the issue, and has a line for each thing that is known of the failure,
/// in their order, and the error at its end.
pub proof fn law_tickets_tell_what_is_known(t: InquisitionSpec)
    ensures
        t.told()
            == "@codex-audit audit-failure\n\nAutomatically spawned harness failure inquisition. Findings and follow-up issues belong in this repo.\n\n- source_issue: "@
            + t.source_issue.full() + "\n"@ + known_lines(
            seq![
                ("- source_url: "@, opt_view(t.source_issue_url)),
                ("- source_title: "@, opt_view(t.source_issue_title)),
                (
                    "- dispatch_id: "@,
                    match t.dispatch_id {
                        Some(n) => Some(decimal_int(n as int)),
                        None => None,
                    },
                ),
                ("- directive: "@, opt_view(t.directive)),
                ("- role: "@, opt_view(t.role_name)),
                (
                    "- reason_code: "@,
                    if trim(trim(t.reason_code@)).len() > 0 {
                        Some(trim(t.reason_code@))
                    } else {
                        None
                    },
                ),
                (
                    "- exit_code: "@,
                    match t.exit_code {
                        Some(n) => Some(decimal_int(n as int)),
                        None => None,
                    },
                ),
                ("- run_dir: "@, opt_view(t.run_dir)),
                ("- codex_log: "@, opt_view(t.log_file)),
                ("- completion_file: "@, opt_view(t.completion_file)),
            ],
        ) + (match t.error_text {
            Some(e) => "\nerror_text:\n```\n"@ + e@ + "\n```\n"@,
            None => Seq::empty(),
        }),
{
    let head = "@codex-audit audit-failure\n\nAutomatically spawned harness failure inquisition. Findings and follow-up issues belong in this repo.\n\n- source_issue: "@
        + t.source_issue.full() + "\n"@;
    let none = Seq::<(Seq<char>, Option<Seq<char>>)>::empty();
    let reason = unless_blank(trim(t.reason_code@));
    let a = none.push(("- source_url: "@, opt_view(t.source_issue_url)));
    let b = a.push(("- source_title: "@, opt_view(t.source_issue_title)));
    let c = b.push(("- dispatch_id: "@, opt_decimal(t.dispatch_id)));
    let d = c.push(("- directive: "@, opt_view(t.directive)));
    let e = d.push(("- role: "@, opt_view(t.role_name)));
    let f = e.push(("- reason_code: "@, reason));
    let g = f.push(("- exit_code: "@, opt_decimal(t.exit_code)));
    let h = g.push(("- run_dir: "@, opt_view(t.run_dir)));
    let i = h.push(("- codex_log: "@, opt_view(t.log_file)));
    let j = i.push(("- completion_file: "@, opt_view(t.completion_file)));
    lemma_one_more_line(head, none, "- source_url: "@, opt_view(t.source_issue_url));
    lemma_one_more_line(head, a, "- source_title: "@, opt_view(t.source_issue_title));
    lemma_one_more_line(head, b, "- dispatch_id: "@, opt_decimal(t.dispatch_id));
    lemma_one_more_line(head, c, "- directive: "@, opt_view(t.directive));
    lemma_one_more_line(head, d, "- role: "@, opt_view(t.role_name));
    lemma_one_more_line(head, e, "- reason_code: "@, reason);
    lemma_one_more_line(head, f, "- exit_code: "@, opt_decimal(t.exit_code));
    lemma_one_more_line(head, g, "- run_dir: "@, opt_view(t.run_dir));
    lemma_one_more_line(head, h, "- codex_log: "@, opt_view(t.log_file));
    lemma_one_more_line(head, i, "- completion_file: "@, opt_view(t.completion_file));
    assert(head + known_lines(none) =~= head);
    assert(t.told() == head + known_lines(j) + error_block(opt_view(t.error_text)));
    assert(j =~= seq![
        ("- source_url: "@, opt_view(t.source_issue_url)),
        ("- source_title: "@, opt_view(t.source_issue_title)),
        (
            "- dispatch_id: "@,
            match t.dispatch_id {
                Some(n) => Some(decimal_int(n as int)),
                None => None,
            },
        ),
        ("- directive: "@, opt_view(t.directive)),
        ("- role: "@, opt_view(t.role_name)),
        (
            "- reason_code: "@,
            if trim(trim(t.reason_code@)).len() > 0 {
                Some(trim(t.reason_code@))
            } else {
                None
            },
        ),
        (
            "- exit_code: "@,
            match t.exit_code {
                Some(n) => Some(decimal_int(n as int)),
                None => None,
            },
        ),
        ("- run_dir: "@, opt_view(t.run_dir)),
        ("- codex_log: "@, opt_view(t.log_file)),
        ("- completion_file: "@, opt_view(t.completion_file)),
    ]);
    assert(error_block(opt_view(t.error_text)) == (match t.error_text {
        Some(e) => "\nerror_text:\n```\n"@ + e@ + "\n```\n"@,
        None => Seq::empty(),
    }));
}

/// The title of a ticket names the issue, the dispatch and the reason, as far as they are known.
pub proof fn law_tickets_are_titled(t: InquisitionSpec)
    ensures
        t.dispatch_id is None && trim(t.reason_code@).len() == 0 ==> t.titled() == "audit-failure: "@
            + t.source_issue.full(),
        t.dispatch_id is None && trim(t.reason_code@).len() > 0 ==> t.titled() == "audit-failure: "@
            + t.source_issue.full() + " ("@ + t.reason_code@ + ")"@,
        t.dispatch_id matches Some(id) ==> (trim(t.reason_code@).len() > 0 ==> t.titled()
            == "audit-failure: "@ + t.source_issue.full() + " dispatch "@ + decimal_int(id as int) + " ("@
            + t.reason_code@ + ")"@),
{
    if trim(t.reason_code@).len() > 0 {
        let head = "audit-failure: "@ + t.source_issue.full();
        if let Some(id) = t.dispatch_id {
            assert(t.titled() =~= head + " dispatch "@ + decimal_int(id as int) + " ("@ + t.reason_code@
                + ")"@);
        } else {
            assert(t.titled() =~= head + " ("@ + t.reason_code@ + ")"@);
        }
    }
}

/// Tickets are opened for triage in the repository of the owner that holds them, with their title and text.
pub proof fn law_tickets_are_opened_for_triage(
    c: InquisitionCommands,
    owner: Seq<char>,
    t: InquisitionSpec,
)
    requires
        opens_ticket(c, owner, t),
    ensures
        views(c.ensure_repo@) == seq!["repo"@, "ensure"@, owner + "/"@ + "forgejo-work"@],
        views(c.create_issue@) == seq![
            "issue"@,
            "create"@,
            owner + "/"@ + "forgejo-work"@,
            "--title"@,
            t.titled(),
            "--body"@,
            t.told(),
            "--workflow"@,
            "triage"@,
        ],
{
}

/// The command line tool is given its token, its config where there is one, and then what to do.
pub proof fn law_commands_carry_the_token(
    config: Option<Seq<char>>,
    token_file: Seq<char>,
    args: Seq<Seq<char>>,
)
    ensures
        ({
            let a = ctl_args(config, token_file, args);
            &&& args.is_suffix_of(a)
            &&& config is None ==> a.take(2) == seq!["--token-file"@, token_file] && a.len() == args.len()
                + 2
            &&& config matches Some(c) ==> a.take(4) == seq![
                "--config"@,
                c,
                "--token-file"@,
                token_file,
            ] && a.len() == args.len() + 4
        }),
{
    let a = ctl_args(config, token_file, args);
    assert(a.subrange(a.len() - args.len(), a.len() as int) =~= args);
    if let Some(c) = config {
        assert(a.take(4) =~= seq!["--config"@, c, "--token-file"@, token_file]);
    } else {
        assert(a.take(2) =~= seq!["--token-file"@, token_file]);
    }
}

} // verus!
