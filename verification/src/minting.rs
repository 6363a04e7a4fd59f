//! Minting the token of a role: the user is looked up or made, gets a passing password, and with it a
//! token.

use crate::role_add::user_must_be_made;
use crate::text::{cat2, cat3, cat6, decimal, u64_text};
use vstd::prelude::*;
use vstd::string::*;

verus! {

/// Which answer the minting waits for.
#[derive(Clone, Copy, PartialEq, Eq, Structural, Debug)]
pub enum MintPhase {
    Look,
    Make,
    Password,
    ScopedToken,
    PlainToken,
    Over,
}

/// The minting of a token.
#[verifier::ext_equal]
pub struct Minting<S> {
    pub phase: MintPhase,
    pub login: S,
    pub create_user: bool,
}

/// What is done next.
#[verifier::ext_equal]
pub enum MintAction<S> {
    /// Look whether the forge knows the user.
    LookUp,
    /// Make the user, with an address and a first password.
    MakeUser { email: S, password: S },
    /// Give the user a passing password.
    SetPassword,
    /// Make a token with the password, for everything or without a scope.
    MakeToken { scoped: bool },
    /// The token, or why there is none.
    End(Result<S, S>),
}

/// What came of it.
#[verifier::ext_equal]
pub enum MintReply<S> {
    Known(bool),
    Done,
    Token(S),
    Failed(S),
}

/// A step in contracts.
pub type MintStepSpec = (Minting<Seq<char>>, MintAction<Seq<char>>);

/// A step at run time.
pub type MintStep = (Minting<String>, MintAction<String>);

/// The view of a minting.
pub open spec fn mint_view(s: Minting<String>) -> Minting<Seq<char>> {
    Minting { phase: s.phase, login: s.login@, create_user: s.create_user }
}

/// The view of an action.
pub open spec fn action_view(a: MintAction<String>) -> MintAction<Seq<char>> {
    match a {
        MintAction::LookUp => MintAction::LookUp,
        MintAction::MakeUser { email, password } => MintAction::MakeUser {
            email: email@,
            password: password@,
        },
        MintAction::SetPassword => MintAction::SetPassword,
        MintAction::MakeToken { scoped } => MintAction::MakeToken { scoped },
        MintAction::End(r) => MintAction::End(
            match r {
                Ok(t) => Ok(t@),
                Err(e) => Err(e@),
            },
        ),
    }
}

/// The view of a step.
pub open spec fn step_view(r: MintStep) -> MintStepSpec {
    (mint_view(r.0), action_view(r.1))
}

/// The view of an answer.
pub open spec fn reply_view(r: MintReply<String>) -> MintReply<Seq<char>> {
    match r {
        MintReply::Known(b) => MintReply::Known(b),
        MintReply::Done => MintReply::Done,
        MintReply::Token(t) => MintReply::Token(t@),
        MintReply::Failed(e) => MintReply::Failed(e@),
    }
}

/// The answer is one that the phase waits for.
pub open spec fn fits<S>(phase: MintPhase, reply: MintReply<S>) -> bool {
    match phase {
        MintPhase::Look => reply is Known || reply is Failed,
        MintPhase::Make | MintPhase::Password => reply is Done || reply is Failed,
        MintPhase::ScopedToken | MintPhase::PlainToken => reply is Token || reply is Failed,
        MintPhase::Over => false,
    }
}

/// The minting goes on.
pub open spec fn onward(
    s: Minting<Seq<char>>,
    phase: MintPhase,
    action: MintAction<Seq<char>>,
) -> MintStepSpec {
    (Minting { phase, ..s }, action)
}

/// What follows an answer. A scoped token that could not be had is followed by one without a scope; any
/// other failure ends the minting.
pub open spec fn next(s: Minting<Seq<char>>, reply: MintReply<Seq<char>>) -> MintStepSpec {
    match (s.phase, reply) {
        (MintPhase::Look, MintReply::Known(known)) => if known {
            onward(s, MintPhase::Password, MintAction::SetPassword)
        } else if s.create_user {
            onward(
                s,
                MintPhase::Make,
                MintAction::MakeUser {
                    email: s.login + "@localhost"@,
                    password: s.login + "-bootstrap-Password-123"@,
                },
            )
        } else {
            onward(
                s,
                MintPhase::Over,
                MintAction::End(
                    Err(
                        "forgejo user '"@ + s.login
                            + "' does not exist; rerun with --create-user to provision"@,
                    ),
                ),
            )
        },
        (MintPhase::Make, MintReply::Done) => onward(
            s,
            MintPhase::Password,
            MintAction::SetPassword,
        ),
        (MintPhase::Password, MintReply::Done) => onward(
            s,
            MintPhase::ScopedToken,
            MintAction::MakeToken { scoped: true },
        ),
        (MintPhase::ScopedToken, MintReply::Failed(_)) => onward(
            s,
            MintPhase::PlainToken,
            MintAction::MakeToken { scoped: false },
        ),
        (_, MintReply::Token(t)) => onward(s, MintPhase::Over, MintAction::End(Ok(t))),
        (_, MintReply::Failed(e)) => onward(s, MintPhase::Over, MintAction::End(Err(e))),
        _ => onward(s, MintPhase::Over, MintAction::End(Err(Seq::empty()))),
    }
}

/// Takes up the minting of a token for the user.
pub fn begin_minting(login: &str, create_user: bool) -> (r: MintStep)
    ensures
        step_view(r) == (
            Minting { phase: MintPhase::Look, login: login@, create_user },
            MintAction::<Seq<char>>::LookUp,
        ),
{
    (Minting { phase: MintPhase::Look, login: login.to_owned(), create_user }, MintAction::LookUp)
}

/// Takes an answer and tells what is done next.
pub fn mint_role_token(s: Minting<String>, reply: MintReply<String>) -> (r: MintStep)
    requires
        fits(s.phase, reply),
    ensures
        step_view(r) == next(mint_view(s), reply_view(reply)),
{
    let phase = s.phase;
    let mut t = s;
    match reply {
        MintReply::Known(known) => match user_must_be_made(known, t.create_user, t.login.as_str()) {
            Ok(make) => if make {
                let email = cat2(t.login.as_str(), "@localhost");
                let password = cat2(t.login.as_str(), "-bootstrap-Password-123");
                t.phase = MintPhase::Make;
                (t, MintAction::MakeUser { email, password })
            } else {
                t.phase = MintPhase::Password;
                (t, MintAction::SetPassword)
            },
            Err(e) => {
                t.phase = MintPhase::Over;
                (t, MintAction::End(Err(e)))
            },
        },
        MintReply::Done => if phase == MintPhase::Make {
            t.phase = MintPhase::Password;
            (t, MintAction::SetPassword)
        } else {
            t.phase = MintPhase::ScopedToken;
            (t, MintAction::MakeToken { scoped: true })
        },
        MintReply::Token(token) => {
            t.phase = MintPhase::Over;
            (t, MintAction::End(Ok(token)))
        },
        MintReply::Failed(e) => if phase == MintPhase::ScopedToken {
            t.phase = MintPhase::PlainToken;
            (t, MintAction::MakeToken { scoped: false })
        } else {
            t.phase = MintPhase::Over;
            (t, MintAction::End(Err(e)))
        },
    }
}

/// How far the minting is from its end.
pub open spec fn distance(phase: MintPhase) -> nat {
    match phase {
        MintPhase::Look => 5,
        MintPhase::Make => 4,
        MintPhase::Password => 3,
        MintPhase::ScopedToken => 2,
        MintPhase::PlainToken => 1,
        MintPhase::Over => 0,
    }
}

/// The minting ends; a user is made only where the forge does not know it and that was allowed, and a
/// token without a scope is asked for only where a scoped one could not be had.
pub proof fn law_minting_ends(s: Minting<Seq<char>>, reply: MintReply<Seq<char>>)
    requires
        fits(s.phase, reply),
    ensures
        ({
            let n = next(s, reply);
            &&& distance(n.0.phase) < distance(s.phase)
            &&& n.0.phase == MintPhase::Over <==> n.1 is End
            &&& n.1 is MakeUser ==> reply == MintReply::<Seq<char>>::Known(false) && s.create_user
            &&& n.1 == MintAction::<Seq<char>>::MakeToken { scoped: false } ==> s.phase
                == MintPhase::ScopedToken && reply is Failed
            &&& (n.1 matches MintAction::End(Ok(t)) ==> reply == MintReply::Token(t))
        }),
{
}

/// The name of something of the user that is made at a time: the passing password by the nanoseconds,
/// the token by the date.
pub fn stamped(login: &str, stamp: &str) -> (r: String)
    ensures
        r@ == login@ + "-"@ + stamp@,
{
    cat3(login, "-", stamp)
}

/// What is said of a call that the forge refused: its own message, or else all that it answered.
pub fn refusal(method: &str, url: &str, status: u16, body: &str, message: &Option<String>) -> (r:
    String)
    ensures
        r@ == method@ + " "@ + url@ + " failed with "@ + decimal(status as nat) + ": "@ + (
        match message {
            Some(m) => m@,
            None => body@,
        }),
{
    let n = u64_text(status as u64);
    let tail = match message {
        Some(m) => m.as_str(),
        None => body,
    };
    let head = cat6(method, " ", url, " failed with ", n.as_str(), ": ");
    cat2(head.as_str(), tail)
}

/// A known user gets a passing password and with it a token; an unknown one is made first, where that was
/// allowed, and otherwise refused. A token for everything is asked for first, and one without a scope where
/// that could not be had; the token that is had is what the minting gives.
pub proof fn law_tokens_are_minted(s: Minting<Seq<char>>, e: Seq<char>, token: Seq<char>)
    ensures
        s.phase == MintPhase::Look ==> next(s, MintReply::Known(true)).1 is SetPassword && (
        if s.create_user {
            next(s, MintReply::Known(false)).1 == (MintAction::<Seq<char>>::MakeUser {
                email: s.login + "@localhost"@,
                password: s.login + "-bootstrap-Password-123"@,
            })
        } else {
            next(s, MintReply::Known(false)).1 matches MintAction::End(Err(_))
        }),
        s.phase == MintPhase::Make ==> next(s, MintReply::Done).1 is SetPassword,
        s.phase == MintPhase::Password ==> next(s, MintReply::Done).1 == (MintAction::<
            Seq<char>,
        >::MakeToken { scoped: true }),
        s.phase == MintPhase::ScopedToken ==> next(s, MintReply::Failed(e)).1 == (MintAction::<
            Seq<char>,
        >::MakeToken { scoped: false }),
        s.phase == MintPhase::ScopedToken || s.phase == MintPhase::PlainToken ==> next(
            s,
            MintReply::Token(token),
        ).1 == MintAction::<Seq<char>>::End(Ok(token)),
        s.phase == MintPhase::Look || s.phase == MintPhase::Make || s.phase == MintPhase::Password
            || s.phase == MintPhase::PlainToken ==> next(s, MintReply::Failed(e)).1 == MintAction::<
            Seq<char>,
        >::End(Err(e)),
{
}

/// What is asked for is what is waited for, and nothing after the end.
pub proof fn law_minting_waits_for_what_it_asks(s: Minting<Seq<char>>, reply: MintReply<Seq<char>>)
    ensures
        ({
            let n = next(s, reply);
            &&& n.1 is MakeUser <==> n.0.phase == MintPhase::Make
            &&& n.1 is SetPassword <==> n.0.phase == MintPhase::Password
            &&& n.1 == (MintAction::<Seq<char>>::MakeToken { scoped: true }) <==> n.0.phase
                == MintPhase::ScopedToken
            &&& n.1 == (MintAction::<Seq<char>>::MakeToken { scoped: false }) <==> n.0.phase
                == MintPhase::PlainToken
            &&& n.1 is End <==> n.0.phase == MintPhase::Over
            &&& n.0.login == s.login
            &&& n.0.create_user == s.create_user
        }),
{
}

} // verus!
