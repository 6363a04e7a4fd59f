//! Reading the configuration again while the orchestrator runs: when it is taken over, and what is said
//! where it cannot be.

use crate::digest::{hex_of, sha256_hex, sha256_of};
use crate::text::str_eq;
use vstd::prelude::*;
use vstd::string::*;

verus! {

/// Why the configuration could not be taken over the last time.
#[verifier::ext_equal]
pub enum DispatchConfigReloadError<S> {
    Io(S),
    InvalidToml { sha256: S, error: S },
}

/// What is known of the configuration: the digest of the text in use, and what was wrong with the text
/// read last, where something was.
#[verifier::ext_equal]
pub struct DispatchConfigReloadState<S> {
    pub last_good_sha256: S,
    pub last_error: Option<DispatchConfigReloadError<S>>,
}

/// The view of why the configuration could not be taken over.
pub open spec fn error_view(e: DispatchConfigReloadError<String>) -> DispatchConfigReloadError<
    Seq<char>,
> {
    match e {
        DispatchConfigReloadError::Io(t) => DispatchConfigReloadError::Io(t@),
        DispatchConfigReloadError::InvalidToml { sha256, error } => {
            DispatchConfigReloadError::InvalidToml { sha256: sha256@, error: error@ }
        },
    }
}

/// The view of what is known of the configuration.
pub open spec fn state_view(s: DispatchConfigReloadState<String>) -> DispatchConfigReloadState<
    Seq<char>,
> {
    DispatchConfigReloadState {
        last_good_sha256: s.last_good_sha256@,
        last_error: match s.last_error {
            Some(e) => Some(error_view(e)),
            None => None,
        },
    }
}

/// The configuration in use, and what is known of its text.
#[verifier::ext_equal]
pub struct DispatchConfigLive<C, S> {
    pub current: C,
    pub reload: DispatchConfigReloadState<S>,
}

/// The view of the configuration in use.
pub open spec fn live_view<C>(l: DispatchConfigLive<C, String>) -> DispatchConfigLive<C, Seq<char>> {
    DispatchConfigLive { current: l.current, reload: state_view(l.reload) }
}

/// What is done after the text was read: nothing, a word on its not being readable, or the loading of a
/// text with a new digest.
#[verifier::ext_equal]
pub enum ReloadStep<S> {
    Nothing,
    ReportIo(S),
    Load { sha256: S },
}

/// The view of what is done after the text was read.
pub open spec fn step_view(s: ReloadStep<String>) -> ReloadStep<Seq<char>> {
    match s {
        ReloadStep::Nothing => ReloadStep::Nothing,
        ReloadStep::ReportIo(t) => ReloadStep::ReportIo(t@),
        ReloadStep::Load { sha256 } => ReloadStep::Load { sha256: sha256@ },
    }
}

/// What is told of the loading of a text: that it was taken over, what is wrong with it, or nothing where
/// that was told before.
#[verifier::ext_equal]
pub enum Reloaded<S> {
    TakenOver { sha256: S },
    Report { sha256: S, error: S },
    Known,
}

/// The view of what is told of the loading of a text.
pub open spec fn told_view(t: Reloaded<String>) -> Reloaded<Seq<char>> {
    match t {
        Reloaded::TakenOver { sha256 } => Reloaded::TakenOver { sha256: sha256@ },
        Reloaded::Report { sha256, error } => Reloaded::Report { sha256: sha256@, error: error@ },
        Reloaded::Known => Reloaded::Known,
    }
}

/// The view of what a loading gave.
pub open spec fn load_view<C>(r: Result<C, String>) -> Result<C, Seq<char>> {
    match r {
        Ok(c) => Ok(c),
        Err(e) => Err(e@),
    }
}

/// The digest of a text, as it is kept.
pub open spec fn text_digest(text: Seq<char>) -> Seq<char> {
    hex_of(sha256_of(vstd::utf8::encode_utf8(text)))
}

/// The text is the one that was found wrong last.
pub open spec fn rejected(s: DispatchConfigReloadState<Seq<char>>, text: Seq<char>) -> bool {
    s.last_error matches Some(DispatchConfigReloadError::InvalidToml { sha256, .. }) && sha256
        == text_digest(text)
}

/// What follows the reading of the text: one that cannot be read is reported once, one that is in use
/// clears what was wrong, and one that was found wrong before is left alone.
pub open spec fn probed(
    s: DispatchConfigReloadState<Seq<char>>,
    read: Result<Seq<char>, Seq<char>>,
) -> (DispatchConfigReloadState<Seq<char>>, ReloadStep<Seq<char>>) {
    match read {
        Err(e) => if s.last_error == Some(DispatchConfigReloadError::Io(e)) {
            (s, ReloadStep::Nothing)
        } else {
            (
                DispatchConfigReloadState {
                    last_error: Some(DispatchConfigReloadError::Io(e)),
                    ..s
                },
                ReloadStep::ReportIo(e),
            )
        },
        Ok(text) => {
            let sha256 = text_digest(text);
            if sha256 == s.last_good_sha256 {
                (DispatchConfigReloadState { last_error: None, ..s }, ReloadStep::Nothing)
            } else if rejected(s, text) {
                (s, ReloadStep::Nothing)
            } else {
                (s, ReloadStep::Load { sha256 })
            }
        },
    }
}

/// What follows the loading of a text: a good one is taken over, and a bad one leaves the configuration
/// in use and is reported once.
pub open spec fn loaded<C>(
    l: DispatchConfigLive<C, Seq<char>>,
    sha256: Seq<char>,
    given: Result<C, Seq<char>>,
) -> (DispatchConfigLive<C, Seq<char>>, Reloaded<Seq<char>>) {
    match given {
        Ok(config) => (
            DispatchConfigLive {
                current: config,
                reload: DispatchConfigReloadState { last_good_sha256: sha256, last_error: None },
            },
            Reloaded::TakenOver { sha256 },
        ),
        Err(error) => {
            let key = Some(DispatchConfigReloadError::InvalidToml { sha256, error });
            (
                DispatchConfigLive {
                    reload: DispatchConfigReloadState { last_error: key, ..l.reload },
                    ..l
                },
                if l.reload.last_error == key {
                    Reloaded::Known
                } else {
                    Reloaded::Report { sha256, error }
                },
            )
        },
    }
}

/// One pass: the text is read and, where it is new, loaded; with what it loads as.
pub open spec fn reloaded<C>(
    l: DispatchConfigLive<C, Seq<char>>,
    read: Result<Seq<char>, Seq<char>>,
    given: Result<C, Seq<char>>,
) -> DispatchConfigLive<C, Seq<char>> {
    let probe = probed(l.reload, read);
    let after = DispatchConfigLive { reload: probe.0, ..l };
    match probe.1 {
        ReloadStep::Load { sha256 } => loaded(after, sha256, given).0,
        _ => after,
    }
}

impl<C> DispatchConfigLive<C, String> {
    /// The configuration that was loaded from a text.
    pub fn load(text: &str, config: C) -> (r: Self)
        ensures
            live_view(r) == (DispatchConfigLive {
                current: config,
                reload: DispatchConfigReloadState {
                    last_good_sha256: text_digest(text@),
                    last_error: None,
                },
            }),
    {
        DispatchConfigLive {
            current: config,
            reload: DispatchConfigReloadState {
                last_good_sha256: sha256_hex(text.as_bytes()),
                last_error: None,
            },
        }
    }

    /// The configuration in use.
    pub fn snapshot(&self) -> (r: &C)
        ensures
            *r == self.current,
    {
        &self.current
    }

    /// Takes the reading of the text, which leaves the configuration in use.
    pub fn reload_probe(self, read: Result<&str, String>) -> (r: (Self, ReloadStep<String>))
        ensures
            r.0.current == self.current,
            (state_view(r.0.reload), step_view(r.1)) == probed(
                state_view(self.reload),
                match read {
                    Ok(t) => Ok(t@),
                    Err(e) => Err(e@),
                },
            ),
    {
        let (reload, step) = reload_probe(self.reload, read);
        (DispatchConfigLive { current: self.current, reload }, step)
    }

    /// Takes the loading of a text with a new digest.
    pub fn reload_loaded(self, sha256: String, given: Result<C, String>) -> (r: (
        Self,
        Reloaded<String>,
    ))
        ensures
            (live_view(r.0), told_view(r.1)) == loaded(
                live_view(self),
                sha256@,
                load_view(given),
            ),
    {
        match given {
            Ok(config) => {
                let reload = DispatchConfigReloadState {
                    last_good_sha256: sha256.clone(),
                    last_error: None,
                };
                let live = DispatchConfigLive { current: config, reload };
                (live, Reloaded::TakenOver { sha256 })
            },
            Err(error) => {
                let known = match &self.reload.last_error {
                    Some(
                        DispatchConfigReloadError::InvalidToml { sha256: last, error: said },
                    ) => str_eq(last.as_str(), sha256.as_str()) && str_eq(
                        said.as_str(),
                        error.as_str(),
                    ),
                    _ => false,
                };
                let mut live = self;
                live.reload.last_error = Some(
                    DispatchConfigReloadError::InvalidToml {
                        sha256: sha256.clone(),
                        error: error.clone(),
                    },
                );
                if known {
                    (live, Reloaded::Known)
                } else {
                    (live, Reloaded::Report { sha256, error })
                }
            },
        }
    }
}

/// Takes the reading of the text.
fn reload_probe(s: DispatchConfigReloadState<String>, read: Result<&str, String>) -> (r: (
    DispatchConfigReloadState<String>,
    ReloadStep<String>,
))
    ensures
        (state_view(r.0), step_view(r.1)) == probed(
            state_view(s),
            match read {
                Ok(t) => Ok(t@),
                Err(e) => Err(e@),
            },
        ),
{
    let mut s = s;
    match read {
        Err(e) => {
            let same = match &s.last_error {
                Some(DispatchConfigReloadError::Io(last)) => str_eq(last.as_str(), e.as_str()),
                _ => false,
            };
            if same {
                return (s, ReloadStep::Nothing);
            }
            s.last_error = Some(DispatchConfigReloadError::Io(e.clone()));
            (s, ReloadStep::ReportIo(e))
        },
        Ok(text) => {
            let sha256 = sha256_hex(text.as_bytes());
            if str_eq(sha256.as_str(), s.last_good_sha256.as_str()) {
                s.last_error = None;
                return (s, ReloadStep::Nothing);
            }
            let known = match &s.last_error {
                Some(DispatchConfigReloadError::InvalidToml { sha256: last, .. }) => str_eq(
                    last.as_str(),
                    sha256.as_str(),
                ),
                _ => false,
            };
            if known {
                return (s, ReloadStep::Nothing);
            }
            (s, ReloadStep::Load { sha256 })
        },
    }
}

/// A text that cannot be read or taken over is reported once: reading the same again changes nothing and
/// says nothing.
pub proof fn law_errors_are_reported_once<C>(
    l: DispatchConfigLive<C, Seq<char>>,
    text: Seq<char>,
    error: Seq<char>,
)
    requires
        probed(l.reload, Ok(text)).1 is Load,
    ensures
        ({
            let bad = reloaded(l, Ok(text), Err(error)).reload;
            probed(bad, Ok(text)) == (bad, ReloadStep::<Seq<char>>::Nothing)
        }),
        ({
            let failed = probed(l.reload, Err(error)).0;
            probed(failed, Err(error)) == (failed, ReloadStep::<Seq<char>>::Nothing)
        }),
{
}

/// A text that was taken over is not loaded again until it changes, and one that is bad leaves the one in
/// use as it is.
pub proof fn law_good_configs_stay<C>(
    l: DispatchConfigLive<C, Seq<char>>,
    text: Seq<char>,
    config: C,
    error: Seq<char>,
)
    requires
        probed(l.reload, Ok(text)).1 is Load,
    ensures
        ({
            let good = reloaded(l, Ok(text), Ok(config)).reload;
            probed(good, Ok(text)) == (good, ReloadStep::<Seq<char>>::Nothing)
        }),
        reloaded(l, Ok(text), Err(error)).reload.last_good_sha256 == l.reload.last_good_sha256,
        reloaded(l, Err(error), Ok(config)).reload.last_good_sha256 == l.reload.last_good_sha256,
{
}

/// One pass over a text that differs from the one in use and was not found wrong before puts what it
/// loads as in use. A text that does not load, cannot be read, is the one in use or was found wrong
/// before leaves the configuration in use as it is. Texts differ here where their digests do.
pub proof fn law_good_texts_replace_the_config<C>(
    l: DispatchConfigLive<C, Seq<char>>,
    in_use: Seq<char>,
    text: Seq<char>,
    read: Result<Seq<char>, Seq<char>>,
    config: C,
    error: Seq<char>,
)
    requires
        l.reload.last_good_sha256 == text_digest(in_use),
        text_digest(text) != text_digest(in_use),
    ensures
        !rejected(l.reload, text) ==> reloaded(l, Ok(text), Ok(config)).current == config,
        rejected(l.reload, text) ==> reloaded(l, Ok(text), Ok(config)) == l,
        reloaded(l, read, Err(error)).current == l.current,
        reloaded(l, Err(error), Ok(config)).current == l.current,
        reloaded(l, Ok(in_use), Ok(config)).current == l.current,
{
}

/// A text is loaded exactly where it is new and was not found wrong before; one that is in use clears what
/// was wrong, and one that cannot be read is reported unless that was the last thing reported.
pub proof fn law_new_texts_are_loaded(
    s: DispatchConfigReloadState<Seq<char>>,
    text: Seq<char>,
    e: Seq<char>,
)
    ensures
        ({
            let d = hex_of(sha256_of(vstd::utf8::encode_utf8(text)));
            let wrong = s.last_error matches Some(
                DispatchConfigReloadError::InvalidToml { sha256, .. },
            ) && sha256 == d;
            &&& d != s.last_good_sha256 && !wrong ==> probed(s, Ok(text)) == (
                s,
                ReloadStep::<Seq<char>>::Load { sha256: d },
            )
            &&& d != s.last_good_sha256 && wrong ==> probed(s, Ok(text)) == (
                s,
                ReloadStep::<Seq<char>>::Nothing,
            )
            &&& d == s.last_good_sha256 ==> probed(s, Ok(text)).1 is Nothing && probed(
                s,
                Ok(text),
            ).0.last_error is None && probed(s, Ok(text)).0.last_good_sha256 == s.last_good_sha256
        }),
        s.last_error != Some(DispatchConfigReloadError::Io(e)) ==> probed(s, Err(e)).1 == ReloadStep::<
            Seq<char>,
        >::ReportIo(e) && probed(s, Err(e)).0.last_error == Some(DispatchConfigReloadError::Io(e))
            && probed(s, Err(e)).0.last_good_sha256 == s.last_good_sha256,
        s.last_error == Some(DispatchConfigReloadError::Io(e)) ==> probed(s, Err(e)) == (
            s,
            ReloadStep::<Seq<char>>::Nothing,
        ),
{
}

/// What loads is taken over with its digest, and what does not is reported with its digest and its error,
/// unless that was the last thing reported.
pub proof fn law_loads_are_told<C>(
    l: DispatchConfigLive<C, Seq<char>>,
    digest: Seq<char>,
    config: C,
    e: Seq<char>,
)
    ensures
        loaded(l, digest, Ok(config)).1 == (Reloaded::<Seq<char>>::TakenOver { sha256: digest }),
        loaded(l, digest, Ok(config)).0.current == config,
        loaded(l, digest, Ok(config)).0.reload.last_good_sha256 == digest,
        loaded(l, digest, Ok(config)).0.reload.last_error is None,
        loaded(l, digest, Err(e)).0.current == l.current,
        loaded(l, digest, Err(e)).0.reload.last_error == Some(
            DispatchConfigReloadError::InvalidToml { sha256: digest, error: e },
        ),
        l.reload.last_error == Some(
            DispatchConfigReloadError::InvalidToml { sha256: digest, error: e },
        ) ==> loaded(l, digest, Err(e)).1 is Known,
        l.reload.last_error != Some(
            DispatchConfigReloadError::InvalidToml { sha256: digest, error: e },
        ) ==> loaded(l, digest, Err(e)).1 == (Reloaded::<Seq<char>>::Report {
            sha256: digest,
            error: e,
        }),
{
}

} // verus!
