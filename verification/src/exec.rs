//! The run mode and the errors every part of a run can raise.

use crate::text;
use crate::text::{number, Text};
use vstd::prelude::*;

verus! {

/// Whether effects run for real or only render a dry-run trace.
///
/// `DryRun` skips the effect itself but keeps every check: it means "do
/// not execute", not "do not validate".
#[derive(Debug, Clone, Copy, PartialEq, Eq, Structural)]
pub enum ExecMode {
    /// Do not run effects; record a trace line per op.
    DryRun,
    /// Run the real effect and record a result summary.
    Real,
}

/// Errors raised while building a context or executing an op.
#[derive(Debug)]
pub enum ExecError {
    /// A declared capability is not one the host implements.
    CapabilityUnknown(String),
    /// An op required a capability the profile never declared.
    CapabilityDenied(String),
    /// An op targeted a path outside every declared root.
    PathDenied {
        /// The rejected path.
        path: String,
    },
    /// An op targeted a URL that matches no declared pattern.
    HttpDenied {
        /// The rejected URL.
        url: String,
    },
    /// No payload node was recorded for the op's node.
    PayloadMissing(u64),
    /// The payload node of an op is not the variant the op expects.
    PayloadVariant {
        /// The offending node id.
        node: u64,
        /// The variant the op expected.
        expected: &'static str,
    },
    /// A consumed secret is not declared by the profile.
    SecretUndeclared {
        /// The rejected logical secret name.
        name: String,
    },
    /// A declared, consumed secret is absent from the host environment.
    SecretMissingInHostEnv {
        /// The logical secret name.
        name: String,
    },
    /// An effect ran but failed.
    EffectFailed {
        /// Registry op name.
        op: String,
        /// Human-readable failure description.
        message: String,
    },
    /// The requested effect is not supported here.
    Unsupported(String),
}

/// The model of an [`ExecError`].
pub enum ErrorView {
    CapabilityUnknown(Text),
    CapabilityDenied(Text),
    PathDenied { path: Text },
    HttpDenied { url: Text },
    PayloadMissing(u64),
    PayloadVariant { node: u64, expected: Text },
    SecretUndeclared { name: Text },
    SecretMissingInHostEnv { name: Text },
    EffectFailed { op: Text, message: Text },
    Unsupported(Text),
}

impl View for ExecError {
    type V = ErrorView;

    open spec fn view(&self) -> ErrorView {
        match self {
            ExecError::CapabilityUnknown(name) => ErrorView::CapabilityUnknown(name@),
            ExecError::CapabilityDenied(name) => ErrorView::CapabilityDenied(name@),
            ExecError::PathDenied { path } => ErrorView::PathDenied { path: path@ },
            ExecError::HttpDenied { url } => ErrorView::HttpDenied { url: url@ },
            ExecError::PayloadMissing(node) => ErrorView::PayloadMissing(*node),
            ExecError::PayloadVariant { node, expected } => ErrorView::PayloadVariant {
                node: *node,
                expected: expected@,
            },
            ExecError::SecretUndeclared { name } => ErrorView::SecretUndeclared { name: name@ },
            ExecError::SecretMissingInHostEnv { name } => ErrorView::SecretMissingInHostEnv {
                name: name@,
            },
            ExecError::EffectFailed { op, message } => ErrorView::EffectFailed {
                op: op@,
                message: message@,
            },
            ExecError::Unsupported(message) => ErrorView::Unsupported(message@),
        }
    }
}

impl ErrorView {
    /// The sentence an error reads as.
    pub open spec fn sentence(self) -> Text {
        match self {
            ErrorView::CapabilityUnknown(name) => "capability '"@ + name
                + "' declared but not implemented by host"@,
            ErrorView::CapabilityDenied(name) => "capability '"@ + name
                + "' not declared in profile.capabilities"@,
            ErrorView::PathDenied { path } => "'"@ + path
                + "' is not absolute, contains '..', or lies outside profile.paths"@,
            ErrorView::HttpDenied { url } => "'"@ + url
                + "' matches no pattern in profile.http_allowlist"@,
            ErrorView::PayloadMissing(node) => "no payload recorded for node n"@ + text::decimal(
                node as nat,
            ),
            ErrorView::PayloadVariant { node, expected } => "payload for node n"@ + text::decimal(
                node as nat,
            ) + " is not a "@ + expected + " node"@,
            ErrorView::SecretUndeclared { name } => "secret '"@ + name
                + "' is not declared in profile.env_secrets"@,
            ErrorView::SecretMissingInHostEnv { name } => "secret '"@ + name
                + "' missing in host env"@,
            ErrorView::EffectFailed { op, message } => op + ": "@ + message,
            ErrorView::Unsupported(message) => message,
        }
    }
}

/// `before`, `middle` and `after` in one string.
fn around(before: &str, middle: &str, after: &str) -> (r: String)
    ensures
        r@ == before@ + middle@ + after@,
{
    let mut out = before.to_owned();
    out.append(middle);
    out.append(after);
    out
}

impl ExecError {
    /// The sentence the error reads as.
    pub fn to_string(&self) -> (r: String)
        ensures
            r@ == self@.sentence(),
    {
        match self {
            ExecError::CapabilityUnknown(name) => around(
                "capability '",
                name.as_str(),
                "' declared but not implemented by host",
            ),
            ExecError::CapabilityDenied(name) => around(
                "capability '",
                name.as_str(),
                "' not declared in profile.capabilities",
            ),
            ExecError::PathDenied { path } => around(
                "'",
                path.as_str(),
                "' is not absolute, contains '..', or lies outside profile.paths",
            ),
            ExecError::HttpDenied { url } => around(
                "'",
                url.as_str(),
                "' matches no pattern in profile.http_allowlist",
            ),
            ExecError::PayloadMissing(node) => {
                let mut out = "no payload recorded for node n".to_owned();
                out.append(number(*node).as_str());
                out
            },
            ExecError::PayloadVariant { node, expected } => {
                let mut out = "payload for node n".to_owned();
                out.append(number(*node).as_str());
                out.append(" is not a ");
                out.append(expected);
                out.append(" node");
                out
            },
            ExecError::SecretUndeclared { name } => around(
                "secret '",
                name.as_str(),
                "' is not declared in profile.env_secrets",
            ),
            ExecError::SecretMissingInHostEnv { name } => around(
                "secret '",
                name.as_str(),
                "' missing in host env",
            ),
            ExecError::EffectFailed { op, message } => around(
                op.as_str(),
                ": ",
                message.as_str(),
            ),
            ExecError::Unsupported(message) => message.clone(),
        }
    }
}

/// The model of a fallible string.
pub open spec fn text_result(r: Result<String, ExecError>) -> Result<Text, ErrorView> {
    match r {
        Ok(text) => Ok(text@),
        Err(error) => Err(error@),
    }
}

/// The model of a fallible check.
pub open spec fn unit_result(r: Result<(), ExecError>) -> Result<(), ErrorView> {
    match r {
        Ok(_) => Ok(()),
        Err(error) => Err(error@),
    }
}

/// What an error reads as names what it is about, where a reader looks
/// for it: a refused capability, path, URL or secret in quotes, a node by
/// its number, a failed effect by its op before its message.
pub proof fn law_an_error_reads_as_what_it_is(error: ErrorView)
    ensures
        error matches ErrorView::CapabilityUnknown(name) ==> error.sentence() == "capability '"@
            + name + "' declared but not implemented by host"@,
        error matches ErrorView::CapabilityDenied(name) ==> error.sentence() == "capability '"@
            + name + "' not declared in profile.capabilities"@,
        error matches ErrorView::PathDenied { path } ==> error.sentence() == "'"@ + path
            + "' is not absolute, contains '..', or lies outside profile.paths"@,
        error matches ErrorView::HttpDenied { url } ==> error.sentence() == "'"@ + url
            + "' matches no pattern in profile.http_allowlist"@,
        error matches ErrorView::PayloadMissing(node) ==> error.sentence()
            == "no payload recorded for node n"@ + text::decimal(node as nat),
        error matches ErrorView::PayloadVariant { node, expected } ==> error.sentence()
            == "payload for node n"@ + text::decimal(node as nat) + " is not a "@ + expected
            + " node"@,
        error matches ErrorView::SecretUndeclared { name } ==> error.sentence() == "secret '"@
            + name + "' is not declared in profile.env_secrets"@,
        error matches ErrorView::SecretMissingInHostEnv { name } ==> error.sentence()
            == "secret '"@ + name + "' missing in host env"@,
        error matches ErrorView::EffectFailed { op, message } ==> error.sentence() == op + ": "@
            + message,
        error matches ErrorView::Unsupported(message) ==> error.sentence() == message,
{
}

} // verus!
