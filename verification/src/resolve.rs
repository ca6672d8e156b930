//! The value resolver: turns one declarative value description into styled
//! text. The outside work a value needs — running a program, reading an
//! environment variable — is named by a `Request`; the caller performs it
//! and hands the outcome back as a `Fetched`, and resolution itself is a
//! pure decision on that outcome.

use vstd::prelude::*;

use crate::config::Value;
use crate::error::Error;
use crate::strutil::trim_end_whitespace;
use crate::strutil::trimmed;
use crate::style::Style;
use crate::text::Text;

verus! {

/// The outside work one value asks for: nothing, one program run, the two
/// identity lookups, or one environment lookup.
pub enum Request {
    Nothing,
    Run { program: String, args: Vec<String> },
    RunPair { first: String, second: String },
    LookupEnv { name: String },
}

/// The outcome of the outside work: for a program run, its decoded standard
/// output (`None` where the bytes were not valid text); for an environment
/// lookup, the variable's value (`None` where it is unset).
pub enum Fetched {
    Nothing,
    Output(Option<String>),
    Outputs(Option<String>, Option<String>),
    EnvValue(Option<String>),
}

/// The request a value's resolution needs.
pub open spec fn request_for(v: Value, r: Request) -> bool {
    match v {
        Value::Separator => r is Nothing,
        Value::Const { .. } => r is Nothing,
        Value::Command { cmd, args, .. } => (match r {
            Request::Run { program, args: a } => program@ == cmd@ && a@.len() == args@.len() && (
            forall|k: int| 0 <= k < args@.len() ==> (#[trigger] a@[k])@ == args@[k]@),
            _ => false,
        }),
        Value::Nu { expr, .. } => (match r {
            Request::Run { program, args: a } => program@ == "nu"@ && a@.len() == 2 && a@[0]@
                == "-c"@ && a@[1]@ == expr@,
            _ => false,
        }),
        Value::Hostname { .. } => (match r {
            Request::RunPair { first, second } => first@ == "hostname"@ && second@ == "whoami"@,
            _ => false,
        }),
        Value::EnvVariable { name, .. } => (match r {
            Request::LookupEnv { name: n } => n@ == name@,
            _ => false,
        }),
    }
}

/// Whether the fetched outcome has the shape the value's request asks for.
pub open spec fn shape_matches(v: Value, f: Fetched) -> bool {
    match v {
        Value::Separator => f is Nothing,
        Value::Const { .. } => f is Nothing,
        Value::Command { .. } => f is Output,
        Value::Nu { .. } => f is Output,
        Value::Hostname { .. } => f is Outputs,
        Value::EnvVariable { .. } => f is EnvValue,
    }
}

/// The main fragment a resolved value builds from text `s`: styled by `st`
/// when a style is given, plain otherwise.
pub open spec fn main_fragment(t: Text, s: Seq<char>, st: Option<Style>) -> bool {
    match st {
        Some(style) => (match t {
            Text::Styled { text, style: st2 } => text@ == s && st2 == style,
            _ => false,
        }),
        None => (match t {
            Text::Unstyled(u) => u@ == s,
            _ => false,
        }),
    }
}

/// What resolving a program's or shell expression's output yields: the
/// undecodable output is an `InvalidUtf8` naming `src`; otherwise the output
/// is right-trimmed once, styled if asked, and combined with the postfix if
/// one is given.
pub open spec fn command_resolved(
    src: Seq<char>,
    out: Option<String>,
    postfix: Option<Text>,
    st: Option<Style>,
    r: Result<Option<Text>, Error>,
) -> bool {
    match out {
        None => (match r {
            Err(Error::InvalidUtf8 { source }) => source@ == src,
            _ => false,
        }),
        Some(o) => (match r {
            Ok(Some(Text::Combine(parts))) => parts@.len() == (
            if postfix is Some {
                2int
            } else {
                1int
            }) && main_fragment(parts@[0], trimmed(o@), st) && (match postfix {
                Some(p) => parts@[1] == p,
                None => true,
            }),
            _ => false,
        }),
    }
}

/// What resolving an environment variable yields: an unset variable is an
/// `EnvNotFound` naming it; a set one is taken verbatim, styled if asked.
pub open spec fn env_resolved(
    name: Seq<char>,
    val: Option<String>,
    st: Option<Style>,
    r: Result<Option<Text>, Error>,
) -> bool {
    match val {
        None => (match r {
            Err(Error::EnvNotFound { name: n }) => n@ == name,
            _ => false,
        }),
        Some(v) => (match r {
            Ok(Some(t)) => main_fragment(t, v@, st),
            _ => false,
        }),
    }
}

/// What resolving the host identity yields: either lookup's undecodable
/// output fails the whole field — the hostname's first — and otherwise the
/// result combines the trimmed, independently styled username and hostname
/// around the delimiter, `@` by default.
pub open spec fn host_resolved(
    user_style: Option<Style>,
    host_style: Option<Style>,
    delimiter: Option<Text>,
    host_out: Option<String>,
    user_out: Option<String>,
    r: Result<Option<Text>, Error>,
) -> bool {
    match host_out {
        None => (match r {
            Err(Error::InvalidUtf8 { source }) => source@ == "hostname"@,
            _ => false,
        }),
        Some(h) => (match user_out {
            None => (match r {
                Err(Error::InvalidUtf8 { source }) => source@ == "whoami"@,
                _ => false,
            }),
            Some(u) => (match r {
                Ok(Some(Text::Combine(parts))) => parts@.len() == 3 && main_fragment(
                    parts@[0],
                    trimmed(u@),
                    user_style,
                ) && (match delimiter {
                    Some(d) => parts@[1] == d,
                    None => (match parts@[1] {
                        Text::Unstyled(s) => s@ == "@"@,
                        _ => false,
                    }),
                }) && main_fragment(parts@[2], trimmed(h@), host_style),
                _ => false,
            }),
        }),
    }
}

/// What resolving a value on a fetched outcome yields, for every value kind:
/// a separator yields no content, a constant its text unchanged, and the
/// rest as their own predicates say.
pub open spec fn resolved(v: Value, f: Fetched, r: Result<Option<Text>, Error>) -> bool {
    match v {
        Value::Separator => r matches Ok(o) && o is None,
        Value::Const { text } => (match r {
            Ok(Some(t)) => t == text,
            _ => false,
        }),
        Value::Command { cmd, args, postfix, style } => (match f {
            Fetched::Output(out) => command_resolved(cmd@, out, postfix, style, r),
            _ => false,
        }),
        Value::Nu { expr, postfix, style } => (match f {
            Fetched::Output(out) => command_resolved(expr@, out, postfix, style, r),
            _ => false,
        }),
        Value::Hostname { username, hostname, delimiter } => (match f {
            Fetched::Outputs(host_out, user_out) => host_resolved(
                username,
                hostname,
                delimiter,
                host_out,
                user_out,
                r,
            ),
            _ => false,
        }),
        Value::EnvVariable { name, style } => (match f {
            Fetched::EnvValue(val) => env_resolved(name@, val, style, r),
            _ => false,
        }),
    }
}

/// Builds the main fragment: `s` under the style if one is given.
fn styled_text(s: String, st: Option<Style>) -> (t: Text)
    ensures
        main_fragment(t, s@, st),
{
    match st {
        Some(style) => Text::Styled { text: s, style },
        None => Text::Unstyled(s),
    }
}

/// Resolves a program's decoded output: trims one trailing whitespace run,
/// styles, and appends the postfix if given.
fn resolve_output(
    src: String,
    out: Option<String>,
    postfix: Option<Text>,
    st: Option<Style>,
) -> (r: Result<Option<Text>, Error>)
    ensures
        command_resolved(src@, out, postfix, st, r),
{
    match out {
        None => Err(Error::InvalidUtf8 { source: src }),
        Some(o) => {
            let t = trim_end_whitespace(o.as_str());
            let main = styled_text(t, st);
            let mut parts: Vec<Text> = Vec::new();
            parts.push(main);
            match postfix {
                Some(p) => {
                    parts.push(p);
                }
                None => {}
            }
            Ok(Some(Text::Combine(parts)))
        }
    }
}

impl Value {
    /// The outside work this value needs before it can resolve.
    pub fn query(&self) -> (r: Request)
        ensures
            request_for(*self, r),
    {
        match self {
            Value::Separator => Request::Nothing,
            Value::Const { .. } => Request::Nothing,
            Value::Command { cmd, args, .. } => {
                let mut a: Vec<String> = Vec::new();
                let mut i: usize = 0;
                while i < args.len()
                    invariant
                        i <= args@.len(),
                        a@.len() == i,
                        forall|k: int| 0 <= k < i ==> (#[trigger] a@[k])@ == args@[k]@,
                    decreases args@.len() - i,
                {
                    a.push(args[i].clone());
                    i = i + 1;
                }
                Request::Run { program: cmd.clone(), args: a }
            }
            Value::Nu { expr, .. } => {
                let mut a: Vec<String> = Vec::new();
                a.push(String::from_str("-c"));
                a.push(expr.clone());
                Request::Run { program: String::from_str("nu"), args: a }
            }
            Value::Hostname { .. } => Request::RunPair {
                first: String::from_str("hostname"),
                second: String::from_str("whoami"),
            },
            Value::EnvVariable { name, .. } => Request::LookupEnv { name: name.clone() },
        }
    }

    /// Resolves this value on the outcome of its outside work: `None`
    /// exactly for a separator, styled text for everything else, or the
    /// fetch's failure. A pure decision: everything the result depends on is
    /// in the value and the outcome.
    pub fn resolve(self, fetched: Fetched) -> (r: Result<Option<Text>, Error>)
        requires
            shape_matches(self, fetched),
        ensures
            resolved(self, fetched, r),
    {
        match self {
            Value::Separator => Ok(None),
            Value::Const { text } => Ok(Some(text)),
            Value::Command { cmd, args: _, postfix, style } => {
                match fetched {
                    Fetched::Output(out) => resolve_output(cmd, out, postfix, style),
                    _ => vstd::pervasive::unreached(),
                }
            }
            Value::Nu { expr, postfix, style } => {
                match fetched {
                    Fetched::Output(out) => resolve_output(expr, out, postfix, style),
                    _ => vstd::pervasive::unreached(),
                }
            }
            Value::Hostname { username, hostname, delimiter } => {
                match fetched {
                    Fetched::Outputs(host_out, user_out) => {
                        let h = match host_out {
                            None => {
                                return Err(
                                    Error::InvalidUtf8 { source: String::from_str("hostname") },
                                );
                            }
                            Some(h) => h,
                        };
                        let u = match user_out {
                            None => {
                                return Err(
                                    Error::InvalidUtf8 { source: String::from_str("whoami") },
                                );
                            }
                            Some(u) => u,
                        };
                        let user_part = styled_text(trim_end_whitespace(u.as_str()), username);
                        let host_part = styled_text(trim_end_whitespace(h.as_str()), hostname);
                        let delim = match delimiter {
                            Some(d) => d,
                            None => Text::Unstyled(String::from_str("@")),
                        };
                        let mut parts: Vec<Text> = Vec::new();
                        parts.push(user_part);
                        parts.push(delim);
                        parts.push(host_part);
                        Ok(Some(Text::Combine(parts)))
                    }
                    _ => vstd::pervasive::unreached(),
                }
            }
            Value::EnvVariable { name, style } => {
                match fetched {
                    Fetched::EnvValue(val) => {
                        match val {
                            None => Err(Error::EnvNotFound { name }),
                            Some(v) => Ok(Some(styled_text(v, style))),
                        }
                    }
                    _ => vstd::pervasive::unreached(),
                }
            }
        }
    }
}

} // verus!
