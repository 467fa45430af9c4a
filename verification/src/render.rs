//! The whole render pipeline from template text to configuration text:
//! strip comments, parse, resolve against the environment snapshot,
//! serialise. Reading the template and writing the output are the caller's
//! business; this part is a pure function of (text, snapshot).

use vstd::prelude::*;
use crate::json::Json;
use crate::parse::{spec_parse, parse_json};
use crate::resolve::{EnvSnapshot, ResolveErr, ResolveErrV, Warning, WarningV, spec_resolve,
    spec_warnings, warns_view, process_value, process_value_report};
use crate::ser::{spec_ser_pretty, to_text_pretty};
use crate::strip::{spec_strip, strip_comments};

verus! {

/// Why a render failed.
#[derive(Debug, PartialEq, Eq)]
pub enum RenderErr {
    /// The template, after comment stripping, is not a well-formed
    /// JSON-like document. Nothing is resolved and nothing is produced.
    BadTemplate,
    /// Resolution aborted (see `ResolveErr`).
    Resolve(ResolveErr),
}

/// The mathematical form of `RenderErr`.
pub enum RenderErrV {
    BadTemplate,
    Resolve(ResolveErrV),
}

impl View for RenderErr {
    type V = RenderErrV;

    open spec fn view(&self) -> RenderErrV {
        match self {
            RenderErr::BadTemplate => RenderErrV::BadTemplate,
            RenderErr::Resolve(e) => RenderErrV::Resolve(e@),
        }
    }
}

/// The configuration text a template renders to under a snapshot: the
/// template is comment-stripped, parsed, resolved, and serialised
/// pretty-printed (two-space indent); a malformed template or a failing
/// structural substitution aborts with the corresponding error.
pub open spec fn spec_render(text: Seq<char>, env: Seq<(Seq<char>, Seq<char>)>) -> Result<
    Seq<char>,
    RenderErrV,
> {
    match spec_parse(spec_strip(text)) {
        None => Err(RenderErrV::BadTemplate),
        Some(doc) => match spec_resolve(doc, env) {
            Ok(rd) => Ok(spec_ser_pretty(rd)),
            Err(e) => Err(RenderErrV::Resolve(e)),
        },
    }
}

/// Renders a template against a snapshot: returns exactly the text
/// `spec_render` describes, and an error exactly when it says so. Any
/// warnings are dropped; callers that report them use
/// `render_template_report`.
pub fn render_template(template: &str, env: &EnvSnapshot) -> (r: Result<String, RenderErr>)
    ensures
        (match (r, spec_render(template@, env@)) {
            (Ok(s), Ok(sv)) => s@ == sv,
            (Err(e), Err(ev)) => e@ == ev,
            _ => false,
        }),
{
    let stripped = strip_comments(template);
    match parse_json(stripped.as_str()) {
        None => Err(RenderErr::BadTemplate),
        Some(doc) => match process_value(&doc, env) {
            Ok(rd) => Ok(to_text_pretty(&rd)),
            Err(e) => Err(RenderErr::Resolve(e)),
        },
    }
}

/// The warnings one render emits: none when the template is malformed
/// (nothing was resolved), else exactly what resolution emits.
pub open spec fn spec_render_warnings(text: Seq<char>, env: Seq<(Seq<char>, Seq<char>)>) -> Seq<
    WarningV,
> {
    match spec_parse(spec_strip(text)) {
        None => Seq::empty(),
        Some(doc) => spec_warnings(doc, env),
    }
}

/// As `render_template`, also gathering the warnings the resolution pass
/// emitted, so that no degradation — a dropped element, a kept literal, an
/// absent interpolation name — goes unreported.
pub fn render_template_report(
    template: &str,
    env: &EnvSnapshot,
    warns: &mut Vec<Warning>,
) -> (r: Result<String, RenderErr>)
    ensures
        (match (r, spec_render(template@, env@)) {
            (Ok(s), Ok(sv)) => s@ == sv,
            (Err(e), Err(ev)) => e@ == ev,
            _ => false,
        }),
        warns_view(*final(warns)) == warns_view(*old(warns)) + spec_render_warnings(
            template@,
            env@,
        ),
{
    let stripped = strip_comments(template);
    match parse_json(stripped.as_str()) {
        None => {
            proof {
                assert(warns_view(*warns) =~= warns_view(*warns) + spec_render_warnings(
                    template@,
                    env@,
                ));
            }
            Err(RenderErr::BadTemplate)
        },
        Some(doc) => match process_value_report(&doc, env, warns) {
            Ok(rd) => Ok(to_text_pretty(&rd)),
            Err(e) => Err(RenderErr::Resolve(e)),
        },
    }
}

/// Parses already-stripped template text into a document tree; this is the
/// step between stripping and resolving, exposed for callers that want the
/// tree itself.
pub fn parse_template(text: &str) -> (r: Option<Json>)
    ensures
        (match (r, spec_parse(spec_strip(text@))) {
            (None, None) => true,
            (Some(j), Some(v)) => j@ == v,
            _ => false,
        }),
{
    let stripped = strip_comments(text);
    parse_json(stripped.as_str())
}

} // verus!
