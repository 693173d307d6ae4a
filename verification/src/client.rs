//! The upload stage's decisions: the request's address and authentication
//! headers, the dry-run/transmit choice, the dry-run rendering, and the
//! interpretation of what the transport hands back.
//!
//! The POST itself happens outside this crate. A caller asks for an
//! [`UploadPlan`]; a [`UploadPlan::DryRun`] plan is rendered and never sent,
//! a [`UploadPlan::Transmit`] plan is sent and its transport result mapped
//! through [`upload_outcome`].

use vstd::prelude::*;
use vstd::string::*;
use crate::builder::FormPart;
use crate::error::DarkError;
use crate::session::Session;

verus! {

/// A fully-configured upload request: the POST's address, the two headers
/// that are the whole authentication of the call, and the form's parts.
pub struct UploadRequest {
    pub url: String,
    pub cookie_header: String,
    pub csrf_header: String,
    pub parts: Vec<FormPart>,
}

/// What the upload stage decided to do with the request it configured.
pub enum UploadPlan {
    /// Render the request for inspection; no network call happens.
    DryRun(UploadRequest),
    /// Send the request.
    Transmit(UploadRequest),
}

/// What the upload stage produced: the dry-run rendering, or the server's
/// raw response body.
pub enum UploadOutcome {
    DryRunRendering(String),
    ServerResponse(String),
}

/// The request either plan carries.
pub open spec fn plan_request(p: UploadPlan) -> UploadRequest {
    match p {
        UploadPlan::DryRun(req) => req,
        UploadPlan::Transmit(req) => req,
    }
}

/// The upload endpoint: `{baseUrl}/api/{canvasName}/static_assets`.
pub fn upload_url(base_url: &str, canvas: &str) -> (r: String)
    ensures
        r@ == base_url@ + "/api/"@ + canvas@ + "/static_assets"@,
{
    let r = String::from_str(base_url).concat("/api/").concat(canvas).concat("/static_assets");
    proof {
        assert(r@ =~= base_url@ + "/api/"@ + canvas@ + "/static_assets"@);
    }
    r
}

/// Configure the upload request and decide its fate. The request posts to
/// the canvas's static-assets endpoint, authenticated by exactly the
/// session's cookie and CSRF token; it is a dry run, never to be sent, if
/// and only if `dry_run` was asked for.
pub fn prepare_upload(
    base_url: &str,
    canvas: &str,
    session: Session,
    parts: Vec<FormPart>,
    dry_run: bool,
) -> (p: UploadPlan)
    ensures
        dry_run <==> p is DryRun,
        plan_request(p).url@ == base_url@ + "/api/"@ + canvas@ + "/static_assets"@,
        plan_request(p).cookie_header == session.cookie_value,
        plan_request(p).csrf_header == session.csrf_token,
        plan_request(p).parts == parts,
{
    let req = UploadRequest {
        url: upload_url(base_url, canvas),
        cookie_header: session.cookie_value,
        csrf_header: session.csrf_token,
        parts,
    };
    if dry_run {
        UploadPlan::DryRun(req)
    } else {
        UploadPlan::Transmit(req)
    }
}

/// The rendering of the form's field list, one line per part.
pub open spec fn spec_field_lines(parts: Seq<FormPart>) -> Seq<char>
    decreases parts.len(),
{
    if parts.len() == 0 {
        Seq::empty()
    } else {
        spec_field_lines(parts.drop_last()) + "field: "@ + parts.last().field_name@ + "\n"@
    }
}

/// The rendering of a configured request: method, address, headers, and the
/// form's field list.
pub open spec fn spec_render_header(req: UploadRequest) -> Seq<char> {
    "POST "@ + req.url@ + "\n"@ + "cookie: "@ + req.cookie_header@ + "\n"@ + "x-csrf-token: "@
        + req.csrf_header@ + "\n"@
}

/// The whole dry-run rendering: the request's header lines, then its fields.
pub open spec fn spec_render(req: UploadRequest) -> Seq<char> {
    spec_render_header(req) + spec_field_lines(req.parts@)
}

/// Render a configured request for inspection: its method and address, the
/// two authentication headers, and one line per form field.
pub fn render_request(req: &UploadRequest) -> (r: String)
    ensures
        r@ == spec_render(*req),
{
    let mut r = String::from_str("POST ").concat(req.url.as_str()).concat("\n").concat(
        "cookie: ",
    ).concat(req.cookie_header.as_str()).concat("\n").concat("x-csrf-token: ").concat(
        req.csrf_header.as_str(),
    ).concat("\n");
    proof {
        assert(r@ =~= spec_render_header(*req));
    }
    let mut k: usize = 0;
    while k < req.parts.len()
        invariant
            k <= req.parts@.len(),
            r@ == spec_render_header(*req) + spec_field_lines(req.parts@.take(k as int)),
        decreases req.parts@.len() - k,
    {
        r = r.concat("field: ").concat(req.parts[k].field_name.as_str()).concat("\n");
        proof {
            assert(req.parts@.take(k as int + 1).drop_last() =~= req.parts@.take(k as int));
            assert(req.parts@.take(k as int + 1).last() == req.parts@[k as int]);
            assert(r@ =~= spec_render_header(*req) + spec_field_lines(
                req.parts@.take(k as int + 1),
            ));
        }
        k += 1;
    }
    proof {
        assert(req.parts@.take(req.parts@.len() as int) =~= req.parts@);
    }
    r
}

/// The dry-run outcome: the request's rendering, in place of any send.
pub fn dry_run_outcome(req: &UploadRequest) -> (o: UploadOutcome)
    ensures
        o matches UploadOutcome::DryRunRendering(s) && s@ == spec_render(*req),
{
    UploadOutcome::DryRunRendering(render_request(req))
}

/// Interpret the transport layer's result of the real send: any received
/// body, success or error payload, is the outcome as-is, and a transport
/// failure becomes `UploadFailure` carrying its message.
pub fn upload_outcome(sent: Result<String, String>) -> (r: Result<UploadOutcome, DarkError>)
    ensures
        sent matches Ok(body) ==> (r matches Ok(o) && o == UploadOutcome::ServerResponse(body)),
        sent matches Err(cause) ==> (r matches Err(e) && e == DarkError::UploadFailure(cause)),
{
    match sent {
        Ok(body) => Ok(UploadOutcome::ServerResponse(body)),
        Err(cause) => Err(DarkError::UploadFailure(cause)),
    }
}

} // verus!
