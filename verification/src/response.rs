//! Response framing. Once a phase's combined decision is classified, the
//! transaction answers the proxy with exactly one frame for the direction:
//! an annotate-and-forward headers frame, a bare forward frame, or an
//! immediate block.

use vstd::prelude::*;
use crate::decision::Outcome;
use crate::phase::DecisionComponents;
use crate::sfv::{serialize_decision_sfv, serialize_tags_sfv, spec_decision_sfv, spec_tags_sfv};

verus! {

/// One frame sent back to the proxy.
#[derive(Clone, Debug)]
pub enum ResponseFrame {
    /// Forward the request, with headers set on it upstream.
    RequestHeaders { set_headers: Vec<(String, String)> },
    /// Forward the response unchanged.
    ResponseHeaders,
    /// Answer the client at once, without contacting the upstream.
    ImmediateResponse { status: u32, details: String, body: String },
}

/// The HTTP status of a block frame.
pub const BLOCK_STATUS: u32 = 403;

/// The headers an annotate-and-forward frame sets: the serialized
/// decision, and the serialized tag list when there are tags.
pub open spec fn spec_annotation_headers(dc: DecisionComponents) -> Seq<(Seq<char>, Seq<char>)> {
    let decision_header = ("Bulwark-Decision"@, spec_decision_sfv(dc.decision));
    if dc.tags@.len() == 0 {
        seq![decision_header]
    } else {
        seq![decision_header, ("Bulwark-Tags"@, spec_tags_sfv(dc.tags@))]
    }
}

/// Whether a frame is the annotate-and-forward frame for the given
/// combined components.
pub open spec fn is_annotation_frame(f: ResponseFrame, dc: DecisionComponents) -> bool {
    match f {
        ResponseFrame::RequestHeaders { set_headers } => set_headers@.map_values(
            |h: (String, String)| (h.0@, h.1@),
        ) == spec_annotation_headers(dc),
        _ => false,
    }
}

/// Whether a frame is the block frame: status 403, the fixed details and
/// body, nothing else.
pub open spec fn is_block_frame(f: ResponseFrame) -> bool {
    match f {
        ResponseFrame::ImmediateResponse { status, details, body } => status == BLOCK_STATUS
            && details@ == "blocked by bulwark"@ && body@ == "Bulwark says no."@,
        _ => false,
    }
}

/// Builds the request-direction frame that forwards the request annotated
/// with the combined decision and, when present, the combined tags.
pub fn allow_request_frame(dc: &DecisionComponents) -> (f: ResponseFrame)
    requires
        dc.decision.valid(),
    ensures
        is_annotation_frame(f, *dc),
{
    let mut set_headers: Vec<(String, String)> = Vec::new();
    set_headers.push(("Bulwark-Decision".to_owned(), serialize_decision_sfv(&dc.decision)));
    if dc.tags.len() > 0 {
        set_headers.push(("Bulwark-Tags".to_owned(), serialize_tags_sfv(&dc.tags)));
    }
    proof {
        assert(set_headers@.map_values(|h: (String, String)| (h.0@, h.1@)) =~= spec_annotation_headers(
            *dc,
        ));
    }
    ResponseFrame::RequestHeaders { set_headers }
}

/// Builds the immediate block frame.
pub fn block_frame() -> (f: ResponseFrame)
    ensures
        is_block_frame(f),
{
    ResponseFrame::ImmediateResponse {
        status: BLOCK_STATUS,
        details: "blocked by bulwark".to_owned(),
        body: "Bulwark says no.".to_owned(),
    }
}

/// Whether a frame reports an internal failure of the service itself.
pub open spec fn is_internal_error_frame(f: ResponseFrame) -> bool {
    match f {
        ResponseFrame::ImmediateResponse { status, details, body } => status == 500u32
            && details@ == "internal error"@ && body@ == ""@,
        _ => false,
    }
}

/// Builds the frame reporting an internal failure, sent when a route's
/// plugins cannot be instantiated.
pub fn internal_error_frame() -> (f: ResponseFrame)
    ensures
        is_internal_error_frame(f),
{
    ResponseFrame::ImmediateResponse {
        status: 500,
        details: "internal error".to_owned(),
        body: "".to_owned(),
    }
}

/// Builds the request-direction frame for a classified decision: a block
/// frame on Restricted, the annotation frame otherwise.
pub fn request_phase_frame(dc: &DecisionComponents, outcome: Outcome) -> (f: ResponseFrame)
    requires
        dc.decision.valid(),
    ensures
        outcome == Outcome::Restricted ==> is_block_frame(f),
        outcome != Outcome::Restricted ==> is_annotation_frame(f, *dc),
{
    match outcome {
        Outcome::Restricted => block_frame(),
        _ => allow_request_frame(dc),
    }
}

/// Builds the response-direction frame for a classified decision: a block
/// frame on Restricted, a bare forward frame otherwise.
pub fn response_phase_frame(outcome: Outcome) -> (f: ResponseFrame)
    ensures
        outcome == Outcome::Restricted ==> is_block_frame(f),
        outcome != Outcome::Restricted ==> f is ResponseHeaders,
{
    match outcome {
        Outcome::Restricted => block_frame(),
        _ => ResponseFrame::ResponseHeaders,
    }
}

}
