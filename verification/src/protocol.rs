//! The two protocol messages and the frame codec.
//!
//! A frame is a four-byte big-endian payload length followed by that
//! many payload bytes.  The payload of a request is its prompt and
//! optional model name; the payload of a response is its text, a
//! success flag, and an optional error.  Strings travel as their UTF-8
//! bytes behind their own four-byte length; an optional field carries
//! one presence byte first.  Decoding distinguishes a stream that
//! closed too early (`Truncated`) from content that cannot be a
//! message (`Malformed`), and declared payload lengths above
//! [`MAX_PAYLOAD_LEN`] are rejected (`TooLarge`) before any allocation.

use vstd::prelude::*;

use crate::wire::MAX_PAYLOAD_LEN;
use crate::wire::copy_range;
use crate::wire::lemma_be32_round_trip;
use crate::wire::lemma_dec_bool_of_enc;
use crate::wire::lemma_dec_opt_str_of_enc;
use crate::wire::lemma_dec_str_of_enc;
use crate::wire::opt_str_view;
use crate::wire::read_be32;
use crate::wire::read_bool;
use crate::wire::read_opt_str;
use crate::wire::read_str;
use crate::wire::spec_be32;
use crate::wire::spec_be32_val;
use crate::wire::spec_dec_bool;
use crate::wire::spec_dec_opt_str;
use crate::wire::spec_dec_str;
use crate::wire::spec_enc_bool;
use crate::wire::spec_enc_opt_str;
use crate::wire::spec_enc_str;
use crate::wire::str_fits;
use crate::wire::write_be32;
use crate::wire::write_bool;
use crate::wire::write_opt_str;
use crate::wire::write_str;

verus! {

/// A request sent from a Subordinate to the Leader.  Immutable once
/// sent; `model` of `None` asks the Leader to use its configured
/// default.
#[derive(Debug, Clone, PartialEq, Eq)]
pub struct InferenceRequest {
    pub prompt: String,
    pub model: Option<String>,
}

/// The mathematical content of a request.
pub struct InferenceRequestView {
    pub prompt: Seq<char>,
    pub model: Option<Seq<char>>,
}

impl View for InferenceRequest {
    type V = InferenceRequestView;

    open spec fn view(&self) -> InferenceRequestView {
        InferenceRequestView { prompt: self.prompt@, model: opt_str_view(self.model) }
    }
}

/// A response sent from the Leader back to a Subordinate.
#[derive(Debug, Clone, PartialEq, Eq)]
pub struct InferenceResponse {
    pub text: String,
    pub success: bool,
    pub error: Option<String>,
}

/// The mathematical content of a response.
pub struct InferenceResponseView {
    pub text: Seq<char>,
    pub success: bool,
    pub error: Option<Seq<char>>,
}

impl View for InferenceResponse {
    type V = InferenceResponseView;

    open spec fn view(&self) -> InferenceResponseView {
        InferenceResponseView {
            text: self.text@,
            success: self.success,
            error: opt_str_view(self.error),
        }
    }
}

impl InferenceResponseView {
    /// The response invariant: it failed exactly when an error is
    /// present.
    pub open spec fn wf(self) -> bool {
        self.success <==> self.error is None
    }
}

/// Why a stream failed to decode: it ended before the bytes its length
/// prefix declared, its payload was not a message, or its declared
/// length was over [`MAX_PAYLOAD_LEN`].
#[derive(Debug, Clone, Copy, PartialEq, Eq, Structural)]
pub enum DecodeError {
    Truncated,
    Malformed,
    TooLarge,
}

/// Why a message could not be framed: its payload would not fit under
/// [`MAX_PAYLOAD_LEN`].
#[derive(Debug, Clone, Copy, PartialEq, Eq, Structural)]
pub enum EncodeError {
    Oversize,
}

/// The payload bytes of a request.
pub open spec fn spec_req_payload(v: InferenceRequestView) -> Seq<u8> {
    spec_enc_str(v.prompt) + spec_enc_opt_str(v.model)
}

/// The payload bytes of a response.
pub open spec fn spec_resp_payload(v: InferenceResponseView) -> Seq<u8> {
    spec_enc_str(v.text) + spec_enc_bool(v.success) + spec_enc_opt_str(v.error)
}

/// Whether a request is small enough to be framed.
pub open spec fn req_fits(v: InferenceRequestView) -> bool {
    spec_req_payload(v).len() <= MAX_PAYLOAD_LEN
}

/// Whether a response is small enough to be framed.
pub open spec fn resp_fits(v: InferenceResponseView) -> bool {
    spec_resp_payload(v).len() <= MAX_PAYLOAD_LEN
}

/// A payload behind its four-byte big-endian length.
pub open spec fn spec_frame(payload: Seq<u8>) -> Seq<u8> {
    spec_be32(payload.len() as u32) + payload
}

/// The full wire form of a request.
pub open spec fn spec_encode_request(v: InferenceRequestView) -> Seq<u8> {
    spec_frame(spec_req_payload(v))
}

/// The full wire form of a response.
pub open spec fn spec_encode_response(v: InferenceResponseView) -> Seq<u8> {
    spec_frame(spec_resp_payload(v))
}

/// Takes the payload out of a received stream: the bytes its prefix
/// declares, or the error that the stream forces.
pub open spec fn spec_dec_frame(s: Seq<u8>) -> Result<Seq<u8>, DecodeError> {
    if s.len() < 4 {
        Err(DecodeError::Truncated)
    } else {
        let n = spec_be32_val(s.subrange(0, 4)) as int;
        if n > MAX_PAYLOAD_LEN {
            Err(DecodeError::TooLarge)
        } else if s.len() < 4 + n {
            Err(DecodeError::Truncated)
        } else {
            Ok(s.subrange(4, 4 + n))
        }
    }
}

/// Whether a stream closed after its length prefix but before the
/// payload bytes the prefix declared arrived (the declared length
/// itself being acceptable), or before the prefix was complete.
pub open spec fn frame_truncated(s: Seq<u8>) -> bool {
    if s.len() < 4 {
        true
    } else {
        let n = spec_be32_val(s.subrange(0, 4)) as int;
        n <= MAX_PAYLOAD_LEN && s.len() < 4 + n
    }
}

/// The request a payload holds, if it holds exactly one.
pub open spec fn spec_dec_req_payload(p: Seq<u8>) -> Option<InferenceRequestView> {
    match spec_dec_str(p, 0) {
        None => None,
        Some((prompt, i)) => match spec_dec_opt_str(p, i) {
            None => None,
            Some((model, j)) => if j == p.len() {
                Some(InferenceRequestView { prompt, model })
            } else {
                None
            },
        },
    }
}

/// The response a payload holds, if it holds exactly one.
pub open spec fn spec_dec_resp_payload(p: Seq<u8>) -> Option<InferenceResponseView> {
    match spec_dec_str(p, 0) {
        None => None,
        Some((text, i)) => match spec_dec_bool(p, i) {
            None => None,
            Some((success, j)) => match spec_dec_opt_str(p, j) {
                None => None,
                Some((error, k)) => if k == p.len() {
                    Some(InferenceResponseView { text, success, error })
                } else {
                    None
                },
            },
        },
    }
}

/// What decoding a received stream as a request yields.
pub open spec fn spec_decode_request(s: Seq<u8>) -> Result<InferenceRequestView, DecodeError> {
    match spec_dec_frame(s) {
        Err(e) => Err(e),
        Ok(p) => match spec_dec_req_payload(p) {
            None => Err(DecodeError::Malformed),
            Some(v) => Ok(v),
        },
    }
}

/// What decoding a received stream as a response yields.
pub open spec fn spec_decode_response(s: Seq<u8>) -> Result<InferenceResponseView, DecodeError> {
    match spec_dec_frame(s) {
        Err(e) => Err(e),
        Ok(p) => match spec_dec_resp_payload(p) {
            None => Err(DecodeError::Malformed),
            Some(v) => Ok(v),
        },
    }
}

/// Framing a payload and reading the frame back gives the payload.
pub proof fn lemma_frame_round_trip(p: Seq<u8>)
    requires
        p.len() <= MAX_PAYLOAD_LEN,
    ensures
        spec_dec_frame(spec_frame(p)) == Ok::<Seq<u8>, DecodeError>(p),
{
    let s = spec_frame(p);
    lemma_be32_round_trip(p.len() as u32);
    assert(s.subrange(0, 4) =~= spec_be32(p.len() as u32));
    assert(s.subrange(4, 4 + p.len() as int) =~= p);
}

/// Round trip for requests: decoding an encoded request gives the
/// request back.
pub proof fn lemma_request_round_trip(v: InferenceRequestView)
    requires
        req_fits(v),
    ensures
        spec_decode_request(spec_encode_request(v)) == Ok::<InferenceRequestView, DecodeError>(v),
{
    let p = spec_req_payload(v);
    lemma_frame_round_trip(p);
    lemma_dec_str_of_enc(Seq::empty(), v.prompt, spec_enc_opt_str(v.model));
    assert(Seq::empty() + spec_enc_str(v.prompt) + spec_enc_opt_str(v.model) =~= p);
    lemma_dec_opt_str_of_enc(spec_enc_str(v.prompt), v.model, Seq::empty());
    assert(spec_enc_str(v.prompt) + spec_enc_opt_str(v.model) + Seq::empty() =~= p);
}

/// Round trip for responses: decoding an encoded response gives the
/// response back.
pub proof fn lemma_response_round_trip(v: InferenceResponseView)
    requires
        resp_fits(v),
    ensures
        spec_decode_response(spec_encode_response(v)) == Ok::<InferenceResponseView, DecodeError>(
            v,
        ),
{
    let p = spec_resp_payload(v);
    lemma_frame_round_trip(p);
    lemma_dec_str_of_enc(Seq::empty(), v.text, spec_enc_bool(v.success) + spec_enc_opt_str(v.error));
    assert(Seq::empty() + spec_enc_str(v.text) + (spec_enc_bool(v.success) + spec_enc_opt_str(
        v.error,
    )) =~= p);
    lemma_dec_bool_of_enc(spec_enc_str(v.text), v.success, spec_enc_opt_str(v.error));
    assert(spec_enc_str(v.text) + spec_enc_bool(v.success) + spec_enc_opt_str(v.error) =~= p);
    lemma_dec_opt_str_of_enc(spec_enc_str(v.text) + spec_enc_bool(v.success), v.error, Seq::empty());
    assert((spec_enc_str(v.text) + spec_enc_bool(v.success)) + spec_enc_opt_str(v.error)
        + Seq::empty() =~= p);
}

/// A stream that closes after the length prefix but before the
/// declared payload arrived decodes to `Truncated`, as either message
/// kind.
pub proof fn lemma_truncated_stream(s: Seq<u8>)
    requires
        frame_truncated(s),
    ensures
        spec_decode_request(s) == Err::<InferenceRequestView, DecodeError>(DecodeError::Truncated),
        spec_decode_response(s) == Err::<InferenceResponseView, DecodeError>(
            DecodeError::Truncated,
        ),
{
}

/// Encodes and decodes inference messages, both kinds and both
/// directions.
#[derive(Debug, Clone)]
pub struct InferenceCodec;

impl InferenceCodec {
    /// The wire form of a request: its framed payload, or `Oversize`
    /// exactly when the payload would pass [`MAX_PAYLOAD_LEN`].
    pub fn encode_request(&self, req: &InferenceRequest) -> (r: Result<Vec<u8>, EncodeError>)
        ensures
            r matches Ok(b) ==> b@ == spec_encode_request(req@),
            r is Ok <==> req_fits(req@),
            r is Err ==> r == Err::<Vec<u8>, EncodeError>(EncodeError::Oversize),
    {
        let pbytes = req.prompt.as_str().as_bytes_vec();
        let pl = pbytes.len();
        if pl > MAX_PAYLOAD_LEN {
            return Err(EncodeError::Oversize);
        }
        let tail: usize = match &req.model {
            None => 1,
            Some(m) => {
                let mbytes = m.as_str().as_bytes_vec();
                let ml = mbytes.len();
                if ml > MAX_PAYLOAD_LEN {
                    return Err(EncodeError::Oversize);
                }
                1 + 4 + ml
            },
        };
        let total = 4 + pl + tail;
        assert(total == spec_req_payload(req@).len());
        if total > MAX_PAYLOAD_LEN {
            return Err(EncodeError::Oversize);
        }
        let mut payload: Vec<u8> = Vec::new();
        write_str(&mut payload, req.prompt.as_str());
        write_opt_str(&mut payload, &req.model);
        assert(payload@ =~= spec_req_payload(req@));
        let mut out: Vec<u8> = Vec::new();
        write_be32(&mut out, payload.len() as u32);
        out.append(&mut payload);
        assert(out@ =~= spec_encode_request(req@));
        Ok(out)
    }

    /// The wire form of a response: its framed payload, or `Oversize`
    /// exactly when the payload would pass [`MAX_PAYLOAD_LEN`].
    pub fn encode_response(&self, resp: &InferenceResponse) -> (r: Result<Vec<u8>, EncodeError>)
        ensures
            r matches Ok(b) ==> b@ == spec_encode_response(resp@),
            r is Ok <==> resp_fits(resp@),
            r is Err ==> r == Err::<Vec<u8>, EncodeError>(EncodeError::Oversize),
    {
        let tbytes = resp.text.as_str().as_bytes_vec();
        let tl = tbytes.len();
        if tl > MAX_PAYLOAD_LEN {
            return Err(EncodeError::Oversize);
        }
        let tail: usize = match &resp.error {
            None => 1,
            Some(e) => {
                let ebytes = e.as_str().as_bytes_vec();
                let el = ebytes.len();
                if el > MAX_PAYLOAD_LEN {
                    return Err(EncodeError::Oversize);
                }
                1 + 4 + el
            },
        };
        let total = 4 + tl + 1 + tail;
        assert(total == spec_resp_payload(resp@).len());
        if total > MAX_PAYLOAD_LEN {
            return Err(EncodeError::Oversize);
        }
        let mut payload: Vec<u8> = Vec::new();
        write_str(&mut payload, resp.text.as_str());
        write_bool(&mut payload, resp.success);
        write_opt_str(&mut payload, &resp.error);
        assert(payload@ =~= spec_resp_payload(resp@));
        let mut out: Vec<u8> = Vec::new();
        write_be32(&mut out, payload.len() as u32);
        out.append(&mut payload);
        assert(out@ =~= spec_encode_response(resp@));
        Ok(out)
    }

    /// Decodes the bytes a stream delivered before it closed as a
    /// request.
    pub fn decode_request(&self, bytes: &Vec<u8>) -> (r: Result<InferenceRequest, DecodeError>)
        ensures
            match r {
                Ok(m) => spec_decode_request(bytes@) == Ok::<InferenceRequestView, DecodeError>(
                    m@,
                ),
                Err(e) => spec_decode_request(bytes@) == Err::<InferenceRequestView, DecodeError>(
                    e,
                ),
            },
    {
        let len = bytes.len();
        if len < 4 {
            return Err(DecodeError::Truncated);
        }
        let n32 = read_be32(bytes, 0);
        let n = n32 as usize;
        if n > MAX_PAYLOAD_LEN {
            return Err(DecodeError::TooLarge);
        }
        if len < 4 + n {
            return Err(DecodeError::Truncated);
        }
        let p = copy_range(bytes, 4, 4 + n);
        assert(spec_dec_frame(bytes@) == Ok::<Seq<u8>, DecodeError>(p@));
        match read_str(&p, 0) {
            None => Err(DecodeError::Malformed),
            Some((prompt, i)) => match read_opt_str(&p, i) {
                None => Err(DecodeError::Malformed),
                Some((model, j)) => {
                    if j == p.len() {
                        Ok(InferenceRequest { prompt, model })
                    } else {
                        Err(DecodeError::Malformed)
                    }
                },
            },
        }
    }

    /// Decodes the bytes a stream delivered before it closed as a
    /// response.
    pub fn decode_response(&self, bytes: &Vec<u8>) -> (r: Result<InferenceResponse, DecodeError>)
        ensures
            match r {
                Ok(m) => spec_decode_response(bytes@) == Ok::<InferenceResponseView, DecodeError>(
                    m@,
                ),
                Err(e) => spec_decode_response(bytes@) == Err::<
                    InferenceResponseView,
                    DecodeError,
                >(e),
            },
    {
        let len = bytes.len();
        if len < 4 {
            return Err(DecodeError::Truncated);
        }
        let n32 = read_be32(bytes, 0);
        let n = n32 as usize;
        if n > MAX_PAYLOAD_LEN {
            return Err(DecodeError::TooLarge);
        }
        if len < 4 + n {
            return Err(DecodeError::Truncated);
        }
        let p = copy_range(bytes, 4, 4 + n);
        assert(spec_dec_frame(bytes@) == Ok::<Seq<u8>, DecodeError>(p@));
        match read_str(&p, 0) {
            None => Err(DecodeError::Malformed),
            Some((text, i)) => match read_bool(&p, i) {
                None => Err(DecodeError::Malformed),
                Some((success, j)) => match read_opt_str(&p, j) {
                    None => Err(DecodeError::Malformed),
                    Some((error, k)) => {
                        if k == p.len() {
                            Ok(InferenceResponse { text, success, error })
                        } else {
                            Err(DecodeError::Malformed)
                        }
                    },
                },
            },
        }
    }
}

} // verus!
