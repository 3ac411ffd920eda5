use vstd::prelude::*;
use vstd::slice::slice_to_vec;
use base64::prelude::Engine;

verus! {

/// Why a text is no standard Base64 text, as the decoder reports it.
#[derive(Debug, Clone, Copy, PartialEq, Eq, Structural)]
pub enum Base64DecodeError {
    /// A byte that is no Base64 symbol, with its offset.
    InvalidByte(usize, u8),
    /// The length of the text is none that a Base64 text can have.
    InvalidLength,
    /// The last symbol holds bits that would be thrown away, with its
    /// offset.
    InvalidLastSymbol(usize, u8),
    /// The padding is missing or wrong.
    InvalidPadding,
}

/// Why a value is no trace id.
#[derive(Debug, Clone, Copy, PartialEq, Eq, Structural)]
pub enum TryFromTraceIdError {
    /// A trace id has 16 bytes; the value has this many.
    InvalidLength(usize),
    /// The text is no Base64 text of a trace id.
    InvalidBase64(Base64DecodeError),
}

/// The text that the standard Base64 engine, with padding, gives for
/// `bytes`.
pub uninterp spec fn base64_standard_encoding(bytes: Seq<u8>) -> Seq<char>;

/// What the standard Base64 engine makes of `text`: the bytes that it
/// stands for, or the reason why it stands for none.
pub uninterp spec fn base64_standard_decoding(text: Seq<char>) -> Result<
    Seq<u8>,
    Base64DecodeError,
>;

/// `Engine::encode` of base64's `STANDARD` engine, on sixteen bytes. The
/// contract gives the result a name and claims nothing else of it.
#[verifier::external_body]
fn encode_standard(bytes: &[u8; 16]) -> (text: String)
    ensures
        text@ == base64_standard_encoding(bytes@),
{
    base64::prelude::BASE64_STANDARD.encode(bytes)
}

/// `Engine::decode` of base64's `STANDARD` engine. The contract gives the
/// result a name and claims nothing else of it; the engine's error comes
/// back variant for variant.
#[verifier::external_body]
fn decode_standard(text: &str) -> (decoded: Result<Vec<u8>, Base64DecodeError>)
    ensures
        base64_standard_decoding(text@) == match decoded {
            Ok(bytes) => Ok::<Seq<u8>, Base64DecodeError>(bytes@),
            Err(error) => Err::<Seq<u8>, Base64DecodeError>(error),
        },
{
    base64::prelude::BASE64_STANDARD.decode(text).map_err(
        |error| match error {
            base64::DecodeError::InvalidByte(at, byte) => Base64DecodeError::InvalidByte(at, byte),
            base64::DecodeError::InvalidLength => Base64DecodeError::InvalidLength,
            base64::DecodeError::InvalidLastSymbol(at, byte) => {
                Base64DecodeError::InvalidLastSymbol(at, byte)
            },
            base64::DecodeError::InvalidPadding => Base64DecodeError::InvalidPadding,
        },
    )
}

/// A 16-byte trace identifier.
#[derive(Debug, Clone, Copy, Eq, PartialEq, Ord, PartialOrd, Hash)]
pub struct TraceId {
    bytes: [u8; 16],
}

impl View for TraceId {
    type V = Seq<u8>;

    closed spec fn view(&self) -> Seq<u8> {
        self.bytes@
    }
}

/// What a byte string is as a trace id: itself if it has 16 bytes, and
/// else the error that tells its length.
pub open spec fn trace_id_of_bytes(bytes: Seq<u8>) -> Result<Seq<u8>, TryFromTraceIdError> {
    if bytes.len() == 16 {
        Ok(bytes)
    } else {
        Err(TryFromTraceIdError::InvalidLength(bytes.len() as usize))
    }
}

/// What the result of a Base64 decoding is as a trace id.
pub open spec fn trace_id_of_decoding(
    decoded: Result<Seq<u8>, Base64DecodeError>,
) -> Result<Seq<u8>, TryFromTraceIdError> {
    match decoded {
        Ok(bytes) => trace_id_of_bytes(bytes),
        Err(error) => Err(TryFromTraceIdError::InvalidBase64(error)),
    }
}

/// What a text is as a trace id. A text of another length than 24 bytes is
/// refused as Base64 of an invalid length before it is decoded.
pub open spec fn trace_id_of_text(text: &str) -> Result<Seq<u8>, TryFromTraceIdError> {
    if text.len() != TraceId::BASE64_LENGTH {
        Err(TryFromTraceIdError::InvalidBase64(Base64DecodeError::InvalidLength))
    } else {
        trace_id_of_decoding(base64_standard_decoding(text@))
    }
}

/// The result of a conversion to a trace id, seen as bytes.
pub open spec fn as_byte_result(converted: Result<TraceId, TryFromTraceIdError>) -> Result<
    Seq<u8>,
    TryFromTraceIdError,
> {
    match converted {
        Ok(id) => Ok(id@),
        Err(error) => Err(error),
    }
}

impl TraceId {
    /// The length of the Base64 text of a trace id.
    pub const BASE64_LENGTH: usize = 24;

    /// Wraps sixteen raw bytes.
    pub fn new(bytes: [u8; 16]) -> (id: Self)
        ensures
            id@ == bytes@,
    {
        TraceId { bytes }
    }

    /// A trace id has sixteen bytes.
    pub proof fn lemma_len(self)
        ensures
            self@.len() == 16,
    {
    }

    /// The bytes of the trace id.
    pub fn as_bytes(&self) -> (bytes: &[u8])
        ensures
            bytes@ == self@,
    {
        self.bytes.as_slice()
    }

    /// The bytes of the trace id, in a vector of their own.
    pub fn to_vec(&self) -> (bytes: Vec<u8>)
        ensures
            bytes@ == self@,
    {
        slice_to_vec(self.bytes.as_slice())
    }

    /// The trace id as standard Base64 text, with padding.
    pub fn base64_display(&self) -> (text: String)
        ensures
            text@ == base64_standard_encoding(self@),
    {
        encode_standard(&self.bytes)
    }

    /// The trace id that a byte string holds: the string must have exactly
    /// 16 bytes.
    pub fn from_slice(slice: &[u8]) -> (converted: Result<Self, TryFromTraceIdError>)
        ensures
            as_byte_result(converted) == trace_id_of_bytes(slice@),
    {
        if slice.len() != 16 {
            return Err(TryFromTraceIdError::InvalidLength(slice.len()));
        }
        let mut bytes = [0u8;16];
        let mut i: usize = 0;
        while i < 16
            invariant
                i <= 16,
                slice@.len() == 16,
                forall|j: int| 0 <= j < i ==> bytes@[j] == slice@[j],
            decreases 16 - i,
        {
            bytes[i] = slice[i];
            i += 1;
        }
        assert(bytes@ =~= slice@);
        Ok(TraceId { bytes })
    }

    /// The trace id that the result of a Base64 decoding holds: a decoding
    /// that failed gives its error on, and one that succeeded must have
    /// given exactly 16 bytes.
    pub fn from_decoded(decoded: Result<Vec<u8>, Base64DecodeError>) -> (converted: Result<
        Self,
        TryFromTraceIdError,
    >)
        ensures
            as_byte_result(converted) == trace_id_of_decoding(
                match decoded {
                    Ok(bytes) => Ok(bytes@),
                    Err(error) => Err(error),
                },
            ),
    {
        match decoded {
            Ok(bytes) => Self::from_slice(bytes.as_slice()),
            Err(error) => Err(TryFromTraceIdError::InvalidBase64(error)),
        }
    }

    /// The trace id that a standard Base64 text holds. The text must have
    /// 24 bytes and must decode to exactly 16 bytes.
    pub fn from_base64(b64_trace_id: &str) -> (converted: Result<Self, TryFromTraceIdError>)
        ensures
            as_byte_result(converted) == trace_id_of_text(b64_trace_id),
    {
        if b64_trace_id.len() != Self::BASE64_LENGTH {
            return Err(TryFromTraceIdError::InvalidBase64(Base64DecodeError::InvalidLength));
        }
        Self::from_decoded(decode_standard(b64_trace_id))
    }
}

/// The trace id with the given bytes, where there is one.
pub open spec fn trace_id_with(bytes: Seq<u8>) -> TraceId {
    choose|id: TraceId| id@ == bytes
}

/// The result of the conversion of a byte string to a trace id.
pub open spec fn converted_bytes(bytes: Seq<u8>) -> Result<TraceId, TryFromTraceIdError> {
    if bytes.len() == 16 {
        Ok(trace_id_with(bytes))
    } else {
        Err(TryFromTraceIdError::InvalidLength(bytes.len() as usize))
    }
}

/// A trace id is what its bytes are: two trace ids with the same bytes are
/// the same.
pub proof fn lemma_trace_id_is_its_bytes(id: TraceId)
    ensures
        trace_id_with(id@) == id,
{
    let other = trace_id_with(id@);
    assert(other@ == id@);
    assert(other.bytes@ =~= id.bytes@);
    assert(other.bytes == id.bytes);
}

impl vstd::std_specs::convert::TryFromSpecImpl<&[u8]> for TraceId {
    open spec fn obeys_try_from_spec() -> bool {
        true
    }

    open spec fn try_from_spec(slice: &[u8]) -> Result<Self, TryFromTraceIdError> {
        converted_bytes(slice@)
    }
}

impl vstd::std_specs::convert::TryFromSpecImpl<Vec<u8>> for TraceId {
    open spec fn obeys_try_from_spec() -> bool {
        true
    }

    open spec fn try_from_spec(vec: Vec<u8>) -> Result<Self, TryFromTraceIdError> {
        converted_bytes(vec@)
    }
}

impl TryFrom<&[u8]> for TraceId {
    type Error = TryFromTraceIdError;

    fn try_from(slice: &[u8]) -> (converted: Result<Self, TryFromTraceIdError>)
        ensures
            as_byte_result(converted) == trace_id_of_bytes(slice@),
    {
        let converted = TraceId::from_slice(slice);
        proof {
            if let Ok(id) = converted {
                lemma_trace_id_is_its_bytes(id);
            }
        }
        converted
    }
}

impl TryFrom<Vec<u8>> for TraceId {
    type Error = TryFromTraceIdError;

    fn try_from(vec: Vec<u8>) -> (converted: Result<Self, TryFromTraceIdError>)
        ensures
            as_byte_result(converted) == trace_id_of_bytes(vec@),
    {
        let converted = TraceId::from_slice(vec.as_slice());
        proof {
            if let Ok(id) = converted {
                lemma_trace_id_is_its_bytes(id);
            }
        }
        converted
    }
}

impl core::str::FromStr for TraceId {
    type Err = TryFromTraceIdError;

    fn from_str(b64_trace_id: &str) -> (converted: Result<Self, TryFromTraceIdError>)
        ensures
            as_byte_result(converted) == trace_id_of_text(b64_trace_id),
    {
        TraceId::from_base64(b64_trace_id)
    }
}

} // verus!
