//! Helpers of the storage broker's client side: the default endpoint,
//! tenant/timeline identifiers as the broker's messages carry them, and a
//! body that is one of two kinds.
use vstd::prelude::*;
use crate::ids::{TenantTimelineId, ZTenantId, ZTimelineId, be_value};

verus! {

pub const DEFAULT_LISTEN_ADDR: &'static str = "127.0.0.1:50051";

pub const DEFAULT_ENDPOINT: &'static str = "http://127.0.0.1:50051";

/// A tenant and a timeline as the broker's messages carry them: raw bytes.
#[derive(Clone, Debug)]
pub struct ProtoTenantTimelineId {
    pub tenant_id: Vec<u8>,
    pub timeline_id: Vec<u8>,
}

/// Why a broker message's identifiers are refused; both are answered as
/// an invalid argument.
#[derive(Clone, Copy, Debug, PartialEq, Eq, Structural)]
pub enum TtidError {
    MalformedTenantId,
    MalformedTimelineId,
}

impl TtidError {
    pub fn message(&self) -> &'static str {
        match self {
            TtidError::MalformedTenantId => "malformed tenant_id",
            TtidError::MalformedTimelineId => "malformed timeline_id",
        }
    }
}

/// Reads the identifiers of a broker message: each must be exactly 16 bytes.
pub fn parse_proto_ttid(proto_ttid: &ProtoTenantTimelineId) -> (r: Result<TenantTimelineId, TtidError>)
    ensures
        proto_ttid.tenant_id@.len() != 16 ==> r == Err::<TenantTimelineId, TtidError>(
            TtidError::MalformedTenantId,
        ),
        proto_ttid.tenant_id@.len() == 16 && proto_ttid.timeline_id@.len() != 16 ==> r == Err::<
            TenantTimelineId,
            TtidError,
        >(TtidError::MalformedTimelineId),
        proto_ttid.tenant_id@.len() == 16 && proto_ttid.timeline_id@.len() == 16 ==> (r matches Ok(id)
            && id.tenant_id.id as nat == be_value(proto_ttid.tenant_id@) && id.timeline_id.id as nat
            == be_value(proto_ttid.timeline_id@)),
{
    let tenant_id = match ZTenantId::from_slice(proto_ttid.tenant_id.as_slice()) {
        Some(t) => t,
        None => return Err(TtidError::MalformedTenantId),
    };
    let timeline_id = match ZTimelineId::from_slice(proto_ttid.timeline_id.as_slice()) {
        Some(t) => t,
        None => return Err(TtidError::MalformedTimelineId),
    };
    Ok(TenantTimelineId { tenant_id, timeline_id })
}

/// A body that is one of two kinds.
pub enum EitherBody<A, B> {
    Left(A),
    Right(B),
}

impl<A, B> EitherBody<A, B> {
    pub fn is_left(&self) -> (r: bool)
        ensures
            r == (self is Left),
    {
        match self {
            EitherBody::Left(_) => true,
            EitherBody::Right(_) => false,
        }
    }
}

/// Converts the error of a polled item, leaving the item and the end of the
/// stream as they are.
pub fn map_option_err<T, U, E, F: Fn(U) -> E>(err: Option<Result<T, U>>, convert: F) -> (r: Option<Result<T, E>>)
    requires
        forall|u: U| #[trigger] convert.requires((u,)),
    ensures
        match err {
            None => r is None,
            Some(Ok(t)) => r == Some(Ok::<T, E>(t)),
            Some(Err(u)) => r matches Some(Err(e)) && convert.ensures((u,), e),
        },
{
    match err {
        None => None,
        Some(Ok(t)) => Some(Ok(t)),
        Some(Err(u)) => Some(Err(convert(u))),
    }
}

} // verus!
