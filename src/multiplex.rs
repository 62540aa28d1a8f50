//! The readiness and routing state of a service that serves REST and gRPC
//! requests on one listening address.
//!
//! Both inner services must be ready before a request is taken. A request goes
//! to the gRPC service when its content type starts with `application/grpc`,
//! otherwise to the REST service, and the service that took it must be polled
//! ready again before the next one.

use vstd::prelude::*;

use vstd::string::StringSliceAdditionalSpecFns;

use crate::text::starts_with_bytes;

verus! {

/// The content-type prefix that marks a gRPC request.
pub const GRPC_CONTENT_TYPE: &'static str = "application/grpc";

/// One of the two inner services.
#[derive(Debug, Clone, Copy, PartialEq, Eq)]
pub enum Backend {
    Rest,
    Grpc,
}

/// What readiness polling does next.
#[derive(Debug, Clone, Copy, PartialEq, Eq)]
pub enum ReadinessStep {
    /// Poll the REST service.
    PollRest,
    /// Poll the gRPC service.
    PollGrpc,
    /// Both services are ready.
    Ready,
}

/// The next readiness step for the two flags: REST first, then gRPC.
pub open spec fn readiness_step_of(rest_ready: bool, grpc_ready: bool) -> ReadinessStep {
    if !rest_ready {
        ReadinessStep::PollRest
    } else if !grpc_ready {
        ReadinessStep::PollGrpc
    } else {
        ReadinessStep::Ready
    }
}

/// Whether a request with this content-type header goes to the gRPC service.
pub open spec fn is_grpc_content_type(content_type: Option<Seq<u8>>) -> bool {
    match content_type {
        Some(ct) => {
            let prefix = GRPC_CONTENT_TYPE.spec_bytes();
            prefix.len() <= ct.len() && ct.subrange(0, prefix.len() as int) == prefix
        },
        None => false,
    }
}

/// Whether a request whose content-type header has these bytes (`None`
/// when it has no such header) is a gRPC request.
pub fn is_grpc_request(content_type: Option<&[u8]>) -> (r: bool)
    ensures
        r == is_grpc_content_type(
            match content_type {
                Some(ct) => Some(ct@),
                None => None,
            },
        ),
{
    match content_type {
        Some(ct) => starts_with_bytes(ct, GRPC_CONTENT_TYPE.as_bytes()),
        None => false,
    }
}

/// A REST service and a gRPC service behind one endpoint, with the readiness
/// of each: a service is ready when it was polled ready and has taken no
/// request since.
pub struct MultiplexService<RestT, GrpcT> {
    pub rest: RestT,
    pub grpc: GrpcT,
    pub rest_ready: bool,
    pub grpc_ready: bool,
}

impl<RestT, GrpcT> MultiplexService<RestT, GrpcT> {
    /// Both services, neither of them ready yet.
    pub fn new(rest: RestT, grpc: GrpcT) -> (r: Self)
        ensures
            r.rest == rest,
            r.grpc == grpc,
            !r.rest_ready,
            !r.grpc_ready,
    {
        MultiplexService { rest, grpc, rest_ready: false, grpc_ready: false }
    }

    /// What readiness polling does next.
    pub fn readiness_step(&self) -> (r: ReadinessStep)
        ensures
            r == readiness_step_of(self.rest_ready, self.grpc_ready),
    {
        if !self.rest_ready {
            ReadinessStep::PollRest
        } else if !self.grpc_ready {
            ReadinessStep::PollGrpc
        } else {
            ReadinessStep::Ready
        }
    }

    /// Records that `backend` was polled ready.
    pub fn mark_ready(&mut self, backend: Backend)
        ensures
            final(self).rest == old(self).rest,
            final(self).grpc == old(self).grpc,
            final(self).rest_ready == (old(self).rest_ready || backend == Backend::Rest),
            final(self).grpc_ready == (old(self).grpc_ready || backend == Backend::Grpc),
    {
        match backend {
            Backend::Rest => self.rest_ready = true,
            Backend::Grpc => self.grpc_ready = true,
        }
    }

    /// Picks the service for a request and marks it not ready: gRPC for a
    /// gRPC request, REST otherwise. Both services must be ready.
    pub fn route(&mut self, is_grpc: bool) -> (r: Backend)
        requires
            old(self).rest_ready,
            old(self).grpc_ready,
        ensures
            r == (if is_grpc { Backend::Grpc } else { Backend::Rest }),
            final(self).rest == old(self).rest,
            final(self).grpc == old(self).grpc,
            final(self).rest_ready == is_grpc,
            final(self).grpc_ready == !is_grpc,
    {
        if is_grpc {
            self.grpc_ready = false;
            Backend::Grpc
        } else {
            self.rest_ready = false;
            Backend::Rest
        }
    }
}

} // verus!
