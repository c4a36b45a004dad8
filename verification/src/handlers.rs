//! The handler chain.
//!
//! Handlers run in declared order over the `(context, request)` pair; each
//! either passes the request on — possibly recording an injection plan — or
//! short-circuits with a terminal response.  The default deployment is the
//! logging handler followed by the policy handler.

use vstd::prelude::*;

verus! {

use crate::pod_meta::IdentityTable;
use crate::proxy_policy::ProxyPolicy;
use crate::request::{RequestModel, ResponseModel};
use crate::admission::{PolicyHandler, HandlerResult, SpecOutcome, SpecPlan, spec_admission,
    handler_result_view, plan_view_opt, InjectionPlan};

/// The logging handler: observes and passes through.  What it prints lives
/// with the process around the library; here it is the identity.
#[derive(Clone, Copy, Default)]
pub struct LogHandler;

impl LogHandler {
    /// Pass the request through unchanged, with no plan.
    pub fn handle_request(&self, req: RequestModel) -> (r: HandlerResult)
        ensures
            r == HandlerResult::Request(req, None::<InjectionPlan>),
    {
        HandlerResult::Request(req, None)
    }

    /// Pass the response through unchanged.
    pub fn handle_response(&self, res: ResponseModel) -> (r: ResponseModel)
        ensures
            r == res,
    {
        res
    }
}

/// One element of the chain, dispatched by tag.
#[derive(Clone, Copy)]
pub enum HandlerEnum {
    Log,
    Policy,
}

impl HandlerEnum {
    /// Dispatch one request to this handler.
    pub fn handle_request(
        &self,
        table: &IdentityTable,
        peer_ip: &String,
        policies: &Vec<ProxyPolicy>,
        req: RequestModel,
    ) -> (r: HandlerResult)
        ensures
            handler_result_view(r) == spec_handler(*self, *table, peer_ip@, policies@, req),
            r matches HandlerResult::Request(q, _) ==> q == req,
    {
        match self {
            HandlerEnum::Log => LogHandler.handle_request(req),
            HandlerEnum::Policy => PolicyHandler.handle_request(table, peer_ip, policies, req),
        }
    }
}

/// What one handler decides for a request.
pub open spec fn spec_handler(
    h: HandlerEnum,
    t: IdentityTable,
    peer: Seq<char>,
    policies: Seq<ProxyPolicy>,
    req: RequestModel,
) -> SpecOutcome {
    match h {
        HandlerEnum::Log => SpecOutcome::Forward(None),
        HandlerEnum::Policy => spec_admission(t, peer, policies, req),
    }
}

/// The chain's outcome from a list of handlers and the plan recorded so
/// far: the first terminal response wins; a forwarding handler's plan, when
/// present, replaces the recorded one.
pub open spec fn spec_chain_from(
    handlers: Seq<HandlerEnum>,
    t: IdentityTable,
    peer: Seq<char>,
    policies: Seq<ProxyPolicy>,
    req: RequestModel,
    plan: Option<SpecPlan>,
) -> SpecOutcome
    decreases handlers.len(),
{
    if handlers.len() == 0 {
        SpecOutcome::Forward(plan)
    } else {
        match spec_handler(handlers[0], t, peer, policies, req) {
            SpecOutcome::Respond(s, b) => SpecOutcome::Respond(s, b),
            SpecOutcome::Forward(p) => spec_chain_from(
                handlers.drop_first(),
                t,
                peer,
                policies,
                req,
                if p is Some {
                    p
                } else {
                    plan
                },
            ),
        }
    }
}

/// An ordered chain of handlers.
#[derive(Clone, Default)]
pub struct MultiHandler {
    pub handlers: Vec<HandlerEnum>,
}

impl MultiHandler {
    /// Build a chain from its handlers, in order.
    pub fn new(handlers: Vec<HandlerEnum>) -> (r: MultiHandler)
        ensures
            r.handlers@ == handlers@,
    {
        MultiHandler { handlers }
    }

    /// Run the chain: handlers in declared order, first terminal response
    /// short-circuits; a forwarded request comes back untouched.
    pub fn handle_request(
        &self,
        table: &IdentityTable,
        peer_ip: &String,
        policies: &Vec<ProxyPolicy>,
        req: RequestModel,
    ) -> (r: HandlerResult)
        ensures
            handler_result_view(r) == spec_chain_from(
                self.handlers@,
                *table,
                peer_ip@,
                policies@,
                req,
                None,
            ),
            r matches HandlerResult::Request(q, _) ==> q == req,
    {
        let ghost hs = self.handlers@;
        let ghost req0 = req;
        let mut current = req;
        let mut plan: Option<InjectionPlan> = None;
        let mut i: usize = 0;
        proof {
            assert(hs.skip(0) =~= hs);
        }
        while i < self.handlers.len()
            invariant
                hs == self.handlers@,
                i <= hs.len(),
                req0 == req,
                current == req0,
                spec_chain_from(hs, *table, peer_ip@, policies@, req0, None) == spec_chain_from(
                    hs.skip(i as int),
                    *table,
                    peer_ip@,
                    policies@,
                    req0,
                    plan_view_opt(plan),
                ),
            decreases hs.len() - i,
        {
            proof {
                assert(hs.skip(i as int)[0] == hs[i as int]);
                assert(hs.skip(i as int).drop_first() =~= hs.skip(i + 1));
            }
            let outcome = self.handlers[i].handle_request(table, peer_ip, policies, current);
            match outcome {
                HandlerResult::Request(q, p) => {
                    current = q;
                    if p.is_some() {
                        plan = p;
                    }
                }
                HandlerResult::Response(resp) => {
                    return HandlerResult::Response(resp);
                }
            }
            i += 1;
        }
        proof {
            assert(hs.skip(hs.len() as int) =~= Seq::<HandlerEnum>::empty());
        }
        HandlerResult::Request(current, plan)
    }
}

} // verus!
