//! Sequential, fail-fast fan-out: one request per resolved target, issued in
//! order, with the first failure aborting the rest. The executor here does
//! the bookkeeping and the request construction; the driver that owns the
//! transport performs one call at a time and reports each outcome back.
use vstd::prelude::*;

use crate::types::{
    AddPrefixesCmd, MarkingPolicy, RemovePrefixesCmd, SetDscpMarkingCmd, Target, string_views,
};
use crate::types::clone_strings;
use crate::{marking_valid, validate_marking, ValidationError};

verus! {

/// Request of the show operation, scoped to one target.
#[derive(Debug, Clone)]
pub struct ShowConfigRequest {
    pub target: Target,
}

/// Request of the prefix-add operation, scoped to one target.
#[derive(Debug, Clone)]
pub struct AddPrefixesRequest {
    pub target: Target,
    pub prefixes: Vec<String>,
}

/// Request of the prefix-remove operation, scoped to one target.
#[derive(Debug, Clone)]
pub struct RemovePrefixesRequest {
    pub target: Target,
    pub prefixes: Vec<String>,
}

/// Request of the set-marking operation, scoped to one target.
#[derive(Debug, Clone)]
pub struct SetDscpMarkingRequest {
    pub target: Target,
    pub dscp_config: MarkingPolicy,
}

/// State of one fan-out: the requests to issue, in target order; the
/// responses received so far, one per already-processed target; and the
/// first failure, if one was reported. Once a failure is recorded no further
/// request is handed out, so targets after the failing one are never
/// attempted, and the responses received before it are kept as a record of
/// which targets were already processed (their remote effects stand).
pub struct FanOut<Req, Resp, E> {
    pub requests: Vec<Req>,
    pub responses: Vec<Resp>,
    pub failure: Option<E>,
}

impl<Req, Resp, E> FanOut<Req, Resp, E> {
    /// Responses never outnumber requests, and a recorded failure belongs to
    /// the first target that has no response.
    pub open spec fn wf(self) -> bool {
        &&& self.responses@.len() <= self.requests@.len()
        &&& self.failure is Some ==> self.responses@.len() < self.requests@.len()
    }

    /// Index of the target a recorded failure is attributable to: the first
    /// one whose call did not complete.
    pub open spec fn failed_index(self) -> int {
        self.responses@.len() as int
    }

    /// Starts a fan-out over the given requests; nothing has been issued.
    pub fn new(requests: Vec<Req>) -> (s: Self)
        ensures
            s.requests@ == requests@,
            s.responses@.len() == 0,
            s.failure is None,
            s.wf(),
    {
        FanOut { requests, responses: Vec::new(), failure: None }
    }

    /// The next request to issue: the one after the last response, unless
    /// every target is processed or a failure already ended the fan-out.
    pub fn next_request(&self) -> (r: Option<&Req>)
        requires
            self.wf(),
        ensures
            match r {
                Some(q) => {
                    &&& self.failure is None
                    &&& self.responses@.len() < self.requests@.len()
                    &&& *q == self.requests@[self.responses@.len() as int]
                },
                None => self.failure is Some || self.responses@.len() == self.requests@.len(),
            },
    {
        if self.failure.is_some() {
            None
        } else if self.responses.len() < self.requests.len() {
            Some(&self.requests[self.responses.len()])
        } else {
            None
        }
    }

    /// Records the response of the target just issued; the fan-out advances
    /// to the next target and everything already recorded is kept.
    pub fn push_response(&mut self, resp: Resp)
        requires
            old(self).wf(),
            old(self).failure is None,
            old(self).responses@.len() < old(self).requests@.len(),
        ensures
            final(self).requests@ == old(self).requests@,
            final(self).responses@ == old(self).responses@.push(resp),
            final(self).failure is None,
            final(self).wf(),
    {
        self.responses.push(resp);
    }

    /// Records the failure of the target just issued. The fan-out is over:
    /// no further request is handed out, and the failure is attributable to
    /// the first unprocessed target.
    pub fn fail(&mut self, err: E)
        requires
            old(self).wf(),
            old(self).failure is None,
            old(self).responses@.len() < old(self).requests@.len(),
        ensures
            final(self).requests@ == old(self).requests@,
            final(self).responses@ == old(self).responses@,
            final(self).failure == Some(err),
            final(self).failed_index() == old(self).responses@.len(),
            final(self).wf(),
    {
        self.failure = Some(err);
    }

    /// Whether the fan-out has ended, either with every target processed or
    /// with a failure.
    pub fn is_settled(&self) -> (r: bool)
        requires
            self.wf(),
        ensures
            r == (self.failure is Some || self.responses@.len() == self.requests@.len()),
    {
        self.failure.is_some() || self.responses.len() == self.requests.len()
    }

    /// Fail-fast outcome: the first failure, unchanged, or else all
    /// responses, one per target and in target order.
    pub fn outcome(self) -> (r: Result<Vec<Resp>, E>)
        requires
            self.wf(),
            self.failure is Some || self.responses@.len() == self.requests@.len(),
        ensures
            match r {
                Ok(resps) => {
                    &&& self.failure is None
                    &&& resps@ == self.responses@
                    &&& resps@.len() == self.requests@.len()
                },
                Err(e) => self.failure == Some(e),
            },
    {
        match self.failure {
            Some(e) => Err(e),
            None => Ok(self.responses),
        }
    }
}

/// Builds one show request per resolved instance, each scoped to that single
/// instance under the given config name, in instance order.
pub fn show_requests(config_name: &String, instances: &Vec<u32>) -> (r: Vec<ShowConfigRequest>)
    ensures
        r@.len() == instances@.len(),
        forall|i: int|
            0 <= i < instances@.len() ==> {
                &&& (#[trigger] r@[i]).target.config_name@ == config_name@
                &&& r@[i].target.dataplane_instance == instances@[i]
            },
{
    let mut r: Vec<ShowConfigRequest> = Vec::new();
    for k in 0..instances.len()
        invariant
            r@.len() == k,
            forall|i: int|
                0 <= i < k ==> {
                    &&& (#[trigger] r@[i]).target.config_name@ == config_name@
                    &&& r@[i].target.dataplane_instance == instances@[i]
                },
    {
        r.push(
            ShowConfigRequest {
                target: Target {
                    config_name: config_name.clone(),
                    dataplane_instance: instances[k],
                },
            },
        );
    }
    r
}

/// Builds one prefix-add request per instance of the command, each carrying
/// the full prefix list in its original order.
pub fn add_prefixes_requests(cmd: &AddPrefixesCmd) -> (r: Vec<AddPrefixesRequest>)
    ensures
        r@.len() == cmd.instances@.len(),
        forall|i: int|
            0 <= i < cmd.instances@.len() ==> {
                &&& (#[trigger] r@[i]).target.config_name@ == cmd.config_name@
                &&& r@[i].target.dataplane_instance == cmd.instances@[i]
                &&& string_views(r@[i].prefixes@) == string_views(cmd.prefix@)
            },
{
    let mut r: Vec<AddPrefixesRequest> = Vec::new();
    for k in 0..cmd.instances.len()
        invariant
            r@.len() == k,
            forall|i: int|
                0 <= i < k ==> {
                    &&& (#[trigger] r@[i]).target.config_name@ == cmd.config_name@
                    &&& r@[i].target.dataplane_instance == cmd.instances@[i]
                    &&& string_views(r@[i].prefixes@) == string_views(cmd.prefix@)
                },
    {
        r.push(
            AddPrefixesRequest {
                target: Target {
                    config_name: cmd.config_name.clone(),
                    dataplane_instance: cmd.instances[k],
                },
                prefixes: clone_strings(&cmd.prefix),
            },
        );
    }
    r
}

/// Builds one prefix-remove request per instance of the command, each
/// carrying the full prefix list in its original order.
pub fn remove_prefixes_requests(cmd: &RemovePrefixesCmd) -> (r: Vec<RemovePrefixesRequest>)
    ensures
        r@.len() == cmd.instances@.len(),
        forall|i: int|
            0 <= i < cmd.instances@.len() ==> {
                &&& (#[trigger] r@[i]).target.config_name@ == cmd.config_name@
                &&& r@[i].target.dataplane_instance == cmd.instances@[i]
                &&& string_views(r@[i].prefixes@) == string_views(cmd.prefix@)
            },
{
    let mut r: Vec<RemovePrefixesRequest> = Vec::new();
    for k in 0..cmd.instances.len()
        invariant
            r@.len() == k,
            forall|i: int|
                0 <= i < k ==> {
                    &&& (#[trigger] r@[i]).target.config_name@ == cmd.config_name@
                    &&& r@[i].target.dataplane_instance == cmd.instances@[i]
                    &&& string_views(r@[i].prefixes@) == string_views(cmd.prefix@)
                },
    {
        r.push(
            RemovePrefixesRequest {
                target: Target {
                    config_name: cmd.config_name.clone(),
                    dataplane_instance: cmd.instances[k],
                },
                prefixes: clone_strings(&cmd.prefix),
            },
        );
    }
    r
}

/// Validates the marking parameters and, only when they are in range, builds
/// one set-marking request per instance. On rejection no request exists, so
/// no call can be issued for an invalid marking.
pub fn set_marking_requests(cmd: &SetDscpMarkingCmd) -> (r: Result<
    Vec<SetDscpMarkingRequest>,
    ValidationError,
>)
    ensures
        r is Ok <==> marking_valid(cmd.flag, cmd.mark),
        cmd.flag > 2 ==> (r matches Err(e) && e == ValidationError::InvalidFlag),
        cmd.flag <= 2 && cmd.mark > 63 ==> (r matches Err(e) && e == ValidationError::InvalidMark),
        r matches Ok(reqs) ==> {
            &&& reqs@.len() == cmd.instances@.len()
            &&& forall|i: int|
                0 <= i < cmd.instances@.len() ==> {
                    &&& (#[trigger] reqs@[i]).target.config_name@ == cmd.config_name@
                    &&& reqs@[i].target.dataplane_instance == cmd.instances@[i]
                    &&& reqs@[i].dscp_config == (MarkingPolicy { flag: cmd.flag, mark: cmd.mark })
                }
        },
{
    match validate_marking(cmd.flag, cmd.mark) {
        Err(e) => Err(e),
        Ok(()) => {
            let mut r: Vec<SetDscpMarkingRequest> = Vec::new();
            for k in 0..cmd.instances.len()
                invariant
                    r@.len() == k,
                    forall|i: int|
                        0 <= i < k ==> {
                            &&& (#[trigger] r@[i]).target.config_name@ == cmd.config_name@
                            &&& r@[i].target.dataplane_instance == cmd.instances@[i]
                            &&& r@[i].dscp_config == (MarkingPolicy {
                                flag: cmd.flag,
                                mark: cmd.mark,
                            })
                        },
            {
                r.push(
                    SetDscpMarkingRequest {
                        target: Target {
                            config_name: cmd.config_name.clone(),
                            dataplane_instance: cmd.instances[k],
                        },
                        dscp_config: MarkingPolicy { flag: cmd.flag, mark: cmd.mark },
                    },
                );
            }
            Ok(r)
        },
    }
}

} // verus!
