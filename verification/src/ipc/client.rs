//! How a client reads the service's answer to each of its requests.
use vstd::prelude::*;

use crate::ipc::messages::{Response, ResponseView, TunnelStatus};

verus! {

/// Why a request to the service did not succeed.
#[derive(Debug, Clone)]
pub enum ClientError {
    /// The service answered a ping with an error.
    ServiceError { message: String },
    /// The service refused the request, with this message.
    Refused { message: String },
    /// The service answered with a response of another kind.
    UnexpectedResponse(Response),
}

pub enum ClientErrorView {
    ServiceError { message: Seq<char> },
    Refused { message: Seq<char> },
    UnexpectedResponse(ResponseView),
}

impl View for ClientError {
    type V = ClientErrorView;

    open spec fn view(&self) -> ClientErrorView {
        match self {
            ClientError::ServiceError { message } => ClientErrorView::ServiceError {
                message: message@,
            },
            ClientError::Refused { message } => ClientErrorView::Refused { message: message@ },
            ClientError::UnexpectedResponse(r) => ClientErrorView::UnexpectedResponse(r@),
        }
    }
}

/// The error a client reports for a response other than the one it waits
/// for: the service's own message for `Error`, the response itself
/// otherwise.
pub open spec fn refusal(response: ResponseView) -> ClientErrorView {
    match response {
        ResponseView::Error { message } => ClientErrorView::Refused { message },
        other => ClientErrorView::UnexpectedResponse(other),
    }
}

fn refused(response: Response) -> (e: ClientError)
    ensures
        e@ == refusal(response@),
{
    match response {
        Response::Error { message } => ClientError::Refused { message },
        other => ClientError::UnexpectedResponse(other),
    }
}

/// Reads the answer to `Ping`: `Pong` is success.
pub fn ping(response: Response) -> (r: Result<(), ClientError>)
    ensures
        match response@ {
            ResponseView::Pong => r is Ok,
            ResponseView::Error { message } => r is Err && r->Err_0@
                == ClientErrorView::ServiceError { message },
            other => r is Err && r->Err_0@ == ClientErrorView::UnexpectedResponse(other),
        },
{
    match response {
        Response::Pong => Ok(()),
        Response::Error { message } => Err(ClientError::ServiceError { message }),
        other => Err(ClientError::UnexpectedResponse(other)),
    }
}

/// Reads the answer to `Disconnect`: the name of the interface taken down.
pub fn disconnect(response: Response) -> (r: Result<String, ClientError>)
    ensures
        match response@ {
            ResponseView::Disconnected { interface } => r is Ok && r->Ok_0@ == interface,
            other => r is Err && r->Err_0@ == refusal(other),
        },
{
    match response {
        Response::Disconnected { interface } => Ok(interface),
        other => Err(refused(other)),
    }
}

/// Reads the answer to `Connect`: interface, address and peer endpoint.
pub fn connect(response: Response) -> (r: Result<(String, String, String), ClientError>)
    ensures
        match response@ {
            ResponseView::Connected { interface, address, peer_endpoint } => r is Ok && r->Ok_0.0@
                == interface && r->Ok_0.1@ == address && r->Ok_0.2@ == peer_endpoint,
            other => r is Err && r->Err_0@ == refusal(other),
        },
{
    match response {
        Response::Connected { interface, address, peer_endpoint } => Ok(
            (interface, address, peer_endpoint),
        ),
        other => Err(refused(other)),
    }
}

/// Reads the answer to `Status`: the active tunnels.
pub fn status(response: Response) -> (r: Result<Vec<TunnelStatus>, ClientError>)
    ensures
        match response@ {
            ResponseView::Status { tunnels } => r is Ok && r->Ok_0@.map_values(
                |t: TunnelStatus| t@,
            ) == tunnels,
            other => r is Err && r->Err_0@ == refusal(other),
        },
{
    match response {
        Response::Status { tunnels } => Ok(tunnels),
        other => Err(refused(other)),
    }
}

} // verus!
