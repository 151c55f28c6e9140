//! App-server identity helpers for the WhatsApp transport.

use crate::approval::CommandExecutionRequestApprovalParams;
use crate::approval::FileChangeRequestApprovalParams;
use crate::approval::PermissionsRequestApprovalParams;
use crate::protocol::RequestId;
use crate::protocol::ServerNotification;
use crate::protocol::ToolRequestUserInputParams;
use crate::text::joined3;
use crate::text::option_text;
use crate::transcript::projector::with_details;
use vstd::prelude::*;

verus! {

/// A request that the app-server sends to the bridge.
#[derive(Debug, PartialEq, Eq)]
pub enum ServerRequest {
    CommandExecutionRequestApproval {
        request_id: RequestId,
        params: CommandExecutionRequestApprovalParams,
    },
    FileChangeRequestApproval { request_id: RequestId, params: FileChangeRequestApprovalParams },
    ToolRequestUserInput { request_id: RequestId, params: ToolRequestUserInputParams },
    PermissionsRequestApproval { request_id: RequestId, params: PermissionsRequestApprovalParams },
    /// A request that the bridge does not know.
    Unsupported { request_id: RequestId, thread_id: Option<String> },
}

/// What the app-server connection brings.
#[derive(Debug, PartialEq, Eq)]
pub enum AppServerEvent {
    ServerNotification(ServerNotification),
    ServerRequest(ServerRequest),
    /// Some notifications were lost.
    Lagged { skipped: u64 },
    Disconnected,
}

/// The thread that a notification names.
pub open spec fn thread_of(notification: ServerNotification) -> Option<Seq<char>> {
    match notification {
        ServerNotification::ItemStarted(n) => Some(n.thread_id@),
        ServerNotification::ItemCompleted(n) => Some(n.thread_id@),
        ServerNotification::AgentMessageDelta(n) => Some(n.thread_id@),
        ServerNotification::PlanDelta(n) => Some(n.thread_id@),
        ServerNotification::ReasoningSummaryTextDelta(n) => Some(n.thread_id@),
        ServerNotification::ReasoningTextDelta(n) => Some(n.thread_id@),
        ServerNotification::CommandExecutionOutputDelta(n) => Some(n.thread_id@),
        ServerNotification::FileChangeOutputDelta(n) => Some(n.thread_id@),
        ServerNotification::FileChangePatchUpdated(n) => Some(n.thread_id@),
        ServerNotification::TurnCompleted(n) => Some(n.thread_id@),
        ServerNotification::Error(n) => Some(n.thread_id@),
        ServerNotification::Warning(n) => option_text(n.thread_id),
        ServerNotification::GuardianWarning(n) => Some(n.thread_id@),
        ServerNotification::ConfigWarning(_) => None,
        ServerNotification::DeprecationNotice(_) => None,
        ServerNotification::ServerRequestResolved(n) => Some(n.thread_id@),
        ServerNotification::ThreadClosed(n) => Some(n.thread_id@),
        ServerNotification::ThreadDeleted(n) => Some(n.thread_id@),
        ServerNotification::Unclassified { thread_id } => option_text(thread_id),
    }
}

/// The thread that a request names.
pub open spec fn request_thread_of(request: ServerRequest) -> Option<Seq<char>> {
    match request {
        ServerRequest::CommandExecutionRequestApproval { params, .. } => Some(params.thread_id@),
        ServerRequest::FileChangeRequestApproval { params, .. } => Some(params.thread_id@),
        ServerRequest::ToolRequestUserInput { params, .. } => Some(params.thread_id@),
        ServerRequest::PermissionsRequestApproval { params, .. } => Some(params.thread_id@),
        ServerRequest::Unsupported { thread_id, .. } => option_text(thread_id),
    }
}

/// The identity of a request.
pub open spec fn request_id_of(request: ServerRequest) -> RequestId {
    match request {
        ServerRequest::CommandExecutionRequestApproval { request_id, .. } => request_id,
        ServerRequest::FileChangeRequestApproval { request_id, .. } => request_id,
        ServerRequest::ToolRequestUserInput { request_id, .. } => request_id,
        ServerRequest::PermissionsRequestApproval { request_id, .. } => request_id,
        ServerRequest::Unsupported { request_id, .. } => request_id,
    }
}

/// The thread that a notification names.
pub fn notification_thread_id(notification: &ServerNotification) -> (thread_id: Option<String>)
    ensures
        option_text(thread_id) == thread_of(*notification),
{
    match notification {
        ServerNotification::ItemStarted(n) => Some(n.thread_id.clone()),
        ServerNotification::ItemCompleted(n) => Some(n.thread_id.clone()),
        ServerNotification::AgentMessageDelta(n) => Some(n.thread_id.clone()),
        ServerNotification::PlanDelta(n) => Some(n.thread_id.clone()),
        ServerNotification::ReasoningSummaryTextDelta(n) => Some(n.thread_id.clone()),
        ServerNotification::ReasoningTextDelta(n) => Some(n.thread_id.clone()),
        ServerNotification::CommandExecutionOutputDelta(n) => Some(n.thread_id.clone()),
        ServerNotification::FileChangeOutputDelta(n) => Some(n.thread_id.clone()),
        ServerNotification::FileChangePatchUpdated(n) => Some(n.thread_id.clone()),
        ServerNotification::TurnCompleted(n) => Some(n.thread_id.clone()),
        ServerNotification::Error(n) => Some(n.thread_id.clone()),
        ServerNotification::Warning(n) => n.thread_id.clone(),
        ServerNotification::GuardianWarning(n) => Some(n.thread_id.clone()),
        ServerNotification::ConfigWarning(_) => None,
        ServerNotification::DeprecationNotice(_) => None,
        ServerNotification::ServerRequestResolved(n) => Some(n.thread_id.clone()),
        ServerNotification::ThreadClosed(n) => Some(n.thread_id.clone()),
        ServerNotification::ThreadDeleted(n) => Some(n.thread_id.clone()),
        ServerNotification::Unclassified { thread_id } => thread_id.clone(),
    }
}

/// The thread that a request names.
pub fn server_request_thread_id(request: &ServerRequest) -> (thread_id: Option<String>)
    ensures
        option_text(thread_id) == request_thread_of(*request),
{
    match request {
        ServerRequest::CommandExecutionRequestApproval { params, .. } => Some(
            params.thread_id.clone(),
        ),
        ServerRequest::FileChangeRequestApproval { params, .. } => Some(params.thread_id.clone()),
        ServerRequest::ToolRequestUserInput { params, .. } => Some(params.thread_id.clone()),
        ServerRequest::PermissionsRequestApproval { params, .. } => Some(params.thread_id.clone()),
        ServerRequest::Unsupported { thread_id, .. } => thread_id.clone(),
    }
}

impl ServerRequest {
    /// The identity of the request.
    pub fn id(&self) -> (id: &RequestId)
        ensures
            *id == request_id_of(*self),
    {
        match self {
            ServerRequest::CommandExecutionRequestApproval { request_id, .. } => request_id,
            ServerRequest::FileChangeRequestApproval { request_id, .. } => request_id,
            ServerRequest::ToolRequestUserInput { request_id, .. } => request_id,
            ServerRequest::PermissionsRequestApproval { request_id, .. } => request_id,
            ServerRequest::Unsupported { request_id, .. } => request_id,
        }
    }
}

/// The text of a notification that is shown by itself; items and lifecycle events
/// have none, nor has an error after which Codex tries again.
pub open spec fn notice_text(notification: ServerNotification) -> Option<Seq<char>> {
    match notification {
        ServerNotification::Error(n) => if n.will_retry {
            None
        } else {
            Some(n.error.message@)
        },
        ServerNotification::Warning(n) => Some(n.message@),
        ServerNotification::GuardianWarning(n) => Some(n.message@),
        ServerNotification::ConfigWarning(n) => Some(with_details(n.summary@, ": "@, n.details)),
        ServerNotification::DeprecationNotice(n) => Some(
            with_details(n.summary@, "\n"@, n.details),
        ),
        _ => None,
    }
}

/// The text of a notification that is shown by itself.
pub fn render_notification(notification: &ServerNotification) -> (text: Option<String>)
    ensures
        option_text(text) == notice_text(*notification),
{
    match notification {
        ServerNotification::Error(n) => if n.will_retry {
            None
        } else {
            Some(n.error.message.clone())
        },
        ServerNotification::Warning(n) => Some(n.message.clone()),
        ServerNotification::GuardianWarning(n) => Some(n.message.clone()),
        ServerNotification::ConfigWarning(n) => Some(
            match &n.details {
                Some(details) => joined3(n.summary.as_str(), ": ", details.as_str()),
                None => n.summary.clone(),
            },
        ),
        ServerNotification::DeprecationNotice(n) => Some(
            match &n.details {
                Some(details) => joined3(n.summary.as_str(), "\n", details.as_str()),
                None => n.summary.clone(),
            },
        ),
        _ => None,
    }
}

} // verus!
