//! The default request handler: its configuration.
//!
//! The handler's operations await a task store, an executor and a push config store that
//! the user supplies; the decisions they take between those awaits are the functions of
//! [`crate::task`] and [`crate::push`].

use vstd::prelude::*;
use crate::errors::{A2AError, PUSH_NOTIFICATION_NOT_SUPPORTED, UNSUPPORTED_OPERATION};
use crate::push::push_config_store;

verus! {

/// What an agent can do.
pub struct AgentCapabilities {
    pub streaming: Option<bool>,
    pub push_notifications: Option<bool>,
    pub extensions: Option<Vec<String>>,
    pub extended_agent_card: Option<bool>,
}

impl AgentCapabilities {
    /// No capability stated.
    pub fn none() -> (res: AgentCapabilities)
        ensures
            res.streaming is None,
            res.push_notifications is None,
            res.extensions is None,
            res.extended_agent_card is None,
    {
        AgentCapabilities {
            streaming: None,
            push_notifications: None,
            extensions: None,
            extended_agent_card: None,
        }
    }
}

/// The default request handler over an executor `E`, a task store `S` and, optionally, a
/// push config store `P`.
pub struct DefaultRequestHandler<E, S, P> {
    pub executor: E,
    pub task_store: S,
    pub push_config_store: Option<P>,
    pub capabilities: AgentCapabilities,
}

impl<E, S, P> DefaultRequestHandler<E, S, P> {
    /// A handler with no push config store and no capability stated.
    pub fn new(executor: E, task_store: S) -> (res: Self)
        ensures
            res.executor == executor,
            res.task_store == task_store,
            res.push_config_store is None,
            res.capabilities.streaming is None,
            res.capabilities.push_notifications is None,
            res.capabilities.extensions is None,
            res.capabilities.extended_agent_card is None,
    {
        DefaultRequestHandler {
            executor,
            task_store,
            push_config_store: None,
            capabilities: AgentCapabilities::none(),
        }
    }

    /// The handler with this push config store; it then announces push notifications.
    pub fn with_push_config_store(self, store: P) -> (res: Self)
        ensures
            res.executor == self.executor,
            res.task_store == self.task_store,
            res.push_config_store == Some(store),
            res.capabilities.push_notifications == Some(true),
            res.capabilities.streaming == self.capabilities.streaming,
            res.capabilities.extensions == self.capabilities.extensions,
            res.capabilities.extended_agent_card == self.capabilities.extended_agent_card,
    {
        let mut h = self;
        h.push_config_store = Some(store);
        h.capabilities.push_notifications = Some(true);
        h
    }

    /// The handler announcing these capabilities.
    pub fn with_capabilities(self, capabilities: AgentCapabilities) -> (res: Self)
        ensures
            res.executor == self.executor,
            res.task_store == self.task_store,
            res.push_config_store == self.push_config_store,
            res.capabilities == capabilities,
    {
        let mut h = self;
        h.capabilities = capabilities;
        h
    }

    /// The push config store, or the error `push notifications not supported`.
    pub fn push_config_store(&self) -> (res: Result<&P, A2AError>)
        ensures
            match &self.push_config_store {
                Some(s) => res == Ok::<&P, A2AError>(s),
                None => res matches Err(e) && e.code == PUSH_NOTIFICATION_NOT_SUPPORTED
                    && e.message@ == "push notifications not supported"@,
            },
    {
        push_config_store(&self.push_config_store)
    }
}

/// The default handler's answer to `tasks/subscribe`, which it does not implement.
pub fn subscribe_unsupported() -> (res: A2AError)
    ensures
        res@ == (UNSUPPORTED_OPERATION, "subscribe_to_task not yet implemented"@),
{
    A2AError::unsupported_operation("subscribe_to_task not yet implemented")
}

/// The default handler's answer to `agent/extendedCard`: no extended card is configured.
pub fn extended_card_unsupported() -> (res: A2AError)
    ensures
        res@ == (UNSUPPORTED_OPERATION, "extended agent card not configured"@),
{
    A2AError::unsupported_operation("extended agent card not configured")
}

} // verus!
