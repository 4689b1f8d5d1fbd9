//! DevTools protocol event payloads that the page observer reads.
//!
//! These hold the fields the protocol delivers; values with fractional
//! parts (timestamps, layout-shift scores) are not carried here.

use vstd::prelude::*;
use std::collections::HashMap;

use crate::dom_node::DomNode;
use crate::text::{push_signed, push_text, signed_decimal};

verus! {

broadcast use vstd::string::group_string_axioms;

/// An error answered by the browser for a command.
pub struct CdpError {
    pub code: i64,
    pub message: String,
}

impl CdpError {
    /// How a failed call reports the error: `CDP error <code>: <message>`.
    pub fn describe(&self) -> (r: String)
        ensures
            r@ == "CDP error "@ + signed_decimal(self.code as int) + ": "@ + self.message@,
    {
        let mut out = "CDP error ".to_string();
        push_signed(&mut out, self.code);
        push_text(&mut out, ": ");
        push_text(&mut out, self.message.as_str());
        out
    }
}

/// DOM.childNodeInserted
pub struct ChildNodeInserted {
    pub parent_node_id: i64,
    pub previous_node_id: i64,
    pub node: DomNode,
}

/// DOM.childNodeRemoved
pub struct ChildNodeRemoved {
    pub parent_node_id: i64,
    pub node_id: i64,
}

/// DOM.attributeModified
pub struct AttributeModified {
    pub node_id: i64,
    pub name: String,
    pub value: String,
}

/// DOM.attributeRemoved
pub struct AttributeRemoved {
    pub node_id: i64,
    pub name: String,
}

/// DOM.characterDataModified
pub struct CharacterDataModified {
    pub node_id: i64,
    pub character_data: String,
}

/// DOM.setChildNodes
pub struct SetChildNodes {
    pub parent_id: i64,
    pub nodes: Vec<DomNode>,
}

/// DOM.childNodeCountUpdated
pub struct ChildNodeCountUpdated {
    pub node_id: i64,
    pub child_node_count: i32,
}

/// DOM.inlineStyleInvalidated
pub struct InlineStyleInvalidated {
    pub node_ids: Vec<i64>,
}

/// DOM.shadowRootPushed and DOM.shadowRootPopped
pub struct ShadowRootEvent {
    pub host_id: i64,
    pub root: DomNode,
}

/// DOM.pseudoElementAdded and DOM.pseudoElementRemoved
pub struct PseudoElementEvent {
    pub parent_id: i64,
    pub pseudo_element: DomNode,
}

/// Page.frameNavigated
pub struct FrameNavigated {
    pub frame: FrameInfo,
}

/// A frame, as Page.frameNavigated describes it.
pub struct FrameInfo {
    pub id: String,
    pub parent_id: Option<String>,
    pub loader_id: Option<String>,
    pub url: String,
    pub security_origin: Option<String>,
    pub mime_type: Option<String>,
}

/// The request part of Network.requestWillBeSent.
pub struct RequestData {
    pub url: String,
    pub method: String,
    pub headers: HashMap<String, String>,
}

/// The response part of Network.responseReceived.
pub struct ResponseData {
    pub url: String,
    pub status: i32,
    pub status_text: String,
    pub headers: HashMap<String, String>,
    pub mime_type: Option<String>,
}

/// Network.webSocketCreated
pub struct WebSocketCreated {
    pub request_id: String,
    pub url: String,
}

/// Target.attachedToTarget
pub struct AttachedToTarget {
    pub session_id: String,
    pub target_info: TargetInfo,
    pub waiting_for_debugger: bool,
}

/// Target.detachedFromTarget
pub struct DetachedFromTarget {
    pub session_id: String,
}

/// A target (page, iframe, worker, ...).
pub struct TargetInfo {
    pub target_id: String,
    pub target_type: String,
    pub title: String,
    pub url: String,
    pub attached: Option<bool>,
}

/// Animation.animationCreated
pub struct AnimationCreated {
    pub id: String,
}

/// Animation.animationCanceled
pub struct AnimationCanceled {
    pub id: String,
}

} // verus!
