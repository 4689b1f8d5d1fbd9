//! Which CDP event methods the sensor observes.
//!
//! Each observed method names the kind of event it carries; the caller
//! reads the event's parameters into that kind. Methods not listed here
//! are not observed.

use vstd::prelude::*;

use crate::text::same_text;

verus! {

/// The observed CDP event methods.
#[derive(Clone, Copy, Debug, PartialEq, Eq, Structural)]
pub enum SensorMethod {
    /// `DOM.documentUpdated`
    DocumentUpdated,
    /// `DOM.setChildNodes`
    SetChildNodes,
    /// `DOM.childNodeInserted`
    ChildNodeInserted,
    /// `DOM.childNodeRemoved`
    ChildNodeRemoved,
    /// `DOM.attributeModified`
    AttributeModified,
    /// `DOM.attributeRemoved`
    AttributeRemoved,
    /// `DOM.characterDataModified`
    CharacterDataModified,
    /// `DOM.childNodeCountUpdated`
    ChildNodeCountUpdated,
    /// `DOM.inlineStyleInvalidated`
    InlineStyleInvalidated,
    /// `DOM.shadowRootPushed`
    ShadowRootPushed,
    /// `DOM.shadowRootPopped`
    ShadowRootPopped,
    /// `DOM.pseudoElementAdded`
    PseudoElementAdded,
    /// `DOM.pseudoElementRemoved`
    PseudoElementRemoved,
    /// `Page.lifecycleEvent`
    LifecycleEvent,
    /// `Page.frameNavigated`
    FrameNavigated,
    /// `Page.frameStartedLoading`
    FrameStartedLoading,
    /// `Page.frameStoppedLoading`
    FrameStoppedLoading,
    /// `Page.navigatedWithinDocument`
    NavigatedWithinDocument,
    /// `Page.frameResized`
    FrameResized,
    /// `Page.screencastFrame`
    ScreencastFrame,
    /// `Network.requestWillBeSent`
    RequestWillBeSent,
    /// `Network.responseReceived`
    ResponseReceived,
    /// `Network.loadingFinished`
    LoadingFinished,
    /// `Network.loadingFailed`
    LoadingFailed,
    /// `Network.webSocketCreated`
    WebSocketCreated,
    /// `Network.webSocketClosed`
    WebSocketClosed,
    /// `Runtime.consoleAPICalled`
    ConsoleApiCalled,
    /// `Runtime.exceptionThrown`
    ExceptionThrown,
    /// `Log.entryAdded`
    LogEntryAdded,
    /// `Animation.animationStarted`
    AnimationStarted,
    /// `Animation.animationCanceled`
    AnimationCanceled,
    /// `Performance.metrics`
    PerformanceMetrics,
    /// `PerformanceTimeline.timelineEventAdded`
    TimelineEventAdded,
    /// `Target.attachedToTarget`
    AttachedToTarget,
    /// `Target.detachedFromTarget`
    DetachedFromTarget,
    /// `Accessibility.nodesUpdated`
    AxNodesUpdated,
}

/// The kind of event a CDP method carries, when the sensor observes it.
pub open spec fn method_kind(m: Seq<char>) -> Option<SensorMethod> {
    if m == "DOM.documentUpdated"@ {
        Some(SensorMethod::DocumentUpdated)
    } else if m == "DOM.setChildNodes"@ {
        Some(SensorMethod::SetChildNodes)
    } else if m == "DOM.childNodeInserted"@ {
        Some(SensorMethod::ChildNodeInserted)
    } else if m == "DOM.childNodeRemoved"@ {
        Some(SensorMethod::ChildNodeRemoved)
    } else if m == "DOM.attributeModified"@ {
        Some(SensorMethod::AttributeModified)
    } else if m == "DOM.attributeRemoved"@ {
        Some(SensorMethod::AttributeRemoved)
    } else if m == "DOM.characterDataModified"@ {
        Some(SensorMethod::CharacterDataModified)
    } else if m == "DOM.childNodeCountUpdated"@ {
        Some(SensorMethod::ChildNodeCountUpdated)
    } else if m == "DOM.inlineStyleInvalidated"@ {
        Some(SensorMethod::InlineStyleInvalidated)
    } else if m == "DOM.shadowRootPushed"@ {
        Some(SensorMethod::ShadowRootPushed)
    } else if m == "DOM.shadowRootPopped"@ {
        Some(SensorMethod::ShadowRootPopped)
    } else if m == "DOM.pseudoElementAdded"@ {
        Some(SensorMethod::PseudoElementAdded)
    } else if m == "DOM.pseudoElementRemoved"@ {
        Some(SensorMethod::PseudoElementRemoved)
    } else if m == "Page.lifecycleEvent"@ {
        Some(SensorMethod::LifecycleEvent)
    } else if m == "Page.frameNavigated"@ {
        Some(SensorMethod::FrameNavigated)
    } else if m == "Page.frameStartedLoading"@ {
        Some(SensorMethod::FrameStartedLoading)
    } else if m == "Page.frameStoppedLoading"@ {
        Some(SensorMethod::FrameStoppedLoading)
    } else if m == "Page.navigatedWithinDocument"@ {
        Some(SensorMethod::NavigatedWithinDocument)
    } else if m == "Page.frameResized"@ {
        Some(SensorMethod::FrameResized)
    } else if m == "Page.screencastFrame"@ {
        Some(SensorMethod::ScreencastFrame)
    } else if m == "Network.requestWillBeSent"@ {
        Some(SensorMethod::RequestWillBeSent)
    } else if m == "Network.responseReceived"@ {
        Some(SensorMethod::ResponseReceived)
    } else if m == "Network.loadingFinished"@ {
        Some(SensorMethod::LoadingFinished)
    } else if m == "Network.loadingFailed"@ {
        Some(SensorMethod::LoadingFailed)
    } else if m == "Network.webSocketCreated"@ {
        Some(SensorMethod::WebSocketCreated)
    } else if m == "Network.webSocketClosed"@ {
        Some(SensorMethod::WebSocketClosed)
    } else if m == "Runtime.consoleAPICalled"@ {
        Some(SensorMethod::ConsoleApiCalled)
    } else if m == "Runtime.exceptionThrown"@ {
        Some(SensorMethod::ExceptionThrown)
    } else if m == "Log.entryAdded"@ {
        Some(SensorMethod::LogEntryAdded)
    } else if m == "Animation.animationStarted"@ {
        Some(SensorMethod::AnimationStarted)
    } else if m == "Animation.animationCanceled"@ {
        Some(SensorMethod::AnimationCanceled)
    } else if m == "Performance.metrics"@ {
        Some(SensorMethod::PerformanceMetrics)
    } else if m == "PerformanceTimeline.timelineEventAdded"@ {
        Some(SensorMethod::TimelineEventAdded)
    } else if m == "Target.attachedToTarget"@ {
        Some(SensorMethod::AttachedToTarget)
    } else if m == "Target.detachedFromTarget"@ {
        Some(SensorMethod::DetachedFromTarget)
    } else if m == "Accessibility.nodesUpdated"@ {
        Some(SensorMethod::AxNodesUpdated)
    } else {
        None
    }
}

/// The CDP method whose events carry the kind `k`.
pub open spec fn method_name(k: SensorMethod) -> Seq<char> {
    match k {
        SensorMethod::AnimationCanceled => "Animation.animationCanceled"@,
        SensorMethod::AnimationStarted => "Animation.animationStarted"@,
        SensorMethod::AttachedToTarget => "Target.attachedToTarget"@,
        SensorMethod::AttributeModified => "DOM.attributeModified"@,
        SensorMethod::AttributeRemoved => "DOM.attributeRemoved"@,
        SensorMethod::AxNodesUpdated => "Accessibility.nodesUpdated"@,
        SensorMethod::CharacterDataModified => "DOM.characterDataModified"@,
        SensorMethod::ChildNodeCountUpdated => "DOM.childNodeCountUpdated"@,
        SensorMethod::ChildNodeInserted => "DOM.childNodeInserted"@,
        SensorMethod::ChildNodeRemoved => "DOM.childNodeRemoved"@,
        SensorMethod::ConsoleApiCalled => "Runtime.consoleAPICalled"@,
        SensorMethod::DetachedFromTarget => "Target.detachedFromTarget"@,
        SensorMethod::DocumentUpdated => "DOM.documentUpdated"@,
        SensorMethod::ExceptionThrown => "Runtime.exceptionThrown"@,
        SensorMethod::FrameNavigated => "Page.frameNavigated"@,
        SensorMethod::FrameResized => "Page.frameResized"@,
        SensorMethod::FrameStartedLoading => "Page.frameStartedLoading"@,
        SensorMethod::FrameStoppedLoading => "Page.frameStoppedLoading"@,
        SensorMethod::InlineStyleInvalidated => "DOM.inlineStyleInvalidated"@,
        SensorMethod::LifecycleEvent => "Page.lifecycleEvent"@,
        SensorMethod::LoadingFailed => "Network.loadingFailed"@,
        SensorMethod::LoadingFinished => "Network.loadingFinished"@,
        SensorMethod::LogEntryAdded => "Log.entryAdded"@,
        SensorMethod::NavigatedWithinDocument => "Page.navigatedWithinDocument"@,
        SensorMethod::PerformanceMetrics => "Performance.metrics"@,
        SensorMethod::PseudoElementAdded => "DOM.pseudoElementAdded"@,
        SensorMethod::PseudoElementRemoved => "DOM.pseudoElementRemoved"@,
        SensorMethod::RequestWillBeSent => "Network.requestWillBeSent"@,
        SensorMethod::ResponseReceived => "Network.responseReceived"@,
        SensorMethod::ScreencastFrame => "Page.screencastFrame"@,
        SensorMethod::SetChildNodes => "DOM.setChildNodes"@,
        SensorMethod::ShadowRootPopped => "DOM.shadowRootPopped"@,
        SensorMethod::ShadowRootPushed => "DOM.shadowRootPushed"@,
        SensorMethod::TimelineEventAdded => "PerformanceTimeline.timelineEventAdded"@,
        SensorMethod::WebSocketClosed => "Network.webSocketClosed"@,
        SensorMethod::WebSocketCreated => "Network.webSocketCreated"@,
    }
}

/// Each kind of event the sensor observes is recognised from its own CDP
/// method name, and a method name is recognised as a kind only when it is
/// that kind's method name.
pub proof fn law_methods_recognised(k: SensorMethod, m: Seq<char>)
    ensures
        method_kind(method_name(k)) == Some(k),
        method_kind(m) matches Some(j) ==> m == method_name(j),
{
    assert(method_kind("DOM.documentUpdated"@) == Some(SensorMethod::DocumentUpdated)) by {
        reveal_strlit("DOM.documentUpdated");
    }
    assert(method_kind("DOM.setChildNodes"@) == Some(SensorMethod::SetChildNodes)) by {
        reveal_strlit("DOM.setChildNodes");
        reveal_strlit("DOM.documentUpdated");
        assert("DOM.setChildNodes"@.len() != "DOM.documentUpdated"@.len());
    }
    assert(method_kind("DOM.childNodeInserted"@) == Some(SensorMethod::ChildNodeInserted)) by {
        reveal_strlit("DOM.childNodeInserted");
        reveal_strlit("DOM.setChildNodes");
        assert("DOM.childNodeInserted"@.len() != "DOM.setChildNodes"@.len());
        reveal_strlit("DOM.documentUpdated");
        assert("DOM.childNodeInserted"@.len() != "DOM.documentUpdated"@.len());
    }
    assert(method_kind("DOM.childNodeRemoved"@) == Some(SensorMethod::ChildNodeRemoved)) by {
        reveal_strlit("DOM.childNodeRemoved");
        reveal_strlit("DOM.childNodeInserted");
        assert("DOM.childNodeRemoved"@.len() != "DOM.childNodeInserted"@.len());
        reveal_strlit("DOM.setChildNodes");
        assert("DOM.childNodeRemoved"@.len() != "DOM.setChildNodes"@.len());
        reveal_strlit("DOM.documentUpdated");
        assert("DOM.childNodeRemoved"@.len() != "DOM.documentUpdated"@.len());
    }
    assert(method_kind("DOM.attributeModified"@) == Some(SensorMethod::AttributeModified)) by {
        reveal_strlit("DOM.attributeModified");
        reveal_strlit("DOM.childNodeRemoved");
        assert("DOM.attributeModified"@.len() != "DOM.childNodeRemoved"@.len());
        reveal_strlit("DOM.childNodeInserted");
        assert("DOM.attributeModified"@[4] != "DOM.childNodeInserted"@[4]);
        reveal_strlit("DOM.setChildNodes");
        assert("DOM.attributeModified"@.len() != "DOM.setChildNodes"@.len());
        reveal_strlit("DOM.documentUpdated");
        assert("DOM.attributeModified"@.len() != "DOM.documentUpdated"@.len());
    }
    assert(method_kind("DOM.attributeRemoved"@) == Some(SensorMethod::AttributeRemoved)) by {
        reveal_strlit("DOM.attributeRemoved");
        reveal_strlit("DOM.attributeModified");
        assert("DOM.attributeRemoved"@.len() != "DOM.attributeModified"@.len());
        reveal_strlit("DOM.childNodeRemoved");
        assert("DOM.attributeRemoved"@[4] != "DOM.childNodeRemoved"@[4]);
        reveal_strlit("DOM.childNodeInserted");
        assert("DOM.attributeRemoved"@.len() != "DOM.childNodeInserted"@.len());
        reveal_strlit("DOM.setChildNodes");
        assert("DOM.attributeRemoved"@.len() != "DOM.setChildNodes"@.len());
        reveal_strlit("DOM.documentUpdated");
        assert("DOM.attributeRemoved"@.len() != "DOM.documentUpdated"@.len());
    }
    assert(method_kind("DOM.characterDataModified"@) == Some(SensorMethod::CharacterDataModified)) by {
        reveal_strlit("DOM.characterDataModified");
        reveal_strlit("DOM.attributeRemoved");
        assert("DOM.characterDataModified"@.len() != "DOM.attributeRemoved"@.len());
        reveal_strlit("DOM.attributeModified");
        assert("DOM.characterDataModified"@.len() != "DOM.attributeModified"@.len());
        reveal_strlit("DOM.childNodeRemoved");
        assert("DOM.characterDataModified"@.len() != "DOM.childNodeRemoved"@.len());
        reveal_strlit("DOM.childNodeInserted");
        assert("DOM.characterDataModified"@.len() != "DOM.childNodeInserted"@.len());
        reveal_strlit("DOM.setChildNodes");
        assert("DOM.characterDataModified"@.len() != "DOM.setChildNodes"@.len());
        reveal_strlit("DOM.documentUpdated");
        assert("DOM.characterDataModified"@.len() != "DOM.documentUpdated"@.len());
    }
    assert(method_kind("DOM.childNodeCountUpdated"@) == Some(SensorMethod::ChildNodeCountUpdated)) by {
        reveal_strlit("DOM.childNodeCountUpdated");
        reveal_strlit("DOM.characterDataModified");
        assert("DOM.childNodeCountUpdated"@[6] != "DOM.characterDataModified"@[6]);
        reveal_strlit("DOM.attributeRemoved");
        assert("DOM.childNodeCountUpdated"@.len() != "DOM.attributeRemoved"@.len());
        reveal_strlit("DOM.attributeModified");
        assert("DOM.childNodeCountUpdated"@.len() != "DOM.attributeModified"@.len());
        reveal_strlit("DOM.childNodeRemoved");
        assert("DOM.childNodeCountUpdated"@.len() != "DOM.childNodeRemoved"@.len());
        reveal_strlit("DOM.childNodeInserted");
        assert("DOM.childNodeCountUpdated"@.len() != "DOM.childNodeInserted"@.len());
        reveal_strlit("DOM.setChildNodes");
        assert("DOM.childNodeCountUpdated"@.len() != "DOM.setChildNodes"@.len());
        reveal_strlit("DOM.documentUpdated");
        assert("DOM.childNodeCountUpdated"@.len() != "DOM.documentUpdated"@.len());
    }
    assert(method_kind("DOM.inlineStyleInvalidated"@) == Some(SensorMethod::InlineStyleInvalidated)) by {
        reveal_strlit("DOM.inlineStyleInvalidated");
        reveal_strlit("DOM.childNodeCountUpdated");
        assert("DOM.inlineStyleInvalidated"@.len() != "DOM.childNodeCountUpdated"@.len());
        reveal_strlit("DOM.characterDataModified");
        assert("DOM.inlineStyleInvalidated"@.len() != "DOM.characterDataModified"@.len());
        reveal_strlit("DOM.attributeRemoved");
        assert("DOM.inlineStyleInvalidated"@.len() != "DOM.attributeRemoved"@.len());
        reveal_strlit("DOM.attributeModified");
        assert("DOM.inlineStyleInvalidated"@.len() != "DOM.attributeModified"@.len());
        reveal_strlit("DOM.childNodeRemoved");
        assert("DOM.inlineStyleInvalidated"@.len() != "DOM.childNodeRemoved"@.len());
        reveal_strlit("DOM.childNodeInserted");
        assert("DOM.inlineStyleInvalidated"@.len() != "DOM.childNodeInserted"@.len());
        reveal_strlit("DOM.setChildNodes");
        assert("DOM.inlineStyleInvalidated"@.len() != "DOM.setChildNodes"@.len());
        reveal_strlit("DOM.documentUpdated");
        assert("DOM.inlineStyleInvalidated"@.len() != "DOM.documentUpdated"@.len());
    }
    assert(method_kind("DOM.shadowRootPushed"@) == Some(SensorMethod::ShadowRootPushed)) by {
        reveal_strlit("DOM.shadowRootPushed");
        reveal_strlit("DOM.inlineStyleInvalidated");
        assert("DOM.shadowRootPushed"@.len() != "DOM.inlineStyleInvalidated"@.len());
        reveal_strlit("DOM.childNodeCountUpdated");
        assert("DOM.shadowRootPushed"@.len() != "DOM.childNodeCountUpdated"@.len());
        reveal_strlit("DOM.characterDataModified");
        assert("DOM.shadowRootPushed"@.len() != "DOM.characterDataModified"@.len());
        reveal_strlit("DOM.attributeRemoved");
        assert("DOM.shadowRootPushed"@[4] != "DOM.attributeRemoved"@[4]);
        reveal_strlit("DOM.attributeModified");
        assert("DOM.shadowRootPushed"@.len() != "DOM.attributeModified"@.len());
        reveal_strlit("DOM.childNodeRemoved");
        assert("DOM.shadowRootPushed"@[4] != "DOM.childNodeRemoved"@[4]);
        reveal_strlit("DOM.childNodeInserted");
        assert("DOM.shadowRootPushed"@.len() != "DOM.childNodeInserted"@.len());
        reveal_strlit("DOM.setChildNodes");
        assert("DOM.shadowRootPushed"@.len() != "DOM.setChildNodes"@.len());
        reveal_strlit("DOM.documentUpdated");
        assert("DOM.shadowRootPushed"@.len() != "DOM.documentUpdated"@.len());
    }
    assert(method_kind("DOM.shadowRootPopped"@) == Some(SensorMethod::ShadowRootPopped)) by {
        reveal_strlit("DOM.shadowRootPopped");
        reveal_strlit("DOM.shadowRootPushed");
        assert("DOM.shadowRootPopped"@[15] != "DOM.shadowRootPushed"@[15]);
        reveal_strlit("DOM.inlineStyleInvalidated");
        assert("DOM.shadowRootPopped"@.len() != "DOM.inlineStyleInvalidated"@.len());
        reveal_strlit("DOM.childNodeCountUpdated");
        assert("DOM.shadowRootPopped"@.len() != "DOM.childNodeCountUpdated"@.len());
        reveal_strlit("DOM.characterDataModified");
        assert("DOM.shadowRootPopped"@.len() != "DOM.characterDataModified"@.len());
        reveal_strlit("DOM.attributeRemoved");
        assert("DOM.shadowRootPopped"@[4] != "DOM.attributeRemoved"@[4]);
        reveal_strlit("DOM.attributeModified");
        assert("DOM.shadowRootPopped"@.len() != "DOM.attributeModified"@.len());
        reveal_strlit("DOM.childNodeRemoved");
        assert("DOM.shadowRootPopped"@[4] != "DOM.childNodeRemoved"@[4]);
        reveal_strlit("DOM.childNodeInserted");
        assert("DOM.shadowRootPopped"@.len() != "DOM.childNodeInserted"@.len());
        reveal_strlit("DOM.setChildNodes");
        assert("DOM.shadowRootPopped"@.len() != "DOM.setChildNodes"@.len());
        reveal_strlit("DOM.documentUpdated");
        assert("DOM.shadowRootPopped"@.len() != "DOM.documentUpdated"@.len());
    }
    assert(method_kind("DOM.pseudoElementAdded"@) == Some(SensorMethod::PseudoElementAdded)) by {
        reveal_strlit("DOM.pseudoElementAdded");
        reveal_strlit("DOM.shadowRootPopped");
        assert("DOM.pseudoElementAdded"@.len() != "DOM.shadowRootPopped"@.len());
        reveal_strlit("DOM.shadowRootPushed");
        assert("DOM.pseudoElementAdded"@.len() != "DOM.shadowRootPushed"@.len());
        reveal_strlit("DOM.inlineStyleInvalidated");
        assert("DOM.pseudoElementAdded"@.len() != "DOM.inlineStyleInvalidated"@.len());
        reveal_strlit("DOM.childNodeCountUpdated");
        assert("DOM.pseudoElementAdded"@.len() != "DOM.childNodeCountUpdated"@.len());
        reveal_strlit("DOM.characterDataModified");
        assert("DOM.pseudoElementAdded"@.len() != "DOM.characterDataModified"@.len());
        reveal_strlit("DOM.attributeRemoved");
        assert("DOM.pseudoElementAdded"@.len() != "DOM.attributeRemoved"@.len());
        reveal_strlit("DOM.attributeModified");
        assert("DOM.pseudoElementAdded"@.len() != "DOM.attributeModified"@.len());
        reveal_strlit("DOM.childNodeRemoved");
        assert("DOM.pseudoElementAdded"@.len() != "DOM.childNodeRemoved"@.len());
        reveal_strlit("DOM.childNodeInserted");
        assert("DOM.pseudoElementAdded"@.len() != "DOM.childNodeInserted"@.len());
        reveal_strlit("DOM.setChildNodes");
        assert("DOM.pseudoElementAdded"@.len() != "DOM.setChildNodes"@.len());
        reveal_strlit("DOM.documentUpdated");
        assert("DOM.pseudoElementAdded"@.len() != "DOM.documentUpdated"@.len());
    }
    assert(method_kind("DOM.pseudoElementRemoved"@) == Some(SensorMethod::PseudoElementRemoved)) by {
        reveal_strlit("DOM.pseudoElementRemoved");
        reveal_strlit("DOM.pseudoElementAdded");
        assert("DOM.pseudoElementRemoved"@.len() != "DOM.pseudoElementAdded"@.len());
        reveal_strlit("DOM.shadowRootPopped");
        assert("DOM.pseudoElementRemoved"@.len() != "DOM.shadowRootPopped"@.len());
        reveal_strlit("DOM.shadowRootPushed");
        assert("DOM.pseudoElementRemoved"@.len() != "DOM.shadowRootPushed"@.len());
        reveal_strlit("DOM.inlineStyleInvalidated");
        assert("DOM.pseudoElementRemoved"@.len() != "DOM.inlineStyleInvalidated"@.len());
        reveal_strlit("DOM.childNodeCountUpdated");
        assert("DOM.pseudoElementRemoved"@.len() != "DOM.childNodeCountUpdated"@.len());
        reveal_strlit("DOM.characterDataModified");
        assert("DOM.pseudoElementRemoved"@.len() != "DOM.characterDataModified"@.len());
        reveal_strlit("DOM.attributeRemoved");
        assert("DOM.pseudoElementRemoved"@.len() != "DOM.attributeRemoved"@.len());
        reveal_strlit("DOM.attributeModified");
        assert("DOM.pseudoElementRemoved"@.len() != "DOM.attributeModified"@.len());
        reveal_strlit("DOM.childNodeRemoved");
        assert("DOM.pseudoElementRemoved"@.len() != "DOM.childNodeRemoved"@.len());
        reveal_strlit("DOM.childNodeInserted");
        assert("DOM.pseudoElementRemoved"@.len() != "DOM.childNodeInserted"@.len());
        reveal_strlit("DOM.setChildNodes");
        assert("DOM.pseudoElementRemoved"@.len() != "DOM.setChildNodes"@.len());
        reveal_strlit("DOM.documentUpdated");
        assert("DOM.pseudoElementRemoved"@.len() != "DOM.documentUpdated"@.len());
    }
    assert(method_kind("Page.lifecycleEvent"@) == Some(SensorMethod::LifecycleEvent)) by {
        reveal_strlit("Page.lifecycleEvent");
        reveal_strlit("DOM.pseudoElementRemoved");
        assert("Page.lifecycleEvent"@.len() != "DOM.pseudoElementRemoved"@.len());
        reveal_strlit("DOM.pseudoElementAdded");
        assert("Page.lifecycleEvent"@.len() != "DOM.pseudoElementAdded"@.len());
        reveal_strlit("DOM.shadowRootPopped");
        assert("Page.lifecycleEvent"@.len() != "DOM.shadowRootPopped"@.len());
        reveal_strlit("DOM.shadowRootPushed");
        assert("Page.lifecycleEvent"@.len() != "DOM.shadowRootPushed"@.len());
        reveal_strlit("DOM.inlineStyleInvalidated");
        assert("Page.lifecycleEvent"@.len() != "DOM.inlineStyleInvalidated"@.len());
        reveal_strlit("DOM.childNodeCountUpdated");
        assert("Page.lifecycleEvent"@.len() != "DOM.childNodeCountUpdated"@.len());
        reveal_strlit("DOM.characterDataModified");
        assert("Page.lifecycleEvent"@.len() != "DOM.characterDataModified"@.len());
        reveal_strlit("DOM.attributeRemoved");
        assert("Page.lifecycleEvent"@.len() != "DOM.attributeRemoved"@.len());
        reveal_strlit("DOM.attributeModified");
        assert("Page.lifecycleEvent"@.len() != "DOM.attributeModified"@.len());
        reveal_strlit("DOM.childNodeRemoved");
        assert("Page.lifecycleEvent"@.len() != "DOM.childNodeRemoved"@.len());
        reveal_strlit("DOM.childNodeInserted");
        assert("Page.lifecycleEvent"@.len() != "DOM.childNodeInserted"@.len());
        reveal_strlit("DOM.setChildNodes");
        assert("Page.lifecycleEvent"@.len() != "DOM.setChildNodes"@.len());
        reveal_strlit("DOM.documentUpdated");
        assert("Page.lifecycleEvent"@[0] != "DOM.documentUpdated"@[0]);
    }
    assert(method_kind("Page.frameNavigated"@) == Some(SensorMethod::FrameNavigated)) by {
        reveal_strlit("Page.frameNavigated");
        reveal_strlit("Page.lifecycleEvent");
        assert("Page.frameNavigated"@[5] != "Page.lifecycleEvent"@[5]);
        reveal_strlit("DOM.pseudoElementRemoved");
        assert("Page.frameNavigated"@.len() != "DOM.pseudoElementRemoved"@.len());
        reveal_strlit("DOM.pseudoElementAdded");
        assert("Page.frameNavigated"@.len() != "DOM.pseudoElementAdded"@.len());
        reveal_strlit("DOM.shadowRootPopped");
        assert("Page.frameNavigated"@.len() != "DOM.shadowRootPopped"@.len());
        reveal_strlit("DOM.shadowRootPushed");
        assert("Page.frameNavigated"@.len() != "DOM.shadowRootPushed"@.len());
        reveal_strlit("DOM.inlineStyleInvalidated");
        assert("Page.frameNavigated"@.len() != "DOM.inlineStyleInvalidated"@.len());
        reveal_strlit("DOM.childNodeCountUpdated");
        assert("Page.frameNavigated"@.len() != "DOM.childNodeCountUpdated"@.len());
        reveal_strlit("DOM.characterDataModified");
        assert("Page.frameNavigated"@.len() != "DOM.characterDataModified"@.len());
        reveal_strlit("DOM.attributeRemoved");
        assert("Page.frameNavigated"@.len() != "DOM.attributeRemoved"@.len());
        reveal_strlit("DOM.attributeModified");
        assert("Page.frameNavigated"@.len() != "DOM.attributeModified"@.len());
        reveal_strlit("DOM.childNodeRemoved");
        assert("Page.frameNavigated"@.len() != "DOM.childNodeRemoved"@.len());
        reveal_strlit("DOM.childNodeInserted");
        assert("Page.frameNavigated"@.len() != "DOM.childNodeInserted"@.len());
        reveal_strlit("DOM.setChildNodes");
        assert("Page.frameNavigated"@.len() != "DOM.setChildNodes"@.len());
        reveal_strlit("DOM.documentUpdated");
        assert("Page.frameNavigated"@[0] != "DOM.documentUpdated"@[0]);
    }
    assert(method_kind("Page.frameStartedLoading"@) == Some(SensorMethod::FrameStartedLoading)) by {
        reveal_strlit("Page.frameStartedLoading");
        reveal_strlit("Page.frameNavigated");
        assert("Page.frameStartedLoading"@.len() != "Page.frameNavigated"@.len());
        reveal_strlit("Page.lifecycleEvent");
        assert("Page.frameStartedLoading"@.len() != "Page.lifecycleEvent"@.len());
        reveal_strlit("DOM.pseudoElementRemoved");
        assert("Page.frameStartedLoading"@[0] != "DOM.pseudoElementRemoved"@[0]);
        reveal_strlit("DOM.pseudoElementAdded");
        assert("Page.frameStartedLoading"@.len() != "DOM.pseudoElementAdded"@.len());
        reveal_strlit("DOM.shadowRootPopped");
        assert("Page.frameStartedLoading"@.len() != "DOM.shadowRootPopped"@.len());
        reveal_strlit("DOM.shadowRootPushed");
        assert("Page.frameStartedLoading"@.len() != "DOM.shadowRootPushed"@.len());
        reveal_strlit("DOM.inlineStyleInvalidated");
        assert("Page.frameStartedLoading"@.len() != "DOM.inlineStyleInvalidated"@.len());
        reveal_strlit("DOM.childNodeCountUpdated");
        assert("Page.frameStartedLoading"@.len() != "DOM.childNodeCountUpdated"@.len());
        reveal_strlit("DOM.characterDataModified");
        assert("Page.frameStartedLoading"@.len() != "DOM.characterDataModified"@.len());
        reveal_strlit("DOM.attributeRemoved");
        assert("Page.frameStartedLoading"@.len() != "DOM.attributeRemoved"@.len());
        reveal_strlit("DOM.attributeModified");
        assert("Page.frameStartedLoading"@.len() != "DOM.attributeModified"@.len());
        reveal_strlit("DOM.childNodeRemoved");
        assert("Page.frameStartedLoading"@.len() != "DOM.childNodeRemoved"@.len());
        reveal_strlit("DOM.childNodeInserted");
        assert("Page.frameStartedLoading"@.len() != "DOM.childNodeInserted"@.len());
        reveal_strlit("DOM.setChildNodes");
        assert("Page.frameStartedLoading"@.len() != "DOM.setChildNodes"@.len());
        reveal_strlit("DOM.documentUpdated");
        assert("Page.frameStartedLoading"@.len() != "DOM.documentUpdated"@.len());
    }
    assert(method_kind("Page.frameStoppedLoading"@) == Some(SensorMethod::FrameStoppedLoading)) by {
        reveal_strlit("Page.frameStoppedLoading");
        reveal_strlit("Page.frameStartedLoading");
        assert("Page.frameStoppedLoading"@[12] != "Page.frameStartedLoading"@[12]);
        reveal_strlit("Page.frameNavigated");
        assert("Page.frameStoppedLoading"@.len() != "Page.frameNavigated"@.len());
        reveal_strlit("Page.lifecycleEvent");
        assert("Page.frameStoppedLoading"@.len() != "Page.lifecycleEvent"@.len());
        reveal_strlit("DOM.pseudoElementRemoved");
        assert("Page.frameStoppedLoading"@[0] != "DOM.pseudoElementRemoved"@[0]);
        reveal_strlit("DOM.pseudoElementAdded");
        assert("Page.frameStoppedLoading"@.len() != "DOM.pseudoElementAdded"@.len());
        reveal_strlit("DOM.shadowRootPopped");
        assert("Page.frameStoppedLoading"@.len() != "DOM.shadowRootPopped"@.len());
        reveal_strlit("DOM.shadowRootPushed");
        assert("Page.frameStoppedLoading"@.len() != "DOM.shadowRootPushed"@.len());
        reveal_strlit("DOM.inlineStyleInvalidated");
        assert("Page.frameStoppedLoading"@.len() != "DOM.inlineStyleInvalidated"@.len());
        reveal_strlit("DOM.childNodeCountUpdated");
        assert("Page.frameStoppedLoading"@.len() != "DOM.childNodeCountUpdated"@.len());
        reveal_strlit("DOM.characterDataModified");
        assert("Page.frameStoppedLoading"@.len() != "DOM.characterDataModified"@.len());
        reveal_strlit("DOM.attributeRemoved");
        assert("Page.frameStoppedLoading"@.len() != "DOM.attributeRemoved"@.len());
        reveal_strlit("DOM.attributeModified");
        assert("Page.frameStoppedLoading"@.len() != "DOM.attributeModified"@.len());
        reveal_strlit("DOM.childNodeRemoved");
        assert("Page.frameStoppedLoading"@.len() != "DOM.childNodeRemoved"@.len());
        reveal_strlit("DOM.childNodeInserted");
        assert("Page.frameStoppedLoading"@.len() != "DOM.childNodeInserted"@.len());
        reveal_strlit("DOM.setChildNodes");
        assert("Page.frameStoppedLoading"@.len() != "DOM.setChildNodes"@.len());
        reveal_strlit("DOM.documentUpdated");
        assert("Page.frameStoppedLoading"@.len() != "DOM.documentUpdated"@.len());
    }
    assert(method_kind("Page.navigatedWithinDocument"@) == Some(SensorMethod::NavigatedWithinDocument)) by {
        reveal_strlit("Page.navigatedWithinDocument");
        reveal_strlit("Page.frameStoppedLoading");
        assert("Page.navigatedWithinDocument"@.len() != "Page.frameStoppedLoading"@.len());
        reveal_strlit("Page.frameStartedLoading");
        assert("Page.navigatedWithinDocument"@.len() != "Page.frameStartedLoading"@.len());
        reveal_strlit("Page.frameNavigated");
        assert("Page.navigatedWithinDocument"@.len() != "Page.frameNavigated"@.len());
        reveal_strlit("Page.lifecycleEvent");
        assert("Page.navigatedWithinDocument"@.len() != "Page.lifecycleEvent"@.len());
        reveal_strlit("DOM.pseudoElementRemoved");
        assert("Page.navigatedWithinDocument"@.len() != "DOM.pseudoElementRemoved"@.len());
        reveal_strlit("DOM.pseudoElementAdded");
        assert("Page.navigatedWithinDocument"@.len() != "DOM.pseudoElementAdded"@.len());
        reveal_strlit("DOM.shadowRootPopped");
        assert("Page.navigatedWithinDocument"@.len() != "DOM.shadowRootPopped"@.len());
        reveal_strlit("DOM.shadowRootPushed");
        assert("Page.navigatedWithinDocument"@.len() != "DOM.shadowRootPushed"@.len());
        reveal_strlit("DOM.inlineStyleInvalidated");
        assert("Page.navigatedWithinDocument"@.len() != "DOM.inlineStyleInvalidated"@.len());
        reveal_strlit("DOM.childNodeCountUpdated");
        assert("Page.navigatedWithinDocument"@.len() != "DOM.childNodeCountUpdated"@.len());
        reveal_strlit("DOM.characterDataModified");
        assert("Page.navigatedWithinDocument"@.len() != "DOM.characterDataModified"@.len());
        reveal_strlit("DOM.attributeRemoved");
        assert("Page.navigatedWithinDocument"@.len() != "DOM.attributeRemoved"@.len());
        reveal_strlit("DOM.attributeModified");
        assert("Page.navigatedWithinDocument"@.len() != "DOM.attributeModified"@.len());
        reveal_strlit("DOM.childNodeRemoved");
        assert("Page.navigatedWithinDocument"@.len() != "DOM.childNodeRemoved"@.len());
        reveal_strlit("DOM.childNodeInserted");
        assert("Page.navigatedWithinDocument"@.len() != "DOM.childNodeInserted"@.len());
        reveal_strlit("DOM.setChildNodes");
        assert("Page.navigatedWithinDocument"@.len() != "DOM.setChildNodes"@.len());
        reveal_strlit("DOM.documentUpdated");
        assert("Page.navigatedWithinDocument"@.len() != "DOM.documentUpdated"@.len());
    }
    assert(method_kind("Page.frameResized"@) == Some(SensorMethod::FrameResized)) by {
        reveal_strlit("Page.frameResized");
        reveal_strlit("Page.navigatedWithinDocument");
        assert("Page.frameResized"@.len() != "Page.navigatedWithinDocument"@.len());
        reveal_strlit("Page.frameStoppedLoading");
        assert("Page.frameResized"@.len() != "Page.frameStoppedLoading"@.len());
        reveal_strlit("Page.frameStartedLoading");
        assert("Page.frameResized"@.len() != "Page.frameStartedLoading"@.len());
        reveal_strlit("Page.frameNavigated");
        assert("Page.frameResized"@.len() != "Page.frameNavigated"@.len());
        reveal_strlit("Page.lifecycleEvent");
        assert("Page.frameResized"@.len() != "Page.lifecycleEvent"@.len());
        reveal_strlit("DOM.pseudoElementRemoved");
        assert("Page.frameResized"@.len() != "DOM.pseudoElementRemoved"@.len());
        reveal_strlit("DOM.pseudoElementAdded");
        assert("Page.frameResized"@.len() != "DOM.pseudoElementAdded"@.len());
        reveal_strlit("DOM.shadowRootPopped");
        assert("Page.frameResized"@.len() != "DOM.shadowRootPopped"@.len());
        reveal_strlit("DOM.shadowRootPushed");
        assert("Page.frameResized"@.len() != "DOM.shadowRootPushed"@.len());
        reveal_strlit("DOM.inlineStyleInvalidated");
        assert("Page.frameResized"@.len() != "DOM.inlineStyleInvalidated"@.len());
        reveal_strlit("DOM.childNodeCountUpdated");
        assert("Page.frameResized"@.len() != "DOM.childNodeCountUpdated"@.len());
        reveal_strlit("DOM.characterDataModified");
        assert("Page.frameResized"@.len() != "DOM.characterDataModified"@.len());
        reveal_strlit("DOM.attributeRemoved");
        assert("Page.frameResized"@.len() != "DOM.attributeRemoved"@.len());
        reveal_strlit("DOM.attributeModified");
        assert("Page.frameResized"@.len() != "DOM.attributeModified"@.len());
        reveal_strlit("DOM.childNodeRemoved");
        assert("Page.frameResized"@.len() != "DOM.childNodeRemoved"@.len());
        reveal_strlit("DOM.childNodeInserted");
        assert("Page.frameResized"@.len() != "DOM.childNodeInserted"@.len());
        reveal_strlit("DOM.setChildNodes");
        assert("Page.frameResized"@[0] != "DOM.setChildNodes"@[0]);
        reveal_strlit("DOM.documentUpdated");
        assert("Page.frameResized"@.len() != "DOM.documentUpdated"@.len());
    }
    assert(method_kind("Page.screencastFrame"@) == Some(SensorMethod::ScreencastFrame)) by {
        reveal_strlit("Page.screencastFrame");
        reveal_strlit("Page.frameResized");
        assert("Page.screencastFrame"@.len() != "Page.frameResized"@.len());
        reveal_strlit("Page.navigatedWithinDocument");
        assert("Page.screencastFrame"@.len() != "Page.navigatedWithinDocument"@.len());
        reveal_strlit("Page.frameStoppedLoading");
        assert("Page.screencastFrame"@.len() != "Page.frameStoppedLoading"@.len());
        reveal_strlit("Page.frameStartedLoading");
        assert("Page.screencastFrame"@.len() != "Page.frameStartedLoading"@.len());
        reveal_strlit("Page.frameNavigated");
        assert("Page.screencastFrame"@.len() != "Page.frameNavigated"@.len());
        reveal_strlit("Page.lifecycleEvent");
        assert("Page.screencastFrame"@.len() != "Page.lifecycleEvent"@.len());
        reveal_strlit("DOM.pseudoElementRemoved");
        assert("Page.screencastFrame"@.len() != "DOM.pseudoElementRemoved"@.len());
        reveal_strlit("DOM.pseudoElementAdded");
        assert("Page.screencastFrame"@.len() != "DOM.pseudoElementAdded"@.len());
        reveal_strlit("DOM.shadowRootPopped");
        assert("Page.screencastFrame"@[0] != "DOM.shadowRootPopped"@[0]);
        reveal_strlit("DOM.shadowRootPushed");
        assert("Page.screencastFrame"@[0] != "DOM.shadowRootPushed"@[0]);
        reveal_strlit("DOM.inlineStyleInvalidated");
        assert("Page.screencastFrame"@.len() != "DOM.inlineStyleInvalidated"@.len());
        reveal_strlit("DOM.childNodeCountUpdated");
        assert("Page.screencastFrame"@.len() != "DOM.childNodeCountUpdated"@.len());
        reveal_strlit("DOM.characterDataModified");
        assert("Page.screencastFrame"@.len() != "DOM.characterDataModified"@.len());
        reveal_strlit("DOM.attributeRemoved");
        assert("Page.screencastFrame"@[0] != "DOM.attributeRemoved"@[0]);
        reveal_strlit("DOM.attributeModified");
        assert("Page.screencastFrame"@.len() != "DOM.attributeModified"@.len());
        reveal_strlit("DOM.childNodeRemoved");
        assert("Page.screencastFrame"@[0] != "DOM.childNodeRemoved"@[0]);
        reveal_strlit("DOM.childNodeInserted");
        assert("Page.screencastFrame"@.len() != "DOM.childNodeInserted"@.len());
        reveal_strlit("DOM.setChildNodes");
        assert("Page.screencastFrame"@.len() != "DOM.setChildNodes"@.len());
        reveal_strlit("DOM.documentUpdated");
        assert("Page.screencastFrame"@.len() != "DOM.documentUpdated"@.len());
    }
    assert(method_kind("Network.requestWillBeSent"@) == Some(SensorMethod::RequestWillBeSent)) by {
        reveal_strlit("Network.requestWillBeSent");
        reveal_strlit("Page.screencastFrame");
        assert("Network.requestWillBeSent"@.len() != "Page.screencastFrame"@.len());
        reveal_strlit("Page.frameResized");
        assert("Network.requestWillBeSent"@.len() != "Page.frameResized"@.len());
        reveal_strlit("Page.navigatedWithinDocument");
        assert("Network.requestWillBeSent"@.len() != "Page.navigatedWithinDocument"@.len());
        reveal_strlit("Page.frameStoppedLoading");
        assert("Network.requestWillBeSent"@.len() != "Page.frameStoppedLoading"@.len());
        reveal_strlit("Page.frameStartedLoading");
        assert("Network.requestWillBeSent"@.len() != "Page.frameStartedLoading"@.len());
        reveal_strlit("Page.frameNavigated");
        assert("Network.requestWillBeSent"@.len() != "Page.frameNavigated"@.len());
        reveal_strlit("Page.lifecycleEvent");
        assert("Network.requestWillBeSent"@.len() != "Page.lifecycleEvent"@.len());
        reveal_strlit("DOM.pseudoElementRemoved");
        assert("Network.requestWillBeSent"@.len() != "DOM.pseudoElementRemoved"@.len());
        reveal_strlit("DOM.pseudoElementAdded");
        assert("Network.requestWillBeSent"@.len() != "DOM.pseudoElementAdded"@.len());
        reveal_strlit("DOM.shadowRootPopped");
        assert("Network.requestWillBeSent"@.len() != "DOM.shadowRootPopped"@.len());
        reveal_strlit("DOM.shadowRootPushed");
        assert("Network.requestWillBeSent"@.len() != "DOM.shadowRootPushed"@.len());
        reveal_strlit("DOM.inlineStyleInvalidated");
        assert("Network.requestWillBeSent"@.len() != "DOM.inlineStyleInvalidated"@.len());
        reveal_strlit("DOM.childNodeCountUpdated");
        assert("Network.requestWillBeSent"@[0] != "DOM.childNodeCountUpdated"@[0]);
        reveal_strlit("DOM.characterDataModified");
        assert("Network.requestWillBeSent"@[0] != "DOM.characterDataModified"@[0]);
        reveal_strlit("DOM.attributeRemoved");
        assert("Network.requestWillBeSent"@.len() != "DOM.attributeRemoved"@.len());
        reveal_strlit("DOM.attributeModified");
        assert("Network.requestWillBeSent"@.len() != "DOM.attributeModified"@.len());
        reveal_strlit("DOM.childNodeRemoved");
        assert("Network.requestWillBeSent"@.len() != "DOM.childNodeRemoved"@.len());
        reveal_strlit("DOM.childNodeInserted");
        assert("Network.requestWillBeSent"@.len() != "DOM.childNodeInserted"@.len());
        reveal_strlit("DOM.setChildNodes");
        assert("Network.requestWillBeSent"@.len() != "DOM.setChildNodes"@.len());
        reveal_strlit("DOM.documentUpdated");
        assert("Network.requestWillBeSent"@.len() != "DOM.documentUpdated"@.len());
    }
    assert(method_kind("Network.responseReceived"@) == Some(SensorMethod::ResponseReceived)) by {
        reveal_strlit("Network.responseReceived");
        reveal_strlit("Network.requestWillBeSent");
        assert("Network.responseReceived"@.len() != "Network.requestWillBeSent"@.len());
        reveal_strlit("Page.screencastFrame");
        assert("Network.responseReceived"@.len() != "Page.screencastFrame"@.len());
        reveal_strlit("Page.frameResized");
        assert("Network.responseReceived"@.len() != "Page.frameResized"@.len());
        reveal_strlit("Page.navigatedWithinDocument");
        assert("Network.responseReceived"@.len() != "Page.navigatedWithinDocument"@.len());
        reveal_strlit("Page.frameStoppedLoading");
        assert("Network.responseReceived"@[0] != "Page.frameStoppedLoading"@[0]);
        reveal_strlit("Page.frameStartedLoading");
        assert("Network.responseReceived"@[0] != "Page.frameStartedLoading"@[0]);
        reveal_strlit("Page.frameNavigated");
        assert("Network.responseReceived"@.len() != "Page.frameNavigated"@.len());
        reveal_strlit("Page.lifecycleEvent");
        assert("Network.responseReceived"@.len() != "Page.lifecycleEvent"@.len());
        reveal_strlit("DOM.pseudoElementRemoved");
        assert("Network.responseReceived"@[0] != "DOM.pseudoElementRemoved"@[0]);
        reveal_strlit("DOM.pseudoElementAdded");
        assert("Network.responseReceived"@.len() != "DOM.pseudoElementAdded"@.len());
        reveal_strlit("DOM.shadowRootPopped");
        assert("Network.responseReceived"@.len() != "DOM.shadowRootPopped"@.len());
        reveal_strlit("DOM.shadowRootPushed");
        assert("Network.responseReceived"@.len() != "DOM.shadowRootPushed"@.len());
        reveal_strlit("DOM.inlineStyleInvalidated");
        assert("Network.responseReceived"@.len() != "DOM.inlineStyleInvalidated"@.len());
        reveal_strlit("DOM.childNodeCountUpdated");
        assert("Network.responseReceived"@.len() != "DOM.childNodeCountUpdated"@.len());
        reveal_strlit("DOM.characterDataModified");
        assert("Network.responseReceived"@.len() != "DOM.characterDataModified"@.len());
        reveal_strlit("DOM.attributeRemoved");
        assert("Network.responseReceived"@.len() != "DOM.attributeRemoved"@.len());
        reveal_strlit("DOM.attributeModified");
        assert("Network.responseReceived"@.len() != "DOM.attributeModified"@.len());
        reveal_strlit("DOM.childNodeRemoved");
        assert("Network.responseReceived"@.len() != "DOM.childNodeRemoved"@.len());
        reveal_strlit("DOM.childNodeInserted");
        assert("Network.responseReceived"@.len() != "DOM.childNodeInserted"@.len());
        reveal_strlit("DOM.setChildNodes");
        assert("Network.responseReceived"@.len() != "DOM.setChildNodes"@.len());
        reveal_strlit("DOM.documentUpdated");
        assert("Network.responseReceived"@.len() != "DOM.documentUpdated"@.len());
    }
    assert(method_kind("Network.loadingFinished"@) == Some(SensorMethod::LoadingFinished)) by {
        reveal_strlit("Network.loadingFinished");
        reveal_strlit("Network.responseReceived");
        assert("Network.loadingFinished"@.len() != "Network.responseReceived"@.len());
        reveal_strlit("Network.requestWillBeSent");
        assert("Network.loadingFinished"@.len() != "Network.requestWillBeSent"@.len());
        reveal_strlit("Page.screencastFrame");
        assert("Network.loadingFinished"@.len() != "Page.screencastFrame"@.len());
        reveal_strlit("Page.frameResized");
        assert("Network.loadingFinished"@.len() != "Page.frameResized"@.len());
        reveal_strlit("Page.navigatedWithinDocument");
        assert("Network.loadingFinished"@.len() != "Page.navigatedWithinDocument"@.len());
        reveal_strlit("Page.frameStoppedLoading");
        assert("Network.loadingFinished"@.len() != "Page.frameStoppedLoading"@.len());
        reveal_strlit("Page.frameStartedLoading");
        assert("Network.loadingFinished"@.len() != "Page.frameStartedLoading"@.len());
        reveal_strlit("Page.frameNavigated");
        assert("Network.loadingFinished"@.len() != "Page.frameNavigated"@.len());
        reveal_strlit("Page.lifecycleEvent");
        assert("Network.loadingFinished"@.len() != "Page.lifecycleEvent"@.len());
        reveal_strlit("DOM.pseudoElementRemoved");
        assert("Network.loadingFinished"@.len() != "DOM.pseudoElementRemoved"@.len());
        reveal_strlit("DOM.pseudoElementAdded");
        assert("Network.loadingFinished"@.len() != "DOM.pseudoElementAdded"@.len());
        reveal_strlit("DOM.shadowRootPopped");
        assert("Network.loadingFinished"@.len() != "DOM.shadowRootPopped"@.len());
        reveal_strlit("DOM.shadowRootPushed");
        assert("Network.loadingFinished"@.len() != "DOM.shadowRootPushed"@.len());
        reveal_strlit("DOM.inlineStyleInvalidated");
        assert("Network.loadingFinished"@.len() != "DOM.inlineStyleInvalidated"@.len());
        reveal_strlit("DOM.childNodeCountUpdated");
        assert("Network.loadingFinished"@.len() != "DOM.childNodeCountUpdated"@.len());
        reveal_strlit("DOM.characterDataModified");
        assert("Network.loadingFinished"@.len() != "DOM.characterDataModified"@.len());
        reveal_strlit("DOM.attributeRemoved");
        assert("Network.loadingFinished"@.len() != "DOM.attributeRemoved"@.len());
        reveal_strlit("DOM.attributeModified");
        assert("Network.loadingFinished"@.len() != "DOM.attributeModified"@.len());
        reveal_strlit("DOM.childNodeRemoved");
        assert("Network.loadingFinished"@.len() != "DOM.childNodeRemoved"@.len());
        reveal_strlit("DOM.childNodeInserted");
        assert("Network.loadingFinished"@.len() != "DOM.childNodeInserted"@.len());
        reveal_strlit("DOM.setChildNodes");
        assert("Network.loadingFinished"@.len() != "DOM.setChildNodes"@.len());
        reveal_strlit("DOM.documentUpdated");
        assert("Network.loadingFinished"@.len() != "DOM.documentUpdated"@.len());
    }
    assert(method_kind("Network.loadingFailed"@) == Some(SensorMethod::LoadingFailed)) by {
        reveal_strlit("Network.loadingFailed");
        reveal_strlit("Network.loadingFinished");
        assert("Network.loadingFailed"@.len() != "Network.loadingFinished"@.len());
        reveal_strlit("Network.responseReceived");
        assert("Network.loadingFailed"@.len() != "Network.responseReceived"@.len());
        reveal_strlit("Network.requestWillBeSent");
        assert("Network.loadingFailed"@.len() != "Network.requestWillBeSent"@.len());
        reveal_strlit("Page.screencastFrame");
        assert("Network.loadingFailed"@.len() != "Page.screencastFrame"@.len());
        reveal_strlit("Page.frameResized");
        assert("Network.loadingFailed"@.len() != "Page.frameResized"@.len());
        reveal_strlit("Page.navigatedWithinDocument");
        assert("Network.loadingFailed"@.len() != "Page.navigatedWithinDocument"@.len());
        reveal_strlit("Page.frameStoppedLoading");
        assert("Network.loadingFailed"@.len() != "Page.frameStoppedLoading"@.len());
        reveal_strlit("Page.frameStartedLoading");
        assert("Network.loadingFailed"@.len() != "Page.frameStartedLoading"@.len());
        reveal_strlit("Page.frameNavigated");
        assert("Network.loadingFailed"@.len() != "Page.frameNavigated"@.len());
        reveal_strlit("Page.lifecycleEvent");
        assert("Network.loadingFailed"@.len() != "Page.lifecycleEvent"@.len());
        reveal_strlit("DOM.pseudoElementRemoved");
        assert("Network.loadingFailed"@.len() != "DOM.pseudoElementRemoved"@.len());
        reveal_strlit("DOM.pseudoElementAdded");
        assert("Network.loadingFailed"@.len() != "DOM.pseudoElementAdded"@.len());
        reveal_strlit("DOM.shadowRootPopped");
        assert("Network.loadingFailed"@.len() != "DOM.shadowRootPopped"@.len());
        reveal_strlit("DOM.shadowRootPushed");
        assert("Network.loadingFailed"@.len() != "DOM.shadowRootPushed"@.len());
        reveal_strlit("DOM.inlineStyleInvalidated");
        assert("Network.loadingFailed"@.len() != "DOM.inlineStyleInvalidated"@.len());
        reveal_strlit("DOM.childNodeCountUpdated");
        assert("Network.loadingFailed"@.len() != "DOM.childNodeCountUpdated"@.len());
        reveal_strlit("DOM.characterDataModified");
        assert("Network.loadingFailed"@.len() != "DOM.characterDataModified"@.len());
        reveal_strlit("DOM.attributeRemoved");
        assert("Network.loadingFailed"@.len() != "DOM.attributeRemoved"@.len());
        reveal_strlit("DOM.attributeModified");
        assert("Network.loadingFailed"@[0] != "DOM.attributeModified"@[0]);
        reveal_strlit("DOM.childNodeRemoved");
        assert("Network.loadingFailed"@.len() != "DOM.childNodeRemoved"@.len());
        reveal_strlit("DOM.childNodeInserted");
        assert("Network.loadingFailed"@[0] != "DOM.childNodeInserted"@[0]);
        reveal_strlit("DOM.setChildNodes");
        assert("Network.loadingFailed"@.len() != "DOM.setChildNodes"@.len());
        reveal_strlit("DOM.documentUpdated");
        assert("Network.loadingFailed"@.len() != "DOM.documentUpdated"@.len());
    }
    assert(method_kind("Network.webSocketCreated"@) == Some(SensorMethod::WebSocketCreated)) by {
        reveal_strlit("Network.webSocketCreated");
        reveal_strlit("Network.loadingFailed");
        assert("Network.webSocketCreated"@.len() != "Network.loadingFailed"@.len());
        reveal_strlit("Network.loadingFinished");
        assert("Network.webSocketCreated"@.len() != "Network.loadingFinished"@.len());
        reveal_strlit("Network.responseReceived");
        assert("Network.webSocketCreated"@[8] != "Network.responseReceived"@[8]);
        reveal_strlit("Network.requestWillBeSent");
        assert("Network.webSocketCreated"@.len() != "Network.requestWillBeSent"@.len());
        reveal_strlit("Page.screencastFrame");
        assert("Network.webSocketCreated"@.len() != "Page.screencastFrame"@.len());
        reveal_strlit("Page.frameResized");
        assert("Network.webSocketCreated"@.len() != "Page.frameResized"@.len());
        reveal_strlit("Page.navigatedWithinDocument");
        assert("Network.webSocketCreated"@.len() != "Page.navigatedWithinDocument"@.len());
        reveal_strlit("Page.frameStoppedLoading");
        assert("Network.webSocketCreated"@[0] != "Page.frameStoppedLoading"@[0]);
        reveal_strlit("Page.frameStartedLoading");
        assert("Network.webSocketCreated"@[0] != "Page.frameStartedLoading"@[0]);
        reveal_strlit("Page.frameNavigated");
        assert("Network.webSocketCreated"@.len() != "Page.frameNavigated"@.len());
        reveal_strlit("Page.lifecycleEvent");
        assert("Network.webSocketCreated"@.len() != "Page.lifecycleEvent"@.len());
        reveal_strlit("DOM.pseudoElementRemoved");
        assert("Network.webSocketCreated"@[0] != "DOM.pseudoElementRemoved"@[0]);
        reveal_strlit("DOM.pseudoElementAdded");
        assert("Network.webSocketCreated"@.len() != "DOM.pseudoElementAdded"@.len());
        reveal_strlit("DOM.shadowRootPopped");
        assert("Network.webSocketCreated"@.len() != "DOM.shadowRootPopped"@.len());
        reveal_strlit("DOM.shadowRootPushed");
        assert("Network.webSocketCreated"@.len() != "DOM.shadowRootPushed"@.len());
        reveal_strlit("DOM.inlineStyleInvalidated");
        assert("Network.webSocketCreated"@.len() != "DOM.inlineStyleInvalidated"@.len());
        reveal_strlit("DOM.childNodeCountUpdated");
        assert("Network.webSocketCreated"@.len() != "DOM.childNodeCountUpdated"@.len());
        reveal_strlit("DOM.characterDataModified");
        assert("Network.webSocketCreated"@.len() != "DOM.characterDataModified"@.len());
        reveal_strlit("DOM.attributeRemoved");
        assert("Network.webSocketCreated"@.len() != "DOM.attributeRemoved"@.len());
        reveal_strlit("DOM.attributeModified");
        assert("Network.webSocketCreated"@.len() != "DOM.attributeModified"@.len());
        reveal_strlit("DOM.childNodeRemoved");
        assert("Network.webSocketCreated"@.len() != "DOM.childNodeRemoved"@.len());
        reveal_strlit("DOM.childNodeInserted");
        assert("Network.webSocketCreated"@.len() != "DOM.childNodeInserted"@.len());
        reveal_strlit("DOM.setChildNodes");
        assert("Network.webSocketCreated"@.len() != "DOM.setChildNodes"@.len());
        reveal_strlit("DOM.documentUpdated");
        assert("Network.webSocketCreated"@.len() != "DOM.documentUpdated"@.len());
    }
    assert(method_kind("Network.webSocketClosed"@) == Some(SensorMethod::WebSocketClosed)) by {
        reveal_strlit("Network.webSocketClosed");
        reveal_strlit("Network.webSocketCreated");
        assert("Network.webSocketClosed"@.len() != "Network.webSocketCreated"@.len());
        reveal_strlit("Network.loadingFailed");
        assert("Network.webSocketClosed"@.len() != "Network.loadingFailed"@.len());
        reveal_strlit("Network.loadingFinished");
        assert("Network.webSocketClosed"@[8] != "Network.loadingFinished"@[8]);
        reveal_strlit("Network.responseReceived");
        assert("Network.webSocketClosed"@.len() != "Network.responseReceived"@.len());
        reveal_strlit("Network.requestWillBeSent");
        assert("Network.webSocketClosed"@.len() != "Network.requestWillBeSent"@.len());
        reveal_strlit("Page.screencastFrame");
        assert("Network.webSocketClosed"@.len() != "Page.screencastFrame"@.len());
        reveal_strlit("Page.frameResized");
        assert("Network.webSocketClosed"@.len() != "Page.frameResized"@.len());
        reveal_strlit("Page.navigatedWithinDocument");
        assert("Network.webSocketClosed"@.len() != "Page.navigatedWithinDocument"@.len());
        reveal_strlit("Page.frameStoppedLoading");
        assert("Network.webSocketClosed"@.len() != "Page.frameStoppedLoading"@.len());
        reveal_strlit("Page.frameStartedLoading");
        assert("Network.webSocketClosed"@.len() != "Page.frameStartedLoading"@.len());
        reveal_strlit("Page.frameNavigated");
        assert("Network.webSocketClosed"@.len() != "Page.frameNavigated"@.len());
        reveal_strlit("Page.lifecycleEvent");
        assert("Network.webSocketClosed"@.len() != "Page.lifecycleEvent"@.len());
        reveal_strlit("DOM.pseudoElementRemoved");
        assert("Network.webSocketClosed"@.len() != "DOM.pseudoElementRemoved"@.len());
        reveal_strlit("DOM.pseudoElementAdded");
        assert("Network.webSocketClosed"@.len() != "DOM.pseudoElementAdded"@.len());
        reveal_strlit("DOM.shadowRootPopped");
        assert("Network.webSocketClosed"@.len() != "DOM.shadowRootPopped"@.len());
        reveal_strlit("DOM.shadowRootPushed");
        assert("Network.webSocketClosed"@.len() != "DOM.shadowRootPushed"@.len());
        reveal_strlit("DOM.inlineStyleInvalidated");
        assert("Network.webSocketClosed"@.len() != "DOM.inlineStyleInvalidated"@.len());
        reveal_strlit("DOM.childNodeCountUpdated");
        assert("Network.webSocketClosed"@.len() != "DOM.childNodeCountUpdated"@.len());
        reveal_strlit("DOM.characterDataModified");
        assert("Network.webSocketClosed"@.len() != "DOM.characterDataModified"@.len());
        reveal_strlit("DOM.attributeRemoved");
        assert("Network.webSocketClosed"@.len() != "DOM.attributeRemoved"@.len());
        reveal_strlit("DOM.attributeModified");
        assert("Network.webSocketClosed"@.len() != "DOM.attributeModified"@.len());
        reveal_strlit("DOM.childNodeRemoved");
        assert("Network.webSocketClosed"@.len() != "DOM.childNodeRemoved"@.len());
        reveal_strlit("DOM.childNodeInserted");
        assert("Network.webSocketClosed"@.len() != "DOM.childNodeInserted"@.len());
        reveal_strlit("DOM.setChildNodes");
        assert("Network.webSocketClosed"@.len() != "DOM.setChildNodes"@.len());
        reveal_strlit("DOM.documentUpdated");
        assert("Network.webSocketClosed"@.len() != "DOM.documentUpdated"@.len());
    }
    assert(method_kind("Runtime.consoleAPICalled"@) == Some(SensorMethod::ConsoleApiCalled)) by {
        reveal_strlit("Runtime.consoleAPICalled");
        reveal_strlit("Network.webSocketClosed");
        assert("Runtime.consoleAPICalled"@.len() != "Network.webSocketClosed"@.len());
        reveal_strlit("Network.webSocketCreated");
        assert("Runtime.consoleAPICalled"@[0] != "Network.webSocketCreated"@[0]);
        reveal_strlit("Network.loadingFailed");
        assert("Runtime.consoleAPICalled"@.len() != "Network.loadingFailed"@.len());
        reveal_strlit("Network.loadingFinished");
        assert("Runtime.consoleAPICalled"@.len() != "Network.loadingFinished"@.len());
        reveal_strlit("Network.responseReceived");
        assert("Runtime.consoleAPICalled"@[0] != "Network.responseReceived"@[0]);
        reveal_strlit("Network.requestWillBeSent");
        assert("Runtime.consoleAPICalled"@.len() != "Network.requestWillBeSent"@.len());
        reveal_strlit("Page.screencastFrame");
        assert("Runtime.consoleAPICalled"@.len() != "Page.screencastFrame"@.len());
        reveal_strlit("Page.frameResized");
        assert("Runtime.consoleAPICalled"@.len() != "Page.frameResized"@.len());
        reveal_strlit("Page.navigatedWithinDocument");
        assert("Runtime.consoleAPICalled"@.len() != "Page.navigatedWithinDocument"@.len());
        reveal_strlit("Page.frameStoppedLoading");
        assert("Runtime.consoleAPICalled"@[0] != "Page.frameStoppedLoading"@[0]);
        reveal_strlit("Page.frameStartedLoading");
        assert("Runtime.consoleAPICalled"@[0] != "Page.frameStartedLoading"@[0]);
        reveal_strlit("Page.frameNavigated");
        assert("Runtime.consoleAPICalled"@.len() != "Page.frameNavigated"@.len());
        reveal_strlit("Page.lifecycleEvent");
        assert("Runtime.consoleAPICalled"@.len() != "Page.lifecycleEvent"@.len());
        reveal_strlit("DOM.pseudoElementRemoved");
        assert("Runtime.consoleAPICalled"@[0] != "DOM.pseudoElementRemoved"@[0]);
        reveal_strlit("DOM.pseudoElementAdded");
        assert("Runtime.consoleAPICalled"@.len() != "DOM.pseudoElementAdded"@.len());
        reveal_strlit("DOM.shadowRootPopped");
        assert("Runtime.consoleAPICalled"@.len() != "DOM.shadowRootPopped"@.len());
        reveal_strlit("DOM.shadowRootPushed");
        assert("Runtime.consoleAPICalled"@.len() != "DOM.shadowRootPushed"@.len());
        reveal_strlit("DOM.inlineStyleInvalidated");
        assert("Runtime.consoleAPICalled"@.len() != "DOM.inlineStyleInvalidated"@.len());
        reveal_strlit("DOM.childNodeCountUpdated");
        assert("Runtime.consoleAPICalled"@.len() != "DOM.childNodeCountUpdated"@.len());
        reveal_strlit("DOM.characterDataModified");
        assert("Runtime.consoleAPICalled"@.len() != "DOM.characterDataModified"@.len());
        reveal_strlit("DOM.attributeRemoved");
        assert("Runtime.consoleAPICalled"@.len() != "DOM.attributeRemoved"@.len());
        reveal_strlit("DOM.attributeModified");
        assert("Runtime.consoleAPICalled"@.len() != "DOM.attributeModified"@.len());
        reveal_strlit("DOM.childNodeRemoved");
        assert("Runtime.consoleAPICalled"@.len() != "DOM.childNodeRemoved"@.len());
        reveal_strlit("DOM.childNodeInserted");
        assert("Runtime.consoleAPICalled"@.len() != "DOM.childNodeInserted"@.len());
        reveal_strlit("DOM.setChildNodes");
        assert("Runtime.consoleAPICalled"@.len() != "DOM.setChildNodes"@.len());
        reveal_strlit("DOM.documentUpdated");
        assert("Runtime.consoleAPICalled"@.len() != "DOM.documentUpdated"@.len());
    }
    assert(method_kind("Runtime.exceptionThrown"@) == Some(SensorMethod::ExceptionThrown)) by {
        reveal_strlit("Runtime.exceptionThrown");
        reveal_strlit("Runtime.consoleAPICalled");
        assert("Runtime.exceptionThrown"@.len() != "Runtime.consoleAPICalled"@.len());
        reveal_strlit("Network.webSocketClosed");
        assert("Runtime.exceptionThrown"@[0] != "Network.webSocketClosed"@[0]);
        reveal_strlit("Network.webSocketCreated");
        assert("Runtime.exceptionThrown"@.len() != "Network.webSocketCreated"@.len());
        reveal_strlit("Network.loadingFailed");
        assert("Runtime.exceptionThrown"@.len() != "Network.loadingFailed"@.len());
        reveal_strlit("Network.loadingFinished");
        assert("Runtime.exceptionThrown"@[0] != "Network.loadingFinished"@[0]);
        reveal_strlit("Network.responseReceived");
        assert("Runtime.exceptionThrown"@.len() != "Network.responseReceived"@.len());
        reveal_strlit("Network.requestWillBeSent");
        assert("Runtime.exceptionThrown"@.len() != "Network.requestWillBeSent"@.len());
        reveal_strlit("Page.screencastFrame");
        assert("Runtime.exceptionThrown"@.len() != "Page.screencastFrame"@.len());
        reveal_strlit("Page.frameResized");
        assert("Runtime.exceptionThrown"@.len() != "Page.frameResized"@.len());
        reveal_strlit("Page.navigatedWithinDocument");
        assert("Runtime.exceptionThrown"@.len() != "Page.navigatedWithinDocument"@.len());
        reveal_strlit("Page.frameStoppedLoading");
        assert("Runtime.exceptionThrown"@.len() != "Page.frameStoppedLoading"@.len());
        reveal_strlit("Page.frameStartedLoading");
        assert("Runtime.exceptionThrown"@.len() != "Page.frameStartedLoading"@.len());
        reveal_strlit("Page.frameNavigated");
        assert("Runtime.exceptionThrown"@.len() != "Page.frameNavigated"@.len());
        reveal_strlit("Page.lifecycleEvent");
        assert("Runtime.exceptionThrown"@.len() != "Page.lifecycleEvent"@.len());
        reveal_strlit("DOM.pseudoElementRemoved");
        assert("Runtime.exceptionThrown"@.len() != "DOM.pseudoElementRemoved"@.len());
        reveal_strlit("DOM.pseudoElementAdded");
        assert("Runtime.exceptionThrown"@.len() != "DOM.pseudoElementAdded"@.len());
        reveal_strlit("DOM.shadowRootPopped");
        assert("Runtime.exceptionThrown"@.len() != "DOM.shadowRootPopped"@.len());
        reveal_strlit("DOM.shadowRootPushed");
        assert("Runtime.exceptionThrown"@.len() != "DOM.shadowRootPushed"@.len());
        reveal_strlit("DOM.inlineStyleInvalidated");
        assert("Runtime.exceptionThrown"@.len() != "DOM.inlineStyleInvalidated"@.len());
        reveal_strlit("DOM.childNodeCountUpdated");
        assert("Runtime.exceptionThrown"@.len() != "DOM.childNodeCountUpdated"@.len());
        reveal_strlit("DOM.characterDataModified");
        assert("Runtime.exceptionThrown"@.len() != "DOM.characterDataModified"@.len());
        reveal_strlit("DOM.attributeRemoved");
        assert("Runtime.exceptionThrown"@.len() != "DOM.attributeRemoved"@.len());
        reveal_strlit("DOM.attributeModified");
        assert("Runtime.exceptionThrown"@.len() != "DOM.attributeModified"@.len());
        reveal_strlit("DOM.childNodeRemoved");
        assert("Runtime.exceptionThrown"@.len() != "DOM.childNodeRemoved"@.len());
        reveal_strlit("DOM.childNodeInserted");
        assert("Runtime.exceptionThrown"@.len() != "DOM.childNodeInserted"@.len());
        reveal_strlit("DOM.setChildNodes");
        assert("Runtime.exceptionThrown"@.len() != "DOM.setChildNodes"@.len());
        reveal_strlit("DOM.documentUpdated");
        assert("Runtime.exceptionThrown"@.len() != "DOM.documentUpdated"@.len());
    }
    assert(method_kind("Log.entryAdded"@) == Some(SensorMethod::LogEntryAdded)) by {
        reveal_strlit("Log.entryAdded");
        reveal_strlit("Runtime.exceptionThrown");
        assert("Log.entryAdded"@.len() != "Runtime.exceptionThrown"@.len());
        reveal_strlit("Runtime.consoleAPICalled");
        assert("Log.entryAdded"@.len() != "Runtime.consoleAPICalled"@.len());
        reveal_strlit("Network.webSocketClosed");
        assert("Log.entryAdded"@.len() != "Network.webSocketClosed"@.len());
        reveal_strlit("Network.webSocketCreated");
        assert("Log.entryAdded"@.len() != "Network.webSocketCreated"@.len());
        reveal_strlit("Network.loadingFailed");
        assert("Log.entryAdded"@.len() != "Network.loadingFailed"@.len());
        reveal_strlit("Network.loadingFinished");
        assert("Log.entryAdded"@.len() != "Network.loadingFinished"@.len());
        reveal_strlit("Network.responseReceived");
        assert("Log.entryAdded"@.len() != "Network.responseReceived"@.len());
        reveal_strlit("Network.requestWillBeSent");
        assert("Log.entryAdded"@.len() != "Network.requestWillBeSent"@.len());
        reveal_strlit("Page.screencastFrame");
        assert("Log.entryAdded"@.len() != "Page.screencastFrame"@.len());
        reveal_strlit("Page.frameResized");
        assert("Log.entryAdded"@.len() != "Page.frameResized"@.len());
        reveal_strlit("Page.navigatedWithinDocument");
        assert("Log.entryAdded"@.len() != "Page.navigatedWithinDocument"@.len());
        reveal_strlit("Page.frameStoppedLoading");
        assert("Log.entryAdded"@.len() != "Page.frameStoppedLoading"@.len());
        reveal_strlit("Page.frameStartedLoading");
        assert("Log.entryAdded"@.len() != "Page.frameStartedLoading"@.len());
        reveal_strlit("Page.frameNavigated");
        assert("Log.entryAdded"@.len() != "Page.frameNavigated"@.len());
        reveal_strlit("Page.lifecycleEvent");
        assert("Log.entryAdded"@.len() != "Page.lifecycleEvent"@.len());
        reveal_strlit("DOM.pseudoElementRemoved");
        assert("Log.entryAdded"@.len() != "DOM.pseudoElementRemoved"@.len());
        reveal_strlit("DOM.pseudoElementAdded");
        assert("Log.entryAdded"@.len() != "DOM.pseudoElementAdded"@.len());
        reveal_strlit("DOM.shadowRootPopped");
        assert("Log.entryAdded"@.len() != "DOM.shadowRootPopped"@.len());
        reveal_strlit("DOM.shadowRootPushed");
        assert("Log.entryAdded"@.len() != "DOM.shadowRootPushed"@.len());
        reveal_strlit("DOM.inlineStyleInvalidated");
        assert("Log.entryAdded"@.len() != "DOM.inlineStyleInvalidated"@.len());
        reveal_strlit("DOM.childNodeCountUpdated");
        assert("Log.entryAdded"@.len() != "DOM.childNodeCountUpdated"@.len());
        reveal_strlit("DOM.characterDataModified");
        assert("Log.entryAdded"@.len() != "DOM.characterDataModified"@.len());
        reveal_strlit("DOM.attributeRemoved");
        assert("Log.entryAdded"@.len() != "DOM.attributeRemoved"@.len());
        reveal_strlit("DOM.attributeModified");
        assert("Log.entryAdded"@.len() != "DOM.attributeModified"@.len());
        reveal_strlit("DOM.childNodeRemoved");
        assert("Log.entryAdded"@.len() != "DOM.childNodeRemoved"@.len());
        reveal_strlit("DOM.childNodeInserted");
        assert("Log.entryAdded"@.len() != "DOM.childNodeInserted"@.len());
        reveal_strlit("DOM.setChildNodes");
        assert("Log.entryAdded"@.len() != "DOM.setChildNodes"@.len());
        reveal_strlit("DOM.documentUpdated");
        assert("Log.entryAdded"@.len() != "DOM.documentUpdated"@.len());
    }
    assert(method_kind("Animation.animationStarted"@) == Some(SensorMethod::AnimationStarted)) by {
        reveal_strlit("Animation.animationStarted");
        reveal_strlit("Log.entryAdded");
        assert("Animation.animationStarted"@.len() != "Log.entryAdded"@.len());
        reveal_strlit("Runtime.exceptionThrown");
        assert("Animation.animationStarted"@.len() != "Runtime.exceptionThrown"@.len());
        reveal_strlit("Runtime.consoleAPICalled");
        assert("Animation.animationStarted"@.len() != "Runtime.consoleAPICalled"@.len());
        reveal_strlit("Network.webSocketClosed");
        assert("Animation.animationStarted"@.len() != "Network.webSocketClosed"@.len());
        reveal_strlit("Network.webSocketCreated");
        assert("Animation.animationStarted"@.len() != "Network.webSocketCreated"@.len());
        reveal_strlit("Network.loadingFailed");
        assert("Animation.animationStarted"@.len() != "Network.loadingFailed"@.len());
        reveal_strlit("Network.loadingFinished");
        assert("Animation.animationStarted"@.len() != "Network.loadingFinished"@.len());
        reveal_strlit("Network.responseReceived");
        assert("Animation.animationStarted"@.len() != "Network.responseReceived"@.len());
        reveal_strlit("Network.requestWillBeSent");
        assert("Animation.animationStarted"@.len() != "Network.requestWillBeSent"@.len());
        reveal_strlit("Page.screencastFrame");
        assert("Animation.animationStarted"@.len() != "Page.screencastFrame"@.len());
        reveal_strlit("Page.frameResized");
        assert("Animation.animationStarted"@.len() != "Page.frameResized"@.len());
        reveal_strlit("Page.navigatedWithinDocument");
        assert("Animation.animationStarted"@.len() != "Page.navigatedWithinDocument"@.len());
        reveal_strlit("Page.frameStoppedLoading");
        assert("Animation.animationStarted"@.len() != "Page.frameStoppedLoading"@.len());
        reveal_strlit("Page.frameStartedLoading");
        assert("Animation.animationStarted"@.len() != "Page.frameStartedLoading"@.len());
        reveal_strlit("Page.frameNavigated");
        assert("Animation.animationStarted"@.len() != "Page.frameNavigated"@.len());
        reveal_strlit("Page.lifecycleEvent");
        assert("Animation.animationStarted"@.len() != "Page.lifecycleEvent"@.len());
        reveal_strlit("DOM.pseudoElementRemoved");
        assert("Animation.animationStarted"@.len() != "DOM.pseudoElementRemoved"@.len());
        reveal_strlit("DOM.pseudoElementAdded");
        assert("Animation.animationStarted"@.len() != "DOM.pseudoElementAdded"@.len());
        reveal_strlit("DOM.shadowRootPopped");
        assert("Animation.animationStarted"@.len() != "DOM.shadowRootPopped"@.len());
        reveal_strlit("DOM.shadowRootPushed");
        assert("Animation.animationStarted"@.len() != "DOM.shadowRootPushed"@.len());
        reveal_strlit("DOM.inlineStyleInvalidated");
        assert("Animation.animationStarted"@[0] != "DOM.inlineStyleInvalidated"@[0]);
        reveal_strlit("DOM.childNodeCountUpdated");
        assert("Animation.animationStarted"@.len() != "DOM.childNodeCountUpdated"@.len());
        reveal_strlit("DOM.characterDataModified");
        assert("Animation.animationStarted"@.len() != "DOM.characterDataModified"@.len());
        reveal_strlit("DOM.attributeRemoved");
        assert("Animation.animationStarted"@.len() != "DOM.attributeRemoved"@.len());
        reveal_strlit("DOM.attributeModified");
        assert("Animation.animationStarted"@.len() != "DOM.attributeModified"@.len());
        reveal_strlit("DOM.childNodeRemoved");
        assert("Animation.animationStarted"@.len() != "DOM.childNodeRemoved"@.len());
        reveal_strlit("DOM.childNodeInserted");
        assert("Animation.animationStarted"@.len() != "DOM.childNodeInserted"@.len());
        reveal_strlit("DOM.setChildNodes");
        assert("Animation.animationStarted"@.len() != "DOM.setChildNodes"@.len());
        reveal_strlit("DOM.documentUpdated");
        assert("Animation.animationStarted"@.len() != "DOM.documentUpdated"@.len());
    }
    assert(method_kind("Animation.animationCanceled"@) == Some(SensorMethod::AnimationCanceled)) by {
        reveal_strlit("Animation.animationCanceled");
        reveal_strlit("Animation.animationStarted");
        assert("Animation.animationCanceled"@.len() != "Animation.animationStarted"@.len());
        reveal_strlit("Log.entryAdded");
        assert("Animation.animationCanceled"@.len() != "Log.entryAdded"@.len());
        reveal_strlit("Runtime.exceptionThrown");
        assert("Animation.animationCanceled"@.len() != "Runtime.exceptionThrown"@.len());
        reveal_strlit("Runtime.consoleAPICalled");
        assert("Animation.animationCanceled"@.len() != "Runtime.consoleAPICalled"@.len());
        reveal_strlit("Network.webSocketClosed");
        assert("Animation.animationCanceled"@.len() != "Network.webSocketClosed"@.len());
        reveal_strlit("Network.webSocketCreated");
        assert("Animation.animationCanceled"@.len() != "Network.webSocketCreated"@.len());
        reveal_strlit("Network.loadingFailed");
        assert("Animation.animationCanceled"@.len() != "Network.loadingFailed"@.len());
        reveal_strlit("Network.loadingFinished");
        assert("Animation.animationCanceled"@.len() != "Network.loadingFinished"@.len());
        reveal_strlit("Network.responseReceived");
        assert("Animation.animationCanceled"@.len() != "Network.responseReceived"@.len());
        reveal_strlit("Network.requestWillBeSent");
        assert("Animation.animationCanceled"@.len() != "Network.requestWillBeSent"@.len());
        reveal_strlit("Page.screencastFrame");
        assert("Animation.animationCanceled"@.len() != "Page.screencastFrame"@.len());
        reveal_strlit("Page.frameResized");
        assert("Animation.animationCanceled"@.len() != "Page.frameResized"@.len());
        reveal_strlit("Page.navigatedWithinDocument");
        assert("Animation.animationCanceled"@.len() != "Page.navigatedWithinDocument"@.len());
        reveal_strlit("Page.frameStoppedLoading");
        assert("Animation.animationCanceled"@.len() != "Page.frameStoppedLoading"@.len());
        reveal_strlit("Page.frameStartedLoading");
        assert("Animation.animationCanceled"@.len() != "Page.frameStartedLoading"@.len());
        reveal_strlit("Page.frameNavigated");
        assert("Animation.animationCanceled"@.len() != "Page.frameNavigated"@.len());
        reveal_strlit("Page.lifecycleEvent");
        assert("Animation.animationCanceled"@.len() != "Page.lifecycleEvent"@.len());
        reveal_strlit("DOM.pseudoElementRemoved");
        assert("Animation.animationCanceled"@.len() != "DOM.pseudoElementRemoved"@.len());
        reveal_strlit("DOM.pseudoElementAdded");
        assert("Animation.animationCanceled"@.len() != "DOM.pseudoElementAdded"@.len());
        reveal_strlit("DOM.shadowRootPopped");
        assert("Animation.animationCanceled"@.len() != "DOM.shadowRootPopped"@.len());
        reveal_strlit("DOM.shadowRootPushed");
        assert("Animation.animationCanceled"@.len() != "DOM.shadowRootPushed"@.len());
        reveal_strlit("DOM.inlineStyleInvalidated");
        assert("Animation.animationCanceled"@.len() != "DOM.inlineStyleInvalidated"@.len());
        reveal_strlit("DOM.childNodeCountUpdated");
        assert("Animation.animationCanceled"@.len() != "DOM.childNodeCountUpdated"@.len());
        reveal_strlit("DOM.characterDataModified");
        assert("Animation.animationCanceled"@.len() != "DOM.characterDataModified"@.len());
        reveal_strlit("DOM.attributeRemoved");
        assert("Animation.animationCanceled"@.len() != "DOM.attributeRemoved"@.len());
        reveal_strlit("DOM.attributeModified");
        assert("Animation.animationCanceled"@.len() != "DOM.attributeModified"@.len());
        reveal_strlit("DOM.childNodeRemoved");
        assert("Animation.animationCanceled"@.len() != "DOM.childNodeRemoved"@.len());
        reveal_strlit("DOM.childNodeInserted");
        assert("Animation.animationCanceled"@.len() != "DOM.childNodeInserted"@.len());
        reveal_strlit("DOM.setChildNodes");
        assert("Animation.animationCanceled"@.len() != "DOM.setChildNodes"@.len());
        reveal_strlit("DOM.documentUpdated");
        assert("Animation.animationCanceled"@.len() != "DOM.documentUpdated"@.len());
    }
    assert(method_kind("Performance.metrics"@) == Some(SensorMethod::PerformanceMetrics)) by {
        reveal_strlit("Performance.metrics");
        reveal_strlit("Animation.animationCanceled");
        assert("Performance.metrics"@.len() != "Animation.animationCanceled"@.len());
        reveal_strlit("Animation.animationStarted");
        assert("Performance.metrics"@.len() != "Animation.animationStarted"@.len());
        reveal_strlit("Log.entryAdded");
        assert("Performance.metrics"@.len() != "Log.entryAdded"@.len());
        reveal_strlit("Runtime.exceptionThrown");
        assert("Performance.metrics"@.len() != "Runtime.exceptionThrown"@.len());
        reveal_strlit("Runtime.consoleAPICalled");
        assert("Performance.metrics"@.len() != "Runtime.consoleAPICalled"@.len());
        reveal_strlit("Network.webSocketClosed");
        assert("Performance.metrics"@.len() != "Network.webSocketClosed"@.len());
        reveal_strlit("Network.webSocketCreated");
        assert("Performance.metrics"@.len() != "Network.webSocketCreated"@.len());
        reveal_strlit("Network.loadingFailed");
        assert("Performance.metrics"@.len() != "Network.loadingFailed"@.len());
        reveal_strlit("Network.loadingFinished");
        assert("Performance.metrics"@.len() != "Network.loadingFinished"@.len());
        reveal_strlit("Network.responseReceived");
        assert("Performance.metrics"@.len() != "Network.responseReceived"@.len());
        reveal_strlit("Network.requestWillBeSent");
        assert("Performance.metrics"@.len() != "Network.requestWillBeSent"@.len());
        reveal_strlit("Page.screencastFrame");
        assert("Performance.metrics"@.len() != "Page.screencastFrame"@.len());
        reveal_strlit("Page.frameResized");
        assert("Performance.metrics"@.len() != "Page.frameResized"@.len());
        reveal_strlit("Page.navigatedWithinDocument");
        assert("Performance.metrics"@.len() != "Page.navigatedWithinDocument"@.len());
        reveal_strlit("Page.frameStoppedLoading");
        assert("Performance.metrics"@.len() != "Page.frameStoppedLoading"@.len());
        reveal_strlit("Page.frameStartedLoading");
        assert("Performance.metrics"@.len() != "Page.frameStartedLoading"@.len());
        reveal_strlit("Page.frameNavigated");
        assert("Performance.metrics"@[1] != "Page.frameNavigated"@[1]);
        reveal_strlit("Page.lifecycleEvent");
        assert("Performance.metrics"@[1] != "Page.lifecycleEvent"@[1]);
        reveal_strlit("DOM.pseudoElementRemoved");
        assert("Performance.metrics"@.len() != "DOM.pseudoElementRemoved"@.len());
        reveal_strlit("DOM.pseudoElementAdded");
        assert("Performance.metrics"@.len() != "DOM.pseudoElementAdded"@.len());
        reveal_strlit("DOM.shadowRootPopped");
        assert("Performance.metrics"@.len() != "DOM.shadowRootPopped"@.len());
        reveal_strlit("DOM.shadowRootPushed");
        assert("Performance.metrics"@.len() != "DOM.shadowRootPushed"@.len());
        reveal_strlit("DOM.inlineStyleInvalidated");
        assert("Performance.metrics"@.len() != "DOM.inlineStyleInvalidated"@.len());
        reveal_strlit("DOM.childNodeCountUpdated");
        assert("Performance.metrics"@.len() != "DOM.childNodeCountUpdated"@.len());
        reveal_strlit("DOM.characterDataModified");
        assert("Performance.metrics"@.len() != "DOM.characterDataModified"@.len());
        reveal_strlit("DOM.attributeRemoved");
        assert("Performance.metrics"@.len() != "DOM.attributeRemoved"@.len());
        reveal_strlit("DOM.attributeModified");
        assert("Performance.metrics"@.len() != "DOM.attributeModified"@.len());
        reveal_strlit("DOM.childNodeRemoved");
        assert("Performance.metrics"@.len() != "DOM.childNodeRemoved"@.len());
        reveal_strlit("DOM.childNodeInserted");
        assert("Performance.metrics"@.len() != "DOM.childNodeInserted"@.len());
        reveal_strlit("DOM.setChildNodes");
        assert("Performance.metrics"@.len() != "DOM.setChildNodes"@.len());
        reveal_strlit("DOM.documentUpdated");
        assert("Performance.metrics"@[0] != "DOM.documentUpdated"@[0]);
    }
    assert(method_kind("PerformanceTimeline.timelineEventAdded"@) == Some(SensorMethod::TimelineEventAdded)) by {
        reveal_strlit("PerformanceTimeline.timelineEventAdded");
        reveal_strlit("Performance.metrics");
        assert("PerformanceTimeline.timelineEventAdded"@.len() != "Performance.metrics"@.len());
        reveal_strlit("Animation.animationCanceled");
        assert("PerformanceTimeline.timelineEventAdded"@.len() != "Animation.animationCanceled"@.len());
        reveal_strlit("Animation.animationStarted");
        assert("PerformanceTimeline.timelineEventAdded"@.len() != "Animation.animationStarted"@.len());
        reveal_strlit("Log.entryAdded");
        assert("PerformanceTimeline.timelineEventAdded"@.len() != "Log.entryAdded"@.len());
        reveal_strlit("Runtime.exceptionThrown");
        assert("PerformanceTimeline.timelineEventAdded"@.len() != "Runtime.exceptionThrown"@.len());
        reveal_strlit("Runtime.consoleAPICalled");
        assert("PerformanceTimeline.timelineEventAdded"@.len() != "Runtime.consoleAPICalled"@.len());
        reveal_strlit("Network.webSocketClosed");
        assert("PerformanceTimeline.timelineEventAdded"@.len() != "Network.webSocketClosed"@.len());
        reveal_strlit("Network.webSocketCreated");
        assert("PerformanceTimeline.timelineEventAdded"@.len() != "Network.webSocketCreated"@.len());
        reveal_strlit("Network.loadingFailed");
        assert("PerformanceTimeline.timelineEventAdded"@.len() != "Network.loadingFailed"@.len());
        reveal_strlit("Network.loadingFinished");
        assert("PerformanceTimeline.timelineEventAdded"@.len() != "Network.loadingFinished"@.len());
        reveal_strlit("Network.responseReceived");
        assert("PerformanceTimeline.timelineEventAdded"@.len() != "Network.responseReceived"@.len());
        reveal_strlit("Network.requestWillBeSent");
        assert("PerformanceTimeline.timelineEventAdded"@.len() != "Network.requestWillBeSent"@.len());
        reveal_strlit("Page.screencastFrame");
        assert("PerformanceTimeline.timelineEventAdded"@.len() != "Page.screencastFrame"@.len());
        reveal_strlit("Page.frameResized");
        assert("PerformanceTimeline.timelineEventAdded"@.len() != "Page.frameResized"@.len());
        reveal_strlit("Page.navigatedWithinDocument");
        assert("PerformanceTimeline.timelineEventAdded"@.len() != "Page.navigatedWithinDocument"@.len());
        reveal_strlit("Page.frameStoppedLoading");
        assert("PerformanceTimeline.timelineEventAdded"@.len() != "Page.frameStoppedLoading"@.len());
        reveal_strlit("Page.frameStartedLoading");
        assert("PerformanceTimeline.timelineEventAdded"@.len() != "Page.frameStartedLoading"@.len());
        reveal_strlit("Page.frameNavigated");
        assert("PerformanceTimeline.timelineEventAdded"@.len() != "Page.frameNavigated"@.len());
        reveal_strlit("Page.lifecycleEvent");
        assert("PerformanceTimeline.timelineEventAdded"@.len() != "Page.lifecycleEvent"@.len());
        reveal_strlit("DOM.pseudoElementRemoved");
        assert("PerformanceTimeline.timelineEventAdded"@.len() != "DOM.pseudoElementRemoved"@.len());
        reveal_strlit("DOM.pseudoElementAdded");
        assert("PerformanceTimeline.timelineEventAdded"@.len() != "DOM.pseudoElementAdded"@.len());
        reveal_strlit("DOM.shadowRootPopped");
        assert("PerformanceTimeline.timelineEventAdded"@.len() != "DOM.shadowRootPopped"@.len());
        reveal_strlit("DOM.shadowRootPushed");
        assert("PerformanceTimeline.timelineEventAdded"@.len() != "DOM.shadowRootPushed"@.len());
        reveal_strlit("DOM.inlineStyleInvalidated");
        assert("PerformanceTimeline.timelineEventAdded"@.len() != "DOM.inlineStyleInvalidated"@.len());
        reveal_strlit("DOM.childNodeCountUpdated");
        assert("PerformanceTimeline.timelineEventAdded"@.len() != "DOM.childNodeCountUpdated"@.len());
        reveal_strlit("DOM.characterDataModified");
        assert("PerformanceTimeline.timelineEventAdded"@.len() != "DOM.characterDataModified"@.len());
        reveal_strlit("DOM.attributeRemoved");
        assert("PerformanceTimeline.timelineEventAdded"@.len() != "DOM.attributeRemoved"@.len());
        reveal_strlit("DOM.attributeModified");
        assert("PerformanceTimeline.timelineEventAdded"@.len() != "DOM.attributeModified"@.len());
        reveal_strlit("DOM.childNodeRemoved");
        assert("PerformanceTimeline.timelineEventAdded"@.len() != "DOM.childNodeRemoved"@.len());
        reveal_strlit("DOM.childNodeInserted");
        assert("PerformanceTimeline.timelineEventAdded"@.len() != "DOM.childNodeInserted"@.len());
        reveal_strlit("DOM.setChildNodes");
        assert("PerformanceTimeline.timelineEventAdded"@.len() != "DOM.setChildNodes"@.len());
        reveal_strlit("DOM.documentUpdated");
        assert("PerformanceTimeline.timelineEventAdded"@.len() != "DOM.documentUpdated"@.len());
    }
    assert(method_kind("Target.attachedToTarget"@) == Some(SensorMethod::AttachedToTarget)) by {
        reveal_strlit("Target.attachedToTarget");
        reveal_strlit("PerformanceTimeline.timelineEventAdded");
        assert("Target.attachedToTarget"@.len() != "PerformanceTimeline.timelineEventAdded"@.len());
        reveal_strlit("Performance.metrics");
        assert("Target.attachedToTarget"@.len() != "Performance.metrics"@.len());
        reveal_strlit("Animation.animationCanceled");
        assert("Target.attachedToTarget"@.len() != "Animation.animationCanceled"@.len());
        reveal_strlit("Animation.animationStarted");
        assert("Target.attachedToTarget"@.len() != "Animation.animationStarted"@.len());
        reveal_strlit("Log.entryAdded");
        assert("Target.attachedToTarget"@.len() != "Log.entryAdded"@.len());
        reveal_strlit("Runtime.exceptionThrown");
        assert("Target.attachedToTarget"@[0] != "Runtime.exceptionThrown"@[0]);
        reveal_strlit("Runtime.consoleAPICalled");
        assert("Target.attachedToTarget"@.len() != "Runtime.consoleAPICalled"@.len());
        reveal_strlit("Network.webSocketClosed");
        assert("Target.attachedToTarget"@[0] != "Network.webSocketClosed"@[0]);
        reveal_strlit("Network.webSocketCreated");
        assert("Target.attachedToTarget"@.len() != "Network.webSocketCreated"@.len());
        reveal_strlit("Network.loadingFailed");
        assert("Target.attachedToTarget"@.len() != "Network.loadingFailed"@.len());
        reveal_strlit("Network.loadingFinished");
        assert("Target.attachedToTarget"@[0] != "Network.loadingFinished"@[0]);
        reveal_strlit("Network.responseReceived");
        assert("Target.attachedToTarget"@.len() != "Network.responseReceived"@.len());
        reveal_strlit("Network.requestWillBeSent");
        assert("Target.attachedToTarget"@.len() != "Network.requestWillBeSent"@.len());
        reveal_strlit("Page.screencastFrame");
        assert("Target.attachedToTarget"@.len() != "Page.screencastFrame"@.len());
        reveal_strlit("Page.frameResized");
        assert("Target.attachedToTarget"@.len() != "Page.frameResized"@.len());
        reveal_strlit("Page.navigatedWithinDocument");
        assert("Target.attachedToTarget"@.len() != "Page.navigatedWithinDocument"@.len());
        reveal_strlit("Page.frameStoppedLoading");
        assert("Target.attachedToTarget"@.len() != "Page.frameStoppedLoading"@.len());
        reveal_strlit("Page.frameStartedLoading");
        assert("Target.attachedToTarget"@.len() != "Page.frameStartedLoading"@.len());
        reveal_strlit("Page.frameNavigated");
        assert("Target.attachedToTarget"@.len() != "Page.frameNavigated"@.len());
        reveal_strlit("Page.lifecycleEvent");
        assert("Target.attachedToTarget"@.len() != "Page.lifecycleEvent"@.len());
        reveal_strlit("DOM.pseudoElementRemoved");
        assert("Target.attachedToTarget"@.len() != "DOM.pseudoElementRemoved"@.len());
        reveal_strlit("DOM.pseudoElementAdded");
        assert("Target.attachedToTarget"@.len() != "DOM.pseudoElementAdded"@.len());
        reveal_strlit("DOM.shadowRootPopped");
        assert("Target.attachedToTarget"@.len() != "DOM.shadowRootPopped"@.len());
        reveal_strlit("DOM.shadowRootPushed");
        assert("Target.attachedToTarget"@.len() != "DOM.shadowRootPushed"@.len());
        reveal_strlit("DOM.inlineStyleInvalidated");
        assert("Target.attachedToTarget"@.len() != "DOM.inlineStyleInvalidated"@.len());
        reveal_strlit("DOM.childNodeCountUpdated");
        assert("Target.attachedToTarget"@.len() != "DOM.childNodeCountUpdated"@.len());
        reveal_strlit("DOM.characterDataModified");
        assert("Target.attachedToTarget"@.len() != "DOM.characterDataModified"@.len());
        reveal_strlit("DOM.attributeRemoved");
        assert("Target.attachedToTarget"@.len() != "DOM.attributeRemoved"@.len());
        reveal_strlit("DOM.attributeModified");
        assert("Target.attachedToTarget"@.len() != "DOM.attributeModified"@.len());
        reveal_strlit("DOM.childNodeRemoved");
        assert("Target.attachedToTarget"@.len() != "DOM.childNodeRemoved"@.len());
        reveal_strlit("DOM.childNodeInserted");
        assert("Target.attachedToTarget"@.len() != "DOM.childNodeInserted"@.len());
        reveal_strlit("DOM.setChildNodes");
        assert("Target.attachedToTarget"@.len() != "DOM.setChildNodes"@.len());
        reveal_strlit("DOM.documentUpdated");
        assert("Target.attachedToTarget"@.len() != "DOM.documentUpdated"@.len());
    }
    assert(method_kind("Target.detachedFromTarget"@) == Some(SensorMethod::DetachedFromTarget)) by {
        reveal_strlit("Target.detachedFromTarget");
        reveal_strlit("Target.attachedToTarget");
        assert("Target.detachedFromTarget"@.len() != "Target.attachedToTarget"@.len());
        reveal_strlit("PerformanceTimeline.timelineEventAdded");
        assert("Target.detachedFromTarget"@.len() != "PerformanceTimeline.timelineEventAdded"@.len());
        reveal_strlit("Performance.metrics");
        assert("Target.detachedFromTarget"@.len() != "Performance.metrics"@.len());
        reveal_strlit("Animation.animationCanceled");
        assert("Target.detachedFromTarget"@.len() != "Animation.animationCanceled"@.len());
        reveal_strlit("Animation.animationStarted");
        assert("Target.detachedFromTarget"@.len() != "Animation.animationStarted"@.len());
        reveal_strlit("Log.entryAdded");
        assert("Target.detachedFromTarget"@.len() != "Log.entryAdded"@.len());
        reveal_strlit("Runtime.exceptionThrown");
        assert("Target.detachedFromTarget"@.len() != "Runtime.exceptionThrown"@.len());
        reveal_strlit("Runtime.consoleAPICalled");
        assert("Target.detachedFromTarget"@.len() != "Runtime.consoleAPICalled"@.len());
        reveal_strlit("Network.webSocketClosed");
        assert("Target.detachedFromTarget"@.len() != "Network.webSocketClosed"@.len());
        reveal_strlit("Network.webSocketCreated");
        assert("Target.detachedFromTarget"@.len() != "Network.webSocketCreated"@.len());
        reveal_strlit("Network.loadingFailed");
        assert("Target.detachedFromTarget"@.len() != "Network.loadingFailed"@.len());
        reveal_strlit("Network.loadingFinished");
        assert("Target.detachedFromTarget"@.len() != "Network.loadingFinished"@.len());
        reveal_strlit("Network.responseReceived");
        assert("Target.detachedFromTarget"@.len() != "Network.responseReceived"@.len());
        reveal_strlit("Network.requestWillBeSent");
        assert("Target.detachedFromTarget"@[0] != "Network.requestWillBeSent"@[0]);
        reveal_strlit("Page.screencastFrame");
        assert("Target.detachedFromTarget"@.len() != "Page.screencastFrame"@.len());
        reveal_strlit("Page.frameResized");
        assert("Target.detachedFromTarget"@.len() != "Page.frameResized"@.len());
        reveal_strlit("Page.navigatedWithinDocument");
        assert("Target.detachedFromTarget"@.len() != "Page.navigatedWithinDocument"@.len());
        reveal_strlit("Page.frameStoppedLoading");
        assert("Target.detachedFromTarget"@.len() != "Page.frameStoppedLoading"@.len());
        reveal_strlit("Page.frameStartedLoading");
        assert("Target.detachedFromTarget"@.len() != "Page.frameStartedLoading"@.len());
        reveal_strlit("Page.frameNavigated");
        assert("Target.detachedFromTarget"@.len() != "Page.frameNavigated"@.len());
        reveal_strlit("Page.lifecycleEvent");
        assert("Target.detachedFromTarget"@.len() != "Page.lifecycleEvent"@.len());
        reveal_strlit("DOM.pseudoElementRemoved");
        assert("Target.detachedFromTarget"@.len() != "DOM.pseudoElementRemoved"@.len());
        reveal_strlit("DOM.pseudoElementAdded");
        assert("Target.detachedFromTarget"@.len() != "DOM.pseudoElementAdded"@.len());
        reveal_strlit("DOM.shadowRootPopped");
        assert("Target.detachedFromTarget"@.len() != "DOM.shadowRootPopped"@.len());
        reveal_strlit("DOM.shadowRootPushed");
        assert("Target.detachedFromTarget"@.len() != "DOM.shadowRootPushed"@.len());
        reveal_strlit("DOM.inlineStyleInvalidated");
        assert("Target.detachedFromTarget"@.len() != "DOM.inlineStyleInvalidated"@.len());
        reveal_strlit("DOM.childNodeCountUpdated");
        assert("Target.detachedFromTarget"@[0] != "DOM.childNodeCountUpdated"@[0]);
        reveal_strlit("DOM.characterDataModified");
        assert("Target.detachedFromTarget"@[0] != "DOM.characterDataModified"@[0]);
        reveal_strlit("DOM.attributeRemoved");
        assert("Target.detachedFromTarget"@.len() != "DOM.attributeRemoved"@.len());
        reveal_strlit("DOM.attributeModified");
        assert("Target.detachedFromTarget"@.len() != "DOM.attributeModified"@.len());
        reveal_strlit("DOM.childNodeRemoved");
        assert("Target.detachedFromTarget"@.len() != "DOM.childNodeRemoved"@.len());
        reveal_strlit("DOM.childNodeInserted");
        assert("Target.detachedFromTarget"@.len() != "DOM.childNodeInserted"@.len());
        reveal_strlit("DOM.setChildNodes");
        assert("Target.detachedFromTarget"@.len() != "DOM.setChildNodes"@.len());
        reveal_strlit("DOM.documentUpdated");
        assert("Target.detachedFromTarget"@.len() != "DOM.documentUpdated"@.len());
    }
    assert(method_kind("Accessibility.nodesUpdated"@) == Some(SensorMethod::AxNodesUpdated)) by {
        reveal_strlit("Accessibility.nodesUpdated");
        reveal_strlit("Target.detachedFromTarget");
        assert("Accessibility.nodesUpdated"@.len() != "Target.detachedFromTarget"@.len());
        reveal_strlit("Target.attachedToTarget");
        assert("Accessibility.nodesUpdated"@.len() != "Target.attachedToTarget"@.len());
        reveal_strlit("PerformanceTimeline.timelineEventAdded");
        assert("Accessibility.nodesUpdated"@.len() != "PerformanceTimeline.timelineEventAdded"@.len());
        reveal_strlit("Performance.metrics");
        assert("Accessibility.nodesUpdated"@.len() != "Performance.metrics"@.len());
        reveal_strlit("Animation.animationCanceled");
        assert("Accessibility.nodesUpdated"@.len() != "Animation.animationCanceled"@.len());
        reveal_strlit("Animation.animationStarted");
        assert("Accessibility.nodesUpdated"@[1] != "Animation.animationStarted"@[1]);
        reveal_strlit("Log.entryAdded");
        assert("Accessibility.nodesUpdated"@.len() != "Log.entryAdded"@.len());
        reveal_strlit("Runtime.exceptionThrown");
        assert("Accessibility.nodesUpdated"@.len() != "Runtime.exceptionThrown"@.len());
        reveal_strlit("Runtime.consoleAPICalled");
        assert("Accessibility.nodesUpdated"@.len() != "Runtime.consoleAPICalled"@.len());
        reveal_strlit("Network.webSocketClosed");
        assert("Accessibility.nodesUpdated"@.len() != "Network.webSocketClosed"@.len());
        reveal_strlit("Network.webSocketCreated");
        assert("Accessibility.nodesUpdated"@.len() != "Network.webSocketCreated"@.len());
        reveal_strlit("Network.loadingFailed");
        assert("Accessibility.nodesUpdated"@.len() != "Network.loadingFailed"@.len());
        reveal_strlit("Network.loadingFinished");
        assert("Accessibility.nodesUpdated"@.len() != "Network.loadingFinished"@.len());
        reveal_strlit("Network.responseReceived");
        assert("Accessibility.nodesUpdated"@.len() != "Network.responseReceived"@.len());
        reveal_strlit("Network.requestWillBeSent");
        assert("Accessibility.nodesUpdated"@.len() != "Network.requestWillBeSent"@.len());
        reveal_strlit("Page.screencastFrame");
        assert("Accessibility.nodesUpdated"@.len() != "Page.screencastFrame"@.len());
        reveal_strlit("Page.frameResized");
        assert("Accessibility.nodesUpdated"@.len() != "Page.frameResized"@.len());
        reveal_strlit("Page.navigatedWithinDocument");
        assert("Accessibility.nodesUpdated"@.len() != "Page.navigatedWithinDocument"@.len());
        reveal_strlit("Page.frameStoppedLoading");
        assert("Accessibility.nodesUpdated"@.len() != "Page.frameStoppedLoading"@.len());
        reveal_strlit("Page.frameStartedLoading");
        assert("Accessibility.nodesUpdated"@.len() != "Page.frameStartedLoading"@.len());
        reveal_strlit("Page.frameNavigated");
        assert("Accessibility.nodesUpdated"@.len() != "Page.frameNavigated"@.len());
        reveal_strlit("Page.lifecycleEvent");
        assert("Accessibility.nodesUpdated"@.len() != "Page.lifecycleEvent"@.len());
        reveal_strlit("DOM.pseudoElementRemoved");
        assert("Accessibility.nodesUpdated"@.len() != "DOM.pseudoElementRemoved"@.len());
        reveal_strlit("DOM.pseudoElementAdded");
        assert("Accessibility.nodesUpdated"@.len() != "DOM.pseudoElementAdded"@.len());
        reveal_strlit("DOM.shadowRootPopped");
        assert("Accessibility.nodesUpdated"@.len() != "DOM.shadowRootPopped"@.len());
        reveal_strlit("DOM.shadowRootPushed");
        assert("Accessibility.nodesUpdated"@.len() != "DOM.shadowRootPushed"@.len());
        reveal_strlit("DOM.inlineStyleInvalidated");
        assert("Accessibility.nodesUpdated"@[0] != "DOM.inlineStyleInvalidated"@[0]);
        reveal_strlit("DOM.childNodeCountUpdated");
        assert("Accessibility.nodesUpdated"@.len() != "DOM.childNodeCountUpdated"@.len());
        reveal_strlit("DOM.characterDataModified");
        assert("Accessibility.nodesUpdated"@.len() != "DOM.characterDataModified"@.len());
        reveal_strlit("DOM.attributeRemoved");
        assert("Accessibility.nodesUpdated"@.len() != "DOM.attributeRemoved"@.len());
        reveal_strlit("DOM.attributeModified");
        assert("Accessibility.nodesUpdated"@.len() != "DOM.attributeModified"@.len());
        reveal_strlit("DOM.childNodeRemoved");
        assert("Accessibility.nodesUpdated"@.len() != "DOM.childNodeRemoved"@.len());
        reveal_strlit("DOM.childNodeInserted");
        assert("Accessibility.nodesUpdated"@.len() != "DOM.childNodeInserted"@.len());
        reveal_strlit("DOM.setChildNodes");
        assert("Accessibility.nodesUpdated"@.len() != "DOM.setChildNodes"@.len());
        reveal_strlit("DOM.documentUpdated");
        assert("Accessibility.nodesUpdated"@.len() != "DOM.documentUpdated"@.len());
    }
    match k {
        SensorMethod::AnimationCanceled => {},
        SensorMethod::AnimationStarted => {},
        SensorMethod::AttachedToTarget => {},
        SensorMethod::AttributeModified => {},
        SensorMethod::AttributeRemoved => {},
        SensorMethod::AxNodesUpdated => {},
        SensorMethod::CharacterDataModified => {},
        SensorMethod::ChildNodeCountUpdated => {},
        SensorMethod::ChildNodeInserted => {},
        SensorMethod::ChildNodeRemoved => {},
        SensorMethod::ConsoleApiCalled => {},
        SensorMethod::DetachedFromTarget => {},
        SensorMethod::DocumentUpdated => {},
        SensorMethod::ExceptionThrown => {},
        SensorMethod::FrameNavigated => {},
        SensorMethod::FrameResized => {},
        SensorMethod::FrameStartedLoading => {},
        SensorMethod::FrameStoppedLoading => {},
        SensorMethod::InlineStyleInvalidated => {},
        SensorMethod::LifecycleEvent => {},
        SensorMethod::LoadingFailed => {},
        SensorMethod::LoadingFinished => {},
        SensorMethod::LogEntryAdded => {},
        SensorMethod::NavigatedWithinDocument => {},
        SensorMethod::PerformanceMetrics => {},
        SensorMethod::PseudoElementAdded => {},
        SensorMethod::PseudoElementRemoved => {},
        SensorMethod::RequestWillBeSent => {},
        SensorMethod::ResponseReceived => {},
        SensorMethod::ScreencastFrame => {},
        SensorMethod::SetChildNodes => {},
        SensorMethod::ShadowRootPopped => {},
        SensorMethod::ShadowRootPushed => {},
        SensorMethod::TimelineEventAdded => {},
        SensorMethod::WebSocketClosed => {},
        SensorMethod::WebSocketCreated => {},
    }
}

/// The kind of event `method` carries, or `None` for a method the sensor
/// does not observe.
pub fn sensor_method(method: &str) -> (r: Option<SensorMethod>)
    ensures
        r == method_kind(method@),
{
    if same_text(method, "DOM.documentUpdated") {
        Some(SensorMethod::DocumentUpdated)
    } else if same_text(method, "DOM.setChildNodes") {
        Some(SensorMethod::SetChildNodes)
    } else if same_text(method, "DOM.childNodeInserted") {
        Some(SensorMethod::ChildNodeInserted)
    } else if same_text(method, "DOM.childNodeRemoved") {
        Some(SensorMethod::ChildNodeRemoved)
    } else if same_text(method, "DOM.attributeModified") {
        Some(SensorMethod::AttributeModified)
    } else if same_text(method, "DOM.attributeRemoved") {
        Some(SensorMethod::AttributeRemoved)
    } else if same_text(method, "DOM.characterDataModified") {
        Some(SensorMethod::CharacterDataModified)
    } else if same_text(method, "DOM.childNodeCountUpdated") {
        Some(SensorMethod::ChildNodeCountUpdated)
    } else if same_text(method, "DOM.inlineStyleInvalidated") {
        Some(SensorMethod::InlineStyleInvalidated)
    } else if same_text(method, "DOM.shadowRootPushed") {
        Some(SensorMethod::ShadowRootPushed)
    } else if same_text(method, "DOM.shadowRootPopped") {
        Some(SensorMethod::ShadowRootPopped)
    } else if same_text(method, "DOM.pseudoElementAdded") {
        Some(SensorMethod::PseudoElementAdded)
    } else if same_text(method, "DOM.pseudoElementRemoved") {
        Some(SensorMethod::PseudoElementRemoved)
    } else if same_text(method, "Page.lifecycleEvent") {
        Some(SensorMethod::LifecycleEvent)
    } else if same_text(method, "Page.frameNavigated") {
        Some(SensorMethod::FrameNavigated)
    } else if same_text(method, "Page.frameStartedLoading") {
        Some(SensorMethod::FrameStartedLoading)
    } else if same_text(method, "Page.frameStoppedLoading") {
        Some(SensorMethod::FrameStoppedLoading)
    } else if same_text(method, "Page.navigatedWithinDocument") {
        Some(SensorMethod::NavigatedWithinDocument)
    } else if same_text(method, "Page.frameResized") {
        Some(SensorMethod::FrameResized)
    } else if same_text(method, "Page.screencastFrame") {
        Some(SensorMethod::ScreencastFrame)
    } else if same_text(method, "Network.requestWillBeSent") {
        Some(SensorMethod::RequestWillBeSent)
    } else if same_text(method, "Network.responseReceived") {
        Some(SensorMethod::ResponseReceived)
    } else if same_text(method, "Network.loadingFinished") {
        Some(SensorMethod::LoadingFinished)
    } else if same_text(method, "Network.loadingFailed") {
        Some(SensorMethod::LoadingFailed)
    } else if same_text(method, "Network.webSocketCreated") {
        Some(SensorMethod::WebSocketCreated)
    } else if same_text(method, "Network.webSocketClosed") {
        Some(SensorMethod::WebSocketClosed)
    } else if same_text(method, "Runtime.consoleAPICalled") {
        Some(SensorMethod::ConsoleApiCalled)
    } else if same_text(method, "Runtime.exceptionThrown") {
        Some(SensorMethod::ExceptionThrown)
    } else if same_text(method, "Log.entryAdded") {
        Some(SensorMethod::LogEntryAdded)
    } else if same_text(method, "Animation.animationStarted") {
        Some(SensorMethod::AnimationStarted)
    } else if same_text(method, "Animation.animationCanceled") {
        Some(SensorMethod::AnimationCanceled)
    } else if same_text(method, "Performance.metrics") {
        Some(SensorMethod::PerformanceMetrics)
    } else if same_text(method, "PerformanceTimeline.timelineEventAdded") {
        Some(SensorMethod::TimelineEventAdded)
    } else if same_text(method, "Target.attachedToTarget") {
        Some(SensorMethod::AttachedToTarget)
    } else if same_text(method, "Target.detachedFromTarget") {
        Some(SensorMethod::DetachedFromTarget)
    } else if same_text(method, "Accessibility.nodesUpdated") {
        Some(SensorMethod::AxNodesUpdated)
    } else {
        None
    }
}

/// Whether a performance timeline entry of this type is a layout shift;
/// other entry types are not observed.
pub fn is_layout_shift_entry(event_type: &str) -> (r: bool)
    ensures
        r == (event_type@ == "layout-shift"@),
{
    same_text(event_type, "layout-shift")
}

} // verus!
