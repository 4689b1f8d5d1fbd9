//! Summary counts of a recorded session.
//!
//! A recording keeps every streamed event; its summary counts them by
//! category and notes when the page became interactive.

use vstd::prelude::*;

use crate::page::StreamEvent;
use crate::text::{same_text, strip_text_prefix};

verus! {

broadcast use vstd::string::group_string_axioms;

/// The counts a recording summary keeps, and the time of the last event.
pub struct EventCounts {
    pub total_events: usize,
    pub dom_mutations: usize,
    pub network_requests: usize,
    pub layout_shifts: usize,
    pub errors: usize,
    pub console_messages: usize,
    pub lifecycle_events: usize,
    pub animations: usize,
    pub time_to_interactive_ms: Option<u64>,
    /// Time of the last event, in milliseconds since streaming started.
    pub duration_ms: u64,
}

/// One more when `hit`.
pub open spec fn bump(n: usize, hit: bool) -> int {
    if hit {
        n + 1
    } else {
        n as int
    }
}

/// Which counter a category feeds: dom, network, layout, error, console,
/// lifecycle, animation, or none (7).
pub open spec fn category_slot(c: Seq<char>) -> int {
    if c == "dom"@ {
        0
    } else if c == "network"@ {
        1
    } else if c == "layout"@ {
        2
    } else if c == "error"@ {
        3
    } else if c == "console"@ {
        4
    } else if c == "lifecycle"@ {
        5
    } else if c == "animation"@ {
        6
    } else {
        7
    }
}

/// `after` counts the event `e` on top of `before`; `cls` is the text of
/// the layout-shift score of a layout event whose detail reads "CLS ...".
pub open spec fn counted(before: EventCounts, after: EventCounts, e: StreamEvent, cls: Option<&str>) -> bool {
    let slot = category_slot(e.category@);
    &&& after.total_events == before.total_events + 1
    &&& after.dom_mutations == bump(before.dom_mutations, slot == 0)
    &&& after.network_requests == bump(before.network_requests, slot == 1)
    &&& after.layout_shifts == bump(before.layout_shifts, slot == 2)
    &&& after.errors == bump(before.errors, slot == 3)
    &&& after.console_messages == bump(before.console_messages, slot == 4)
    &&& after.lifecycle_events == bump(before.lifecycle_events, slot == 5)
    &&& after.animations == bump(before.animations, slot == 6)
    &&& after.time_to_interactive_ms == if slot == 5 && e.detail@ == "InteractiveTime"@ {
        Some(e.time_ms)
    } else {
        before.time_to_interactive_ms
    }
    &&& after.duration_ms == e.time_ms
    &&& match cls {
        Some(t) => slot == 2 && e.detail@ == "CLS "@ + t@,
        None => !(slot == 2 && "CLS "@.is_prefix_of(e.detail@)),
    }
}

/// Counting an event raises the total by one and raises exactly the counter
/// of the event's category (dom, network, layout, error, console,
/// lifecycle or animation) by one; an event of any other category raises
/// none of them.
pub proof fn law_event_feeds_its_counter(before: EventCounts, after: EventCounts, e: StreamEvent, cls: Option<&str>)
    requires
        counted(before, after, e, cls),
    ensures
        after.total_events == before.total_events + 1,
        after.dom_mutations == before.dom_mutations + if e.category@ == "dom"@ { 1int } else { 0int },
        after.network_requests == before.network_requests + if e.category@ == "network"@ { 1int } else { 0int },
        after.layout_shifts == before.layout_shifts + if e.category@ == "layout"@ { 1int } else { 0int },
        after.errors == before.errors + if e.category@ == "error"@ { 1int } else { 0int },
        after.console_messages == before.console_messages + if e.category@ == "console"@ { 1int } else { 0int },
        after.lifecycle_events == before.lifecycle_events + if e.category@ == "lifecycle"@ { 1int } else { 0int },
        after.animations == before.animations + if e.category@ == "animation"@ { 1int } else { 0int },
{
    assert(category_slot("dom"@) == 0) by {
        reveal_strlit("dom");
    }
    assert(category_slot("network"@) == 1) by {
        reveal_strlit("network");
        reveal_strlit("dom");
        assert("network"@.len() != "dom"@.len());
    }
    assert(category_slot("layout"@) == 2) by {
        reveal_strlit("layout");
        reveal_strlit("dom");
        reveal_strlit("network");
        assert("layout"@.len() != "dom"@.len());
        assert("layout"@.len() != "network"@.len());
    }
    assert(category_slot("error"@) == 3) by {
        reveal_strlit("error");
        reveal_strlit("dom");
        reveal_strlit("network");
        reveal_strlit("layout");
        assert("error"@.len() != "dom"@.len());
        assert("error"@.len() != "network"@.len());
        assert("error"@.len() != "layout"@.len());
    }
    assert(category_slot("console"@) == 4) by {
        reveal_strlit("console");
        reveal_strlit("dom");
        reveal_strlit("network");
        reveal_strlit("layout");
        reveal_strlit("error");
        assert("console"@.len() != "dom"@.len());
        assert("console"@[0] != "network"@[0]);
        assert("console"@.len() != "layout"@.len());
        assert("console"@.len() != "error"@.len());
    }
    assert(category_slot("lifecycle"@) == 5) by {
        reveal_strlit("lifecycle");
        reveal_strlit("dom");
        reveal_strlit("network");
        reveal_strlit("layout");
        reveal_strlit("error");
        reveal_strlit("console");
        assert("lifecycle"@.len() != "dom"@.len());
        assert("lifecycle"@.len() != "network"@.len());
        assert("lifecycle"@.len() != "layout"@.len());
        assert("lifecycle"@.len() != "error"@.len());
        assert("lifecycle"@.len() != "console"@.len());
    }
    assert(category_slot("animation"@) == 6) by {
        reveal_strlit("animation");
        reveal_strlit("dom");
        reveal_strlit("network");
        reveal_strlit("layout");
        reveal_strlit("error");
        reveal_strlit("console");
        reveal_strlit("lifecycle");
        assert("animation"@.len() != "dom"@.len());
        assert("animation"@.len() != "network"@.len());
        assert("animation"@.len() != "layout"@.len());
        assert("animation"@.len() != "error"@.len());
        assert("animation"@.len() != "console"@.len());
        assert("animation"@[0] != "lifecycle"@[0]);
    }
}

/// No counter is at its limit.
pub open spec fn has_room(c: EventCounts) -> bool {
    &&& c.total_events < usize::MAX
    &&& c.dom_mutations < usize::MAX
    &&& c.network_requests < usize::MAX
    &&& c.layout_shifts < usize::MAX
    &&& c.errors < usize::MAX
    &&& c.console_messages < usize::MAX
    &&& c.lifecycle_events < usize::MAX
    &&& c.animations < usize::MAX
}

impl EventCounts {
    /// All counts zero.
    pub fn new() -> (c: Self)
        ensures
            c.total_events == 0,
            c.dom_mutations == 0,
            c.network_requests == 0,
            c.layout_shifts == 0,
            c.errors == 0,
            c.console_messages == 0,
            c.lifecycle_events == 0,
            c.animations == 0,
            c.time_to_interactive_ms is None,
            c.duration_ms == 0,
    {
        EventCounts {
            total_events: 0,
            dom_mutations: 0,
            network_requests: 0,
            layout_shifts: 0,
            errors: 0,
            console_messages: 0,
            lifecycle_events: 0,
            animations: 0,
            time_to_interactive_ms: None,
            duration_ms: 0,
        }
    }

    /// Count a stream event. For a layout event whose detail reads
    /// "CLS <score>", the score's text is returned, to be added to the
    /// cumulative layout shift.
    pub fn add_event<'a>(&mut self, event: &'a StreamEvent) -> (cls: Option<&'a str>)
        requires
            has_room(*old(self)),
        ensures
            counted(*old(self), *final(self), *event, cls),
    {
        self.total_events = self.total_events + 1;
        let c = event.category.as_str();
        let mut cls: Option<&'a str> = None;
        if same_text(c, "dom") {
            self.dom_mutations = self.dom_mutations + 1;
        } else if same_text(c, "network") {
            self.network_requests = self.network_requests + 1;
        } else if same_text(c, "layout") {
            self.layout_shifts = self.layout_shifts + 1;
            cls = strip_text_prefix(event.detail.as_str(), "CLS ");
        } else if same_text(c, "error") {
            self.errors = self.errors + 1;
        } else if same_text(c, "console") {
            self.console_messages = self.console_messages + 1;
        } else if same_text(c, "lifecycle") {
            self.lifecycle_events = self.lifecycle_events + 1;
            if same_text(event.detail.as_str(), "InteractiveTime") {
                self.time_to_interactive_ms = Some(event.time_ms);
            }
        } else if same_text(c, "animation") {
            self.animations = self.animations + 1;
        }
        self.duration_ms = event.time_ms;
        cls
    }
}

} // verus!
