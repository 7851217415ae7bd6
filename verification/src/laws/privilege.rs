//! Enabling the privilege that the fast path of Windows needs.

use crate::windows::{Luid, PrivilegeEvent, PrivilegeSetup, ERROR_SUCCESS};
use vstd::prelude::*;

verus! {

/// `states` are those that a setup goes through from `start` on, with `events` between them.
pub open spec fn is_setup(
    start: PrivilegeSetup,
    states: Seq<PrivilegeSetup>,
    events: Seq<PrivilegeEvent>,
) -> bool {
    &&& states.len() == events.len() + 1
    &&& states[0] == start
    &&& forall|i: int|
        0 <= i < events.len() ==> {
            &&& states[i].accepts(#[trigger] events[i])
            &&& states[i + 1] == states[i].after(events[i])
        }
}

/// The events of a setup in which every call succeeds and the privilege is granted.
pub open spec fn granted(luid: Luid) -> Seq<PrivilegeEvent> {
    seq![
        PrivilegeEvent::TokenOpened(true),
        PrivilegeEvent::PrivilegeFound(Some(luid)),
        PrivilegeEvent::PrivilegesAdjusted(true),
        PrivilegeEvent::LastErrorRead(ERROR_SUCCESS),
        PrivilegeEvent::TokenClosed,
    ]
}

/// A setup makes at most five calls.
pub proof fn law_setup_ends(states: Seq<PrivilegeSetup>, events: Seq<PrivilegeEvent>)
    requires
        is_setup(PrivilegeSetup::starting(None), states, events),
    ensures
        events.len() <= 5,
{
    if events.len() > 5 {
        assert(states[0].accepts(events[0]));
        assert(states[1].accepts(events[1]));
        assert(states[2].accepts(events[2]));
        assert(states[3].accepts(events[3]));
        assert(states[4].accepts(events[4]));
        assert(states[5].accepts(events[5]));
    }
}

/// A setup that has ended says that the privilege is enabled exactly if every call succeeded and
/// the last error says that it was granted.
pub proof fn law_setup_enables(
    states: Seq<PrivilegeSetup>,
    events: Seq<PrivilegeEvent>,
    enabled: bool,
)
    requires
        is_setup(PrivilegeSetup::starting(None), states, events),
        states.last() == PrivilegeSetup::Finished(enabled),
    ensures
        enabled <==> exists|luid: Luid| events == #[trigger] granted(luid),
{
    law_setup_ends(states, events);
    assert(events.len() > 0);
    assert(states[0].accepts(events[0]));
    if events.len() == 5 {
        assert(states[1].accepts(events[1]));
        assert(states[2].accepts(events[2]));
        assert(states[3].accepts(events[3]));
        assert(states[4].accepts(events[4]));
        if enabled {
            let luid = events[1]->PrivilegeFound_0.unwrap();
            assert(events =~= granted(luid));
        }
        if exists|luid: Luid| events == #[trigger] granted(luid) {
            let luid = choose|luid: Luid| events == #[trigger] granted(luid);
            assert(events[0] == granted(luid)[0]);
            assert(events[1] == granted(luid)[1]);
            assert(events[2] == granted(luid)[2]);
            assert(events[3] == granted(luid)[3]);
        }
    } else {
        if events.len() > 1 {
            assert(states[1].accepts(events[1]));
        }
        if events.len() > 2 {
            assert(states[2].accepts(events[2]));
        }
        if events.len() > 3 {
            assert(states[3].accepts(events[3]));
        }
        assert forall|luid: Luid| events != #[trigger] granted(luid) by {
            assert(granted(luid).len() == 5);
        }
    }
}

/// In a setup that has ended, the token was closed exactly once if it was opened, as the last
/// call, and not at all if it was not.
pub proof fn law_setup_closes_the_token(
    states: Seq<PrivilegeSetup>,
    events: Seq<PrivilegeEvent>,
    enabled: bool,
    i: int,
)
    requires
        is_setup(PrivilegeSetup::starting(None), states, events),
        states.last() == PrivilegeSetup::Finished(enabled),
        0 <= i < events.len(),
    ensures
        events[i] is TokenClosed <==> events[0] == PrivilegeEvent::TokenOpened(true) && i
            == events.len() - 1,
{
    law_setup_ends(states, events);
    assert(states[0].accepts(events[0]));
    if events.len() > 1 {
        assert(states[1].accepts(events[1]));
    }
    if events.len() > 2 {
        assert(states[2].accepts(events[2]));
    }
    if events.len() > 3 {
        assert(states[3].accepts(events[3]));
    }
    if events.len() > 4 {
        assert(states[4].accepts(events[4]));
    }
}

/// What a setup came to is what every later one gives again, without a call.
pub proof fn law_setup_is_remembered(
    first: Seq<PrivilegeSetup>,
    first_events: Seq<PrivilegeEvent>,
    enabled: bool,
    second: Seq<PrivilegeSetup>,
    second_events: Seq<PrivilegeEvent>,
)
    requires
        is_setup(PrivilegeSetup::starting(None), first, first_events),
        first.last() == PrivilegeSetup::Finished(enabled),
        is_setup(PrivilegeSetup::starting(Some(enabled)), second, second_events),
    ensures
        second_events.len() == 0,
        second.last() == first.last(),
{
    if second_events.len() > 0 {
        assert(second[0].accepts(second_events[0]));
    }
}

} // verus!
