//! The three phases of an event and the rules for moving between them.

use vstd::prelude::*;

verus! {

/// The phase an event is in: people join, then letters are swapped, then
/// the gifts are read.
#[derive(Clone, Copy, Debug, PartialEq, Eq, Structural)]
pub enum Phase {
    Join,
    Swap,
    Read,
}

/// The name under which a phase is stored in the settings table.
pub open spec fn phase_name(p: Phase) -> Seq<char> {
    match p {
        Phase::Join => seq!['J', 'o', 'i', 'n'],
        Phase::Swap => seq!['S', 'w', 'a', 'p'],
        Phase::Read => seq!['R', 'e', 'a', 'd'],
    }
}

/// The phase stored under a name, if the name is one of the three.
pub open spec fn phase_named(s: Seq<char>) -> Option<Phase> {
    if s == phase_name(Phase::Join) {
        Some(Phase::Join)
    } else if s == phase_name(Phase::Swap) {
        Some(Phase::Swap)
    } else if s == phase_name(Phase::Read) {
        Some(Phase::Read)
    } else {
        None
    }
}

/// Two strings with the same characters.
pub fn same_text(a: &str, b: &str) -> (r: bool)
    ensures
        r == (a@ == b@),
{
    let x = a.to_owned();
    let y = b.to_owned();
    x == y
}

impl Phase {
    /// The name of the phase.
    pub fn as_str(&self) -> (s: &'static str)
        ensures
            s@ == phase_name(*self),
    {
        match self {
            Phase::Join => {
                proof {
                    reveal_strlit("Join");
                    assert("Join"@ =~= phase_name(Phase::Join));
                }
                "Join"
            },
            Phase::Swap => {
                proof {
                    reveal_strlit("Swap");
                    assert("Swap"@ =~= phase_name(Phase::Swap));
                }
                "Swap"
            },
            Phase::Read => {
                proof {
                    reveal_strlit("Read");
                    assert("Read"@ =~= phase_name(Phase::Read));
                }
                "Read"
            },
        }
    }

    /// The phase with the given name, if there is one.
    pub fn from_str(s: &str) -> (p: Option<Phase>)
        ensures
            p == phase_named(s@),
    {
        proof {
            reveal_strlit("Join");
            reveal_strlit("Swap");
            reveal_strlit("Read");
            assert("Join"@ =~= phase_name(Phase::Join));
            assert("Swap"@ =~= phase_name(Phase::Swap));
            assert("Read"@ =~= phase_name(Phase::Read));
        }
        if same_text(s, "Join") {
            Some(Phase::Join)
        } else if same_text(s, "Swap") {
            Some(Phase::Swap)
        } else if same_text(s, "Read") {
            Some(Phase::Read)
        } else {
            None
        }
    }
}

/// The phase that the settings table holds: the stored name read as a
/// phase, and `Join` when nothing is stored or the name is not a phase.
pub open spec fn setting_phase(value: Option<Seq<char>>) -> Phase {
    match value {
        Some(name) => match phase_named(name) {
            Some(p) => p,
            None => Phase::Join,
        },
        None => Phase::Join,
    }
}

/// The phase that a stored setting value denotes (see `setting_phase`).
pub fn phase_from_setting(value: Option<String>) -> (p: Phase)
    ensures
        p == setting_phase(
            match value {
                Some(v) => Some(v@),
                None => None,
            },
        ),
{
    match value {
        Some(v) => match Phase::from_str(v.as_str()) {
            Some(p) => p,
            None => Phase::Join,
        },
        None => Phase::Join,
    }
}

/// The phase that follows another: the event runs Join, Swap, Read and
/// back to Join.
pub open spec fn next_phase(p: Phase) -> Phase {
    match p {
        Phase::Join => Phase::Swap,
        Phase::Swap => Phase::Read,
        Phase::Read => Phase::Join,
    }
}

/// What a request to move the event to a phase leads to.
#[derive(Clone, Copy, Debug, PartialEq, Eq, Structural)]
pub enum PhaseChange {
    /// The event is in that phase already; nothing changes.
    AlreadyInPhase,
    /// The move is not allowed from the current phase; nothing changes.
    Refused,
    /// Back to joining: every assignment and submission is cleared, then the
    /// phase is set.
    ResetThenSet,
    /// On to swapping: the participants are matched, then the phase is set.
    MatchThenSet,
    /// On to reading: the phase is set.
    SetOnly,
}

/// The rules of the phase command: a move to the current phase is a no-op,
/// Swap cannot go back to Join, Read cannot go back to Swap, and Join cannot
/// skip to Read.
pub open spec fn phase_change(current: Phase, requested: Phase) -> PhaseChange {
    if current == requested {
        PhaseChange::AlreadyInPhase
    } else {
        match requested {
            Phase::Join => if current == Phase::Swap {
                PhaseChange::Refused
            } else {
                PhaseChange::ResetThenSet
            },
            Phase::Swap => if current == Phase::Read {
                PhaseChange::Refused
            } else {
                PhaseChange::MatchThenSet
            },
            Phase::Read => if current == Phase::Join {
                PhaseChange::Refused
            } else {
                PhaseChange::SetOnly
            },
        }
    }
}

/// Whether a planned change moves the event to the requested phase.
pub open spec fn change_moves(c: PhaseChange) -> bool {
    c == PhaseChange::ResetThenSet || c == PhaseChange::MatchThenSet || c == PhaseChange::SetOnly
}

/// Decides what a request to move from `current` to `requested` does.
pub fn plan_phase_change(current: Phase, requested: Phase) -> (c: PhaseChange)
    ensures
        c == phase_change(current, requested),
{
    if current == requested {
        return PhaseChange::AlreadyInPhase;
    }
    match requested {
        Phase::Join => if current == Phase::Swap {
            PhaseChange::Refused
        } else {
            PhaseChange::ResetThenSet
        },
        Phase::Swap => if current == Phase::Read {
            PhaseChange::Refused
        } else {
            PhaseChange::MatchThenSet
        },
        Phase::Read => if current == Phase::Join {
            PhaseChange::Refused
        } else {
            PhaseChange::SetOnly
        },
    }
}

/// Whether the event's current phase is one of those a command accepts.
pub fn phase_in(current: Phase, allowed: &Vec<Phase>) -> (r: bool)
    ensures
        r == allowed@.contains(current),
{
    let mut i: usize = 0;
    while i < allowed.len()
        invariant
            i <= allowed.len(),
            forall|j: int| 0 <= j < i ==> allowed@[j] != current,
        decreases allowed.len() - i,
    {
        if allowed[i] == current {
            return true;
        }
        i = i + 1;
    }
    false
}

/// Every phase is read back from the name it is stored under.
pub proof fn lemma_phase_name_round_trip(p: Phase)
    ensures
        phase_named(phase_name(p)) == Some(p),
        setting_phase(Some(phase_name(p))) == p,
{
}

/// Nothing stored, or a name that is no phase, reads as the joining phase.
pub proof fn lemma_unknown_setting_is_join(value: Option<Seq<char>>)
    requires
        value matches Some(name) ==> phase_named(name) is None,
    ensures
        setting_phase(value) == Phase::Join,
{
}

/// The phase command moves the event exactly one step forward along
/// Join, Swap, Read, Join, and in no other way: a request changes the phase
/// if and only if it asks for the phase that follows the current one.
pub proof fn lemma_phase_moves_follow_the_cycle(current: Phase, requested: Phase)
    ensures
        change_moves(phase_change(current, requested)) <==> requested == next_phase(current),
{
}

} // verus!
