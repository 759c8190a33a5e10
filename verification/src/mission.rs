use vstd::prelude::*;

verus! {

/// One of the fixed universe of missions a spy may undertake in a match.
#[derive(Debug, Clone, Copy, PartialEq, Eq, Structural)]
pub enum Mission {
    BugAmbassador,
    ContactDoubleAgent,
    TransferMicrofilm,
    SwapStatue,
    InspectStatues,
    SeduceTarget,
    PurloinGuestList,
    FingerprintAmbassador,
}

/// The canonical ordinal table: the mission at each bit position. The table
/// is version-independent; future missions only extend it.
pub open spec fn spec_mission_at(i: int) -> Mission {
    if i == 0 {
        Mission::BugAmbassador
    } else if i == 1 {
        Mission::ContactDoubleAgent
    } else if i == 2 {
        Mission::TransferMicrofilm
    } else if i == 3 {
        Mission::SwapStatue
    } else if i == 4 {
        Mission::InspectStatues
    } else if i == 5 {
        Mission::SeduceTarget
    } else if i == 6 {
        Mission::PurloinGuestList
    } else {
        Mission::FingerprintAmbassador
    }
}

/// The bit position a mission occupies in a mission bitmask.
pub open spec fn mission_ordinal(m: Mission) -> int {
    match m {
        Mission::BugAmbassador => 0,
        Mission::ContactDoubleAgent => 1,
        Mission::TransferMicrofilm => 2,
        Mission::SwapStatue => 3,
        Mission::InspectStatues => 4,
        Mission::SeduceTarget => 5,
        Mission::PurloinGuestList => 6,
        Mission::FingerprintAmbassador => 7,
    }
}

/// The missions whose bits are set in `mask` at position `i` or above, in
/// ascending bit order.
pub open spec fn spec_missions_from(mask: u32, i: u32) -> Seq<Mission>
    decreases 8 - i,
    when i <= 8
{
    if i >= 8 {
        Seq::empty()
    } else if (mask >> i) & 1 == 1 {
        seq![spec_mission_at(i as int)] + spec_missions_from(mask, (i + 1) as u32)
    } else {
        spec_missions_from(mask, (i + 1) as u32)
    }
}

/// The mission sequence a raw bitmask decodes to.
pub open spec fn spec_missions(mask: u32) -> Seq<Mission> {
    spec_missions_from(mask, 0)
}

impl Mission {
    /// The mission at a bit position of the canonical table.
    pub fn at_ordinal(i: u32) -> (r: Mission)
        requires
            i < 8,
        ensures
            r == spec_mission_at(i as int),
    {
        match i {
            0 => Mission::BugAmbassador,
            1 => Mission::ContactDoubleAgent,
            2 => Mission::TransferMicrofilm,
            3 => Mission::SwapStatue,
            4 => Mission::InspectStatues,
            5 => Mission::SeduceTarget,
            6 => Mission::PurloinGuestList,
            _ => Mission::FingerprintAmbassador,
        }
    }
}

/// Unpack a mission bitmask into an ordered mission sequence: each set bit of
/// the canonical table contributes its mission, in ascending bit order.
pub fn missions_from_mask(mask: u32) -> (r: Vec<Mission>)
    ensures
        r@ == spec_missions(mask),
{
    let mut v: Vec<Mission> = Vec::new();
    let mut i: u32 = 0;
    while i < 8
        invariant
            i <= 8,
            v@ + spec_missions_from(mask, i) == spec_missions(mask),
        decreases 8 - i,
    {
        let ghost prev = v@;
        if (mask >> i) & 1 == 1 {
            v.push(Mission::at_ordinal(i));
            proof {
                assert(spec_missions_from(mask, i) == seq![spec_mission_at(i as int)]
                    + spec_missions_from(mask, (i + 1) as u32));
                assert(v@ + spec_missions_from(mask, (i + 1) as u32) =~= prev
                    + spec_missions_from(mask, i));
            }
        } else {
            proof {
                assert(spec_missions_from(mask, i) == spec_missions_from(mask, (i + 1) as u32));
            }
        }
        i = i + 1;
    }
    proof {
        assert(spec_missions_from(mask, 8) =~= Seq::<Mission>::empty());
        assert(v@ + Seq::<Mission>::empty() =~= v@);
    }
    v
}

/// Every position of the tail sequence holds a mission of ordinal at least
/// `k`, and the ordinals are strictly ascending.
proof fn lemma_missions_from_ascending(mask: u32, k: u32)
    requires
        k <= 8,
    ensures
        forall|i: int|
            0 <= i < spec_missions_from(mask, k).len() ==> mission_ordinal(
                #[trigger] spec_missions_from(mask, k)[i],
            ) >= k,
        forall|i: int, j: int|
            0 <= i < j < spec_missions_from(mask, k).len() ==> mission_ordinal(
                spec_missions_from(mask, k)[i],
            ) < mission_ordinal(spec_missions_from(mask, k)[j]),
    decreases 8 - k,
{
    if k < 8 {
        lemma_missions_from_ascending(mask, (k + 1) as u32);
        assert(mission_ordinal(spec_mission_at(k as int)) == k);
        if (mask >> k) & 1 == 1 {
            let s = spec_missions_from(mask, k);
            let rest = spec_missions_from(mask, (k + 1) as u32);
            assert(s == seq![spec_mission_at(k as int)] + rest);
            assert(s[0] == spec_mission_at(k as int));
            assert(forall|i: int| 1 <= i < s.len() ==> s[i] == rest[i - 1]);
        }
    }
}

/// Decoded mission sequences are strictly ascending by ordinal, and thus hold
/// no duplicates, whatever the raw bitmask. A bit can contribute at most one
/// mission.
pub proof fn lemma_missions_ascending(mask: u32)
    ensures
        forall|i: int, j: int|
            0 <= i < j < spec_missions(mask).len() ==> mission_ordinal(spec_missions(mask)[i])
                < mission_ordinal(spec_missions(mask)[j]),
        forall|i: int, j: int|
            0 <= i < j < spec_missions(mask).len() ==> spec_missions(mask)[i] != spec_missions(
                mask,
            )[j],
{
    lemma_missions_from_ascending(mask, 0);
}

} // verus!
