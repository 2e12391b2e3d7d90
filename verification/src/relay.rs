//! Relays and how they are chosen.

use vstd::prelude::*;
use vstd::string::*;
use crate::error::TorError;

pub mod flags;
pub mod selection;

verus! {

/// What the consensus says of one relay.
#[derive(Debug)]
pub struct Relay {
    pub fingerprint: String,
    pub nickname: String,
    pub address: String,
    pub or_port: u16,
    pub dir_port: Option<u16>,
    /// The relay's flags, as a set: order and repetition mean nothing.
    pub flags: Vec<String>,
    pub bandwidth: u64,
    pub consensus_weight: u32,
    pub version: String,
    pub microdescriptor_hash: String,
}

/// The model of `Relay` in contracts: texts as sequences of characters, flags
/// as a set.
pub ghost struct RelayView {
    pub fingerprint: Seq<char>,
    pub nickname: Seq<char>,
    pub address: Seq<char>,
    pub or_port: u16,
    pub dir_port: Option<u16>,
    pub flags: Set<Seq<char>>,
    pub bandwidth: u64,
    pub consensus_weight: u32,
    pub version: Seq<char>,
    pub microdescriptor_hash: Seq<char>,
}

/// The set of the strings in `v`.
pub open spec fn flag_set(v: Seq<String>) -> Set<Seq<char>> {
    Set::new(|s: Seq<char>| exists|i: int| 0 <= i < v.len() && (#[trigger] v[i])@ == s)
}

impl View for Relay {
    type V = RelayView;

    open spec fn view(&self) -> RelayView {
        RelayView {
            fingerprint: self.fingerprint@,
            nickname: self.nickname@,
            address: self.address@,
            or_port: self.or_port,
            dir_port: self.dir_port,
            flags: flag_set(self.flags@),
            bandwidth: self.bandwidth,
            consensus_weight: self.consensus_weight,
            version: self.version@,
            microdescriptor_hash: self.microdescriptor_hash@,
        }
    }
}

/// Whether `flag` is among `list`.
pub fn contains_flag(list: &Vec<String>, flag: &str) -> (found: bool)
    ensures
        found == flag_set(list@).contains(flag@),
{
    let wanted = String::from_str(flag);
    let mut i: usize = 0;
    while i < list.len()
        invariant
            i <= list@.len(),
            wanted@ == flag@,
            forall|k: int| 0 <= k < i ==> (#[trigger] list@[k])@ != flag@,
        decreases list@.len() - i,
    {
        if list[i] == wanted {
            return true;
        }
        i += 1;
    }
    false
}

/// A copy of a list of strings.
fn copy_strings(list: &Vec<String>) -> (out: Vec<String>)
    ensures
        out@ == list@,
{
    let mut out: Vec<String> = Vec::new();
    let mut i: usize = 0;
    while i < list.len()
        invariant
            i <= list@.len(),
            out@ == list@.subrange(0, i as int),
        decreases list@.len() - i,
    {
        out.push(list[i].clone());
        i += 1;
    }
    out
}

impl Clone for Relay {
    fn clone(&self) -> (copy: Self)
        ensures
            copy@ == self@,
            copy.flags@ == self.flags@,
    {
        Relay {
            fingerprint: self.fingerprint.clone(),
            nickname: self.nickname.clone(),
            address: self.address.clone(),
            or_port: self.or_port,
            dir_port: self.dir_port,
            flags: copy_strings(&self.flags),
            bandwidth: self.bandwidth,
            consensus_weight: self.consensus_weight,
            version: self.version.clone(),
            microdescriptor_hash: self.microdescriptor_hash.clone(),
        }
    }
}

impl Relay {
    /// Whether the relay has the flag `flag`.
    pub fn has_flag(&self, flag: &str) -> (found: bool)
        ensures
            found == self@.flags.contains(flag@),
    {
        contains_flag(&self.flags, flag)
    }
}

/// What a relay must be like to be chosen.
#[derive(Debug)]
pub struct RelayCriteria {
    /// Flags the relay must have, as a set.
    pub need_flags: Vec<String>,
    /// Flags the relay must not have, as a set.
    pub exclude_flags: Vec<String>,
    pub min_bandwidth: u64,
    /// The most relays to choose.
    pub max_selection: usize,
}

/// The model of `RelayCriteria` in contracts, with the flags as sets.
pub ghost struct CriteriaView {
    pub need_flags: Set<Seq<char>>,
    pub exclude_flags: Set<Seq<char>>,
    pub min_bandwidth: u64,
    pub max_selection: usize,
}

impl View for RelayCriteria {
    type V = CriteriaView;

    open spec fn view(&self) -> CriteriaView {
        CriteriaView {
            need_flags: flag_set(self.need_flags@),
            exclude_flags: flag_set(self.exclude_flags@),
            min_bandwidth: self.min_bandwidth,
            max_selection: self.max_selection,
        }
    }
}

impl Clone for RelayCriteria {
    fn clone(&self) -> (copy: Self)
        ensures
            copy@ == self@,
    {
        RelayCriteria {
            need_flags: copy_strings(&self.need_flags),
            exclude_flags: copy_strings(&self.exclude_flags),
            min_bandwidth: self.min_bandwidth,
            max_selection: self.max_selection,
        }
    }
}

impl Default for RelayCriteria {
    /// Criteria that every relay meets, for up to ten relays.
    fn default() -> (c: Self)
        ensures
            c@ == (CriteriaView {
                need_flags: Set::empty(),
                exclude_flags: Set::empty(),
                min_bandwidth: 0,
                max_selection: 10,
            }),
    {
        let c = RelayCriteria {
            need_flags: Vec::new(),
            exclude_flags: Vec::new(),
            min_bandwidth: 0,
            max_selection: 10,
        };
        assert(flag_set(c.need_flags@) =~= Set::empty());
        assert(flag_set(c.exclude_flags@) =~= Set::empty());
        c
    }
}

/// Adds a string to a list that stands for a set.
fn insert_flag(list: &mut Vec<String>, flag: &str)
    ensures
        flag_set(final(list)@) == flag_set(old(list)@).insert(flag@),
{
    if !contains_flag(list, flag) {
        list.push(String::from_str(flag));
        assert forall|s: Seq<char>| flag_set(list@).contains(s) <==> flag_set(old(list)@).insert(
            flag@,
        ).contains(s) by {
            if flag_set(old(list)@).contains(s) {
                let i = choose|i: int| 0 <= i < old(list)@.len() && (#[trigger] old(list)@[i])@ == s;
                assert(list@[i]@ == s);
            }
            if s == flag@ {
                assert(list@[list@.len() - 1]@ == s);
            }
        }
    }
}

impl RelayCriteria {
    /// Criteria that every relay meets, for up to ten relays.
    pub fn new() -> (c: Self)
        ensures
            c@ == (CriteriaView {
                need_flags: Set::empty(),
                exclude_flags: Set::empty(),
                min_bandwidth: 0,
                max_selection: 10,
            }),
    {
        Self::default()
    }

    /// The same criteria, and the relay must have `flag`.
    pub fn with_flag(self, flag: &str) -> (c: Self)
        ensures
            c@ == (CriteriaView { need_flags: self@.need_flags.insert(flag@), ..self@ }),
    {
        let mut c = self;
        insert_flag(&mut c.need_flags, flag);
        c
    }

    /// The same criteria, and the relay must not have `flag`.
    pub fn without_flag(self, flag: &str) -> (c: Self)
        ensures
            c@ == (CriteriaView { exclude_flags: self@.exclude_flags.insert(flag@), ..self@ }),
    {
        let mut c = self;
        insert_flag(&mut c.exclude_flags, flag);
        c
    }

    /// The same criteria with another least bandwidth.
    pub fn with_min_bandwidth(self, bandwidth: u64) -> (c: Self)
        ensures
            c@ == (CriteriaView { min_bandwidth: bandwidth, ..self@ }),
    {
        let mut c = self;
        c.min_bandwidth = bandwidth;
        c
    }

    /// The same criteria with another limit on the number of relays.
    pub fn with_max_selection(self, max: usize) -> (c: Self)
        ensures
            c@ == (CriteriaView { max_selection: max, ..self@ }),
    {
        let mut c = self;
        c.max_selection = max;
        c
    }
}

/// Whether `relay` meets `criteria`: it has every needed flag and no
/// excluded one, and at least the bandwidth asked for.
pub open spec fn meets(relay: RelayView, criteria: CriteriaView) -> bool {
    &&& criteria.need_flags.subset_of(relay.flags)
    &&& criteria.exclude_flags.disjoint(relay.flags)
    &&& relay.bandwidth >= criteria.min_bandwidth
}

/// Whether the relay at `a` is chosen before the one at `b`: the higher
/// consensus weight goes first, and of two equal weights the one that
/// stands first in the list.
pub open spec fn goes_before(relays: Seq<Relay>, a: int, b: int) -> bool {
    relays[a].consensus_weight > relays[b].consensus_weight || (relays[a].consensus_weight
        == relays[b].consensus_weight && a < b)
}

/// Whether `chosen` lists, by position in `relays`, the relays that are
/// selected under `criteria`: relays that meet the criteria, in the order
/// in which they are chosen, at most `max_selection` of them, and none is
/// passed over: a relay that meets the criteria and is not listed comes
/// after all that are, and then the list is full.
pub open spec fn is_selection(relays: Seq<Relay>, criteria: CriteriaView, chosen: Seq<int>) -> bool {
    &&& chosen.len() <= criteria.max_selection
    &&& forall|i: int|
        0 <= i < chosen.len() ==> 0 <= #[trigger] chosen[i] < relays.len() && meets(
            relays[chosen[i]]@,
            criteria,
        )
    &&& forall|i: int, j: int|
        0 <= i < j < chosen.len() ==> goes_before(relays, #[trigger] chosen[i], #[trigger] chosen[j])
    &&& forall|k: int|
        0 <= k < relays.len() && meets((#[trigger] relays[k])@, criteria) && !chosen.contains(k)
            ==> chosen.len() == criteria.max_selection && (chosen.len() > 0 ==> goes_before(
            relays,
            chosen[chosen.len() - 1],
            k,
        ))
}

/// Whether `selected` holds copies of the relays at the positions
/// `chosen`.
pub open spec fn copies_of(selected: Seq<Relay>, relays: Seq<Relay>, chosen: Seq<int>) -> bool {
    selected.len() == chosen.len() && forall|i: int|
        0 <= i < selected.len() ==> (#[trigger] selected[i])@ == relays[chosen[i]]@
}

/// Whether some relay of `relays` meets `criteria`.
pub open spec fn any_meets(relays: Seq<Relay>, criteria: CriteriaView) -> bool {
    exists|k: int| 0 <= k < relays.len() && meets((#[trigger] relays[k])@, criteria)
}

/// Whether every string of `list` is among `flags`.
fn all_present(list: &Vec<String>, flags: &Vec<String>) -> (ok: bool)
    ensures
        ok == flag_set(list@).subset_of(flag_set(flags@)),
{
    let mut i: usize = 0;
    while i < list.len()
        invariant
            i <= list@.len(),
            forall|k: int| 0 <= k < i ==> flag_set(flags@).contains((#[trigger] list@[k])@),
        decreases list@.len() - i,
    {
        if !contains_flag(flags, list[i].as_str()) {
            assert(flag_set(list@).contains(list@[i as int]@));
            return false;
        }
        i += 1;
    }
    true
}

/// Whether no string of `list` is among `flags`.
fn none_present(list: &Vec<String>, flags: &Vec<String>) -> (ok: bool)
    ensures
        ok == flag_set(list@).disjoint(flag_set(flags@)),
{
    let mut i: usize = 0;
    while i < list.len()
        invariant
            i <= list@.len(),
            forall|k: int| 0 <= k < i ==> !flag_set(flags@).contains((#[trigger] list@[k])@),
        decreases list@.len() - i,
    {
        if contains_flag(flags, list[i].as_str()) {
            assert(flag_set(list@).contains(list@[i as int]@));
            return false;
        }
        i += 1;
    }
    true
}

/// Whether `relay` meets `criteria`.
pub fn relay_meets(relay: &Relay, criteria: &RelayCriteria) -> (ok: bool)
    ensures
        ok == meets(relay@, criteria@),
{
    all_present(&criteria.need_flags, &relay.flags) && none_present(
        &criteria.exclude_flags,
        &relay.flags,
    ) && relay.bandwidth >= criteria.min_bandwidth
}

/// The relays known to the client.
#[derive(Debug)]
pub struct RelayManager {
    pub relays: Vec<Relay>,
}

impl RelayManager {
    /// A manager of the relays `relays`.
    pub fn new(relays: Vec<Relay>) -> (manager: Self)
        ensures
            manager.relays == relays,
    {
        RelayManager { relays }
    }

    /// The position of the relay that is chosen next after the one at
    /// `last`, or first of all where `last` is `None`: the one that meets
    /// the criteria, comes after `last`, and goes before every other such
    /// relay.
    fn next_choice(&self, criteria: &RelayCriteria, last: Option<usize>) -> (r: Option<usize>)
        requires
            last matches Some(l) ==> l < self.relays@.len(),
        ensures
            r matches Some(b) ==> {
                &&& b < self.relays@.len()
                &&& meets(self.relays@[b as int]@, criteria@)
                &&& last matches Some(l) ==> goes_before(self.relays@, l as int, b as int)
            },
            forall|k: int|
                0 <= k < self.relays@.len() && meets((#[trigger] self.relays@[k])@, criteria@) && (
                last matches Some(l) ==> goes_before(self.relays@, l as int, k)) ==> (r matches Some(
                    b,
                ) && (b == k || goes_before(self.relays@, b as int, k))),
    {
        let mut best: Option<usize> = None;
        let mut j: usize = 0;
        while j < self.relays.len()
            invariant
                j <= self.relays@.len(),
                last matches Some(l) ==> l < self.relays@.len(),
                best matches Some(b) ==> {
                    &&& b < j
                    &&& meets(self.relays@[b as int]@, criteria@)
                    &&& last matches Some(l) ==> goes_before(self.relays@, l as int, b as int)
                },
                forall|k: int|
                    0 <= k < j && meets((#[trigger] self.relays@[k])@, criteria@) && (
                    last matches Some(l) ==> goes_before(self.relays@, l as int, k)) ==> (
                    best matches Some(b) && (b == k || goes_before(self.relays@, b as int, k))),
            decreases self.relays@.len() - j,
        {
            let weight = self.relays[j].consensus_weight;
            let after_last = match last {
                None => true,
                Some(l) => {
                    let lw = self.relays[l].consensus_weight;
                    lw > weight || (lw == weight && l < j)
                },
            };
            if after_last && relay_meets(&self.relays[j], criteria) {
                let better = match best {
                    None => true,
                    Some(b) => weight > self.relays[b].consensus_weight,
                };
                if better {
                    best = Some(j);
                }
            }
            j += 1;
        }
        best
    }

    /// Selects the relays that meet `criteria`, the highest consensus
    /// weight first and relays of equal weight in the order of the list,
    /// up to `max_selection` of them. If no relay meets the criteria, it
    /// is a `RelaySelection` error.
    pub fn select_relays(&self, criteria: &RelayCriteria) -> (r: Result<Vec<Relay>, TorError>)
        ensures
            r is Ok <==> any_meets(self.relays@, criteria@),
            r matches Ok(selected) ==> exists|chosen: Seq<int>|
                is_selection(self.relays@, criteria@, chosen) && copies_of(
                    selected@,
                    self.relays@,
                    chosen,
                ),
            r matches Err(e) ==> e is RelaySelection && e.text()
                == "No relays match the selection criteria"@,
    {
        let mut selected: Vec<Relay> = Vec::new();
        let ghost mut chosen: Seq<int> = Seq::empty();
        let mut last: Option<usize> = None;
        let mut full = false;
        while selected.len() < criteria.max_selection
            invariant
                selected@.len() <= criteria.max_selection,
                copies_of(selected@, self.relays@, chosen),
                match last {
                    None => chosen.len() == 0,
                    Some(l) => chosen.len() > 0 && chosen[chosen.len() - 1] == l,
                },
                forall|i: int|
                    0 <= i < chosen.len() ==> 0 <= #[trigger] chosen[i] < self.relays@.len() && meets(
                        self.relays@[chosen[i]]@,
                        criteria@,
                    ),
                forall|i: int, j: int|
                    0 <= i < j < chosen.len() ==> goes_before(
                        self.relays@,
                        #[trigger] chosen[i],
                        #[trigger] chosen[j],
                    ),
                forall|k: int|
                    0 <= k < self.relays@.len() && meets((#[trigger] self.relays@[k])@, criteria@)
                        && !chosen.contains(k) ==> !full && (chosen.len() > 0 ==> goes_before(
                        self.relays@,
                        chosen[chosen.len() - 1],
                        k,
                    )),
            ensures
                full || selected@.len() == criteria.max_selection,
            decreases criteria.max_selection - selected@.len() + (if full { 0int } else { 1int }),
        {
            match self.next_choice(criteria, last) {
                None => {
                    full = true;
                    break ;
                },
                Some(b) => {
                    let ghost before = chosen;
                    selected.push(self.relays[b].clone());
                    proof {
                        chosen = chosen.push(b as int);
                        assert forall|k: int|
                            0 <= k < self.relays@.len() && meets(
                                (#[trigger] self.relays@[k])@,
                                criteria@,
                            ) && !chosen.contains(k) implies goes_before(
                            self.relays@,
                            b as int,
                            k,
                        ) by {
                            if before.contains(k) {
                                let i = choose|i: int| 0 <= i < before.len() && before[i] == k;
                                assert(chosen[i] == k);
                            }
                            assert(chosen[chosen.len() - 1] == b);
                        }
                        assert forall|i: int, j: int| 0 <= i < j < chosen.len() implies goes_before(
                            self.relays@,
                            #[trigger] chosen[i],
                            #[trigger] chosen[j],
                        ) by {
                            if j == chosen.len() - 1 && i < before.len() - 1 {
                                assert(goes_before(self.relays@, before[i], before[before.len() - 1]));
                            }
                        }
                    }
                    last = Some(b);
                },
            }
        }
        if selected.len() == 0 && !self.has_match(criteria) {
            return Err(TorError::relay_selection("No relays match the selection criteria"));
        }
        proof {
            if any_meets(self.relays@, criteria@) {
            } else {
                assert(chosen.len() == 0);
            }
            assert(is_selection(self.relays@, criteria@, chosen));
        }
        Ok(selected)
    }

    /// Whether some relay meets `criteria`.
    fn has_match(&self, criteria: &RelayCriteria) -> (found: bool)
        ensures
            found == any_meets(self.relays@, criteria@),
    {
        let mut i: usize = 0;
        while i < self.relays.len()
            invariant
                i <= self.relays@.len(),
                forall|k: int| 0 <= k < i ==> !meets((#[trigger] self.relays@[k])@, criteria@),
            decreases self.relays@.len() - i,
        {
            if relay_meets(&self.relays[i], criteria) {
                return true;
            }
            i += 1;
        }
        false
    }

    /// Selects the relay that `select_relays` puts first. If no relay
    /// meets the criteria, or the criteria allow for no relay at all, it
    /// is a `RelaySelection` error.
    pub fn select_relay(&self, criteria: &RelayCriteria) -> (r: Result<Relay, TorError>)
        ensures
            r is Ok <==> any_meets(self.relays@, criteria@) && criteria.max_selection > 0,
            r matches Ok(relay) ==> exists|k: int|
                {
                    &&& 0 <= k < self.relays@.len()
                    &&& relay@ == (#[trigger] self.relays@[k])@
                    &&& meets(relay@, criteria@)
                    &&& forall|j: int|
                        0 <= j < self.relays@.len() && meets(
                            (#[trigger] self.relays@[j])@,
                            criteria@,
                        ) ==> j == k || goes_before(self.relays@, k, j)
                },
            r matches Err(e) ==> e is RelaySelection,
    {
        let candidates = self.select_relays(criteria)?;
        if candidates.len() == 0 {
            proof {
                let chosen = choose|chosen: Seq<int>|
                    is_selection(self.relays@, criteria@, chosen) && copies_of(
                        candidates@,
                        self.relays@,
                        chosen,
                    );
                let k = choose|k: int|
                    0 <= k < self.relays@.len() && meets((#[trigger] self.relays@[k])@, criteria@);
                assert(!chosen.contains(k));
            }
            return Err(TorError::relay_selection("No suitable relays found"));
        }
        proof {
            let chosen = choose|chosen: Seq<int>|
                is_selection(self.relays@, criteria@, chosen) && copies_of(
                    candidates@,
                    self.relays@,
                    chosen,
                );
            let k = chosen[0];
            assert(candidates@[0]@ == self.relays@[k]@);
            assert forall|j: int|
                0 <= j < self.relays@.len() && meets(
                    (#[trigger] self.relays@[j])@,
                    criteria@,
                ) implies j == k || goes_before(self.relays@, k, j) by {
                if chosen.contains(j) {
                    let i = choose|i: int| 0 <= i < chosen.len() && chosen[i] == j;
                    if i > 0 {
                        assert(goes_before(self.relays@, chosen[0], chosen[i]));
                    }
                } else {
                    if chosen.len() > 1 {
                        assert(goes_before(self.relays@, chosen[0], chosen[chosen.len() - 1]));
                    }
                }
            }
        }
        Ok(candidates[0].clone())
    }

    /// The first relay with the fingerprint `fingerprint`, if there is
    /// one.
    pub fn get_relay(&self, fingerprint: &str) -> (r: Option<&Relay>)
        ensures
            match r {
                Some(relay) => exists|k: int|
                    {
                        &&& 0 <= k < self.relays@.len()
                        &&& *relay == #[trigger] self.relays@[k]
                        &&& relay.fingerprint@ == fingerprint@
                        &&& forall|j: int|
                            0 <= j < k ==> (#[trigger] self.relays@[j]).fingerprint@ != fingerprint@
                    },
                None => forall|j: int|
                    0 <= j < self.relays@.len() ==> (#[trigger] self.relays@[j]).fingerprint@
                        != fingerprint@,
            },
    {
        let wanted = String::from_str(fingerprint);
        let mut i: usize = 0;
        while i < self.relays.len()
            invariant
                i <= self.relays@.len(),
                wanted@ == fingerprint@,
                forall|j: int|
                    0 <= j < i ==> (#[trigger] self.relays@[j]).fingerprint@ != fingerprint@,
            decreases self.relays@.len() - i,
        {
            if self.relays[i].fingerprint == wanted {
                return Some(&self.relays[i]);
            }
            i += 1;
        }
        None
    }

    /// Replaces the list of relays.
    pub fn update_relays(&mut self, new_relays: Vec<Relay>)
        ensures
            final(self).relays == new_relays,
    {
        self.relays = new_relays;
    }
}

/// Two selections under the same criteria agree on their first `n`
/// positions.
proof fn lemma_selections_agree(
    relays: Seq<Relay>,
    criteria: CriteriaView,
    first: Seq<int>,
    second: Seq<int>,
    n: int,
)
    requires
        is_selection(relays, criteria, first),
        is_selection(relays, criteria, second),
        0 <= n <= first.len(),
        n <= second.len(),
    ensures
        forall|i: int| 0 <= i < n ==> first[i] == second[i],
    decreases n,
{
    if n > 0 {
        lemma_selections_agree(relays, criteria, first, second, n - 1);
        let i = n - 1;
        let a = first[i];
        let b = second[i];
        if a != b {
            if goes_before(relays, a, b) {
                lemma_not_passed_over(relays, criteria, second, first, i);
            } else {
                assert(goes_before(relays, b, a));
                lemma_not_passed_over(relays, criteria, first, second, i);
            }
        }
    }
}

/// Where two selections agree before position `i`, the relay that
/// `other` has at `i` does not go before the one that `chosen` has there.
proof fn lemma_not_passed_over(
    relays: Seq<Relay>,
    criteria: CriteriaView,
    chosen: Seq<int>,
    other: Seq<int>,
    i: int,
)
    requires
        is_selection(relays, criteria, chosen),
        is_selection(relays, criteria, other),
        0 <= i < chosen.len(),
        i < other.len(),
        forall|j: int| 0 <= j < i ==> chosen[j] == other[j],
    ensures
        !goes_before(relays, other[i], chosen[i]),
{
    let k = other[i];
    if goes_before(relays, k, chosen[i]) {
        if chosen.contains(k) {
            let j = choose|j: int| 0 <= j < chosen.len() && chosen[j] == k;
            if j < i {
                assert(other[j] == k);
                assert(goes_before(relays, other[j], other[i]));
            } else if j > i {
                assert(goes_before(relays, chosen[i], chosen[j]));
            }
        } else {
            assert(meets(relays[k]@, criteria));
            let last = chosen[chosen.len() - 1];
            assert(goes_before(relays, last, k));
            if i < chosen.len() - 1 {
                assert(goes_before(relays, chosen[i], last));
            }
        }
    }
}

/// Criteria select one list of relays and no other: whatever meets the
/// description of a selection is the same list.
pub proof fn lemma_selection_is_unique(
    relays: Seq<Relay>,
    criteria: CriteriaView,
    first: Seq<int>,
    second: Seq<int>,
)
    requires
        is_selection(relays, criteria, first),
        is_selection(relays, criteria, second),
    ensures
        first == second,
{
    if first.len() <= second.len() {
        lemma_selections_agree(relays, criteria, first, second, first.len() as int);
        if first.len() < second.len() {
            lemma_selection_is_full(relays, criteria, first, second);
        }
    } else {
        lemma_selections_agree(relays, criteria, first, second, second.len() as int);
        lemma_selection_is_full(relays, criteria, second, first);
    }
    assert(first =~= second);
}

/// A selection that a longer one starts with holds as many relays as the
/// criteria allow, which leaves no room for a longer one.
proof fn lemma_selection_is_full(
    relays: Seq<Relay>,
    criteria: CriteriaView,
    short: Seq<int>,
    long: Seq<int>,
)
    requires
        is_selection(relays, criteria, short),
        is_selection(relays, criteria, long),
        short.len() < long.len(),
        forall|i: int| 0 <= i < short.len() ==> short[i] == long[i],
    ensures
        short.len() == criteria.max_selection,
{
    let k = long[short.len() as int];
    if short.contains(k) {
        let j = choose|j: int| 0 <= j < short.len() && short[j] == k;
        assert(long[j] == k);
        assert(goes_before(relays, long[j], long[short.len() as int]));
    } else {
        assert(meets(relays[k]@, criteria));
    }
}

} // verus!
