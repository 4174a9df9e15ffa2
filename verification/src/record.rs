//! The state as it is kept between runs: numbers for the desktops, and the
//! windows under their identifiers written in decimal.

use crate::state::DesktopState;
use crate::text::decimal_string;
use crate::text::digits;
use crate::text::lemma_key_round_trip;
use crate::text::parse_key;
use crate::text::read_key;
use std::collections::HashMap;
use std::collections::HashSet;
use vstd::prelude::*;

verus! {

broadcast use vstd::std_specs::hash::group_hash_axioms;

/// The state as it is kept between runs.
#[derive(Debug)]
pub struct StateRecord {
    /// Active desktop, counted from zero.
    pub current: u32,
    /// Number of desktops.
    pub desktops: u32,
    /// Each window's identifier in decimal, with its assignment.
    pub windows: Vec<(String, u32)>,
    /// The identifier in decimal of each window that its application hides.
    pub app_hidden: Vec<String>,
}

/// The assignments that the entries stand for. An entry whose key is not the
/// decimal text of an identifier stands for nothing; of two entries for one
/// window the later one counts.
pub open spec fn record_windows(entries: Seq<(String, u32)>) -> Map<u32, u32>
    decreases entries.len(),
{
    if entries.len() == 0 {
        Map::empty()
    } else {
        let before = record_windows(entries.drop_last());
        match parse_key(entries.last().0@) {
            Some(id) => before.insert(id, entries.last().1),
            None => before,
        }
    }
}

/// The windows that the entries stand for. An entry that is not the decimal
/// text of an identifier stands for nothing.
pub open spec fn record_hidden(entries: Seq<String>) -> Set<u32>
    decreases entries.len(),
{
    if entries.len() == 0 {
        Set::empty()
    } else {
        let before = record_hidden(entries.drop_last());
        match parse_key(entries.last()@) {
            Some(id) => before.insert(id),
            None => before,
        }
    }
}

impl StateRecord {
    /// Whether the record holds the state, each window once.
    pub open spec fn is_record_of(&self, state: &DesktopState) -> bool {
        &&& self.current == state.current
        &&& self.desktops == state.desktops
        &&& record_windows(self.windows@) == state.windows@
        &&& record_hidden(self.app_hidden@) == state.app_hidden@
        &&& self.windows@.len() == state.windows@.dom().len()
        &&& self.app_hidden@.len() == state.app_hidden@.len()
        &&& forall|i: int|
            0 <= i < self.windows@.len() ==> parse_key((#[trigger] self.windows@[i]).0@) is Some
        &&& forall|i: int|
            0 <= i < self.app_hidden@.len() ==> parse_key((#[trigger] self.app_hidden@[i])@) is Some
    }

    /// Whether the state is the one that the record stands for.
    pub open spec fn restores(&self, state: &DesktopState) -> bool {
        &&& state.current == self.current
        &&& state.desktops == self.desktops
        &&& state.windows@ == record_windows(self.windows@)
        &&& state.app_hidden@ == record_hidden(self.app_hidden@)
    }
}

/// A state that was written to a record and read back is the same state.
pub proof fn lemma_record_round_trip(
    state: &DesktopState,
    record: &StateRecord,
    restored: &DesktopState,
)
    requires
        record.is_record_of(state),
        record.restores(restored),
    ensures
        restored.same_as(state),
{
}

impl DesktopState {
    /// The state as it is kept between runs. The windows come in no
    /// particular order.
    pub fn to_record(&self) -> (record: StateRecord)
        ensures
            record.is_record_of(self),
    {
        let ids = self.tracked_windows();
        let mut windows: Vec<(String, u32)> = Vec::new();
        let mut i: usize = 0;
        assert(record_windows(windows@) =~= self.windows@.restrict(ids@.take(0).to_set()));
        while i < ids.len()
            invariant
                i <= ids.len(),
                ids@.to_set() == self.windows@.dom(),
                windows@.len() == i,
                record_windows(windows@) == self.windows@.restrict(ids@.take(i as int).to_set()),
                forall|j: int| 0 <= j < i ==> parse_key((#[trigger] windows@[j]).0@) is Some,
            decreases ids.len() - i,
        {
            let id: u32 = ids[i];
            proof {
                assert(ids@.to_set().contains(id));
                lemma_key_round_trip(id);
                lemma_take_one_more(ids@, i as int);
            }
            let assigned: u32 = match self.window_desktop(id) {
                Some(desktop) => desktop,
                None => 0,
            };
            let ghost before = windows@;
            windows.push((decimal_string(id), assigned));
            i += 1;
            proof {
                assert(windows@.drop_last() =~= before);
                assert(record_windows(windows@) =~= self.windows@.restrict(
                    ids@.take(i as int).to_set(),
                ));
            }
        }
        let hidden_ids = self.hidden_windows();
        let mut app_hidden: Vec<String> = Vec::new();
        let mut k: usize = 0;
        assert(record_hidden(app_hidden@) =~= self.app_hidden@.intersect(
            hidden_ids@.take(0).to_set(),
        ));
        while k < hidden_ids.len()
            invariant
                k <= hidden_ids.len(),
                hidden_ids@.to_set() == self.app_hidden@,
                app_hidden@.len() == k,
                record_hidden(app_hidden@) == self.app_hidden@.intersect(
                    hidden_ids@.take(k as int).to_set(),
                ),
                forall|j: int| 0 <= j < k ==> parse_key((#[trigger] app_hidden@[j])@) is Some,
            decreases hidden_ids.len() - k,
        {
            let id: u32 = hidden_ids[k];
            proof {
                assert(hidden_ids@.to_set().contains(id));
                lemma_key_round_trip(id);
                lemma_take_one_more(hidden_ids@, k as int);
            }
            let ghost before = app_hidden@;
            app_hidden.push(decimal_string(id));
            k += 1;
            proof {
                assert(app_hidden@.drop_last() =~= before);
                assert(record_hidden(app_hidden@) =~= self.app_hidden@.intersect(
                    hidden_ids@.take(k as int).to_set(),
                ));
            }
        }
        proof {
            assert(ids@.take(i as int) =~= ids@);
            assert(hidden_ids@.take(k as int) =~= hidden_ids@);
            assert(self.windows@.restrict(ids@.to_set()) =~= self.windows@);
            assert(self.app_hidden@.intersect(hidden_ids@.to_set()) =~= self.app_hidden@);
            ids@.unique_seq_to_set();
            hidden_ids@.unique_seq_to_set();
        }
        StateRecord { current: self.current, desktops: self.desktops, windows, app_hidden }
    }

    /// The state that the record stands for.
    pub fn from_record(record: &StateRecord) -> (state: DesktopState)
        ensures
            record.restores(&state),
    {
        let mut windows: HashMap<u32, u32> = HashMap::new();
        let mut i: usize = 0;
        assert(record.windows@.take(0) =~= Seq::<(String, u32)>::empty());
        while i < record.windows.len()
            invariant
                i <= record.windows.len(),
                windows@ == record_windows(record.windows@.take(i as int)),
            decreases record.windows.len() - i,
        {
            proof {
                assert(record.windows@.take(i + 1).drop_last() =~= record.windows@.take(i as int));
            }
            match read_key(record.windows[i].0.as_str()) {
                Some(id) => {
                    windows.insert(id, record.windows[i].1);
                },
                None => {},
            }
            i += 1;
        }
        let mut app_hidden: HashSet<u32> = HashSet::new();
        let mut k: usize = 0;
        assert(record.app_hidden@.take(0) =~= Seq::<String>::empty());
        while k < record.app_hidden.len()
            invariant
                k <= record.app_hidden.len(),
                app_hidden@ == record_hidden(record.app_hidden@.take(k as int)),
            decreases record.app_hidden.len() - k,
        {
            proof {
                assert(record.app_hidden@.take(k + 1).drop_last() =~= record.app_hidden@.take(
                    k as int,
                ));
            }
            match read_key(record.app_hidden[k].as_str()) {
                Some(id) => {
                    app_hidden.insert(id);
                },
                None => {},
            }
            k += 1;
        }
        proof {
            assert(record.windows@.take(i as int) =~= record.windows@);
            assert(record.app_hidden@.take(k as int) =~= record.app_hidden@);
        }
        DesktopState { current: record.current, desktops: record.desktops, windows, app_hidden }
    }
}

/// The first `k + 1` items hold what the first `k` hold, and item `k`.
proof fn lemma_take_one_more(ids: Seq<u32>, k: int)
    requires
        0 <= k < ids.len(),
    ensures
        ids.take(k + 1).to_set() == ids.take(k).to_set().insert(ids[k]),
{
    let shorter = ids.take(k);
    let longer = ids.take(k + 1);
    assert forall|x: u32| longer.to_set().contains(x) <==> (shorter.to_set().contains(x) || x
        == ids[k]) by {
        if shorter.to_set().contains(x) {
            let j = choose|j: int| 0 <= j < shorter.len() && shorter[j] == x;
            assert(longer[j] == x);
        }
        if x == ids[k] {
            assert(longer[k] == x);
        }
        if longer.to_set().contains(x) {
            let j = choose|j: int| 0 <= j < longer.len() && longer[j] == x;
            if j < k {
                assert(shorter[j] == x);
            }
        }
    }
    assert(longer.to_set() =~= shorter.to_set().insert(ids[k]));
}

} // verus!
