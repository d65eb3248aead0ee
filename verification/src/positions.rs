//! The position store: a mapping from user identifier to a 2D cursor
//! coordinate, with insert-or-overwrite update, a fixed-roster initializer,
//! and snapshots for safe handoff to the renderer.

use vstd::prelude::*;
use vstd::pervasive::VecAdditionalExecFns;

verus! {

/// A cursor coordinate, top-left anchored. Coordinates are whole device
/// pixels; the embedding layer converts to and from the host's numeric type.
#[derive(Clone, Copy, PartialEq, Eq, Structural, Debug)]
pub struct CursorPosition {
    pub x: i64,
    pub y: i64,
}

/// Mapping from user identifier to current cursor coordinate.
///
/// Entries are kept as a vector of key/value pairs with pairwise-distinct
/// keys; the abstract value (the view) is the finite map those pairs denote.
pub struct UserCursorPositionMap {
    entries: Vec<(String, CursorPosition)>,
}

/// The finite map denoted by a sequence of key/value pairs, later pairs
/// overriding earlier ones.
pub open spec fn seq_to_map(s: Seq<(Seq<char>, CursorPosition)>) -> Map<Seq<char>, CursorPosition>
    decreases s.len(),
{
    if s.len() == 0 {
        Map::empty()
    } else {
        seq_to_map(s.drop_last()).insert(s.last().0, s.last().1)
    }
}

/// Vertical distance between the default coordinates of consecutive roster
/// members.
pub const ROSTER_STACK_STEP: i64 = 50;

/// The views of the identifiers in a roster.
pub open spec fn roster_view(roster: Seq<String>) -> Seq<Seq<char>> {
    Seq::new(roster.len(), |i: int| roster[i]@)
}

/// The map the store holds right after initialization from `ids`: each
/// identifier at x = 0, stacked vertically by `ROSTER_STACK_STEP` per roster
/// index, later duplicates overriding earlier ones.
pub open spec fn initial_positions(ids: Seq<Seq<char>>) -> Map<Seq<char>, CursorPosition>
    decreases ids.len(),
{
    if ids.len() == 0 {
        Map::empty()
    } else {
        initial_positions(ids.drop_last()).insert(
            ids.last(),
            CursorPosition { x: 0, y: (ROSTER_STACK_STEP * (ids.len() - 1)) as i64 },
        )
    }
}

/// All keys of the pair sequence are pairwise distinct.
pub open spec fn distinct_keys(s: Seq<(Seq<char>, CursorPosition)>) -> bool {
    forall|i: int, j: int| 0 <= i < j < s.len() ==> (#[trigger] s[i]).0 != (#[trigger] s[j]).0
}

/// A key that occurs in no pair is not in the denoted map.
proof fn lemma_seq_to_map_no_key(s: Seq<(Seq<char>, CursorPosition)>, k: Seq<char>)
    requires
        forall|i: int| 0 <= i < s.len() ==> (#[trigger] s[i]).0 != k,
    ensures
        !seq_to_map(s).dom().contains(k),
    decreases s.len(),
{
    if s.len() > 0 {
        lemma_seq_to_map_no_key(s.drop_last(), k);
    }
}

/// Under distinct keys, each pair is reflected exactly in the denoted map.
proof fn lemma_seq_to_map_index(s: Seq<(Seq<char>, CursorPosition)>, i: int)
    requires
        distinct_keys(s),
        0 <= i < s.len(),
    ensures
        seq_to_map(s).dom().contains(s[i].0),
        seq_to_map(s)[s[i].0] == s[i].1,
    decreases s.len(),
{
    if i < s.len() - 1 {
        lemma_seq_to_map_index(s.drop_last(), i);
        assert(s.drop_last()[i] == s[i]);
        assert(s[i].0 != s.last().0);
    }
}

/// Under distinct keys, the denoted map has exactly one entry per pair.
proof fn lemma_seq_to_map_len(s: Seq<(Seq<char>, CursorPosition)>)
    requires
        distinct_keys(s),
    ensures
        seq_to_map(s).dom().finite(),
        seq_to_map(s).dom().len() == s.len(),
    decreases s.len(),
{
    broadcast use vstd::set::group_set_axioms;

    if s.len() > 0 {
        lemma_seq_to_map_len(s.drop_last());
        lemma_seq_to_map_no_key(s.drop_last(), s.last().0);
    }
}

/// Under distinct keys, overwriting the value of the pair at index `i`
/// denotes the same map as inserting that key with the new value.
proof fn lemma_seq_to_map_update(s: Seq<(Seq<char>, CursorPosition)>, i: int, v: CursorPosition)
    requires
        distinct_keys(s),
        0 <= i < s.len(),
    ensures
        seq_to_map(s.update(i, (s[i].0, v))) == seq_to_map(s).insert(s[i].0, v),
    decreases s.len(),
{
    let t = s.update(i, (s[i].0, v));
    if i == s.len() - 1 {
        assert(t.drop_last() =~= s.drop_last());
        assert(seq_to_map(t) =~= seq_to_map(s).insert(s[i].0, v));
    } else {
        lemma_seq_to_map_update(s.drop_last(), i, v);
        assert(t.drop_last() =~= s.drop_last().update(i, (s[i].0, v)));
        assert(t.last() == s.last());
        assert(s[i].0 != s.last().0);
        assert(seq_to_map(t) =~= seq_to_map(s).insert(s[i].0, v));
    }
}

impl View for UserCursorPositionMap {
    type V = Map<Seq<char>, CursorPosition>;

    closed spec fn view(&self) -> Map<Seq<char>, CursorPosition> {
        seq_to_map(self.entries_view())
    }
}

impl UserCursorPositionMap {
    /// The stored key/value pairs, in insertion order.
    pub closed spec fn entries_view(&self) -> Seq<(Seq<char>, CursorPosition)> {
        self.entries@.map_values(|e: (String, CursorPosition)| (e.0@, e.1))
    }

    #[verifier::type_invariant]
    spec fn wf(&self) -> bool {
        distinct_keys(self.entries_view())
    }

    /// An empty map.
    pub fn new() -> (r: UserCursorPositionMap)
        ensures
            r@ == Map::<Seq<char>, CursorPosition>::empty(),
            r.entries_view() == Seq::<(Seq<char>, CursorPosition)>::empty(),
    {
        let r = UserCursorPositionMap { entries: Vec::new() };
        proof {
            assert(r.entries_view() =~= Seq::<(Seq<char>, CursorPosition)>::empty());
        }
        r
    }

    /// Number of users currently stored.
    pub fn len(&self) -> (n: usize)
        ensures
            n == self@.dom().len(),
            n == self.entries_view().len(),
    {
        proof {
            use_type_invariant(&*self);
            lemma_seq_to_map_len(self.entries_view());
        }
        self.entries.len()
    }

    /// Inserts or overwrites the entry for `user_id` with `pos`.
    ///
    /// Overwriting keeps the entry's place in insertion order; a new user is
    /// appended at the end.
    pub fn update(&mut self, user_id: String, pos: CursorPosition)
        ensures
            final(self)@ == old(self)@.insert(user_id@, pos),
            old(self)@.dom().contains(user_id@) ==> exists|i: int|
                0 <= i < old(self).entries_view().len()
                    && (#[trigger] old(self).entries_view()[i]).0 == user_id@
                    && final(self).entries_view() == old(self).entries_view().update(
                    i,
                    (user_id@, pos),
                ),
            !old(self)@.dom().contains(user_id@) ==> final(self).entries_view() == old(
                self,
            ).entries_view().push((user_id@, pos)),
    {
        proof {
            use_type_invariant(&*self);
        }
        let ghost s0 = self.entries_view();
        let mut entries: Vec<(String, CursorPosition)> = Vec::new();
        std::mem::swap(&mut entries, &mut self.entries);
        let n = entries.len();
        let mut i: usize = 0;
        while i < n
            invariant
                n == entries.len(),
                s0.len() == n,
                old(self).entries_view() == s0,
                forall|j: int|
                    0 <= j < n ==> s0[j] == ((#[trigger] entries@[j]).0@, entries@[j].1),
                distinct_keys(s0),
                forall|j: int| 0 <= j < i ==> (#[trigger] s0[j]).0 != user_id@,
                i <= n,
                self.entries@.len() == 0,
            decreases n - i,
        {
            if entries[i].0 == user_id {
                let key = entries[i].0.clone();
                entries.set(i, (key, pos));
                proof {
                    assert(s0[i as int].0 == user_id@);
                    assert(forall|j: int|
                        0 <= j < n ==> ((#[trigger] entries@[j]).0@, entries@[j].1) == s0.update(
                            i as int,
                            (user_id@, pos),
                        )[j]);
                }
                self.entries = entries;
                proof {
                    assert(self.entries_view() =~= s0.update(i as int, (user_id@, pos)));
                    lemma_seq_to_map_update(s0, i as int, pos);
                    lemma_seq_to_map_index(s0, i as int);
                }
                return ;
            }
            i += 1;
        }
        entries.push((user_id, pos));
        proof {
            lemma_seq_to_map_no_key(s0, user_id@);
        }
        self.entries = entries;
        proof {
            assert(self.entries_view() =~= s0.push((user_id@, pos)));
            assert(s0.push((user_id@, pos)).drop_last() =~= s0);
            assert(self@ == seq_to_map(s0).insert(user_id@, pos));
        }
    }

    /// Looks up the current coordinate of `user_id`.
    pub fn get(&self, user_id: &String) -> (r: Option<CursorPosition>)
        ensures
            r == if self@.dom().contains(user_id@) {
                Some(self@[user_id@])
            } else {
                None::<CursorPosition>
            },
    {
        proof {
            use_type_invariant(&*self);
        }
        let n = self.entries.len();
        let mut i: usize = 0;
        while i < n
            invariant
                n == self.entries.len(),
                forall|j: int|
                    0 <= j < i ==> (#[trigger] self.entries_view()[j]).0 != user_id@,
                i <= n,
                distinct_keys(self.entries_view()),
            decreases n - i,
        {
            if self.entries[i].0 == *user_id {
                proof {
                    lemma_seq_to_map_index(self.entries_view(), i as int);
                }
                return Some(self.entries[i].1);
            }
            i += 1;
        }
        proof {
            lemma_seq_to_map_no_key(self.entries_view(), user_id@);
        }
        None
    }

    /// The entry at position `i` in insertion order, as a fresh pair.
    pub fn entry_at(&self, i: usize) -> (e: (String, CursorPosition))
        requires
            i < self@.dom().len(),
        ensures
            (e.0@, e.1) == self.entries_view()[i as int],
    {
        proof {
            use_type_invariant(&*self);
            lemma_seq_to_map_len(self.entries_view());
        }
        let entry = &self.entries[i];
        (entry.0.clone(), entry.1)
    }

    /// An independent copy of the current map, safe to hand to the renderer
    /// while this one continues to be mutated.
    pub fn snapshot(&self) -> (r: UserCursorPositionMap)
        ensures
            r@ == self@,
            r.entries_view() == self.entries_view(),
    {
        proof {
            use_type_invariant(&*self);
        }
        let n = self.entries.len();
        let mut entries: Vec<(String, CursorPosition)> = Vec::new();
        let mut i: usize = 0;
        while i < n
            invariant
                n == self.entries.len(),
                i <= n,
                entries@.len() == i,
                forall|j: int|
                    0 <= j < i ==> ((#[trigger] entries@[j]).0@, entries@[j].1)
                        == self.entries_view()[j],
            decreases n - i,
        {
            let entry = &self.entries[i];
            entries.push((entry.0.clone(), entry.1));
            i += 1;
        }
        let r = UserCursorPositionMap { entries };
        proof {
            assert(r.entries_view() =~= self.entries_view());
        }
        r
    }
}

/// Builds the store's fixed initial population: one entry per roster member,
/// each at the deterministic default coordinate `(0, ROSTER_STACK_STEP * i)`
/// for roster index `i`. Replaces any previous contents.
pub fn initialize_user_cursor_positions(roster: &Vec<String>) -> (map: UserCursorPositionMap)
    requires
        ROSTER_STACK_STEP * roster@.len() <= i64::MAX,
    ensures
        map@ == initial_positions(roster_view(roster@)),
{
    let ghost ids = roster_view(roster@);
    let mut map = UserCursorPositionMap::new();
    let n = roster.len();
    let mut i: usize = 0;
    let mut y: i64 = 0;
    while i < n
        invariant
            n == roster.len(),
            ids == roster_view(roster@),
            ids.len() == n,
            ROSTER_STACK_STEP * n <= i64::MAX,
            i <= n,
            y == ROSTER_STACK_STEP * i,
            map@ == initial_positions(ids.take(i as int)),
        decreases n - i,
    {
        let user = roster[i].clone();
        map.update(user, CursorPosition { x: 0, y });
        y = y + ROSTER_STACK_STEP;
        i += 1;
        proof {
            assert(ids.take(i as int).drop_last() =~= ids.take(i as int - 1));
            assert(ids.take(i as int).last() == ids[i as int - 1]);
        }
    }
    proof {
        assert(ids.take(n as int) =~= ids);
    }
    map
}

/// Returns an immutable copy of the current map for safe handoff to the
/// renderer.
pub fn get_user_cursor_positions(map: &UserCursorPositionMap) -> (r: UserCursorPositionMap)
    ensures
        r@ == map@,
        r.entries_view() == map.entries_view(),
{
    map.snapshot()
}

/// After initialization from a roster of pairwise-distinct identifiers, the
/// store holds exactly one entry per identifier, all with the same x-offset
/// and with strictly increasing y-offsets: roster index `i` sits at
/// `(0, ROSTER_STACK_STEP * i)`.
pub proof fn lemma_initial_positions_roster(ids: Seq<Seq<char>>)
    requires
        forall|i: int, j: int| 0 <= i < j < ids.len() ==> ids[i] != ids[j],
        ROSTER_STACK_STEP * ids.len() <= i64::MAX,
    ensures
        initial_positions(ids).dom().finite(),
        initial_positions(ids).dom().len() == ids.len(),
        forall|i: int|
            0 <= i < ids.len() ==> initial_positions(ids).dom().contains(#[trigger] ids[i]),
        forall|i: int|
            0 <= i < ids.len() ==> initial_positions(ids)[#[trigger] ids[i]] == (CursorPosition {
                x: 0,
                y: (ROSTER_STACK_STEP * i) as i64,
            }),
        forall|i: int, j: int|
            0 <= i < j < ids.len() ==> initial_positions(ids)[#[trigger] ids[i]].y
                < initial_positions(ids)[#[trigger] ids[j]].y,
        forall|k: Seq<char>|
            #[trigger] initial_positions(ids).dom().contains(k) ==> ids.contains(k),
    decreases ids.len(),
{
    broadcast use vstd::set::group_set_axioms;

    if ids.len() > 0 {
        let prefix = ids.drop_last();
        lemma_initial_positions_roster(prefix);
        assert(forall|i: int| 0 <= i < prefix.len() ==> prefix[i] == ids[i]);
        assert(!initial_positions(prefix).dom().contains(ids.last()));
        assert forall|k: Seq<char>| #[trigger]
            initial_positions(ids).dom().contains(k) implies ids.contains(k) by {
            if k == ids.last() {
                assert(ids[ids.len() - 1] == k);
            } else {
                assert(initial_positions(prefix).dom().contains(k));
                let i = choose|i: int| 0 <= i < prefix.len() && prefix[i] == k;
                assert(ids[i] == k);
            }
        }
    }
}

/// Updating one user and then reading a snapshot reflects the new coordinate
/// for that user and leaves every other user's entry unchanged.
pub proof fn lemma_update_reflects_only_target(
    m: Map<Seq<char>, CursorPosition>,
    id: Seq<char>,
    pos: CursorPosition,
)
    ensures
        m.insert(id, pos).dom().contains(id),
        m.insert(id, pos)[id] == pos,
        forall|k: Seq<char>|
            k != id ==> (#[trigger] m.insert(id, pos).dom().contains(k) <==> m.dom().contains(k)),
        forall|k: Seq<char>|
            k != id && m.dom().contains(k) ==> #[trigger] m.insert(id, pos)[k] == m[k],
{
}

/// Updating a previously unknown user adds a new entry rather than failing:
/// the domain grows by exactly that identifier.
pub proof fn lemma_update_unknown_adds_entry(
    m: Map<Seq<char>, CursorPosition>,
    id: Seq<char>,
    pos: CursorPosition,
)
    requires
        m.dom().finite(),
        !m.dom().contains(id),
    ensures
        m.insert(id, pos).dom().contains(id),
        m.insert(id, pos)[id] == pos,
        m.insert(id, pos).dom().len() == m.dom().len() + 1,
{
    broadcast use vstd::set::group_set_axioms;

}

/// Repeated updates to the same user are last-write-wins: only the final
/// coordinate remains.
pub proof fn lemma_update_last_write_wins(
    m: Map<Seq<char>, CursorPosition>,
    id: Seq<char>,
    first: CursorPosition,
    last: CursorPosition,
)
    ensures
        m.insert(id, first).insert(id, last) == m.insert(id, last),
{
    assert(m.insert(id, first).insert(id, last) =~= m.insert(id, last));
}

/// Updates to distinct users commute, so the final state does not depend on
/// how their update calls interleave.
pub proof fn lemma_update_commutes(
    m: Map<Seq<char>, CursorPosition>,
    id_a: Seq<char>,
    pos_a: CursorPosition,
    id_b: Seq<char>,
    pos_b: CursorPosition,
)
    requires
        id_a != id_b,
    ensures
        m.insert(id_a, pos_a).insert(id_b, pos_b) == m.insert(id_b, pos_b).insert(id_a, pos_a),
{
    assert(m.insert(id_a, pos_a).insert(id_b, pos_b) =~= m.insert(id_b, pos_b).insert(
        id_a,
        pos_a,
    ));
}

} // verus!
