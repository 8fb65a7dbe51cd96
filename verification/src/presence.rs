//! Reconciling successive player lists into join and leave events.
//!
//! The reconciler owns the list of players believed to be online and the
//! player count that was last published. Each call of
//! [`PresenceReconciler::reconcile`] takes the player list that the game server
//! reported, tells who joined and who left since the previous call, and tells
//! whether the published count is out of date.

use vstd::prelude::*;

verus! {

/// The names that appear in `snapshot` and are not in `observed`, each once,
/// in the order of their first appearance in `snapshot`.
pub open spec fn joins(observed: Seq<Seq<char>>, snapshot: Seq<Seq<char>>) -> Seq<Seq<char>>
    decreases snapshot.len(),
{
    if snapshot.len() == 0 {
        Seq::empty()
    } else {
        let earlier = snapshot.drop_last();
        let name = snapshot.last();
        if observed.contains(name) || earlier.contains(name) {
            joins(observed, earlier)
        } else {
            joins(observed, earlier).push(name)
        }
    }
}

/// The names of `observed` that are absent from `snapshot`, in the order in
/// which they stand in `observed`.
pub open spec fn leaves(observed: Seq<Seq<char>>, snapshot: Seq<Seq<char>>) -> Seq<Seq<char>> {
    observed.filter(|name: Seq<char>| !snapshot.contains(name))
}

/// The names of `observed` that are still present in `snapshot`, in the order
/// in which they stand in `observed`.
pub open spec fn stayers(observed: Seq<Seq<char>>, snapshot: Seq<Seq<char>>) -> Seq<Seq<char>> {
    observed.filter(|name: Seq<char>| snapshot.contains(name))
}

/// The observed players after one cycle: those who stayed, in their old order,
/// followed by those who joined.
pub open spec fn next_members(observed: Seq<Seq<char>>, snapshot: Seq<Seq<char>>) -> Seq<
    Seq<char>,
> {
    stayers(observed, snapshot) + joins(observed, snapshot)
}

/// The count to publish after a cycle that ends with `count` players, when
/// `displayed` is the count published last: `None` when they agree.
pub open spec fn refresh_for(displayed: nat, count: nat) -> Option<nat> {
    if displayed == count {
        None
    } else {
        Some(count)
    }
}

/// A player count, where there is one, as a number.
pub open spec fn count_view(count: Option<usize>) -> Option<nat> {
    match count {
        Some(c) => Some(c as nat),
        None => None,
    }
}

/// The observed players after a run of cycles, one per snapshot.
pub open spec fn members_after(observed: Seq<Seq<char>>, snapshots: Seq<Seq<Seq<char>>>) -> Seq<
    Seq<char>,
>
    decreases snapshots.len(),
{
    if snapshots.len() == 0 {
        observed
    } else {
        next_members(members_after(observed, snapshots.drop_last()), snapshots.last())
    }
}

/// What one cycle found.
#[derive(Debug, Clone, PartialEq, Eq)]
pub struct CycleReport {
    /// The players who joined, in the order of their first appearance in the
    /// reported list.
    pub joined: Vec<String>,
    /// The players who left, in the order in which they had joined.
    pub left: Vec<String>,
    /// The player count to publish, or `None` when the published count is
    /// still right.
    pub refresh: Option<usize>,
}

/// The players believed to be online, and the count published last. Before
/// anything is published the count stands at zero.
pub struct PresenceReconciler {
    observed: Vec<String>,
    displayed: usize,
}

proof fn lemma_contains_last_or_earlier(s: Seq<Seq<char>>, name: Seq<char>)
    requires
        s.len() > 0,
    ensures
        s.contains(name) <==> (s.drop_last().contains(name) || s.last() == name),
{
    let earlier = s.drop_last();
    if s.contains(name) {
        let i = choose|i: int| 0 <= i < s.len() && s[i] == name;
        if i < s.len() - 1 {
            assert(earlier[i] == name);
        }
    }
    if earlier.contains(name) {
        let i = choose|i: int| 0 <= i < earlier.len() && earlier[i] == name;
        assert(s[i] == name);
    }
    if s.last() == name {
        assert(s[s.len() - 1] == name);
    }
}

proof fn lemma_push_fresh_keeps_distinct(s: Seq<Seq<char>>, name: Seq<char>)
    requires
        s.no_duplicates(),
        !s.contains(name),
    ensures
        s.push(name).no_duplicates(),
{
    let t = s.push(name);
    assert forall|i: int, j: int| 0 <= i < t.len() && 0 <= j < t.len() && i != j implies t[i]
        != t[j] by {
        if i < s.len() && j < s.len() {
            assert(s[i] != s[j]);
        } else if i < s.len() {
            assert(s[i] == t[i]);
            assert(s.contains(t[i]));
        } else {
            assert(s[j] == t[j]);
            assert(s.contains(t[j]));
        }
    }
}

/// A name joins exactly when the snapshot has it and the observed list does
/// not, and no name joins twice.
pub proof fn lemma_joins_membership(observed: Seq<Seq<char>>, snapshot: Seq<Seq<char>>)
    ensures
        forall|name: Seq<char>| #[trigger]
            joins(observed, snapshot).contains(name) <==> (snapshot.contains(name)
                && !observed.contains(name)),
        joins(observed, snapshot).no_duplicates(),
    decreases snapshot.len(),
{
    if snapshot.len() > 0 {
        let earlier = snapshot.drop_last();
        let last = snapshot.last();
        let before = joins(observed, earlier);
        lemma_joins_membership(observed, earlier);
        assert forall|name: Seq<char>| #[trigger]
            joins(observed, snapshot).contains(name) <==> (snapshot.contains(name)
                && !observed.contains(name)) by {
            lemma_contains_last_or_earlier(snapshot, name);
            vstd::seq_lib::lemma_seq_contains_after_push(before, last, name);
            assert(before.contains(name) <==> (earlier.contains(name) && !observed.contains(name)));
        }
        if !(observed.contains(last) || earlier.contains(last)) {
            assert(!before.contains(last));
            lemma_push_fresh_keeps_distinct(before, last);
        }
    }
}

/// A filter keeps exactly the members that pass, and keeps them distinct.
pub proof fn lemma_filter_membership(s: Seq<Seq<char>>, pred: spec_fn(Seq<char>) -> bool)
    ensures
        forall|name: Seq<char>| #[trigger]
            s.filter(pred).contains(name) <==> (s.contains(name) && pred(name)),
        s.no_duplicates() ==> s.filter(pred).no_duplicates(),
    decreases s.len(),
{
    reveal(Seq::filter);
    if s.len() > 0 {
        let earlier = s.drop_last();
        let last = s.last();
        let before = earlier.filter(pred);
        lemma_filter_membership(earlier, pred);
        assert forall|name: Seq<char>| #[trigger]
            s.filter(pred).contains(name) <==> (s.contains(name) && pred(name)) by {
            lemma_contains_last_or_earlier(s, name);
            vstd::seq_lib::lemma_seq_contains_after_push(before, last, name);
            assert(before.contains(name) <==> (earlier.contains(name) && pred(name)));
        }
        if s.no_duplicates() {
            assert(earlier.no_duplicates()) by {
                assert forall|i: int, j: int|
                    0 <= i < earlier.len() && 0 <= j < earlier.len() && i != j implies earlier[i]
                    != earlier[j] by {
                    assert(s[i] != s[j]);
                }
            }
            if pred(last) {
                if earlier.contains(last) {
                    let i = choose|i: int| 0 <= i < earlier.len() && earlier[i] == last;
                    assert(s[i] == s[s.len() - 1]);
                }
                assert(!before.contains(last));
                lemma_push_fresh_keeps_distinct(before, last);
            }
        }
    }
}

/// A filter that every member passes changes nothing, and one that no member
/// passes leaves nothing.
proof fn lemma_filter_all_or_none(s: Seq<Seq<char>>, pred: spec_fn(Seq<char>) -> bool)
    ensures
        (forall|i: int| 0 <= i < s.len() ==> pred(#[trigger] s[i])) ==> s.filter(pred) == s,
        (forall|i: int| 0 <= i < s.len() ==> !pred(#[trigger] s[i])) ==> s.filter(pred)
            == Seq::<Seq<char>>::empty(),
    decreases s.len(),
{
    reveal(Seq::filter);
    if s.len() > 0 {
        let earlier = s.drop_last();
        lemma_filter_all_or_none(earlier, pred);
        if forall|i: int| 0 <= i < s.len() ==> pred(#[trigger] s[i]) {
            assert forall|i: int| 0 <= i < earlier.len() implies pred(#[trigger] earlier[i]) by {
                assert(earlier[i] == s[i]);
            }
            assert(pred(s[s.len() - 1]));
            assert(earlier.push(s.last()) =~= s);
        }
        if forall|i: int| 0 <= i < s.len() ==> !pred(#[trigger] s[i]) {
            assert forall|i: int| 0 <= i < earlier.len() implies !pred(#[trigger] earlier[i]) by {
                assert(earlier[i] == s[i]);
            }
            assert(!pred(s[s.len() - 1]));
        }
    } else {
        assert(s =~= Seq::<Seq<char>>::empty());
    }
}

/// One cycle brings the observed players in line with the snapshot: the new
/// list holds exactly the names of the snapshot, each once; those who joined
/// are exactly the names that the snapshot has and the old list had not; those
/// who left are exactly the names that the old list had and the snapshot has
/// not; and nobody is reported twice.
pub proof fn lemma_cycle_tracks_snapshot(observed: Seq<Seq<char>>, snapshot: Seq<Seq<char>>)
    requires
        observed.no_duplicates(),
    ensures
        next_members(observed, snapshot).no_duplicates(),
        next_members(observed, snapshot).to_set() == snapshot.to_set(),
        joins(observed, snapshot).no_duplicates(),
        joins(observed, snapshot).to_set() == snapshot.to_set().difference(observed.to_set()),
        leaves(observed, snapshot).no_duplicates(),
        leaves(observed, snapshot).to_set() == observed.to_set().difference(snapshot.to_set()),
{
    let stay = stayers(observed, snapshot);
    let join = joins(observed, snapshot);
    let leave = leaves(observed, snapshot);
    lemma_joins_membership(observed, snapshot);
    lemma_filter_membership(observed, |name: Seq<char>| snapshot.contains(name));
    lemma_filter_membership(observed, |name: Seq<char>| !snapshot.contains(name));
    assert forall|i: int, j: int| 0 <= i < stay.len() && 0 <= j < join.len() implies stay[i]
        != join[j] by {
        assert(stay.contains(stay[i]));
        assert(join.contains(join[j]));
    }
    vstd::seq_lib::lemma_no_dup_in_concat(stay, join);
    assert forall|name: Seq<char>|
        next_members(observed, snapshot).contains(name) <==> snapshot.contains(name) by {
        vstd::seq_lib::lemma_seq_concat_contains_all_elements(stay, join, name);
    }
    assert(next_members(observed, snapshot).to_set() =~= snapshot.to_set());
    assert(join.to_set() =~= snapshot.to_set().difference(observed.to_set()));
    assert(leave.to_set() =~= observed.to_set().difference(snapshot.to_set()));
}

/// Over any run of snapshots, the events of each cycle after the first are
/// exactly the changes of membership between the snapshot before and the
/// snapshot of that cycle: a name is reported as joined if and only if the
/// snapshot has it and the one before had not, as left if and only if the one
/// before had it and the snapshot has not, and never twice.
pub proof fn lemma_events_follow_transitions(
    observed: Seq<Seq<char>>,
    snapshots: Seq<Seq<Seq<char>>>,
    k: int,
)
    requires
        observed.no_duplicates(),
        0 < k < snapshots.len(),
    ensures
        ({
            let before = members_after(observed, snapshots.take(k));
            let previous = snapshots[k - 1];
            let current = snapshots[k];
            &&& before.no_duplicates()
            &&& before.to_set() == previous.to_set()
            &&& joins(before, current).no_duplicates()
            &&& joins(before, current).to_set() == current.to_set().difference(previous.to_set())
            &&& leaves(before, current).no_duplicates()
            &&& leaves(before, current).to_set() == previous.to_set().difference(
                current.to_set(),
            )
            &&& members_after(observed, snapshots.take(k + 1)) == next_members(before, current)
        }),
{
    let upto = snapshots.take(k);
    lemma_members_after_distinct(observed, upto.drop_last());
    lemma_cycle_tracks_snapshot(members_after(observed, upto.drop_last()), upto.last());
    let before = members_after(observed, upto);
    lemma_cycle_tracks_snapshot(before, snapshots[k]);
    assert(snapshots.take(k + 1).drop_last() =~= upto);
}

/// The observed players stay distinct over any run of cycles.
pub proof fn lemma_members_after_distinct(observed: Seq<Seq<char>>, snapshots: Seq<Seq<Seq<char>>>)
    requires
        observed.no_duplicates(),
    ensures
        members_after(observed, snapshots).no_duplicates(),
        snapshots.len() > 0 ==> members_after(observed, snapshots).to_set()
            == snapshots.last().to_set(),
    decreases snapshots.len(),
{
    if snapshots.len() > 0 {
        lemma_members_after_distinct(observed, snapshots.drop_last());
        lemma_cycle_tracks_snapshot(
            members_after(observed, snapshots.drop_last()),
            snapshots.last(),
        );
    }
}

/// Feeding the same snapshot twice in a row reports nothing the second time:
/// nobody joins, nobody leaves, the observed players stay as they are and the
/// published count stays right.
pub proof fn lemma_repeated_snapshot_is_silent(observed: Seq<Seq<char>>, snapshot: Seq<Seq<char>>)
    ensures
        ({
            let first = next_members(observed, snapshot);
            &&& joins(first, snapshot) == Seq::<Seq<char>>::empty()
            &&& leaves(first, snapshot) == Seq::<Seq<char>>::empty()
            &&& next_members(first, snapshot) == first
            &&& refresh_for(first.len(), first.len()) is None
        }),
{
    let first = next_members(observed, snapshot);
    let stay = stayers(observed, snapshot);
    let join = joins(observed, snapshot);
    lemma_joins_membership(observed, snapshot);
    lemma_filter_membership(observed, |name: Seq<char>| snapshot.contains(name));
    assert forall|name: Seq<char>| first.contains(name) <==> snapshot.contains(name) by {
        vstd::seq_lib::lemma_seq_concat_contains_all_elements(stay, join, name);
    }
    lemma_joins_membership(first, snapshot);
    let again = joins(first, snapshot);
    if again.len() > 0 {
        assert(again.contains(again[0]));
    }
    assert(again =~= Seq::<Seq<char>>::empty());
    assert forall|i: int| 0 <= i < first.len() implies snapshot.contains(#[trigger] first[i]) by {
        assert(first.contains(first[i]));
    }
    lemma_filter_all_or_none(first, |name: Seq<char>| snapshot.contains(name));
    lemma_filter_all_or_none(first, |name: Seq<char>| !snapshot.contains(name));
    assert(next_members(first, snapshot) =~= first);
}

/// Whether `list` holds `name`.
fn holds_name(list: &Vec<String>, name: &String) -> (found: bool)
    ensures
        found == list.deep_view().contains(name@),
{
    let mut i: usize = 0;
    while i < list.len()
        invariant
            i <= list.len(),
            forall|j: int| 0 <= j < i ==> list.deep_view()[j] != name@,
        decreases list.len() - i,
    {
        if list[i] == *name {
            assert(list.deep_view()[i as int] == name@);
            return true;
        }
        i = i + 1;
    }
    false
}

impl PresenceReconciler {
    /// The players believed to be online, in the order in which they joined.
    pub closed spec fn members(&self) -> Seq<Seq<char>> {
        self.observed.deep_view()
    }

    /// The player count published last; zero before anything is published.
    pub closed spec fn displayed_count(&self) -> nat {
        self.displayed as nat
    }

    /// No player is listed twice.
    pub open spec fn wf(&self) -> bool {
        self.members().no_duplicates()
    }

    /// A reconciler that has seen nobody, with the published count at zero.
    pub fn new() -> (reconciler: PresenceReconciler)
        ensures
            reconciler.wf(),
            reconciler.members() == Seq::<Seq<char>>::empty(),
            reconciler.displayed_count() == 0,
    {
        let reconciler = PresenceReconciler { observed: Vec::new(), displayed: 0 };
        assert(reconciler.members() =~= Seq::<Seq<char>>::empty());
        reconciler
    }

    /// The number of players believed to be online.
    pub fn player_count(&self) -> (count: usize)
        ensures
            count == self.members().len(),
    {
        self.observed.len()
    }

    /// Whether the player `name` is believed to be online.
    pub fn is_online(&self, name: &String) -> (online: bool)
        ensures
            online == self.members().contains(name@),
    {
        holds_name(&self.observed, name)
    }

    /// The player count published last; zero before anything is published.
    pub fn published_count(&self) -> (count: usize)
        ensures
            count == self.displayed_count(),
    {
        self.displayed
    }

    /// Runs one cycle on the player list that the game server reported.
    ///
    /// The players of `snapshot` that were not observed before are reported as
    /// joined, each once and in the order of their first appearance; the
    /// observed players that `snapshot` lacks are reported as left. The
    /// observed players become those who stayed followed by those who joined.
    /// A count to publish is reported exactly when the new number of players
    /// is not the count published last; either way that number is the count
    /// published last from now on.
    pub fn reconcile(&mut self, snapshot: &Vec<String>) -> (report: CycleReport)
        requires
            old(self).wf(),
        ensures
            final(self).wf(),
            final(self).members() == next_members(old(self).members(), snapshot.deep_view()),
            report.joined.deep_view() == joins(old(self).members(), snapshot.deep_view()),
            report.left.deep_view() == leaves(old(self).members(), snapshot.deep_view()),
            count_view(report.refresh) == refresh_for(
                old(self).displayed_count(),
                final(self).members().len(),
            ),
            report.refresh is Some <==> old(self).displayed_count() != final(self).members().len(),
            final(self).displayed_count() == final(self).members().len(),
    {
        let ghost before = self.members();
        let ghost shot = snapshot.deep_view();
        let ghost stays = |name: Seq<char>| shot.contains(name);
        let ghost goes = |name: Seq<char>| !shot.contains(name);

        let mut kept: Vec<String> = Vec::new();
        let mut left: Vec<String> = Vec::new();
        let mut i: usize = 0;
        assert(before.take(0) =~= Seq::<Seq<char>>::empty());
        assert(kept.deep_view() =~= before.take(0).filter(stays));
        assert(left.deep_view() =~= before.take(0).filter(goes));
        while i < self.observed.len()
            invariant
                i <= self.observed.len(),
                before == self.observed.deep_view(),
                shot == snapshot.deep_view(),
                stays == |name: Seq<char>| shot.contains(name),
                goes == |name: Seq<char>| !shot.contains(name),
                kept.deep_view() == before.take(i as int).filter(stays),
                left.deep_view() == before.take(i as int).filter(goes),
            decreases self.observed.len() - i,
        {
            let name: &String = &self.observed[i];
            let present: bool = holds_name(snapshot, name);
            proof {
                let seen = before.take(i as int);
                assert(before.take(i + 1) =~= seen.push(name@));
                seen.lemma_filter_push(name@, stays);
                seen.lemma_filter_push(name@, goes);
            }
            if present {
                let ghost prior = kept.deep_view();
                kept.push(name.clone());
                assert(kept.deep_view() =~= prior.push(name@));
            } else {
                let ghost prior = left.deep_view();
                left.push(name.clone());
                assert(left.deep_view() =~= prior.push(name@));
            }
            i = i + 1;
        }
        assert(before.take(i as int) =~= before);

        let mut joined: Vec<String> = Vec::new();
        let mut k: usize = 0;
        assert(shot.take(0) =~= Seq::<Seq<char>>::empty());
        assert(joined.deep_view() =~= joins(before, shot.take(0)));
        while k < snapshot.len()
            invariant
                k <= snapshot.len(),
                before == self.observed.deep_view(),
                shot == snapshot.deep_view(),
                joined.deep_view() == joins(before, shot.take(k as int)),
            decreases snapshot.len() - k,
        {
            let name: &String = &snapshot[k];
            let known: bool = holds_name(&self.observed, name);
            let repeated: bool = holds_name(&joined, name);
            proof {
                let seen = shot.take(k as int);
                let next = shot.take(k + 1);
                assert(next.drop_last() =~= seen);
                assert(next.last() == name@);
                lemma_joins_membership(before, seen);
            }
            if !known && !repeated {
                let ghost prior = joined.deep_view();
                joined.push(name.clone());
                assert(joined.deep_view() =~= prior.push(name@));
            }
            k = k + 1;
        }
        assert(shot.take(k as int) =~= shot);

        let mut j: usize = 0;
        while j < joined.len()
            invariant
                j <= joined.len(),
                kept.deep_view() == stayers(before, shot) + joined.deep_view().take(j as int),
            decreases joined.len() - j,
        {
            let ghost prior = kept.deep_view();
            kept.push(joined[j].clone());
            assert(kept.deep_view() =~= prior.push(joined.deep_view()[j as int]));
            assert(joined.deep_view().take(j + 1) =~= joined.deep_view().take(j as int).push(
                joined.deep_view()[j as int],
            ));
            j = j + 1;
        }
        assert(joined.deep_view().take(j as int) =~= joined.deep_view());

        let count: usize = kept.len();
        let refresh: Option<usize> = if self.displayed == count {
            None
        } else {
            Some(count)
        };
        proof {
            lemma_cycle_tracks_snapshot(before, shot);
        }
        self.observed = kept;
        self.displayed = count;
        CycleReport { joined, left, refresh }
    }
}

} // verus!
