//! The poll loop of the bridge, as a state machine.
//!
//! The bridge starts out bootstrapping: it asks for the world's status until
//! it has it. From then on it polls: in each cycle it asks for the player
//! list, announces who joined and who left, refreshes the published player
//! count when it changed, and pauses. The embedding program performs the
//! requests and the effects; the bridge decides them.

use crate::messages::{
    join_message, joined_text, leave_message, left_text, presence_message, presence_text,
    topic_message, topic_text,
};
use crate::presence::{
    count_view, joins, leaves, lemma_repeated_snapshot_is_silent, next_members, refresh_for,
    CycleReport, PresenceReconciler,
};
use vstd::prelude::*;

verus! {

/// The pause between two cycles where none is configured, in seconds.
pub const DEFAULT_POLL_INTERVAL_SECS: u64 = 20;

/// The pause between two cycles for a configured number of seconds, or the
/// default where none is configured.
pub fn poll_interval(configured: Option<u64>) -> (secs: u64)
    ensures
        secs == match configured {
            Some(secs) => secs,
            None => DEFAULT_POLL_INTERVAL_SECS,
        },
{
    match configured {
        Some(secs) => secs,
        None => DEFAULT_POLL_INTERVAL_SECS,
    }
}

/// What the game server reports about its world.
#[derive(Debug, Clone, PartialEq, Eq)]
pub struct WorldStatus {
    pub world: String,
    pub max_players: i32,
}

/// A player as the game server lists them.
#[derive(Debug, Clone, PartialEq, Eq)]
pub struct PlayerRecord {
    pub username: String,
}

/// What the bridge asks of the game server next.
#[derive(Clone, Copy, PartialEq, Eq, Debug)]
pub enum Request {
    FetchStatus,
    FetchPlayers,
}

/// An answer of the game server.
#[derive(Debug, Clone, PartialEq, Eq)]
pub enum Response {
    Status(WorldStatus),
    Players(Vec<PlayerRecord>),
}

/// Something for the embedding program to do.
#[derive(Debug, Clone, PartialEq, Eq)]
pub enum Effect {
    /// Post the text in the monitored channel: a player joined.
    AnnounceJoin(String),
    /// Post the text in the monitored channel: a player left.
    AnnounceLeave(String),
    /// Set the bot's presence to the text.
    SetPresence(String),
    /// Set the topic of the monitored channel to the text.
    SetTopic(String),
    /// Pause for so many seconds before the next request.
    Sleep(u64),
}

/// The content of a [`WorldStatus`].
pub struct WorldStatusView {
    pub world: Seq<char>,
    pub max_players: int,
}

/// The content of a [`Response`].
pub enum ResponseView {
    Status(WorldStatusView),
    Players(Seq<Seq<char>>),
}

/// The content of an [`Effect`].
pub enum EffectView {
    AnnounceJoin(Seq<char>),
    AnnounceLeave(Seq<char>),
    SetPresence(Seq<char>),
    SetTopic(Seq<char>),
    Sleep(u64),
}

/// The state of a [`Bridge`]: the world's status once it is known, the players
/// believed to be online, the player count published last (zero before
/// anything is published), and the pause between cycles.
pub struct BridgeView {
    pub status: Option<WorldStatusView>,
    pub members: Seq<Seq<char>>,
    pub displayed: nat,
    pub interval_secs: u64,
}

impl View for WorldStatus {
    type V = WorldStatusView;

    open spec fn view(&self) -> WorldStatusView {
        WorldStatusView { world: self.world@, max_players: self.max_players as int }
    }
}

impl View for PlayerRecord {
    type V = Seq<char>;

    open spec fn view(&self) -> Seq<char> {
        self.username@
    }
}

impl View for Response {
    type V = ResponseView;

    open spec fn view(&self) -> ResponseView {
        match self {
            Response::Status(status) => ResponseView::Status(status@),
            Response::Players(players) => ResponseView::Players(
                players@.map_values(|p: PlayerRecord| p@),
            ),
        }
    }
}

impl View for Effect {
    type V = EffectView;

    open spec fn view(&self) -> EffectView {
        match self {
            Effect::AnnounceJoin(text) => EffectView::AnnounceJoin(text@),
            Effect::AnnounceLeave(text) => EffectView::AnnounceLeave(text@),
            Effect::SetPresence(text) => EffectView::SetPresence(text@),
            Effect::SetTopic(text) => EffectView::SetTopic(text@),
            Effect::Sleep(secs) => EffectView::Sleep(*secs),
        }
    }
}

/// The contents of a list of effects, in order.
pub open spec fn effects_view(effects: Seq<Effect>) -> Seq<EffectView> {
    effects.map_values(|e: Effect| e@)
}

/// The effects that publish the player count `count`: the presence first,
/// then the topic.
pub open spec fn refresh_effects(status: WorldStatusView, count: nat) -> Seq<EffectView> {
    seq![
        EffectView::SetPresence(presence_text(count, status.max_players)),
        EffectView::SetTopic(topic_text(status.world, count, status.max_players)),
    ]
}

/// The effects of one cycle: an announcement for each player who joined, in
/// order; then one for each player who left, in order; then the presence and
/// the topic, where a count is to be published; then the pause.
pub open spec fn cycle_effects(
    status: WorldStatusView,
    joined: Seq<Seq<char>>,
    left: Seq<Seq<char>>,
    refresh: Option<nat>,
    interval_secs: u64,
) -> Seq<EffectView> {
    joined.map_values(|name: Seq<char>| EffectView::AnnounceJoin(joined_text(name))) + left.map_values(
        |name: Seq<char>| EffectView::AnnounceLeave(left_text(name)),
    ) + (match refresh {
        Some(count) => refresh_effects(status, count),
        None => Seq::empty(),
    }) + seq![EffectView::Sleep(interval_secs)]
}

/// The state after `response` arrived in `state`.
///
/// The first status makes the bridge poll. A status that arrives later is
/// ignored: the world's status is fetched once. A player list runs one cycle
/// when the bridge polls, and is ignored before.
pub open spec fn next_state(state: BridgeView, response: ResponseView) -> BridgeView {
    match response {
        ResponseView::Status(status) => if state.status is None {
            BridgeView { status: Some(status), ..state }
        } else {
            state
        },
        ResponseView::Players(snapshot) => if state.status is Some {
            let members = next_members(state.members, snapshot);
            BridgeView { members, displayed: members.len(), ..state }
        } else {
            state
        },
    }
}

/// The effects of `response` arriving in `state`: those of one cycle for a
/// player list that arrives while the bridge polls, none otherwise.
pub open spec fn effects_of(state: BridgeView, response: ResponseView) -> Seq<EffectView> {
    match response {
        ResponseView::Players(snapshot) if state.status is Some => cycle_effects(
            state.status->0,
            joins(state.members, snapshot),
            leaves(state.members, snapshot),
            refresh_for(state.displayed, next_members(state.members, snapshot).len()),
            state.interval_secs,
        ),
        _ => Seq::empty(),
    }
}

/// The request that the bridge makes in `state`.
pub open spec fn request_in(state: BridgeView) -> Request {
    if state.status is Some {
        Request::FetchPlayers
    } else {
        Request::FetchStatus
    }
}

/// Once the bridge polls it polls for good, with the status it first got.
pub proof fn lemma_polling_is_final(state: BridgeView, response: ResponseView)
    requires
        state.status is Some,
    ensures
        next_state(state, response).status == state.status,
        request_in(next_state(state, response)) == Request::FetchPlayers,
{
}

/// The presence and the topic are refreshed in a cycle if and only if the
/// number of players after the cycle is not the count published last, whatever
/// happened to the membership; and the announcements of a cycle stand before
/// its refresh, those of joins before those of leaves.
pub proof fn lemma_refresh_iff_count_changed(state: BridgeView, snapshot: Seq<Seq<char>>)
    requires
        state.status is Some,
    ensures
        ({
            let effects = effects_of(state, ResponseView::Players(snapshot));
            let joined = joins(state.members, snapshot);
            let left = leaves(state.members, snapshot);
            let count = next_members(state.members, snapshot).len();
            let said = (joined.len() + left.len()) as int;
            let changed = state.displayed != count;
            &&& effects.len() == said + (if changed { 2int } else { 0int }) + 1
            &&& forall|i: int|
                0 <= i < joined.len() ==> effects[i] == EffectView::AnnounceJoin(joined_text(joined[i]))
            &&& forall|i: int|
                0 <= i < left.len() ==> effects[joined.len() + i] == EffectView::AnnounceLeave(
                    left_text(left[i]),
                )
            &&& changed ==> effects[said] == EffectView::SetPresence(
                presence_text(count, state.status->0.max_players),
            ) && effects[said + 1] == EffectView::SetTopic(
                topic_text(state.status->0.world, count, state.status->0.max_players),
            )
            &&& effects.last() == EffectView::Sleep(state.interval_secs)
            &&& forall|i: int|
                0 <= i < effects.len() && (effects[i] is SetPresence || effects[i] is SetTopic)
                    ==> changed
        }),
{
}

/// A cycle in which nobody joined or left and no count is to be published
/// causes nothing but the pause.
proof fn lemma_quiet_cycle_only_pauses(status: WorldStatusView, interval_secs: u64)
    ensures
        cycle_effects(
            status,
            Seq::<Seq<char>>::empty(),
            Seq::<Seq<char>>::empty(),
            None,
            interval_secs,
        ) == seq![EffectView::Sleep(interval_secs)],
{
    let nobody = Seq::<Seq<char>>::empty();
    let effects = cycle_effects(status, nobody, nobody, None, interval_secs);
    assert(effects.len() == 1);
    assert(effects =~= seq![EffectView::Sleep(interval_secs)]);
}

/// A player list that arrives twice in a row causes nothing but the pause the
/// second time: no announcement and no refresh.
pub proof fn lemma_repeated_list_only_pauses(state: BridgeView, snapshot: Seq<Seq<char>>)
    requires
        state.status is Some,
    ensures
        effects_of(
            next_state(state, ResponseView::Players(snapshot)),
            ResponseView::Players(snapshot),
        ) == seq![EffectView::Sleep(state.interval_secs)],
{
    lemma_repeated_snapshot_is_silent(state.members, snapshot);
    lemma_quiet_cycle_only_pauses(state.status->0, state.interval_secs);
}

/// The bridge: bootstrapping until the world's status is known, polling from
/// then on.
pub struct Bridge {
    status: Option<WorldStatus>,
    presence: PresenceReconciler,
    interval_secs: u64,
}

impl View for Bridge {
    type V = BridgeView;

    closed spec fn view(&self) -> BridgeView {
        BridgeView {
            status: match self.status {
                Some(status) => Some(status@),
                None => None,
            },
            members: self.presence.members(),
            displayed: self.presence.displayed_count(),
            interval_secs: self.interval_secs,
        }
    }
}

impl Bridge {
    /// No player is listed twice.
    pub open spec fn wf(&self) -> bool {
        self@.members.no_duplicates()
    }

    /// A bridge that is bootstrapping and will pause `interval_secs` seconds
    /// between cycles.
    pub fn new(interval_secs: u64) -> (bridge: Bridge)
        ensures
            bridge.wf(),
            bridge@ == (BridgeView {
                status: None,
                members: Seq::empty(),
                displayed: 0,
                interval_secs,
            }),
    {
        Bridge { status: None, presence: PresenceReconciler::new(), interval_secs }
    }

    /// Whether the world's status is known, so that the bridge polls.
    pub fn is_polling(&self) -> (polling: bool)
        ensures
            polling == (self@.status is Some),
    {
        self.status.is_some()
    }

    /// The request to make next: the status while bootstrapping, the player
    /// list while polling.
    pub fn next_request(&self) -> (request: Request)
        ensures
            request == request_in(self@),
    {
        if self.status.is_some() {
            Request::FetchPlayers
        } else {
            Request::FetchStatus
        }
    }

    /// Takes an answer of the game server and tells what to do about it.
    pub fn on_response(&mut self, response: Response) -> (effects: Vec<Effect>)
        requires
            old(self).wf(),
        ensures
            final(self).wf(),
            final(self)@ == next_state(old(self)@, response@),
            effects_view(effects@) == effects_of(old(self)@, response@),
    {
        match response {
            Response::Status(status) => {
                if self.status.is_none() {
                    self.status = Some(status);
                }
                let effects: Vec<Effect> = Vec::new();
                assert(effects_view(effects@) =~= Seq::<EffectView>::empty());
                effects
            },
            Response::Players(players) => match &self.status {
                None => {
                    let effects: Vec<Effect> = Vec::new();
                    assert(effects_view(effects@) =~= Seq::<EffectView>::empty());
                    effects
                },
                Some(status) => {
                    let snapshot = usernames(&players);
                    let report = self.presence.reconcile(&snapshot);
                    cycle(status, &report, self.interval_secs)
                },
            },
        }
    }
}

/// The names of the listed players, in order.
pub fn usernames(players: &Vec<PlayerRecord>) -> (names: Vec<String>)
    ensures
        names.deep_view() == players@.map_values(|p: PlayerRecord| p@),
{
    let mut names: Vec<String> = Vec::new();
    let mut i: usize = 0;
    while i < players.len()
        invariant
            i <= players.len(),
            names.deep_view() == players@.map_values(|p: PlayerRecord| p@).take(i as int),
        decreases players.len() - i,
    {
        let ghost prior = names.deep_view();
        names.push(players[i].username.clone());
        assert(names.deep_view() =~= prior.push(players[i as int]@));
        assert(players@.map_values(|p: PlayerRecord| p@).take(i + 1) =~= players@.map_values(
            |p: PlayerRecord| p@,
        ).take(i as int).push(players[i as int]@));
        i = i + 1;
    }
    assert(players@.map_values(|p: PlayerRecord| p@).take(i as int) =~= players@.map_values(
        |p: PlayerRecord| p@,
    ));
    names
}

/// Renders what one cycle found into effects.
pub fn cycle(status: &WorldStatus, report: &CycleReport, interval_secs: u64) -> (effects: Vec<
    Effect,
>)
    ensures
        effects_view(effects@) == cycle_effects(
            status@,
            report.joined.deep_view(),
            report.left.deep_view(),
            count_view(report.refresh),
            interval_secs,
        ),
{
    let ghost joined = report.joined.deep_view();
    let ghost left = report.left.deep_view();
    let ghost say_joined = |name: Seq<char>| EffectView::AnnounceJoin(joined_text(name));
    let ghost say_left = |name: Seq<char>| EffectView::AnnounceLeave(left_text(name));
    let mut effects: Vec<Effect> = Vec::new();
    let mut i: usize = 0;
    while i < report.joined.len()
        invariant
            i <= report.joined.len(),
            joined == report.joined.deep_view(),
            say_joined == |name: Seq<char>| EffectView::AnnounceJoin(joined_text(name)),
            effects_view(effects@) == joined.map_values(say_joined).take(i as int),
        decreases report.joined.len() - i,
    {
        let ghost prior = effects_view(effects@);
        effects.push(Effect::AnnounceJoin(join_message(report.joined[i].as_str())));
        assert(effects_view(effects@) =~= prior.push(say_joined(joined[i as int])));
        assert(joined.map_values(say_joined).take(i + 1) =~= joined.map_values(say_joined).take(
            i as int,
        ).push(say_joined(joined[i as int])));
        i = i + 1;
    }
    assert(joined.map_values(say_joined).take(i as int) =~= joined.map_values(say_joined));
    let mut k: usize = 0;
    while k < report.left.len()
        invariant
            k <= report.left.len(),
            left == report.left.deep_view(),
            say_left == |name: Seq<char>| EffectView::AnnounceLeave(left_text(name)),
            effects_view(effects@) == joined.map_values(say_joined) + left.map_values(
                say_left,
            ).take(k as int),
        decreases report.left.len() - k,
    {
        let ghost prior = effects_view(effects@);
        effects.push(Effect::AnnounceLeave(leave_message(report.left[k].as_str())));
        assert(effects_view(effects@) =~= prior.push(say_left(left[k as int])));
        assert(left.map_values(say_left).take(k + 1) =~= left.map_values(say_left).take(
            k as int,
        ).push(say_left(left[k as int])));
        k = k + 1;
    }
    assert(left.map_values(say_left).take(k as int) =~= left.map_values(say_left));
    match report.refresh {
        Some(count) => {
            let ghost prior = effects_view(effects@);
            effects.push(Effect::SetPresence(presence_message(count, status.max_players)));
            effects.push(
                Effect::SetTopic(topic_message(status.world.as_str(), count, status.max_players)),
            );
            assert(effects_view(effects@) =~= prior + refresh_effects(status@, count as nat));
        },
        None => {
            assert(effects_view(effects@) =~= effects_view(effects@) + Seq::<EffectView>::empty());
        },
    }
    let ghost prior = effects_view(effects@);
    effects.push(Effect::Sleep(interval_secs));
    assert(effects_view(effects@) =~= prior + seq![EffectView::Sleep(interval_secs)]);
    effects
}

} // verus!
