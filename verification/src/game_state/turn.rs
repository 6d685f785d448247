//! A whole turn: the player's action, then every clone's step of this turn,
//! then the next turn. The clone steps end: each either uses up an event of
//! this turn or hands out a fresh actor id, and there are only so many ids.
use vstd::prelude::*;
use crate::action::{Action, SubAction, action_result, actor_at, items_at, building_at, writes_turned_actor};
use crate::datatypes::Coordinate;
use crate::engine::tracking_worldlayer::{ids_dense, dense_ids, lemma_place_dense, lemma_remove_dense, index_after_writes, index_after_removals};
use crate::engine::worldlayer::{in_bounds_of, index_of, last_write, all_in_bounds, apply_writes, lemma_apply_writes_cell, lemma_index_in_range};
use crate::error::{Result, Status};
use crate::eventqueue::ActorEvent;
use super::game::{Game, GameUpdate};
use super::world::World;

verus! {

/// Every actor on the grid has an id below the index's count: only ids the
/// index handed out are ever given to actors.
pub open spec fn actors_known(w: World) -> bool {
    forall|c: Coordinate|
        in_bounds_of(w.actors.layer.dims(), c) ==> (#[trigger] w.actors.layer.cells()[index_of(
            w.actors.layer.dims(),
            c,
        )] matches Some(a) ==> a.actor_id.0 < w.actors.index.spec_next_id())
}

/// The state every game the library builds keeps: the layers cover the
/// world, the actor ids were handed out one by one, and every actor on the
/// grid has one of them.
pub open spec fn world_ready(w: World) -> bool {
    &&& w.wf()
    &&& ids_dense(w.actors.index)
    &&& actors_known(w)
}

/// The number of actor ids handed out in `w`.
pub open spec fn id_count(w: World) -> int {
    w.actors.index.spec_next_id()
}

/// What an action's update can do to the actor ids: without an event for
/// this turn it writes at most one id already handed out; with one (a
/// cloner's) it writes an id handed out and then the next id. Every write
/// falls in the world, and actors written carry such ids.
pub open spec fn tame(u: GameUpdate, g: Game) -> bool {
    let n = id_count(g.world);
    let w = u.world.actor_updates.index.writes();
    let lw = u.world.actor_updates.layer.writes();
    &&& u.world.applies_to(g.world)
    &&& u.world.actor_updates.index.removals().len() == 0
    &&& if u.eventqueue.this_turn@.len() == 0 {
        &&& w.len() <= 1
        &&& forall|i: int| 0 <= i < w.len() ==> #[trigger] w[i].0 < n
        &&& forall|i: int| 0 <= i < lw.len() ==> (#[trigger] lw[i].1 matches Some(b) ==> b.actor_id.0 < n)
    } else {
        &&& u.eventqueue.this_turn@.len() == 1
        &&& w.len() == 2
        &&& w[0].0 < n
        &&& w[1].0 == n
        &&& forall|i: int| 0 <= i < lw.len() ==> (#[trigger] lw[i].1 matches Some(b) ==> b.actor_id.0 <= n)
    }
}

/// The update of a turned actor at `c` is tame.
pub proof fn lemma_turned_tame(g: Game, u: GameUpdate, c: Coordinate)
    requires
        g.world.wf(),
        actors_known(g.world),
        actor_at(g, c) matches Ok(Some(a)) && exists|f, s| #[trigger] writes_turned_actor(u, c, a, f, s),
        u.eventqueue.this_turn@.len() == 0,
    ensures
        u.world.actor_updates.layer.applies_to(g.world.actors.layer),
        u.world.actor_updates.index.removals().len() == 0,
        u.world.actor_updates.index.writes().len() <= 1,
        forall|i: int| 0 <= i < u.world.actor_updates.index.writes().len() ==> #[trigger] u.world.actor_updates.index.writes()[i].0 < id_count(g.world),
        forall|i: int|
            0 <= i < u.world.actor_updates.layer.writes().len() ==> (#[trigger] u.world.actor_updates.layer.writes()[i].1 matches Some(b)
                ==> b.actor_id.0 < id_count(g.world)),
{
    let a = actor_at(g, c)->Ok_0->Some_0;
    assert(g.world.actors.layer.cells()[index_of(g.world.actors.layer.dims(), c)] == Some(a));
}

/// The update the rules give for any action is tame.
pub proof fn lemma_action_tame(g: Game, id: crate::engine::tracking_worldlayer::TrackableId, action: Action, u: GameUpdate)
    requires
        g.world.wf(),
        actors_known(g.world),
        action_result(g, id, action, Ok::<GameUpdate, Status>(u)),
    ensures
        tame(u, g),
{
    let locs = g.world.actors.index.locations();
    let location = locs[id.0];
    let a = actor_at(g, location)->Ok_0->Some_0;
    let orientation = a.facing.spec_rotate(action.direction);
    let dims = g.world.actors.layer.dims();
    let n = id_count(g.world);
    assert(g.world.actors.layer.cells()[index_of(dims, location)] == Some(a));
    assert(in_bounds_of(dims, location));
    let lw = u.world.actor_updates.layer.writes();
    let w = u.world.actor_updates.index.writes();
    match action.action {
        SubAction::Move => {
            let dst = crate::action::ahead(location, orientation);
            assert(actor_at(g, dst) == Ok::<Option<crate::actor::Actor>, Status>(None));
            assert(in_bounds_of(dims, dst));
            assert(all_in_bounds(dims, lw));
        },
        SubAction::Take => {
            lemma_turned_tame(g, u, location);
        },
        SubAction::Drop(_) => {
            lemma_turned_tame(g, u, location);
        },
        SubAction::Craft(recipe) => {
            lemma_turned_tame(g, u, location);
        },
        SubAction::Use(idx) => {
            let it = a.inventory.slots()[idx as int]->Some_0;
            match it.definition.on_use_fn {
                Some(crate::action::ItemUseFn::UseCloner) => {
                    let dst = crate::action::ahead(location, orientation);
                    assert(actor_at(g, dst) == Ok::<Option<crate::actor::Actor>, Status>(None));
                    assert(in_bounds_of(dims, dst));
                    assert(all_in_bounds(dims, lw));
                },
                Some(crate::action::ItemUseFn::Construct) => {
                    lemma_turned_tame(g, u, location);
                },
                None => {},
            }
        },
        SubAction::ActivateBuilding => {},
        SubAction::Wait => {},
    }
    assert(index_after_removals(
        index_after_writes(locs, g.world.actors.index.recycled(), w).0,
        index_after_writes(locs, g.world.actors.index.recycled(), w).1,
        u.world.actor_updates.index.removals(),
    ).2);
}

/// The value of the last write to `key` is the value of a write to `key`.
proof fn lemma_last_write_entry<T>(w: Seq<(Coordinate, T)>, key: Coordinate)
    ensures
        last_write(w, key) matches Some(v) ==> exists|i: int| 0 <= i < w.len() && #[trigger] w[i] == (key, v),
    decreases w.len(),
{
    if w.len() > 0 && w.last().0 != key {
        lemma_last_write_entry(w.drop_last(), key);
        if let Some(v) = last_write(w, key) {
            let i = choose|i: int| 0 <= i < w.drop_last().len() && #[trigger] w.drop_last()[i] == (key, v);
            assert(w[i] == (key, v));
        }
    } else if w.len() > 0 {
        assert(w[w.len() - 1] == (key, w.last().1));
    }
}

/// Applying a tame update keeps the ids dense and every actor's id known,
/// and hands out one id more exactly when the update brings an event for
/// this turn.
pub proof fn lemma_tame_applied(g: Game, u: GameUpdate, w2: World)
    requires
        world_ready(g.world),
        tame(u, g),
        u.world.applied(g.world, w2),
    ensures
        ids_dense(w2.actors.index),
        actors_known(w2),
        w2.actors.layer.cells().len() == g.world.actors.layer.cells().len(),
        id_count(w2) == id_count(g.world) + if u.eventqueue.this_turn@.len() == 0 {
            0int
        } else {
            1int
        },
{
    let m = g.world.actors.index.locations();
    let s = g.world.actors.index.recycled();
    let w = u.world.actor_updates.index.writes();
    let n = id_count(g.world);
    let written = index_after_writes(m, s, w);
    assert(index_after_removals(written.0, written.1, u.world.actor_updates.index.removals()) == (written.0, written.1, true));
    assert(u.world.actor_updates.index.spec_applied(m, s) == (written.0, written.1, true));
    assert(w2.actors.index.locations() == written.0 && w2.actors.index.recycled() == written.1);
    if w.len() == 0 {
        assert(written == (m, s));
    } else if w.len() == 1 {
        lemma_place_dense(m, s, w[0].0, w[0].1);
        assert(w.drop_first().len() == 0);
        assert(index_after_writes(m.insert(w[0].0, w[0].1), s.remove(w[0].0), w.drop_first())
            == (m.insert(w[0].0, w[0].1), s.remove(w[0].0)));
        assert(written == (m.insert(w[0].0, w[0].1), s.remove(w[0].0)));
    } else {
        let m1 = m.insert(w[0].0, w[0].1);
        let s1 = s.remove(w[0].0);
        lemma_place_dense(m, s, w[0].0, w[0].1);
        lemma_place_dense(m1, s1, w[1].0, w[1].1);
        let w1 = w.drop_first();
        assert(w1[0] == w[1]);
        assert(w1.drop_first().len() == 0);
        assert(index_after_writes(m1.insert(w1[0].0, w1[0].1), s1.remove(w1[0].0), w1.drop_first())
            == (m1.insert(w1[0].0, w1[0].1), s1.remove(w1[0].0)));
        assert(index_after_writes(m1, s1, w1) == (m1.insert(w1[0].0, w1[0].1), s1.remove(w1[0].0)));
        assert(written == index_after_writes(m1, s1, w1));
    }
    let dims = g.world.actors.layer.dims();
    let lw = u.world.actor_updates.layer.writes();
    if lw.len() > 0 {
        assert(in_bounds_of(dims, lw[0].0));
        lemma_apply_writes_cell(g.world.actors.layer.cells(), dims, lw, lw[0].0);
    }
    let n2 = id_count(w2);
    assert(dense_ids(written.0, written.1));
    assert(n2 == n + if u.eventqueue.this_turn@.len() == 0 { 0int } else { 1int });
    assert forall|c: Coordinate| in_bounds_of(w2.actors.layer.dims(), c) implies (#[trigger] w2.actors.layer.cells()[index_of(
        w2.actors.layer.dims(),
        c,
    )] matches Some(a) ==> a.actor_id.0 < n2) by {
        lemma_apply_writes_cell(g.world.actors.layer.cells(), dims, lw, c);
        lemma_last_write_entry(lw, c);
        if let Some(v) = last_write(lw, c) {
            let i = choose|i: int| 0 <= i < lw.len() && #[trigger] lw[i] == (c, v);
            assert(lw[i].1 == v);
        } else {
            assert(g.world.actors.layer.cells()[index_of(dims, c)] matches Some(a) ==> a.actor_id.0 < n);
        }
    }
}

/// Removing an actor keeps the ids dense, every actor's id known and the
/// count as it was.
pub proof fn lemma_removed_ready(mid: World, id: crate::engine::tracking_worldlayer::TrackableId, after: World)
    requires
        ids_dense(mid.actors.index),
        actors_known(mid),
        mid.actors.layer.cells().len() == mid.actors.layer.dims().x * mid.actors.layer.dims().y,
        crate::devtools::removed_from(mid, id, after),
    ensures
        ids_dense(after.actors.index),
        actors_known(after),
        id_count(after) == id_count(mid),
{
    lemma_remove_dense(mid.actors.index.locations(), mid.actors.index.recycled(), id.0);
    let dims = mid.actors.layer.dims();
    assert forall|c: Coordinate| in_bounds_of(after.actors.layer.dims(), c) implies (#[trigger] after.actors.layer.cells()[index_of(
        after.actors.layer.dims(),
        c,
    )] matches Some(a) ==> a.actor_id.0 < id_count(after)) by {
        lemma_index_in_range(dims, c);
        lemma_index_in_range(dims, mid.actors.index.locations()[id.0]);
        assert(mid.actors.layer.cells()[index_of(dims, c)] matches Some(a) ==> a.actor_id.0 < id_count(mid));
    }
}

/// One clone step from a ready game leaves it ready, and either uses up an
/// event of this turn with the id count unchanged, or hands out one more
/// id (never past the last `usize`).
pub proof fn lemma_npc_step(g: Game, g2: Game, r: Result<bool>)
    requires
        world_ready(g.world),
        g.npc_turn_outcome(g2, r),
        g2.world.wf(),
    ensures
        ids_dense(g2.world.actors.index),
        actors_known(g2.world),
        r == Ok::<bool, Status>(false) ==> g2.event_queue.this_turn@.len() == 0,
        r == Ok::<bool, Status>(true) ==> (id_count(g2.world) == id_count(g.world)
            && g2.event_queue.this_turn@.len() < g.event_queue.this_turn@.len()) || (id_count(g2.world)
            == id_count(g.world) + 1 && id_count(g2.world) <= usize::MAX + 1),
{
    let q = g.event_queue.this_turn@;
    if q.len() > 0 {
        let e = q[0];
        let res = choose|res: Result<GameUpdate>| g.npc_step(g2, r, res);
        assert(g.npc_step(g2, r, res));
        match res {
            Err(Status::ActionFail(_)) => {
                if g.npc_despawns(e) {
                    if let Ok(_) = r {
                        lemma_removed_ready(g.world, e.actor, g2.world);
                    }
                }
            },
            Err(_) => {},
            Ok(u) => {
                lemma_action_tame(g, e.actor, g.npc_action(e), u);
                if u.applies_to(g) {
                    if g.npc_despawns(e) {
                        let mid = choose|mid: World|
                            #[trigger] u.world.applied(g.world, mid) && Game::despawn_outcome(mid, e.actor, g2, r);
                        lemma_tame_applied(g, u, mid);
                        if let Ok(_) = r {
                            lemma_removed_ready(mid, e.actor, g2.world);
                        }
                    } else {
                        lemma_tame_applied(g, u, g2.world);
                    }
                } else {
                    assert(u.world.applied(g.world, g2.world));
                    lemma_tame_applied(g, u, g2.world);
                }
            },
        }
    }
}

/// Writing, at a cell of the world, an actor whose id was handed out, or
/// one with the next id, keeps the ids dense and every actor's id known;
/// only the next id moves the count on.
pub proof fn lemma_write_actor_ready(w: World, w2: World, c: Coordinate, b: crate::actor::Actor)
    requires
        world_ready(w),
        in_bounds_of(w.actors.layer.dims(), c),
        b.actor_id.0 <= id_count(w),
        w2.actors.layer.dims() == w.actors.layer.dims(),
        w2.actors.layer.cells() == w.actors.layer.cells().update(index_of(w.actors.layer.dims(), c), Some(b)),
        w2.actors.index.locations() == w.actors.index.locations().insert(b.actor_id.0, c),
        w2.actors.index.recycled() == w.actors.index.recycled().remove(b.actor_id.0),
    ensures
        ids_dense(w2.actors.index),
        actors_known(w2),
        id_count(w2) == id_count(w) + if b.actor_id.0 == id_count(w) {
            1int
        } else {
            0int
        },
{
    lemma_place_dense(w.actors.index.locations(), w.actors.index.recycled(), b.actor_id.0, c);
    let dims = w.actors.layer.dims();
    assert forall|k: Coordinate| in_bounds_of(w2.actors.layer.dims(), k) implies (#[trigger] w2.actors.layer.cells()[index_of(
        w2.actors.layer.dims(),
        k,
    )] matches Some(a) ==> a.actor_id.0 < id_count(w2)) by {
        lemma_index_in_range(dims, k);
        lemma_index_in_range(dims, c);
        assert(w.actors.layer.cells()[index_of(dims, k)] matches Some(a) ==> a.actor_id.0 < id_count(w));
    }
}

/// `gs` is a run of clone steps: each game is the one before it after a
/// clone step that went on (`Ok(true)`).
pub open spec fn npc_run(gs: Seq<Game>) -> bool {
    &&& gs.len() >= 1
    &&& forall|i: int|
        #![trigger gs[i]]
        0 <= i < gs.len() - 1 ==> gs[i].npc_turn_outcome(gs[i + 1], Ok::<bool, Status>(true))
}

/// The clone steps of this turn, played from `before` one after another,
/// ran until none was left, ending in `after`.
pub open spec fn npc_turns_ended(before: Game, after: Game) -> bool {
    exists|gs: Seq<Game>|
        #[trigger] npc_run(gs) && gs[0] == before && gs.last().npc_turn_outcome(after, Ok::<bool, Status>(false))
}

/// The clone steps of this turn, played from `before`, stopped at a step
/// that failed with `e` (ending in `after`), or at one that could not be
/// carried out at all (leaving the game as it was).
pub open spec fn npc_turns_failed(before: Game, after: Game, e: Status) -> bool {
    exists|gs: Seq<Game>|
        #[trigger] npc_run(gs) && gs[0] == before && (gs.last().npc_turn_outcome(after, Err::<bool, Status>(e)) || (
        !gs.last().npc_turn_safe() && after == gs.last() && e == Status::Error(
            "a clone's recorded step cannot be carried out",
        )))
}

/// The player's action: there is no player, or the rules give no update
/// for the action.
pub open spec fn player_refused(g: Game, action: Action) -> bool {
    match g.actors.player {
        None => true,
        Some(p) => forall|u: GameUpdate| !#[trigger] action_result(g, p.actor_id, action, Ok::<GameUpdate, Status>(u)),
    }
}

/// A whole turn from `before`: the player's `action` succeeded, the clone
/// steps ran out, and the next turn began with the events queued for it.
pub open spec fn turn_played(before: Game, action: Action, after: Game) -> bool {
    exists|mid: Game, end: Game|
        #[trigger] before.player_action_outcome(action, mid, Ok::<(), Status>(())) && #[trigger] npc_turns_ended(mid, end)
            && after.world == end.world && after.recordings == end.recordings && after.score == end.score
            && after.paradox_log == end.paradox_log && after.event_queue.this_turn@ == end.event_queue.next_turn@ && after.event_queue.next_turn@.len() == 0
}

/// A turn from `before` that stopped with `e`: the player's action failed
/// (and nothing further happened), or a clone step failed.
pub open spec fn turn_failed(before: Game, action: Action, after: Game, e: Status) -> bool {
    ||| before.player_action_outcome(action, after, Err::<(), Status>(e))
    ||| exists|mid: Game|
        #[trigger] before.player_action_outcome(action, mid, Ok::<(), Status>(())) && npc_turns_failed(mid, after, e)
}

/// The player's step from a ready game leaves the ids dense and known.
proof fn lemma_player_step(g: Game, action: Action, g2: Game, r: Result<()>)
    requires
        world_ready(g.world),
        g.player_action_outcome(action, g2, r),
    ensures
        ids_dense(g2.world.actors.index),
        actors_known(g2.world),
{
    if let Some(p) = g.actors.player {
        let res = choose|res: Result<GameUpdate>| g.player_action_step(p.actor_id, action, g2, r, res);
        assert(g.player_action_step(p.actor_id, action, g2, r, res));
        if let Ok(u) = res {
            lemma_action_tame(g, p.actor_id, action, u);
            assert(u.world.applied(g.world, g2.world));
            lemma_tame_applied(g, u, g2.world);
        }
    }
}

impl Game {
    /// Plays this turn's clone steps until none is left. A step that could
    /// not be carried out stops the turn with an error, the game as it was.
    pub fn do_npc_turns(&mut self) -> (r: Result<()>)
        requires
            world_ready(old(self).world),
        ensures
            world_ready(final(self).world),
            final(self).world.dims() == old(self).world.dims(),
            final(self).actors == old(self).actors,
            final(self).data == old(self).data,
            final(self).recordings == old(self).recordings,
            match r {
                Ok(_) => final(self).event_queue.this_turn@.len() == 0 && npc_turns_ended(*old(self), *final(self)),
                Err(e) => npc_turns_failed(*old(self), *final(self), e),
            },
    {
        let ghost g0 = *self;
        let ghost mut gs: Seq<Game> = seq![*self];
        loop
            invariant
                world_ready(self.world),
                self.world.dims() == g0.world.dims(),
                self.actors == g0.actors,
                self.data == g0.data,
                self.recordings == g0.recordings,
                npc_run(gs),
                g0 == *old(self),
                gs[0] == g0,
                gs.last() == *self,
            decreases usize::MAX + 1 - id_count(self.world), self.event_queue.this_turn@.len(),
        {
            if !self.npc_turn_is_safe() {
                proof {
                    assert(npc_run(gs) && gs[0] == g0 && !gs.last().npc_turn_safe() && *self == gs.last());
                }
                return Err(Status::Error("a clone's recorded step cannot be carried out"));
            }
            let ghost before = *self;
            let stepped = self.do_npc_turn();
            proof {
                lemma_npc_step(before, *self, stepped);
            }
            match stepped {
                Ok(true) => {
                    proof {
                        let prev = gs;
                        gs = gs.push(*self);
                        assert forall|i: int| #![trigger gs[i]] 0 <= i < gs.len() - 1 implies gs[i].npc_turn_outcome(
                            gs[i + 1],
                            Ok::<bool, Status>(true),
                        ) by {
                            if i < prev.len() - 1 {
                                assert(prev[i] == gs[i] && prev[i + 1] == gs[i + 1]);
                                assert(prev[i].npc_turn_outcome(prev[i + 1], Ok::<bool, Status>(true)));
                            } else {
                                assert(gs[i] == before);
                            }
                        }
                        assert(npc_run(gs));
                    }
                },
                Ok(false) => {
                    proof {
                        assert(npc_run(gs) && gs[0] == g0 && gs.last().npc_turn_outcome(*self, Ok::<bool, Status>(false)));
                    }
                    return Ok(());
                },
                Err(e) => {
                    proof {
                        assert(npc_run(gs) && gs[0] == g0 && gs.last().npc_turn_outcome(*self, Err::<bool, Status>(e)));
                    }
                    return Err(e);
                },
            }
        }
    }

    /// A whole turn: the player's action, then the clone steps of this turn
    /// until none is left, then the next turn. An action the rules refuse
    /// ends the turn there: nothing changes and the turn does not advance.
    pub fn player_action_and_turn(&mut self, action: Action) -> (r: Result<()>)
        requires
            world_ready(old(self).world),
            old(self).actors.player matches Some(p) ==> crate::action::action_safe(*old(self), p.actor_id, action),
        ensures
            world_ready(final(self).world),
            final(self).world.dims() == old(self).world.dims(),
            final(self).actors == old(self).actors,
            final(self).data == old(self).data,
            player_refused(*old(self), action) ==> r is Err && final(self).world == old(self).world
                && final(self).recordings == old(self).recordings && final(self).event_queue.this_turn@
                == old(self).event_queue.this_turn@ && final(self).event_queue.next_turn@
                == old(self).event_queue.next_turn@ && final(self).score == old(self).score
                && final(self).paradox_log == old(self).paradox_log,
            match r {
                Ok(_) => turn_played(*old(self), action, *final(self)),
                Err(e) => turn_failed(*old(self), action, *final(self), e),
            },
    {
        let ghost g0 = *self;
        let first = self.player_action(action);
        proof {
            lemma_player_step(g0, action, *self, first);
            super::game::lemma_only_successful_actions_recorded(g0, action, *self, first);
        }
        match first {
            Ok(v) => {
                assert(v == ());
                assert(g0.player_action_outcome(action, *self, Ok::<(), Status>(v)));
            },
            Err(e) => {
                return Err(e);
            },
        }
        let ghost mid = *self;
        assert(g0.player_action_outcome(action, mid, Ok::<(), Status>(())));
        match self.do_npc_turns() {
            Ok(_) => {},
            Err(e) => {
                proof {
                    assert(g0.player_action_outcome(action, mid, Ok::<(), Status>(())) && npc_turns_failed(mid, *self, e));
                }
                return Err(e);
            },
        }
        let ghost end = *self;
        let advanced = self.event_queue.advance_turn();
        proof {
            assert(advanced is Ok);
            assert(g0.player_action_outcome(action, mid, Ok::<(), Status>(())) && npc_turns_ended(mid, end));
        }
        advanced
    }
}

} // verus!
