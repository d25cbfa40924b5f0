use vstd::prelude::*;

use crate::catalog::{best_translation_model, find_model, first_match, load_lookup};
use crate::types::{
    is_event, opt_view, settings_wf, EngineType, LoadRequest, ModelInfo, ModelLoadStatus,
    ModelStateEvent, ModelUnloadTimeout, Settings, TranscribeError,
};

verus! {

/// The model lifecycle controller.
///
/// It tracks which engine is resident, which model a backend load is
/// running for, serializes initiated loads, records transcription
/// activity, holds the cancellation slot, and queues
/// `model-state-changed` events.
///
/// The host owns the real engine instance, the clock and the threads; it
/// keeps the instance in lockstep with this state by running every
/// `LoadRequest` handed out here and reporting the outcome through
/// `complete_load`, and it drains `events` into its event sink.
pub struct TranscriptionManager {
    /// Snapshot of the external model catalog, read-only here.
    pub catalog: Vec<ModelInfo>,
    /// User preferences, read-only here.
    pub settings: Settings,
    /// The loaded engine's variant tag; `None` when unloaded.
    pub engine: Option<EngineType>,
    /// The loaded model's id; `Some` exactly when `engine` is.
    pub current_model_id: Option<String>,
    /// The model a backend load is in flight for, if any.
    pub loading_model_id: Option<String>,
    /// Serialization flag for initiated background loads.
    pub is_loading: bool,
    /// Monotonic milliseconds of the last transcription activity.
    pub last_activity: u64,
    /// Whether a cancellation token is registered.
    pub has_token: bool,
    /// Whether the registered token has been cancelled.
    pub cancel_requested: bool,
    /// Queued `model-state-changed` events, drained by the host.
    pub events: Vec<ModelStateEvent>,
}

/// The slot invariant: a model id is tracked exactly when an engine is
/// resident.
pub open spec fn slot_wf(s: TranscriptionManager) -> bool {
    s.engine is Some <==> s.current_model_id is Some
}

/// `post` extends `pre` by exactly `n` queued events.
pub open spec fn events_extended(
    pre: Seq<ModelStateEvent>,
    post: Seq<ModelStateEvent>,
    n: int,
) -> bool {
    &&& post.len() == pre.len() + n
    &&& post.subrange(0, pre.len() as int) == pre
}

/// The fields no lifecycle transition touches.
pub open spec fn frame(pre: TranscriptionManager, post: TranscriptionManager) -> bool {
    &&& post.catalog == pre.catalog
    &&& post.settings == pre.settings
    &&& post.last_activity == pre.last_activity
    &&& post.has_token == pre.has_token
    &&& post.cancel_requested == pre.cancel_requested
}

/// The unload edge: the slot is emptied and one `unloaded` event is
/// queued; nothing else moves.
pub open spec fn unload_transition(pre: TranscriptionManager, post: TranscriptionManager) -> bool {
    &&& frame(pre, post)
    &&& post.engine is None
    &&& post.current_model_id is None
    &&& post.loading_model_id == pre.loading_model_id
    &&& post.is_loading == pre.is_loading
    &&& events_extended(pre.events@, post.events@, 1)
    &&& is_event(post.events@.last(), "unloaded"@, Option::None, Option::None, false)
}

/// The begin-load edge for model `id`, with result `r`: a
/// `loading_started` event is queued, the id is validated against the
/// catalog, and on success the load is marked in flight. The slot itself
/// does not move until the load completes.
pub open spec fn load_begin_transition(
    pre: TranscriptionManager,
    post: TranscriptionManager,
    id: Seq<char>,
    r: Result<LoadRequest, TranscribeError>,
) -> bool {
    &&& frame(pre, post)
    &&& post.engine == pre.engine
    &&& post.current_model_id == pre.current_model_id
    &&& post.is_loading == pre.is_loading
    &&& match first_match(pre.catalog@, id) {
        Option::Some(i) => if pre.catalog@[i].is_downloaded {
            &&& r matches Ok(req) && req.model_id@ == id && req.model_name@
                == pre.catalog@[i].name@ && req.engine_type == pre.catalog@[i].engine_type
                && req.path@ == pre.catalog@[i].path@
            &&& post.loading_model_id matches Some(m) && m@ == id
            &&& events_extended(pre.events@, post.events@, 1)
            &&& is_event(
                post.events@.last(),
                "loading_started"@,
                Option::Some(id),
                Option::None,
                false,
            )
        } else {
            &&& r matches Err(e) && e == TranscribeError::ModelNotDownloaded
            &&& post.loading_model_id == pre.loading_model_id
            &&& events_extended(pre.events@, post.events@, 2)
            &&& is_event(
                post.events@[pre.events@.len() as int],
                "loading_started"@,
                Option::Some(id),
                Option::None,
                false,
            )
            &&& is_event(
                post.events@.last(),
                "loading_failed"@,
                Option::Some(id),
                Option::Some(pre.catalog@[i].name@),
                true,
            )
        },
        Option::None => {
            &&& r matches Err(e) && e == TranscribeError::ModelNotFound
            &&& post.loading_model_id == pre.loading_model_id
            &&& events_extended(pre.events@, post.events@, 2)
            &&& is_event(
                post.events@[pre.events@.len() as int],
                "loading_started"@,
                Option::Some(id),
                Option::None,
                false,
            )
            &&& is_event(
                post.events@.last(),
                "loading_failed"@,
                Option::Some(id),
                Option::None,
                true,
            )
        },
    }
}

/// The successful completion edge: the slot now holds the loaded model
/// and a `loading_completed` event is queued.
pub open spec fn complete_ok_transition(
    pre: TranscriptionManager,
    post: TranscriptionManager,
    req: LoadRequest,
) -> bool {
    &&& frame(pre, post)
    &&& post.engine == Option::Some(req.engine_type)
    &&& post.current_model_id matches Some(m) && m@ == req.model_id@
    &&& post.loading_model_id is None
    &&& !post.is_loading
    &&& events_extended(pre.events@, post.events@, 1)
    &&& is_event(
        post.events@.last(),
        "loading_completed"@,
        Option::Some(req.model_id@),
        Option::Some(req.model_name@),
        false,
    )
}

/// The failed completion edge: the slot keeps what it held (a failed
/// replacement keeps the previous engine usable) and a `loading_failed`
/// event is queued.
pub open spec fn complete_fail_transition(
    pre: TranscriptionManager,
    post: TranscriptionManager,
    req: LoadRequest,
) -> bool {
    &&& frame(pre, post)
    &&& post.engine == pre.engine
    &&& post.current_model_id == pre.current_model_id
    &&& post.loading_model_id is None
    &&& !post.is_loading
    &&& events_extended(pre.events@, post.events@, 1)
    &&& is_event(
        post.events@.last(),
        "loading_failed"@,
        Option::Some(req.model_id@),
        Option::Some(req.model_name@),
        true,
    )
}

/// What applying the immediate-unload policy does: under the immediate
/// setting with an engine resident, the unload edge; otherwise nothing.
pub open spec fn immediate_unload_applied(
    pre: TranscriptionManager,
    post: TranscriptionManager,
) -> bool {
    if pre.settings.model_unload_timeout == ModelUnloadTimeout::Immediately && pre.engine is Some {
        unload_transition(pre, post)
    } else {
        post == pre
    }
}

/// What one attempt of the capability switcher does: nothing unless a
/// Parakeet-family engine is resident; otherwise, when the catalog offers
/// a candidate, the begin-load edge for it (handing out the request on
/// success), and nothing when it offers none.
pub open spec fn switch_attempt(
    pre: TranscriptionManager,
    post: TranscriptionManager,
    r: Option<LoadRequest>,
) -> bool {
    &&& (pre.engine != Option::Some(EngineType::Parakeet) ==> post == pre && r is None)
    &&& (pre.engine == Option::Some(EngineType::Parakeet) ==> match
        crate::catalog::spec_best_candidate(pre.catalog@) {
        Option::Some(i) => ({
            let id = pre.catalog@[i].id@;
            match r {
                Option::Some(req) => load_begin_transition(pre, post, id, Result::Ok(req)),
                Option::None => load_begin_transition(
                    pre,
                    post,
                    id,
                    Result::Err(load_lookup(pre.catalog@, id)->Err_0),
                ),
            }
        }),
        Option::None => post == pre && r is None,
    })
}

/// The skeleton of an initiation: an initiation that hands out a request
/// leaves the serialization flag set, and an initiation that finds the
/// flag set (or an engine already resident) changes nothing.
pub open spec fn initiate_transition(
    pre: TranscriptionManager,
    post: TranscriptionManager,
    r: Option<LoadRequest>,
) -> bool {
    &&& (pre.is_loading || pre.engine is Some) ==> (r is None && post == pre)
    &&& r is Some ==> (!pre.is_loading && pre.engine is None && post.is_loading)
}

impl TranscriptionManager {
    /// A fresh controller: unloaded, idle, with the given catalog
    /// snapshot and settings, its activity clock starting now.
    pub fn new(catalog: Vec<ModelInfo>, settings: Settings, now_ms: u64) -> (r: Self)
        ensures
            r.catalog == catalog,
            r.settings == settings,
            r.engine is None,
            r.current_model_id is None,
            r.loading_model_id is None,
            !r.is_loading,
            r.last_activity == now_ms,
            !r.has_token,
            !r.cancel_requested,
            r.events@ =~= Seq::<ModelStateEvent>::empty(),
            slot_wf(r),
    {
        TranscriptionManager {
            catalog,
            settings,
            engine: None,
            current_model_id: None,
            loading_model_id: None,
            is_loading: false,
            last_activity: now_ms,
            has_token: false,
            cancel_requested: false,
            events: Vec::new(),
        }
    }

    /// Whether an engine is resident. True exactly after a completed
    /// transition into the loaded state, false after an unload.
    pub fn is_model_loaded(&self) -> (r: bool)
        ensures
            r == (self.engine is Some),
    {
        self.engine.is_some()
    }

    /// The loaded model's id, if any.
    pub fn get_current_model(&self) -> (r: Option<String>)
        ensures
            opt_view(r) == opt_view(self.current_model_id),
    {
        match &self.current_model_id {
            Some(s) => Some(s.clone()),
            None => None,
        }
    }

    /// Snapshot for UI queries.
    pub fn load_status(&self) -> (r: ModelLoadStatus)
        ensures
            r.is_loaded == (self.engine is Some),
            opt_view(r.current_model) == opt_view(self.current_model_id),
    {
        ModelLoadStatus { is_loaded: self.is_model_loaded(), current_model: self.get_current_model() }
    }

    /// Record transcription activity for the idle watcher.
    pub fn touch_activity(&mut self, now_ms: u64)
        ensures
            *final(self) == (TranscriptionManager { last_activity: now_ms, ..*old(self) }),
    {
        self.last_activity = now_ms;
    }

    /// Drain the queued `model-state-changed` events for emission.
    pub fn take_events(&mut self) -> (r: Vec<ModelStateEvent>)
        ensures
            r == old(self).events,
            final(self).events@ =~= Seq::<ModelStateEvent>::empty(),
            *final(self) == (TranscriptionManager { events: final(self).events, ..*old(self) }),
    {
        let mut out: Vec<ModelStateEvent> = Vec::new();
        core::mem::swap(&mut out, &mut self.events);
        out
    }

    /// Set the cancellation flag of the registered token; without a
    /// registered token this is a no-op.
    pub fn cancel_current_transcription(&mut self)
        ensures
            old(self).has_token ==> *final(self) == (TranscriptionManager {
                cancel_requested: true,
                ..*old(self)
            }),
            !old(self).has_token ==> *final(self) == *old(self),
    {
        if self.has_token {
            self.cancel_requested = true;
        }
    }

    /// Empty the engine slot and queue the `unloaded` event. Always
    /// succeeds; unloading an already-unloaded controller changes no
    /// lifecycle field.
    pub fn unload_model(&mut self) -> (r: Result<(), TranscribeError>)
        ensures
            r is Ok,
            unload_transition(*old(self), *final(self)),
            slot_wf(*final(self)),
    {
        let ghost pre_events = self.events@;
        self.engine = None;
        self.current_model_id = None;
        self.events.push(
            ModelStateEvent {
                event_type: "unloaded".to_owned(),
                model_id: None,
                model_name: None,
                error: None,
            },
        );
        proof {
            assert(self.events@.subrange(0, pre_events.len() as int) =~= pre_events);
        }
        Ok(())
    }

    /// Begin loading `model_id`: queue `loading_started`, resolve the id
    /// against the catalog, and on success hand the host the request to
    /// run. A miss or a not-downloaded model fails here, queueing
    /// `loading_failed`. The slot keeps its engine until the load
    /// completes.
    pub fn load_model(&mut self, model_id: &str) -> (r: Result<LoadRequest, TranscribeError>)
        requires
            old(self).loading_model_id is None,
        ensures
            load_begin_transition(*old(self), *final(self), model_id@, r),
            r is Ok <==> load_lookup(old(self).catalog@, model_id@) is Ok,
            r is Err ==> r == Result::<LoadRequest, TranscribeError>::Err(
                load_lookup(old(self).catalog@, model_id@)->Err_0,
            ),
            slot_wf(*old(self)) ==> slot_wf(*final(self)),
    {
        let ghost pre_events = self.events@;
        self.events.push(
            ModelStateEvent {
                event_type: "loading_started".to_owned(),
                model_id: Some(model_id.to_owned()),
                model_name: None,
                error: None,
            },
        );
        let ghost started_events = self.events@;
        proof {
            assert(self.events@.subrange(0, pre_events.len() as int) =~= pre_events);
        }
        match find_model(&self.catalog, model_id) {
            None => {
                self.events.push(
                    ModelStateEvent {
                        event_type: "loading_failed".to_owned(),
                        model_id: Some(model_id.to_owned()),
                        model_name: None,
                        error: Some("Model not found".to_owned()),
                    },
                );
                proof {
                    assert(self.events@.subrange(0, pre_events.len() as int) =~= pre_events);
                    assert(self.events@[pre_events.len() as int] == started_events.last());
                }
                Err(TranscribeError::ModelNotFound)
            },
            Some(i) => {
                if !self.catalog[i].is_downloaded {
                    let name = self.catalog[i].name.clone();
                    self.events.push(
                        ModelStateEvent {
                            event_type: "loading_failed".to_owned(),
                            model_id: Some(model_id.to_owned()),
                            model_name: Some(name),
                            error: Some("Model not downloaded".to_owned()),
                        },
                    );
                    proof {
                        assert(self.events@.subrange(0, pre_events.len() as int) =~= pre_events);
                        assert(self.events@[pre_events.len() as int] == started_events.last());
                    }
                    Err(TranscribeError::ModelNotDownloaded)
                } else {
                    self.loading_model_id = Some(model_id.to_owned());
                    let req = LoadRequest {
                        model_id: model_id.to_owned(),
                        model_name: self.catalog[i].name.clone(),
                        engine_type: self.catalog[i].engine_type,
                        path: self.catalog[i].path.clone(),
                    };
                    Ok(req)
                }
            },
        }
    }

    /// Record the outcome of the backend load the host ran for `req`.
    /// Success moves the slot to the loaded model (replacing any previous
    /// engine) and queues `loading_completed`; failure keeps the previous
    /// slot contents and queues `loading_failed`. Either way the load is
    /// no longer in flight.
    pub fn complete_load(&mut self, req: &LoadRequest, outcome: Result<(), String>) -> (r: Result<
        (),
        TranscribeError,
    >)
        requires
            old(self).loading_model_id matches Some(m) && m@ == req.model_id@,
            slot_wf(*old(self)),
        ensures
            outcome is Ok ==> r is Ok && complete_ok_transition(*old(self), *final(self), *req),
            outcome matches Err(msg) ==> (r matches Err(e) && e matches
                TranscribeError::BackendLoadError(m) && m@ == msg@) && complete_fail_transition(
                *old(self),
                *final(self),
                *req,
            ),
            slot_wf(*final(self)),
    {
        let ghost pre_events = self.events@;
        self.loading_model_id = None;
        self.is_loading = false;
        match outcome {
            Ok(()) => {
                self.engine = Some(req.engine_type);
                self.current_model_id = Some(req.model_id.clone());
                self.events.push(
                    ModelStateEvent {
                        event_type: "loading_completed".to_owned(),
                        model_id: Some(req.model_id.clone()),
                        model_name: Some(req.model_name.clone()),
                        error: None,
                    },
                );
                proof {
                    assert(self.events@.subrange(0, pre_events.len() as int) =~= pre_events);
                }
                Ok(())
            },
            Err(msg) => {
                self.events.push(
                    ModelStateEvent {
                        event_type: "loading_failed".to_owned(),
                        model_id: Some(req.model_id.clone()),
                        model_name: Some(req.model_name.clone()),
                        error: Some(msg.clone()),
                    },
                );
                proof {
                    assert(self.events@.subrange(0, pre_events.len() as int) =~= pre_events);
                }
                Err(TranscribeError::BackendLoadError(msg))
            },
        }
    }

    /// Begin loading the selected model unless a load is already in
    /// flight or an engine is already resident; in those cases this is a
    /// no-op. At most one backend load is started however often this is
    /// called before the load completes.
    pub fn initiate_model_load(&mut self) -> (r: Option<LoadRequest>)
        requires
            old(self).is_loading || old(self).engine is Some || old(self).loading_model_id is None,
        ensures
            initiate_transition(*old(self), *final(self), r),
            (old(self).is_loading || old(self).engine is Some) ==> *final(self) == *old(self) && r
                is None,
            (!old(self).is_loading && old(self).engine is None) ==> match r {
                Option::Some(req) => load_begin_transition(
                    (TranscriptionManager { is_loading: true, ..*old(self) }),
                    *final(self),
                    old(self).settings.selected_model@,
                    Result::Ok(req),
                ),
                Option::None => !final(self).is_loading && load_begin_transition(
                    *old(self),
                    *final(self),
                    old(self).settings.selected_model@,
                    Result::Err(load_lookup(
                        old(self).catalog@,
                        old(self).settings.selected_model@,
                    )->Err_0),
                ),
            },
            slot_wf(*old(self)) ==> slot_wf(*final(self)),
    {
        if self.is_loading || self.is_model_loaded() {
            return None;
        }
        self.is_loading = true;
        let selected = self.settings.selected_model.clone();
        match self.load_model(selected.as_str()) {
            Ok(req) => Some(req),
            Err(_) => {
                self.is_loading = false;
                None
            },
        }
    }

    /// Unload right away when the user chose immediate unloading and an
    /// engine is resident; otherwise do nothing.
    pub fn maybe_unload_immediately(&mut self)
        ensures
            immediate_unload_applied(*old(self), *final(self)),
            slot_wf(*old(self)) ==> slot_wf(*final(self)),
    {
        if matches!(self.settings.model_unload_timeout, ModelUnloadTimeout::Immediately)
            && self.is_model_loaded() {
            let _ = self.unload_model();
        }
    }

    /// One tick of the idle watcher at time `now_ms`: under a bounded
    /// timeout, when the configured limit has passed since the last
    /// activity and an engine is resident, unload it. Immediate and
    /// disabled modes never unload here.
    pub fn idle_tick(&mut self, now_ms: u64) -> (unloaded: bool)
        requires
            settings_wf(old(self).settings),
        ensures
            unloaded == (idle_expired(*old(self), now_ms) && old(self).engine is Some),
            unloaded ==> unload_transition(*old(self), *final(self)),
            !unloaded ==> *final(self) == *old(self),
            slot_wf(*old(self)) ==> slot_wf(*final(self)),
    {
        let limit_ms: u64 = match self.settings.model_unload_timeout {
            ModelUnloadTimeout::AfterSeconds(n) => n * 1000,
            ModelUnloadTimeout::Immediately => {
                return false;
            },
            ModelUnloadTimeout::Never => {
                return false;
            },
        };
        let elapsed = if now_ms >= self.last_activity {
            now_ms - self.last_activity
        } else {
            0
        };
        if elapsed > limit_ms && self.is_model_loaded() {
            let _ = self.unload_model();
            true
        } else {
            false
        }
    }

    /// Swap in a translation-capable engine when a Parakeet-family engine
    /// is resident: pick the best downloaded Whisper-family model and
    /// begin loading it, handing the host the request to run. Returns
    /// `None` — proceeding on the current engine — when no candidate
    /// exists or when nothing needs switching.
    pub fn ensure_translation_capable_engine(&mut self) -> (r: Option<LoadRequest>)
        requires
            old(self).loading_model_id is None,
        ensures
            switch_attempt(*old(self), *final(self), r),
            slot_wf(*old(self)) ==> slot_wf(*final(self)),
    {
        if !matches!(self.engine, Some(EngineType::Parakeet)) {
            return None;
        }
        match best_translation_model(&self.catalog) {
            None => None,
            Some(i) => {
                let id = self.catalog[i].id.clone();
                match self.load_model(id.as_str()) {
                    Ok(req) => Some(req),
                    Err(_) => None,
                }
            },
        }
    }
}

/// Whether the idle limit has passed at `now_ms`: only bounded timeouts
/// expire.
pub open spec fn idle_expired(s: TranscriptionManager, now_ms: u64) -> bool {
    match s.settings.model_unload_timeout {
        ModelUnloadTimeout::AfterSeconds(n) => (if now_ms >= s.last_activity {
            now_ms - s.last_activity
        } else {
            0
        }) > n * 1000,
        _ => false,
    }
}

/// Loading serialization: once an initiation has started a backend load,
/// a second initiation before completion is a no-op, so however many
/// parties initiate, exactly one backend load begins.
pub proof fn lemma_initiate_load_once(
    s0: TranscriptionManager,
    s1: TranscriptionManager,
    s2: TranscriptionManager,
    r1: Option<LoadRequest>,
    r2: Option<LoadRequest>,
)
    requires
        initiate_transition(s0, s1, r1),
        initiate_transition(s1, s2, r2),
        r1 is Some,
    ensures
        r2 is None,
        s2 == s1,
{
}

/// After an unload completes, a load of a model the catalog holds as
/// downloaded begins successfully, and no stale engine is observable
/// either after the unload or while the load runs.
pub proof fn lemma_unload_then_load_fresh(
    s0: TranscriptionManager,
    s1: TranscriptionManager,
    s2: TranscriptionManager,
    id: Seq<char>,
    r: Result<LoadRequest, TranscribeError>,
)
    requires
        unload_transition(s0, s1),
        load_begin_transition(s1, s2, id, r),
        load_lookup(s1.catalog@, id) is Ok,
    ensures
        s1.engine is None,
        s2.engine is None,
        r is Ok,
{
}

/// The loaded query tracks completed transitions: a completed load is
/// observed as loaded with exactly the loaded model's id, and a
/// completed unload is observed as unloaded.
pub proof fn lemma_loaded_tracks_transitions(
    pre: TranscriptionManager,
    post: TranscriptionManager,
    req: LoadRequest,
    u0: TranscriptionManager,
    u1: TranscriptionManager,
)
    requires
        complete_ok_transition(pre, post, req),
        unload_transition(u0, u1),
    ensures
        post.engine is Some,
        post.current_model_id matches Some(m) && m@ == req.model_id@,
        u1.engine is None,
        u1.current_model_id is None,
{
}

/// Unloading an already-unloaded controller moves no lifecycle field: it
/// only queues the event.
pub proof fn lemma_unload_idempotent(pre: TranscriptionManager, post: TranscriptionManager)
    requires
        unload_transition(pre, post),
        pre.engine is None,
        pre.current_model_id is None,
    ensures
        post.engine == pre.engine,
        post.current_model_id == pre.current_model_id,
        post.loading_model_id == pre.loading_model_id,
        post.is_loading == pre.is_loading,
        frame(pre, post),
{
}

} // verus!
