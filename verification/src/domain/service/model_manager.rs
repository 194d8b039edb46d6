//! The model registry and the controller of each model's life.
//!
//! The manager owns every registered model. It admits models up to a
//! capacity, keeps their ids distinct, moves them through their states as
//! backends report, keeps their ledgers, and answers for their health.
//! Backends are called by the caller: the manager says which handle to load
//! or give back, and takes the outcome.

use crate::common::error::{ModelFault, UniModelError};
use crate::common::types::{
    new_model_id, utc_now_millis, BatchConfig, HealthStatus, ModelId, NetworkIO, ResourceUsage,
    Timestamp,
};
use crate::domain::model::model_entity::{
    Model, ModelConfig, ModelInfo, ModelInstance, ModelStatus, ModelType,
};
use crate::infrastructure::configuration::Config;
use vstd::prelude::*;

verus! {

/// Whether some model of `models` goes by `id`.
pub open spec fn holds_id(models: Seq<Model>, id: Seq<char>) -> bool {
    exists|i: int| 0 <= i < models.len() && (#[trigger] models[i]).info.id@ == id
}

/// Whether some model of `models` goes by an id of the length of a fresh
/// id. Only such an id can be drawn again.
pub open spec fn holds_fresh_id(models: Seq<Model>) -> bool {
    exists|i: int| 0 <= i < models.len() && (#[trigger] models[i]).info.id@.len() == 36
}

/// Whether every id but `id` finds after a change what it found before.
pub open spec fn others_kept(before: Seq<Model>, after: Seq<Model>, id: Seq<char>) -> bool {
    forall|other: Seq<char>| other != id ==> #[trigger] lookup(after, other) == lookup(before, other)
}

/// Whether `after` is `before` with the one entry `from` changed into `to`,
/// every entry in its place.
pub open spec fn changes_one(before: Seq<Model>, after: Seq<Model>, from: Model, to: Model) -> bool {
    exists|i: int| 0 <= i < before.len() && #[trigger] before[i] == from && after == before.update(i, to)
}

/// Whether no two models of `models` share an id.
pub open spec fn ids_distinct(models: Seq<Model>) -> bool {
    forall|i: int, j: int|
        0 <= i < j < models.len() ==> (#[trigger] models[i]).info.id@ != (#[trigger] models[j]).info.id@
}

/// The model that goes by `id`, if there is one.
pub open spec fn lookup(models: Seq<Model>, id: Seq<char>) -> Option<Model>
    decreases models.len(),
{
    if models.len() == 0 {
        None
    } else if models[0].info.id@ == id {
        Some(models[0])
    } else {
        lookup(models.skip(1), id)
    }
}

/// The test that a model passes when it does not go by `id`.
pub open spec fn other_than(id: Seq<char>) -> spec_fn(Model) -> bool {
    |m: Model| m.info.id@ != id
}

/// The models without the one that goes by `id`.
pub open spec fn without(models: Seq<Model>, id: Seq<char>) -> Seq<Model> {
    models.filter(other_than(id))
}

/// Whether `m` is the model that a registration at time `now` enters into
/// the registry: a new model, already handed to loading.
pub open spec fn is_registered(
    m: Model,
    id: ModelId,
    name: String,
    model_type: ModelType,
    config: ModelConfig,
    now: Timestamp,
) -> bool {
    &&& m.info.status is Loading
    &&& Model::is_new(
        Model { info: ModelInfo { status: ModelStatus::Initializing, ..m.info }, ..m },
        id,
        name,
        model_type,
        config,
        now,
    )
}

/// The model after its load failed at time `now`, in the error state
/// `failed` and unhealthy.
pub open spec fn with_failure(m: Model, failed: ModelStatus, now: Timestamp) -> Model {
    let moved = m.with_status(failed, now);
    Model { info: ModelInfo { health_status: HealthStatus::Unhealthy, ..moved.info }, ..moved }
}

/// How many of `n` registrations in a row are admitted by a registry that
/// holds `held` models and admits up to `capacity`.
pub open spec fn admitted(held: nat, capacity: nat, n: nat) -> nat
    decreases n,
{
    if n == 0 {
        0
    } else if held < capacity {
        1 + admitted(held + 1, capacity, (n - 1) as nat)
    } else {
        admitted(held, capacity, (n - 1) as nat)
    }
}

/// Why the model that goes by `id` cannot hand out its handle for an
/// inference, as the cause and the message of the error; `None` where it
/// can. The checks come in this order: the model is registered, it is
/// loaded, it is healthy.
pub open spec fn inference_fault(models: Seq<Model>, id: Seq<char>) -> Option<
    (ModelFault, Seq<char>),
> {
    match lookup(models, id) {
        None => Some((ModelFault::NotFound, "Model not found"@)),
        Some(m) => if !m.info.status.loaded() {
            Some((ModelFault::Unavailable, "Model not loaded"@))
        } else if m.info.health_status != HealthStatus::Healthy {
            Some((ModelFault::Unhealthy, "Model is unhealthy"@))
        } else {
            None
        },
    }
}

/// What the end of a load leaves to do.
#[derive(Debug)]
pub struct LoadCompletion {
    /// How the load ended for the model.
    pub result: Result<(), UniModelError>,
    /// A handle that no model took: the caller gives it back to its backend.
    pub orphan: Option<ModelInstance>,
}

/// The registry of models with its capacity.
#[derive(Debug)]
pub struct ModelManager {
    models: Vec<Model>,
    max_models: usize,
}

impl View for ModelManager {
    type V = Seq<Model>;

    /// The registered models, in the order of their registration.
    closed spec fn view(&self) -> Seq<Model> {
        self.models@
    }
}

impl ModelManager {
    /// Most models the registry holds at once.
    pub closed spec fn capacity(self) -> nat {
        self.max_models as nat
    }

    /// The invariant of the registry: every model is well formed, no id
    /// occurs twice, and the capacity is kept.
    pub open spec fn wf(self) -> bool {
        &&& forall|i: int| 0 <= i < self@.len() ==> (#[trigger] self@[i]).wf()
        &&& ids_distinct(self@)
        &&& self@.len() <= self.capacity()
    }

    /// The batch policy under which requests for `id` are served: that of
    /// the registered model, or `fallback` for an id that is not registered.
    pub open spec fn policy_or(self, fallback: BatchConfig, id: Seq<char>) -> BatchConfig {
        match lookup(self@, id) {
            Some(m) => m.info.config.batch_config,
            None => fallback,
        }
    }

    /// An empty registry that admits as many models as `config` allows.
    pub fn new(config: &Config) -> (r: Result<Self, UniModelError>)
        ensures
            r matches Ok(manager) && manager@.len() == 0 && manager.capacity()
                == config.engine.max_models && manager.wf(),
    {
        Ok(ModelManager { models: Vec::new(), max_models: config.engine.max_models as usize })
    }

    /// The number of registered models.
    pub fn len(&self) -> (n: usize)
        ensures
            n == self@.len(),
    {
        self.models.len()
    }

    /// The place of the model that goes by `id`.
    fn find(&self, id: &ModelId) -> (r: Option<usize>)
        ensures
            match r {
                Some(i) => i < self@.len() && self@[i as int].info.id@ == id@ && forall|j: int|
                    0 <= j < i ==> (#[trigger] self@[j]).info.id@ != id@,
                None => !holds_id(self@, id@),
            },
    {
        let mut i: usize = 0;
        while i < self.models.len()
            invariant
                0 <= i <= self.models@.len(),
                forall|j: int| 0 <= j < i ==> (#[trigger] self.models@[j]).info.id@ != id@,
            decreases self.models@.len() - i,
        {
            if self.models[i].info.id == *id {
                return Some(i);
            }
            i = i + 1;
        }
        None
    }

    /// Enters a model under `id` at time `now` and hands it to loading.
    ///
    /// A full registry refuses with the capacity error. An `id` that is
    /// already taken is refused as an internal error. A refusal changes
    /// nothing. The caller then loads the model through its backend and
    /// reports the outcome to [`ModelManager::complete_load`].
    pub fn register_model_as(
        &mut self,
        id: ModelId,
        name: String,
        model_type: ModelType,
        config: ModelConfig,
        now: Timestamp,
    ) -> (r: Result<ModelId, UniModelError>)
        requires
            old(self).wf(),
        ensures
            final(self).wf(),
            final(self).capacity() == old(self).capacity(),
            others_kept(old(self)@, final(self)@, id@),
            match r {
                Ok(given) => {
                    &&& old(self)@.len() < old(self).capacity()
                    &&& !holds_id(old(self)@, id@)
                    &&& given@ == id@
                    &&& final(self)@.len() == old(self)@.len() + 1
                    &&& final(self)@.drop_last() == old(self)@
                    &&& is_registered(final(self)@.last(), id, name, model_type, config, now)
                    &&& lookup(final(self)@, id@) == Some(final(self)@.last())
                },
                Err(e) => {
                    &&& final(self)@ == old(self)@
                    &&& if old(self)@.len() >= old(self).capacity() {
                        e.is_model_fault(ModelFault::CapacityExceeded) && e.message()
                            == "Maximum number of models reached"@
                    } else {
                        holds_id(old(self)@, id@) && e is Internal && e.message()
                            == "Model id already registered"@
                    }
                },
            },
    {
        if self.models.len() >= self.max_models {
            return Err(UniModelError::capacity_exceeded("Maximum number of models reached"));
        }
        if self.find(&id).is_some() {
            return Err(UniModelError::internal("Model id already registered"));
        }
        let given = id.clone();
        let mut model = Model::new_at(id, name, model_type, config, now);
        let moved = model.update_status_at(ModelStatus::Loading, now);
        assert(moved is Ok);
        let ghost before = self.models@;
        self.models.push(model);
        proof {
            assert(self.models@.drop_last() =~= before);
            assert forall|i: int, j: int| 0 <= i < j < self.models@.len() implies (
            #[trigger] self.models@[i]).info.id@ != (#[trigger] self.models@[j]).info.id@ by {
                if j == before.len() {
                    assert(before[i].info.id@ != id@);
                } else {
                    assert(before[i].info.id@ != before[j].info.id@);
                }
            }
            let m = self.models@.last();
            assert(Model { info: ModelInfo { status: ModelStatus::Initializing, ..m.info }, ..m }
                .info.metadata == m.info.metadata);
            assert forall|j: int| 0 <= j < before.len() implies (#[trigger] self.models@[j]).info.id@
                != id@ by {
                assert(self.models@[j] == before[j]);
            }
            lemma_lookup_at(self.models@, id@, before.len() as int);
            assert(self.models@ =~= before.push(m));
            assert forall|other: Seq<char>| other != id@ implies #[trigger] lookup(
                self.models@,
                other,
            ) == lookup(before, other) by {
                lemma_push_keeps_other(before, m, other);
            }
        }
        Ok(given)
    }

    /// Enters a model under a fresh random id, at the time of the system
    /// clock, and hands it to loading.
    ///
    /// A full registry refuses with the capacity error and changes nothing.
    /// Otherwise the model is entered, unless the random id is one that the
    /// registry already holds: so a registry with room that holds no id of
    /// the length of a fresh id always enters the model.
    pub fn register_model(&mut self, name: String, model_type: ModelType, config: ModelConfig) -> (r:
        Result<ModelId, UniModelError>)
        requires
            old(self).wf(),
        ensures
            final(self).wf(),
            final(self).capacity() == old(self).capacity(),
            old(self)@.len() >= old(self).capacity() ==> r is Err,
            old(self)@.len() < old(self).capacity() && !holds_fresh_id(old(self)@) ==> r is Ok,
            match r {
                Ok(given) => {
                    &&& old(self)@.len() < old(self).capacity()
                    &&& given@.len() == 36
                    &&& !holds_id(old(self)@, given@)
                    &&& final(self)@.len() == old(self)@.len() + 1
                    &&& final(self)@.drop_last() == old(self)@
                    &&& final(self)@.last().info.id@ == given@
                    &&& final(self)@.last().info.name == name
                    &&& final(self)@.last().info.model_type == model_type
                    &&& final(self)@.last().info.config == config
                    &&& final(self)@.last().info.status is Loading
                    &&& lookup(final(self)@, given@) == Some(final(self)@.last())
                    &&& others_kept(old(self)@, final(self)@, given@)
                },
                Err(e) => {
                    &&& final(self)@ == old(self)@
                    &&& if old(self)@.len() >= old(self).capacity() {
                        e.is_model_fault(ModelFault::CapacityExceeded) && e.message()
                            == "Maximum number of models reached"@
                    } else {
                        holds_fresh_id(old(self)@) && e is Internal && e.message()
                            == "Model id already registered"@
                    }
                },
            },
    {
        let id = new_model_id();
        let now = utc_now_millis();
        let r = self.register_model_as(id, name, model_type, config, now);
        proof {
            if r is Err && old(self)@.len() < old(self).capacity() {
                let k = choose|k: int|
                    0 <= k < old(self)@.len() && (#[trigger] old(self)@[k]).info.id@ == id@;
                assert(old(self)@[k].info.id@.len() == 36);
            }
        }
        r
    }

    /// What a backend needs to load the model that goes by `id`.
    pub fn load_config(&self, id: &ModelId) -> (r: Result<&ModelConfig, UniModelError>)
        ensures
            match r {
                Ok(config) => lookup(self@, id@) matches Some(m) && *config == m.info.config,
                Err(e) => lookup(self@, id@) is None && e.is_model_fault(ModelFault::NotFound)
                    && e.message() == "Model not found"@,
            },
    {
        match self.find(id) {
            Some(i) => {
                proof {
                    lemma_lookup_at(self@, id@, i as int);
                }
                Ok(&self.models[i].info.config)
            },
            None => {
                proof {
                    lemma_lookup_absent(self@, id@);
                }
                Err(UniModelError::model("Model not found"))
            },
        }
    }

    /// Takes the outcome of the load of the model that goes by `id`.
    ///
    /// A loading model that was loaded becomes ready and healthy and keeps
    /// the handle. A loading model whose load failed enters the error state
    /// with the failure's text and becomes unhealthy. Where the model is
    /// gone, or is no longer loading, nothing changes and a handle that came
    /// is handed back as an orphan, so that no handle leaks.
    pub fn complete_load(
        &mut self,
        id: &ModelId,
        outcome: Result<ModelInstance, UniModelError>,
        now: Timestamp,
    ) -> (done: LoadCompletion)
        requires
            old(self).wf(),
        ensures
            final(self).wf(),
            final(self).capacity() == old(self).capacity(),
            final(self)@.len() == old(self)@.len(),
            others_kept(old(self)@, final(self)@, id@),
            match lookup(old(self)@, id@) {
                None => {
                    &&& final(self)@ == old(self)@
                    &&& done.result matches Err(e) && e.is_model_fault(ModelFault::NotFound) && e.message()
                        == "Model not found"@
                    &&& done.orphan == match outcome {
                        Ok(instance) => Some(instance),
                        Err(_) => None,
                    }
                },
                Some(m) => if !(m.info.status is Loading) {
                    &&& final(self)@ == old(self)@
                    &&& done.result matches Err(e) && e is Internal && e.message()
                        == "Model is not loading"@
                    &&& done.orphan == match outcome {
                        Ok(instance) => Some(instance),
                        Err(_) => None,
                    }
                } else {
                    exists|i: int|
                        {
                            &&& 0 <= i < old(self)@.len()
                            &&& #[trigger] old(self)@[i] == m
                            &&& done.orphan is None
                            &&& match outcome {
                                Ok(instance) => {
                                    &&& done.result is Ok
                                    &&& final(self)@ == old(self)@.update(
                                        i,
                                        m.with_instance(instance, now),
                                    )
                                },
                                Err(e) => {
                                    &&& done.result == Err::<(), UniModelError>(e)
                                    &&& final(self)@[i].info.status matches ModelStatus::Error(msg)
                                        && msg@ == e.text()
                                    &&& final(self)@ == old(self)@.update(
                                        i,
                                        with_failure(m, final(self)@[i].info.status, now),
                                    )
                                },
                            }
                        }
                },
            },
    {
        match self.find(id) {
            None => {
                proof {
                    lemma_lookup_absent(self@, id@);
                }
                let orphan = match outcome {
                    Ok(instance) => Some(instance),
                    Err(_) => None,
                };
                LoadCompletion { result: Err(UniModelError::model("Model not found")), orphan }
            },
            Some(i) => {
                proof {
                    lemma_lookup_at(self@, id@, i as int);
                }
                let ghost before = self.models@;
                if !matches!(self.models[i].info.status, ModelStatus::Loading) {
                    let orphan = match outcome {
                        Ok(instance) => Some(instance),
                        Err(_) => None,
                    };
                    return LoadCompletion {
                        result: Err(UniModelError::internal("Model is not loading")),
                        orphan,
                    };
                }
                match outcome {
                    Ok(instance) => {
                        let attached = self.models[i].attach_instance(instance, now);
                        assert(attached is Ok);
                        proof {
                            lemma_update_keeps_others(before, i as int, self.models@[i as int]);
                            lemma_update_keeps_ids(before, self.models@, i as int);
                        }
                        LoadCompletion { result: Ok(()), orphan: None }
                    },
                    Err(e) => {
                        let failed = ModelStatus::Error(e.to_string());
                        let moved = self.models[i].update_status_at(failed, now);
                        assert(moved is Ok);
                        self.models[i].info.health_status = HealthStatus::Unhealthy;
                        proof {
                            assert(self.models@ =~= before.update(i as int, self.models@[i as int]));
                            lemma_update_keeps_others(before, i as int, self.models@[i as int]);
                            lemma_update_keeps_ids(before, self.models@, i as int);
                            assert(self.models@ =~= before.update(
                                i as int,
                                with_failure(before[i as int], self.models@[i as int].info.status, now),
                            ));
                        }
                        LoadCompletion { result: Err(e), orphan: None }
                    },
                }
            },
        }
    }

    /// Removes the model that goes by `id`.
    ///
    /// On success the model is gone from the registry, and its handle, if it
    /// had one, is returned for the caller to give back to the backend. An
    /// id that is not registered is refused and nothing changes.
    pub fn unregister_model(&mut self, id: &ModelId) -> (r: Result<
        Option<ModelInstance>,
        UniModelError,
    >)
        requires
            old(self).wf(),
        ensures
            final(self).wf(),
            final(self).capacity() == old(self).capacity(),
            !holds_id(final(self)@, id@),
            lookup(final(self)@, id@) is None,
            final(self)@ == without(old(self)@, id@),
            others_kept(old(self)@, final(self)@, id@),
            match r {
                Ok(released) => lookup(old(self)@, id@) matches Some(m) && released == m.instance
                    && final(self)@.len() + 1 == old(self)@.len(),
                Err(e) => lookup(old(self)@, id@) is None && final(self)@ == old(self)@
                    && e.is_model_fault(ModelFault::NotFound) && e.message()
                    == "Model not found"@,
            },
    {
        proof {
            assert forall|other: Seq<char>| other != id@ implies #[trigger] lookup(
                without(self@, id@),
                other,
            ) == lookup(self@, other) by {
                lemma_unregister_keeps_others(self@, id@, other);
            }
        }
        match self.find(id) {
            Some(i) => {
                let ghost before = self.models@;
                proof {
                    lemma_lookup_at(before, id@, i as int);
                    lemma_without_removes(before, id@, i as int);
                }
                let removed = self.models.remove(i);
                proof {
                    assert(self.models@ == before.remove(i as int));
                    assert forall|a: int, b: int| 0 <= a < b < self.models@.len() implies (
                    #[trigger] self.models@[a]).info.id@ != (#[trigger] self.models@[b]).info.id@ by {
                        let a0 = if a < i { a } else { a + 1 };
                        let b0 = if b < i { b } else { b + 1 };
                        assert(before[a0].info.id@ != before[b0].info.id@);
                    }
                    assert forall|a: int| 0 <= a < self.models@.len() implies (
                    #[trigger] self.models@[a]).wf() by {
                        let a0 = if a < i { a } else { a + 1 };
                        assert(before[a0].wf());
                    }
                    assert forall|a: int| 0 <= a < self.models@.len() implies (
                    #[trigger] self.models@[a]).info.id@ != id@ by {
                        let a0 = if a < i { a } else { a + 1 };
                        if a0 < i {
                            assert(before[a0].info.id@ != id@);
                        } else {
                            assert(before[i as int].info.id@ != before[a0].info.id@);
                        }
                    }
                }
                proof {
                    lemma_lookup_absent(self.models@, id@);
                }
                Ok(removed.instance)
            },
            None => {
                proof {
                    lemma_lookup_absent(self@, id@);
                    lemma_without_absent(self@, id@);
                }
                Err(UniModelError::model("Model not found"))
            },
        }
    }

    /// Moves the model that goes by `id` to `status` at time `now`, if the
    /// model accepts the change: so a ready model is marked running around
    /// a batch and ready again after it.
    ///
    /// On success the handle that the model no longer needs is returned.
    /// An id that is not registered and a change that the model refuses are
    /// reported, and nothing changes.
    pub fn update_model_status(&mut self, id: &ModelId, status: ModelStatus, now: Timestamp) -> (r:
        Result<Option<ModelInstance>, UniModelError>)
        requires
            old(self).wf(),
        ensures
            final(self).wf(),
            final(self).capacity() == old(self).capacity(),
            final(self)@.len() == old(self)@.len(),
            match lookup(old(self)@, id@) {
                None => {
                    &&& final(self)@ == old(self)@
                    &&& r matches Err(e) && e.is_model_fault(ModelFault::NotFound) && e.message()
                        == "Model not found"@
                },
                Some(m) => if m.accepts(status) {
                    &&& r == Ok::<Option<ModelInstance>, UniModelError>(
                        if status.loaded() {
                            None
                        } else {
                            m.instance
                        },
                    )
                    &&& lookup(final(self)@, id@) == Some(m.with_status(status, now))
                    &&& changes_one(old(self)@, final(self)@, m, m.with_status(status, now))
                    &&& others_kept(old(self)@, final(self)@, id@)
                } else {
                    &&& final(self)@ == old(self)@
                    &&& r matches Err(e) && e is Internal && e.message()
                        == "Invalid status transition"@
                },
            },
    {
        match self.find(id) {
            None => {
                proof {
                    lemma_lookup_absent(self@, id@);
                }
                Err(UniModelError::model("Model not found"))
            },
            Some(i) => {
                let ghost before = self.models@;
                proof {
                    lemma_lookup_at(before, id@, i as int);
                }
                let moved = self.models[i].update_status_at(status, now);
                proof {
                    assert(self.models@ =~= before.update(i as int, self.models@[i as int]));
                    lemma_update_keeps_others(before, i as int, self.models@[i as int]);
                    lemma_update_keeps_ids(before, self.models@, i as int);
                    assert forall|j: int| 0 <= j < i implies (#[trigger] self.models@[j]).info.id@
                        != id@ by {
                        assert(self.models@[j] == before[j]);
                    }
                    lemma_lookup_at(self.models@, id@, i as int);
                    if moved is Err {
                        assert(self.models@ =~= before);
                    }
                }
                moved
            },
        }
    }

    /// What the outside may see of the model that goes by `id`.
    pub fn get_model_info(&self, id: &ModelId) -> (r: Result<&ModelInfo, UniModelError>)
        ensures
            match r {
                Ok(info) => lookup(self@, id@) matches Some(m) && *info == m.info,
                Err(e) => lookup(self@, id@) is None && e.is_model_fault(ModelFault::NotFound) && e.message()
                    == "Model not found"@,
            },
    {
        match self.find(id) {
            Some(i) => {
                proof {
                    lemma_lookup_at(self@, id@, i as int);
                }
                Ok(&self.models[i].info)
            },
            None => {
                proof {
                    lemma_lookup_absent(self@, id@);
                }
                Err(UniModelError::model("Model not found"))
            },
        }
    }

    /// What the outside may see of every registered model, in the order of
    /// registration.
    pub fn list_models(&self) -> (r: Result<Vec<&ModelInfo>, UniModelError>)
        ensures
            r matches Ok(infos) && infos@.len() == self@.len() && forall|i: int|
                0 <= i < infos@.len() ==> *(#[trigger] infos@[i]) == self@[i].info,
    {
        let mut infos: Vec<&ModelInfo> = Vec::new();
        let mut i: usize = 0;
        while i < self.models.len()
            invariant
                0 <= i <= self.models@.len(),
                infos@.len() == i,
                forall|j: int| 0 <= j < i ==> *(#[trigger] infos@[j]) == self.models@[j].info,
            decreases self.models@.len() - i,
        {
            infos.push(&self.models[i].info);
            i = i + 1;
        }
        Ok(infos)
    }

    /// The batch policy under which requests for `id` are served.
    pub fn batch_policy(&self, id: &ModelId, fallback: BatchConfig) -> (policy: BatchConfig)
        ensures
            policy == self.policy_or(fallback, id@),
    {
        match self.find(id) {
            Some(i) => {
                proof {
                    lemma_lookup_at(self@, id@, i as int);
                }
                self.models[i].info.config.batch_config
            },
            None => {
                proof {
                    lemma_lookup_absent(self@, id@);
                }
                fallback
            },
        }
    }

    /// Hands out the handle of the model that goes by `id` for an inference
    /// at time `now`, and records the access.
    ///
    /// The checks come in this order: the model is registered, it is
    /// loaded, it is healthy. The first that fails gives the error, and
    /// nothing changes.
    pub fn get_model_for_inference_at(&mut self, id: &ModelId, now: Timestamp) -> (r: Result<
        ModelInstance,
        UniModelError,
    >)
        requires
            old(self).wf(),
        ensures
            final(self).wf(),
            final(self).capacity() == old(self).capacity(),
            match r {
                Ok(instance) => {
                    &&& inference_fault(old(self)@, id@) is None
                    &&& lookup(old(self)@, id@) matches Some(m) && m.instance == Some(instance)
                        && lookup(final(self)@, id@) == Some(m.touched(now)) && changes_one(
                        old(self)@,
                        final(self)@,
                        m,
                        m.touched(now),
                    )
                    &&& others_kept(old(self)@, final(self)@, id@)
                },
                Err(e) => {
                    &&& final(self)@ == old(self)@
                    &&& inference_fault(old(self)@, id@) matches Some(fault) && e.is_model_fault(
                        fault.0,
                    ) && e.message() == fault.1
                },
            },
    {
        match self.find(id) {
            None => {
                proof {
                    lemma_lookup_absent(self@, id@);
                }
                Err(UniModelError::model("Model not found"))
            },
            Some(i) => {
                proof {
                    lemma_lookup_at(self@, id@, i as int);
                }
                if !self.models[i].is_loaded() {
                    return Err(UniModelError::model_unavailable("Model not loaded"));
                }
                if !self.models[i].is_healthy() {
                    return Err(UniModelError::model_unhealthy("Model is unhealthy"));
                }
                let ghost before = self.models@;
                self.models[i].touch_at(now);
                proof {
                    lemma_update_keeps_ids(before, self.models@, i as int);
                    assert forall|j: int| 0 <= j < i implies (#[trigger] self.models@[j]).info.id@
                        != id@ by {
                        assert(self.models@[j] == before[j]);
                    }
                    lemma_lookup_at(self.models@, id@, i as int);
                    lemma_update_keeps_others(before, i as int, self.models@[i as int]);
                }
                match &self.models[i].instance {
                    Some(instance) => Ok(instance.clone()),
                    None => {
                        proof {
                            assert(before[i as int].wf());
                            assert(false);
                        }
                        Err(UniModelError::internal("Model has no instance"))
                    },
                }
            },
        }
    }

    /// Hands out the handle of the model that goes by `id` for an inference
    /// now, by the system clock, and records the access.
    pub fn get_model_for_inference(&mut self, id: &ModelId) -> (r: Result<
        ModelInstance,
        UniModelError,
    >)
        requires
            old(self).wf(),
        ensures
            final(self).wf(),
            final(self).capacity() == old(self).capacity(),
            final(self)@.len() == old(self)@.len(),
            match r {
                Ok(instance) => {
                    &&& inference_fault(old(self)@, id@) is None
                    &&& lookup(old(self)@, id@) matches Some(m) && m.instance == Some(instance)
                        && exists|now: Timestamp|
                        now >= 0 && lookup(final(self)@, id@) == Some(m.touched(now))
                            && #[trigger] changes_one(
                            old(self)@,
                            final(self)@,
                            m,
                            m.touched(now),
                        )
                    &&& others_kept(old(self)@, final(self)@, id@)
                },
                Err(e) => {
                    &&& final(self)@ == old(self)@
                    &&& inference_fault(old(self)@, id@) matches Some(fault) && e.is_model_fault(
                        fault.0,
                    ) && e.message() == fault.1
                },
            },
    {
        let now = utc_now_millis();
        self.get_model_for_inference_at(id, now)
    }

    /// Counts one request into the ledger of the model that goes by `id`,
    /// at time `now`. An id that is not registered is refused and nothing
    /// changes.
    pub fn update_model_performance_at(
        &mut self,
        id: &ModelId,
        latency_ms: u64,
        success: bool,
        now: Timestamp,
    ) -> (r: Result<(), UniModelError>)
        requires
            old(self).wf(),
        ensures
            final(self).wf(),
            final(self).capacity() == old(self).capacity(),
            match r {
                Ok(()) => lookup(old(self)@, id@) matches Some(m) && lookup(final(self)@, id@)
                    == Some(m.with_observation(latency_ms, success, now)) && changes_one(
                    old(self)@,
                    final(self)@,
                    m,
                    m.with_observation(latency_ms, success, now),
                ) && others_kept(old(self)@, final(self)@, id@),
                Err(e) => lookup(old(self)@, id@) is None && final(self)@ == old(self)@
                    && e.is_model_fault(ModelFault::NotFound) && e.message()
                    == "Model not found"@,
            },
    {
        match self.find(id) {
            Some(i) => {
                let ghost before = self.models@;
                proof {
                    lemma_lookup_at(before, id@, i as int);
                }
                self.models[i].update_performance_stats_at(latency_ms, success, now);
                proof {
                    lemma_update_keeps_others(before, i as int, self.models@[i as int]);
                    lemma_update_keeps_ids(before, self.models@, i as int);
                    assert forall|j: int| 0 <= j < i implies (#[trigger] self.models@[j]).info.id@
                        != id@ by {
                        assert(self.models@[j] == before[j]);
                    }
                    lemma_lookup_at(self.models@, id@, i as int);
                }
                Ok(())
            },
            None => {
                proof {
                    lemma_lookup_absent(self@, id@);
                }
                Err(UniModelError::model("Model not found"))
            },
        }
    }

    /// Counts one request into the ledger of the model that goes by `id`,
    /// now, by the system clock.
    pub fn update_model_performance(&mut self, id: &ModelId, latency_ms: u64, success: bool) -> (r:
        Result<(), UniModelError>)
        requires
            old(self).wf(),
        ensures
            final(self).wf(),
            final(self).capacity() == old(self).capacity(),
            final(self)@.len() == old(self)@.len(),
            match r {
                Ok(()) => lookup(old(self)@, id@) matches Some(m) && others_kept(
                    old(self)@,
                    final(self)@,
                    id@,
                ) && exists|now: Timestamp|
                    now >= 0 && lookup(final(self)@, id@) == Some(
                        m.with_observation(latency_ms, success, now),
                    ) && #[trigger] changes_one(
                        old(self)@,
                        final(self)@,
                        m,
                        m.with_observation(latency_ms, success, now),
                    ),
                Err(e) => lookup(old(self)@, id@) is None && final(self)@ == old(self)@
                    && e.is_model_fault(ModelFault::NotFound) && e.message()
                    == "Model not found"@,
            },
    {
        let now = utc_now_millis();
        self.update_model_performance_at(id, latency_ms, success, now)
    }

    /// The health of the engine, as its models tell it.
    pub open spec fn health(models: Seq<Model>) -> HealthStatus {
        if models.len() == 0 {
            HealthStatus::Unknown
        } else if exists|i: int|
            0 <= i < models.len() && (#[trigger] models[i]).info.health_status
                == HealthStatus::Healthy {
            HealthStatus::Healthy
        } else {
            HealthStatus::Unhealthy
        }
    }

    /// The health of the engine: unknown while no model is registered,
    /// healthy when at least one model is healthy, unhealthy otherwise.
    pub fn health_check(&self) -> (health: HealthStatus)
        ensures
            health == ModelManager::health(self@),
    {
        if self.models.len() == 0 {
            return HealthStatus::Unknown;
        }
        let mut i: usize = 0;
        while i < self.models.len()
            invariant
                0 <= i <= self.models@.len(),
                forall|j: int|
                    0 <= j < i ==> (#[trigger] self.models@[j]).info.health_status
                        != HealthStatus::Healthy,
            decreases self.models@.len() - i,
        {
            if self.models[i].is_healthy() {
                return HealthStatus::Healthy;
            }
            i = i + 1;
        }
        HealthStatus::Unhealthy
    }

    /// Whether `usage` is the reading of an engine that measures nothing,
    /// taken at time `now`.
    pub open spec fn is_blank_usage(usage: ResourceUsage, now: Timestamp) -> bool {
        &&& usage.cpu_usage_bits == 0
        &&& usage.memory_usage_bytes == 0
        &&& usage.total_memory_bytes == 0
        &&& usage.gpu_usage@.len() == 0
        &&& usage.disk_usage_bytes == 0
        &&& usage.network_io == (NetworkIO {
            bytes_received: 0,
            bytes_sent: 0,
            packets_received: 0,
            packets_sent: 0,
        })
        &&& usage.timestamp == now
    }

    /// The resource reading at time `now`. The engine measures nothing
    /// itself: every figure is zero.
    pub fn get_resource_usage_at(&self, now: Timestamp) -> (r: Result<ResourceUsage, UniModelError>)
        ensures
            r matches Ok(usage) && ModelManager::is_blank_usage(usage, now),
    {
        Ok(
            ResourceUsage {
                cpu_usage_bits: 0,
                memory_usage_bytes: 0,
                total_memory_bytes: 0,
                gpu_usage: Vec::new(),
                disk_usage_bytes: 0,
                network_io: NetworkIO {
                    bytes_received: 0,
                    bytes_sent: 0,
                    packets_received: 0,
                    packets_sent: 0,
                },
                timestamp: now,
            },
        )
    }

    /// The resource reading now, by the system clock.
    pub fn get_resource_usage(&self) -> (r: Result<ResourceUsage, UniModelError>)
        ensures
            r matches Ok(usage) && usage.timestamp >= 0 && ModelManager::is_blank_usage(
                usage,
                usage.timestamp,
            ),
    {
        let now = utc_now_millis();
        self.get_resource_usage_at(now)
    }
}

/// The first model that goes by `id` is the one that `lookup` finds.
pub proof fn lemma_lookup_at(models: Seq<Model>, id: Seq<char>, i: int)
    requires
        0 <= i < models.len(),
        models[i].info.id@ == id,
        forall|j: int| 0 <= j < i ==> (#[trigger] models[j]).info.id@ != id,
    ensures
        lookup(models, id) == Some(models[i]),
    decreases i,
{
    if i > 0 {
        assert(models[0].info.id@ != id);
        let rest = models.skip(1);
        assert forall|j: int| 0 <= j < i - 1 implies (#[trigger] rest[j]).info.id@ != id by {
            assert(models[j + 1].info.id@ != id);
        }
        lemma_lookup_at(rest, id, i - 1);
    }
}

/// Where no model goes by `id`, `lookup` finds none.
pub proof fn lemma_lookup_absent(models: Seq<Model>, id: Seq<char>)
    requires
        !holds_id(models, id),
    ensures
        lookup(models, id) is None,
    decreases models.len(),
{
    if models.len() > 0 {
        assert(models[0].info.id@ != id);
        let rest = models.skip(1);
        assert forall|j: int| 0 <= j < rest.len() implies (#[trigger] rest[j]).info.id@ != id by {
            assert(models[j + 1].info.id@ != id);
        }
        lemma_lookup_absent(rest, id);
    }
}

/// What `lookup` finds goes by the id that was asked for and is one of the
/// models; it finds something exactly when some model goes by the id.
pub proof fn lemma_lookup_found(models: Seq<Model>, id: Seq<char>)
    ensures
        lookup(models, id) is Some <==> holds_id(models, id),
        lookup(models, id) matches Some(m) ==> m.info.id@ == id && models.contains(m),
    decreases models.len(),
{
    if models.len() > 0 {
        if models[0].info.id@ == id {
            assert(models[0] == models[0]);
        } else {
            let rest = models.skip(1);
            lemma_lookup_found(rest, id);
            if holds_id(models, id) {
                let i = choose|i: int| 0 <= i < models.len() && (#[trigger] models[i]).info.id@ == id;
                assert(rest[i - 1] == models[i]);
            }
            if lookup(rest, id) is Some {
                let i = choose|i: int| 0 <= i < rest.len() && (#[trigger] rest[i]).info.id@ == id;
                assert(models[i + 1] == rest[i]);
                let m = lookup(rest, id)->Some_0;
                let k = choose|k: int| 0 <= k < rest.len() && rest[k] == m;
                assert(models[k + 1] == m);
            }
        }
    }
}

/// Changing the entry of one id leaves what every other id finds.
pub proof fn lemma_update_keeps_other(models: Seq<Model>, i: int, to: Model, other: Seq<char>)
    requires
        0 <= i < models.len(),
        to.info.id@ == models[i].info.id@,
        other != models[i].info.id@,
    ensures
        lookup(models.update(i, to), other) == lookup(models, other),
    decreases models.len(),
{
    let after = models.update(i, to);
    if i == 0 {
        assert(after.skip(1) =~= models.skip(1));
    } else {
        assert(after[0] == models[0]);
        if models[0].info.id@ != other {
            assert(after.skip(1) =~= models.skip(1).update(i - 1, to));
            lemma_update_keeps_other(models.skip(1), i - 1, to, other);
        }
    }
}

/// Entering a model leaves what every other id finds.
pub proof fn lemma_push_keeps_other(models: Seq<Model>, entered: Model, other: Seq<char>)
    requires
        other != entered.info.id@,
    ensures
        lookup(models.push(entered), other) == lookup(models, other),
    decreases models.len(),
{
    let after = models.push(entered);
    if models.len() == 0 {
        assert(after.skip(1) =~= models);
    } else {
        assert(after[0] == models[0]);
        if models[0].info.id@ != other {
            assert(after.skip(1) =~= models.skip(1).push(entered));
            lemma_push_keeps_other(models.skip(1), entered, other);
        }
    }
}

/// Changing the entry of one id leaves what all other ids find.
pub proof fn lemma_update_keeps_others(models: Seq<Model>, i: int, to: Model)
    requires
        0 <= i < models.len(),
        to.info.id@ == models[i].info.id@,
    ensures
        others_kept(models, models.update(i, to), models[i].info.id@),
{
    assert forall|other: Seq<char>| other != models[i].info.id@ implies #[trigger] lookup(
        models.update(i, to),
        other,
    ) == lookup(models, other) by {
        lemma_update_keeps_other(models, i, to, other);
    }
}

/// Replacing a model by one of the same id keeps the ids of the registry.
proof fn lemma_update_keeps_ids(before: Seq<Model>, after: Seq<Model>, i: int)
    requires
        0 <= i < before.len(),
        after == before.update(i, after[i]),
        after.len() == before.len(),
        after[i].info.id == before[i].info.id,
        ids_distinct(before),
        forall|k: int| 0 <= k < before.len() ==> (#[trigger] before[k]).wf(),
        after[i].wf(),
    ensures
        ids_distinct(after),
        forall|k: int| 0 <= k < after.len() ==> (#[trigger] after[k]).wf(),
{
    assert forall|a: int, b: int| 0 <= a < b < after.len() implies (#[trigger] after[a]).info.id@
        != (#[trigger] after[b]).info.id@ by {
        assert(before[a].info.id@ != before[b].info.id@);
    }
    assert forall|k: int| 0 <= k < after.len() implies (#[trigger] after[k]).wf() by {
        if k != i {
            assert(before[k].wf());
        }
    }
}

/// In a registry of distinct ids, leaving out the id of the model at place
/// `i` removes that model and no other.
proof fn lemma_without_removes(models: Seq<Model>, id: Seq<char>, i: int)
    requires
        0 <= i < models.len(),
        models[i].info.id@ == id,
        ids_distinct(models),
    ensures
        without(models, id) == models.remove(i),
    decreases models.len(),
{
    reveal(Seq::filter);
    let keep = other_than(id);
    let front = models.drop_last();
    let n = models.len() - 1;
    if i == n {
        assert forall|j: int| 0 <= j < front.len() implies keep(#[trigger] front[j]) by {
            assert(models[j].info.id@ != models[i].info.id@);
        }
        lemma_filter_keeps_all(front, keep);
        assert(models.remove(i) =~= front);
    } else {
        assert(models[i].info.id@ != models[n].info.id@);
        assert(front[i] == models[i]);
        assert forall|a: int, b: int| 0 <= a < b < front.len() implies (#[trigger] front[a]).info.id@
            != (#[trigger] front[b]).info.id@ by {
            assert(models[a].info.id@ != models[b].info.id@);
        }
        lemma_without_removes(front, id, i);
        assert(models.remove(i) =~= front.remove(i).push(models.last()));
    }
}

/// Where no model goes by `id`, leaving the id out changes nothing.
proof fn lemma_without_absent(models: Seq<Model>, id: Seq<char>)
    requires
        !holds_id(models, id),
    ensures
        without(models, id) == models,
{
    let keep = other_than(id);
    assert forall|j: int| 0 <= j < models.len() implies keep(#[trigger] models[j]) by {
        assert(models[j].info.id@ != id);
    }
    lemma_filter_keeps_all(models, keep);
}

/// A filter that every element passes changes nothing.
proof fn lemma_filter_keeps_all(models: Seq<Model>, keep: spec_fn(Model) -> bool)
    requires
        forall|j: int| 0 <= j < models.len() ==> keep(#[trigger] models[j]),
    ensures
        models.filter(keep) == models,
    decreases models.len(),
{
    reveal(Seq::filter);
    if models.len() > 0 {
        let front = models.drop_last();
        assert forall|j: int| 0 <= j < front.len() implies keep(#[trigger] front[j]) by {
            assert(front[j] == models[j]);
        }
        lemma_filter_keeps_all(front, keep);
        assert(front.push(models.last()) =~= models);
    }
}

/// The test that a model passes when it goes by `id`.
pub open spec fn goes_by(id: Seq<char>) -> spec_fn(Model) -> bool {
    |m: Model| m.info.id@ == id
}

/// In a registry of distinct ids, an id that is registered has exactly one
/// entry, and an id that is not registered has none.
pub proof fn lemma_one_entry_per_id(models: Seq<Model>, id: Seq<char>)
    requires
        ids_distinct(models),
    ensures
        models.filter(goes_by(id)).len() == if holds_id(models, id) {
            1nat
        } else {
            0nat
        },
    decreases models.len(),
{
    reveal(Seq::filter);
    if models.len() > 0 {
        let front = models.drop_last();
        let last = models.last();
        assert forall|a: int, b: int| 0 <= a < b < front.len() implies (#[trigger] front[a]).info.id@
            != (#[trigger] front[b]).info.id@ by {
            assert(models[a].info.id@ != models[b].info.id@);
        }
        lemma_one_entry_per_id(front, id);
        if holds_id(front, id) {
            let k = choose|k: int| 0 <= k < front.len() && (#[trigger] front[k]).info.id@ == id;
            assert(models[k].info.id@ == id);
            assert(models[k].info.id@ != models[models.len() - 1].info.id@);
        } else if last.info.id@ == id {
            assert(models[models.len() - 1].info.id@ == id);
        } else if holds_id(models, id) {
            let k = choose|k: int| 0 <= k < models.len() && (#[trigger] models[k]).info.id@ == id;
            assert(front[k].info.id@ == id);
        }
    }
}

/// After a model was unregistered, no lookup finds its id: a second
/// unregistration of the same id is refused as not found.
pub proof fn lemma_unregistered_stays_gone(models: Seq<Model>, id: Seq<char>)
    ensures
        !holds_id(without(models, id), id),
        lookup(without(models, id), id) is None,
        without(without(models, id), id) == without(models, id),
{
    let keep = other_than(id);
    let rest = models.filter(keep);
    assert forall|j: int| 0 <= j < rest.len() implies (#[trigger] rest[j]).info.id@ != id by {
        models.lemma_filter_pred(keep, j);
    }
    lemma_lookup_absent(rest, id);
    lemma_without_absent(rest, id);
}

/// Unregistering one id leaves every other id as it was: what a lookup of
/// another id finds does not change.
pub proof fn lemma_unregister_keeps_others(models: Seq<Model>, id: Seq<char>, other: Seq<char>)
    requires
        other != id,
    ensures
        lookup(without(models, id), other) == lookup(models, other),
    decreases models.len(),
{
    reveal_with_fuel(Seq::filter, 3);
    let keep = other_than(id);
    if models.len() > 0 {
        let rest = models.skip(1);
        lemma_unregister_keeps_others(rest, id, other);
        assert(models =~= seq![models[0]] + rest);
        Seq::filter_distributes_over_add(seq![models[0]], rest, keep);
        assert(seq![models[0]].drop_last() =~= Seq::<Model>::empty());
        if keep(models[0]) {
            assert(seq![models[0]].filter(keep) =~= seq![models[0]]);
            assert(without(models, id) =~= seq![models[0]] + without(rest, id));
            assert(without(models, id).skip(1) =~= without(rest, id));
        } else {
            assert(seq![models[0]].filter(keep) =~= Seq::<Model>::empty());
            assert(without(models, id) =~= without(rest, id));
        }
    } else {
        assert(without(models, id) =~= models);
    }
}

/// Of `n` registrations in a row into an empty registry, as many are
/// admitted as the capacity allows, and the others are refused: with more
/// registrations than capacity, exactly `capacity` succeed and `n - capacity`
/// fail.
pub proof fn lemma_capacity_bounds_admissions(held: nat, capacity: nat, n: nat)
    requires
        held <= capacity,
    ensures
        admitted(held, capacity, n) == if n <= capacity - held {
            n
        } else {
            (capacity - held) as nat
        },
    decreases n,
{
    if n > 0 {
        if held < capacity {
            lemma_capacity_bounds_admissions(held + 1, capacity, (n - 1) as nat);
        } else {
            lemma_capacity_bounds_admissions(held, capacity, (n - 1) as nat);
        }
    }
}

} // verus!
