//! The run as a state machine.
//!
//! The whole synchronization run is a fixed sequence of external
//! operations — list the target location, fetch the stream index, fetch
//! one metadata file per inspected build, read the persisted marker,
//! upload each missing artifact, rewrite the marker — with a decision
//! between every two of them. The machine holds those decisions: the
//! caller performs each emitted [`Action`], feeds the outcome back as an
//! [`Event`], and performs no storage or network operation that the
//! machine did not ask for. Any failed action aborts the run.
//!
//! The spec-level transition function [`next`] defines every step; the
//! executable [`Run::step`] returns exactly what `next` prescribes.

use vstd::prelude::*;
use crate::model::{
    BuildMeta, Builds, MetaModel, RetainedBuild, RetainedModel, SyncState, ids_of, marker_model,
};
use crate::planner::{
    RunError, all_keys_present, build_inventory, inventory_spec, latest_of, needs_update,
    needs_update_spec, plan_of, plan_spec, window_ids, window_spec,
};

verus! {

/// How a finished run ends.
pub enum Outcome {
    /// None of the inspected builds declares a rojig artifact.
    NoRojigBuilds,
    /// Artifacts were uploaded and the marker now names `build`.
    Synchronized { build: String },
    /// Nothing was uploaded; the location already holds everything and
    /// the marker names `build` (rewritten first if it named another).
    AlreadySynchronized { build: String },
}

/// The external operation the caller must perform next.
pub enum Action {
    /// List every object under the target bucket and prefix.
    ListInventory,
    /// Fetch the stream index, `builds.json`.
    FetchIndex,
    /// Fetch `<id>/<arch>/meta.json`.
    FetchMeta { id: String, arch: String },
    /// Read the persisted sync-state marker, absent counting as `None`.
    GetState,
    /// Stream `<buildid>/<arch>/<path>` into the target location under
    /// the key `<prefix>/<path>`, declaring exactly `size` bytes. Note
    /// that artifact identity is the filename alone: the declared
    /// `sha256` travels through the model but is never compared against
    /// what storage already holds or what was transferred.
    Upload { buildid: String, path: String, size: u64 },
    /// Overwrite the marker so that it names `build`.
    PutState { build: String },
    /// The run is over; report the outcome.
    Finish { outcome: Outcome },
}

/// What an action produced.
pub enum Event {
    /// The complete listing: each entry's key as UTF-8 bytes, or `None`
    /// for an entry without a key.
    Inventory { keys: Vec<Option<Vec<u8>>> },
    /// The parsed stream index.
    Index { index: Builds },
    /// One parsed metadata file.
    Meta { meta: BuildMeta },
    /// The parsed marker, or `None` when no marker exists yet.
    State { marker: Option<SyncState> },
    /// One upload completed.
    Uploaded,
    /// The marker write completed.
    MarkerWritten,
}

/// Where the run stands: which action is outstanding, and what has been
/// learned so far.
pub enum Phase {
    AwaitInventory,
    AwaitIndex { inv: Vec<Vec<u8>> },
    Fetching { inv: Vec<Vec<u8>>, ids: Vec<String>, next_ix: usize, retained: Vec<RetainedBuild> },
    AwaitState { inv: Vec<Vec<u8>>, retained: Vec<RetainedBuild>, latest: String },
    Uploading { plan: Vec<RetainedBuild>, next_ix: usize, latest: String, needs: bool },
    AwaitMarker { latest: String, uploaded: bool },
    Done { outcome: Outcome },
}

/// One run of the tool.
pub struct Run {
    pub arch: String,
    pub history: u16,
    pub phase: Phase,
}

/// Ghost model of an outcome.
#[verifier::ext_equal]
pub ghost enum OutcomeModel {
    NoRojigBuilds,
    Synchronized { build: Seq<char> },
    AlreadySynchronized { build: Seq<char> },
}

/// Ghost model of an action.
#[verifier::ext_equal]
pub ghost enum ActionModel {
    ListInventory,
    FetchIndex,
    FetchMeta { id: Seq<char>, arch: Seq<char> },
    GetState,
    Upload { buildid: Seq<char>, path: Seq<char>, size: u64 },
    PutState { build: Seq<char> },
    Finish { outcome: OutcomeModel },
}

/// Ghost model of an event.
#[verifier::ext_equal]
pub ghost enum EventModel {
    Inventory { keys: Seq<Option<Seq<u8>>> },
    Index { ids: Seq<Seq<char>> },
    Meta { meta: MetaModel },
    State { marker: Option<Seq<char>> },
    Uploaded,
    MarkerWritten,
}

/// Ghost model of a phase.
#[verifier::ext_equal]
pub ghost enum PhaseModel {
    AwaitInventory,
    AwaitIndex { inv: Seq<Seq<u8>> },
    Fetching { inv: Seq<Seq<u8>>, ids: Seq<Seq<char>>, next_ix: int, retained: Seq<RetainedModel> },
    AwaitState { inv: Seq<Seq<u8>>, retained: Seq<RetainedModel>, latest: Seq<char> },
    Uploading { plan: Seq<RetainedModel>, next_ix: int, latest: Seq<char>, needs: bool },
    AwaitMarker { latest: Seq<char>, uploaded: bool },
    Done { outcome: OutcomeModel },
}

/// Ghost model of a run.
#[verifier::ext_equal]
pub ghost struct RunModel {
    pub arch: Seq<char>,
    pub history: u16,
    pub phase: PhaseModel,
}

impl View for Outcome {
    type V = OutcomeModel;

    open spec fn view(&self) -> OutcomeModel {
        match self {
            Outcome::NoRojigBuilds => OutcomeModel::NoRojigBuilds,
            Outcome::Synchronized { build } => OutcomeModel::Synchronized { build: build@ },
            Outcome::AlreadySynchronized { build } => OutcomeModel::AlreadySynchronized {
                build: build@,
            },
        }
    }
}

impl View for Action {
    type V = ActionModel;

    open spec fn view(&self) -> ActionModel {
        match self {
            Action::ListInventory => ActionModel::ListInventory,
            Action::FetchIndex => ActionModel::FetchIndex,
            Action::FetchMeta { id, arch } => ActionModel::FetchMeta { id: id@, arch: arch@ },
            Action::GetState => ActionModel::GetState,
            Action::Upload { buildid, path, size } => ActionModel::Upload {
                buildid: buildid@,
                path: path@,
                size: *size,
            },
            Action::PutState { build } => ActionModel::PutState { build: build@ },
            Action::Finish { outcome } => ActionModel::Finish { outcome: outcome@ },
        }
    }
}

impl View for Event {
    type V = EventModel;

    open spec fn view(&self) -> EventModel {
        match self {
            Event::Inventory { keys } => EventModel::Inventory { keys: keys.deep_view() },
            Event::Index { index } => EventModel::Index { ids: ids_of(*index) },
            Event::Meta { meta } => EventModel::Meta { meta: meta@ },
            Event::State { marker } => EventModel::State { marker: marker_model(*marker) },
            Event::Uploaded => EventModel::Uploaded,
            Event::MarkerWritten => EventModel::MarkerWritten,
        }
    }
}

impl View for Phase {
    type V = PhaseModel;

    open spec fn view(&self) -> PhaseModel {
        match self {
            Phase::AwaitInventory => PhaseModel::AwaitInventory,
            Phase::AwaitIndex { inv } => PhaseModel::AwaitIndex { inv: inv.deep_view() },
            Phase::Fetching { inv, ids, next_ix, retained } => PhaseModel::Fetching {
                inv: inv.deep_view(),
                ids: ids.deep_view(),
                next_ix: *next_ix as int,
                retained: retained.deep_view(),
            },
            Phase::AwaitState { inv, retained, latest } => PhaseModel::AwaitState {
                inv: inv.deep_view(),
                retained: retained.deep_view(),
                latest: latest@,
            },
            Phase::Uploading { plan, next_ix, latest, needs } => PhaseModel::Uploading {
                plan: plan.deep_view(),
                next_ix: *next_ix as int,
                latest: latest@,
                needs: *needs,
            },
            Phase::AwaitMarker { latest, uploaded } => PhaseModel::AwaitMarker {
                latest: latest@,
                uploaded: *uploaded,
            },
            Phase::Done { outcome } => PhaseModel::Done { outcome: outcome@ },
        }
    }
}

impl View for Run {
    type V = RunModel;

    open spec fn view(&self) -> RunModel {
        RunModel { arch: self.arch@, history: self.history, phase: self.phase@ }
    }
}

/// The model of a freshly created run.
pub open spec fn init_model(arch: Seq<char>, history: u16) -> RunModel {
    RunModel { arch, history, phase: PhaseModel::AwaitInventory }
}

/// A step's result seen at the model level.
pub open spec fn res_model(r: Result<Action, RunError>) -> Result<ActionModel, RunError> {
    match r {
        Ok(a) => Ok(a@),
        Err(e) => Err(e),
    }
}

/// The transition function: from a run state and an event to the next
/// run state and the next action (or a refusal, which leaves the state
/// unchanged and aborts the run).
pub open spec fn next(r: RunModel, ev: EventModel) -> (RunModel, Result<ActionModel, RunError>) {
    match (r.phase, ev) {
        (PhaseModel::AwaitInventory, EventModel::Inventory { keys }) => {
            if all_keys_present(keys) {
                (
                    RunModel { phase: PhaseModel::AwaitIndex { inv: inventory_spec(keys) }, ..r },
                    Ok(ActionModel::FetchIndex),
                )
            } else {
                (r, Err(RunError::MissingKey))
            }
        },
        (PhaseModel::AwaitIndex { inv }, EventModel::Index { ids }) => {
            let w = window_spec(ids, r.history);
            if w.len() == 0 {
                (
                    RunModel { phase: PhaseModel::Done { outcome: OutcomeModel::NoRojigBuilds }, ..r },
                    Ok(ActionModel::Finish { outcome: OutcomeModel::NoRojigBuilds }),
                )
            } else {
                (
                    RunModel {
                        phase: PhaseModel::Fetching {
                            inv,
                            ids: w,
                            next_ix: 0,
                            retained: Seq::<RetainedModel>::empty(),
                        },
                        ..r
                    },
                    Ok(ActionModel::FetchMeta { id: w[0], arch: r.arch }),
                )
            }
        },
        (PhaseModel::Fetching { inv, ids, next_ix, retained }, EventModel::Meta { meta }) => {
            let retained2 = match meta.rojig {
                Option::Some(img) => retained.push(
                    RetainedModel { buildid: meta.buildid, rojig: img },
                ),
                Option::None => retained,
            };
            if next_ix + 1 < ids.len() {
                (
                    RunModel {
                        phase: PhaseModel::Fetching {
                            inv,
                            ids,
                            next_ix: next_ix + 1,
                            retained: retained2,
                        },
                        ..r
                    },
                    Ok(ActionModel::FetchMeta { id: ids[next_ix + 1], arch: r.arch }),
                )
            } else if retained2.len() == 0 {
                (
                    RunModel { phase: PhaseModel::Done { outcome: OutcomeModel::NoRojigBuilds }, ..r },
                    Ok(ActionModel::Finish { outcome: OutcomeModel::NoRojigBuilds }),
                )
            } else {
                (
                    RunModel {
                        phase: PhaseModel::AwaitState {
                            inv,
                            retained: retained2,
                            latest: retained2.last().buildid,
                        },
                        ..r
                    },
                    Ok(ActionModel::GetState),
                )
            }
        },
        (PhaseModel::AwaitState { inv, retained, latest }, EventModel::State { marker }) => {
            let plan = plan_spec(retained, inv);
            let needs = needs_update_spec(marker, latest);
            if plan.len() > 0 {
                (
                    RunModel {
                        phase: PhaseModel::Uploading { plan, next_ix: 0, latest, needs },
                        ..r
                    },
                    Ok(ActionModel::Upload {
                        buildid: plan[0].buildid,
                        path: plan[0].rojig.path,
                        size: plan[0].rojig.size,
                    }),
                )
            } else if needs {
                (
                    RunModel { phase: PhaseModel::AwaitMarker { latest, uploaded: false }, ..r },
                    Ok(ActionModel::PutState { build: latest }),
                )
            } else {
                (
                    RunModel {
                        phase: PhaseModel::Done {
                            outcome: OutcomeModel::AlreadySynchronized { build: latest },
                        },
                        ..r
                    },
                    Ok(ActionModel::Finish {
                        outcome: OutcomeModel::AlreadySynchronized { build: latest },
                    }),
                )
            }
        },
        (PhaseModel::Uploading { plan, next_ix, latest, needs }, EventModel::Uploaded) => {
            if next_ix + 1 < plan.len() {
                (
                    RunModel {
                        phase: PhaseModel::Uploading { plan, next_ix: next_ix + 1, latest, needs },
                        ..r
                    },
                    Ok(ActionModel::Upload {
                        buildid: plan[next_ix + 1].buildid,
                        path: plan[next_ix + 1].rojig.path,
                        size: plan[next_ix + 1].rojig.size,
                    }),
                )
            } else if needs {
                (
                    RunModel { phase: PhaseModel::AwaitMarker { latest, uploaded: true }, ..r },
                    Ok(ActionModel::PutState { build: latest }),
                )
            } else {
                (
                    RunModel {
                        phase: PhaseModel::Done {
                            outcome: OutcomeModel::AlreadySynchronized { build: latest },
                        },
                        ..r
                    },
                    Ok(ActionModel::Finish {
                        outcome: OutcomeModel::AlreadySynchronized { build: latest },
                    }),
                )
            }
        },
        (PhaseModel::AwaitMarker { latest, uploaded }, EventModel::MarkerWritten) => {
            let outcome = if uploaded {
                OutcomeModel::Synchronized { build: latest }
            } else {
                OutcomeModel::AlreadySynchronized { build: latest }
            };
            (
                RunModel { phase: PhaseModel::Done { outcome }, ..r },
                Ok(ActionModel::Finish { outcome }),
            )
        },
        _ => (r, Err(RunError::UnexpectedEvent)),
    }
}

impl Run {
    /// Creates a run; the first action is always the inventory listing.
    pub fn new(arch: String, history: u16) -> (r: (Run, Action))
        ensures
            r.0@ == init_model(arch@, history),
            r.1@ == ActionModel::ListInventory,
    {
        (Run { arch, history, phase: Phase::AwaitInventory }, Action::ListInventory)
    }

    /// Performs one transition, exactly as the model's [`next`] says.
    pub fn step(self, ev: Event) -> (r: (Run, Result<Action, RunError>))
        ensures
            r.0@ == next(self@, ev@).0,
            res_model(r.1) == next(self@, ev@).1,
    {
        let ghost m0 = self@;
        let ghost e0 = ev@;
        let Run { arch, history, phase } = self;
        match (phase, ev) {
            (Phase::AwaitInventory, Event::Inventory { keys }) => {
                match build_inventory(&keys) {
                    Ok(inv) => {
                        let run = Run { arch, history, phase: Phase::AwaitIndex { inv } };
                        proof {
                            assert(run@ =~~= next(m0, e0).0);
                        }
                        (run, Ok(Action::FetchIndex))
                    },
                    Err(e) => {
                        let run = Run { arch, history, phase: Phase::AwaitInventory };
                        proof {
                            assert(run@ =~~= next(m0, e0).0);
                        }
                        (run, Err(e))
                    },
                }
            },
            (Phase::AwaitIndex { inv }, Event::Index { index }) => {
                let w = window_ids(&index, history);
                if w.len() == 0 {
                    let run = Run {
                        arch,
                        history,
                        phase: Phase::Done { outcome: Outcome::NoRojigBuilds },
                    };
                    proof {
                        assert(run@ =~~= next(m0, e0).0);
                    }
                    (run, Ok(Action::Finish { outcome: Outcome::NoRojigBuilds }))
                } else {
                    let id = w[0].clone();
                    let a = arch.clone();
                    let run = Run {
                        arch,
                        history,
                        phase: Phase::Fetching { inv, ids: w, next_ix: 0, retained: Vec::new() },
                    };
                    proof {
                        assert(run@ =~~= next(m0, e0).0);
                        assert(Action::FetchMeta { id, arch: a }@ =~~= next(m0, e0).1->Ok_0);
                    }
                    (run, Ok(Action::FetchMeta { id, arch: a }))
                }
            },
            (Phase::Fetching { inv, ids, next_ix, retained }, Event::Meta { meta }) => {
                let mut retained = retained;
                let ghost retained_pre = retained.deep_view();
                match meta.images.rojig {
                    Option::Some(img) => {
                        let rb = RetainedBuild { buildid: meta.buildid, rojig: img };
                        retained.push(rb);
                        proof {
                            assert(retained.deep_view() =~= retained_pre.push(rb@));
                        }
                    },
                    Option::None => {},
                }
                if ids.len() > 0 && next_ix < ids.len() - 1 {
                    let id = ids[next_ix + 1].clone();
                    let a = arch.clone();
                    let run = Run {
                        arch,
                        history,
                        phase: Phase::Fetching { inv, ids, next_ix: next_ix + 1, retained },
                    };
                    proof {
                        assert(run@ =~~= next(m0, e0).0);
                        assert(Action::FetchMeta { id, arch: a }@ =~~= next(m0, e0).1->Ok_0);
                    }
                    (run, Ok(Action::FetchMeta { id, arch: a }))
                } else if retained.len() == 0 {
                    let run = Run {
                        arch,
                        history,
                        phase: Phase::Done { outcome: Outcome::NoRojigBuilds },
                    };
                    proof {
                        assert(run@ =~~= next(m0, e0).0);
                    }
                    (run, Ok(Action::Finish { outcome: Outcome::NoRojigBuilds }))
                } else {
                    let latest = latest_of(&retained);
                    let run = Run {
                        arch,
                        history,
                        phase: Phase::AwaitState { inv, retained, latest },
                    };
                    proof {
                        assert(run@ =~~= next(m0, e0).0);
                    }
                    (run, Ok(Action::GetState))
                }
            },
            (Phase::AwaitState { inv, retained, latest }, Event::State { marker }) => {
                let plan = plan_of(&retained, &inv);
                let needs = needs_update(&marker, &latest);
                if plan.len() > 0 {
                    let buildid = plan[0].buildid.clone();
                    let path = plan[0].rojig.path.clone();
                    let size = plan[0].rojig.size;
                    let run = Run {
                        arch,
                        history,
                        phase: Phase::Uploading { plan, next_ix: 0, latest, needs },
                    };
                    proof {
                        assert(run@ =~~= next(m0, e0).0);
                        assert(Action::Upload { buildid, path, size }@ =~~= next(m0, e0).1->Ok_0);
                    }
                    (run, Ok(Action::Upload { buildid, path, size }))
                } else if needs {
                    let build = latest.clone();
                    let run = Run {
                        arch,
                        history,
                        phase: Phase::AwaitMarker { latest, uploaded: false },
                    };
                    proof {
                        assert(run@ =~~= next(m0, e0).0);
                    }
                    (run, Ok(Action::PutState { build }))
                } else {
                    let build = latest.clone();
                    let run = Run {
                        arch,
                        history,
                        phase: Phase::Done {
                            outcome: Outcome::AlreadySynchronized { build: latest },
                        },
                    };
                    proof {
                        assert(run@ =~~= next(m0, e0).0);
                    }
                    (run, Ok(Action::Finish { outcome: Outcome::AlreadySynchronized { build } }))
                }
            },
            (Phase::Uploading { plan, next_ix, latest, needs }, Event::Uploaded) => {
                if plan.len() > 0 && next_ix < plan.len() - 1 {
                    let buildid = plan[next_ix + 1].buildid.clone();
                    let path = plan[next_ix + 1].rojig.path.clone();
                    let size = plan[next_ix + 1].rojig.size;
                    let run = Run {
                        arch,
                        history,
                        phase: Phase::Uploading { plan, next_ix: next_ix + 1, latest, needs },
                    };
                    proof {
                        assert(run@ =~~= next(m0, e0).0);
                        assert(Action::Upload { buildid, path, size }@ =~~= next(m0, e0).1->Ok_0);
                    }
                    (run, Ok(Action::Upload { buildid, path, size }))
                } else if needs {
                    let build = latest.clone();
                    let run = Run {
                        arch,
                        history,
                        phase: Phase::AwaitMarker { latest, uploaded: true },
                    };
                    proof {
                        assert(run@ =~~= next(m0, e0).0);
                    }
                    (run, Ok(Action::PutState { build }))
                } else {
                    let build = latest.clone();
                    let run = Run {
                        arch,
                        history,
                        phase: Phase::Done {
                            outcome: Outcome::AlreadySynchronized { build: latest },
                        },
                    };
                    proof {
                        assert(run@ =~~= next(m0, e0).0);
                    }
                    (run, Ok(Action::Finish { outcome: Outcome::AlreadySynchronized { build } }))
                }
            },
            (Phase::AwaitMarker { latest, uploaded }, Event::MarkerWritten) => {
                let build = latest.clone();
                let outcome = if uploaded {
                    Outcome::Synchronized { build: latest }
                } else {
                    Outcome::AlreadySynchronized { build: latest }
                };
                let reported = if uploaded {
                    Outcome::Synchronized { build }
                } else {
                    Outcome::AlreadySynchronized { build }
                };
                let run = Run { arch, history, phase: Phase::Done { outcome } };
                proof {
                    assert(run@ =~~= next(m0, e0).0);
                    assert(Action::Finish { outcome: reported }@ =~~= next(m0, e0).1->Ok_0);
                }
                (run, Ok(Action::Finish { outcome: reported }))
            },
            (phase, _) => {
                let run = Run { arch, history, phase };
                proof {
                    assert(run@ =~~= next(m0, e0).0);
                }
                (run, Err(RunError::UnexpectedEvent))
            },
        }
    }
}

} // verus!
