//! Watching for changes: what is set up, what a change of the search
//! directories asks for, which events count, and what is torn down.
//!
//! The watchers, the channels and the background tasks live outside this
//! library. Here are the decisions: from what the caller configured to the
//! steps that set the watching up, and from each event to what follows.
use vstd::prelude::*;
use crate::config::Config;
use crate::text::{clone_strings, lemma_texts_push, texts};

verus! {

/// The time, in seconds, for which a watcher collects the raw events of a
/// burst before it reports them as one.
pub const DEBOUNCE_SECS: u64 = 1;

/// One of the two things that can be watched.
#[derive(Clone, Copy, Debug, PartialEq, Eq, Structural)]
pub enum Group {
    /// The configuration file.
    Config,
    /// The directories that are searched for applications.
    Apps,
}

/// What the caller wants to be told of. `C` is the type of a callback.
pub struct HotReloadBuilder<C> {
    /// The callback for a change of the configuration file.
    pub config: Option<C>,
    /// The search directories, and the callback for a change in them.
    pub apps: Option<(Vec<String>, C)>,
}

/// What is to be watched, with the callbacks.
pub enum HotReloadType<C> {
    /// The configuration file.
    Config(C),
    /// The search directories.
    Apps(Vec<String>, C),
    /// Both: the search directories, the callback for the configuration file,
    /// the callback for the search directories.
    Both(Vec<String>, C, C),
}

/// What is to be watched, as plain values.
pub enum HotReloadTypeView<C> {
    Config(C),
    Apps(Seq<Seq<char>>, C),
    Both(Seq<Seq<char>>, C, C),
}

impl<C> View for HotReloadType<C> {
    type V = HotReloadTypeView<C>;

    open spec fn view(&self) -> HotReloadTypeView<C> {
        match self {
            HotReloadType::Config(c) => HotReloadTypeView::Config(*c),
            HotReloadType::Apps(paths, c) => HotReloadTypeView::Apps(texts(paths@), *c),
            HotReloadType::Both(paths, c, d) => HotReloadTypeView::Both(texts(paths@), *c, *d),
        }
    }
}

/// Starts a description of what to watch, with nothing in it yet.
pub fn build<C>() -> (b: HotReloadBuilder<C>)
    ensures
        b.config is None,
        b.apps is None,
{
    HotReloadBuilder { config: None, apps: None }
}

impl<C> HotReloadBuilder<C> {
    /// Asks for `callback` to be called when the configuration file changes.
    pub fn config(&mut self, callback: C)
        ensures
            final(self).config == Some(callback),
            final(self).apps == old(self).apps,
    {
        self.config = Some(callback);
    }

    /// Asks for `callback` to be called when something changes in the search
    /// directories of `config`.
    pub fn apps(&mut self, config: &Config, callback: C)
        ensures
            final(self).config == old(self).config,
            final(self).apps matches Some(pair) && pair.0@ == config.app_paths@ && pair.1
                == callback,
    {
        self.apps = Some((clone_strings(&config.app_paths), callback));
    }

    /// Whether something was asked for: a builder with neither callback
    /// describes nothing that could be run.
    pub open spec fn is_set(&self) -> bool {
        self.config is Some || self.apps is Some
    }

    /// What is to be watched, by what was asked for. At least one of the
    /// two callbacks must have been given.
    pub fn start(self) -> (opt: HotReloadType<C>)
        requires
            self.is_set(),
        ensures
            opt@ == wanted(self.config, self.apps),
    {
        match self.config {
            Some(config_cb) => match self.apps {
                Some((paths, apps_cb)) => HotReloadType::Both(paths, config_cb, apps_cb),
                None => HotReloadType::Config(config_cb),
            },
            None => {
                let (paths, apps_cb) = self.apps.unwrap();
                HotReloadType::Apps(paths, apps_cb)
            },
        }
    }

    /// Tells whether something was asked for.
    pub fn has_callback(&self) -> (r: bool)
        ensures
            r == self.is_set(),
    {
        self.config.is_some() || self.apps.is_some()
    }
}

/// What is to be watched where the callbacks are these: both groups where
/// both are given, else the group whose callback is given. With neither
/// there is nothing that this could be.
pub open spec fn wanted<C>(config: Option<C>, apps: Option<(Vec<String>, C)>) -> HotReloadTypeView<
    C,
> {
    match config {
        Some(c) => match apps {
            Some(pair) => HotReloadTypeView::Both(texts(pair.0@), c, pair.1),
            None => HotReloadTypeView::Config(c),
        },
        None => match apps {
            Some(pair) => HotReloadTypeView::Apps(texts(pair.0@), pair.1),
            None => arbitrary(),
        },
    }
}

/// A step of setting the watching up.
pub enum SetupStep<C> {
    /// Make the watcher of a group, with the task that relays its events.
    NewWatcher(Group),
    /// Watch the configuration file, and nothing below it.
    WatchConfig,
    /// Watch a search directory and all that is below it. A failure is
    /// noted and the setting up goes on.
    WatchDir(String),
    /// Start the task that waits for a change in any of the groups and calls
    /// the callback of the group that changed.
    Dispatch(Vec<(Group, C)>),
}

/// A step of setting up, as plain values.
pub enum SetupStepView<C> {
    NewWatcher(Group),
    WatchConfig,
    WatchDir(Seq<char>),
    Dispatch(Seq<(Group, C)>),
}

impl<C> View for SetupStep<C> {
    type V = SetupStepView<C>;

    open spec fn view(&self) -> SetupStepView<C> {
        match self {
            SetupStep::NewWatcher(g) => SetupStepView::NewWatcher(*g),
            SetupStep::WatchConfig => SetupStepView::WatchConfig,
            SetupStep::WatchDir(path) => SetupStepView::WatchDir(path@),
            SetupStep::Dispatch(list) => SetupStepView::Dispatch(list@),
        }
    }
}

/// The views of a list of steps, in order.
pub open spec fn step_views<C>(steps: Seq<SetupStep<C>>) -> Seq<SetupStepView<C>> {
    Seq::new(steps.len(), |i: int| steps[i]@)
}

/// Those of the first `n` paths that are present: `present` says of each
/// path, by its place, whether it is there; a path that it does not reach is
/// taken as missing.
pub open spec fn present_among(paths: Seq<Seq<char>>, present: Seq<bool>, n: int) -> Seq<
    Seq<char>,
>
    decreases n,
{
    if n <= 0 || n > paths.len() {
        Seq::empty()
    } else {
        let before = present_among(paths, present, n - 1);
        if n - 1 < present.len() && present[n - 1] {
            before.push(paths[n - 1])
        } else {
            before
        }
    }
}

/// The paths that are present, in order.
pub open spec fn present_paths(paths: Seq<Seq<char>>, present: Seq<bool>) -> Seq<Seq<char>> {
    present_among(paths, present, paths.len() as int)
}

/// A step for each directory that is to be watched.
pub open spec fn watch_dirs<C>(paths: Seq<Seq<char>>) -> Seq<SetupStepView<C>> {
    Seq::new(paths.len(), |i: int| SetupStepView::WatchDir(paths[i]))
}

/// The steps that set up the watching of `opt`.
///
/// Each group gets a watcher of its own: the one of the configuration file
/// first. Of the search directories those are watched that are present. One
/// task serves the callbacks of all groups.
pub open spec fn setup_plan<C>(opt: HotReloadTypeView<C>, present: Seq<bool>) -> Seq<
    SetupStepView<C>,
> {
    match opt {
        HotReloadTypeView::Config(c) => seq![
            SetupStepView::NewWatcher(Group::Config),
            SetupStepView::WatchConfig,
            SetupStepView::Dispatch(seq![(Group::Config, c)]),
        ],
        HotReloadTypeView::Apps(paths, c) => seq![SetupStepView::NewWatcher(Group::Apps)]
            + watch_dirs(present_paths(paths, present)) + seq![
            SetupStepView::Dispatch(seq![(Group::Apps, c)]),
        ],
        HotReloadTypeView::Both(paths, c, d) => seq![
            SetupStepView::NewWatcher(Group::Config),
            SetupStepView::WatchConfig,
            SetupStepView::NewWatcher(Group::Apps),
        ] + watch_dirs(present_paths(paths, present)) + seq![
            SetupStepView::Dispatch(seq![(Group::Config, c), (Group::Apps, d)]),
        ],
    }
}

/// What is being watched, and by how many background tasks.
#[derive(Debug)]
pub struct HotReloadHandle {
    /// Whether the configuration file has a watcher.
    pub config_watcher: bool,
    /// Whether the search directories have a watcher.
    pub apps_watcher: bool,
    /// The number of background tasks: one for each watcher, and the one
    /// that serves the callbacks.
    pub join_handles: usize,
    /// The search directories that are being watched.
    pub current_app_paths: Vec<String>,
}

/// Picks the paths that are present.
pub fn select_present(paths: &Vec<String>, present: &Vec<bool>) -> (out: Vec<String>)
    ensures
        texts(out@) == present_paths(texts(paths@), present@),
{
    let mut out: Vec<String> = Vec::new();
    let mut i: usize = 0;
    proof {
        assert(texts(out@) =~= Seq::<Seq<char>>::empty());
    }
    while i < paths.len()
        invariant
            i <= paths.len(),
            texts(out@) == present_among(texts(paths@), present@, i as int),
        decreases paths.len() - i,
    {
        if i < present.len() && present[i] {
            let path = paths[i].clone();
            proof {
                lemma_texts_push(out@, path);
            }
            out.push(path);
        }
        i += 1;
    }
    out
}

/// Adds a step for each directory that is to be watched.
fn push_watch_dirs<C>(steps: &mut Vec<SetupStep<C>>, dirs: &Vec<String>)
    ensures
        step_views(final(steps)@) == step_views(old(steps)@) + watch_dirs::<C>(texts(dirs@)),
{
    let ghost start = step_views(steps@);
    let mut i: usize = 0;
    proof {
        assert(step_views(steps@) =~= start + watch_dirs::<C>(texts(dirs@)).take(0));
    }
    while i < dirs.len()
        invariant
            i <= dirs.len(),
            step_views(steps@) == start + watch_dirs::<C>(texts(dirs@)).take(i as int),
        decreases dirs.len() - i,
    {
        let step = SetupStep::WatchDir(dirs[i].clone());
        proof {
            assert(step_views(steps@.push(step)) =~= step_views(steps@).push(step@));
            assert(step_views(steps@).push(step@) =~= start + watch_dirs::<C>(texts(dirs@)).take(
                i + 1,
            ));
        }
        steps.push(step);
        i += 1;
    }
    proof {
        assert(watch_dirs::<C>(texts(dirs@)).take(dirs@.len() as int) =~= watch_dirs::<C>(
            texts(dirs@),
        ));
    }
}

/// Plans the watching of `opt`: the steps that set it up, in order, and what
/// is being watched once they are done.
///
/// `present` says of each search directory, by its place, whether it is
/// there now. A directory that is missing is not watched.
pub fn hot_reload<C>(opt: HotReloadType<C>, present: &Vec<bool>) -> (r: (
    HotReloadHandle,
    Vec<SetupStep<C>>,
))
    ensures
        step_views(r.1@) == setup_plan(opt@, present@),
        r.0.config_watcher == (opt is Config || opt is Both),
        r.0.apps_watcher == (opt is Apps || opt is Both),
        r.0.join_handles == if opt is Both {
            3usize
        } else {
            2usize
        },
        texts(r.0.current_app_paths@) == match opt@ {
            HotReloadTypeView::Apps(paths, _) => present_paths(paths, present@),
            HotReloadTypeView::Both(paths, _, _) => present_paths(paths, present@),
            _ => Seq::empty(),
        },
{
    let mut steps: Vec<SetupStep<C>> = Vec::new();
    match opt {
        HotReloadType::Config(callback) => {
            steps.push(SetupStep::NewWatcher(Group::Config));
            steps.push(SetupStep::WatchConfig);
            let mut served: Vec<(Group, C)> = Vec::new();
            served.push((Group::Config, callback));
            proof {
                assert(served@ =~= seq![(Group::Config, callback)]);
            }
            steps.push(SetupStep::Dispatch(served));
            let current: Vec<String> = Vec::new();
            proof {
                assert(step_views(steps@) =~= setup_plan(opt@, present@));
                assert(texts(current@) =~= Seq::<Seq<char>>::empty());
            }
            (
                HotReloadHandle {
                    config_watcher: true,
                    apps_watcher: false,
                    join_handles: 2,
                    current_app_paths: current,
                },
                steps,
            )
        },
        HotReloadType::Apps(paths, callback) => {
            let watched = select_present(&paths, present);
            steps.push(SetupStep::NewWatcher(Group::Apps));
            let ghost first = step_views(steps@);
            push_watch_dirs(&mut steps, &watched);
            let ghost second = step_views(steps@);
            let mut served: Vec<(Group, C)> = Vec::new();
            served.push((Group::Apps, callback));
            proof {
                assert(served@ =~= seq![(Group::Apps, callback)]);
            }
            let last = SetupStep::Dispatch(served);
            proof {
                assert(first =~= seq![SetupStepView::<C>::NewWatcher(Group::Apps)]);
                assert(step_views(steps@.push(last)) =~= second + seq![last@]);
            }
            steps.push(last);
            proof {
                assert(step_views(steps@) =~= setup_plan(opt@, present@));
            }
            (
                HotReloadHandle {
                    config_watcher: false,
                    apps_watcher: true,
                    join_handles: 2,
                    current_app_paths: watched,
                },
                steps,
            )
        },
        HotReloadType::Both(paths, config_cb, apps_cb) => {
            let watched = select_present(&paths, present);
            steps.push(SetupStep::NewWatcher(Group::Config));
            steps.push(SetupStep::WatchConfig);
            steps.push(SetupStep::NewWatcher(Group::Apps));
            let ghost first = step_views(steps@);
            push_watch_dirs(&mut steps, &watched);
            let ghost second = step_views(steps@);
            let mut served: Vec<(Group, C)> = Vec::new();
            served.push((Group::Config, config_cb));
            served.push((Group::Apps, apps_cb));
            proof {
                assert(served@ =~= seq![(Group::Config, config_cb), (Group::Apps, apps_cb)]);
            }
            let last = SetupStep::Dispatch(served);
            proof {
                assert(first =~= seq![
                    SetupStepView::<C>::NewWatcher(Group::Config),
                    SetupStepView::WatchConfig,
                    SetupStepView::NewWatcher(Group::Apps),
                ]);
                assert(step_views(steps@.push(last)) =~= second + seq![last@]);
            }
            steps.push(last);
            proof {
                assert(step_views(steps@) =~= setup_plan(opt@, present@));
            }
            (
                HotReloadHandle {
                    config_watcher: true,
                    apps_watcher: true,
                    join_handles: 3,
                    current_app_paths: watched,
                },
                steps,
            )
        },
    }
}

/// A change of what the watcher of the search directories watches.
#[derive(Debug)]
pub enum WatchChange {
    /// Stop watching the directory.
    Unwatch(String),
    /// Watch the directory and all that is below it. A failure is noted and
    /// the other changes are still made.
    Watch(String),
}

/// A change of what is watched, as plain values.
pub enum WatchChangeView {
    Unwatch(Seq<char>),
    Watch(Seq<char>),
}

impl View for WatchChange {
    type V = WatchChangeView;

    open spec fn view(&self) -> WatchChangeView {
        match self {
            WatchChange::Unwatch(path) => WatchChangeView::Unwatch(path@),
            WatchChange::Watch(path) => WatchChangeView::Watch(path@),
        }
    }
}

/// The views of a list of changes, in order.
pub open spec fn change_views(changes: Seq<WatchChange>) -> Seq<WatchChangeView> {
    Seq::new(changes.len(), |i: int| changes[i]@)
}

/// The changes that take the watcher from the directories `old_paths` to the
/// directories `new_paths`: every old one is left, then every new one is
/// watched.
pub open spec fn resubscription(old_paths: Seq<Seq<char>>, new_paths: Seq<Seq<char>>) -> Seq<
    WatchChangeView,
> {
    Seq::new(old_paths.len(), |i: int| WatchChangeView::Unwatch(old_paths[i])) + Seq::new(
        new_paths.len(),
        |i: int| WatchChangeView::Watch(new_paths[i]),
    )
}

/// What a path is kept by when a directory has dropped out.
pub open spec fn other_than(path: Seq<char>) -> spec_fn(Seq<char>) -> bool {
    |p: Seq<char>| p != path
}

/// A step of tearing the watching down.
#[derive(Clone, Copy, Debug, PartialEq, Eq, Structural)]
pub enum ShutdownStep {
    /// Stop the watcher of a group.
    StopWatcher(Group),
    /// Wait for a background task to end.
    JoinTask,
}

/// The steps that tear the watching down: the watchers are stopped first,
/// then every background task is waited for.
pub open spec fn shutdown_plan(config_watcher: bool, apps_watcher: bool, tasks: nat) -> Seq<
    ShutdownStep,
> {
    (if config_watcher {
        seq![ShutdownStep::StopWatcher(Group::Config)]
    } else {
        Seq::empty()
    }) + (if apps_watcher {
        seq![ShutdownStep::StopWatcher(Group::Apps)]
    } else {
        Seq::empty()
    }) + Seq::new(tasks, |i: int| ShutdownStep::JoinTask)
}

impl HotReloadHandle {
    /// Plans the change to the search directories of `config`, after the
    /// configuration was read anew.
    ///
    /// `present` says of each search directory of `config`, by its place,
    /// whether it is there now; one that is missing is not watched. Without
    /// a watcher of the search directories there is nothing to change.
    pub fn config_changes(&mut self, config: &Config, present: &Vec<bool>) -> (changes: Vec<
        WatchChange,
    >)
        ensures
            final(self).config_watcher == old(self).config_watcher,
            final(self).apps_watcher == old(self).apps_watcher,
            final(self).join_handles == old(self).join_handles,
            old(self).apps_watcher ==> change_views(changes@) == resubscription(
                texts(old(self).current_app_paths@),
                present_paths(texts(config.app_paths@), present@),
            ) && texts(final(self).current_app_paths@) == present_paths(
                texts(config.app_paths@),
                present@,
            ),
            !old(self).apps_watcher ==> changes@.len() == 0 && final(self).current_app_paths
                == old(self).current_app_paths,
    {
        let mut changes: Vec<WatchChange> = Vec::new();
        if !self.apps_watcher {
            return changes;
        }
        let ghost old_paths = texts(self.current_app_paths@);
        let watched = select_present(&config.app_paths, present);
        let ghost new_paths = texts(watched@);
        let mut i: usize = 0;
        while i < self.current_app_paths.len()
            invariant
                i <= self.current_app_paths.len(),
                old_paths == texts(self.current_app_paths@),
                change_views(changes@) == resubscription(old_paths, new_paths).take(i as int),
            decreases self.current_app_paths.len() - i,
        {
            let change = WatchChange::Unwatch(self.current_app_paths[i].clone());
            proof {
                let all = resubscription(old_paths, new_paths);
                assert(change@ == WatchChangeView::Unwatch(old_paths[i as int]));
                assert(all[i as int] == change@);
                assert(change_views(changes@.push(change)) =~= change_views(changes@).push(
                    change@,
                ));
                assert(all.take(i as int).push(change@) =~= all.take(i + 1));
            }
            changes.push(change);
            i += 1;
        }
        let mut j: usize = 0;
        while j < watched.len()
            invariant
                j <= watched.len(),
                new_paths == texts(watched@),
                old_paths.len() + watched.len() == resubscription(old_paths, new_paths).len(),
                change_views(changes@) == resubscription(old_paths, new_paths).take(
                    old_paths.len() + j,
                ),
            decreases watched.len() - j,
        {
            let change = WatchChange::Watch(watched[j].clone());
            proof {
                let all = resubscription(old_paths, new_paths);
                assert(change@ == WatchChangeView::Watch(new_paths[j as int]));
                assert(all[old_paths.len() + j] == change@);
                assert(change_views(changes@.push(change)) =~= change_views(changes@).push(
                    change@,
                ));
                assert(all.take(old_paths.len() + j).push(change@) =~= all.take(
                    old_paths.len() + j + 1,
                ));
            }
            changes.push(change);
            j += 1;
        }
        proof {
            let all = resubscription(old_paths, new_paths);
            assert(all.take(all.len() as int) =~= all);
        }
        self.current_app_paths = watched;
        changes
    }

    /// Notes that a directory could not be watched: it is no longer counted
    /// among the directories that are watched.
    pub fn watch_failed(&mut self, path: &str)
        ensures
            final(self).config_watcher == old(self).config_watcher,
            final(self).apps_watcher == old(self).apps_watcher,
            final(self).join_handles == old(self).join_handles,
            texts(final(self).current_app_paths@) == texts(old(self).current_app_paths@).filter(
                other_than(path@),
            ),
    {
        let failed = path.to_owned();
        let mut kept: Vec<String> = Vec::new();
        let ghost before = texts(self.current_app_paths@);
        let mut i: usize = 0;
        proof {
            reveal(Seq::filter);
            assert(before.take(0) =~= Seq::<Seq<char>>::empty());
            assert(texts(kept@) =~= Seq::<Seq<char>>::empty());
        }
        while i < self.current_app_paths.len()
            invariant
                i <= self.current_app_paths.len(),
                failed@ == path@,
                before == texts(self.current_app_paths@),
                texts(kept@) == before.take(i as int).filter(other_than(path@)),
            decreases self.current_app_paths.len() - i,
        {
            proof {
                assert(before.take(i + 1) =~= before.take(i as int).push(before[i as int]));
                before.take(i as int).lemma_filter_push(before[i as int], other_than(path@));
            }
            if self.current_app_paths[i] != failed {
                let path_kept = self.current_app_paths[i].clone();
                proof {
                    lemma_texts_push(kept@, path_kept);
                }
                kept.push(path_kept);
            }
            i += 1;
        }
        proof {
            assert(before.take(before.len() as int) =~= before);
        }
        self.current_app_paths = kept;
    }

    /// Plans the tearing down: the watchers are stopped, then every
    /// background task is waited for, so that none outlives the handle.
    pub fn shutdown(self) -> (steps: Vec<ShutdownStep>)
        ensures
            steps@ == shutdown_plan(
                self.config_watcher,
                self.apps_watcher,
                self.join_handles as nat,
            ),
    {
        let mut steps: Vec<ShutdownStep> = Vec::new();
        if self.config_watcher {
            steps.push(ShutdownStep::StopWatcher(Group::Config));
        }
        if self.apps_watcher {
            steps.push(ShutdownStep::StopWatcher(Group::Apps));
        }
        let ghost stops = steps@;
        let ghost plan = shutdown_plan(
            self.config_watcher,
            self.apps_watcher,
            self.join_handles as nat,
        );
        let mut i: usize = 0;
        proof {
            assert(steps@ =~= plan.take(stops.len() as int));
        }
        while i < self.join_handles
            invariant
                i <= self.join_handles,
                plan == shutdown_plan(
                    self.config_watcher,
                    self.apps_watcher,
                    self.join_handles as nat,
                ),
                plan.len() == stops.len() + self.join_handles,
                steps@ == plan.take(stops.len() + i),
            decreases self.join_handles - i,
        {
            proof {
                assert(steps@.push(ShutdownStep::JoinTask) =~= plan.take(stops.len() + i + 1));
            }
            steps.push(ShutdownStep::JoinTask);
            i += 1;
        }
        proof {
            assert(plan.take(plan.len() as int) =~= plan);
        }
        steps
    }
}

/// What a watcher reports of a path, once a burst of raw events has settled.
#[derive(Clone, Copy, Debug, PartialEq, Eq, Structural)]
pub enum FsEvent {
    /// A write was noticed and has not settled yet.
    NoticeWrite,
    /// A removal was noticed and has not settled yet.
    NoticeRemove,
    /// Something was created.
    Create,
    /// Something was written to.
    Write,
    /// The access rights of something changed.
    Chmod,
    /// Something was removed.
    Remove,
    /// Something was renamed.
    Rename,
    /// The watched directories have to be walked again.
    Rescan,
    /// The watcher met an error.
    Error,
}

/// Whether an event tells of a change that the callback is to hear of: a
/// write, a removal, a renaming or a creation.
pub open spec fn is_change(event: FsEvent) -> bool {
    event == FsEvent::Write || event == FsEvent::Remove || event == FsEvent::Rename || event
        == FsEvent::Create
}

/// Whether the relay task sends a pulse for the event.
pub fn relays(event: FsEvent) -> (r: bool)
    ensures
        r == is_change(event),
{
    match event {
        FsEvent::Write | FsEvent::Remove | FsEvent::Rename | FsEvent::Create => true,
        _ => false,
    }
}

/// What the task that serves the callbacks does next.
#[derive(Clone, Copy, Debug, PartialEq, Eq, Structural)]
pub enum DispatchStep {
    /// Call the callback at this place in the list that the task was started
    /// with, then wait again.
    Call(usize),
    /// End the task.
    Stop,
}

/// Decides what follows when the channel at the place `ready` is ready:
/// `pulse` says whether a pulse was received from it. A channel that is ready
/// without a pulse was closed, and that ends the task for all groups.
pub fn dispatch(ready: usize, pulse: bool) -> (step: DispatchStep)
    ensures
        step == if pulse {
            DispatchStep::Call(ready)
        } else {
            DispatchStep::Stop
        },
{
    if pulse {
        DispatchStep::Call(ready)
    } else {
        DispatchStep::Stop
    }
}

} // verus!
