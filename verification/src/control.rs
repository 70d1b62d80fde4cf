//! The top-level control loop's decision core.
//!
//! All events funnel into this single serialized consumer: configuration
//! updates are merged into the store, role changes come from the election
//! coordinator, and on any observed change the loop re-renders and compares
//! content hashes, issuing a restart only when the artifact really changed.
//! A failed render keeps the previous good artifact running; an unchanged
//! revision or an identical hash issues no restart at all.

use crate::config::{store_apply, ConfigStore, EntryView};
use crate::election::{roles_equal, Role};
use crate::process::sat_add;
use crate::render::{
    all_keys_present, fnv64, render, render_content, RenderedArtifact, Template,
};
use vstd::prelude::*;

verus! {

/// What the loop asks of the process supervisor after one event.
pub enum LoopAction {
    /// Nothing to do: no observed change, a failed render, or an artifact
    /// identical to the one already running.
    Nothing,
    /// Restart the managed process onto this freshly rendered artifact.
    Restart(RenderedArtifact),
}

/// The control loop's state: the authoritative store, the template, the
/// current role, the hash of the artifact the process currently runs, the
/// store revision last rendered, and how many restarts were issued.
pub struct SupervisorLoop {
    pub store: ConfigStore,
    pub template: Template,
    pub role: Role,
    pub running_hash: Option<u64>,
    pub rendered_revision: u64,
    pub restarts: u64,
}

/// The hash a re-render would produce of the given store content.
pub open spec fn rendered_hash(t: Seq<Seq<char>>, s: Seq<EntryView>, role: Role) -> u64 {
    fnv64(render_content(t, s, role))
}

impl SupervisorLoop {
    /// The store is well formed and the revision last rendered is one the
    /// store has actually reached, so any accepted update raises the store
    /// revision above it and is re-rendered.
    pub open spec fn wf(self) -> bool {
        &&& self.store.wf()
        &&& self.rendered_revision <= self.store.revision
    }

    /// Everything except the store and the fields a re-render may move is
    /// unchanged.
    pub open spec fn frame_fixed(self, other: Self) -> bool {
        &&& self.template@ == other.template@
        &&& self.role == other.role
    }

    /// A fresh loop around an empty store.
    pub fn new(template: Template, role: Role) -> (s: Self)
        ensures
            s.wf(),
            s.template@ == template@,
            s.role == role,
            s.running_hash is None,
            s.rendered_revision == 0,
            s.restarts == 0,
            s.store@ == Seq::<EntryView>::empty(),
    {
        SupervisorLoop {
            store: ConfigStore::new(),
            template,
            role,
            running_hash: None,
            rendered_revision: 0,
            restarts: 0,
        }
    }

    /// Re-render the current store content for the current role and decide.
    ///
    /// A missing template key (failed render) changes nothing and keeps the
    /// previous good artifact. A hash equal to the running one marks the
    /// revision as rendered and issues nothing. A differing hash issues a
    /// restart carrying the artifact.
    fn rerender(&mut self) -> (action: LoopAction)
        requires
            old(self).wf(),
        ensures
            final(self).wf(),
            final(self).store == old(self).store,
            old(self).frame_fixed(*final(self)),
            !all_keys_present(old(self).template@, old(self).store@) ==> {
                &&& action is Nothing
                &&& final(self).running_hash == old(self).running_hash
                &&& final(self).rendered_revision == old(self).rendered_revision
                &&& final(self).restarts == old(self).restarts
            },
            all_keys_present(old(self).template@, old(self).store@) && old(self).running_hash
                == Option::Some(
                rendered_hash(old(self).template@, old(self).store@, old(self).role),
            ) ==> {
                &&& action is Nothing
                &&& final(self).running_hash == old(self).running_hash
                &&& final(self).rendered_revision == old(self).store.revision
                &&& final(self).restarts == old(self).restarts
            },
            all_keys_present(old(self).template@, old(self).store@) && old(self).running_hash
                != Option::Some(
                rendered_hash(old(self).template@, old(self).store@, old(self).role),
            ) ==> {
                &&& (action matches LoopAction::Restart(a) && a.content@ == render_content(
                    old(self).template@,
                    old(self).store@,
                    old(self).role,
                ) && a.hash == rendered_hash(old(self).template@, old(self).store@, old(self).role))
                &&& final(self).running_hash == Option::Some(
                    rendered_hash(old(self).template@, old(self).store@, old(self).role),
                )
                &&& final(self).rendered_revision == old(self).store.revision
                &&& final(self).restarts == sat_add(old(self).restarts, 1)
            },
    {
        let snap = self.store.current();
        match render(&self.template, &snap, self.role) {
            Err(_) => LoopAction::Nothing,
            Ok(a) => {
                self.rendered_revision = self.store.revision;
                let same = match self.running_hash {
                    Some(h) => h == a.hash,
                    None => false,
                };
                if same {
                    LoopAction::Nothing
                } else {
                    self.running_hash = Some(a.hash);
                    self.restarts = if self.restarts < u64::MAX {
                        self.restarts + 1
                    } else {
                        self.restarts
                    };
                    LoopAction::Restart(a)
                }
            },
        }
    }

    /// One configuration update arrives from a watch stream.
    ///
    /// The update is merged into the store; if the store's revision still
    /// does not exceed the revision last rendered, nothing changed since and
    /// the loop issues no restart. Otherwise it re-renders and decides by
    /// content hash as `rerender` states. Because the snapshot revision
    /// strictly increases with every accepted update, every store change is
    /// re-rendered; only a render that failed is retried on the next event.
    pub fn on_config_update(&mut self, key: String, value: String, revision: u64) -> (action:
        LoopAction)
        requires
            old(self).wf(),
        ensures
            final(self).wf(),
            old(self).frame_fixed(*final(self)),
            final(self).store@ == store_apply(
                old(self).store@,
                old(self).store.revision,
                key@,
                value@,
                revision,
            ).0,
            final(self).store.revision == store_apply(
                old(self).store@,
                old(self).store.revision,
                key@,
                value@,
                revision,
            ).1,
            revision > old(self).store.revision ==> final(self).store.revision > old(self).rendered_revision,
            final(self).store.revision <= old(self).rendered_revision ==> {
                &&& action is Nothing
                &&& final(self).running_hash == old(self).running_hash
                &&& final(self).rendered_revision == old(self).rendered_revision
                &&& final(self).restarts == old(self).restarts
            },
            final(self).store.revision > old(self).rendered_revision ==> {
                &&& !all_keys_present(old(self).template@, final(self).store@) ==> action is Nothing
                    && final(self).restarts == old(self).restarts && final(self).running_hash
                    == old(self).running_hash
                &&& all_keys_present(old(self).template@, final(self).store@) && old(self).running_hash == Option::Some(
                    rendered_hash(old(self).template@, final(self).store@, old(self).role),
                ) ==> action is Nothing && final(self).restarts == old(self).restarts
                &&& all_keys_present(old(self).template@, final(self).store@) && old(self).running_hash != Option::Some(
                    rendered_hash(old(self).template@, final(self).store@, old(self).role),
                ) ==> (action matches LoopAction::Restart(a) && a.content@ == render_content(
                    old(self).template@,
                    final(self).store@,
                    old(self).role,
                ) && a.hash == rendered_hash(
                    old(self).template@,
                    final(self).store@,
                    old(self).role,
                )) && final(self).running_hash == Option::Some(
                    rendered_hash(old(self).template@, final(self).store@, old(self).role),
                ) && final(self).restarts == sat_add(old(self).restarts, 1)
            },
    {
        self.store.apply(key, value, revision);
        if !self.store.changed_since(self.rendered_revision) {
            return LoopAction::Nothing;
        }
        self.rerender()
    }

    /// The election coordinator reports a role. A repeated report of the
    /// current role is a duplicate and changes nothing; a genuine role
    /// change re-renders for the new role and decides by content hash.
    pub fn on_role_change(&mut self, role: Role) -> (action: LoopAction)
        requires
            old(self).wf(),
        ensures
            final(self).wf(),
            final(self).store == old(self).store,
            final(self).template@ == old(self).template@,
            final(self).role == role,
            role == old(self).role ==> {
                &&& action is Nothing
                &&& final(self).running_hash == old(self).running_hash
                &&& final(self).rendered_revision == old(self).rendered_revision
                &&& final(self).restarts == old(self).restarts
            },
            role != old(self).role ==> {
                &&& !all_keys_present(old(self).template@, old(self).store@) ==> action is Nothing
                    && final(self).restarts == old(self).restarts && final(self).running_hash
                    == old(self).running_hash
                &&& all_keys_present(old(self).template@, old(self).store@) && old(self).running_hash == Option::Some(
                    rendered_hash(old(self).template@, old(self).store@, role),
                ) ==> action is Nothing && final(self).restarts == old(self).restarts
                &&& all_keys_present(old(self).template@, old(self).store@) && old(self).running_hash != Option::Some(
                    rendered_hash(old(self).template@, old(self).store@, role),
                ) ==> (action matches LoopAction::Restart(a) && a.content@ == render_content(
                    old(self).template@,
                    old(self).store@,
                    role,
                ) && a.hash == rendered_hash(old(self).template@, old(self).store@, role)) && final(self).running_hash == Option::Some(
                    rendered_hash(old(self).template@, old(self).store@, role),
                ) && final(self).restarts == sat_add(old(self).restarts, 1)
            },
    {
        if roles_equal(role, self.role) {
            return LoopAction::Nothing;
        }
        self.role = role;
        self.rerender()
    }
}

} // verus!
