use vstd::prelude::*;
use crate::config::{env_prefix_of, parent_of, version_name_of, Config};
use crate::detect::{detect, detect_spec};
use crate::errors::ErrorKind;
use crate::fields::FieldMap;
use crate::listing::{listed_name, listed_short_name};

verus! {

/// The label that marks a cluster secret as created by this tool, and its value.
pub const MANAGED_BY_LABEL: &'static str = "app.kubernetes.io/managed-by";
pub const MANAGED_BY_VALUE: &'static str = "ksecret";

/// Where a synchronization run stands.
#[derive(Clone, Copy, Debug, PartialEq, Eq, Structural)]
pub enum SyncPhase {
    /// Waiting to learn whether the target namespace exists.
    CheckingNamespace,
    /// Waiting for a page of the remote listing.
    Listing,
    /// Waiting for the value of the current secret.
    Fetching,
    /// Waiting for the current secret to be applied to the cluster.
    Applying,
    /// Finished or aborted; nothing more is asked.
    Done,
}

/// What the caller is to do next for a run.
pub enum SyncAction {
    /// Check that the namespace exists and report it with `on_namespace`.
    CheckNamespace { namespace: String },
    /// List one page of remote secrets under `parent` and report it with `on_page`.
    ListPage { parent: String, page_token: Option<String> },
    /// Read the version `version` of secret `name` and report it with `on_value`.
    FetchValue { name: String, version: String },
    /// Delete secret `name` in `namespace` (absent is fine), create it afresh with the
    /// label `MANAGED_BY_LABEL=MANAGED_BY_VALUE` and `fields`, and report it with
    /// `on_applied`.
    Apply { namespace: String, name: String, fields: FieldMap },
    /// The environment has no secret to sync.
    NothingToSync,
    /// The run is over: `applied` secrets were applied, `skipped` were left alone in a
    /// dry run.
    Finished { applied: usize, skipped: Vec<String> },
    /// The run stopped on an error; `item` is the secret being processed, if any.
    Aborted { kind: ErrorKind, item: Option<String> },
}

pub open spec fn names_view(v: Seq<String>) -> Seq<Seq<char>> {
    v.map_values(|s: String| s@)
}

/// The short names of the listed resource names that belong to the environment of
/// `env_prefix`, in order.
pub open spec fn listed_names(env_prefix: Seq<char>, page: Seq<Seq<char>>) -> Seq<Seq<char>>
    decreases page.len(),
{
    if page.len() == 0 {
        Seq::empty()
    } else {
        let prev = listed_names(env_prefix, page.drop_last());
        match listed_name(env_prefix, page.last()) {
            Some(n) => prev.push(n),
            None => prev,
        }
    }
}

/// The version of a secret that a run reads.
pub open spec fn latest() -> Seq<char> {
    seq!['l', 'a', 't', 'e', 's', 't']
}

/// One synchronization of an environment into a cluster namespace: the decisions of the
/// run, fed with what the secret store and the cluster answered.
pub struct SyncRun {
    config: Config,
    environment: String,
    env_prefix: String,
    namespace: String,
    dry_run: bool,
    phase: SyncPhase,
    names: Vec<String>,
    next: usize,
}

impl SyncRun {
    pub closed spec fn phase_view(&self) -> SyncPhase {
        self.phase
    }

    pub closed spec fn is_dry_run(&self) -> bool {
        self.dry_run
    }

    pub closed spec fn namespace_view(&self) -> Seq<char> {
        self.namespace@
    }

    pub closed spec fn environment_view(&self) -> Seq<char> {
        self.environment@
    }

    pub closed spec fn config_view(&self) -> (Seq<char>, Seq<char>) {
        (self.config.gcp_project_id@, self.config.secret_prefix@)
    }

    /// The short names of the secrets matched so far, in listing order.
    pub closed spec fn names(&self) -> Seq<Seq<char>> {
        names_view(self.names@)
    }

    /// How many matched secrets were applied; the next one to process.
    pub closed spec fn position(&self) -> int {
        self.next as int
    }

    pub closed spec fn wf(&self) -> bool {
        &&& self.env_prefix@ == env_prefix_of(self.config.secret_prefix@, self.environment@)
        &&& self.next <= self.names@.len()
        &&& (self.phase is Fetching || self.phase is Applying) ==> !self.dry_run && self.next < self.names@.len()
        &&& (self.phase is CheckingNamespace || self.phase is Listing) ==> self.next == 0
    }

    /// Starts a run of `environment` into `namespace`, or into the namespace named like the
    /// environment when none is given; the first step checks that the namespace exists.
    pub fn start(config: &Config, environment: &str, namespace: Option<String>, dry_run: bool) -> (r: (SyncRun, SyncAction))
        ensures
            r.0.wf(),
            r.0.phase_view() == SyncPhase::CheckingNamespace,
            r.0.is_dry_run() == dry_run,
            r.0.environment_view() == environment@,
            r.0.config_view() == (config.gcp_project_id@, config.secret_prefix@),
            r.0.names().len() == 0,
            r.0.namespace_view() == match namespace {
                Some(n) => n@,
                None => environment@,
            },
            match r.1 {
                SyncAction::CheckNamespace { namespace: ns } => ns@ == r.0.namespace_view(),
                _ => false,
            },
    {
        let ns = match namespace {
            Some(n) => n,
            None => environment.to_owned(),
        };
        let cfg = Config { gcp_project_id: config.gcp_project_id.clone(), secret_prefix: config.secret_prefix.clone() };
        let run = SyncRun {
            env_prefix: cfg.build_env_prefix(environment),
            config: cfg,
            environment: environment.to_owned(),
            namespace: ns.clone(),
            dry_run,
            phase: SyncPhase::CheckingNamespace,
            names: Vec::new(),
            next: 0,
        };
        proof {
            assert(names_view(run.names@) =~= Seq::<Seq<char>>::empty());
        }
        (run, SyncAction::CheckNamespace { namespace: ns })
    }

    /// The phase the run is in.
    pub fn phase(&self) -> (r: SyncPhase)
        ensures
            r == self.phase_view(),
    {
        self.phase
    }

    fn fetch_current(&self) -> (r: SyncAction)
        requires
            self.next < self.names@.len(),
        ensures
            match r {
                SyncAction::FetchValue { name, version } => name@ == self.names()[self.position()]
                    && version@ == version_name_of(
                        self.config_view().0,
                        self.config_view().1,
                        self.environment_view(),
                        self.names()[self.position()],
                        latest(),
                    ),
                _ => false,
            },
    {
        proof {
            reveal_strlit("latest");
            assert("latest"@ =~= latest());
        }
        let name = self.names[self.next].clone();
        let version = self.config.build_version_name(self.environment.as_str(), name.as_str(), "latest");
        SyncAction::FetchValue { name, version }
    }

    /// Takes the answer to `CheckNamespace`: a missing namespace ends the run before
    /// anything is listed.
    pub fn on_namespace(&mut self, exists: bool) -> (r: SyncAction)
        requires
            old(self).wf(),
            old(self).phase_view() == SyncPhase::CheckingNamespace,
        ensures
            final(self).wf(),
            final(self).is_dry_run() == old(self).is_dry_run(),
            final(self).names() == old(self).names(),
            final(self).namespace_view() == old(self).namespace_view(),
            final(self).environment_view() == old(self).environment_view(),
            final(self).config_view() == old(self).config_view(),
            exists ==> final(self).phase_view() == SyncPhase::Listing && match r {
                SyncAction::ListPage { parent, page_token } => parent@ == parent_of(old(self).config_view().0)
                    && page_token is None,
                _ => false,
            },
            !exists ==> final(self).phase_view() == SyncPhase::Done && match r {
                SyncAction::Aborted { kind, item } => kind == ErrorKind::NamespaceNotFound && item is None,
                _ => false,
            },
    {
        if exists {
            self.phase = SyncPhase::Listing;
            SyncAction::ListPage { parent: self.config.build_parent(), page_token: None }
        } else {
            self.phase = SyncPhase::Done;
            SyncAction::Aborted { kind: ErrorKind::NamespaceNotFound, item: None }
        }
    }

    /// Takes one page of the remote listing (full resource names) and the token of the
    /// next page, empty on the last one.
    pub fn on_page(&mut self, page: &Vec<String>, next_page_token: String) -> (r: SyncAction)
        requires
            old(self).wf(),
            old(self).phase_view() == SyncPhase::Listing,
        ensures
            final(self).wf(),
            final(self).is_dry_run() == old(self).is_dry_run(),
            final(self).namespace_view() == old(self).namespace_view(),
            final(self).environment_view() == old(self).environment_view(),
            final(self).config_view() == old(self).config_view(),
            final(self).position() == 0,
            final(self).names() == old(self).names() + listed_names(
                env_prefix_of(old(self).config_view().1, old(self).environment_view()),
                names_view(page@),
            ),
            next_page_token@.len() > 0 ==> final(self).phase_view() == SyncPhase::Listing && match r {
                SyncAction::ListPage { parent, page_token } => parent@ == parent_of(old(self).config_view().0)
                    && page_token == Some(next_page_token),
                _ => false,
            },
            next_page_token@.len() == 0 && final(self).names().len() == 0 ==> final(self).phase_view()
                == SyncPhase::Done && r is NothingToSync,
            next_page_token@.len() == 0 && final(self).names().len() > 0 && final(self).is_dry_run()
                ==> final(self).phase_view() == SyncPhase::Done && match r {
                SyncAction::Finished { applied, skipped } => applied == 0 && names_view(skipped@) == final(self).names(),
                _ => false,
            },
            next_page_token@.len() == 0 && final(self).names().len() > 0 && !final(self).is_dry_run()
                ==> final(self).phase_view() == SyncPhase::Fetching && match r {
                SyncAction::FetchValue { name, version } => name@ == final(self).names()[0]
                    && version@ == version_name_of(
                        old(self).config_view().0,
                        old(self).config_view().1,
                        old(self).environment_view(),
                        final(self).names()[0],
                        latest(),
                    ),
                _ => false,
            },
            // a dry run never asks for a value or an apply
            old(self).is_dry_run() ==> !(r is FetchValue || r is Apply),
    {
        let ghost start = self.names();
        let ghost pv = names_view(page@);
        let mut i: usize = 0;
        while i < page.len()
            invariant
                i <= page@.len(),
                pv == names_view(page@),
                self.wf(),
                self.phase == SyncPhase::Listing,
                self.dry_run == old(self).dry_run,
                self.namespace == old(self).namespace,
                self.environment == old(self).environment,
                self.config == old(self).config,
                self.env_prefix == old(self).env_prefix,
                start == old(self).names(),
                self.names() == start + listed_names(self.env_prefix@, pv.take(i as int)),
            decreases page@.len() - i,
        {
            let ghost before = self.names@;
            proof {
                assert(pv.take(i + 1).drop_last() =~= pv.take(i as int));
                assert(pv[i as int] == page@[i as int]@);
            }
            match listed_short_name(self.env_prefix.as_str(), page[i].as_str()) {
                Some(n) => {
                    self.names.push(n);
                    proof {
                        assert(names_view(self.names@) =~= names_view(before).push(self.names@.last()@));
                    }
                },
                None => {},
            }
            i = i + 1;
        }
        proof {
            assert(pv.take(i as int) =~= pv);
        }
        if next_page_token.unicode_len() > 0 {
            return SyncAction::ListPage { parent: self.config.build_parent(), page_token: Some(next_page_token) };
        }
        if self.names.len() == 0 {
            self.phase = SyncPhase::Done;
            return SyncAction::NothingToSync;
        }
        if self.dry_run {
            self.phase = SyncPhase::Done;
            let mut skipped: Vec<String> = Vec::new();
            let mut j: usize = 0;
            while j < self.names.len()
                invariant
                    j <= self.names@.len(),
                    names_view(skipped@) == names_view(self.names@).take(j as int),
                decreases self.names@.len() - j,
            {
                let ghost before = skipped@;
                skipped.push(self.names[j].clone());
                proof {
                    assert(names_view(skipped@) =~= names_view(before).push(self.names@[j as int]@));
                    assert(names_view(self.names@).take(j + 1) =~= names_view(self.names@).take(j as int).push(self.names@[j as int]@));
                }
                j = j + 1;
            }
            proof {
                assert(names_view(self.names@).take(j as int) =~= names_view(self.names@));
            }
            return SyncAction::Finished { applied: 0, skipped };
        }
        self.phase = SyncPhase::Fetching;
        self.fetch_current()
    }

    /// Takes the value of the current secret and asks for it to be applied as the field
    /// set the detector reads from it.
    pub fn on_value(&mut self, value: &str) -> (r: SyncAction)
        requires
            old(self).wf(),
            old(self).phase_view() == SyncPhase::Fetching,
        ensures
            final(self).wf(),
            final(self).phase_view() == SyncPhase::Applying,
            final(self).is_dry_run() == old(self).is_dry_run(),
            final(self).names() == old(self).names(),
            final(self).position() == old(self).position(),
            final(self).namespace_view() == old(self).namespace_view(),
            final(self).environment_view() == old(self).environment_view(),
            final(self).config_view() == old(self).config_view(),
            match r {
                SyncAction::Apply { namespace, name, fields } => namespace@ == old(self).namespace_view()
                    && name@ == old(self).names()[old(self).position()]
                    && fields@ == detect_spec(value@),
                _ => false,
            },
    {
        let fields = detect(value);
        self.phase = SyncPhase::Applying;
        SyncAction::Apply { namespace: self.namespace.clone(), name: self.names[self.next].clone(), fields }
    }

    /// Takes the news that the current secret was applied; moves on to the next one, or
    /// finishes after the last.
    pub fn on_applied(&mut self) -> (r: SyncAction)
        requires
            old(self).wf(),
            old(self).phase_view() == SyncPhase::Applying,
        ensures
            final(self).wf(),
            final(self).is_dry_run() == old(self).is_dry_run(),
            final(self).names() == old(self).names(),
            final(self).position() == old(self).position() + 1,
            final(self).namespace_view() == old(self).namespace_view(),
            final(self).environment_view() == old(self).environment_view(),
            final(self).config_view() == old(self).config_view(),
            final(self).position() < final(self).names().len() ==> final(self).phase_view()
                == SyncPhase::Fetching && match r {
                SyncAction::FetchValue { name, version } => name@ == final(self).names()[final(self).position()]
                    && version@ == version_name_of(
                        old(self).config_view().0,
                        old(self).config_view().1,
                        old(self).environment_view(),
                        final(self).names()[final(self).position()],
                        latest(),
                    ),
                _ => false,
            },
            final(self).position() == final(self).names().len() ==> final(self).phase_view()
                == SyncPhase::Done && match r {
                SyncAction::Finished { applied, skipped } => applied == final(self).names().len() && skipped@.len() == 0,
                _ => false,
            },
    {
        let n = self.names.len();
        self.next = self.next + 1;
        if self.next < n {
            self.phase = SyncPhase::Fetching;
            self.fetch_current()
        } else {
            self.phase = SyncPhase::Done;
            SyncAction::Finished { applied: self.next, skipped: Vec::new() }
        }
    }

    /// Takes a failure of the step asked for: the run stops at once, and what was
    /// applied before stays applied.
    pub fn on_failure(&mut self, kind: ErrorKind) -> (r: SyncAction)
        requires
            old(self).wf(),
            old(self).phase_view() != SyncPhase::Done,
        ensures
            final(self).wf(),
            final(self).phase_view() == SyncPhase::Done,
            final(self).names() == old(self).names(),
            final(self).position() == old(self).position(),
            match r {
                SyncAction::Aborted { kind: k, item } => k == kind && match item {
                    Some(n) => (old(self).phase_view() is Fetching || old(self).phase_view() is Applying)
                        && n@ == old(self).names()[old(self).position()],
                    None => !(old(self).phase_view() is Fetching || old(self).phase_view() is Applying),
                },
                _ => false,
            },
    {
        let item = match self.phase {
            SyncPhase::Fetching | SyncPhase::Applying => Some(self.names[self.next].clone()),
            _ => None,
        };
        self.phase = SyncPhase::Done;
        SyncAction::Aborted { kind, item }
    }
}

/// In a dry run the run is never waiting for a value or an apply, so it fetches no
/// value and applies nothing, whatever was listed.
pub proof fn lemma_dry_run_reads_and_writes_nothing(run: SyncRun)
    requires
        run.wf(),
        run.is_dry_run(),
    ensures
        !(run.phase_view() is Fetching || run.phase_view() is Applying),
{
}

/// While no secret matched, the run is never waiting for a value or an apply, so the
/// cluster's write path is not used.
pub proof fn lemma_no_match_writes_nothing(run: SyncRun)
    requires
        run.wf(),
        run.names().len() == 0,
    ensures
        !(run.phase_view() is Fetching || run.phase_view() is Applying),
{
}

} // verus!
