use vstd::prelude::*;

verus! {

/// The separator placed between prefix, environment and name in a remote identifier.
pub open spec fn sep() -> Seq<char> {
    seq!['-']
}

/// `prefix-environment-name`.
pub open spec fn secret_name_of(prefix: Seq<char>, env: Seq<char>, name: Seq<char>) -> Seq<char> {
    prefix + sep() + env + sep() + name
}

pub open spec fn dash_free(s: Seq<char>) -> bool {
    forall|i: int| 0 <= i < s.len() ==> s[i] != '-'
}

/// `(env, name)` is a reading of `full` under `prefix` whose environment holds no separator.
pub open spec fn splits_as(prefix: Seq<char>, full: Seq<char>, env: Seq<char>, name: Seq<char>) -> bool {
    dash_free(env) && full == secret_name_of(prefix, env, name)
}

/// The environment and name that `full` was built from, reading the environment up to
/// the first separator after the prefix; `None` when `full` has no such shape.
pub open spec fn parse_spec(prefix: Seq<char>, full: Seq<char>) -> Option<(Seq<char>, Seq<char>)> {
    if exists|p: (Seq<char>, Seq<char>)| #[trigger] splits_as(prefix, full, p.0, p.1) {
        Some(choose|p: (Seq<char>, Seq<char>)| splits_as(prefix, full, p.0, p.1))
    } else {
        None
    }
}

/// `projects/{project}/secrets/{prefix-environment-name}`.
pub open spec fn resource_name_of(project: Seq<char>, prefix: Seq<char>, env: Seq<char>, name: Seq<char>) -> Seq<char> {
    "projects/"@ + project + "/secrets/"@ + secret_name_of(prefix, env, name)
}

/// `projects/{project}/secrets/{prefix-environment-name}/versions/{version}`.
pub open spec fn version_name_of(
    project: Seq<char>,
    prefix: Seq<char>,
    env: Seq<char>,
    name: Seq<char>,
    version: Seq<char>,
) -> Seq<char> {
    resource_name_of(project, prefix, env, name) + "/versions/"@ + version
}

/// `projects/{project}`: the parent under which secrets are listed and created.
pub open spec fn parent_of(project: Seq<char>) -> Seq<char> {
    "projects/"@ + project
}

/// `prefix-environment-`: what every identifier of one environment starts with.
pub open spec fn env_prefix_of(prefix: Seq<char>, env: Seq<char>) -> Seq<char> {
    prefix + sep() + env + sep()
}

pub open spec fn default_prefix_spec() -> Seq<char> {
    seq!['k', '8', 's']
}

/// Two readings of one identifier with separator-free environments are the same reading.
pub proof fn lemma_split_unique(
    prefix: Seq<char>,
    full: Seq<char>,
    e1: Seq<char>,
    n1: Seq<char>,
    e2: Seq<char>,
    n2: Seq<char>,
)
    requires
        splits_as(prefix, full, e1, n1),
        splits_as(prefix, full, e2, n2),
    ensures
        e1 == e2,
        n1 == n2,
{
    let p: int = prefix.len() as int + 1;
    assert(full.len() == p + e1.len() + 1 + n1.len());
    assert(full.len() == p + e2.len() + 1 + n2.len());
    if e1.len() < e2.len() {
        assert(full[p + e1.len()] == '-');
        assert(full[p + e1.len()] == e2[e1.len() as int]);
        assert(false);
    }
    if e2.len() < e1.len() {
        assert(full[p + e2.len()] == '-');
        assert(full[p + e2.len()] == e1[e2.len() as int]);
        assert(false);
    }
    assert(e1 =~= full.subrange(p, p + e1.len() as int));
    assert(e2 =~= full.subrange(p, p + e2.len() as int));
    assert(n1 =~= full.subrange(p + e1.len() as int + 1, full.len() as int));
    assert(n2 =~= full.subrange(p + e2.len() as int + 1, full.len() as int));
}

/// When `(env, name)` is a reading of `full`, parsing yields exactly that reading.
pub proof fn lemma_parse_spec_is(prefix: Seq<char>, full: Seq<char>, env: Seq<char>, name: Seq<char>)
    requires
        splits_as(prefix, full, env, name),
    ensures
        parse_spec(prefix, full) == Some((env, name)),
{
    let w = (env, name);
    assert(splits_as(prefix, full, w.0, w.1));
    let p = choose|p: (Seq<char>, Seq<char>)| splits_as(prefix, full, p.0, p.1);
    lemma_split_unique(prefix, full, env, name, p.0, p.1);
}

/// Round trip: an identifier built from an environment without the separator parses back
/// to that environment and name, whatever the prefix and the name hold.
pub proof fn lemma_parse_build_round_trip(prefix: Seq<char>, env: Seq<char>, name: Seq<char>)
    requires
        dash_free(env),
    ensures
        parse_spec(prefix, secret_name_of(prefix, env, name)) == Some((env, name)),
{
    lemma_parse_spec_is(prefix, secret_name_of(prefix, env, name), env, name);
}

/// The documented ambiguity: an environment holding the separator does not survive the
/// round trip.
pub proof fn lemma_parse_build_ambiguous(prefix: Seq<char>, env: Seq<char>, name: Seq<char>)
    requires
        !dash_free(env),
    ensures
        parse_spec(prefix, secret_name_of(prefix, env, name)) != Some((env, name)),
{
    let full = secret_name_of(prefix, env, name);
    if parse_spec(prefix, full) == Some((env, name)) {
        let p = choose|p: (Seq<char>, Seq<char>)| splits_as(prefix, full, p.0, p.1);
        assert(p == (env, name));
        assert(dash_free(env));
    }
}

/// The settings every remote identifier is built from.
#[derive(Clone, Debug)]
pub struct Config {
    /// Project that owns the remote secrets.
    pub gcp_project_id: String,
    /// Tag prepended to every remote identifier.
    pub secret_prefix: String,
}

/// The prefix used when the configuration names none.
pub fn default_prefix() -> (r: String)
    ensures
        r@ == default_prefix_spec(),
{
    proof {
        reveal_strlit("k8s");
    }
    "k8s".to_owned()
}

fn push_str(s: &mut String, t: &str)
    ensures
        final(s)@ == old(s)@ + t@,
{
    s.append(t);
}

impl Config {
    /// A configuration for `project` with the default prefix.
    pub fn new(project: &str) -> (r: Config)
        ensures
            r.gcp_project_id@ == project@,
            r.secret_prefix@ == default_prefix_spec(),
    {
        Config { gcp_project_id: project.to_owned(), secret_prefix: default_prefix() }
    }

    /// The configuration in force: the one read from the file, or the default one when
    /// there is no file but a project was given; a given project replaces the file's.
    pub fn resolve(from_file: Option<Config>, project_override: Option<String>) -> (r: Result<Config, crate::errors::ErrorKind>)
        ensures
            match r {
                Ok(c) => c.gcp_project_id@ == match project_override {
                    Some(p) => p@,
                    None => from_file->0.gcp_project_id@,
                } && c.secret_prefix@ == match from_file {
                    Some(f) => f.secret_prefix@,
                    None => default_prefix_spec(),
                },
                Err(e) => e == crate::errors::ErrorKind::ConfigMissing,
            },
            r is Err <==> (from_file is None && project_override is None),
    {
        let mut config = match from_file {
            Some(c) => c,
            None => {
                if project_override.is_none() {
                    return Err(crate::errors::ErrorKind::ConfigMissing);
                }
                Config { gcp_project_id: String::new(), secret_prefix: default_prefix() }
            },
        };
        match project_override {
            Some(p) => {
                config.gcp_project_id = p;
            },
            None => {},
        }
        Ok(config)
    }

    /// `prefix-environment-name`.
    pub fn build_secret_name(&self, environment: &str, name: &str) -> (r: String)
        ensures
            r@ == secret_name_of(self.secret_prefix@, environment@, name@),
    {
        proof {
            reveal_strlit("-");
        }
        let mut s = self.secret_prefix.clone();
        push_str(&mut s, "-");
        push_str(&mut s, environment);
        push_str(&mut s, "-");
        push_str(&mut s, name);
        s
    }

    /// `prefix-environment-`.
    pub fn build_env_prefix(&self, environment: &str) -> (r: String)
        ensures
            r@ == env_prefix_of(self.secret_prefix@, environment@),
    {
        proof {
            reveal_strlit("-");
        }
        let mut s = self.secret_prefix.clone();
        push_str(&mut s, "-");
        push_str(&mut s, environment);
        push_str(&mut s, "-");
        s
    }

    /// `projects/{project}`.
    pub fn build_parent(&self) -> (r: String)
        ensures
            r@ == parent_of(self.gcp_project_id@),
    {
        let mut s = "projects/".to_owned();
        push_str(&mut s, self.gcp_project_id.as_str());
        s
    }

    /// Splits a remote identifier into environment and name: the environment runs from
    /// after `prefix-` up to the next separator, the name is all that follows it.
    pub fn parse_secret_name(&self, full_name: &str) -> (r: Option<(String, String)>)
        ensures
            match r {
                Some((e, n)) => parse_spec(self.secret_prefix@, full_name@) == Some((e@, n@)),
                None => parse_spec(self.secret_prefix@, full_name@) is None,
            },
    {
        let prefix = self.secret_prefix.as_str();
        let plen = prefix.unicode_len();
        let flen = full_name.unicode_len();
        let ghost pre = self.secret_prefix@;
        let ghost full = full_name@;
        if flen <= plen {
            proof {
                assert forall|e: Seq<char>, n: Seq<char>| #![trigger splits_as(pre, full, e, n)] !splits_as(pre, full, e, n) by {
                    if splits_as(pre, full, e, n) {
                        assert(full.len() >= pre.len() + 2);
                    }
                }
            }
            return None;
        }
        let mut i: usize = 0;
        while i < plen
            invariant
                plen == pre.len(),
                flen == full.len(),
                plen < flen,
                i <= plen,
                prefix@ == pre,
                pre == self.secret_prefix@,
                full_name@ == full,
                forall|j: int| 0 <= j < i ==> full[j] == pre[j],
            decreases plen - i,
        {
            if full_name.get_char(i) != prefix.get_char(i) {
                proof {
                    assert forall|e: Seq<char>, n: Seq<char>| #![trigger splits_as(pre, full, e, n)] !splits_as(pre, full, e, n) by {
                        if splits_as(pre, full, e, n) {
                            assert(full[i as int] == pre[i as int]);
                        }
                    }
                }
                return None;
            }
            i = i + 1;
        }
        if full_name.get_char(plen) != '-' {
            proof {
                assert forall|e: Seq<char>, n: Seq<char>| #![trigger splits_as(pre, full, e, n)] !splits_as(pre, full, e, n) by {
                    if splits_as(pre, full, e, n) {
                        assert(full[plen as int] == '-');
                    }
                }
            }
            return None;
        }
        let start: usize = plen + 1;
        let mut k: usize = start;
        while k < flen && full_name.get_char(k) != '-'
            invariant
                start <= k <= flen,
                flen == full.len(),
                full_name@ == full,
                forall|j: int| start <= j < k ==> full[j] != '-',
            decreases flen - k,
        {
            k = k + 1;
        }
        if k >= flen {
            proof {
                assert forall|e: Seq<char>, n: Seq<char>| #![trigger splits_as(pre, full, e, n)] !splits_as(pre, full, e, n) by {
                    if splits_as(pre, full, e, n) {
                        let d: int = start as int + e.len() as int;
                        assert(full[d] == '-');
                        assert(d < flen);
                        assert(start <= d < k);
                    }
                }
            }
            return None;
        }
        let env = full_name.substring_char(start, k).to_owned();
        let name = full_name.substring_char(k + 1, flen).to_owned();
        proof {
            assert(dash_free(env@)) by {
                assert forall|j: int| 0 <= j < env@.len() implies env@[j] != '-' by {
                    assert(env@[j] == full[start + j]);
                }
            }
            assert(full =~= secret_name_of(pre, env@, name@)) by {
                assert(full.subrange(0, plen as int) =~= pre);
            }
            lemma_parse_spec_is(pre, full, env@, name@);
        }
        Some((env, name))
    }

    /// `projects/{project}/secrets/{prefix-environment-name}`.
    pub fn build_resource_name(&self, environment: &str, name: &str) -> (r: String)
        ensures
            r@ == resource_name_of(self.gcp_project_id@, self.secret_prefix@, environment@, name@),
    {
        let mut s = self.build_parent();
        push_str(&mut s, "/secrets/");
        let id = self.build_secret_name(environment, name);
        push_str(&mut s, id.as_str());
        proof {
            assert(s@ =~= resource_name_of(self.gcp_project_id@, self.secret_prefix@, environment@, name@));
        }
        s
    }

    /// `projects/{project}/secrets/{prefix-environment-name}/versions/{version}`.
    pub fn build_version_name(&self, environment: &str, name: &str, version: &str) -> (r: String)
        ensures
            r@ == version_name_of(
                self.gcp_project_id@,
                self.secret_prefix@,
                environment@,
                name@,
                version@,
            ),
    {
        let mut s = self.build_resource_name(environment, name);
        push_str(&mut s, "/versions/");
        push_str(&mut s, version);
        s
    }
}

} // verus!
