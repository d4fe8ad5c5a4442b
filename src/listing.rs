use vstd::prelude::*;
use crate::config::{env_prefix_of, Config};

verus! {

/// A secret as the remote store lists it: its full resource name and, when known, its
/// creation time as seconds and nanoseconds since the Unix epoch.
pub struct RemoteSecret {
    pub resource_name: String,
    pub create_time: Option<(i64, i32)>,
}

/// A secret of one environment.
pub struct SecretInfo {
    /// The short name, without prefix and environment.
    pub name: String,
    pub environment: String,
    /// Creation time as `YYYY-MM-DD HH:MM:SS UTC`, or `Unknown` when out of range.
    pub created_at: Option<String>,
}

/// The model of a [`SecretInfo`].
pub open spec fn info_view(i: SecretInfo) -> (Seq<char>, Seq<char>, Option<Seq<char>>) {
    (i.name@, i.environment@, match i.created_at {
        Some(c) => Some(c@),
        None => None,
    })
}

pub open spec fn infos_view(v: Seq<SecretInfo>) -> Seq<(Seq<char>, Seq<char>, Option<Seq<char>>)> {
    v.map_values(|i: SecretInfo| info_view(i))
}

/// The instant `seconds`, `nanos` after the Unix epoch as `YYYY-MM-DD HH:MM:SS UTC`, or
/// `None` when it is out of the representable range.
pub uninterp spec fn utc_text(seconds: i64, nanos: i32) -> Option<Seq<char>>;

/// Relies on chrono::DateTime::from_timestamp and DateTime::format, in UTC.
#[verifier::external_body]
fn format_utc(seconds: i64, nanos: i32) -> (r: Option<String>)
    ensures
        match r {
            Some(s) => utc_text(seconds, nanos) == Some(s@),
            None => utc_text(seconds, nanos) is None,
        },
{
    chrono::DateTime::<chrono::Utc>::from_timestamp(seconds, nanos as u32)
        .map(|d| d.format("%Y-%m-%d %H:%M:%S UTC").to_string())
}

/// `j` is where the last `/`-separated segment of `s` starts.
pub open spec fn segment_start(s: Seq<char>, j: int) -> bool {
    &&& 0 <= j <= s.len()
    &&& (j == 0 || s[j - 1] == '/')
    &&& forall|k: int| j <= k < s.len() ==> s[k] != '/'
}

/// What follows the last `/` of `s`; all of `s` when it has none.
pub open spec fn last_segment(s: Seq<char>) -> Seq<char> {
    let j = choose|j: int| segment_start(s, j);
    s.subrange(j, s.len() as int)
}

proof fn lemma_segment_start_unique(s: Seq<char>, a: int, b: int)
    requires
        segment_start(s, a),
        segment_start(s, b),
    ensures
        a == b,
{
    if a < b {
        assert(s[b - 1] == '/');
    }
    if b < a {
        assert(s[a - 1] == '/');
    }
}

/// The short name of a listed secret of the environment whose identifiers start with
/// `env_prefix`, or `None` when it belongs elsewhere.
pub open spec fn listed_name(env_prefix: Seq<char>, full: Seq<char>) -> Option<Seq<char>> {
    let seg = last_segment(full);
    if env_prefix.len() <= seg.len() && seg.subrange(0, env_prefix.len() as int) == env_prefix {
        Some(seg.subrange(env_prefix.len() as int, seg.len() as int))
    } else {
        None
    }
}

/// The creation time shown for a listed secret.
pub open spec fn created_view(t: Option<(i64, i32)>) -> Option<Seq<char>> {
    match t {
        None => None,
        Some((s, n)) => match utc_text(s, n) {
            Some(x) => Some(x),
            None => Some(seq!['U', 'n', 'k', 'n', 'o', 'w', 'n']),
        },
    }
}

/// The secrets of one page that belong to the environment, in page order.
pub open spec fn listed_infos(
    env_prefix: Seq<char>,
    env: Seq<char>,
    page: Seq<RemoteSecret>,
) -> Seq<(Seq<char>, Seq<char>, Option<Seq<char>>)>
    decreases page.len(),
{
    if page.len() == 0 {
        Seq::empty()
    } else {
        let prev = listed_infos(env_prefix, env, page.drop_last());
        match listed_name(env_prefix, page.last().resource_name@) {
            Some(n) => prev.push((n, env, created_view(page.last().create_time))),
            None => prev,
        }
    }
}

/// The short name of `full` when it belongs to the environment of `env_prefix`.
pub fn listed_short_name(env_prefix: &str, full: &str) -> (r: Option<String>)
    ensures
        match r {
            Some(n) => listed_name(env_prefix@, full@) == Some(n@),
            None => listed_name(env_prefix@, full@) is None,
        },
{
    let len = full.unicode_len();
    let mut j: usize = len;
    while j > 0 && full.get_char(j - 1) != '/'
        invariant
            j <= len,
            len == full@.len(),
            forall|k: int| j <= k < len ==> full@[k] != '/',
        decreases j,
    {
        j = j - 1;
    }
    let seg = full.substring_char(j, len);
    proof {
        assert(segment_start(full@, j as int));
        let c = choose|c: int| segment_start(full@, c);
        lemma_segment_start_unique(full@, j as int, c);
        assert(seg@ == last_segment(full@));
    }
    let plen = env_prefix.unicode_len();
    let slen = seg.unicode_len();
    if plen > slen {
        return None;
    }
    let mut i: usize = 0;
    while i < plen
        invariant
            i <= plen,
            plen <= slen,
            plen == env_prefix@.len(),
            slen == seg@.len(),
            seg@ == last_segment(full@),
            forall|k: int| 0 <= k < i ==> seg@[k] == env_prefix@[k],
        decreases plen - i,
    {
        if seg.get_char(i) != env_prefix.get_char(i) {
            proof {
                assert(seg@.subrange(0, plen as int)[i as int] != env_prefix@[i as int]);
            }
            return None;
        }
        i = i + 1;
    }
    proof {
        assert(seg@.subrange(0, plen as int) =~= env_prefix@);
    }
    Some(seg.substring_char(plen, slen).to_owned())
}

/// The creation time shown for `t`.
pub fn created_text(t: Option<(i64, i32)>) -> (r: Option<String>)
    ensures
        match r {
            Some(s) => created_view(t) == Some(s@),
            None => created_view(t) is None,
        },
{
    match t {
        None => None,
        Some((s, n)) => Some(formatted_or_unknown(format_utc(s, n))),
    }
}

/// The text shown for a formatted creation time: the text itself, or `Unknown` when the
/// instant could not be represented.
pub fn formatted_or_unknown(formatted: Option<String>) -> (r: String)
    ensures
        r@ == match formatted {
            Some(x) => x@,
            None => seq!['U', 'n', 'k', 'n', 'o', 'w', 'n'],
        },
{
    match formatted {
        Some(x) => x,
        None => {
            proof {
                reveal_strlit("Unknown");
                assert("Unknown"@ =~= seq!['U', 'n', 'k', 'n', 'o', 'w', 'n']);
            }
            "Unknown".to_owned()
        },
    }
}

/// The secrets of one environment, gathered page by page from the remote listing.
pub struct SecretListing {
    env_prefix: String,
    environment: String,
    secrets: Vec<SecretInfo>,
}

impl SecretListing {
    /// `prefix-environment-`, which every secret of the listing starts with.
    pub closed spec fn prefix_view(&self) -> Seq<char> {
        self.env_prefix@
    }

    pub closed spec fn environment_view(&self) -> Seq<char> {
        self.environment@
    }

    /// The secrets gathered so far.
    pub closed spec fn infos(&self) -> Seq<(Seq<char>, Seq<char>, Option<Seq<char>>)> {
        infos_view(self.secrets@)
    }

    /// An empty listing of `environment` under the configuration's prefix.
    pub fn new(config: &Config, environment: &str) -> (r: SecretListing)
        ensures
            r.prefix_view() == env_prefix_of(config.secret_prefix@, environment@),
            r.environment_view() == environment@,
            r.infos() == Seq::<(Seq<char>, Seq<char>, Option<Seq<char>>)>::empty(),
    {
        let r = SecretListing {
            env_prefix: config.build_env_prefix(environment),
            environment: environment.to_owned(),
            secrets: Vec::new(),
        };
        proof {
            assert(infos_view(r.secrets@) =~= Seq::<(Seq<char>, Seq<char>, Option<Seq<char>>)>::empty());
        }
        r
    }

    /// Adds the secrets of `page` that belong to the environment, in page order.
    pub fn accept_page(&mut self, page: &Vec<RemoteSecret>)
        ensures
            final(self).prefix_view() == old(self).prefix_view(),
            final(self).environment_view() == old(self).environment_view(),
            final(self).infos() == old(self).infos() + listed_infos(
                old(self).prefix_view(),
                old(self).environment_view(),
                page@,
            ),
    {
        let ghost start = self.infos();
        let mut i: usize = 0;
        while i < page.len()
            invariant
                i <= page@.len(),
                self.env_prefix@ == old(self).prefix_view(),
                self.environment@ == old(self).environment_view(),
                start == old(self).infos(),
                self.infos() == start + listed_infos(self.env_prefix@, self.environment@, page@.take(i as int)),
            decreases page@.len() - i,
        {
            let ghost before = self.secrets@;
            proof {
                assert(page@.take(i + 1).drop_last() =~= page@.take(i as int));
            }
            match listed_short_name(self.env_prefix.as_str(), page[i].resource_name.as_str()) {
                Some(name) => {
                    let created = created_text(page[i].create_time);
                    self.secrets.push(SecretInfo {
                        name,
                        environment: self.environment.clone(),
                        created_at: created,
                    });
                    proof {
                        assert(infos_view(self.secrets@) =~= infos_view(before).push(info_view(self.secrets@.last())));
                    }
                },
                None => {},
            }
            i = i + 1;
        }
        proof {
            assert(page@.take(i as int) =~= page@);
        }
    }

    /// How many secrets were gathered.
    pub fn len(&self) -> (r: usize)
        ensures
            r == self.infos().len(),
    {
        self.secrets.len()
    }

    /// The gathered secrets, in listing order.
    pub fn into_secrets(self) -> (r: Vec<SecretInfo>)
        ensures
            infos_view(r@) == self.infos(),
    {
        self.secrets
    }
}

/// The token of the next page to ask for: `None` once the store returns an empty one.
pub fn next_page_token(token: String) -> (r: Option<String>)
    ensures
        match r {
            Some(t) => t@ == token@ && token@.len() > 0,
            None => token@.len() == 0,
        },
{
    if token.unicode_len() == 0 {
        None
    } else {
        Some(token)
    }
}

} // verus!
