//! The active rules pack: loading outcome, id assignment and derived views.

use vstd::prelude::*;

use crate::config::Config;
use crate::error::Error;
use crate::rule::{rule_searchable, Rule};

verus! {

/// Default directory name for rule packs.
pub const DEFAULT_RULES_DIR: &'static str = "rules";

/// Lightweight row for listings.
#[derive(Debug, Clone, PartialEq, Eq)]
pub struct SourceInfo {
    pub id: u32,
    pub name: String,
    pub url: String,
    pub comment: String,
    pub disabled: bool,
    pub searchable: bool,
    pub need_proxy: bool,
}

/// The listing row of a rule.
pub open spec fn info_of(rule: Rule) -> SourceInfo {
    SourceInfo {
        id: rule.id,
        name: rule.name,
        url: rule.url,
        comment: rule.comment,
        disabled: rule.disabled,
        searchable: rule_searchable(rule),
        need_proxy: rule.need_proxy,
    }
}

impl<'a> From<&'a Rule> for SourceInfo {
    fn from(rule: &'a Rule) -> (r: SourceInfo) {
        SourceInfo {
            id: rule.id,
            name: rule.name.clone(),
            url: rule.url.clone(),
            comment: rule.comment.clone(),
            disabled: rule.disabled,
            searchable: rule.is_searchable(),
            need_proxy: rule.need_proxy,
        }
    }
}

impl<'a> vstd::std_specs::convert::FromSpecImpl<&'a Rule> for SourceInfo {
    open spec fn obeys_from_spec() -> bool {
        true
    }

    open spec fn from_spec(rule: &'a Rule) -> SourceInfo {
        info_of(*rule)
    }
}

/// The searchable rules of `rs`, in order.
pub open spec fn searchable_rules(rs: Seq<Rule>) -> Seq<Rule>
    decreases rs.len(),
{
    if rs.len() == 0 {
        seq![]
    } else if rule_searchable(rs.last()) {
        searchable_rules(rs.drop_last()).push(rs.last())
    } else {
        searchable_rules(rs.drop_last())
    }
}

/// The number of rules of `rs` that are not disabled.
pub open spec fn enabled_count_of(rs: Seq<Rule>) -> nat
    decreases rs.len(),
{
    if rs.len() == 0 {
        0
    } else {
        enabled_count_of(rs.drop_last()) + if rs.last().disabled {
            0nat
        } else {
            1nat
        }
    }
}

/// The first index at or after `j` of a rule with the given id.
pub open spec fn index_with_id(rs: Seq<Rule>, id: u32, j: int) -> Option<int>
    decreases rs.len() - j,
{
    if j < 0 || j >= rs.len() {
        None
    } else if rs[j].id == id {
        Some(j)
    } else {
        index_with_id(rs, id, j + 1)
    }
}

/// The id a pack assigns to its `i`-th rule: `i + 1`, capped at `u32::MAX`.
pub open spec fn assigned_id(i: int) -> u32 {
    if i + 1 <= u32::MAX {
        (i + 1) as u32
    } else {
        u32::MAX
    }
}

/// What the caller found when it looked for a rules pack.
pub enum RulesSource {
    /// No file at the path.
    Missing,
    /// The file exists but could not be read; the I/O error's text.
    Unreadable(String),
    /// The file is not a JSON array of rules; the decoder's message.
    Malformed(String),
    /// The decoded rules, in file order.
    Parsed(Vec<Rule>),
}

/// Rules loaded from a pack, with 1-based sequential ids assigned.
pub fn load_rules_file(path: &str, found: RulesSource) -> (res: Result<Vec<Rule>, Error>)
    ensures
        match found {
            RulesSource::Missing => res matches Err(Error::RulesNotFound(p)) && p@ == path@,
            RulesSource::Unreadable(m) => res matches Err(Error::Io(x)) && x@ == m@,
            RulesSource::Malformed(m) => res matches Err(Error::InvalidRules { path: p, message: x })
                && p@ == path@ && x@ == m@,
            RulesSource::Parsed(rs) => res matches Ok(v) && v@.len() == rs@.len() && forall|i: int|
                0 <= i < rs@.len() ==> #[trigger] v@[i] == (Rule { id: assigned_id(i), ..rs@[i] }),
        },
{
    match found {
        RulesSource::Missing => Err(Error::RulesNotFound(path.to_owned())),
        RulesSource::Unreadable(m) => Err(Error::Io(m)),
        RulesSource::Malformed(m) => Err(Error::InvalidRules { path: path.to_owned(), message: m }),
        RulesSource::Parsed(rules) => {
            let ghost rs = rules@;
            let mut rest = rules;
            let mut out: Vec<Rule> = Vec::new();
            let n = rest.len();
            let mut i: usize = 0;
            while i < n
                invariant
                    n == rs.len(),
                    i <= n,
                    rest@ == rs.skip(i as int),
                    out@.len() == i,
                    forall|k: int| 0 <= k < i ==> #[trigger] out@[k] == (Rule { id: assigned_id(k), ..rs[k] }),
                decreases n - i,
            {
                let mut r = rest.remove(0);
                r.id = if i < u32::MAX as usize {
                    (i + 1) as u32
                } else {
                    u32::MAX
                };
                out.push(r);
                assert(rest@ =~= rs.skip(i + 1));
                i += 1;
            }
            Ok(out)
        },
    }
}

/// Loads the active rules pack found at `path`.
pub fn load_active_rules(path: &str, found: RulesSource) -> (res: Result<Vec<Rule>, Error>)
    ensures
        match found {
            RulesSource::Missing => res matches Err(Error::RulesNotFound(p)) && p@ == path@,
            RulesSource::Unreadable(m) => res matches Err(Error::Io(x)) && x@ == m@,
            RulesSource::Malformed(m) => res matches Err(Error::InvalidRules { path: p, message: x })
                && p@ == path@ && x@ == m@,
            RulesSource::Parsed(rs) => res matches Ok(v) && v@.len() == rs@.len() && forall|i: int|
                0 <= i < rs@.len() ==> #[trigger] v@[i] == (Rule { id: assigned_id(i), ..rs@[i] }),
        },
{
    load_rules_file(path, found)
}

/// `Path::is_absolute`.
#[verifier::external_body]
fn path_is_absolute(p: &str) -> bool {
    std::path::Path::new(p).is_absolute()
}

/// `Path::parent`, as text.
#[verifier::external_body]
fn path_parent(p: &str) -> Option<String> {
    std::path::Path::new(p).parent().map(|q| q.to_string_lossy().into_owned())
}

/// `Path::join`, as text.
#[verifier::external_body]
fn path_join(base: &str, child: &str) -> String {
    std::path::Path::new(base).join(child).to_string_lossy().into_owned()
}

/// The rules pack candidates, most preferred first, from the trimmed
/// `active_rules`, whether it is an absolute path, and the joined paths
/// `{config_dir}/rules/{active}` (when a config directory is known) and
/// `rules/{active}`: an absolute `active_rules` is the only candidate;
/// otherwise the config directory's `rules/` comes first, then `rules/`,
/// then `active_rules` itself.
pub open spec fn candidate_list(
    active: Seq<char>,
    is_absolute: bool,
    config_dir_rules: Option<Seq<char>>,
    rules_active: Seq<char>,
) -> Seq<Seq<char>> {
    if is_absolute {
        seq![active]
    } else {
        (match config_dir_rules {
            Some(a) => seq![a],
            None => seq![],
        }) + seq![rules_active, active]
    }
}

/// Orders the rules pack candidates (see [`candidate_list`]).
pub fn candidates_from(
    active: String,
    is_absolute: bool,
    config_dir_rules: Option<String>,
    rules_active: String,
) -> (r: Vec<String>)
    ensures
        crate::toc::strings_view(r@) == candidate_list(
            active@,
            is_absolute,
            match config_dir_rules {
                Some(a) => Some(a@),
                None => None,
            },
            rules_active@,
        ),
{
    let mut out: Vec<String> = Vec::new();
    if is_absolute {
        out.push(active);
        assert(crate::toc::strings_view(out@) =~= seq![active@]);
        return out;
    }
    let ghost dir = match &config_dir_rules {
        Some(a) => Some(a@),
        None => None,
    };
    match config_dir_rules {
        Some(a) => out.push(a),
        None => {},
    }
    out.push(rules_active);
    out.push(active);
    assert(crate::toc::strings_view(out@) =~= candidate_list(active@, is_absolute, dir, rules_active@));
    out
}

/// Paths where the active rules pack may live, most preferred first:
/// `{config_dir}/rules/{active}` when a config path with a parent
/// directory is given, then `rules/{active}`, then `{active}`. An absolute
/// `active_rules` is the only candidate. Whether a path is absolute, a
/// path's parent and joined paths follow `std::path` on the target
/// platform, so they are only described as what those calls returned.
pub fn rules_path_candidates(config: &Config, config_path: Option<&str>) -> (r: Vec<String>)
    ensures
        exists|abs: bool, dir_rules: Option<Seq<char>>, rules_active: Seq<char>|
            {
                &&& #[trigger] candidate_list(
                    crate::text::trim(config.source.active_rules@),
                    abs,
                    dir_rules,
                    rules_active,
                ) == crate::toc::strings_view(r@)
                &&& (config_path is None ==> dir_rules is None)
            },
        r@.len() == 1 || r@.len() == 2 || (r@.len() == 3 && config_path is Some),
        r@.last()@ == crate::text::trim(config.source.active_rules@),
{
    let active = crate::text::trimmed(config.source.active_rules.as_str());
    let is_absolute = path_is_absolute(active.as_str());
    let config_dir_rules = match config_path {
        Some(cfg) => match path_parent(cfg) {
            Some(parent) => Some(path_join(path_join(parent.as_str(), DEFAULT_RULES_DIR).as_str(), active.as_str())),
            None => None,
        },
        None => None,
    };
    let rules_active = path_join(DEFAULT_RULES_DIR, active.as_str());
    let ghost abs = is_absolute;
    let ghost dir = match &config_dir_rules {
        Some(a) => Some(a@),
        None => None,
    };
    let ghost ra = rules_active@;
    let ghost act = active@;
    let r = candidates_from(active, is_absolute, config_dir_rules, rules_active);
    proof {
        let v = crate::toc::strings_view(r@);
        assert(v == candidate_list(act, abs, dir, ra));
        assert(v.len() == r@.len());
        assert(v.last() == r@.last()@);
    }
    r
}

/// The first candidate `i` with `exists[i]`, if any.
pub open spec fn first_present(exists: Seq<bool>, n: int, j: int) -> Option<int>
    decreases n - j,
{
    if j < 0 || j >= n || j >= exists.len() {
        None
    } else if exists[j] {
        Some(j)
    } else {
        first_present(exists, n, j + 1)
    }
}

/// Picks the rules pack path: the first candidate that exists, or else the
/// first candidate (the conventional location, for error messages).
/// `exists[i]` says whether `candidates[i]` exists; missing entries count as
/// not existing.
pub fn resolve_rules_path(candidates: &[String], exists: &[bool]) -> (r: String)
    requires
        candidates@.len() >= 1,
    ensures
        r == match first_present(exists@, candidates@.len() as int, 0) {
            Some(i) => candidates@[i],
            None => candidates@[0],
        },
{
    let n = candidates.len();
    let mut j: usize = 0;
    while j < n && j < exists.len()
        invariant
            n == candidates@.len(),
            j <= n,
            first_present(exists@, n as int, 0) == first_present(exists@, n as int, j as int),
        decreases n - j,
    {
        if exists[j] {
            return candidates[j].clone();
        }
        j += 1;
    }
    assert(first_present(exists@, n as int, j as int) is None);
    candidates[0].clone()
}

/// Active rules pack plus the path it was loaded from.
#[derive(Debug, Clone)]
pub struct RuleCatalog {
    pub path: String,
    pub rules: Vec<Rule>,
}

impl RuleCatalog {
    /// The catalog of the rules pack found at `path`.
    pub fn load(path: &str, found: RulesSource) -> (res: Result<RuleCatalog, Error>)
        ensures
            match found {
                RulesSource::Missing => res matches Err(Error::RulesNotFound(p)) && p@ == path@,
                RulesSource::Unreadable(m) => res matches Err(Error::Io(x)) && x@ == m@,
                RulesSource::Malformed(m) => res matches Err(
                    Error::InvalidRules { path: p, message: x },
                ) && p@ == path@ && x@ == m@,
                RulesSource::Parsed(rs) => res matches Ok(c) && c.path@ == path@ && c.rules@.len()
                    == rs@.len() && forall|i: int|
                    0 <= i < rs@.len() ==> #[trigger] c.rules@[i] == (Rule {
                        id: assigned_id(i),
                        ..rs@[i]
                    }),
            },
    {
        let rules = load_active_rules(path, found)?;
        Ok(RuleCatalog { path: path.to_owned(), rules })
    }

    /// Compact rows for display, one per rule.
    pub fn sources(&self) -> (r: Vec<SourceInfo>)
        ensures
            r@ == self.rules@.map_values(|x: Rule| info_of(x)),
    {
        let mut out: Vec<SourceInfo> = Vec::new();
        let mut i: usize = 0;
        while i < self.rules.len()
            invariant
                i <= self.rules@.len(),
                out@ == self.rules@.take(i as int).map_values(|x: Rule| info_of(x)),
            decreases self.rules.len() - i,
        {
            out.push(SourceInfo::from(&self.rules[i]));
            i += 1;
            assert(out@ =~= self.rules@.take(i as int).map_values(|x: Rule| info_of(x)));
        }
        assert(self.rules@.take(self.rules@.len() as int) =~= self.rules@);
        out
    }

    /// Rows of the sources that can be used for keyword search.
    pub fn searchable_sources(&self) -> (r: Vec<SourceInfo>)
        ensures
            r@ == searchable_rules(self.rules@).map_values(|x: Rule| info_of(x)),
    {
        let mut out: Vec<SourceInfo> = Vec::new();
        let mut i: usize = 0;
        while i < self.rules.len()
            invariant
                i <= self.rules@.len(),
                out@ == searchable_rules(self.rules@.take(i as int)).map_values(
                    |x: Rule| info_of(x),
                ),
            decreases self.rules.len() - i,
        {
            assert(self.rules@.take(i + 1).drop_last() =~= self.rules@.take(i as int));
            if self.rules[i].is_searchable() {
                out.push(SourceInfo::from(&self.rules[i]));
            }
            i += 1;
            assert(out@ =~= searchable_rules(self.rules@.take(i as int)).map_values(
                |x: Rule| info_of(x),
            ));
        }
        assert(self.rules@.take(self.rules@.len() as int) =~= self.rules@);
        out
    }

    /// The first rule with the given 1-based id.
    pub fn get(&self, source_id: u32) -> (r: Option<&Rule>)
        ensures
            match index_with_id(self.rules@, source_id, 0) {
                Some(i) => r matches Some(x) && *x == self.rules@[i],
                None => r is None,
            },
    {
        let n = self.rules.len();
        let mut j: usize = 0;
        while j < n
            invariant
                n == self.rules@.len(),
                j <= n,
                index_with_id(self.rules@, source_id, 0) == index_with_id(
                    self.rules@,
                    source_id,
                    j as int,
                ),
            decreases n - j,
        {
            if self.rules[j].id == source_id {
                return Some(&self.rules[j]);
            }
            j += 1;
        }
        None
    }

    /// Number of rules.
    pub fn len(&self) -> (r: usize)
        ensures
            r == self.rules@.len(),
    {
        self.rules.len()
    }

    /// Whether the pack holds no rule.
    pub fn is_empty(&self) -> (r: bool)
        ensures
            r == (self.rules@.len() == 0),
    {
        self.rules.len() == 0
    }

    /// Number of searchable sources.
    pub fn searchable_count(&self) -> (r: usize)
        ensures
            r == searchable_rules(self.rules@).len(),
    {
        let mut count: usize = 0;
        let mut i: usize = 0;
        while i < self.rules.len()
            invariant
                i <= self.rules@.len(),
                count == searchable_rules(self.rules@.take(i as int)).len(),
                count <= i,
            decreases self.rules.len() - i,
        {
            assert(self.rules@.take(i + 1).drop_last() =~= self.rules@.take(i as int));
            if self.rules[i].is_searchable() {
                count += 1;
            }
            i += 1;
        }
        assert(self.rules@.take(self.rules@.len() as int) =~= self.rules@);
        count
    }

    /// Number of sources that are not disabled.
    pub fn enabled_count(&self) -> (r: usize)
        ensures
            r == enabled_count_of(self.rules@),
    {
        let mut count: usize = 0;
        let mut i: usize = 0;
        while i < self.rules.len()
            invariant
                i <= self.rules@.len(),
                count == enabled_count_of(self.rules@.take(i as int)),
                count <= i,
            decreases self.rules.len() - i,
        {
            assert(self.rules@.take(i + 1).drop_last() =~= self.rules@.take(i as int));
            if !self.rules[i].disabled {
                count += 1;
            }
            i += 1;
        }
        assert(self.rules@.take(self.rules@.len() as int) =~= self.rules@);
        count
    }
}

/// A searchable source is an enabled one: a pack never has more searchable
/// sources than enabled ones, nor more enabled ones than rules.
pub proof fn lemma_searchable_within_enabled(rs: Seq<Rule>)
    ensures
        searchable_rules(rs).len() <= enabled_count_of(rs) <= rs.len(),
    decreases rs.len(),
{
    if rs.len() > 0 {
        lemma_searchable_within_enabled(rs.drop_last());
    }
}

proof fn lemma_sequential_ids_from(rs: Seq<Rule>, i: int, j: int)
    requires
        rs.len() <= u32::MAX,
        forall|k: int| 0 <= k < rs.len() ==> #[trigger] rs[k].id == assigned_id(k),
        0 <= j <= i < rs.len(),
    ensures
        index_with_id(rs, (i + 1) as u32, j) == Some(i),
    decreases i - j,
{
    if j < i {
        assert(rs[j].id == assigned_id(j));
        lemma_sequential_ids_from(rs, i, j + 1);
    } else {
        assert(rs[i].id == assigned_id(i));
    }
}

/// In a loaded pack, the rule at position `i` is the one found under id
/// `i + 1`, and no rule is found under id 0 or past the pack's length.
pub proof fn lemma_loaded_ids_find_rules(rs: Seq<Rule>)
    requires
        rs.len() <= u32::MAX,
        forall|k: int| 0 <= k < rs.len() ==> #[trigger] rs[k].id == assigned_id(k),
    ensures
        forall|i: int| 0 <= i < rs.len() ==> #[trigger] index_with_id(rs, (i + 1) as u32, 0) == Some(i),
        forall|id: u32| (id == 0 || id > rs.len()) ==> #[trigger] index_with_id(rs, id, 0) is None,
{
    assert forall|i: int| 0 <= i < rs.len() implies #[trigger] index_with_id(rs, (i + 1) as u32, 0)
        == Some(i) by {
        lemma_sequential_ids_from(rs, i, 0);
    }
    assert forall|id: u32| (id == 0 || id > rs.len()) implies #[trigger] index_with_id(rs, id, 0) is None by {
        lemma_no_id_from(rs, id, 0);
    }
}

proof fn lemma_no_id_from(rs: Seq<Rule>, id: u32, j: int)
    requires
        rs.len() <= u32::MAX,
        forall|k: int| 0 <= k < rs.len() ==> #[trigger] rs[k].id == assigned_id(k),
        id == 0 || id > rs.len(),
        0 <= j <= rs.len(),
    ensures
        index_with_id(rs, id, j) is None,
    decreases rs.len() - j,
{
    if j < rs.len() {
        assert(rs[j].id == assigned_id(j));
        lemma_no_id_from(rs, id, j + 1);
    }
}

} // verus!
