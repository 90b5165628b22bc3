//! The cache policy for static files: an ordered list of rules, each a path
//! pattern with a way to compute how long a response stays fresh. The first
//! rule whose pattern matches the resolved path decides.
use crate::config::{StaticFileCacheRule, StaticFileCacheRuleType, StaticFileConfiguration};
use crate::pattern::{pattern_compiles, pattern_matches, PathPattern};
use crate::time::{duration_max_nanos, remaining_nanos, Duration, Timestamp};
use vstd::prelude::*;

verus! {

/// What the cache policy reads of a file that a request resolved to.
#[derive(Debug)]
pub struct ResolvedFile {
    /// The resolved path, relative to the document root, where it can be
    /// written as text.
    pub path: Option<String>,
    /// When the file was last modified, where the file system tells.
    pub modified: Option<Timestamp>,
}

impl ResolvedFile {
    /// The path that cache rules are matched against: the resolved path,
    /// and the empty path where that cannot be written as text.
    pub open spec fn path_text(&self) -> Seq<char> {
        match self.path {
            Some(path) => path@,
            None => Seq::<char>::empty(),
        }
    }

    /// The path that cache rules are matched against.
    pub fn path_str(&self) -> (s: &str)
        ensures
            s@ == self.path_text(),
    {
        match &self.path {
            Some(path) => path.as_str(),
            None => {
                proof {
                    reveal_strlit("");
                }
                ""
            },
        }
    }
}

/// Why a rule engine could not be built.
#[derive(Debug)]
pub enum RulesError {
    /// The pattern of the rule at `index` did not compile; `message` is the
    /// regex compiler's explanation.
    InvalidPattern { index: usize, message: String },
}

/// Freshness of a file under a modification-time rule, in nanoseconds: the
/// time left until `lifetime` has passed since the file was modified, and
/// zero when the modification time is unknown, so that such a file is
/// revalidated on every request.
pub open spec fn mod_time_header_nanos(
    lifetime: nat,
    modified: Option<Timestamp>,
    now: Timestamp,
) -> nat {
    match modified {
        None => 0,
        Some(m) => remaining_nanos(m@, lifetime, now@),
    }
}

/// A rule that caches matching files for a fixed duration.
#[derive(Debug)]
pub struct FixedTimeCacheHeaderRule {
    pub path_regex: PathPattern,
    pub file_cache_duration: Duration,
}

impl FixedTimeCacheHeaderRule {
    pub fn new(path_regex: PathPattern, file_cache_duration: Duration) -> (rule: Self)
        ensures
            rule.path_regex == path_regex,
            rule.file_cache_duration == file_cache_duration,
    {
        Self { path_regex, file_cache_duration }
    }

    /// Whether the rule applies to `resolved_path`.
    pub fn matches(&self, resolved_path: &str) -> (b: bool)
        ensures
            b == pattern_matches(self.path_regex@, resolved_path@),
    {
        self.path_regex.is_match(resolved_path)
    }

    /// The rule's duration, whatever the file.
    pub fn build_cache_header(&self, _resolved_file: &ResolvedFile) -> (r: Option<Duration>)
        ensures
            r == Some(self.file_cache_duration),
            self.file_cache_duration.wf(),
    {
        proof {
            use_type_invariant(&self.file_cache_duration);
        }
        Some(self.file_cache_duration)
    }
}

/// A rule that caches matching files until a fixed duration has passed since
/// they were last modified.
#[derive(Debug)]
pub struct ModificationTimePlusDeltaCacheHeaderRule {
    pub path_regex: PathPattern,
    pub file_cache_duration: Duration,
}

impl ModificationTimePlusDeltaCacheHeaderRule {
    pub fn new(path_regex: PathPattern, file_cache_duration: Duration) -> (rule: Self)
        ensures
            rule.path_regex == path_regex,
            rule.file_cache_duration == file_cache_duration,
    {
        Self { path_regex, file_cache_duration }
    }

    /// Whether the rule applies to `resolved_path`.
    pub fn matches(&self, resolved_path: &str) -> (b: bool)
        ensures
            b == pattern_matches(self.path_regex@, resolved_path@),
    {
        self.path_regex.is_match(resolved_path)
    }

    /// Zero for a file of unknown age; otherwise the time from `now` until
    /// the file's modification time plus the rule's duration, and zero once
    /// that moment has passed. The time left has to fit a [`Duration`].
    pub fn build_cache_header(&self, resolved_file: &ResolvedFile, now: Timestamp) -> (r: Option<
        Duration,
    >)
        requires
            mod_time_header_nanos(self.file_cache_duration@, resolved_file.modified, now)
                <= duration_max_nanos(),
        ensures
            r matches Some(d) && d.wf() && d@ == mod_time_header_nanos(
                self.file_cache_duration@,
                resolved_file.modified,
                now,
            ),
    {
        match resolved_file.modified {
            None => Some(Duration::zero()),
            Some(modified) => Some(modified.until_expiry(self.file_cache_duration, now)),
        }
    }
}

/// A cache rule of either kind.
#[derive(Debug)]
pub enum CacheRule {
    FixedTime(FixedTimeCacheHeaderRule),
    ModTimePlusDelta(ModificationTimePlusDeltaCacheHeaderRule),
}

impl CacheRule {
    /// The text of the rule's path pattern.
    pub open spec fn pattern(&self) -> Seq<char> {
        match self {
            CacheRule::FixedTime(rule) => rule.path_regex@,
            CacheRule::ModTimePlusDelta(rule) => rule.path_regex@,
        }
    }

    /// The rule's kind.
    pub open spec fn rule_type(&self) -> StaticFileCacheRuleType {
        match self {
            CacheRule::FixedTime(_) => StaticFileCacheRuleType::FixedTime,
            CacheRule::ModTimePlusDelta(_) => StaticFileCacheRuleType::ModTimePlusDelta,
        }
    }

    /// The rule's configured duration.
    pub open spec fn duration(&self) -> Duration {
        match self {
            CacheRule::FixedTime(rule) => rule.file_cache_duration,
            CacheRule::ModTimePlusDelta(rule) => rule.file_cache_duration,
        }
    }

    /// Whether the rule applies to the path `path`.
    pub open spec fn applies_to(&self, path: Seq<char>) -> bool {
        pattern_matches(self.pattern(), path)
    }

    /// The freshness, in nanoseconds, that the rule gives a file last
    /// modified at `modified` when the request is served at `now`.
    pub open spec fn header_nanos(&self, modified: Option<Timestamp>, now: Timestamp) -> nat {
        match self {
            CacheRule::FixedTime(rule) => rule.file_cache_duration@,
            CacheRule::ModTimePlusDelta(rule) => mod_time_header_nanos(
                rule.file_cache_duration@,
                modified,
                now,
            ),
        }
    }

    /// Whether that freshness fits a [`Duration`]. It always does unless the
    /// file claims to have been modified after `now`.
    pub open spec fn header_fits(&self, modified: Option<Timestamp>, now: Timestamp) -> bool {
        self.header_nanos(modified, now) <= duration_max_nanos()
    }

    /// Builds the rule that `config` describes around its compiled pattern.
    pub fn new(config: &StaticFileCacheRule, path_regex: PathPattern) -> (rule: Self)
        ensures
            rule.pattern() == path_regex@,
            rule.rule_type() == config.rule_type,
            rule.duration() == config.duration,
    {
        match config.rule_type {
            StaticFileCacheRuleType::FixedTime => CacheRule::FixedTime(
                FixedTimeCacheHeaderRule::new(path_regex, config.duration),
            ),
            StaticFileCacheRuleType::ModTimePlusDelta => CacheRule::ModTimePlusDelta(
                ModificationTimePlusDeltaCacheHeaderRule::new(path_regex, config.duration),
            ),
        }
    }

    /// Whether the rule applies to `resolved_path`.
    pub fn matches(&self, resolved_path: &str) -> (b: bool)
        ensures
            b == self.applies_to(resolved_path@),
    {
        match self {
            CacheRule::FixedTime(rule) => rule.matches(resolved_path),
            CacheRule::ModTimePlusDelta(rule) => rule.matches(resolved_path),
        }
    }

    /// Tells whether [`CacheRule::build_cache_header`] can be called for
    /// this file and time.
    pub fn check_header_fits(&self, resolved_file: &ResolvedFile, now: Timestamp) -> (b: bool)
        ensures
            b == self.header_fits(resolved_file.modified, now),
    {
        match self {
            CacheRule::FixedTime(rule) => {
                proof {
                    use_type_invariant(&rule.file_cache_duration);
                    Duration::lemma_view_bounded(rule.file_cache_duration);
                }
                true
            },
            CacheRule::ModTimePlusDelta(rule) => {
                proof {
                    use_type_invariant(&rule.file_cache_duration);
                }
                match resolved_file.modified {
                    None => true,
                    Some(modified) => modified.expiry_fits(rule.file_cache_duration, now),
                }
            },
        }
    }

    /// The freshness of `resolved_file` under this rule when served at `now`.
    pub fn build_cache_header(&self, resolved_file: &ResolvedFile, now: Timestamp) -> (r: Option<
        Duration,
    >)
        requires
            self.header_fits(resolved_file.modified, now),
        ensures
            r matches Some(d) && d.wf() && d@ == self.header_nanos(resolved_file.modified, now),
    {
        match self {
            CacheRule::FixedTime(rule) => rule.build_cache_header(resolved_file),
            CacheRule::ModTimePlusDelta(rule) => {
                proof {
                    use_type_invariant(&rule.file_cache_duration);
                }
                rule.build_cache_header(resolved_file, now)
            },
        }
    }
}

/// The index of the first rule at or after `start` that applies to `path`.
pub open spec fn first_match_from(rules: Seq<CacheRule>, path: Seq<char>, start: int) -> Option<
    int,
>
    decreases rules.len() - start,
{
    if start < 0 || start >= rules.len() {
        None
    } else if rules[start].applies_to(path) {
        Some(start)
    } else {
        first_match_from(rules, path, start + 1)
    }
}

/// The index of the first rule that applies to `path`: the rule that decides.
pub open spec fn first_match(rules: Seq<CacheRule>, path: Seq<char>) -> Option<int> {
    first_match_from(rules, path, 0)
}

/// The freshness, in nanoseconds, that the rule at `selected` gives the
/// file; none where no rule was selected.
pub open spec fn selected_header_nanos(
    rules: Seq<CacheRule>,
    selected: Option<int>,
    modified: Option<Timestamp>,
    now: Timestamp,
) -> Option<nat> {
    match selected {
        Some(i) => Some(rules[i].header_nanos(modified, now)),
        None => None,
    }
}

/// The freshness, in nanoseconds, that the policy `rules` gives a file at
/// `path`, last modified at `modified`, when served at `now`; none where no
/// rule applies, in which case no caching directive is sent.
pub open spec fn cache_header_nanos(
    rules: Seq<CacheRule>,
    path: Seq<char>,
    modified: Option<Timestamp>,
    now: Timestamp,
) -> Option<nat> {
    selected_header_nanos(rules, first_match(rules, path), modified, now)
}

/// Whether the path pattern of every one of `configs` compiles.
pub open spec fn patterns_compile(configs: Seq<StaticFileCacheRule>) -> bool {
    forall|i: int|
        0 <= i < configs.len() ==> pattern_compiles((#[trigger] configs[i]).path_regex@)
}

/// Whether `index` is the position of the first of `configs` whose path
/// pattern does not compile.
pub open spec fn first_invalid_pattern(configs: Seq<StaticFileCacheRule>, index: int) -> bool {
    &&& 0 <= index < configs.len()
    &&& !pattern_compiles(configs[index].path_regex@)
    &&& forall|j: int| 0 <= j < index ==> pattern_compiles((#[trigger] configs[j]).path_regex@)
}

/// Whether `rule` is the rule that `config` describes.
pub open spec fn rule_built_from(rule: CacheRule, config: StaticFileCacheRule) -> bool {
    &&& rule.pattern() == config.path_regex@
    &&& rule.rule_type() == config.rule_type
    &&& rule.duration() == config.duration
}

/// Whether `rules` are the rules that `configs` describe, in the same order.
pub open spec fn rules_built_from(rules: Seq<CacheRule>, configs: Seq<StaticFileCacheRule>) -> bool {
    &&& rules.len() == configs.len()
    &&& forall|i: int| 0 <= i < rules.len() ==> rule_built_from(#[trigger] rules[i], configs[i])
}

/// The cache policy: cache rules in order of precedence. Its view is the
/// sequence of rules.
#[derive(Debug)]
pub struct StaticFileRulesService {
    cache_rules: Vec<CacheRule>,
}

impl View for StaticFileRulesService {
    type V = Seq<CacheRule>;

    closed spec fn view(&self) -> Seq<CacheRule> {
        self.cache_rules@
    }
}

impl StaticFileRulesService {
    /// A policy without rules: nothing is given a caching directive.
    pub fn empty() -> (service: Self)
        ensures
            service@ == Seq::<CacheRule>::empty(),
    {
        Self { cache_rules: Vec::new() }
    }

    /// The number of rules.
    pub fn len(&self) -> (n: usize)
        ensures
            n == self@.len(),
    {
        self.cache_rules.len()
    }

    /// Appends the rule that `config` describes, given the outcome of
    /// compiling its pattern. A pattern that did not compile leaves the
    /// policy as it was and is reported with the position the rule would
    /// have taken.
    pub fn push_rule(
        &mut self,
        config: &StaticFileCacheRule,
        compiled: Result<PathPattern, String>,
    ) -> (r: Result<(), RulesError>)
        ensures
            match compiled {
                Ok(path_regex) => {
                    &&& r is Ok
                    &&& final(self)@.len() == old(self)@.len() + 1
                    &&& final(self)@.drop_last() == old(self)@
                    &&& final(self)@.last().pattern() == path_regex@
                    &&& final(self)@.last().rule_type() == config.rule_type
                    &&& final(self)@.last().duration() == config.duration
                },
                Err(message) => {
                    &&& r == Err::<(), RulesError>(
                        RulesError::InvalidPattern { index: old(self)@.len() as usize, message },
                    )
                    &&& final(self)@ == old(self)@
                },
            },
    {
        match compiled {
            Ok(path_regex) => {
                self.cache_rules.push(CacheRule::new(config, path_regex));
                assert(self.cache_rules@.drop_last() =~= old(self).cache_rules@);
                Ok(())
            },
            Err(message) => Err(
                RulesError::InvalidPattern { index: self.cache_rules.len(), message },
            ),
        }
    }

    /// Builds the policy that `rule_configs` describe, compiling each path
    /// pattern in turn. The build succeeds exactly when every pattern
    /// compiles; otherwise it ends with `InvalidPattern` at the position of
    /// the first pattern that does not.
    pub fn new(rule_configs: &Vec<StaticFileCacheRule>) -> (r: Result<Self, RulesError>)
        ensures
            r is Ok <==> patterns_compile(rule_configs@),
            r matches Ok(service) ==> rules_built_from(service@, rule_configs@),
            r matches Err(RulesError::InvalidPattern { index, .. }) ==> first_invalid_pattern(
                rule_configs@,
                index as int,
            ),
    {
        let mut service = Self { cache_rules: Vec::with_capacity(rule_configs.len()) };
        let mut i: usize = 0;
        while i < rule_configs.len()
            invariant
                i <= rule_configs.len(),
                service@.len() == i,
                forall|j: int| 0 <= j < i ==> rule_built_from(#[trigger] service@[j], rule_configs@[j]),
                forall|j: int|
                    0 <= j < i ==> pattern_compiles((#[trigger] rule_configs@[j]).path_regex@),
            decreases rule_configs.len() - i,
        {
            let config = &rule_configs[i];
            let compiled = PathPattern::new(config.path_regex.as_str());
            match service.push_rule(config, compiled) {
                Err(e) => {
                    return Err(e);
                },
                Ok(()) => {
                    assert forall|j: int| 0 <= j < i + 1 implies rule_built_from(
                        #[trigger] service@[j],
                        rule_configs@[j],
                    ) by {
                        if j < i {
                            assert(service@[j] == service@.drop_last()[j]);
                        } else {
                            assert(service@[j] == service@.last());
                        }
                    }
                },
            }
            i += 1;
        }
        Ok(service)
    }

    /// The position of the first rule that applies to `resolved_path`.
    pub fn matching_rule(&self, resolved_path: &str) -> (r: Option<usize>)
        ensures
            r is Some <==> first_match(self@, resolved_path@) is Some,
            r matches Some(i) ==> i < self@.len() && first_match(self@, resolved_path@) == Some(
                i as int,
            ),
    {
        let mut i: usize = 0;
        while i < self.cache_rules.len()
            invariant
                i <= self@.len(),
                first_match(self@, resolved_path@) == first_match_from(
                    self@,
                    resolved_path@,
                    i as int,
                ),
            decreases self@.len() - i,
        {
            if self.cache_rules[i].matches(resolved_path) {
                return Some(i);
            }
            i += 1;
        }
        None
    }

    /// Tells whether [`StaticFileRulesService::selected_cache_header`] can
    /// be called for this selection, file and time; with the selection of
    /// [`StaticFileRulesService::matching_rule`], whether
    /// [`StaticFileRulesService::build_cache_header`] can be called.
    pub fn check_selected_header_fits(
        &self,
        selected: Option<usize>,
        resolved_file: &ResolvedFile,
        now: Timestamp,
    ) -> (b: bool)
        requires
            selected matches Some(i) ==> i < self@.len(),
        ensures
            b == (selected matches Some(i) ==> self@[i as int].header_fits(
                resolved_file.modified,
                now,
            )),
    {
        match selected {
            None => true,
            Some(i) => self.cache_rules[i].check_header_fits(resolved_file, now),
        }
    }

    /// The freshness of `resolved_file` under the rule at `selected`; no
    /// caching directive where no rule was selected.
    pub fn selected_cache_header(
        &self,
        selected: Option<usize>,
        resolved_file: &ResolvedFile,
        now: Timestamp,
    ) -> (r: Option<Duration>)
        requires
            selected matches Some(i) ==> i < self@.len() && self@[i as int].header_fits(
                resolved_file.modified,
                now,
            ),
        ensures
            r is Some <==> selected is Some,
            selected matches Some(i) ==> r matches Some(d) && d.wf() && d@ == self@[i as int].header_nanos(
                resolved_file.modified,
                now,
            ),
    {
        match selected {
            None => None,
            Some(i) => self.cache_rules[i].build_cache_header(resolved_file, now),
        }
    }

    /// The freshness of `resolved_file` when served at `now`: that of the
    /// first rule whose pattern matches the file's path, and no caching
    /// directive where none matches.
    pub fn build_cache_header(&self, resolved_file: &ResolvedFile, now: Timestamp) -> (r: Option<
        Duration,
    >)
        requires
            first_match(self@, resolved_file.path_text()) matches Some(i) ==> self@[i].header_fits(
                resolved_file.modified,
                now,
            ),
        ensures
            r is Some <==> first_match(self@, resolved_file.path_text()) is Some,
            r matches Some(d) ==> d.wf() && Some(d@) == cache_header_nanos(
                self@,
                resolved_file.path_text(),
                resolved_file.modified,
                now,
            ),
    {
        let selected = self.matching_rule(resolved_file.path_str());
        proof {
            lemma_first_match(self@, resolved_file.path_text());
        }
        self.selected_cache_header(selected, resolved_file, now)
    }
}

/// Builds the cache policy from the static file settings.
pub fn create_rules_service_instance(configuration: &StaticFileConfiguration) -> (r: Result<
    StaticFileRulesService,
    RulesError,
>)
    ensures
        r is Ok <==> patterns_compile(configuration.cache_rules@),
        r matches Ok(service) ==> rules_built_from(service@, configuration.cache_rules@),
        r matches Err(RulesError::InvalidPattern { index, .. }) ==> first_invalid_pattern(
            configuration.cache_rules@,
            index as int,
        ),
{
    StaticFileRulesService::new(&configuration.cache_rules)
}

proof fn lemma_first_match_from(rules: Seq<CacheRule>, path: Seq<char>, start: int)
    requires
        0 <= start,
    ensures
        match first_match_from(rules, path, start) {
            Some(i) => {
                &&& start <= i < rules.len()
                &&& rules[i].applies_to(path)
                &&& forall|j: int| start <= j < i ==> !(#[trigger] rules[j]).applies_to(path)
            },
            None => forall|j: int|
                start <= j < rules.len() ==> !(#[trigger] rules[j]).applies_to(path),
        },
    decreases rules.len() - start,
{
    if start < rules.len() && !rules[start].applies_to(path) {
        lemma_first_match_from(rules, path, start + 1);
    }
}

/// First match wins: the deciding rule applies to the path and no rule
/// before it does; where there is no deciding rule, no rule applies.
pub proof fn lemma_first_match(rules: Seq<CacheRule>, path: Seq<char>)
    ensures
        match first_match(rules, path) {
            Some(i) => {
                &&& 0 <= i < rules.len()
                &&& rules[i].applies_to(path)
                &&& forall|j: int| 0 <= j < i ==> !(#[trigger] rules[j]).applies_to(path)
            },
            None => forall|j: int| 0 <= j < rules.len() ==> !(#[trigger] rules[j]).applies_to(path),
        },
{
    lemma_first_match_from(rules, path, 0);
}

/// Any position that applies to the path with no applying rule before it is
/// the deciding one.
pub proof fn lemma_first_match_unique(rules: Seq<CacheRule>, path: Seq<char>, i: int)
    requires
        0 <= i < rules.len(),
        rules[i].applies_to(path),
        forall|j: int| 0 <= j < i ==> !(#[trigger] rules[j]).applies_to(path),
    ensures
        first_match(rules, path) == Some(i),
{
    lemma_first_match(rules, path);
}

/// Where the deciding rule is a fixed-time rule, the freshness is the rule's
/// duration, whenever the file was modified and whenever it is served.
pub proof fn lemma_fixed_time_ignores_modification_time(
    rules: Seq<CacheRule>,
    path: Seq<char>,
    modified: Option<Timestamp>,
    now: Timestamp,
)
    requires
        first_match(rules, path) matches Some(i) && rules[i] is FixedTime,
    ensures
        cache_header_nanos(rules, path, modified, now) == Some(
            rules[first_match(rules, path)->0].duration()@,
        ),
{
    lemma_first_match(rules, path);
}

/// Where the deciding rule is a modification-time rule, the freshness is
/// zero for a file of unknown age and otherwise the time left until the
/// rule's duration has passed since the modification, never negative.
pub proof fn lemma_mod_time_plus_delta(
    rules: Seq<CacheRule>,
    path: Seq<char>,
    modified: Option<Timestamp>,
    now: Timestamp,
)
    requires
        first_match(rules, path) matches Some(i) && rules[i] is ModTimePlusDelta,
    ensures
        ({
            let delta = rules[first_match(rules, path)->0].duration()@;
            cache_header_nanos(rules, path, modified, now) == Some(
                match modified {
                    None => 0nat,
                    Some(m) => if m@ + delta - now@ >= 0 {
                        (m@ + delta - now@) as nat
                    } else {
                        0nat
                    },
                },
            )
        }),
{
    lemma_first_match(rules, path);
}

} // verus!
