//! Rule severities: which issue categories are reported, as errors or as
//! warnings, and per-file overrides of them.

use vstd::prelude::*;
use crate::glob::{compiled_globs, globs_match, spec_glob_set_match};
use crate::paths::{relative_path, relative_to};
use crate::results::{AnalysisResults, UnresolvedImport, UnusedExport, UnusedFile, UnusedMember};
use crate::text::string_views;

verus! {

/// How the findings of one rule are treated.
#[derive(Clone, Copy, Debug, PartialEq, Eq, Structural)]
pub enum Severity {
    /// Reported, and they fail the run.
    Error,
    /// Reported, but they do not fail the run.
    Warn,
    /// Not reported.
    Off,
}

/// The rules, one per issue category.
#[derive(Clone, Copy, Debug, PartialEq, Eq, Structural)]
pub enum RuleKind {
    UnusedFiles,
    UnusedExports,
    UnusedTypes,
    UnusedDependencies,
    UnusedDevDependencies,
    UnusedOptionalDependencies,
    UnusedEnumMembers,
    UnusedClassMembers,
    UnresolvedImports,
    UnlistedDependencies,
    DuplicateExports,
    TypeOnlyDependencies,
    CircularDependencies,
}

/// The severity of every rule.
#[derive(Clone, Copy, Debug, PartialEq, Eq, Structural)]
pub struct RulesConfig {
    pub unused_files: Severity,
    pub unused_exports: Severity,
    pub unused_types: Severity,
    pub unused_dependencies: Severity,
    pub unused_dev_dependencies: Severity,
    pub unused_optional_dependencies: Severity,
    pub unused_enum_members: Severity,
    pub unused_class_members: Severity,
    pub unresolved_imports: Severity,
    pub unlisted_dependencies: Severity,
    pub duplicate_exports: Severity,
    pub type_only_dependencies: Severity,
    pub circular_dependencies: Severity,
}

/// Every rule at the same severity.
pub open spec fn uniform_rules(s: Severity) -> RulesConfig {
    RulesConfig {
        unused_files: s,
        unused_exports: s,
        unused_types: s,
        unused_dependencies: s,
        unused_dev_dependencies: s,
        unused_optional_dependencies: s,
        unused_enum_members: s,
        unused_class_members: s,
        unresolved_imports: s,
        unlisted_dependencies: s,
        duplicate_exports: s,
        type_only_dependencies: s,
        circular_dependencies: s,
    }
}

impl Default for RulesConfig {
    /// Every rule is an error.
    fn default() -> (r: RulesConfig)
        ensures
            r == uniform_rules(Severity::Error),
    {
        RulesConfig {
            unused_files: Severity::Error,
            unused_exports: Severity::Error,
            unused_types: Severity::Error,
            unused_dependencies: Severity::Error,
            unused_dev_dependencies: Severity::Error,
            unused_optional_dependencies: Severity::Error,
            unused_enum_members: Severity::Error,
            unused_class_members: Severity::Error,
            unresolved_imports: Severity::Error,
            unlisted_dependencies: Severity::Error,
            duplicate_exports: Severity::Error,
            type_only_dependencies: Severity::Error,
            circular_dependencies: Severity::Error,
        }
    }
}

impl RulesConfig {
    /// The severity of rule `k`.
    pub open spec fn severity(&self, k: RuleKind) -> Severity {
        match k {
            RuleKind::UnusedFiles => self.unused_files,
            RuleKind::UnusedExports => self.unused_exports,
            RuleKind::UnusedTypes => self.unused_types,
            RuleKind::UnusedDependencies => self.unused_dependencies,
            RuleKind::UnusedDevDependencies => self.unused_dev_dependencies,
            RuleKind::UnusedOptionalDependencies => self.unused_optional_dependencies,
            RuleKind::UnusedEnumMembers => self.unused_enum_members,
            RuleKind::UnusedClassMembers => self.unused_class_members,
            RuleKind::UnresolvedImports => self.unresolved_imports,
            RuleKind::UnlistedDependencies => self.unlisted_dependencies,
            RuleKind::DuplicateExports => self.duplicate_exports,
            RuleKind::TypeOnlyDependencies => self.type_only_dependencies,
            RuleKind::CircularDependencies => self.circular_dependencies,
        }
    }

    /// These rules with rule `k` set to `s`.
    pub open spec fn with(self, k: RuleKind, s: Severity) -> RulesConfig {
        match k {
            RuleKind::UnusedFiles => RulesConfig { unused_files: s, ..self },
            RuleKind::UnusedExports => RulesConfig { unused_exports: s, ..self },
            RuleKind::UnusedTypes => RulesConfig { unused_types: s, ..self },
            RuleKind::UnusedDependencies => RulesConfig { unused_dependencies: s, ..self },
            RuleKind::UnusedDevDependencies => RulesConfig { unused_dev_dependencies: s, ..self },
            RuleKind::UnusedOptionalDependencies => RulesConfig {
                unused_optional_dependencies: s,
                ..self
            },
            RuleKind::UnusedEnumMembers => RulesConfig { unused_enum_members: s, ..self },
            RuleKind::UnusedClassMembers => RulesConfig { unused_class_members: s, ..self },
            RuleKind::UnresolvedImports => RulesConfig { unresolved_imports: s, ..self },
            RuleKind::UnlistedDependencies => RulesConfig { unlisted_dependencies: s, ..self },
            RuleKind::DuplicateExports => RulesConfig { duplicate_exports: s, ..self },
            RuleKind::TypeOnlyDependencies => RulesConfig { type_only_dependencies: s, ..self },
            RuleKind::CircularDependencies => RulesConfig { circular_dependencies: s, ..self },
        }
    }

    /// The severity of rule `k`.
    pub fn get(&self, k: RuleKind) -> (s: Severity)
        ensures
            s == self.severity(k),
    {
        match k {
            RuleKind::UnusedFiles => self.unused_files,
            RuleKind::UnusedExports => self.unused_exports,
            RuleKind::UnusedTypes => self.unused_types,
            RuleKind::UnusedDependencies => self.unused_dependencies,
            RuleKind::UnusedDevDependencies => self.unused_dev_dependencies,
            RuleKind::UnusedOptionalDependencies => self.unused_optional_dependencies,
            RuleKind::UnusedEnumMembers => self.unused_enum_members,
            RuleKind::UnusedClassMembers => self.unused_class_members,
            RuleKind::UnresolvedImports => self.unresolved_imports,
            RuleKind::UnlistedDependencies => self.unlisted_dependencies,
            RuleKind::DuplicateExports => self.duplicate_exports,
            RuleKind::TypeOnlyDependencies => self.type_only_dependencies,
            RuleKind::CircularDependencies => self.circular_dependencies,
        }
    }

    /// Sets rule `k` to `s`.
    pub fn set(&mut self, k: RuleKind, s: Severity)
        ensures
            *final(self) == old(self).with(k, s),
    {
        match k {
            RuleKind::UnusedFiles => self.unused_files = s,
            RuleKind::UnusedExports => self.unused_exports = s,
            RuleKind::UnusedTypes => self.unused_types = s,
            RuleKind::UnusedDependencies => self.unused_dependencies = s,
            RuleKind::UnusedDevDependencies => self.unused_dev_dependencies = s,
            RuleKind::UnusedOptionalDependencies => self.unused_optional_dependencies = s,
            RuleKind::UnusedEnumMembers => self.unused_enum_members = s,
            RuleKind::UnusedClassMembers => self.unused_class_members = s,
            RuleKind::UnresolvedImports => self.unresolved_imports = s,
            RuleKind::UnlistedDependencies => self.unlisted_dependencies = s,
            RuleKind::DuplicateExports => self.duplicate_exports = s,
            RuleKind::TypeOnlyDependencies => self.type_only_dependencies = s,
            RuleKind::CircularDependencies => self.circular_dependencies = s,
        }
    }
}

/// One rule set to one severity by an override.
#[derive(Clone, Copy, Debug, PartialEq, Eq, Structural)]
pub struct RuleSetting {
    pub kind: RuleKind,
    pub severity: Severity,
}

/// Rule settings that apply to the files matching any of some globs.
pub struct RuleOverride {
    /// Glob patterns, matched against paths relative to the project root.
    pub files: Vec<String>,
    /// The settings, applied in order.
    pub rules: Vec<RuleSetting>,
}

/// The configured rules of a project: base severities and overrides.
pub struct ResolvedRules {
    /// Project root; override globs match paths relative to it.
    pub root: String,
    /// The base severities.
    pub rules: RulesConfig,
    /// Overrides, applied in order after the base severities.
    pub overrides: Vec<RuleOverride>,
}

/// `rules` after the settings `s`, applied in order.
pub open spec fn apply_settings(rules: RulesConfig, s: Seq<RuleSetting>) -> RulesConfig
    decreases s.len(),
{
    if s.len() == 0 {
        rules
    } else {
        apply_settings(rules, s.drop_last()).with(s.last().kind, s.last().severity)
    }
}

/// Whether an override applies to a path (relative to the project root).
pub open spec fn override_matches(o: RuleOverride, rel: Seq<char>) -> bool {
    compiled_globs(string_views(o.files@)).len() > 0
        && spec_glob_set_match(compiled_globs(string_views(o.files@)), rel)
}

/// The base rules after every override that matches `rel`, in order.
pub open spec fn resolve_rules(base: RulesConfig, overrides: Seq<RuleOverride>, rel: Seq<char>) -> RulesConfig
    decreases overrides.len(),
{
    if overrides.len() == 0 {
        base
    } else {
        let prev = resolve_rules(base, overrides.drop_last(), rel);
        if override_matches(overrides.last(), rel) {
            apply_settings(prev, overrides.last().rules@)
        } else {
            prev
        }
    }
}

/// Setting rule `k` changes rule `k` and no other.
proof fn lemma_with_severity(r: RulesConfig, k: RuleKind, s: Severity, k2: RuleKind)
    ensures
        r.with(k, s).severity(k2) == if k2 == k { s } else { r.severity(k2) },
{
}

/// Whether setting `i` of `s` is the last one for rule `k`.
pub open spec fn last_setting_of(s: Seq<RuleSetting>, k: RuleKind, i: int) -> bool {
    &&& 0 <= i < s.len()
    &&& s[i].kind == k
    &&& forall|j: int| i < j < s.len() ==> (#[trigger] s[j]).kind != k
}

/// Whether some setting of `s` is for rule `k`.
pub open spec fn sets_rule(s: Seq<RuleSetting>, k: RuleKind) -> bool {
    exists|i: int| 0 <= i < s.len() && (#[trigger] s[i]).kind == k
}

/// Applying settings in order, the last setting of each rule wins; a rule
/// no setting names keeps its severity.
pub proof fn law_last_setting_wins(rules: RulesConfig, s: Seq<RuleSetting>, k: RuleKind)
    ensures
        !sets_rule(s, k) ==> apply_settings(rules, s).severity(k) == rules.severity(k),
        forall|i: int| #[trigger] last_setting_of(s, k, i) ==> apply_settings(rules, s).severity(k) == s[i].severity,
    decreases s.len(),
{
    if s.len() > 0 {
        let d = s.drop_last();
        law_last_setting_wins(rules, d, k);
        lemma_with_severity(apply_settings(rules, d), s.last().kind, s.last().severity, k);
        if !sets_rule(s, k) {
            assert(!sets_rule(d, k)) by {
                if sets_rule(d, k) {
                    let i = choose|i: int| 0 <= i < d.len() && (#[trigger] d[i]).kind == k;
                    assert(s[i] == d[i]);
                }
            }
            assert(s[s.len() - 1].kind != k);
        }
        assert forall|i: int| #[trigger] last_setting_of(s, k, i) implies apply_settings(rules, s).severity(k) == s[i].severity by {
            if i < s.len() - 1 {
                assert(s[s.len() - 1].kind != k);
                assert(last_setting_of(d, k, i)) by {
                    assert forall|j: int| i < j < d.len() implies (#[trigger] d[j]).kind != k by {
                        assert(d[j] == s[j]);
                    }
                }
            }
        }
    }
}

/// Whether override `o` applies to `rel` and sets rule `k`.
pub open spec fn override_sets(o: RuleOverride, rel: Seq<char>, k: RuleKind) -> bool {
    override_matches(o, rel) && sets_rule(o.rules@, k)
}

/// For a path, each rule has the severity of its last setting in the last
/// override that applies to the path and sets it; a rule that no applying
/// override sets keeps its base severity.
pub proof fn law_last_matching_override_wins(
    base: RulesConfig,
    overrides: Seq<RuleOverride>,
    rel: Seq<char>,
    k: RuleKind,
)
    ensures
        (forall|q: int| 0 <= q < overrides.len() ==> !override_sets(#[trigger] overrides[q], rel, k))
            ==> resolve_rules(base, overrides, rel).severity(k) == base.severity(k),
        forall|q: int, i: int|
            0 <= q < overrides.len() && override_matches(#[trigger] overrides[q], rel)
            && #[trigger] last_setting_of(overrides[q].rules@, k, i)
            && (forall|q2: int| q < q2 < overrides.len() ==> !override_sets(#[trigger] overrides[q2], rel, k))
            ==> resolve_rules(base, overrides, rel).severity(k) == overrides[q].rules@[i].severity,
    decreases overrides.len(),
{
    if overrides.len() > 0 {
        let d = overrides.drop_last();
        let o = overrides.last();
        let prev = resolve_rules(base, d, rel);
        law_last_matching_override_wins(base, d, rel, k);
        law_last_setting_wins(prev, o.rules@, k);
        let last_sets = override_sets(o, rel, k);
        if !last_sets {
            assert(resolve_rules(base, overrides, rel).severity(k) == prev.severity(k));
        }
        if forall|q: int| 0 <= q < overrides.len() ==> !override_sets(#[trigger] overrides[q], rel, k) {
            assert(!override_sets(overrides[overrides.len() - 1], rel, k));
            assert forall|q: int| 0 <= q < d.len() implies !override_sets(#[trigger] d[q], rel, k) by {
                assert(d[q] == overrides[q]);
            }
        }
        assert forall|q: int, i: int|
            0 <= q < overrides.len() && override_matches(#[trigger] overrides[q], rel)
            && #[trigger] last_setting_of(overrides[q].rules@, k, i)
            && (forall|q2: int| q < q2 < overrides.len() ==> !override_sets(#[trigger] overrides[q2], rel, k))
            implies resolve_rules(base, overrides, rel).severity(k) == overrides[q].rules@[i].severity by {
            if q == overrides.len() - 1 {
                assert(last_setting_of(o.rules@, k, i));
            } else {
                assert(!override_sets(overrides[overrides.len() - 1], rel, k));
                assert(d[q] == overrides[q]);
                assert forall|q2: int| q < q2 < d.len() implies !override_sets(#[trigger] d[q2], rel, k) by {
                    assert(d[q2] == overrides[q2]);
                }
            }
        }
    }
}

impl ResolvedRules {
    /// Whether any override is configured.
    pub open spec fn has_overrides(&self) -> bool {
        self.overrides@.len() > 0
    }

    /// The rules in force for the file at `path`.
    pub open spec fn rules_at(&self, path: Seq<char>) -> RulesConfig {
        resolve_rules(self.rules, self.overrides@, relative_to(path, self.root@))
    }

    /// The rules in force for the file at `path`: the base rules after
    /// every override whose globs match the path relative to the root.
    pub fn resolve_rules_for_path(&self, path: &str) -> (r: RulesConfig)
        ensures
            r == self.rules_at(path@),
    {
        let rel = relative_path(path, self.root.as_str());
        let mut r = self.rules;
        let mut i: usize = 0;
        while i < self.overrides.len()
            invariant
                i <= self.overrides@.len(),
                r == resolve_rules(self.rules, self.overrides@.take(i as int), rel@),
                rel@ == relative_to(path@, self.root@),
            decreases self.overrides@.len() - i,
        {
            let o = &self.overrides[i];
            assert(self.overrides@.take(i + 1).drop_last() =~= self.overrides@.take(i as int));
            if globs_match(&o.files, rel.as_str()) {
                let mut j: usize = 0;
                let ghost prev = r;
                assert(o.rules@.take(0) =~= Seq::<RuleSetting>::empty());
                while j < o.rules.len()
                    invariant
                        j <= o.rules@.len(),
                        r == apply_settings(prev, o.rules@.take(j as int)),
                    decreases o.rules@.len() - j,
                {
                    assert(o.rules@.take(j + 1).drop_last() =~= o.rules@.take(j as int));
                    let st = o.rules[j];
                    r.set(st.kind, st.severity);
                    j = j + 1;
                }
                assert(o.rules@.take(o.rules@.len() as int) =~= o.rules@);
            }
            i = i + 1;
        }
        assert(self.overrides@.take(self.overrides@.len() as int) =~= self.overrides@);
        r
    }
}

/// A finding that belongs to one file.
pub trait Located: Sized {
    /// The file's path.
    spec fn path_view(&self) -> Seq<char>;

    /// The file's path.
    fn path_str(&self) -> (p: &str)
        ensures
            p@ == self.path_view(),
    ;
}

impl Located for UnusedFile {
    open spec fn path_view(&self) -> Seq<char> {
        self.path@
    }

    fn path_str(&self) -> (p: &str) {
        self.path.as_str()
    }
}

impl Located for UnusedExport {
    open spec fn path_view(&self) -> Seq<char> {
        self.path@
    }

    fn path_str(&self) -> (p: &str) {
        self.path.as_str()
    }
}

impl Located for UnusedMember {
    open spec fn path_view(&self) -> Seq<char> {
        self.path@
    }

    fn path_str(&self) -> (p: &str) {
        self.path.as_str()
    }
}

impl Located for UnresolvedImport {
    open spec fn path_view(&self) -> Seq<char> {
        self.path@
    }

    fn path_str(&self) -> (p: &str) {
        self.path.as_str()
    }
}

/// Whether rule `k` is not off for the file of `x`.
pub open spec fn not_off_at<T: Located>(config: &ResolvedRules, k: RuleKind, x: T) -> bool {
    config.rules_at(x.path_view()).severity(k) != Severity::Off
}

/// The findings of a file-scoped category that `apply_rules` keeps: with
/// overrides, those whose file's rule is not off; without, all or none as
/// the base rule says.
pub open spec fn kept_per_file<T: Located>(v: Seq<T>, config: &ResolvedRules, k: RuleKind) -> Seq<T> {
    if config.has_overrides() {
        v.filter(|x: T| not_off_at(config, k, x))
    } else {
        kept_by_base(v, config.rules, k)
    }
}

/// The findings of a category that the base rule `k` keeps: none when it
/// is off, else all.
pub open spec fn kept_by_base<T>(v: Seq<T>, rules: RulesConfig, k: RuleKind) -> Seq<T> {
    if rules.severity(k) == Severity::Off {
        Seq::empty()
    } else {
        v
    }
}

/// Keeps the findings whose file's rule `k` is not off.
fn retain_not_off<T: Located>(v: &mut Vec<T>, config: &ResolvedRules, k: RuleKind)
    ensures
        final(v)@ == old(v)@.filter(|x: T| not_off_at(config, k, x)),
{
    let ghost pred = |x: T| not_off_at(config, k, x);
    let mut all: Vec<T> = Vec::new();
    std::mem::swap(v, &mut all);
    let ghost s = all@;
    for x in it: all
        invariant
            pred == (|x: T| not_off_at(config, k, x)),
            it.seq() == s,
            v@ == s.take(it.index() as int).filter(pred),
    {
        let ghost i = it.index();
        proof {
            assert(s.take(i + 1) =~= s.take(i as int).push(x));
            s.take(i as int).lemma_filter_push(x, pred);
        }
        let r = config.resolve_rules_for_path(x.path_str());
        if r.get(k) != Severity::Off {
            v.push(x);
        }
    }
    assert(s.take(s.len() as int) =~= s);
}

/// Clears the findings when the base rule `k` is off.
fn clear_if_off<T>(v: &mut Vec<T>, rules: &RulesConfig, k: RuleKind)
    ensures
        final(v)@ == kept_by_base(old(v)@, *rules, k),
{
    if rules.get(k) == Severity::Off {
        v.clear();
    }
}

/// Applies the rules of a file-scoped category.
fn apply_file_rule<T: Located>(v: &mut Vec<T>, config: &ResolvedRules, k: RuleKind)
    ensures
        final(v)@ == kept_per_file(old(v)@, config, k),
{
    if config.overrides.len() > 0 {
        retain_not_off(v, config, k);
    } else {
        clear_if_off(v, &config.rules, k);
    }
}

/// Whether `r` is `old` with the findings of every rule that is off
/// removed: per file for file-scoped categories, by the base rules for the
/// others. Test-only dependencies and boundary violations are untouched.
pub open spec fn rules_applied(r: &AnalysisResults, old: &AnalysisResults, config: &ResolvedRules) -> bool {
    let base = config.rules;
    &&& r.unused_files@ == kept_per_file(old.unused_files@, config, RuleKind::UnusedFiles)
    &&& r.unused_exports@ == kept_per_file(old.unused_exports@, config, RuleKind::UnusedExports)
    &&& r.unused_types@ == kept_per_file(old.unused_types@, config, RuleKind::UnusedTypes)
    &&& r.unused_enum_members@ == kept_per_file(
        old.unused_enum_members@,
        config,
        RuleKind::UnusedEnumMembers,
    )
    &&& r.unused_class_members@ == kept_per_file(
        old.unused_class_members@,
        config,
        RuleKind::UnusedClassMembers,
    )
    &&& r.unresolved_imports@ == kept_per_file(
        old.unresolved_imports@,
        config,
        RuleKind::UnresolvedImports,
    )
    &&& r.unused_dependencies@ == kept_by_base(
        old.unused_dependencies@,
        base,
        RuleKind::UnusedDependencies,
    )
    &&& r.unused_dev_dependencies@ == kept_by_base(
        old.unused_dev_dependencies@,
        base,
        RuleKind::UnusedDevDependencies,
    )
    &&& r.unused_optional_dependencies@ == kept_by_base(
        old.unused_optional_dependencies@,
        base,
        RuleKind::UnusedOptionalDependencies,
    )
    &&& r.unlisted_dependencies@ == kept_by_base(
        old.unlisted_dependencies@,
        base,
        RuleKind::UnlistedDependencies,
    )
    &&& r.duplicate_exports@ == kept_by_base(
        old.duplicate_exports@,
        base,
        RuleKind::DuplicateExports,
    )
    &&& r.type_only_dependencies@ == kept_by_base(
        old.type_only_dependencies@,
        base,
        RuleKind::TypeOnlyDependencies,
    )
    &&& r.circular_dependencies@ == kept_by_base(
        old.circular_dependencies@,
        base,
        RuleKind::CircularDependencies,
    )
    &&& r.test_only_dependencies@ == old.test_only_dependencies@
    &&& r.boundary_violations@ == old.boundary_violations@
}

/// Removes the findings whose effective severity is `Off`.
///
/// When overrides are configured, file-scoped categories (files, exports,
/// types, enum and class members, unresolved imports) are filtered per
/// file; the other categories always follow the base rules.
pub fn apply_rules(results: &mut AnalysisResults, config: &ResolvedRules)
    ensures
        rules_applied(final(results), old(results), config),
{
    apply_file_rule(&mut results.unused_files, config, RuleKind::UnusedFiles);
    apply_file_rule(&mut results.unused_exports, config, RuleKind::UnusedExports);
    apply_file_rule(&mut results.unused_types, config, RuleKind::UnusedTypes);
    apply_file_rule(&mut results.unused_enum_members, config, RuleKind::UnusedEnumMembers);
    apply_file_rule(&mut results.unused_class_members, config, RuleKind::UnusedClassMembers);
    apply_file_rule(&mut results.unresolved_imports, config, RuleKind::UnresolvedImports);
    let base = &config.rules;
    clear_if_off(&mut results.unused_dependencies, base, RuleKind::UnusedDependencies);
    clear_if_off(&mut results.unused_dev_dependencies, base, RuleKind::UnusedDevDependencies);
    clear_if_off(
        &mut results.unused_optional_dependencies,
        base,
        RuleKind::UnusedOptionalDependencies,
    );
    clear_if_off(&mut results.unlisted_dependencies, base, RuleKind::UnlistedDependencies);
    clear_if_off(&mut results.duplicate_exports, base, RuleKind::DuplicateExports);
    clear_if_off(&mut results.type_only_dependencies, base, RuleKind::TypeOnlyDependencies);
    clear_if_off(&mut results.circular_dependencies, base, RuleKind::CircularDependencies);
}

/// Whether some finding's file has rule `k` at `Error`.
pub open spec fn any_error_at<T: Located>(v: Seq<T>, config: &ResolvedRules, k: RuleKind) -> bool {
    exists|i: int| 0 <= i < v.len() && #[trigger] config.rules_at(v[i].path_view()).severity(k) == Severity::Error
}

/// Whether the base rule `k` is `Error` and there are findings.
pub open spec fn base_error<T>(v: Seq<T>, rules: RulesConfig, k: RuleKind) -> bool {
    rules.severity(k) == Severity::Error && v.len() > 0
}

/// Whether a file-scoped category holds an error: per file when overrides
/// are configured, else by the base rule.
pub open spec fn file_scoped_error<T: Located>(
    v: Seq<T>,
    rules: RulesConfig,
    config: Option<&ResolvedRules>,
    k: RuleKind,
) -> bool {
    match config {
        Some(c) => if c.has_overrides() {
            any_error_at(v, c, k)
        } else {
            base_error(v, rules, k)
        },
        None => base_error(v, rules, k),
    }
}

/// Whether any category with severity `Error` still has findings.
pub open spec fn error_severity_issues(
    r: &AnalysisResults,
    rules: RulesConfig,
    config: Option<&ResolvedRules>,
) -> bool {
    ||| file_scoped_error(r.unused_files@, rules, config, RuleKind::UnusedFiles)
    ||| file_scoped_error(r.unused_exports@, rules, config, RuleKind::UnusedExports)
    ||| file_scoped_error(r.unused_types@, rules, config, RuleKind::UnusedTypes)
    ||| file_scoped_error(r.unused_enum_members@, rules, config, RuleKind::UnusedEnumMembers)
    ||| file_scoped_error(r.unused_class_members@, rules, config, RuleKind::UnusedClassMembers)
    ||| file_scoped_error(r.unresolved_imports@, rules, config, RuleKind::UnresolvedImports)
    ||| base_error(r.unused_dependencies@, rules, RuleKind::UnusedDependencies)
    ||| base_error(r.unused_dev_dependencies@, rules, RuleKind::UnusedDevDependencies)
    ||| base_error(r.unused_optional_dependencies@, rules, RuleKind::UnusedOptionalDependencies)
    ||| base_error(r.unlisted_dependencies@, rules, RuleKind::UnlistedDependencies)
    ||| base_error(r.duplicate_exports@, rules, RuleKind::DuplicateExports)
    ||| base_error(r.type_only_dependencies@, rules, RuleKind::TypeOnlyDependencies)
    ||| base_error(r.circular_dependencies@, rules, RuleKind::CircularDependencies)
}

/// Whether some finding's file has rule `k` at `Error`.
fn any_error_in<T: Located>(v: &Vec<T>, config: &ResolvedRules, k: RuleKind) -> (b: bool)
    ensures
        b == any_error_at(v@, config, k),
{
    let mut i: usize = 0;
    while i < v.len()
        invariant
            i <= v@.len(),
            forall|j: int| 0 <= j < i ==> #[trigger] config.rules_at(v@[j].path_view()).severity(k)
                != Severity::Error,
        decreases v@.len() - i,
    {
        let r = config.resolve_rules_for_path(v[i].path_str());
        if r.get(k) == Severity::Error {
            return true;
        }
        i = i + 1;
    }
    false
}

/// Whether a file-scoped category holds an error.
fn file_error<T: Located>(
    v: &Vec<T>,
    rules: &RulesConfig,
    config: Option<&ResolvedRules>,
    k: RuleKind,
) -> (b: bool)
    ensures
        b == file_scoped_error(v@, *rules, config, k),
{
    match config {
        Some(c) => if c.overrides.len() > 0 {
            any_error_in(v, c, k)
        } else {
            rules.get(k) == Severity::Error && v.len() > 0
        },
        None => rules.get(k) == Severity::Error && v.len() > 0,
    }
}

/// Whether any issue category with severity `Error` has remaining
/// findings. With overrides in `config`, file-scoped categories are judged
/// per file by the rules resolved from `config`; the other categories, and
/// all of them without overrides, by `rules`.
pub fn has_error_severity_issues(
    results: &AnalysisResults,
    rules: &RulesConfig,
    config: Option<&ResolvedRules>,
) -> (b: bool)
    ensures
        b == error_severity_issues(results, *rules, config),
{
    file_error(&results.unused_files, rules, config, RuleKind::UnusedFiles)
        || file_error(&results.unused_exports, rules, config, RuleKind::UnusedExports)
        || file_error(&results.unused_types, rules, config, RuleKind::UnusedTypes)
        || file_error(&results.unused_enum_members, rules, config, RuleKind::UnusedEnumMembers)
        || file_error(&results.unused_class_members, rules, config, RuleKind::UnusedClassMembers)
        || file_error(&results.unresolved_imports, rules, config, RuleKind::UnresolvedImports)
        || (rules.unused_dependencies == Severity::Error && results.unused_dependencies.len() > 0)
        || (rules.unused_dev_dependencies == Severity::Error
            && results.unused_dev_dependencies.len() > 0)
        || (rules.unused_optional_dependencies == Severity::Error
            && results.unused_optional_dependencies.len() > 0)
        || (rules.unlisted_dependencies == Severity::Error
            && results.unlisted_dependencies.len() > 0)
        || (rules.duplicate_exports == Severity::Error && results.duplicate_exports.len() > 0)
        || (rules.type_only_dependencies == Severity::Error
            && results.type_only_dependencies.len() > 0)
        || (rules.circular_dependencies == Severity::Error
            && results.circular_dependencies.len() > 0)
}

/// `s`, with `Warn` raised to `Error`.
pub open spec fn promoted(s: Severity) -> Severity {
    if s == Severity::Warn {
        Severity::Error
    } else {
        s
    }
}

/// Every rule of `r` with `Warn` raised to `Error`.
pub open spec fn promote_all(r: RulesConfig) -> RulesConfig {
    RulesConfig {
        unused_files: promoted(r.unused_files),
        unused_exports: promoted(r.unused_exports),
        unused_types: promoted(r.unused_types),
        unused_dependencies: promoted(r.unused_dependencies),
        unused_dev_dependencies: promoted(r.unused_dev_dependencies),
        unused_optional_dependencies: promoted(r.unused_optional_dependencies),
        unused_enum_members: promoted(r.unused_enum_members),
        unused_class_members: promoted(r.unused_class_members),
        unresolved_imports: promoted(r.unresolved_imports),
        unlisted_dependencies: promoted(r.unlisted_dependencies),
        duplicate_exports: promoted(r.duplicate_exports),
        type_only_dependencies: promoted(r.type_only_dependencies),
        circular_dependencies: promoted(r.circular_dependencies),
    }
}

/// `s`, with `Warn` raised to `Error`.
fn promote_one(s: &mut Severity)
    ensures
        *final(s) == promoted(*old(s)),
{
    if *s == Severity::Warn {
        *s = Severity::Error;
    }
}

/// Promotes every `Warn` severity to `Error` for a single run.
pub fn promote_warns_to_errors(rules: &mut RulesConfig)
    ensures
        *final(rules) == promote_all(*old(rules)),
{
    promote_one(&mut rules.unused_files);
    promote_one(&mut rules.unused_exports);
    promote_one(&mut rules.unused_types);
    promote_one(&mut rules.unused_dependencies);
    promote_one(&mut rules.unused_dev_dependencies);
    promote_one(&mut rules.unused_optional_dependencies);
    promote_one(&mut rules.unused_enum_members);
    promote_one(&mut rules.unused_class_members);
    promote_one(&mut rules.unresolved_imports);
    promote_one(&mut rules.unlisted_dependencies);
    promote_one(&mut rules.duplicate_exports);
    promote_one(&mut rules.type_only_dependencies);
    promote_one(&mut rules.circular_dependencies);
}

/// After promotion no rule is `Warn`, `Off` rules stay `Off`, and promoting
/// again changes nothing.
pub proof fn law_promotion_leaves_no_warnings(r: RulesConfig, k: RuleKind)
    ensures
        promote_all(r).severity(k) != Severity::Warn,
        r.severity(k) == Severity::Off <==> promote_all(r).severity(k) == Severity::Off,
        promote_all(promote_all(r)) == promote_all(r),
{
    let p = promote_all(r);
    assert(promote_all(p) == p);
    match k {
        RuleKind::UnusedFiles => {},
        RuleKind::UnusedExports => {},
        RuleKind::UnusedTypes => {},
        RuleKind::UnusedDependencies => {},
        RuleKind::UnusedDevDependencies => {},
        RuleKind::UnusedOptionalDependencies => {},
        RuleKind::UnusedEnumMembers => {},
        RuleKind::UnusedClassMembers => {},
        RuleKind::UnresolvedImports => {},
        RuleKind::UnlistedDependencies => {},
        RuleKind::DuplicateExports => {},
        RuleKind::TypeOnlyDependencies => {},
        RuleKind::CircularDependencies => {},
    }
}

/// With no overrides and no rule off, applying the rules removes nothing.
pub proof fn law_rules_without_off_keep_everything(
    r: &AnalysisResults,
    old: &AnalysisResults,
    config: &ResolvedRules,
)
    requires
        !config.has_overrides(),
        forall|k: RuleKind| config.rules.severity(k) != Severity::Off,
        rules_applied(r, old, config),
    ensures
        r.issue_count() == old.issue_count(),
        r.unused_files@ == old.unused_files@,
        r.unused_exports@ == old.unused_exports@,
        r.unused_dependencies@ == old.unused_dependencies@,
{
    assert(config.rules.severity(RuleKind::UnusedFiles) != Severity::Off);
    assert(config.rules.severity(RuleKind::UnusedExports) != Severity::Off);
    assert(config.rules.severity(RuleKind::UnusedTypes) != Severity::Off);
    assert(config.rules.severity(RuleKind::UnusedDependencies) != Severity::Off);
    assert(config.rules.severity(RuleKind::UnusedDevDependencies) != Severity::Off);
    assert(config.rules.severity(RuleKind::UnusedOptionalDependencies) != Severity::Off);
    assert(config.rules.severity(RuleKind::UnusedEnumMembers) != Severity::Off);
    assert(config.rules.severity(RuleKind::UnusedClassMembers) != Severity::Off);
    assert(config.rules.severity(RuleKind::UnresolvedImports) != Severity::Off);
    assert(config.rules.severity(RuleKind::UnlistedDependencies) != Severity::Off);
    assert(config.rules.severity(RuleKind::DuplicateExports) != Severity::Off);
    assert(config.rules.severity(RuleKind::TypeOnlyDependencies) != Severity::Off);
    assert(config.rules.severity(RuleKind::CircularDependencies) != Severity::Off);
}

/// With every base rule off and no overrides, applying the rules leaves
/// only test-only dependencies and boundary violations, and nothing is an
/// error afterwards.
pub proof fn law_all_off_clears_rule_categories(
    r: &AnalysisResults,
    old: &AnalysisResults,
    config: &ResolvedRules,
)
    requires
        !config.has_overrides(),
        config.rules == uniform_rules(Severity::Off),
        rules_applied(r, old, config),
    ensures
        r.issue_count() == old.test_only_dependencies@.len() + old.boundary_violations@.len(),
        !error_severity_issues(r, config.rules, Some(config)),
{
}

/// After promoting warnings, with no overrides, the results hold an error
/// exactly when some category whose rule is not off has findings.
pub proof fn law_promoted_errors_are_all_findings(r: &AnalysisResults, rules: RulesConfig)
    ensures
        error_severity_issues(r, promote_all(rules), None) <==> {
        ||| (rules.unused_files != Severity::Off && r.unused_files@.len() > 0)
        ||| (rules.unused_exports != Severity::Off && r.unused_exports@.len() > 0)
        ||| (rules.unused_types != Severity::Off && r.unused_types@.len() > 0)
        ||| (rules.unused_enum_members != Severity::Off && r.unused_enum_members@.len() > 0)
        ||| (rules.unused_class_members != Severity::Off && r.unused_class_members@.len() > 0)
        ||| (rules.unresolved_imports != Severity::Off && r.unresolved_imports@.len() > 0)
        ||| (rules.unused_dependencies != Severity::Off && r.unused_dependencies@.len() > 0)
        ||| (rules.unused_dev_dependencies != Severity::Off && r.unused_dev_dependencies@.len() > 0)
        ||| (rules.unused_optional_dependencies != Severity::Off
            && r.unused_optional_dependencies@.len() > 0)
        ||| (rules.unlisted_dependencies != Severity::Off && r.unlisted_dependencies@.len() > 0)
        ||| (rules.duplicate_exports != Severity::Off && r.duplicate_exports@.len() > 0)
        ||| (rules.type_only_dependencies != Severity::Off && r.type_only_dependencies@.len() > 0)
        ||| (rules.circular_dependencies != Severity::Off && r.circular_dependencies@.len() > 0)
    },
{
}

/// Results with no findings hold no error, whatever the rules.
pub proof fn law_no_findings_no_errors(
    r: &AnalysisResults,
    rules: RulesConfig,
    config: Option<&ResolvedRules>,
)
    requires
        r.issue_count() == 0,
    ensures
        !error_severity_issues(r, rules, config),
{
}

} // verus!
