//! Rule definitions for explainable output: the rule ids used in SARIF
//! and JSON `_meta` output, their names, descriptions and docs links.

use vstd::prelude::*;
use crate::text::{chars_eq, chars_of, extend_str, string_of};

verus! {

/// Docs base URL.
pub const DOCS_BASE: &'static str = "https://docs.fallow.tools";

/// Docs URL for the dead-code (check) command.
pub const CHECK_DOCS: &'static str = "https://docs.fallow.tools/cli/dead-code";

/// Docs URL for the health command.
pub const HEALTH_DOCS: &'static str = "https://docs.fallow.tools/cli/health";

/// Docs URL for the dupes command.
pub const DUPES_DOCS: &'static str = "https://docs.fallow.tools/cli/dupes";

/// Rule definition for SARIF `fullDescription` and JSON `_meta`.
#[derive(Clone, Copy)]
pub struct RuleDef {
    pub id: &'static str,
    pub name: &'static str,
    pub short: &'static str,
    pub full: &'static str,
    pub docs_path: &'static str,
}

/// Dead-code (check) rules.
pub open spec fn spec_check_rules() -> Seq<RuleDef> {
    seq![
        RuleDef {
            id: "fallow/unused-file",
            name: "Unused Files",
            short: "File is not reachable from any entry point",
            full: "Source files that are not imported by any other module and are not entry points (scripts, tests, configs). These files can safely be deleted. Detection uses graph reachability from configured entry points.",
            docs_path: "explanations/dead-code#unused-files",
        },
        RuleDef {
            id: "fallow/unused-export",
            name: "Unused Exports",
            short: "Export is never imported",
            full: "Named exports that are never imported by any other module in the project. Includes both direct exports and re-exports through barrel files. The export may still be used locally within the same file.",
            docs_path: "explanations/dead-code#unused-exports",
        },
        RuleDef {
            id: "fallow/unused-type",
            name: "Unused Type Exports",
            short: "Type export is never imported",
            full: "Type-only exports (interfaces, type aliases, enums used only as types) that are never imported. These do not generate runtime code but add maintenance burden.",
            docs_path: "explanations/dead-code#unused-types",
        },
        RuleDef {
            id: "fallow/unused-dependency",
            name: "Unused Dependencies",
            short: "Dependency listed but never imported",
            full: "Packages listed in dependencies that are never imported or required by any source file. Framework plugins and CLI tools may be false positives — use the ignore_dependencies config to suppress.",
            docs_path: "explanations/dead-code#unused-dependencies",
        },
        RuleDef {
            id: "fallow/unused-dev-dependency",
            name: "Unused Dev Dependencies",
            short: "Dev dependency listed but never imported",
            full: "Packages listed in devDependencies that are never imported by test files, config files, or scripts. Build tools and jest presets that are referenced only in config may appear as false positives.",
            docs_path: "explanations/dead-code#unused-devdependencies",
        },
        RuleDef {
            id: "fallow/unused-optional-dependency",
            name: "Unused Optional Dependencies",
            short: "Optional dependency listed but never imported",
            full: "Packages listed in optionalDependencies that are never imported. Optional dependencies are typically platform-specific — verify they are not needed on any supported platform before removing.",
            docs_path: "explanations/dead-code#unused-optionaldependencies",
        },
        RuleDef {
            id: "fallow/type-only-dependency",
            name: "Type-only Dependencies",
            short: "Production dependency only used via type-only imports",
            full: "Production dependencies that are only imported via `import type` statements. These can be moved to devDependencies since they generate no runtime code and are stripped during compilation.",
            docs_path: "explanations/dead-code#type-only-dependencies",
        },
        RuleDef {
            id: "fallow/unused-enum-member",
            name: "Unused Enum Members",
            short: "Enum member is never referenced",
            full: "Enum members that are never referenced in the codebase. Uses scope-aware binding analysis to track all references including computed access patterns.",
            docs_path: "explanations/dead-code#unused-enum-members",
        },
        RuleDef {
            id: "fallow/unused-class-member",
            name: "Unused Class Members",
            short: "Class member is never referenced",
            full: "Class methods and properties that are never referenced outside the class. Private members are checked within the class scope; public members are checked project-wide.",
            docs_path: "explanations/dead-code#unused-class-members",
        },
        RuleDef {
            id: "fallow/unresolved-import",
            name: "Unresolved Imports",
            short: "Import could not be resolved",
            full: "Import specifiers that could not be resolved to a file on disk. Common causes: deleted files, typos in paths, missing path aliases in tsconfig, or uninstalled packages.",
            docs_path: "explanations/dead-code#unresolved-imports",
        },
        RuleDef {
            id: "fallow/unlisted-dependency",
            name: "Unlisted Dependencies",
            short: "Dependency used but not in package.json",
            full: "Packages that are imported in source code but not listed in package.json. These work by accident (hoisted from another workspace package or transitive dep) and will break in strict package managers.",
            docs_path: "explanations/dead-code#unlisted-dependencies",
        },
        RuleDef {
            id: "fallow/duplicate-export",
            name: "Duplicate Exports",
            short: "Export name appears in multiple modules",
            full: "The same export name is defined in multiple modules. Consumers may import from the wrong module, leading to subtle bugs. Consider renaming or consolidating.",
            docs_path: "explanations/dead-code#duplicate-exports",
        },
        RuleDef {
            id: "fallow/circular-dependency",
            name: "Circular Dependencies",
            short: "Circular dependency chain detected",
            full: "A cycle in the module import graph. Circular dependencies cause undefined behavior with CommonJS (partial modules) and initialization ordering issues with ESM. Break cycles by extracting shared code.",
            docs_path: "explanations/dead-code#circular-dependencies",
        }
    ]
}

/// Dead-code (check) rules.
pub fn check_rules() -> (r: Vec<RuleDef>)
    ensures
        r@ == spec_check_rules(),
{
    let mut r: Vec<RuleDef> = Vec::new();
    r.push(
        RuleDef {
            id: "fallow/unused-file",
            name: "Unused Files",
            short: "File is not reachable from any entry point",
            full: "Source files that are not imported by any other module and are not entry points (scripts, tests, configs). These files can safely be deleted. Detection uses graph reachability from configured entry points.",
            docs_path: "explanations/dead-code#unused-files",
        },
    );
    r.push(
        RuleDef {
            id: "fallow/unused-export",
            name: "Unused Exports",
            short: "Export is never imported",
            full: "Named exports that are never imported by any other module in the project. Includes both direct exports and re-exports through barrel files. The export may still be used locally within the same file.",
            docs_path: "explanations/dead-code#unused-exports",
        },
    );
    r.push(
        RuleDef {
            id: "fallow/unused-type",
            name: "Unused Type Exports",
            short: "Type export is never imported",
            full: "Type-only exports (interfaces, type aliases, enums used only as types) that are never imported. These do not generate runtime code but add maintenance burden.",
            docs_path: "explanations/dead-code#unused-types",
        },
    );
    r.push(
        RuleDef {
            id: "fallow/unused-dependency",
            name: "Unused Dependencies",
            short: "Dependency listed but never imported",
            full: "Packages listed in dependencies that are never imported or required by any source file. Framework plugins and CLI tools may be false positives — use the ignore_dependencies config to suppress.",
            docs_path: "explanations/dead-code#unused-dependencies",
        },
    );
    r.push(
        RuleDef {
            id: "fallow/unused-dev-dependency",
            name: "Unused Dev Dependencies",
            short: "Dev dependency listed but never imported",
            full: "Packages listed in devDependencies that are never imported by test files, config files, or scripts. Build tools and jest presets that are referenced only in config may appear as false positives.",
            docs_path: "explanations/dead-code#unused-devdependencies",
        },
    );
    r.push(
        RuleDef {
            id: "fallow/unused-optional-dependency",
            name: "Unused Optional Dependencies",
            short: "Optional dependency listed but never imported",
            full: "Packages listed in optionalDependencies that are never imported. Optional dependencies are typically platform-specific — verify they are not needed on any supported platform before removing.",
            docs_path: "explanations/dead-code#unused-optionaldependencies",
        },
    );
    r.push(
        RuleDef {
            id: "fallow/type-only-dependency",
            name: "Type-only Dependencies",
            short: "Production dependency only used via type-only imports",
            full: "Production dependencies that are only imported via `import type` statements. These can be moved to devDependencies since they generate no runtime code and are stripped during compilation.",
            docs_path: "explanations/dead-code#type-only-dependencies",
        },
    );
    r.push(
        RuleDef {
            id: "fallow/unused-enum-member",
            name: "Unused Enum Members",
            short: "Enum member is never referenced",
            full: "Enum members that are never referenced in the codebase. Uses scope-aware binding analysis to track all references including computed access patterns.",
            docs_path: "explanations/dead-code#unused-enum-members",
        },
    );
    r.push(
        RuleDef {
            id: "fallow/unused-class-member",
            name: "Unused Class Members",
            short: "Class member is never referenced",
            full: "Class methods and properties that are never referenced outside the class. Private members are checked within the class scope; public members are checked project-wide.",
            docs_path: "explanations/dead-code#unused-class-members",
        },
    );
    r.push(
        RuleDef {
            id: "fallow/unresolved-import",
            name: "Unresolved Imports",
            short: "Import could not be resolved",
            full: "Import specifiers that could not be resolved to a file on disk. Common causes: deleted files, typos in paths, missing path aliases in tsconfig, or uninstalled packages.",
            docs_path: "explanations/dead-code#unresolved-imports",
        },
    );
    r.push(
        RuleDef {
            id: "fallow/unlisted-dependency",
            name: "Unlisted Dependencies",
            short: "Dependency used but not in package.json",
            full: "Packages that are imported in source code but not listed in package.json. These work by accident (hoisted from another workspace package or transitive dep) and will break in strict package managers.",
            docs_path: "explanations/dead-code#unlisted-dependencies",
        },
    );
    r.push(
        RuleDef {
            id: "fallow/duplicate-export",
            name: "Duplicate Exports",
            short: "Export name appears in multiple modules",
            full: "The same export name is defined in multiple modules. Consumers may import from the wrong module, leading to subtle bugs. Consider renaming or consolidating.",
            docs_path: "explanations/dead-code#duplicate-exports",
        },
    );
    r.push(
        RuleDef {
            id: "fallow/circular-dependency",
            name: "Circular Dependencies",
            short: "Circular dependency chain detected",
            full: "A cycle in the module import graph. Circular dependencies cause undefined behavior with CommonJS (partial modules) and initialization ordering issues with ESM. Break cycles by extracting shared code.",
            docs_path: "explanations/dead-code#circular-dependencies",
        },
    );
    assert(r@ =~= spec_check_rules());
    r
}

/// Health rules.
pub open spec fn spec_health_rules() -> Seq<RuleDef> {
    seq![
        RuleDef {
            id: "fallow/high-cyclomatic-complexity",
            name: "High Cyclomatic Complexity",
            short: "Function has high cyclomatic complexity",
            full: "McCabe cyclomatic complexity exceeds the configured threshold. Cyclomatic complexity counts the number of independent paths through a function (1 + decision points: if/else, switch cases, loops, ternary, logical operators). High values indicate functions that are hard to test exhaustively.",
            docs_path: "explanations/health#cyclomatic-complexity",
        },
        RuleDef {
            id: "fallow/high-cognitive-complexity",
            name: "High Cognitive Complexity",
            short: "Function has high cognitive complexity",
            full: "SonarSource cognitive complexity exceeds the configured threshold. Unlike cyclomatic complexity, cognitive complexity penalizes nesting depth and non-linear control flow (breaks, continues, early returns). It measures how hard a function is to understand when reading sequentially.",
            docs_path: "explanations/health#cognitive-complexity",
        },
        RuleDef {
            id: "fallow/high-complexity",
            name: "High Complexity (Both)",
            short: "Function exceeds both complexity thresholds",
            full: "Function exceeds both cyclomatic and cognitive complexity thresholds. This is the strongest signal that a function needs refactoring — it has many paths AND is hard to understand.",
            docs_path: "explanations/health#complexity-metrics",
        },
        RuleDef {
            id: "fallow/refactoring-target",
            name: "Refactoring Target",
            short: "File identified as a high-priority refactoring candidate",
            full: "File identified as a refactoring candidate based on a weighted combination of complexity density, churn velocity, dead code ratio, fan-in (blast radius), and fan-out (coupling). Categories: urgent churn+complexity, break circular dependency, split high-impact file, remove dead code, extract complex functions, reduce coupling.",
            docs_path: "explanations/health#refactoring-targets",
        },
        RuleDef {
            id: "fallow/untested-file",
            name: "Untested File",
            short: "Runtime-reachable file has no test dependency path",
            full: "A file is reachable from runtime entry points but not from any discovered test entry point. This indicates production code that no test imports, directly or transitively, according to the static module graph.",
            docs_path: "explanations/health#coverage-gaps",
        },
        RuleDef {
            id: "fallow/untested-export",
            name: "Untested Export",
            short: "Runtime-reachable export has no test dependency path",
            full: "A value export is reachable from runtime entry points but no test-reachable module references it. This is a static test dependency gap rather than line coverage, and highlights exports exercised only through production entry paths.",
            docs_path: "explanations/health#coverage-gaps",
        }
    ]
}

/// Health rules.
pub fn health_rules() -> (r: Vec<RuleDef>)
    ensures
        r@ == spec_health_rules(),
{
    let mut r: Vec<RuleDef> = Vec::new();
    r.push(
        RuleDef {
            id: "fallow/high-cyclomatic-complexity",
            name: "High Cyclomatic Complexity",
            short: "Function has high cyclomatic complexity",
            full: "McCabe cyclomatic complexity exceeds the configured threshold. Cyclomatic complexity counts the number of independent paths through a function (1 + decision points: if/else, switch cases, loops, ternary, logical operators). High values indicate functions that are hard to test exhaustively.",
            docs_path: "explanations/health#cyclomatic-complexity",
        },
    );
    r.push(
        RuleDef {
            id: "fallow/high-cognitive-complexity",
            name: "High Cognitive Complexity",
            short: "Function has high cognitive complexity",
            full: "SonarSource cognitive complexity exceeds the configured threshold. Unlike cyclomatic complexity, cognitive complexity penalizes nesting depth and non-linear control flow (breaks, continues, early returns). It measures how hard a function is to understand when reading sequentially.",
            docs_path: "explanations/health#cognitive-complexity",
        },
    );
    r.push(
        RuleDef {
            id: "fallow/high-complexity",
            name: "High Complexity (Both)",
            short: "Function exceeds both complexity thresholds",
            full: "Function exceeds both cyclomatic and cognitive complexity thresholds. This is the strongest signal that a function needs refactoring — it has many paths AND is hard to understand.",
            docs_path: "explanations/health#complexity-metrics",
        },
    );
    r.push(
        RuleDef {
            id: "fallow/refactoring-target",
            name: "Refactoring Target",
            short: "File identified as a high-priority refactoring candidate",
            full: "File identified as a refactoring candidate based on a weighted combination of complexity density, churn velocity, dead code ratio, fan-in (blast radius), and fan-out (coupling). Categories: urgent churn+complexity, break circular dependency, split high-impact file, remove dead code, extract complex functions, reduce coupling.",
            docs_path: "explanations/health#refactoring-targets",
        },
    );
    r.push(
        RuleDef {
            id: "fallow/untested-file",
            name: "Untested File",
            short: "Runtime-reachable file has no test dependency path",
            full: "A file is reachable from runtime entry points but not from any discovered test entry point. This indicates production code that no test imports, directly or transitively, according to the static module graph.",
            docs_path: "explanations/health#coverage-gaps",
        },
    );
    r.push(
        RuleDef {
            id: "fallow/untested-export",
            name: "Untested Export",
            short: "Runtime-reachable export has no test dependency path",
            full: "A value export is reachable from runtime entry points but no test-reachable module references it. This is a static test dependency gap rather than line coverage, and highlights exports exercised only through production entry paths.",
            docs_path: "explanations/health#coverage-gaps",
        },
    );
    assert(r@ =~= spec_health_rules());
    r
}

/// Duplication rules.
pub open spec fn spec_dupes_rules() -> Seq<RuleDef> {
    seq![
        RuleDef {
            id: "fallow/code-duplication",
            name: "Code Duplication",
            short: "Duplicated code block",
            full: "A block of code that appears in multiple locations with identical or near-identical token sequences. Clone detection uses normalized token comparison — identifier names and literals are abstracted away in non-strict modes.",
            docs_path: "explanations/duplication#clone-groups",
        }
    ]
}

/// Duplication rules.
pub fn dupes_rules() -> (r: Vec<RuleDef>)
    ensures
        r@ == spec_dupes_rules(),
{
    let mut r: Vec<RuleDef> = Vec::new();
    r.push(
        RuleDef {
            id: "fallow/code-duplication",
            name: "Code Duplication",
            short: "Duplicated code block",
            full: "A block of code that appears in multiple locations with identical or near-identical token sequences. Clone detection uses normalized token comparison — identifier names and literals are abstracted away in non-strict modes.",
            docs_path: "explanations/duplication#clone-groups",
        },
    );
    assert(r@ =~= spec_dupes_rules());
    r
}


/// All rule definitions: check, then health, then duplication rules.
pub open spec fn spec_all_rules() -> Seq<RuleDef> {
    spec_check_rules() + spec_health_rules() + spec_dupes_rules()
}

/// The first rule in `rules` whose id is `id`.
pub open spec fn first_with_id(rules: Seq<RuleDef>, id: Seq<char>) -> Option<RuleDef>
    decreases rules.len(),
{
    if rules.len() == 0 {
        None
    } else if rules[0].id@ == id {
        Some(rules[0])
    } else {
        first_with_id(rules.drop_first(), id)
    }
}

/// Look up a rule definition by its SARIF rule ID across all rule sets.
pub fn rule_by_id(id: &str) -> (r: Option<RuleDef>)
    ensures
        r == first_with_id(spec_all_rules(), id@),
{
    let mut all = check_rules();
    let mut h = health_rules();
    let mut d = dupes_rules();
    all.append(&mut h);
    all.append(&mut d);
    assert(all@ =~= spec_all_rules());
    let want = chars_of(id);
    assert(all@.skip(0) =~= all@);
    let mut i: usize = 0;
    while i < all.len()
        invariant
            i <= all@.len(),
            want@ == id@,
            all@ == spec_all_rules(),
            first_with_id(spec_all_rules(), id@) == first_with_id(all@.skip(i as int), id@),
        decreases all@.len() - i,
    {
        let cand = chars_of(all[i].id);
        assert(all@.skip(i as int).drop_first() =~= all@.skip(i + 1));
        if chars_eq(&cand, &want) {
            return Some(all[i]);
        }
        i = i + 1;
    }
    None
}

/// Build the docs URL for a rule: the docs base, `/`, and the rule's docs path.
pub fn rule_docs_url(rule: &RuleDef) -> (r: String)
    ensures
        r@ == DOCS_BASE@ + seq!['/'] + rule.docs_path@,
{
    let mut out = chars_of(DOCS_BASE);
    out.push('/');
    extend_str(&mut out, rule.docs_path);
    string_of(&out)
}

} // verus!
