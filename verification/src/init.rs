//! The `init` command's decisions: what a project looks like, the
//! configuration scaffolded for it, the `.gitignore` entry, and the
//! pre-commit hook.

use vstd::prelude::*;
use crate::text::{
    chars_of, contains_string, extend_all, extend_str, join, join_chars, split_char, split_exec,
    starts_with, ends_with, string_of, string_views, trim, trim_vec, views,
};

verus! {

/// Detected project characteristics used to tailor the configuration.
pub struct ProjectInfo {
    pub is_monorepo: bool,
    pub workspace_patterns: Vec<String>,
    pub workspace_tool: Option<String>,
    pub has_typescript: bool,
    pub test_framework: Option<String>,
    pub ui_framework: Option<String>,
    pub has_storybook: bool,
}

/// Options of the `init` command.
pub struct InitOptions<'a> {
    /// Project root.
    pub root: &'a str,
    pub use_toml: bool,
    pub hooks: bool,
    pub branch: Option<&'a str>,
}

/// The entry-file extensions: TypeScript and JavaScript, or JavaScript
/// only.
pub open spec fn extensions(has_typescript: bool) -> Seq<char> {
    if has_typescript {
        "{ts,tsx,js,jsx}"@
    } else {
        "{js,jsx,mjs}"@
    }
}

/// The entry extensions.
fn extensions_exec(has_typescript: bool) -> (r: &'static str)
    ensures
        r@ == extensions(has_typescript),
{
    if has_typescript {
        "{ts,tsx,js,jsx}"
    } else {
        "{js,jsx,mjs}"
    }
}

/// `"p"`.
pub open spec fn quoted(p: Seq<char>) -> Seq<char> {
    seq!['"'] + p + seq!['"']
}

/// Whether the workspace patterns go into the configuration.
pub open spec fn writes_workspaces(info: &ProjectInfo) -> bool {
    info.is_monorepo && info.workspace_patterns@.len() > 0
}

/// The lines of the TOML configuration.
pub open spec fn toml_lines(info: &ProjectInfo) -> Seq<Seq<char>> {
    let ext = extensions(info.has_typescript);
    seq![
        "# fallow.toml - Codebase analysis configuration"@,
        "# See https://docs.fallow.tools for documentation"@,
        Seq::<char>::empty(),
        "entry = [\"src/index."@ + ext + "\", \"src/main."@ + ext + "\"]"@
    ] + (if info.has_storybook {
        seq!["ignorePatterns = [\".storybook/**\"]"@]
    } else {
        Seq::empty()
    }) + seq![Seq::<char>::empty()] + (if writes_workspaces(info) {
        seq![
            "[workspaces]"@,
            "packages = ["@ + join(
                string_views(info.workspace_patterns@).map_values(|p: Seq<char>| quoted(p)),
                ", "@,
            ) + "]"@,
            Seq::<char>::empty()
        ]
    } else {
        Seq::empty()
    }) + seq![
        "# Per-issue-type severity: \"error\" (fail CI), \"warn\" (report only), \"off\" (ignore)"@,
        "[rules]"@
    ] + (if info.test_framework is Some {
        seq!["unused-dependencies = \"warn\""@]
    } else {
        Seq::empty()
    }) + seq![Seq::<char>::empty()]
}

/// Pushes a line.
fn push_line(lines: &mut Vec<Vec<char>>, s: &str)
    ensures
        views(final(lines)@) == views(old(lines)@).push(s@),
{
    let v = chars_of(s);
    lines.push(v);
    assert(views(final(lines)@) =~= views(old(lines)@).push(s@));
}

/// Pushes a line given as characters.
fn push_chars(lines: &mut Vec<Vec<char>>, v: Vec<char>)
    ensures
        views(final(lines)@) == views(old(lines)@).push(v@),
{
    let ghost x = v@;
    lines.push(v);
    assert(views(final(lines)@) =~= views(old(lines)@).push(x));
}

/// Builds a TOML configuration tailored to the detected project: its lines
/// joined with newlines.
pub fn build_toml_config(info: &ProjectInfo) -> (r: String)
    ensures
        r@ == join(toml_lines(info), "\n"@),
{
    let ext = extensions_exec(info.has_typescript);
    let mut lines: Vec<Vec<char>> = Vec::new();
    push_line(&mut lines, "# fallow.toml - Codebase analysis configuration");
    push_line(&mut lines, "# See https://docs.fallow.tools for documentation");
    push_chars(&mut lines, Vec::new());
    let mut entry = chars_of("entry = [\"src/index.");
    extend_str(&mut entry, ext);
    extend_str(&mut entry, "\", \"src/main.");
    extend_str(&mut entry, ext);
    extend_str(&mut entry, "\"]");
    push_chars(&mut lines, entry);
    let ghost l1 = views(lines@);
    assert(l1 =~= toml_lines(info).take(4));
    if info.has_storybook {
        push_line(&mut lines, "ignorePatterns = [\".storybook/**\"]");
    }
    let ghost l2 = views(lines@);
    push_chars(&mut lines, Vec::new());
    let ghost l3 = views(lines@);
    if info.is_monorepo && info.workspace_patterns.len() > 0 {
        push_line(&mut lines, "[workspaces]");
        let ghost qf = |p: Seq<char>| quoted(p);
        let ghost names = string_views(info.workspace_patterns@);
        let mut quoted_parts: Vec<Vec<char>> = Vec::new();
        let mut i: usize = 0;
        while i < info.workspace_patterns.len()
            invariant
                i <= info.workspace_patterns@.len(),
                names == string_views(info.workspace_patterns@),
                qf == (|p: Seq<char>| quoted(p)),
                views(quoted_parts@) == names.take(i as int).map_values(qf),
            decreases info.workspace_patterns@.len() - i,
        {
            let mut q: Vec<char> = Vec::new();
            q.push('"');
            extend_str(&mut q, info.workspace_patterns[i].as_str());
            q.push('"');
            let ghost before = views(quoted_parts@);
            let ghost qv = q@;
            quoted_parts.push(q);
            proof {
                crate::text::lemma_take_map_push(names, qf, i as int);
                assert(qv =~= quoted(names[i as int]));
                assert(views(quoted_parts@) =~= before.push(qv));
            }
            i = i + 1;
        }
        assert(names.take(names.len() as int) =~= names);
        let sep = chars_of(", ");
        let joined = join_chars(&quoted_parts, &sep);
        let mut pk = chars_of("packages = [");
        extend_all(&mut pk, &joined);
        pk.push(']');
        assert(sep@ == ", "@);
        let ghost pkv = pk@;
        proof {
            reveal_strlit("]");
            assert(pkv =~= "packages = ["@ + join(names.map_values(qf), ", "@) + "]"@);
        }
        push_chars(&mut lines, pk);
        push_chars(&mut lines, Vec::new());
    }
    let ghost l4 = views(lines@);
    push_line(
        &mut lines,
        "# Per-issue-type severity: \"error\" (fail CI), \"warn\" (report only), \"off\" (ignore)",
    );
    push_line(&mut lines, "[rules]");
    if info.test_framework.is_some() {
        push_line(&mut lines, "unused-dependencies = \"warn\"");
    }
    push_chars(&mut lines, Vec::new());
    proof {
        let sb = if info.has_storybook {
            seq!["ignorePatterns = [\".storybook/**\"]"@]
        } else {
            Seq::<Seq<char>>::empty()
        };
        assert(l2 =~= l1 + sb);
        assert(l3 =~= l2 + seq![Seq::<char>::empty()]);
        assert(views(lines@) =~= toml_lines(info));
    }
    let nl = chars_of("\n");
    let out = join_chars(&lines, &nl);
    string_of(&out)
}

/// What a JSON configuration holds: entry patterns, the workspace patterns
/// when written, ignore patterns, and whether unused dependencies are only
/// warned about.
pub struct ConfigPlan {
    pub entry: Vec<String>,
    pub workspaces: Option<Vec<String>>,
    pub ignore_patterns: Vec<String>,
    pub warn_unused_dependencies: bool,
}

/// What the JSON configuration holds for a project.
pub fn config_plan(info: &ProjectInfo) -> (p: ConfigPlan)
    ensures
        string_views(p.entry@) == seq![
            "src/index."@ + extensions(info.has_typescript),
            "src/main."@ + extensions(info.has_typescript)
        ],
        match p.workspaces {
            Some(w) => writes_workspaces(info) && string_views(w@) == string_views(
                info.workspace_patterns@,
            ),
            None => !writes_workspaces(info),
        },
        string_views(p.ignore_patterns@) == (if info.has_storybook {
            seq![".storybook/**"@]
        } else {
            Seq::empty()
        }),
        p.warn_unused_dependencies == (info.test_framework is Some),
{
    let ext = extensions_exec(info.has_typescript);
    let mut a = chars_of("src/index.");
    extend_str(&mut a, ext);
    let mut b = chars_of("src/main.");
    extend_str(&mut b, ext);
    let mut entry: Vec<String> = Vec::new();
    entry.push(string_of(&a));
    entry.push(string_of(&b));
    let workspaces = if info.is_monorepo && info.workspace_patterns.len() > 0 {
        let mut w: Vec<String> = Vec::new();
        let mut i: usize = 0;
        while i < info.workspace_patterns.len()
            invariant
                i <= info.workspace_patterns@.len(),
                string_views(w@) == string_views(info.workspace_patterns@).take(i as int),
            decreases info.workspace_patterns@.len() - i,
        {
            let ghost before = string_views(w@);
            w.push(info.workspace_patterns[i].clone());
            assert(string_views(w@) =~= before.push(info.workspace_patterns@[i as int]@));
            assert(string_views(info.workspace_patterns@).take(i + 1) =~= string_views(
                info.workspace_patterns@,
            ).take(i as int).push(info.workspace_patterns@[i as int]@));
            i = i + 1;
        }
        assert(string_views(info.workspace_patterns@).take(i as int) =~= string_views(
            info.workspace_patterns@,
        ));
        Some(w)
    } else {
        None
    };
    let mut ignore_patterns: Vec<String> = Vec::new();
    if info.has_storybook {
        ignore_patterns.push(".storybook/**".to_string());
    }
    assert(string_views(entry@) =~= seq![a@, b@]);
    assert(string_views(ignore_patterns@) =~= (if info.has_storybook {
        seq![".storybook/**"@]
    } else {
        Seq::empty()
    }));
    ConfigPlan {
        entry,
        workspaces,
        ignore_patterns,
        warn_unused_dependencies: info.test_framework.is_some(),
    }
}

/// `s` without leading `c`s.
pub open spec fn strip_lead(s: Seq<char>, c: char) -> Seq<char>
    decreases s.len(),
{
    if s.len() > 0 && s[0] == c {
        strip_lead(s.drop_first(), c)
    } else {
        s
    }
}

/// `s` without trailing `c`s.
pub open spec fn strip_trail(s: Seq<char>, c: char) -> Seq<char>
    decreases s.len(),
{
    if s.len() > 0 && s.last() == c {
        strip_trail(s.drop_last(), c)
    } else {
        s
    }
}

/// `str::trim_matches` with a char: no leading or trailing `c`.
pub open spec fn trim_matches(s: Seq<char>, c: char) -> Seq<char> {
    strip_trail(strip_lead(s, c), c)
}

/// `str::trim_matches` with a char.
fn trim_matches_exec(s: &Vec<char>, c: char) -> (r: Vec<char>)
    ensures
        r@ == trim_matches(s@, c),
{
    let mut lo: usize = 0;
    assert(s@.skip(0) =~= s@);
    while lo < s.len() && s[lo] == c
        invariant
            lo <= s@.len(),
            strip_lead(s@, c) == strip_lead(s@.skip(lo as int), c),
        decreases s@.len() - lo,
    {
        assert(s@.skip(lo as int).drop_first() =~= s@.skip(lo + 1));
        lo = lo + 1;
    }
    assert(strip_lead(s@.skip(lo as int), c) == s@.skip(lo as int));
    let mut hi: usize = s.len();
    assert(s@.subrange(lo as int, hi as int) =~= s@.skip(lo as int));
    while hi > lo && s[hi - 1] == c
        invariant
            lo <= hi <= s@.len(),
            strip_trail(strip_lead(s@, c), c) == strip_trail(s@.subrange(lo as int, hi as int), c),
        decreases hi - lo,
    {
        assert(s@.subrange(lo as int, hi as int).drop_last() =~= s@.subrange(lo as int, hi - 1));
        hi = hi - 1;
    }
    crate::text::sub_vec(s, lo, hi)
}

/// A workspace pattern of `pnpm-workspace.yaml`: trimmed, without the
/// quotes around it.
pub open spec fn pnpm_value(item: Seq<char>) -> Seq<char> {
    trim_matches(trim_matches(trim(item), '\''), '"')
}

/// The scan of `pnpm-workspace.yaml` lines: whether the `packages:` key was
/// seen, whether its list ended, and the patterns found.
pub open spec fn pnpm_scan(lines: Seq<Seq<char>>) -> (bool, bool, Seq<Seq<char>>)
    decreases lines.len(),
{
    if lines.len() == 0 {
        (false, false, Seq::empty())
    } else {
        let (inp, stop, pats) = pnpm_scan(lines.drop_last());
        let t = trim(lines.last());
        if stop {
            (inp, stop, pats)
        } else if t == "packages:"@ {
            (true, false, pats)
        } else if inp {
            if starts_with(t, "- "@) {
                let v = pnpm_value(t.skip(2));
                if v.len() > 0 {
                    (true, false, pats.push(v))
                } else {
                    (true, false, pats)
                }
            } else if t.len() > 0 && t[0] != '#' {
                (true, true, pats)
            } else {
                (true, false, pats)
            }
        } else {
            (false, false, pats)
        }
    }
}

/// The workspace patterns listed under `packages:` in
/// `pnpm-workspace.yaml`.
pub open spec fn pnpm_patterns(content: Seq<char>) -> Seq<Seq<char>> {
    pnpm_scan(split_char(content, '\n')).2
}

/// Reads the workspace patterns from the text of `pnpm-workspace.yaml`: the
/// `- item` lines under the `packages:` key, until a line that is neither
/// an item, blank, nor a comment.
pub fn parse_pnpm_workspace_patterns(content: &str) -> (r: Vec<String>)
    ensures
        string_views(r@) == pnpm_patterns(content@),
{
    let text = chars_of(content);
    let lines = split_exec(&text, '\n');
    let ghost ls = views(lines@);
    let key = chars_of("packages:");
    let dash = chars_of("- ");
    proof {
        reveal_strlit("- ");
    }
    let mut patterns: Vec<String> = Vec::new();
    let mut in_packages = false;
    let mut i: usize = 0;
    while i < lines.len()
        invariant
            i <= lines@.len(),
            ls == views(lines@),
            ls == split_char(content@, '\n'),
            key@ == "packages:"@,
            dash@ == "- "@,
            pnpm_scan(ls.take(i as int)) == (in_packages, false, string_views(patterns@)),
        decreases lines@.len() - i,
    {
        assert(ls.take(i + 1).drop_last() =~= ls.take(i as int));
        assert(ls.take(i + 1).last() == lines@[i as int]@);
        let t = trim_vec(&lines[i]);
        if crate::text::chars_eq(&t, &key) {
            in_packages = true;
        } else if in_packages {
            if crate::text::has_prefix_at(&t, 0, &dash) {
                proof {
                    reveal_strlit("- ");
                }
                assert(t@.skip(0) =~= t@);
                assert(dash@.len() == 2);
                let rest = crate::text::sub_vec(&t, 2, t.len());
                assert(rest@ =~= t@.skip(2));
                let r1 = trim_vec(&rest);
                let r2 = trim_matches_exec(&r1, '\'');
                let v = trim_matches_exec(&r2, '"');
                if v.len() > 0 {
                    let ghost before = string_views(patterns@);
                    let sv = string_of(&v);
                    patterns.push(sv);
                    assert(string_views(patterns@) =~= before.push(v@));
                }
            } else {
                assert(t@.skip(0) =~= t@);
                if t.len() > 0 && t[0] != '#' {
                    proof {
                        assert(ls.take(i + 1) =~= ls.take(i as int).push(ls[i as int]));
                        lemma_pnpm_scan_stops(ls, i as int + 1);
                    }
                    return patterns;
                }
            }
        }
        i = i + 1;
    }
    assert(ls.take(ls.len() as int) =~= ls);
    patterns
}

/// Once the scan stops, later lines change nothing.
proof fn lemma_pnpm_scan_stops(ls: Seq<Seq<char>>, k: int)
    requires
        0 <= k <= ls.len(),
        pnpm_scan(ls.take(k)).1,
    ensures
        pnpm_scan(ls) == pnpm_scan(ls.take(k)),
    decreases ls.len() - k,
{
    if k < ls.len() {
        assert(ls.take(k + 1).drop_last() =~= ls.take(k));
        lemma_pnpm_scan_stops(ls, k + 1);
    } else {
        assert(ls.take(k) =~= ls);
    }
}

/// What the file system and `package.json` say about a project.
pub struct ProjectFacts {
    /// `pnpm-workspace.yaml` exists.
    pub has_pnpm_workspace: bool,
    /// `tsconfig.json` exists.
    pub has_tsconfig: bool,
    /// `.storybook` is a directory.
    pub has_storybook_dir: bool,
    /// `yarn.lock` exists.
    pub has_yarn_lock: bool,
    /// The workspace patterns of `package.json` (none when it is missing).
    pub package_workspace_patterns: Vec<String>,
    /// The text of `pnpm-workspace.yaml`, when it could be read.
    pub pnpm_workspace_yaml: Option<String>,
    /// All dependency names of `package.json`.
    pub dependency_names: Vec<String>,
}

/// Whether `deps` lists `name`.
pub open spec fn lists(deps: Seq<String>, name: Seq<char>) -> bool {
    string_views(deps).contains(name)
}

/// The test framework a project uses: Vitest, Jest or Playwright, the
/// first one listed in that order.
pub open spec fn test_framework_of(deps: Seq<String>) -> Option<Seq<char>> {
    if lists(deps, "vitest"@) {
        Some("Vitest"@)
    } else if lists(deps, "jest"@) {
        Some("Jest"@)
    } else if lists(deps, "@playwright/test"@) {
        Some("Playwright"@)
    } else {
        None
    }
}

/// The UI framework a project uses: React, Vue, Svelte or Angular, the
/// first one listed in that order.
pub open spec fn ui_framework_of(deps: Seq<String>) -> Option<Seq<char>> {
    if lists(deps, "react"@) || lists(deps, "react-dom"@) {
        Some("React"@)
    } else if lists(deps, "vue"@) {
        Some("Vue"@)
    } else if lists(deps, "svelte"@) {
        Some("Svelte"@)
    } else if lists(deps, "@angular/core"@) {
        Some("Angular"@)
    } else {
        None
    }
}

/// An optional string as plain characters.
pub open spec fn opt_view(s: Option<String>) -> Option<Seq<char>> {
    match s {
        Some(x) => Some(x@),
        None => None,
    }
}

/// Whether `dep` is listed.
fn has_dep(deps: &Vec<String>, dep: &str) -> (b: bool)
    ensures
        b == lists(deps@, dep@),
{
    let d = chars_of(dep);
    contains_string(deps, &d)
}

/// Detects the project's characteristics from what was found on disk: a
/// monorepo when `pnpm-workspace.yaml` exists or `package.json` has
/// workspace patterns (those of `pnpm-workspace.yaml` when `package.json`
/// has none), the workspace tool (pnpm, else yarn with a `yarn.lock`, else
/// npm), TypeScript, Storybook, and the test and UI frameworks.
pub fn detect_project(facts: &ProjectFacts) -> (info: ProjectInfo)
    ensures
        info.is_monorepo == (facts.has_pnpm_workspace || facts.package_workspace_patterns@.len() > 0),
        string_views(info.workspace_patterns@) == (if facts.has_pnpm_workspace
            && facts.package_workspace_patterns@.len() == 0 {
            match facts.pnpm_workspace_yaml {
                Some(y) => pnpm_patterns(y@),
                None => Seq::empty(),
            }
        } else {
            string_views(facts.package_workspace_patterns@)
        }),
        opt_view(info.workspace_tool) == (if facts.has_pnpm_workspace {
            Some("pnpm"@)
        } else if facts.package_workspace_patterns@.len() > 0 {
            if facts.has_yarn_lock {
                Some("yarn"@)
            } else {
                Some("npm"@)
            }
        } else {
            None
        }),
        info.has_typescript == facts.has_tsconfig,
        info.has_storybook == facts.has_storybook_dir,
        opt_view(info.test_framework) == test_framework_of(facts.dependency_names@),
        opt_view(info.ui_framework) == ui_framework_of(facts.dependency_names@),
{
    let is_pnpm = facts.has_pnpm_workspace;
    let has_npm_workspaces = facts.package_workspace_patterns.len() > 0;
    let workspace_patterns = if is_pnpm && !has_npm_workspaces {
        match &facts.pnpm_workspace_yaml {
            Some(y) => parse_pnpm_workspace_patterns(y.as_str()),
            None => {
                let v: Vec<String> = Vec::new();
                assert(string_views(v@) =~= Seq::<Seq<char>>::empty());
                v
            },
        }
    } else {
        let mut w: Vec<String> = Vec::new();
        let mut i: usize = 0;
        while i < facts.package_workspace_patterns.len()
            invariant
                i <= facts.package_workspace_patterns@.len(),
                string_views(w@) == string_views(facts.package_workspace_patterns@).take(i as int),
            decreases facts.package_workspace_patterns@.len() - i,
        {
            let ghost before = string_views(w@);
            w.push(facts.package_workspace_patterns[i].clone());
            assert(string_views(w@) =~= before.push(facts.package_workspace_patterns@[i as int]@));
            assert(string_views(facts.package_workspace_patterns@).take(i + 1) =~= string_views(
                facts.package_workspace_patterns@,
            ).take(i as int).push(facts.package_workspace_patterns@[i as int]@));
            i = i + 1;
        }
        assert(string_views(facts.package_workspace_patterns@).take(i as int) =~= string_views(
            facts.package_workspace_patterns@,
        ));
        w
    };
    let workspace_tool = if is_pnpm {
        Some("pnpm".to_string())
    } else if has_npm_workspaces {
        if facts.has_yarn_lock {
            Some("yarn".to_string())
        } else {
            Some("npm".to_string())
        }
    } else {
        None
    };
    let deps = &facts.dependency_names;
    let test_framework = if has_dep(deps, "vitest") {
        Some("Vitest".to_string())
    } else if has_dep(deps, "jest") {
        Some("Jest".to_string())
    } else if has_dep(deps, "@playwright/test") {
        Some("Playwright".to_string())
    } else {
        None
    };
    let ui_framework = if has_dep(deps, "react") || has_dep(deps, "react-dom") {
        Some("React".to_string())
    } else if has_dep(deps, "vue") {
        Some("Vue".to_string())
    } else if has_dep(deps, "svelte") {
        Some("Svelte".to_string())
    } else if has_dep(deps, "@angular/core") {
        Some("Angular".to_string())
    } else {
        None
    };
    ProjectInfo {
        is_monorepo: is_pnpm || has_npm_workspaces,
        workspace_patterns,
        workspace_tool,
        has_typescript: facts.has_tsconfig,
        test_framework,
        ui_framework,
        has_storybook: facts.has_storybook_dir,
    }
}

/// Whether some line of `.gitignore` is `.fallow` or `.fallow/` once
/// trimmed.
pub open spec fn ignores_fallow(existing: Seq<char>) -> bool {
    exists|i: int| 0 <= i < split_char(existing, '\n').len() && {
        let t = trim(#[trigger] split_char(existing, '\n')[i]);
        t == ".fallow"@ || t == ".fallow/"@
    }
}

/// What to append to `.gitignore` so that it ignores `.fallow/`: nothing
/// when it already does; else the entry, after a newline when the file
/// does not end with one.
pub open spec fn gitignore_addition(existing: Seq<char>) -> Option<Seq<char>> {
    if ignores_fallow(existing) {
        None
    } else if existing.len() == 0 || ends_with(existing, "\n"@) {
        Some(".fallow/\n"@)
    } else {
        Some("\n.fallow/\n"@)
    }
}

/// What to append to `.gitignore` so that it ignores `.fallow/`.
pub fn gitignore_entry(existing: &str) -> (r: Option<&'static str>)
    ensures
        match r {
            Some(e) => gitignore_addition(existing@) == Some(e@),
            None => gitignore_addition(existing@) is None,
        },
{
    let text = chars_of(existing);
    let lines = split_exec(&text, '\n');
    let a = chars_of(".fallow");
    let b = chars_of(".fallow/");
    let mut i: usize = 0;
    while i < lines.len()
        invariant
            i <= lines@.len(),
            views(lines@) == split_char(existing@, '\n'),
            a@ == ".fallow"@,
            b@ == ".fallow/"@,
            forall|q: int| 0 <= q < i ==> {
                let t = trim(#[trigger] split_char(existing@, '\n')[q]);
                !(t == ".fallow"@ || t == ".fallow/"@)
            },
        decreases lines@.len() - i,
    {
        let t = trim_vec(&lines[i]);
        assert(views(lines@)[i as int] == lines@[i as int]@);
        if crate::text::chars_eq(&t, &a) || crate::text::chars_eq(&t, &b) {
            assert(ignores_fallow(existing@));
            return None;
        }
        i = i + 1;
    }
    if text.len() == 0 || text[text.len() - 1] == '\n' {
        proof {
            reveal_strlit("\n");
            if text@.len() > 0 {
                assert(text@.skip(text@.len() - 1) =~= "\n"@);
            }
        }
        Some(".fallow/\n")
    } else {
        proof {
            reveal_strlit("\n");
            assert(text@.skip(text@.len() - 1)[0] != '\n');
        }
        Some("\n.fallow/\n")
    }
}

/// The pre-commit hook script, checking the files changed since `base_ref`.
pub open spec fn hook_script(base_ref: Seq<char>) -> Seq<char> {
    "#!/bin/sh\n# fallow pre-commit hook -- catch dead code before it merges\n# Remove or edit this file to change the hook behavior.\n# Bypass on a single commit with: git commit --no-verify\n\ncommand -v fallow >/dev/null 2>&1 || exit 0\nfallow dead-code --changed-since "@
        + base_ref + " --fail-on-issues --quiet\n"@
}

/// Builds the pre-commit hook script.
pub fn build_hook_script(base_ref: &str) -> (r: String)
    ensures
        r@ == hook_script(base_ref@),
{
    let mut out = chars_of(
        "#!/bin/sh\n# fallow pre-commit hook -- catch dead code before it merges\n# Remove or edit this file to change the hook behavior.\n# Bypass on a single commit with: git commit --no-verify\n\ncommand -v fallow >/dev/null 2>&1 || exit 0\nfallow dead-code --changed-since ",
    );
    extend_str(&mut out, base_ref);
    extend_str(&mut out, " --fail-on-issues --quiet\n");
    string_of(&out)
}

/// Where the pre-commit hook goes.
#[derive(Clone, Copy, Debug, PartialEq, Eq, Structural)]
pub enum HookTarget {
    /// `.husky/pre-commit`.
    Husky,
    /// Lefthook: the user adds the command to its configuration.
    Lefthook,
    /// `.git/hooks/pre-commit`.
    GitHooks,
}

/// Chooses where the hook goes: husky, then lefthook, then the bare git
/// hooks directory; `None` when there is no git directory.
pub fn hook_target(has_husky_dir: bool, has_lefthook: bool, has_git_hooks_dir: bool) -> (r: Option<HookTarget>)
    ensures
        r == (if has_husky_dir {
            Some(HookTarget::Husky)
        } else if has_lefthook {
            Some(HookTarget::Lefthook)
        } else if has_git_hooks_dir {
            Some(HookTarget::GitHooks)
        } else {
            None
        }),
{
    if has_husky_dir {
        Some(HookTarget::Husky)
    } else if has_lefthook {
        Some(HookTarget::Lefthook)
    } else if has_git_hooks_dir {
        Some(HookTarget::GitHooks)
    } else {
        None
    }
}

/// The base ref of the hook: the given branch, else the detected default
/// branch, else `main`.
pub fn choose_base_ref(branch: Option<&str>, detected: Option<String>) -> (r: String)
    ensures
        r@ == match branch {
            Some(b) => b@,
            None => match detected {
                Some(d) => d@,
                None => "main"@,
            },
        },
{
    match branch {
        Some(b) => b.to_string(),
        None => match detected {
            Some(d) => d,
            None => "main".to_string(),
        },
    }
}

/// The branch of `git symbolic-ref refs/remotes/origin/HEAD` output: the
/// trimmed output after `refs/remotes/origin/`, when it starts so.
pub open spec fn origin_branch(output: Seq<char>) -> Option<Seq<char>> {
    let t = trim(output);
    if starts_with(t, "refs/remotes/origin/"@) {
        Some(t.skip(20))
    } else {
        None
    }
}

/// Reads the default branch from `git symbolic-ref` output.
pub fn default_branch_from_ref(output: &str) -> (r: Option<String>)
    ensures
        opt_view(r) == origin_branch(output@),
{
    let text = chars_of(output);
    let t = trim_vec(&text);
    let prefix = chars_of("refs/remotes/origin/");
    proof {
        reveal_strlit("refs/remotes/origin/");
    }
    if crate::text::has_prefix_at(&t, 0, &prefix) {
        assert(t@.skip(0) =~= t@);
        let rest = crate::text::sub_vec(&t, 20, t.len());
        assert(rest@ =~= t@.skip(20));
        Some(string_of(&rest))
    } else {
        assert(t@.skip(0) =~= t@);
        None
    }
}

/// The project kind: TypeScript or JavaScript.
pub open spec fn type_label(info: &ProjectInfo) -> Seq<char> {
    if info.has_typescript {
        "TypeScript"@
    } else {
        "JavaScript"@
    }
}

/// The project line of the detection summary: the kind, and for a
/// monorepo its workspace tool (`unknown` when none was found).
pub open spec fn project_line(info: &ProjectInfo) -> Seq<char> {
    if info.is_monorepo {
        let tool = match info.workspace_tool {
            Some(t) => t@,
            None => "unknown"@,
        };
        type_label(info) + " monorepo ("@ + tool + ")"@
    } else {
        type_label(info)
    }
}

/// The detected frameworks: test framework, UI framework, Storybook.
pub open spec fn framework_names(info: &ProjectInfo) -> Seq<Seq<char>> {
    (match info.test_framework {
        Some(t) => seq![t@],
        None => Seq::empty(),
    }) + (match info.ui_framework {
        Some(u) => seq![u@],
        None => Seq::empty(),
    }) + (if info.has_storybook {
        seq!["Storybook"@]
    } else {
        Seq::empty()
    })
}

/// What the generated configuration was tailored for.
pub open spec fn customization_names(info: &ProjectInfo) -> Seq<Seq<char>> {
    (if info.is_monorepo && info.workspace_patterns@.len() > 0 {
        seq!["workspace patterns"@]
    } else {
        Seq::empty()
    }) + (if info.has_storybook {
        seq!["framework ignore rules"@]
    } else {
        Seq::empty()
    }) + (if info.test_framework is Some {
        seq!["test framework rules"@]
    } else {
        Seq::empty()
    })
}

/// The lines of the detection summary: what was detected, then what the
/// configuration includes.
pub open spec fn detection_lines(info: &ProjectInfo) -> Seq<Seq<char>> {
    let fw = framework_names(info);
    let cu = customization_names(info);
    seq!["  Detected: "@ + project_line(info)] + (if fw.len() > 0 {
        seq!["  Detected: "@ + join(fw, ", "@)]
    } else {
        Seq::empty()
    }) + (if cu.len() > 0 {
        seq!["  Config includes "@ + join(cu, " and "@)]
    } else {
        Seq::empty()
    })
}

/// Builds the detection summary printed by `init`.
pub fn detection_summary(info: &ProjectInfo) -> (r: Vec<String>)
    ensures
        string_views(r@) == detection_lines(info),
{
    let mut lines: Vec<String> = Vec::new();
    let mut first = chars_of("  Detected: ");
    if info.has_typescript {
        extend_str(&mut first, "TypeScript");
    } else {
        extend_str(&mut first, "JavaScript");
    }
    if info.is_monorepo {
        extend_str(&mut first, " monorepo (");
        match &info.workspace_tool {
            Some(t) => extend_str(&mut first, t.as_str()),
            None => extend_str(&mut first, "unknown"),
        }
        extend_str(&mut first, ")");
    }
    proof {
        reveal_strlit("TypeScript");
        reveal_strlit("JavaScript");
        assert(first@ =~= "  Detected: "@ + project_line(info));
    }
    lines.push(string_of(&first));
    assert(string_views(lines@) =~= seq!["  Detected: "@ + project_line(info)]);
    let mut fw: Vec<Vec<char>> = Vec::new();
    match &info.test_framework {
        Some(t) => fw.push(chars_of(t.as_str())),
        None => {},
    }
    match &info.ui_framework {
        Some(u) => fw.push(chars_of(u.as_str())),
        None => {},
    }
    if info.has_storybook {
        fw.push(chars_of("Storybook"));
    }
    assert(views(fw@) =~= framework_names(info));
    let ghost l1 = string_views(lines@);
    if fw.len() > 0 {
        let mut line = chars_of("  Detected: ");
        let sep = chars_of(", ");
        let j = join_chars(&fw, &sep);
        extend_all(&mut line, &j);
        lines.push(string_of(&line));
        assert(string_views(lines@) =~= l1.push("  Detected: "@ + join(framework_names(info), ", "@)));
    }
    let mut cu: Vec<Vec<char>> = Vec::new();
    if info.is_monorepo && info.workspace_patterns.len() > 0 {
        cu.push(chars_of("workspace patterns"));
    }
    if info.has_storybook {
        cu.push(chars_of("framework ignore rules"));
    }
    if info.test_framework.is_some() {
        cu.push(chars_of("test framework rules"));
    }
    assert(views(cu@) =~= customization_names(info));
    let ghost l2 = string_views(lines@);
    if cu.len() > 0 {
        let mut line = chars_of("  Config includes ");
        let sep = chars_of(" and ");
        let j = join_chars(&cu, &sep);
        extend_all(&mut line, &j);
        lines.push(string_of(&line));
        assert(string_views(lines@) =~= l2.push("  Config includes "@ + join(customization_names(info), " and "@)));
    }
    proof {
        assert(string_views(lines@) =~= detection_lines(info));
    }
    lines
}

/// Whether a character may stand in a branch name written into the hook.
pub open spec fn ref_char(c: char) -> bool {
    ('a' <= c <= 'z') || ('A' <= c <= 'Z') || ('0' <= c <= '9') || c == '/' || c == '.' || c == '_' || c == '-'
}

/// Whether a branch name is safe to write into the hook script: not empty,
/// not starting with `-`, and made of ASCII letters, digits, `/`, `.`, `_`
/// and `-` only, so that nothing in it reaches the shell as syntax.
pub open spec fn safe_ref(b: Seq<char>) -> bool {
    b.len() > 0 && b[0] != '-' && forall|i: int| 0 <= i < b.len() ==> #[trigger] ref_char(b[i])
}

/// Checks a `--branch` value before it is written into the hook script.
pub fn branch_name_is_safe(b: &str) -> (r: bool)
    ensures
        r == safe_ref(b@),
{
    let v = chars_of(b);
    if v.len() == 0 || v[0] == '-' {
        return false;
    }
    let mut i: usize = 0;
    while i < v.len()
        invariant
            i <= v@.len(),
            v@ == b@,
            forall|j: int| 0 <= j < i ==> #[trigger] ref_char(v@[j]),
        decreases v@.len() - i,
    {
        let c = v[i];
        let ok = ('a' <= c && c <= 'z') || ('A' <= c && c <= 'Z') || ('0' <= c && c <= '9') || c == '/'
            || c == '.' || c == '_' || c == '-';
        if !ok {
            assert(!ref_char(b@[i as int]));
            return false;
        }
        i = i + 1;
    }
    true
}

} // verus!
