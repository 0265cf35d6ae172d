//! The findings of a dead-code analysis, as the command-line logic reads
//! them: every issue category with the fields that keys, filters and rules
//! look at. Paths are absolute paths carried as strings.

use vstd::prelude::*;

verus! {

/// A file that no entry point reaches.
pub struct UnusedFile {
    pub path: String,
}

/// An export (or type export) that nothing imports.
pub struct UnusedExport {
    pub path: String,
    pub export_name: String,
    pub is_type_only: bool,
    /// 1-based line.
    pub line: u32,
    pub col: u32,
    pub span_start: u32,
    pub is_re_export: bool,
}

/// Which `package.json` section a dependency is listed in.
#[derive(Clone, Copy, Debug, PartialEq, Eq)]
pub enum DependencyLocation {
    Dependencies,
    DevDependencies,
    OptionalDependencies,
}

/// A listed dependency that no source file imports.
pub struct UnusedDependency {
    pub package_name: String,
    pub location: DependencyLocation,
    /// The `package.json` that lists it.
    pub path: String,
    pub line: u32,
}

/// The kind of an unused member.
#[derive(Clone, Copy, Debug, PartialEq, Eq)]
pub enum MemberKind {
    EnumMember,
    ClassMethod,
    ClassProperty,
}

/// An enum or class member that is never referenced.
pub struct UnusedMember {
    pub path: String,
    pub parent_name: String,
    pub member_name: String,
    pub kind: MemberKind,
    /// 1-based line.
    pub line: u32,
    pub col: u32,
}

/// An import specifier that resolves to nothing.
pub struct UnresolvedImport {
    pub path: String,
    pub specifier: String,
    pub line: u32,
    pub col: u32,
}

/// A place that imports a package.
pub struct ImportSite {
    pub path: String,
    pub line: u32,
    pub col: u32,
}

/// A package imported by source files but not listed in `package.json`.
pub struct UnlistedDependency {
    pub package_name: String,
    pub imported_from: Vec<ImportSite>,
}

/// One module that defines a duplicated export name.
pub struct DuplicateLocation {
    pub path: String,
    pub line: u32,
    pub col: u32,
}

/// An export name defined in several modules.
pub struct DuplicateExport {
    pub export_name: String,
    pub locations: Vec<DuplicateLocation>,
}

/// A production dependency used only through type imports.
pub struct TypeOnlyDependency {
    pub package_name: String,
    pub path: String,
    pub line: u32,
}

/// A production dependency used only by test files.
pub struct TestOnlyDependency {
    pub package_name: String,
    pub path: String,
    pub line: u32,
}

/// A cycle in the module graph.
pub struct CircularDependency {
    pub files: Vec<String>,
    pub length: usize,
    pub line: u32,
    pub col: u32,
    pub is_cross_package: bool,
}

/// An import that crosses an architecture boundary.
pub struct BoundaryViolation {
    pub from_path: String,
    pub to_path: String,
    pub import_specifier: String,
    pub line: u32,
    pub col: u32,
}

/// All findings of one analysis run.
pub struct AnalysisResults {
    pub unused_files: Vec<UnusedFile>,
    pub unused_exports: Vec<UnusedExport>,
    pub unused_types: Vec<UnusedExport>,
    pub unused_dependencies: Vec<UnusedDependency>,
    pub unused_dev_dependencies: Vec<UnusedDependency>,
    pub unused_optional_dependencies: Vec<UnusedDependency>,
    pub unused_enum_members: Vec<UnusedMember>,
    pub unused_class_members: Vec<UnusedMember>,
    pub unresolved_imports: Vec<UnresolvedImport>,
    pub unlisted_dependencies: Vec<UnlistedDependency>,
    pub duplicate_exports: Vec<DuplicateExport>,
    pub type_only_dependencies: Vec<TypeOnlyDependency>,
    pub test_only_dependencies: Vec<TestOnlyDependency>,
    pub circular_dependencies: Vec<CircularDependency>,
    pub boundary_violations: Vec<BoundaryViolation>,
}

impl AnalysisResults {
    /// Results with no findings.
    pub fn empty() -> (r: AnalysisResults)
        ensures
            r.issue_count() == 0,
    {
        AnalysisResults {
            unused_files: Vec::new(),
            unused_exports: Vec::new(),
            unused_types: Vec::new(),
            unused_dependencies: Vec::new(),
            unused_dev_dependencies: Vec::new(),
            unused_optional_dependencies: Vec::new(),
            unused_enum_members: Vec::new(),
            unused_class_members: Vec::new(),
            unresolved_imports: Vec::new(),
            unlisted_dependencies: Vec::new(),
            duplicate_exports: Vec::new(),
            type_only_dependencies: Vec::new(),
            test_only_dependencies: Vec::new(),
            circular_dependencies: Vec::new(),
            boundary_violations: Vec::new(),
        }
    }

    /// Number of findings over all categories.
    pub open spec fn issue_count(&self) -> int {
        self.unused_files@.len() as int + self.unused_exports@.len() + self.unused_types@.len()
            + self.unused_dependencies@.len() + self.unused_dev_dependencies@.len()
            + self.unused_optional_dependencies@.len() + self.unused_enum_members@.len()
            + self.unused_class_members@.len() + self.unresolved_imports@.len()
            + self.unlisted_dependencies@.len() + self.duplicate_exports@.len()
            + self.type_only_dependencies@.len() + self.test_only_dependencies@.len()
            + self.circular_dependencies@.len() + self.boundary_violations@.len()
    }

    /// Total number of findings, saturating at `usize::MAX`.
    pub fn total_issues(&self) -> (n: usize)
        ensures
            n == if self.issue_count() <= usize::MAX { self.issue_count() } else { usize::MAX as int },
    {
        let lens: [usize; 15] = [
            self.unused_files.len(),
            self.unused_exports.len(),
            self.unused_types.len(),
            self.unused_dependencies.len(),
            self.unused_dev_dependencies.len(),
            self.unused_optional_dependencies.len(),
            self.unused_enum_members.len(),
            self.unused_class_members.len(),
            self.unresolved_imports.len(),
            self.unlisted_dependencies.len(),
            self.duplicate_exports.len(),
            self.type_only_dependencies.len(),
            self.test_only_dependencies.len(),
            self.circular_dependencies.len(),
            self.boundary_violations.len(),
        ];
        let mut total: u128 = 0;
        let mut i: usize = 0;
        while i < 15
            invariant
                i <= 15,
                total == sum_prefix(lens@, i as int),
                total <= i * (usize::MAX as int),
            decreases 15 - i,
        {
            total = total + lens[i] as u128;
            i = i + 1;
        }
        assert(sum_prefix(lens@, 15) == self.issue_count()) by {
            reveal_with_fuel(sum_prefix, 16);
        }
        if total > usize::MAX as u128 {
            usize::MAX
        } else {
            total as usize
        }
    }
}

/// Sum of the first `k` entries.
pub open spec fn sum_prefix(s: Seq<usize>, k: int) -> int
    decreases k,
{
    if k <= 0 {
        0
    } else {
        sum_prefix(s, k - 1) + s[k - 1]
    }
}

} // verus!
