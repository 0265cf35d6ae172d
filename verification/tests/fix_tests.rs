use fallow_cli::fix::{is_export_list, remove_member_from_single_line, remove_specifiers_from_export_list};
use fallow_cli::fix_plan::{fix_enum_members, fix_exports};
use fallow_cli::results::{MemberKind, UnusedExport, UnusedMember};

fn member(parent: &str, name: &str, line: u32) -> UnusedMember {
    UnusedMember {
        path: "/project/src/status.ts".to_string(),
        parent_name: parent.to_string(),
        member_name: name.to_string(),
        kind: MemberKind::EnumMember,
        line,
        col: 0,
    }
}

fn export(name: &str, line: u32) -> UnusedExport {
    UnusedExport {
        path: "/project/src/mod.ts".to_string(),
        export_name: name.to_string(),
        is_type_only: false,
        line,
        col: 0,
        span_start: 0,
        is_re_export: false,
    }
}

#[test]
fn single_line_remove_first_member() {
    let result = remove_member_from_single_line("enum Foo { A, B, C }", "A");
    assert_eq!(result, "enum Foo { B, C }");
}

#[test]
fn single_line_remove_middle_member() {
    let result = remove_member_from_single_line("enum Foo { A, B, C }", "B");
    assert_eq!(result, "enum Foo { A, C }");
}

#[test]
fn single_line_remove_last_member() {
    let result = remove_member_from_single_line("enum Foo { A, B, C }", "C");
    assert_eq!(result, "enum Foo { A, B }");
}

#[test]
fn single_line_remove_only_member() {
    let result = remove_member_from_single_line("enum Foo { A }", "A");
    assert_eq!(result, "enum Foo {}");
}

#[test]
fn single_line_remove_member_with_value() {
    let result = remove_member_from_single_line("enum Foo { A = 1, B = 2, C = 3 }", "B");
    assert_eq!(result, "enum Foo { A = 1, C = 3 }");
}

#[test]
fn single_line_remove_member_with_string_value() {
    let result = remove_member_from_single_line("enum Foo { A = \"a\", B = \"b\" }", "A");
    assert_eq!(result, "enum Foo { B = \"b\" }");
}

#[test]
fn single_line_without_braces_is_unchanged() {
    assert_eq!(remove_member_from_single_line("  Active,", "Active"), "  Active,");
}

#[test]
fn enum_fix_removes_single_member_from_multi_member_enum() {
    let (fixes, content) = fix_enum_members(
        "export enum Status {\n  Active,\n  Inactive,\n  Pending,\n}\n",
        &vec![member("Status", "Inactive", 3)],
    );
    assert_eq!(fixes.len(), 1);
    assert_eq!(fixes[0].line_idx, 2);
    assert_eq!(content, "export enum Status {\n  Active,\n  Pending,\n}\n");
}

#[test]
fn enum_fix_removes_multiple_members_from_same_enum() {
    let (fixes, content) = fix_enum_members(
        "export enum Status {\n  Active,\n  Inactive,\n  Pending,\n}\n",
        &vec![member("Status", "Active", 2), member("Status", "Pending", 4)],
    );
    assert_eq!(content, "export enum Status {\n  Inactive,\n}\n");
    // Fixes come by descending line.
    assert_eq!(fixes[0].line_idx, 3);
    assert_eq!(fixes[1].line_idx, 1);
}

#[test]
fn enum_fix_removes_all_members_leaves_empty_body() {
    let (_, content) = fix_enum_members(
        "export enum Status {\n  Active,\n  Inactive,\n}\n",
        &vec![member("Status", "Active", 2), member("Status", "Inactive", 3)],
    );
    assert_eq!(content, "export enum Status {\n}\n");
}

#[test]
fn enum_fix_handles_members_with_values() {
    let (_, content) = fix_enum_members(
        "export enum Status {\n  Active = \"active\",\n  Inactive = \"inactive\",\n  Pending = 2,\n}\n",
        &vec![member("Status", "Inactive", 3)],
    );
    assert_eq!(content, "export enum Status {\n  Active = \"active\",\n  Pending = 2,\n}\n");
}

#[test]
fn enum_fix_single_line_enum() {
    let (_, content) = fix_enum_members(
        "enum Status { Active, Inactive, Pending }\n",
        &vec![member("Status", "Inactive", 1)],
    );
    assert_eq!(content, "enum Status { Active, Pending }\n");
}

#[test]
fn enum_fix_single_line_removes_all_members() {
    let (_, content) = fix_enum_members("enum Status { Active }\n", &vec![member("Status", "Active", 1)]);
    assert_eq!(content, "enum Status {}\n");
}

#[test]
fn enum_fix_single_line_with_values() {
    let (_, content) = fix_enum_members(
        "enum Status { Active = \"active\", Inactive = \"inactive\" }\n",
        &vec![member("Status", "Active", 1)],
    );
    assert_eq!(content, "enum Status { Inactive = \"inactive\" }\n");
}

#[test]
fn enum_fix_preserves_crlf_line_endings() {
    let (_, content) = fix_enum_members(
        "export enum Status {\r\n  Active,\r\n  Inactive,\r\n  Pending,\r\n}\r\n",
        &vec![member("Status", "Inactive", 3)],
    );
    assert_eq!(content, "export enum Status {\r\n  Active,\r\n  Pending,\r\n}\r\n");
}

#[test]
fn enum_fix_preserves_indentation() {
    let (_, content) = fix_enum_members(
        "    export enum Status {\n        Active,\n        Inactive,\n    }\n",
        &vec![member("Status", "Active", 2)],
    );
    assert_eq!(content, "    export enum Status {\n        Inactive,\n    }\n");
}

#[test]
fn enum_fix_skips_line_without_member_name() {
    let original = "enum Status {\n  Active,\n  Inactive,\n}\n";
    let (fixes, content) = fix_enum_members(original, &vec![member("Status", "Missing", 2)]);
    assert!(fixes.is_empty());
    assert_eq!(content, original);
}

#[test]
fn enum_fix_skips_out_of_bounds_line() {
    let original = "enum Status {\n  Active,\n}\n";
    let (fixes, content) = fix_enum_members(original, &vec![member("Status", "Active", 999)]);
    assert!(fixes.is_empty());
    assert_eq!(content, original);
}

#[test]
fn enum_fix_removes_last_member_of_multi_line_enum() {
    let (_, content) = fix_enum_members(
        "enum Status {\n  Active,\n  Inactive,\n}\n",
        &vec![member("Status", "Inactive", 3)],
    );
    assert_eq!(content, "enum Status {\n  Active,\n}\n");
}

#[test]
fn enum_fix_handles_numeric_values() {
    let (_, content) = fix_enum_members(
        "enum Priority {\n  Low = 0,\n  Medium = 1,\n  High = 2,\n}\n",
        &vec![member("Priority", "Medium", 3)],
    );
    assert_eq!(content, "enum Priority {\n  Low = 0,\n  High = 2,\n}\n");
}

#[test]
fn enum_fix_keeps_one_fix_per_line() {
    let (fixes, content) = fix_enum_members(
        "enum Status { Active, Inactive }\n",
        &vec![member("Status", "Active", 1), member("Status", "Inactive", 1)],
    );
    assert_eq!(fixes.len(), 1);
    assert_eq!(fixes[0].member_name, "Active");
    assert_eq!(content, "enum Status { Inactive }\n");
}

#[test]
fn is_export_list_recognises_lists() {
    assert!(is_export_list("{ A, B }"));
    assert!(is_export_list("  type { A }"));
    assert!(!is_export_list("function foo() {}"));
    assert!(!is_export_list("type Foo = { a: string }"));
}

#[test]
fn remove_specifiers_keeps_others() {
    assert_eq!(
        remove_specifiers_from_export_list("export { Foo, Bar, Baz } from \"./mod\";", &["Bar"]),
        Some("export { Foo, Baz } from \"./mod\";".to_string())
    );
    assert_eq!(remove_specifiers_from_export_list("export { Foo };", &["Foo"]), None);
}

#[test]
fn actual_export_fix_removes_export_keyword() {
    let (_, content) =
        fix_exports("export function foo() {}\nexport const bar = 1;\n", &vec![export("foo", 1)]);
    assert_eq!(content, "function foo() {}\nexport const bar = 1;\n");
}

#[test]
fn export_fix_removes_default_from_function() {
    let (_, content) = fix_exports("export default function App() {}\n", &vec![export("default", 1)]);
    assert_eq!(content, "function App() {}\n");
}

#[test]
fn export_fix_removes_default_from_class() {
    let (_, content) = fix_exports("export default class MyService {}\n", &vec![export("default", 1)]);
    assert_eq!(content, "class MyService {}\n");
}

#[test]
fn export_fix_removes_default_from_abstract_class() {
    let (_, content) =
        fix_exports("export default abstract class Base {}\n", &vec![export("default", 1)]);
    assert_eq!(content, "abstract class Base {}\n");
}

#[test]
fn export_fix_removes_default_from_async_function() {
    let (_, content) =
        fix_exports("export default async function handler() {}\n", &vec![export("default", 1)]);
    assert_eq!(content, "async function handler() {}\n");
}

#[test]
fn export_fix_skips_default_expression_export() {
    let original = "export default { key: 'value' };\n";
    let (fixes, content) = fix_exports(original, &vec![export("default", 1)]);
    assert!(fixes.is_empty());
    assert_eq!(content, original);
}

#[test]
fn export_fix_skips_default_variable_export() {
    let original = "export default someVariable;\n";
    let (fixes, content) = fix_exports(original, &vec![export("default", 1)]);
    assert!(fixes.is_empty());
    assert_eq!(content, original);
}

#[test]
fn export_fix_preserves_indentation() {
    let (_, content) = fix_exports("  export const x = 1;\n", &vec![export("x", 1)]);
    assert_eq!(content, "  const x = 1;\n");
}

#[test]
fn export_fix_preserves_crlf_line_endings() {
    let (_, content) = fix_exports(
        "export function foo() {}\r\nexport function bar() {}\r\n",
        &vec![export("foo", 1)],
    );
    assert_eq!(content, "function foo() {}\r\nexport function bar() {}\r\n");
}

#[test]
fn export_fix_skips_line_not_starting_with_export() {
    let original = "const foo = 'export something';\n";
    let (fixes, content) = fix_exports(original, &vec![export("foo", 1)]);
    assert!(fixes.is_empty());
    assert_eq!(content, original);
}

#[test]
fn export_fix_handles_multiple_exports_in_same_file() {
    let (fixes, content) = fix_exports(
        "export function a() {}\nexport const b = 1;\nexport class C {}\n",
        &vec![export("a", 1), export("C", 3)],
    );
    assert_eq!(content, "function a() {}\nexport const b = 1;\nclass C {}\n");
    assert_eq!(fixes.len(), 2);
    assert_eq!(fixes[0].line_idx, 2);
    assert_eq!(fixes[1].line_idx, 0);
}

#[test]
fn export_fix_skips_out_of_bounds_line() {
    let (fixes, content) = fix_exports("export function a() {}\n", &vec![export("ghost", 999)]);
    assert!(fixes.is_empty());
    assert_eq!(content, "export function a() {}\n");
}

#[test]
fn export_fix_removes_export_from_const() {
    let (_, content) = fix_exports("export const MAX = 100;\n", &vec![export("MAX", 1)]);
    assert_eq!(content, "const MAX = 100;\n");
}

#[test]
fn export_fix_removes_export_from_let() {
    let (_, content) = fix_exports("export let counter = 0;\n", &vec![export("counter", 1)]);
    assert_eq!(content, "let counter = 0;\n");
}

#[test]
fn export_fix_removes_export_from_type_alias() {
    let (_, content) = fix_exports("export type Foo = string;\n", &vec![export("Foo", 1)]);
    assert_eq!(content, "type Foo = string;\n");
}

#[test]
fn export_fix_removes_export_from_interface() {
    let (_, content) =
        fix_exports("export interface Bar {\n  name: string;\n}\n", &vec![export("Bar", 1)]);
    assert_eq!(content, "interface Bar {\n  name: string;\n}\n");
}

#[test]
fn export_fix_removes_export_from_enum() {
    let (_, content) =
        fix_exports("export enum Status { Active, Inactive }\n", &vec![export("Status", 1)]);
    assert_eq!(content, "enum Status { Active, Inactive }\n");
}

#[test]
fn export_fix_deduplicates_same_line() {
    let (fixes, content) =
        fix_exports("export function foo() {}\n", &vec![export("foo", 1), export("foo", 1)]);
    assert_eq!(content, "function foo() {}\n");
    assert_eq!(fixes.len(), 2);
}

#[test]
fn export_fix_preserves_tab_indentation() {
    let (_, content) = fix_exports("\texport const x = 1;\n", &vec![export("x", 1)]);
    assert_eq!(content, "\tconst x = 1;\n");
}

#[test]
fn export_fix_line_zero_saturating_sub() {
    let (_, content) = fix_exports("export function first() {}\n", &vec![export("first", 0)]);
    assert_eq!(content, "function first() {}\n");
}

#[test]
fn export_fix_empty_file() {
    let (fixes, content) = fix_exports("", &vec![export("x", 1)]);
    assert!(fixes.is_empty());
    assert_eq!(content, "");
}

#[test]
fn export_fix_removes_specifier_from_export_list() {
    let (_, content) =
        fix_exports("export { Foo, Bar, Baz } from \"./mod\";\n", &vec![export("Bar", 1)]);
    assert_eq!(content, "export { Foo, Baz } from \"./mod\";\n");
}

#[test]
fn export_fix_removes_all_specifiers_deletes_line() {
    let (_, content) = fix_exports(
        "export { Foo, Bar } from \"./mod\";\nexport const x = 1;\n",
        &vec![export("Foo", 1), export("Bar", 1)],
    );
    assert_eq!(content, "export const x = 1;\n");
}

#[test]
fn export_fix_handles_export_list_without_from() {
    let (_, content) = fix_exports(
        "const A = 1;\nconst B = 2;\nconst C = 3;\nexport { A, B, C };\n",
        &vec![export("B", 4)],
    );
    assert_eq!(content, "const A = 1;\nconst B = 2;\nconst C = 3;\nexport { A, C };\n");
}

#[test]
fn export_fix_handles_export_type_list() {
    let (_, content) =
        fix_exports("export type { Foo, Bar } from \"./types\";\n", &vec![export("Foo", 1)]);
    assert_eq!(content, "export type { Bar } from \"./types\";\n");
}

#[test]
fn export_fix_handles_aliased_specifiers() {
    let (_, content) =
        fix_exports("export { Foo as MyFoo, Bar } from \"./mod\";\n", &vec![export("Foo", 1)]);
    assert_eq!(content, "export { Bar } from \"./mod\";\n");
}

#[test]
fn export_fix_single_specifier_list_deletes_line() {
    let (_, content) = fix_exports(
        "export { Foo } from \"./foo\";\nexport { Bar } from \"./bar\";\n",
        &vec![export("Foo", 1)],
    );
    assert_eq!(content, "export { Bar } from \"./bar\";\n");
}

#[test]
fn no_planned_fix_keeps_text_exactly() {
    let content = "export enum A {\r\n  X,\r\n  Y,\r\n}\r\n\r\nexport const b = 1;\r\n";
    let (fixes, text) = fix_enum_members(content, &Vec::new());
    assert!(fixes.is_empty());
    assert_eq!(text, content);
    // A member whose line does not hold its name is not fixable.
    let (fixes, text) = fix_enum_members(content, &vec![member("A", "Zed", 2)]);
    assert!(fixes.is_empty());
    assert_eq!(text, content);
    let (efixes, etext) = fix_exports(content, &vec![export("missing", 99)]);
    assert!(efixes.is_empty());
    assert_eq!(etext, content);
    let no_newline = "const a = 1;\nconst b = 2;";
    let (_, t) = fix_exports(no_newline, &Vec::new());
    assert_eq!(t, no_newline);
}
