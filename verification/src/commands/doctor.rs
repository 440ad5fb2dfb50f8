//! Diagnostics: a read-only sweep over the zone that reports where the
//! metadata and the physical files do not pair up, and what else is amiss.

use crate::domain::config::Config;
use crate::domain::file_meta::{option_text, texts, FileMetaView};
use crate::domain::trash_item::TrashItemView;
use crate::ids::{format_id, id_text};
use crate::infra::meta_store::{lookup, newest_first, views};
use crate::infra::trash_store::{item_views, TrashStore};
use crate::text::{self, contains_text};
use vstd::prelude::*;

verus! {

/// The checks that the diagnostics know.
#[derive(Clone, Copy, Debug, PartialEq, Eq, Structural)]
pub enum DiagnosticCheck {
    TrashZone,
    Metadata,
    Permissions,
    Config,
    Dependencies,
    All,
}

/// How grave an issue is.
#[derive(Clone, Copy, Debug, PartialEq, Eq, Hash, Structural)]
pub enum Severity {
    Info,
    Warning,
    Error,
    Critical,
}

/// One finding of a check.
#[derive(Debug, PartialEq, Eq)]
pub struct DiagnosticIssue {
    pub check_type: DiagnosticCheck,
    pub severity: Severity,
    pub message: String,
    pub suggestion: Option<String>,
    pub fixable: bool,
}

/// What a `DiagnosticIssue` holds, as mathematical values.
pub struct DiagnosticIssueView {
    pub check_type: DiagnosticCheck,
    pub severity: Severity,
    pub message: Seq<char>,
    pub suggestion: Option<Seq<char>>,
    pub fixable: bool,
}

impl View for DiagnosticIssue {
    type V = DiagnosticIssueView;

    open spec fn view(&self) -> DiagnosticIssueView {
        DiagnosticIssueView {
            check_type: self.check_type,
            severity: self.severity,
            message: self.message@,
            suggestion: option_text(self.suggestion),
            fixable: self.fixable,
        }
    }
}

/// The views of a list of issues.
pub open spec fn issue_views(issues: Seq<DiagnosticIssue>) -> Seq<DiagnosticIssueView> {
    issues.map_values(|i: DiagnosticIssue| i@)
}

/// What the caller found at the root of the trash zone.
#[derive(Clone, Copy, Debug, PartialEq, Eq, Structural)]
pub enum RootState {
    /// Nothing is there.
    Missing,
    /// Something is there that is no directory.
    NotDirectory,
    /// The directory is there.
    Directory,
}

/// The checks to run for a request: the one asked for, or the five
/// single checks where all or none is asked for.
pub fn execute(check: Option<DiagnosticCheck>) -> (r: Vec<DiagnosticCheck>)
    ensures
        r@ == match check {
            Some(DiagnosticCheck::All) | None => seq![
                DiagnosticCheck::TrashZone,
                DiagnosticCheck::Metadata,
                DiagnosticCheck::Permissions,
                DiagnosticCheck::Config,
                DiagnosticCheck::Dependencies,
            ],
            Some(one) => seq![one],
        },
{
    let mut r: Vec<DiagnosticCheck> = Vec::new();
    match check {
        Some(DiagnosticCheck::All) | None => {
            r.push(DiagnosticCheck::TrashZone);
            r.push(DiagnosticCheck::Metadata);
            r.push(DiagnosticCheck::Permissions);
            r.push(DiagnosticCheck::Config);
            r.push(DiagnosticCheck::Dependencies);
        },
        Some(one) => {
            r.push(one);
        },
    }
    r
}

fn issue(
    check_type: DiagnosticCheck,
    severity: Severity,
    message: String,
    suggestion: &str,
    fixable: bool,
) -> (r: DiagnosticIssue)
    ensures
        r@ == (DiagnosticIssueView {
            check_type,
            severity,
            message: message@,
            suggestion: Some(suggestion@),
            fixable,
        }),
{
    DiagnosticIssue {
        check_type,
        severity,
        message,
        suggestion: Some(suggestion.to_owned()),
        fixable,
    }
}

/// The issue for a root of the trash zone that is not a directory.
pub open spec fn root_issues(root: Seq<char>, state: RootState) -> Seq<DiagnosticIssueView> {
    match state {
        RootState::Missing => seq![
            DiagnosticIssueView {
                check_type: DiagnosticCheck::TrashZone,
                severity: Severity::Error,
                message: "Trash directory does not exist: "@ + root,
                suggestion: Some("Create the trash directory"@),
                fixable: true,
            },
        ],
        RootState::NotDirectory => seq![
            DiagnosticIssueView {
                check_type: DiagnosticCheck::TrashZone,
                severity: Severity::Critical,
                message: "Trash path exists but is not a directory: "@ + root,
                suggestion: Some("Remove the file and recreate as directory"@),
                fixable: false,
            },
        ],
        RootState::Directory => Seq::empty(),
    }
}

/// The issue for a record whose physical file is absent.
pub open spec fn orphaned_metadata_issue(meta: FileMetaView) -> DiagnosticIssueView {
    DiagnosticIssueView {
        check_type: DiagnosticCheck::TrashZone,
        severity: Severity::Warning,
        message: "Orphaned metadata: "@ + meta.original_path + " (file missing)"@,
        suggestion: Some("Remove orphaned metadata"@),
        fixable: true,
    }
}

/// The issue for a physical file that no record accounts for.
pub open spec fn orphaned_file_issue(path: Seq<char>) -> DiagnosticIssueView {
    DiagnosticIssueView {
        check_type: DiagnosticCheck::TrashZone,
        severity: Severity::Warning,
        message: "Orphaned file: "@ + path + " (no metadata)"@,
        suggestion: Some("Restore or remove the file by hand"@),
        fixable: false,
    }
}

/// What the check of the trash zone reports: the state of the root, and,
/// unless the root is missing, one issue for each record whose physical
/// file is absent, from the newest to the oldest, and then one for each
/// of the physical files `orphans` that no record accounts for.
pub open spec fn trash_zone_issues(
    root: Seq<char>,
    state: RootState,
    missing: Seq<FileMetaView>,
    orphans: Seq<Seq<char>>,
) -> Seq<DiagnosticIssueView> {
    if state == RootState::Missing {
        root_issues(root, state)
    } else {
        root_issues(root, state) + missing.map_values(|m: FileMetaView| orphaned_metadata_issue(m))
            + orphans.map_values(|p: Seq<char>| orphaned_file_issue(p))
    }
}

/// Checks the trash zone: its root, and the pairing of records and
/// physical files. A root that is no directory is never fixable by the
/// tool; removing what stands in its place would itself destroy something.
pub fn check_trash_zone(store: &TrashStore, state: RootState) -> (r: Vec<DiagnosticIssue>)
    requires
        store.wf(),
    ensures
        exists|orphans: Seq<Seq<char>>|
            orphans.no_duplicates() && orphans.to_set() == store@.orphaned() && issue_views(r@)
                == #[trigger] trash_zone_issues(
                store@.root,
                state,
                store@.missing_among(newest_first(store@.records)),
                orphans,
            ),
{
    let mut issues: Vec<DiagnosticIssue> = Vec::new();
    let root = store.get_trash_root();
    match state {
        RootState::Missing => {
            issues.push(
                issue(
                    DiagnosticCheck::TrashZone,
                    Severity::Error,
                    text::concat("Trash directory does not exist: ", root.as_str()),
                    "Create the trash directory",
                    true,
                ),
            );
        },
        RootState::NotDirectory => {
            issues.push(
                issue(
                    DiagnosticCheck::TrashZone,
                    Severity::Critical,
                    text::concat("Trash path exists but is not a directory: ", root.as_str()),
                    "Remove the file and recreate as directory",
                    false,
                ),
            );
        },
        RootState::Directory => {},
    }
    assert(issue_views(issues@) =~= root_issues(store@.root, state));
    let orphans = store.orphaned_files();
    if state == RootState::Missing {
        assert(issue_views(issues@) == trash_zone_issues(
            store@.root,
            state,
            store@.missing_among(newest_first(store@.records)),
            texts(orphans@),
        ));
        return issues;
    }
    let missing = store.missing();
    let ghost head = issue_views(issues@);
    let ghost lost = views(missing@);
    let mut i: usize = 0;
    while i < missing.len()
        invariant
            i <= missing.len(),
            lost == views(missing@),
            issue_views(issues@) == head + lost.take(i as int).map_values(
                |m: FileMetaView| orphaned_metadata_issue(m),
            ),
        decreases missing.len() - i,
    {
        let ghost shown = issue_views(issues@);
        let mut message = text::concat("Orphaned metadata: ", missing[i].original_path.as_str());
        message.append(" (file missing)");
        issues.push(
            issue(
                DiagnosticCheck::TrashZone,
                Severity::Warning,
                message,
                "Remove orphaned metadata",
                true,
            ),
        );
        proof {
            assert(issue_views(issues@) =~= shown.push(orphaned_metadata_issue(lost[i as int])));
            assert(lost.take(i + 1).map_values(|m: FileMetaView| orphaned_metadata_issue(m))
                =~= lost.take(i as int).map_values(|m: FileMetaView| orphaned_metadata_issue(m)).push(
                orphaned_metadata_issue(lost[i as int]),
            ));
        }
        i += 1;
    }
    assert(lost.take(missing.len() as int) =~= lost);
    let ghost middle = issue_views(issues@);
    let ghost stray = texts(orphans@);
    let mut k: usize = 0;
    while k < orphans.len()
        invariant
            k <= orphans.len(),
            stray == texts(orphans@),
            issue_views(issues@) == middle + stray.take(k as int).map_values(
                |p: Seq<char>| orphaned_file_issue(p),
            ),
        decreases orphans.len() - k,
    {
        let ghost shown = issue_views(issues@);
        let mut message = text::concat("Orphaned file: ", orphans[k].as_str());
        message.append(" (no metadata)");
        issues.push(
            issue(
                DiagnosticCheck::TrashZone,
                Severity::Warning,
                message,
                "Restore or remove the file by hand",
                false,
            ),
        );
        proof {
            assert(issue_views(issues@) =~= shown.push(orphaned_file_issue(stray[k as int])));
            assert(stray.take(k + 1).map_values(|p: Seq<char>| orphaned_file_issue(p))
                =~= stray.take(k as int).map_values(|p: Seq<char>| orphaned_file_issue(p)).push(
                orphaned_file_issue(stray[k as int]),
            ));
        }
        k += 1;
    }
    proof {
        assert(stray.take(orphans.len() as int) =~= stray);
        assert(issue_views(issues@) == trash_zone_issues(
            store@.root,
            state,
            store@.missing_among(newest_first(store@.records)),
            stray,
        ));
    }
    issues
}

/// The issue for a record without an original path.
pub open spec fn empty_path_issue(meta: FileMetaView) -> DiagnosticIssueView {
    DiagnosticIssueView {
        check_type: DiagnosticCheck::Metadata,
        severity: Severity::Warning,
        message: "Empty original path in metadata: "@ + id_text(meta.id),
        suggestion: Some("Remove corrupted metadata"@),
        fixable: true,
    }
}

/// The issue for a record without a checksum.
pub open spec fn missing_checksum_issue(meta: FileMetaView) -> DiagnosticIssueView {
    DiagnosticIssueView {
        check_type: DiagnosticCheck::Metadata,
        severity: Severity::Info,
        message: "Missing SHA256 checksum for: "@ + meta.original_path,
        suggestion: Some("Recalculate SHA256 checksums"@),
        fixable: true,
    }
}

/// What the check of the metadata reports for `items`: for each item, in
/// order, a warning where the original path is empty, and a note where no
/// checksum is recorded.
pub open spec fn metadata_issues(items: Seq<TrashItemView>) -> Seq<DiagnosticIssueView>
    decreases items.len(),
{
    if items.len() == 0 {
        Seq::empty()
    } else {
        let meta = items.last().meta;
        metadata_issues(items.drop_last()) + (if meta.original_path.len() == 0 {
            seq![empty_path_issue(meta)]
        } else {
            Seq::empty()
        }) + (if meta.checksum is None {
            seq![missing_checksum_issue(meta)]
        } else {
            Seq::empty()
        })
    }
}

/// Checks the records of the held items.
pub fn check_metadata_integrity(store: &TrashStore) -> (r: Vec<DiagnosticIssue>)
    requires
        store.wf(),
    ensures
        issue_views(r@) == metadata_issues(store@.listing()),
{
    let items = store.list();
    let mut issues: Vec<DiagnosticIssue> = Vec::new();
    let mut i: usize = 0;
    assert(item_views(items@).take(0) =~= Seq::<TrashItemView>::empty());
    assert(issue_views(issues@) =~= Seq::<DiagnosticIssueView>::empty());
    while i < items.len()
        invariant
            i <= items.len(),
            issue_views(issues@) == metadata_issues(item_views(items@).take(i as int)),
        decreases items.len() - i,
    {
        proof {
            let before = item_views(items@).take(i as int);
            let after = item_views(items@).take(i + 1);
            assert(after.drop_last() =~= before);
            assert(after.last() == items@[i as int]@);
        }
        let ghost start = issue_views(issues@);
        let ghost meta = items@[i as int]@.meta;
        if items[i].meta.original_path.as_str().unicode_len() == 0 {
            issues.push(
                issue(
                    DiagnosticCheck::Metadata,
                    Severity::Warning,
                    text::concat(
                        "Empty original path in metadata: ",
                        format_id(items[i].meta.id).as_str(),
                    ),
                    "Remove corrupted metadata",
                    true,
                ),
            );
        }
        let ghost mid = issue_views(issues@);
        assert(mid =~= start + (if meta.original_path.len() == 0 {
            seq![empty_path_issue(meta)]
        } else {
            Seq::empty()
        }));
        if items[i].meta.checksum.is_none() {
            issues.push(
                issue(
                    DiagnosticCheck::Metadata,
                    Severity::Info,
                    text::concat(
                        "Missing SHA256 checksum for: ",
                        items[i].meta.original_path.as_str(),
                    ),
                    "Recalculate SHA256 checksums",
                    true,
                ),
            );
        }
        assert(issue_views(issues@) =~= mid + (if meta.checksum is None {
            seq![missing_checksum_issue(meta)]
        } else {
            Seq::empty()
        }));
        i += 1;
    }
    assert(item_views(items@).take(items.len() as int) =~= item_views(items@));
    issues
}

/// What the check of the permissions reports: an error where the root is
/// there but cannot be looked at.
pub open spec fn permission_issues(root: Seq<char>, state: RootState, accessible: bool) -> Seq<
    DiagnosticIssueView,
> {
    if state != RootState::Missing && !accessible {
        seq![
            DiagnosticIssueView {
                check_type: DiagnosticCheck::Permissions,
                severity: Severity::Error,
                message: "Cannot access trash directory: "@ + root,
                suggestion: Some("Check file permissions"@),
                fixable: false,
            },
        ]
    } else {
        Seq::empty()
    }
}

/// What the check of the configuration reports.
pub open spec fn config_issues() -> Seq<DiagnosticIssueView> {
    seq![
        DiagnosticIssueView {
            check_type: DiagnosticCheck::Config,
            severity: Severity::Info,
            message: "Configuration appears valid"@,
            suggestion: None,
            fixable: false,
        },
    ]
}

/// What the check of the optional programs reports: a note where the
/// fuzzy finder is not found.
pub open spec fn dependency_issues(fzf_found: bool) -> Seq<DiagnosticIssueView> {
    if fzf_found {
        Seq::empty()
    } else {
        seq![
            DiagnosticIssueView {
                check_type: DiagnosticCheck::Dependencies,
                severity: Severity::Info,
                message: "fzf not found - interactive features may be limited"@,
                suggestion: Some("Install fzf for enhanced interactive mode"@),
                fixable: false,
            },
        ]
    }
}

/// Checks that the trash zone can be reached.
pub fn check_permissions(store: &TrashStore, state: RootState, accessible: bool) -> (r: Vec<
    DiagnosticIssue,
>)
    ensures
        issue_views(r@) == permission_issues(store@.root, state, accessible),
{
    let mut issues: Vec<DiagnosticIssue> = Vec::new();
    if state != RootState::Missing && !accessible {
        issues.push(
            issue(
                DiagnosticCheck::Permissions,
                Severity::Error,
                text::concat("Cannot access trash directory: ", store.get_trash_root().as_str()),
                "Check file permissions",
                false,
            ),
        );
    }
    assert(issue_views(issues@) =~= permission_issues(store@.root, state, accessible));
    issues
}

/// Checks the configuration: a configuration that could be loaded is
/// reported as valid.
pub fn check_config_validity(config: &Config) -> (r: Vec<DiagnosticIssue>)
    ensures
        issue_views(r@) == config_issues(),
{
    let mut issues: Vec<DiagnosticIssue> = Vec::new();
    issues.push(
        DiagnosticIssue {
            check_type: DiagnosticCheck::Config,
            severity: Severity::Info,
            message: "Configuration appears valid".to_owned(),
            suggestion: None,
            fixable: false,
        },
    );
    assert(issue_views(issues@) =~= config_issues());
    issues
}

/// Checks the optional programs.
pub fn check_dependencies(fzf_found: bool) -> (r: Vec<DiagnosticIssue>)
    ensures
        issue_views(r@) == dependency_issues(fzf_found),
{
    let mut issues: Vec<DiagnosticIssue> = Vec::new();
    if !fzf_found {
        issues.push(
            issue(
                DiagnosticCheck::Dependencies,
                Severity::Info,
                "fzf not found - interactive features may be limited".to_owned(),
                "Install fzf for enhanced interactive mode",
                false,
            ),
        );
    }
    assert(issue_views(issues@) =~= dependency_issues(fzf_found));
    issues
}

/// What the caller found out for the checks.
#[derive(Clone, Copy, Debug, PartialEq, Eq, Structural)]
pub struct Findings {
    /// What stands at the root of the trash zone.
    pub root: RootState,
    /// Whether the root can be looked at.
    pub accessible: bool,
    /// Whether the fuzzy finder is installed.
    pub fzf_found: bool,
}

/// Runs one check. `All` stands for no single check and reports nothing.
pub fn run_diagnostic_check(
    check_type: DiagnosticCheck,
    store: &TrashStore,
    config: &Config,
    findings: Findings,
) -> (r: Vec<DiagnosticIssue>)
    requires
        store.wf(),
    ensures
        check_type == DiagnosticCheck::All ==> r@.len() == 0,
        check_type == DiagnosticCheck::Metadata ==> issue_views(r@) == metadata_issues(
            store@.listing(),
        ),
        check_type == DiagnosticCheck::Config ==> issue_views(r@) == config_issues(),
        check_type == DiagnosticCheck::Dependencies ==> issue_views(r@) == dependency_issues(
            findings.fzf_found,
        ),
        check_type == DiagnosticCheck::Permissions ==> issue_views(r@) == permission_issues(
            store@.root,
            findings.root,
            findings.accessible,
        ),
        check_type == DiagnosticCheck::TrashZone ==> exists|orphans: Seq<Seq<char>>|
            orphans.no_duplicates() && orphans.to_set() == store@.orphaned() && issue_views(r@)
                == #[trigger] trash_zone_issues(
                store@.root,
                findings.root,
                store@.missing_among(newest_first(store@.records)),
                orphans,
            ),
{
    match check_type {
        DiagnosticCheck::TrashZone => check_trash_zone(store, findings.root),
        DiagnosticCheck::Metadata => check_metadata_integrity(store),
        DiagnosticCheck::Permissions => check_permissions(
            store,
            findings.root,
            findings.accessible,
        ),
        DiagnosticCheck::Config => check_config_validity(config),
        DiagnosticCheck::Dependencies => check_dependencies(findings.fzf_found),
        DiagnosticCheck::All => Vec::new(),
    }
}

/// How many issues of each severity there are.
#[derive(Clone, Copy, Debug, PartialEq, Eq, Structural)]
pub struct SeverityCounts {
    pub info: usize,
    pub warning: usize,
    pub error: usize,
    pub critical: usize,
}

/// How many of the first `n` issues have the severity `severity`.
pub open spec fn count_severity(issues: Seq<DiagnosticIssueView>, severity: Severity, n: int) -> nat
    decreases n,
{
    if n <= 0 {
        0
    } else {
        count_severity(issues, severity, n - 1) + if issues[n - 1].severity == severity {
            1nat
        } else {
            0nat
        }
    }
}

/// Counts the issues by severity, for the summary of the results.
pub fn display_diagnostic_results(issues: &Vec<DiagnosticIssue>) -> (r: SeverityCounts)
    ensures
        r.info == count_severity(issue_views(issues@), Severity::Info, issues.len() as int),
        r.warning == count_severity(issue_views(issues@), Severity::Warning, issues.len() as int),
        r.error == count_severity(issue_views(issues@), Severity::Error, issues.len() as int),
        r.critical == count_severity(
            issue_views(issues@),
            Severity::Critical,
            issues.len() as int,
        ),
        r.info + r.warning + r.error + r.critical == issues.len(),
{
    let mut counts = SeverityCounts { info: 0, warning: 0, error: 0, critical: 0 };
    let mut i: usize = 0;
    while i < issues.len()
        invariant
            i <= issues.len(),
            counts.info == count_severity(issue_views(issues@), Severity::Info, i as int),
            counts.warning == count_severity(issue_views(issues@), Severity::Warning, i as int),
            counts.error == count_severity(issue_views(issues@), Severity::Error, i as int),
            counts.critical == count_severity(issue_views(issues@), Severity::Critical, i as int),
            counts.info + counts.warning + counts.error + counts.critical == i,
        decreases issues.len() - i,
    {
        assert(issue_views(issues@)[i as int] == issues@[i as int]@);
        match issues[i].severity {
            Severity::Info => {
                counts.info += 1;
            },
            Severity::Warning => {
                counts.warning += 1;
            },
            Severity::Error => {
                counts.error += 1;
            },
            Severity::Critical => {
                counts.critical += 1;
            },
        }
        i += 1;
    }
    counts
}

/// Whether the tool can mend an issue by itself: a fixable issue of the
/// trash zone that says that the directory does not exist.
pub open spec fn mends(issue: DiagnosticIssueView) -> bool {
    issue.fixable && issue.check_type == DiagnosticCheck::TrashZone && contains_text(
        issue.message,
        "does not exist"@,
    )
}

/// How many of the first `n` issues the tool can mend by itself.
pub open spec fn count_mended(issues: Seq<DiagnosticIssueView>, n: int) -> nat
    decreases n,
{
    if n <= 0 {
        0
    } else {
        count_mended(issues, n - 1) + if mends(issues[n - 1]) {
            1nat
        } else {
            0nat
        }
    }
}

/// How many of `issues` the tool mends by creating the root of the trash
/// zone. Every other issue is left to the user; nothing is ever removed.
pub fn fix_issues(issues: &Vec<DiagnosticIssue>) -> (fixed_count: usize)
    ensures
        fixed_count == count_mended(issue_views(issues@), issues.len() as int),
{
    let mut fixed_count: usize = 0;
    let mut i: usize = 0;
    while i < issues.len()
        invariant
            i <= issues.len(),
            fixed_count == count_mended(issue_views(issues@), i as int),
            fixed_count <= i,
        decreases issues.len() - i,
    {
        assert(issue_views(issues@)[i as int] == issues@[i as int]@);
        if issues[i].fixable && issues[i].check_type == DiagnosticCheck::TrashZone
            && text::contains(issues[i].message.as_str(), "does not exist") {
            fixed_count += 1;
        }
        i += 1;
    }
    fixed_count
}

/// How a record and its physical file pair up.
#[derive(Clone, Copy, Debug, PartialEq, Eq, Structural)]
pub enum Consistency {
    /// The record is there, and so is its file.
    Consistent,
    /// The record is there, its file is not.
    OrphanedMetadata,
}

/// Classifies the record with identifier `id`: `None` where the index has
/// no such record. Physical files without a record are what
/// `TrashStore::orphaned_files` returns.
pub fn classify(store: &TrashStore, id: u128) -> (r: Option<Consistency>)
    requires
        store.wf(),
    ensures
        r == match lookup(store@.records, id) {
            Some(meta) => if store@.present(meta) {
                Some(Consistency::Consistent)
            } else {
                Some(Consistency::OrphanedMetadata)
            },
            None => None,
        },
{
    if store.find_by_id(id).is_some() {
        Some(Consistency::Consistent)
    } else if store.meta_store().load_metadata(id).is_some() {
        Some(Consistency::OrphanedMetadata)
    } else {
        None
    }
}

} // verus!
