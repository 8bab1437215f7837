//! The audit of a lockfile against the advisory database: what was found,
//! and the report that tells the operator of it.
//!
//! Matching advisories with locked packages is the work of `rustsec`. What
//! it finds is held here as plain text, and the report is written from that.

use crate::graph::optional_text;
use crate::text::{decimal, decimal_string, join, joined};
use vstd::prelude::*;

verus! {

/// A security advisory, as far as the report reads it.
pub struct Advisory {
    pub id: String,
    pub title: String,
    /// The day of publication.
    pub date: String,
    /// The page that the advisory itself names, if any.
    pub url: Option<String>,
    /// The versions that hold a fix; empty where none does.
    pub patched: Vec<String>,
}

/// A vulnerability found: a locked package together with an advisory that
/// affects it.
pub struct Finding {
    pub name: String,
    pub version: String,
    pub advisory: Advisory,
}

/// What a `Finding` holds, as plain text.
pub struct FindingView {
    pub name: Seq<char>,
    pub version: Seq<char>,
    pub id: Seq<char>,
    pub title: Seq<char>,
    pub date: Seq<char>,
    pub url: Option<Seq<char>>,
    pub patched: Seq<Seq<char>>,
}

impl View for Finding {
    type V = FindingView;

    open spec fn view(&self) -> FindingView {
        FindingView {
            name: self.name@,
            version: self.version@,
            id: self.advisory.id@,
            title: self.advisory.title@,
            date: self.advisory.date@,
            url: optional_text(self.advisory.url),
            patched: self.advisory.patched.deep_view(),
        }
    }
}

/// The views of vulnerabilities, in order.
pub open spec fn finding_views(list: Seq<Finding>) -> Seq<FindingView> {
    list.map_values(|v: Finding| v@)
}

/// How an audit ended.
pub enum AuditOutcome {
    /// No advisory affects a locked package.
    Clean,
    /// Advisories affect locked packages: how many the database counted, and
    /// the vulnerabilities in the order in which it gave them.
    Found { count: usize, list: Vec<Finding> },
}

/// An audit that found vulnerabilities. The report is the whole message for
/// the operator, who may decide to go on all the same.
#[derive(Debug)]
pub struct AuditFailure {
    pub report: String,
}

/// The page of the advisory with the given identifier on the site of the
/// database that issued it, as `rustsec::advisory::Id::url` gives it; `None`
/// where the identifier is not one that `rustsec` reads, or has no page.
pub uninterp spec fn advisory_url(id: Seq<char>) -> Option<Seq<char>>;

/// The page to send the operator to: the advisory's page with its issuer
/// where there is one, else the page that the advisory names.
pub open spec fn resolved_url(canonical: Option<Seq<char>>, named: Option<Seq<char>>) -> Option<
    Seq<char>,
> {
    match canonical {
        Some(url) => Some(url),
        None => named,
    }
}

/// The line of the report that gives the page, or nothing without a page.
pub open spec fn url_line(url: Option<Seq<char>>) -> Seq<char> {
    match url {
        Some(u) => "URL:      "@ + u + "\n"@,
        None => Seq::empty(),
    }
}

/// The line of the report that says what to do.
pub open spec fn solution_line(patched: Seq<Seq<char>>) -> Seq<char> {
    if patched.len() == 0 {
        "Solution: No solution available\n"@
    } else {
        "Solution: Upgrade to "@ + joined(patched, " or "@) + "\n"@
    }
}

/// The block of the report on one vulnerability, given the page of its
/// advisory with the issuer.
pub open spec fn block_text(v: FindingView, canonical: Option<Seq<char>>) -> Seq<char> {
    "\n"@ + "Crate:    "@ + v.name + "\n"@ + "Version:  "@ + v.version + "\n"@ + "Title:    "@
        + v.title + "\n"@ + "Date:     "@ + v.date + "\n"@ + "ID:       "@ + v.id + "\n"@
        + url_line(resolved_url(canonical, v.url)) + solution_line(v.patched)
}

/// The first line of the report.
pub open spec fn header_text(count: nat) -> Seq<char> {
    if count == 1 {
        "Found "@ + decimal(count) + " vulnerability:\n"@
    } else {
        "Found "@ + decimal(count) + " vulnerabilities:\n"@
    }
}

/// The blocks of the report, one for each vulnerability, in order.
pub open spec fn blocks_text(list: Seq<FindingView>) -> Seq<char>
    decreases list.len(),
{
    if list.len() == 0 {
        Seq::empty()
    } else {
        blocks_text(list.drop_last()) + block_text(list.last(), advisory_url(list.last().id))
    }
}

/// What the report closes with.
pub open spec fn closing_text() -> Seq<char> {
    "\nPlease fix the issues or use \"--noaudit\" flag.\n"@
}

/// The whole report.
pub open spec fn report_text(count: nat, list: Seq<FindingView>) -> Seq<char> {
    header_text(count) + blocks_text(list) + closing_text()
}

/// Asks `rustsec` for the page of an advisory: reads the identifier with
/// `rustsec::advisory::Id::from_str` and calls `Id::url` on it. Trusted: the
/// answer depends on the identifier alone, and is what `advisory_url` names.
#[verifier::external_body]
fn canonical_url(id: &str) -> (r: Option<String>)
    ensures
        optional_text(r) == advisory_url(id@),
{
    id.parse::<rustsec::advisory::Id>().ok().and_then(|parsed| parsed.url())
}

/// Chooses the page to send the operator to.
pub fn resolve_url(canonical: Option<String>, named: &Option<String>) -> (r: Option<String>)
    ensures
        optional_text(r) == resolved_url(optional_text(canonical), optional_text(*named)),
{
    match canonical {
        Some(url) => Some(url),
        None => match named {
            Some(url) => Some(url.clone()),
            None => None,
        },
    }
}

/// Writes the line that says what to do about a vulnerability.
pub fn format_solution(patched: &Vec<String>) -> (r: String)
    ensures
        r@ == solution_line(patched.deep_view()),
{
    if patched.len() == 0 {
        String::from_str("Solution: No solution available\n")
    } else {
        let mut r = String::from_str("Solution: Upgrade to ");
        let versions = join(patched, " or ");
        r.append(versions.as_str());
        r.append("\n");
        r
    }
}

/// Writes the block of the report on one vulnerability, given the page of
/// its advisory with the issuer.
pub fn format_finding(v: &Finding, canonical: Option<String>) -> (r: String)
    ensures
        r@ == block_text(v@, optional_text(canonical)),
{
    let mut r = String::from_str("\n");
    r.append("Crate:    ");
    r.append(v.name.as_str());
    r.append("\n");
    r.append("Version:  ");
    r.append(v.version.as_str());
    r.append("\n");
    r.append("Title:    ");
    r.append(v.advisory.title.as_str());
    r.append("\n");
    r.append("Date:     ");
    r.append(v.advisory.date.as_str());
    r.append("\n");
    r.append("ID:       ");
    r.append(v.advisory.id.as_str());
    r.append("\n");
    let ghost head = r@;
    let url = resolve_url(canonical, &v.advisory.url);
    match url {
        Some(u) => {
            r.append("URL:      ");
            r.append(u.as_str());
            r.append("\n");
            assert(r@ =~= head + url_line(Some(u@)));
        },
        None => {
            assert(r@ =~= head + url_line(None));
        },
    }
    let solution = format_solution(&v.advisory.patched);
    r.append(solution.as_str());
    r
}

/// Writes the first line of the report.
pub fn format_header(count: usize) -> (r: String)
    ensures
        r@ == header_text(count as nat),
{
    let mut r = String::from_str("Found ");
    let number = decimal_string(count);
    r.append(number.as_str());
    if count == 1 {
        r.append(" vulnerability:\n");
    } else {
        r.append(" vulnerabilities:\n");
    }
    r
}

/// Writes the report on the vulnerabilities found: the header with the
/// count, a block for each vulnerability in the order given, and the closing
/// line that names the way to go on regardless.
pub fn audit_report(count: usize, list: &Vec<Finding>) -> (r: String)
    ensures
        r@ == report_text(count as nat, finding_views(list@)),
{
    let mut r = format_header(count);
    let ghost all = finding_views(list@);
    let mut i: usize = 0;
    proof {
        assert(all.take(0) =~= Seq::<FindingView>::empty());
        assert(r@ =~= header_text(count as nat) + blocks_text(all.take(0)));
    }
    while i < list.len()
        invariant
            i <= list.len(),
            all == finding_views(list@),
            r@ == header_text(count as nat) + blocks_text(all.take(i as int)),
        decreases list.len() - i,
    {
        let v = &list[i];
        let block = format_finding(v, canonical_url(v.advisory.id.as_str()));
        proof {
            assert(all[i as int] == v@);
            assert(all.take(i + 1).drop_last() =~= all.take(i as int));
            assert(all.take(i + 1).last() == v@);
        }
        r.append(block.as_str());
        proof {
            assert(r@ =~= header_text(count as nat) + blocks_text(all.take(i + 1)));
        }
        i += 1;
    }
    proof {
        assert(all.take(list.len() as int) =~= all);
    }
    r.append("\nPlease fix the issues or use \"--noaudit\" flag.\n");
    r
}

impl AuditOutcome {
    /// The outcome that the parts of a report stand for: clean unless
    /// vulnerabilities were found.
    pub fn new(found: bool, count: usize, list: Vec<Finding>) -> (r: AuditOutcome)
        ensures
            !found ==> r is Clean,
            found ==> r == (AuditOutcome::Found { count, list }),
    {
        if found {
            AuditOutcome::Found { count, list }
        } else {
            AuditOutcome::Clean
        }
    }

    /// Whether the outcome counts what it lists: one that found
    /// vulnerabilities lists at least one, and its count is their number.
    pub open spec fn tallies(self) -> bool {
        match self {
            AuditOutcome::Clean => true,
            AuditOutcome::Found { count, list } => list@.len() > 0 && count == list@.len(),
        }
    }

    /// How many vulnerabilities the audit counted.
    pub open spec fn vulnerabilities(self) -> nat {
        match self {
            AuditOutcome::Clean => 0,
            AuditOutcome::Found { count, list } => count as nat,
        }
    }

    /// How many vulnerabilities the audit counted: none for a clean one.
    pub fn count(&self) -> (n: usize)
        ensures
            n == self.vulnerabilities(),
    {
        match self {
            AuditOutcome::Clean => 0,
            AuditOutcome::Found { count, list } => *count,
        }
    }
}

/// Judges an audit: a clean one passes in silence, and one that found
/// vulnerabilities fails with the report on them.
pub fn audit_result(outcome: &AuditOutcome) -> (r: Result<(), AuditFailure>)
    ensures
        match *outcome {
            AuditOutcome::Clean => r is Ok,
            AuditOutcome::Found { count, list } => r matches Err(failure) && failure.report@
                == report_text(count as nat, finding_views(list@)),
        },
{
    match outcome {
        AuditOutcome::Clean => Ok(()),
        AuditOutcome::Found { count, list } => Err(
            AuditFailure { report: audit_report(*count, list) },
        ),
    }
}

/// `rustsec`'s database of advisories; nothing of it is read here.
#[verifier::external_type_specification]
#[verifier::external_body]
pub struct ExDatabase(rustsec::Database);

/// `rustsec`'s lockfile; nothing of it is read here.
#[verifier::external_type_specification]
#[verifier::external_body]
pub struct ExLockfile(rustsec::Lockfile);

/// `rustsec`'s pairing of a package with an advisory; it is read by
/// `to_finding` alone.
#[verifier::external_type_specification]
#[verifier::external_body]
pub struct ExVulnerability(rustsec::Vulnerability);

/// What a `rustsec::Vulnerability` holds of what the report reads, each part
/// as the text that `rustsec` prints for it.
pub uninterp spec fn finding_of(v: rustsec::Vulnerability) -> FindingView;

/// The vulnerabilities that `rustsec::Report::generate` lists for a database
/// and a lockfile under `rustsec`'s default settings, in its order, each as
/// `finding_of` reads it.
pub uninterp spec fn matched_findings(
    database: rustsec::Database,
    lockfile: rustsec::Lockfile,
) -> Seq<FindingView>;

/// What a list of `rustsec`'s vulnerabilities holds, item by item.
pub open spec fn findings_read(matches: Seq<rustsec::Vulnerability>) -> Seq<FindingView> {
    matches.map_values(|v: rustsec::Vulnerability| finding_of(v))
}

/// Calls `rustsec::Report::generate` with `rustsec`'s default settings and
/// hands out the three parts of what the report says of vulnerabilities:
/// whether any were found, their count, and their list. Trusted: the report
/// is taken to say that vulnerabilities were found exactly if the list is
/// not empty, and to count the items of the list, which is how
/// `rustsec::report::VulnerabilityInfo::new` fills it. The list depends on
/// the database and the lockfile alone: it is what `matched_findings` names.
#[verifier::external_body]
fn generate_report(database: &rustsec::Database, lockfile: &rustsec::Lockfile) -> (r: (
    bool,
    usize,
    Vec<rustsec::Vulnerability>,
))
    ensures
        r.0 == (r.2@.len() > 0),
        r.1 == r.2@.len(),
        findings_read(r.2@) == matched_findings(*database, *lockfile),
{
    let settings = rustsec::report::Settings::default();
    let info = rustsec::Report::generate(database, lockfile, &settings).vulnerabilities;
    (info.found, info.count, info.list)
}

/// Copies out of a `rustsec::Vulnerability` what the report reads, each part
/// as the text that `rustsec` prints for it. Trusted: the copy depends on
/// the vulnerability alone, and is what `finding_of` names.
#[verifier::external_body]
fn to_finding(v: &rustsec::Vulnerability) -> (r: Finding)
    ensures
        r@ == finding_of(*v),
{
    Finding {
        name: v.package.name.as_str().to_string(),
        version: v.package.version.to_string(),
        advisory: Advisory {
            id: v.advisory.id.as_str().to_string(),
            title: v.advisory.title.clone(),
            date: v.advisory.date.as_str().to_string(),
            url: v.advisory.url.as_ref().map(|u| u.to_string()),
            patched: v.versions.patched().iter().map(|p| p.to_string()).collect(),
        },
    }
}

/// Holds as plain text what `rustsec` found, item by item and in its order.
pub fn findings_of(matches: &Vec<rustsec::Vulnerability>) -> (list: Vec<Finding>)
    ensures
        list.len() == matches.len(),
        finding_views(list@) == findings_read(matches@),
{
    let mut list: Vec<Finding> = Vec::new();
    let mut i: usize = 0;
    proof {
        assert(finding_views(list@) =~= findings_read(matches@.take(0)));
    }
    while i < matches.len()
        invariant
            i <= matches.len(),
            list.len() == i,
            finding_views(list@) == findings_read(matches@.take(i as int)),
        decreases matches.len() - i,
    {
        let ghost before = list@;
        let finding = to_finding(&matches[i]);
        list.push(finding);
        proof {
            assert(list@ == before.push(finding));
            assert(matches@.take(i + 1) =~= matches@.take(i as int).push(matches@[i as int]));
            assert(finding_views(list@) =~= finding_views(before).push(finding@));
            assert(findings_read(matches@.take(i + 1)) =~= findings_read(
                matches@.take(i as int),
            ).push(finding_of(matches@[i as int])));
        }
        i += 1;
    }
    proof {
        assert(matches@.take(matches.len() as int) =~= matches@);
    }
    list
}

/// Matches the locked packages against the advisories of the database, under
/// the database's default policy, and holds the outcome as plain text.
///
/// The outcome is clean exactly if `rustsec` lists no vulnerability for the
/// database and the lockfile. Else it holds the vulnerabilities listed, in
/// their order, and counts them.
pub fn scan(database: &rustsec::Database, lockfile: &rustsec::Lockfile) -> (outcome: AuditOutcome)
    ensures
        outcome.tallies(),
        match outcome {
            AuditOutcome::Clean => matched_findings(*database, *lockfile).len() == 0,
            AuditOutcome::Found { count, list } => finding_views(list@) == matched_findings(
                *database,
                *lockfile,
            ),
        },
{
    let (found, count, matches) = generate_report(database, lockfile);
    let list = findings_of(&matches);
    proof {
        assert(finding_views(list@).len() == list@.len());
        assert(findings_read(matches@).len() == matches@.len());
    }
    AuditOutcome::new(found, count, list)
}

/// Audits a lockfile against a database of advisories.
///
/// The audit passes exactly if `rustsec` lists no vulnerability for the
/// database and the lockfile. Else it fails with the report on the
/// vulnerabilities listed, headed by their number.
pub fn audit_package(database: &rustsec::Database, lockfile: &rustsec::Lockfile) -> (r: Result<
    (),
    AuditFailure,
>)
    ensures
        r is Ok <==> matched_findings(*database, *lockfile).len() == 0,
        r matches Err(failure) ==> failure.report@ == report_text(
            matched_findings(*database, *lockfile).len(),
            matched_findings(*database, *lockfile),
        ),
{
    let outcome = scan(database, lockfile);
    proof {
        if outcome is Found {
            assert(finding_views(outcome->list@).len() == outcome->list@.len());
        }
    }
    audit_result(&outcome)
}

} // verus!
