//! Conformance of the system to the standards it claims: the findings of a
//! check, the matrix of requirements with its rules of consistency, and the
//! document published from it.
use vstd::prelude::*;
use vstd::string::StringExecFns;

use crate::order::{str_less, text_less};
use crate::text::{collapse_white, concat2, concat3, decimal_string, join, replace_char, str_eq};

verus! {

/// A clause of a standard, cited as it appears there.
#[derive(Debug, Clone, Copy)]
pub struct Requirement {
    pub standard: &'static str,
    pub clause: &'static str,
    pub title: &'static str,
}

impl Requirement {
    /// How the clause is cited: the standard, and the clause where there is one.
    pub open spec fn citation(self) -> Seq<char> {
        if self.clause@.len() == 0 {
            self.standard@
        } else {
            self.standard@ + " "@ + self.clause@
        }
    }

    /// Writes the citation.
    pub fn to_string(&self) -> (r: String)
        ensures
            r@ == self.citation(),
    {
        if self.clause.is_empty() {
            self.standard.to_owned()
        } else {
            concat3(self.standard, " ", self.clause)
        }
    }
}

/// What forbids an operation, as opposed to what is only reported.
#[derive(Debug, Clone, Copy, PartialEq, Eq, Structural)]
pub enum Severity {
    /// The operation must be refused.
    Blocking,
    /// Reported and recorded, not blocking.
    Advisory,
}

impl Severity {
    pub open spec fn word(self) -> Seq<char> {
        match self {
            Severity::Blocking => "bloquant"@,
            Severity::Advisory => "avertissement"@,
        }
    }
}

/// A requirement that a given object fails to meet.
#[derive(Debug, Clone)]
pub struct Finding {
    pub requirement: Requirement,
    pub severity: Severity,
    pub detail: String,
}

impl Finding {
    /// `[severity] citation — title : detail`.
    pub open spec fn message(self) -> Seq<char> {
        "["@ + self.severity.word() + "] "@ + self.requirement.citation() + " — "@
            + self.requirement.title@ + " : "@ + self.detail@
    }

    /// Writes the message of the finding.
    pub fn to_string(&self) -> (r: String)
        ensures
            r@ == self.message(),
    {
        let mut out = "[".to_owned();
        match self.severity {
            Severity::Blocking => out.append("bloquant"),
            Severity::Advisory => out.append("avertissement"),
        }
        out.append("] ");
        out.append(self.requirement.to_string().as_str());
        out.append(" — ");
        out.append(self.requirement.title);
        out.append(" : ");
        out.append(self.detail.as_str());
        out
    }
}

/// The findings of a check.
#[derive(Debug, Clone)]
pub struct Findings(pub Vec<Finding>);

impl Default for Findings {
    fn default() -> (r: Findings)
        ensures
            r.0@ == Seq::<Finding>::empty(),
    {
        Findings(Vec::new())
    }
}

/// The findings of one severity, in their order.
pub open spec fn of_severity(findings: Seq<Finding>, severity: Severity) -> Seq<Finding>
    decreases findings.len(),
{
    if findings.len() == 0 {
        seq![]
    } else {
        let before = of_severity(findings.drop_last(), severity);
        if findings.last().severity == severity {
            before.push(findings.last())
        } else {
            before
        }
    }
}

/// The messages of findings, in their order.
pub open spec fn messages(findings: Seq<Finding>) -> Seq<Seq<char>> {
    findings.map_values(|f: Finding| f.message())
}

/// What a list of borrowed findings lists.
pub open spec fn borrowed(findings: Seq<&Finding>) -> Seq<Finding> {
    findings.map_values(|f: &Finding| *f)
}

/// Every finding is either blocking or advisory, never both.
pub proof fn severities_partition(findings: Seq<Finding>)
    ensures
        of_severity(findings, Severity::Blocking).len() + of_severity(
            findings,
            Severity::Advisory,
        ).len() == findings.len(),
        forall|f: Finding|
            findings.contains(f) <==> of_severity(findings, Severity::Blocking).contains(f)
                || of_severity(findings, Severity::Advisory).contains(f),
    decreases findings.len(),
{
    if findings.len() > 0 {
        let rest = findings.drop_last();
        let last = findings.last();
        severities_partition(rest);
        let b = of_severity(rest, Severity::Blocking);
        let a = of_severity(rest, Severity::Advisory);
        assert forall|f: Finding| findings.contains(f) <==> of_severity(
            findings,
            Severity::Blocking,
        ).contains(f) || of_severity(findings, Severity::Advisory).contains(f) by {
            pushed_contains(rest, last, f);
            pushed_contains(b, last, f);
            pushed_contains(a, last, f);
            assert(findings =~= rest.push(last));
        }
    } else {
        assert(of_severity(findings, Severity::Blocking) =~= findings);
        assert(of_severity(findings, Severity::Advisory) =~= findings);
    }
}

proof fn pushed_contains(s: Seq<Finding>, last: Finding, f: Finding)
    ensures
        s.push(last).contains(f) <==> s.contains(f) || f == last,
{
    if s.contains(f) {
        let i = choose|i: int| 0 <= i < s.len() && s[i] == f;
        assert(s.push(last)[i] == f);
    }
    if f == last {
        assert(s.push(last)[s.len() as int] == f);
    }
}

impl Findings {
    fn select(&self, severity: Severity) -> (r: Vec<&Finding>)
        ensures
            borrowed(r@) == of_severity(self.0@, severity),
    {
        let mut out: Vec<&Finding> = Vec::new();
        let mut i: usize = 0;
        while i < self.0.len()
            invariant
                i <= self.0@.len(),
                borrowed(out@) == of_severity(self.0@.take(i as int), severity),
            decreases self.0.len() - i,
        {
            let ghost before = out@;
            proof {
                assert(self.0@.take(i + 1).drop_last() =~= self.0@.take(i as int));
            }
            if self.0[i].severity == severity {
                out.push(&self.0[i]);
                proof {
                    assert(borrowed(out@) =~= borrowed(before).push(self.0@[i as int]));
                }
            }
            i += 1;
        }
        assert(self.0@.take(self.0@.len() as int) =~= self.0@);
        out
    }

    /// The findings that forbid the operation.
    pub fn blocking(&self) -> (r: Vec<&Finding>)
        ensures
            borrowed(r@) == of_severity(self.0@, Severity::Blocking),
    {
        self.select(Severity::Blocking)
    }

    /// The findings that are only reported.
    pub fn advisories(&self) -> (r: Vec<&Finding>)
        ensures
            borrowed(r@) == of_severity(self.0@, Severity::Advisory),
    {
        self.select(Severity::Advisory)
    }

    /// The blocking findings as one error, or `None` where there is none.
    pub fn err(&self) -> (r: Option<String>)
        ensures
            r is None <==> of_severity(self.0@, Severity::Blocking).len() == 0,
            r matches Some(text) ==> text@ == "non-conformité ETSI: "@ + crate::text::joined(
                messages(of_severity(self.0@, Severity::Blocking)),
                " ; "@,
            ),
    {
        let blocking = self.blocking();
        assert(borrowed(blocking@).len() == blocking@.len());
        if blocking.is_empty() {
            return None;
        }
        let mut parts: Vec<String> = Vec::new();
        let mut i: usize = 0;
        while i < blocking.len()
            invariant
                i <= blocking@.len(),
                parts@.len() == i,
                forall|k: int| 0 <= k < i ==> (#[trigger] parts@[k])@ == blocking@[k].message(),
            decreases blocking.len() - i,
        {
            parts.push(blocking[i].to_string());
            i += 1;
        }
        assert(crate::text::views(parts@) =~= messages(borrowed(blocking@)));
        let list = join(&parts, " ; ");
        Some(concat2("non-conformité ETSI: ", list.as_str()))
    }
}

/// The state of a requirement for the system as a whole.
#[derive(Debug, Clone, Copy, PartialEq, Eq, Hash, PartialOrd, Ord, Structural)]
pub enum Status {
    /// Applied by the code and checked by a named test.
    Covered,
    /// A known gap, with a compensating measure and a target.
    Gap,
    /// An organisational requirement, which no software can meet alone.
    OutOfScope,
}

impl Status {
    /// The word that the published document uses for the status.
    pub open spec fn word(self) -> Seq<char> {
        match self {
            Status::Covered => "couvert"@,
            Status::Gap => "écart documenté"@,
            Status::OutOfScope => "hors périmètre logiciel"@,
        }
    }

    /// Gives the word for the status.
    pub fn label(self) -> (r: &'static str)
        ensures
            r@ == self.word(),
    {
        match self {
            Status::Covered => "couvert",
            Status::Gap => "écart documenté",
            Status::OutOfScope => "hors périmètre logiciel",
        }
    }
}

/// A line of the conformance matrix.
#[derive(Debug, Clone, Copy)]
pub struct Entry {
    pub requirement: Requirement,
    pub status: Status,
    /// The code that applies the requirement, or the compensating measure.
    pub mechanism: &'static str,
    /// The test that checks the mechanism. Empty outside the software.
    pub test: &'static str,
    /// What is left to do to close a gap. Empty where covered.
    pub target: &'static str,
}

/// The conformance matrix of the system.
#[derive(Debug, Clone)]
pub struct Matrix(pub Vec<Entry>);

impl Default for Matrix {
    fn default() -> (r: Matrix)
        ensures
            r.0@ == Seq::<Entry>::empty(),
    {
        Matrix(Vec::new())
    }
}

/// How many entries have each status.
#[derive(Debug, Clone, Copy, PartialEq, Eq, Structural)]
pub struct Counts {
    pub covered: usize,
    pub gap: usize,
    pub out_of_scope: usize,
}

impl Counts {
    pub open spec fn of(self, status: Status) -> usize {
        match status {
            Status::Covered => self.covered,
            Status::Gap => self.gap,
            Status::OutOfScope => self.out_of_scope,
        }
    }

    /// The count for one status.
    pub fn get(&self, status: Status) -> (r: usize)
        ensures
            r == self.of(status),
    {
        match status {
            Status::Covered => self.covered,
            Status::Gap => self.gap,
            Status::OutOfScope => self.out_of_scope,
        }
    }
}

/// How many of the entries have the status.
pub open spec fn count(entries: Seq<Entry>, status: Status) -> nat
    decreases entries.len(),
{
    if entries.len() == 0 {
        0
    } else {
        count(entries.drop_last(), status) + if entries.last().status == status {
            1nat
        } else {
            0nat
        }
    }
}

/// The three counts add up to the number of entries.
pub proof fn counts_add_up(entries: Seq<Entry>)
    ensures
        count(entries, Status::Covered) + count(entries, Status::Gap) + count(
            entries,
            Status::OutOfScope,
        ) == entries.len(),
    decreases entries.len(),
{
    if entries.len() > 0 {
        counts_add_up(entries.drop_last());
    }
}

/// Some entry cites the standard.
pub open spec fn cites(entries: Seq<Entry>, standard: Seq<char>) -> bool {
    exists|i: int| 0 <= i < entries.len() && (#[trigger] entries[i]).requirement.standard@ == standard
}

/// The views of a list of literal texts.
pub open spec fn literal_views(list: Seq<&'static str>) -> Seq<Seq<char>> {
    list.map_values(|s: &'static str| s@)
}

/// In strictly ascending order of texts.
pub open spec fn ascending(list: Seq<Seq<char>>) -> bool {
    forall|i: int, j: int| 0 <= i < j < list.len() ==> text_less(#[trigger] list[i], #[trigger] list[j])
}

/// `list` holds the standards that the entries cite, each once, in ascending
/// order.
pub open spec fn lists_standards(list: Seq<Seq<char>>, entries: Seq<Entry>) -> bool {
    &&& ascending(list)
    &&& forall|s: Seq<char>| #[trigger] list.contains(s) <==> cites(entries, s)
}

/// There is only one such list.
pub proof fn standards_are_unique(a: Seq<Seq<char>>, b: Seq<Seq<char>>, entries: Seq<Entry>)
    requires
        lists_standards(a, entries),
        lists_standards(b, entries),
    ensures
        a == b,
{
    assert forall|s: Seq<char>| #[trigger] a.contains(s) <==> b.contains(s) by {}
    ascending_unique(a, b);
}

/// Dropping the last text of an ascending list removes that text and no other.
proof fn ascending_shrinks(a: Seq<Seq<char>>)
    requires
        ascending(a),
        a.len() > 0,
    ensures
        ascending(a.drop_last()),
        forall|s: Seq<char>| #[trigger]
            a.drop_last().contains(s) <==> a.contains(s) && s != a.last(),
        forall|s: Seq<char>| #[trigger] a.contains(s) ==> s == a.last() || text_less(s, a.last()),
{
    let r = a.drop_last();
    assert forall|s: Seq<char>| #[trigger] r.contains(s) <==> a.contains(s) && s != a.last() by {
        if r.contains(s) {
            let k = choose|k: int| 0 <= k < r.len() && r[k] == s;
            assert(a[k] == s);
            assert(text_less(a[k], a[a.len() - 1]));
            crate::order::text_trichotomy(s, a.last());
        }
        if a.contains(s) && s != a.last() {
            let m = choose|m: int| 0 <= m < a.len() && a[m] == s;
            assert(r[m] == s);
        }
    }
    assert forall|p: int, q: int| 0 <= p < q < r.len() implies text_less(
        #[trigger] r[p],
        #[trigger] r[q],
    ) by {
        assert(text_less(a[p], a[q]));
    }
    assert forall|s: Seq<char>| #[trigger] a.contains(s) implies s == a.last() || text_less(
        s,
        a.last(),
    ) by {
        let m = choose|m: int| 0 <= m < a.len() && a[m] == s;
        if m < a.len() - 1 {
            assert(text_less(a[m], a[a.len() - 1]));
        }
    }
}

proof fn ascending_unique(a: Seq<Seq<char>>, b: Seq<Seq<char>>)
    requires
        ascending(a),
        ascending(b),
        forall|s: Seq<char>| #[trigger] a.contains(s) <==> b.contains(s),
    ensures
        a == b,
    decreases a.len(),
{
    if a.len() == 0 {
        if b.len() > 0 {
            assert(b.contains(b[0]));
            assert(a.contains(b[0]));
        }
        assert(a =~= b);
    } else {
        let x = a.last();
        assert(a.contains(x));
        assert(b.contains(x));
        let y = b.last();
        assert(b.contains(y));
        assert(a.contains(y));
        ascending_shrinks(a);
        ascending_shrinks(b);
        crate::order::text_trichotomy(x, y);
        crate::order::text_trichotomy(y, x);
        assert(x == y);
        ascending_unique(a.drop_last(), b.drop_last());
        assert(a =~= a.drop_last().push(x));
        assert(b =~= b.drop_last().push(y));
    }
}

/// Adds a text to an ascending list, unless the list holds it already.
fn insert_ascending(list: &mut Vec<&'static str>, s: &'static str)
    requires
        ascending(literal_views(old(list)@)),
    ensures
        ascending(literal_views(final(list)@)),
        forall|t: Seq<char>| #[trigger]
            literal_views(final(list)@).contains(t) <==> literal_views(old(list)@).contains(t) || t
                == s@,
{
    let ghost before = literal_views(list@);
    let mut p: usize = 0;
    while p < list.len() && str_less(list[p], s)
        invariant
            p <= list@.len(),
            before == literal_views(list@),
            forall|k: int| 0 <= k < p ==> text_less(#[trigger] before[k], s@),
        decreases list.len() - p,
    {
        p += 1;
    }
    if p < list.len() && str_eq(list[p], s) {
        assert(before[p as int] == s@);
        return ;
    }
    list.insert(p, s);
    proof {
        let after = literal_views(list@);
        assert(after =~= before.insert(p as int, s@));
        if p < before.len() {
            crate::order::text_trichotomy(before[p as int], s@);
        }
        assert forall|i: int, j: int| 0 <= i < j < after.len() implies text_less(
            #[trigger] after[i],
            #[trigger] after[j],
        ) by {
            let oi = if i < p { i } else { i - 1 };
            let oj = if j < p { j } else { j - 1 };
            if i == p {
                if oj > p {
                    assert(text_less(before[p as int], before[oj]));
                    crate::order::text_transitive(s@, before[p as int], before[oj]);
                }
            } else if j != p {
                assert(text_less(before[oi], before[oj]));
            }
        }
        assert forall|t: Seq<char>| #[trigger] after.contains(t) <==> before.contains(t) || t
            == s@ by {
            if before.contains(t) {
                let k = choose|k: int| 0 <= k < before.len() && before[k] == t;
                assert(after[if k < p { k } else { k + 1 }] == t);
            }
            if t == s@ {
                assert(after[p as int] == t);
            }
            if after.contains(t) {
                let k = choose|k: int| 0 <= k < after.len() && after[k] == t;
                if k != p {
                    assert(before[if k < p { k } else { k - 1 }] == t);
                }
            }
        }
    }
}

/// The entry is the second, or a later one, with its citation.
pub open spec fn repeated(entries: Seq<Entry>, i: int) -> bool {
    exists|j: int|
        0 <= j < i && (#[trigger] entries[j]).requirement.citation()
            == entries[i].requirement.citation()
}

/// What the entry itself lacks for its status.
pub open spec fn lacks(e: Entry) -> Seq<Seq<char>> {
    let key = e.requirement.citation();
    match e.status {
        Status::Covered => problem_if(
            e.mechanism@.len() == 0,
            key + ": couvert mais aucun mécanisme nommé"@,
        ) + problem_if(e.test@.len() == 0, key + ": couvert mais aucun test nommé"@),
        Status::Gap => problem_if(
            e.mechanism@.len() == 0,
            key + ": écart sans mesure compensatoire"@,
        ) + problem_if(e.target@.len() == 0, key + ": écart sans cible de levée"@),
        Status::OutOfScope => problem_if(
            e.target@.len() == 0,
            key + ": hors périmètre sans mesure attendue"@,
        ),
    }
}

/// One problem, or none.
pub open spec fn problem_if(present: bool, text: Seq<char>) -> Seq<Seq<char>> {
    if present {
        seq![text]
    } else {
        seq![]
    }
}

/// The problems of the first `n` entries, in order.
pub open spec fn problems(entries: Seq<Entry>, n: int) -> Seq<Seq<char>>
    decreases n,
{
    if n <= 0 {
        seq![]
    } else {
        problems(entries, n - 1) + problem_if(
            repeated(entries, n - 1),
            entries[n - 1].requirement.citation() + ": exigence déclarée deux fois"@,
        ) + lacks(entries[n - 1])
    }
}

/// The entry names what its status calls for.
pub open spec fn complete(e: Entry) -> bool {
    match e.status {
        Status::Covered => e.mechanism@.len() > 0 && e.test@.len() > 0,
        Status::Gap => e.mechanism@.len() > 0 && e.target@.len() > 0,
        Status::OutOfScope => e.target@.len() > 0,
    }
}

/// No citation occurs twice and every entry is complete.
pub open spec fn consistent(entries: Seq<Entry>) -> bool {
    &&& forall|i: int, j: int|
        0 <= i < j < entries.len() ==> (#[trigger] entries[i]).requirement.citation() != (
        #[trigger] entries[j]).requirement.citation()
    &&& forall|i: int| 0 <= i < entries.len() ==> complete(#[trigger] entries[i])
}

/// The matrix has no problem exactly where it is consistent.
pub proof fn no_problem_means_consistent(entries: Seq<Entry>)
    ensures
        problems(entries, entries.len() as int).len() == 0 <==> consistent(entries),
{
    no_problem_up_to(entries, entries.len() as int);
    assert(entries.take(entries.len() as int) =~= entries);
}

proof fn no_problem_up_to(entries: Seq<Entry>, n: int)
    requires
        0 <= n <= entries.len(),
    ensures
        problems(entries, n).len() == 0 <==> consistent(entries.take(n)),
    decreases n,
{
    let prefix = entries.take(n);
    if n > 0 {
        no_problem_up_to(entries, n - 1);
        let shorter = entries.take(n - 1);
        let last = entries[n - 1];
        assert(prefix[n - 1] == last);
        assert(lacks(last).len() == 0 <==> complete(last));
        if consistent(prefix) {
            assert forall|i: int, j: int| 0 <= i < j < shorter.len() implies (
            #[trigger] shorter[i]).requirement.citation() != (
            #[trigger] shorter[j]).requirement.citation() by {
                assert(prefix[i].requirement.citation() != prefix[j].requirement.citation());
            }
            assert forall|i: int| 0 <= i < shorter.len() implies complete(#[trigger] shorter[i]) by {
                assert(complete(prefix[i]));
            }
            if repeated(entries, n - 1) {
                let j = choose|j: int|
                    0 <= j < n - 1 && (#[trigger] entries[j]).requirement.citation()
                        == last.requirement.citation();
                assert(prefix[j].requirement.citation() != prefix[n - 1].requirement.citation());
            }
        }
        if problems(entries, n).len() == 0 {
            assert forall|i: int, j: int| 0 <= i < j < prefix.len() implies (
            #[trigger] prefix[i]).requirement.citation() != (
            #[trigger] prefix[j]).requirement.citation() by {
                if j < n - 1 {
                    assert(shorter[i].requirement.citation() != shorter[j].requirement.citation());
                } else {
                    assert(!repeated(entries, n - 1));
                    assert(entries[i] == prefix[i]);
                }
            }
            assert forall|i: int| 0 <= i < prefix.len() implies complete(#[trigger] prefix[i]) by {
                if i < n - 1 {
                    assert(complete(shorter[i]));
                }
            }
        }
    }
}

impl Matrix {
    /// How many entries have each status.
    pub fn counts(&self) -> (r: Counts)
        ensures
            forall|s: Status| #[trigger] r.of(s) == count(self.0@, s),
    {
        let mut out = Counts { covered: 0, gap: 0, out_of_scope: 0 };
        let mut i: usize = 0;
        while i < self.0.len()
            invariant
                i <= self.0@.len(),
                out.covered <= i,
                out.gap <= i,
                out.out_of_scope <= i,
                forall|s: Status| #[trigger] out.of(s) == count(self.0@.take(i as int), s),
            decreases self.0.len() - i,
        {
            let ghost before = out;
            assert(self.0@.take(i + 1).drop_last() =~= self.0@.take(i as int));
            match self.0[i].status {
                Status::Covered => {
                    out.covered = out.covered + 1;
                },
                Status::Gap => {
                    out.gap = out.gap + 1;
                },
                Status::OutOfScope => {
                    out.out_of_scope = out.out_of_scope + 1;
                },
            }
            assert forall|s: Status| #[trigger] out.of(s) == count(self.0@.take(i + 1), s) by {
                assert(before.of(s) == count(self.0@.take(i as int), s));
            }
            i += 1;
        }
        assert(self.0@.take(self.0@.len() as int) =~= self.0@);
        out
    }

    /// The standards that the matrix cites, in alphabetical order.
    pub fn standards(&self) -> (r: Vec<&'static str>)
        ensures
            lists_standards(literal_views(r@), self.0@),
    {
        let mut out: Vec<&'static str> = Vec::new();
        let mut i: usize = 0;
        while i < self.0.len()
            invariant
                i <= self.0@.len(),
                lists_standards(literal_views(out@), self.0@.take(i as int)),
            decreases self.0.len() - i,
        {
            let ghost before = literal_views(out@);
            let ghost prefix = self.0@.take(i as int);
            let ghost next = self.0@.take(i + 1);
            insert_ascending(&mut out, self.0[i].requirement.standard);
            proof {
                let after = literal_views(out@);
                let added = self.0@[i as int].requirement.standard@;
                assert forall|s: Seq<char>| #[trigger] after.contains(s) <==> cites(next, s) by {
                    assert(before.contains(s) <==> cites(prefix, s));
                    if cites(prefix, s) {
                        let k = choose|k: int|
                            0 <= k < prefix.len() && (
                            #[trigger] prefix[k]).requirement.standard@ == s;
                        assert(next[k] == prefix[k]);
                    }
                    if s == added {
                        assert(next[i as int].requirement.standard@ == s);
                    }
                    if cites(next, s) {
                        let k = choose|k: int|
                            0 <= k < next.len() && (
                            #[trigger] next[k]).requirement.standard@ == s;
                        if k < i {
                            assert(prefix[k].requirement.standard@ == s);
                        }
                    }
                }
            }
            i += 1;
        }
        assert(self.0@.take(self.0@.len() as int) =~= self.0@);
        out
    }

    fn is_repeated(&self, i: usize, key: &String) -> (r: bool)
        requires
            i < self.0@.len(),
            key@ == self.0@[i as int].requirement.citation(),
        ensures
            r == repeated(self.0@, i as int),
    {
        let mut j: usize = 0;
        while j < i
            invariant
                j <= i < self.0@.len(),
                key@ == self.0@[i as int].requirement.citation(),
                forall|k: int|
                    0 <= k < j ==> (#[trigger] self.0@[k]).requirement.citation() != key@,
            decreases i - j,
        {
            let other = self.0[j].requirement.to_string();
            if str_eq(other.as_str(), key.as_str()) {
                return true;
            }
            j += 1;
        }
        false
    }

    /// Checks that the matrix is consistent: a covered requirement names its
    /// mechanism and its test, a gap its compensating measure and its target,
    /// what is out of scope the measure expected, and nothing occurs twice.
    /// Otherwise gives all problems, in the order of the entries.
    pub fn validate(&self) -> (r: Result<(), String>)
        ensures
            r is Ok <==> consistent(self.0@),
            r matches Err(text) ==> text@ == "matrice de conformité incohérente: "@
                + crate::text::joined(problems(self.0@, self.0@.len() as int), " ; "@),
    {
        let mut found: Vec<String> = Vec::new();
        let mut i: usize = 0;
        while i < self.0.len()
            invariant
                i <= self.0@.len(),
                crate::text::views(found@) == problems(self.0@, i as int),
            decreases self.0.len() - i,
        {
            let e = &self.0[i];
            let key = e.requirement.to_string();
            let twice = self.is_repeated(i, &key);
            push_problem(&mut found, twice, &key, ": exigence déclarée deux fois");
            match e.status {
                Status::Covered => {
                    push_problem(
                        &mut found,
                        e.mechanism.is_empty(),
                        &key,
                        ": couvert mais aucun mécanisme nommé",
                    );
                    push_problem(
                        &mut found,
                        e.test.is_empty(),
                        &key,
                        ": couvert mais aucun test nommé",
                    );
                },
                Status::Gap => {
                    push_problem(
                        &mut found,
                        e.mechanism.is_empty(),
                        &key,
                        ": écart sans mesure compensatoire",
                    );
                    push_problem(
                        &mut found,
                        e.target.is_empty(),
                        &key,
                        ": écart sans cible de levée",
                    );
                },
                Status::OutOfScope => {
                    push_problem(
                        &mut found,
                        e.target.is_empty(),
                        &key,
                        ": hors périmètre sans mesure attendue",
                    );
                },
            }
            assert(crate::text::views(found@) =~= problems(self.0@, i + 1));
            i += 1;
        }
        proof {
            no_problem_means_consistent(self.0@);
            assert(crate::text::views(found@).len() == found@.len());
        }
        if found.is_empty() {
            Ok(())
        } else {
            let list = join(&found, " ; ");
            Err(concat2("matrice de conformité incohérente: ", list.as_str()))
        }
    }
}

fn push_problem(found: &mut Vec<String>, present: bool, key: &String, text: &str)
    ensures
        crate::text::views(final(found)@) == crate::text::views(old(found)@) + problem_if(
            present,
            key@ + text@,
        ),
{
    let ghost before = found@;
    if present {
        found.push(concat2(key.as_str(), text));
    }
    assert(crate::text::views(found@) =~= crate::text::views(before) + problem_if(
        present,
        key@ + text@,
    ));
}

/// A text made fit for a cell of a Markdown table: bars escaped, white space
/// collapsed.
pub open spec fn cell_text(s: Seq<char>) -> Seq<char> {
    crate::text::joined(crate::text::words(crate::text::replaced(s, '|', "\\|"@)), seq![' '])
}

/// Makes a text fit for a cell of a Markdown table.
pub fn cell(s: &str) -> (r: String)
    ensures
        r@ == cell_text(s@),
{
    let escaped = replace_char(s, '|', "\\|");
    collapse_white(escaped.as_str())
}

/// The opening of the published document, up to the counts.
pub const MARKDOWN_TITLE: &'static str = "# Matrice de conformité ETSI\n\n<!-- Document généré par `ca-server conformance --markdown` depuis\n     oe-conformance::system_matrix. Ne pas modifier à la main : toute\n     correction se fait dans le code, pour que la matrice publiée reste\n     celle que le système applique réellement. -->\n\n";

/// The legend that follows the counts.
pub const MARKDOWN_LEGEND: &'static str = "Trois statuts seulement, pour qu'aucune zone grise ne puisse s'y loger :\n\n- **couvert** — l'exigence est appliquée par du code de ce dépôt et vérifiée par un test nommé ci-dessous ;\n- **écart documenté** — l'exigence n'est pas satisfaite en l'état ; la mesure compensatoire en place et la cible sont indiquées ;\n- **hors périmètre logiciel** — exigence organisationnelle, qu'aucun code ne peut établir seul.\n\n";

/// The head of the table of a standard.
pub const MARKDOWN_TABLE_HEAD: &'static str = "| Clause | Exigence | Statut | Mécanisme | Vérification / cible |\n|---|---|---|---|---|\n";

/// The line that gives the counts.
pub open spec fn counts_line(entries: Seq<Entry>) -> Seq<char> {
    "**"@ + crate::text::decimal(entries.len()) + " exigences** — "@ + crate::text::decimal(
        count(entries, Status::Covered),
    ) + " couvertes, "@ + crate::text::decimal(count(entries, Status::Gap))
        + " écarts documentés, "@ + crate::text::decimal(count(entries, Status::OutOfScope))
        + " hors périmètre logiciel.\n\n"@
}

/// The last cell of a row: the test of a covered requirement, else the target.
pub open spec fn verification_text(e: Entry) -> Seq<char> {
    if e.status == Status::Covered {
        e.test@
    } else {
        "**Cible :** "@ + e.target@
    }
}

/// The row of an entry.
pub open spec fn row(e: Entry) -> Seq<char> {
    "| "@ + cell_text(e.requirement.clause@) + " | "@ + cell_text(e.requirement.title@) + " | "@
        + cell_text(e.status.word()) + " | "@ + cell_text(e.mechanism@) + " | "@ + cell_text(
        verification_text(e),
    ) + " |\n"@
}

/// The rows of the entries that cite the standard, in their order.
pub open spec fn rows(entries: Seq<Entry>, standard: Seq<char>) -> Seq<char>
    decreases entries.len(),
{
    if entries.len() == 0 {
        seq![]
    } else if entries.last().requirement.standard@ == standard {
        rows(entries.drop_last(), standard) + row(entries.last())
    } else {
        rows(entries.drop_last(), standard)
    }
}

/// One section for each standard of the list.
pub open spec fn sections(entries: Seq<Entry>, list: Seq<Seq<char>>) -> Seq<char>
    decreases list.len(),
{
    if list.len() == 0 {
        seq![]
    } else {
        sections(entries, list.drop_last()) + ("## "@ + list.last() + "\n\n"@
            + MARKDOWN_TABLE_HEAD@ + rows(entries, list.last()) + "\n"@)
    }
}

/// The published document, for a list of standards.
pub open spec fn document(entries: Seq<Entry>, list: Seq<Seq<char>>) -> Seq<char> {
    MARKDOWN_TITLE@ + counts_line(entries) + MARKDOWN_LEGEND@ + sections(entries, list)
}

fn row_string(e: &Entry) -> (r: String)
    ensures
        r@ == row(*e),
{
    let last = if e.status != Status::Covered {
        concat2("**Cible :** ", e.target)
    } else {
        e.test.to_owned()
    };
    let mut out = "| ".to_owned();
    out.append(cell(e.requirement.clause).as_str());
    out.append(" | ");
    out.append(cell(e.requirement.title).as_str());
    out.append(" | ");
    out.append(cell(e.status.label()).as_str());
    out.append(" | ");
    out.append(cell(e.mechanism).as_str());
    out.append(" | ");
    out.append(cell(last.as_str()).as_str());
    out.append(" |\n");
    out
}

/// Produces the published document: the counts, the legend, and one table for
/// each standard in alphabetical order.
pub fn render_markdown(m: &Matrix) -> (r: String)
    ensures
        exists|list: Seq<Seq<char>>| #[trigger]
            lists_standards(list, m.0@) && r@ == document(m.0@, list),
{
    let mut b = MARKDOWN_TITLE.to_owned();
    let counts = m.counts();
    let ghost title = b@;
    proof {
        assert(counts.of(Status::Covered) == count(m.0@, Status::Covered));
        assert(counts.of(Status::Gap) == count(m.0@, Status::Gap));
        assert(counts.of(Status::OutOfScope) == count(m.0@, Status::OutOfScope));
    }
    b.append("**");
    b.append(decimal_string(m.0.len() as u128).as_str());
    b.append(" exigences** — ");
    b.append(decimal_string(counts.get(Status::Covered) as u128).as_str());
    b.append(" couvertes, ");
    b.append(decimal_string(counts.get(Status::Gap) as u128).as_str());
    b.append(" écarts documentés, ");
    b.append(decimal_string(counts.get(Status::OutOfScope) as u128).as_str());
    b.append(" hors périmètre logiciel.\n\n");
    assert(b@ =~= title + counts_line(m.0@));
    b.append(MARKDOWN_LEGEND);
    let ghost head = b@;
    let standards = m.standards();
    let ghost list = literal_views(standards@);
    let mut i: usize = 0;
    while i < standards.len()
        invariant
            i <= standards@.len(),
            list == literal_views(standards@),
            b@ == head + sections(m.0@, list.take(i as int)),
        decreases standards.len() - i,
    {
        let standard = standards[i];
        let ghost before = b@;
        b.append("## ");
        b.append(standard);
        b.append("\n\n");
        b.append(MARKDOWN_TABLE_HEAD);
        let ghost opening = b@;
        let mut k: usize = 0;
        while k < m.0.len()
            invariant
                k <= m.0@.len(),
                b@ == opening + rows(m.0@.take(k as int), standard@),
            decreases m.0.len() - k,
        {
            assert(m.0@.take(k + 1).drop_last() =~= m.0@.take(k as int));
            let ghost sofar = rows(m.0@.take(k as int), standard@);
            if str_eq(m.0[k].requirement.standard, standard) {
                b.append(row_string(&m.0[k]).as_str());
                assert(b@ =~= opening + (sofar + row(m.0@[k as int])));
            }
            k += 1;
        }
        assert(m.0@.take(m.0@.len() as int) =~= m.0@);
        b.append("\n");
        proof {
            assert(list.take(i + 1).drop_last() =~= list.take(i as int));
            assert(list.take(i + 1).last() == standard@);
            let section = "## "@ + standard@ + "\n\n"@ + MARKDOWN_TABLE_HEAD@ + rows(
                m.0@,
                standard@,
            ) + "\n"@;
            assert(b@ =~= before + section);
            assert(b@ =~= head + (sections(m.0@, list.take(i as int)) + section));
        }
        i += 1;
    }
    proof {
        assert(list.take(list.len() as int) =~= list);
        assert(b@ =~= document(m.0@, list));
        assert(lists_standards(list, m.0@));
    }
    b
}

/// The document is determined by the entries.
pub proof fn document_is_unique(entries: Seq<Entry>, a: Seq<Seq<char>>, b: Seq<Seq<char>>)
    requires
        lists_standards(a, entries),
        lists_standards(b, entries),
    ensures
        document(entries, a) == document(entries, b),
{
    standards_are_unique(a, b, entries);
}

/// The signature algorithms that are admitted, by object identifier:
/// SHA-256, SHA-384 and SHA-512 with RSA.
pub open spec fn admitted_signature_algorithm(oid: Seq<char>) -> bool {
    ||| oid == "1.2.840.113549.1.1.11"@
    ||| oid == "1.2.840.113549.1.1.12"@
    ||| oid == "1.2.840.113549.1.1.13"@
}

/// The message about an algorithm that is not admitted.
pub open spec fn refused_algorithm(subject: Seq<char>, oid: Seq<char>) -> Seq<char> {
    subject + ": algorithme de signature "@ + oid
        + " refusé (SHA-1 et MD5 sont proscrits par ETSI TS 119 312)"@
}

/// ETSI TS 119 312 §6.1: an object must be signed with an admitted algorithm.
pub fn check_signature_algorithm(subject: &str, algorithm_oid: &str) -> (r: Result<(), String>)
    ensures
        r is Ok <==> admitted_signature_algorithm(algorithm_oid@),
        r matches Err(text) ==> text@ == refused_algorithm(subject@, algorithm_oid@),
{
    if str_eq(algorithm_oid, "1.2.840.113549.1.1.11") || str_eq(
        algorithm_oid,
        "1.2.840.113549.1.1.12",
    ) || str_eq(algorithm_oid, "1.2.840.113549.1.1.13") {
        Ok(())
    } else {
        let mut text = concat3(subject, ": algorithme de signature ", algorithm_oid);
        text.append(" refusé (SHA-1 et MD5 sont proscrits par ETSI TS 119 312)");
        Err(text)
    }
}

} // verus!
