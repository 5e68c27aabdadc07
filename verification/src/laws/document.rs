//! What the published matrix promises: every entry has its row, under the
//! standard that it cites, with all that the entry says; and what is wrong with
//! a matrix is reported.
use vstd::prelude::*;

use crate::conformance::{
    cell_text, cites, consistent, count, counts_line, document, lists_standards, messages,
    of_severity, problems, row, rows, sections, Entry, Finding, Requirement, Severity, Status,
};
use crate::text::{joined, replaced, white, words, words_are_solid, words_end};

verus! {

/// The words of two texts, the first of which ends in white space, are those of
/// the one and then those of the other.
pub proof fn words_of_both(a: Seq<char>, b: Seq<char>)
    requires
        a.len() > 0,
        white(a.last()),
    ensures
        words(a + b) == words(a) + words(b),
    decreases b.len(),
{
    if b.len() == 0 {
        assert(a + b =~= a);
        assert(words(a) + words(b) =~= words(a));
    } else {
        let shorter = b.drop_last();
        let c = b.last();
        let whole = a + b;
        words_of_both(a, shorter);
        assert(whole.drop_last() =~= a + shorter);
        assert(whole.last() == c);
        if white(c) {
            assert(words(whole) =~= words(a) + words(b));
        } else if shorter.len() > 0 && !white(shorter.last()) {
            words_end(shorter);
            assert(whole[whole.len() - 2] == shorter.last());
            assert(b[b.len() - 2] == shorter.last());
            let before = words(a) + words(shorter);
            assert(before.last() == words(shorter).last());
            assert(words(whole) =~= words(a) + words(b));
        } else {
            if shorter.len() == 0 {
                assert(whole[whole.len() - 2] == a.last());
            } else {
                assert(whole[whole.len() - 2] == shorter.last());
                assert(b[b.len() - 2] == shorter.last());
            }
            assert(words(b) =~= words(shorter).push(seq![c]));
            assert(words(whole) =~= words(a) + words(b));
        }
    }
}

/// Texts that are joined stand one after the other, with the separator between.
pub proof fn joined_one_by_one(parts: Seq<Seq<char>>, last: Seq<char>, separator: Seq<char>)
    ensures
        joined(seq![last], separator) == last,
        parts.len() > 0 ==> joined(parts.push(last), separator) == joined(parts, separator)
            + separator + last,
{
    assert(parts.push(last).drop_last() =~= parts);
}

/// Two lists of texts are joined with the separator between them.
pub proof fn joined_lists(a: Seq<Seq<char>>, b: Seq<Seq<char>>, separator: Seq<char>)
    requires
        a.len() > 0,
        b.len() > 0,
    ensures
        joined(a + b, separator) == joined(a, separator) + separator + joined(b, separator),
    decreases b.len(),
{
    let shorter = b.drop_last();
    assert((a + b).drop_last() =~= a + shorter);
    if shorter.len() == 0 {
        assert(a + shorter =~= a);
        assert(joined(b, separator) == b[0]);
    } else {
        joined_lists(a, shorter, separator);
        assert(joined(a + b, separator) =~= joined(a, separator) + separator + joined(
            b,
            separator,
        ));
    }
}

/// A replacement is made in one part of a text and then in the other.
pub proof fn replaced_in_both(a: Seq<char>, b: Seq<char>, c: char, by: Seq<char>)
    ensures
        replaced(a + b, c, by) == replaced(a, c, by) + replaced(b, c, by),
    decreases b.len(),
{
    if b.len() == 0 {
        assert(a + b =~= a);
        assert(replaced(a, c, by) + replaced(b, c, by) =~= replaced(a, c, by));
    } else {
        assert((a + b).drop_last() =~= a + b.drop_last());
        replaced_in_both(a, b.drop_last(), c, by);
        assert(replaced(a + b, c, by) =~= replaced(a, c, by) + replaced(b, c, by));
    }
}

/// What is not to be replaced stays.
pub proof fn nothing_to_replace(s: Seq<char>, c: char, by: Seq<char>)
    requires
        forall|i: int| 0 <= i < s.len() ==> s[i] != c,
    ensures
        replaced(s, c, by) == s,
    decreases s.len(),
{
    if s.len() > 0 {
        nothing_to_replace(s.drop_last(), c, by);
        assert(replaced(s, c, by) =~= s);
    } else {
        assert(replaced(s, c, by) =~= s);
    }
}

/// A text without white space is one word.
pub proof fn solid_text_is_one_word(s: Seq<char>)
    requires
        s.len() > 0,
        forall|i: int| 0 <= i < s.len() ==> !white(s[i]),
    ensures
        words(s) == seq![s],
    decreases s.len(),
{
    let shorter = s.drop_last();
    if s.len() > 1 {
        solid_text_is_one_word(shorter);
        assert(words(s) =~= seq![s]) by {
            assert(shorter.push(s.last()) =~= s);
        }
    } else {
        assert(words(shorter) =~= seq![]);
        assert(seq![s.last()] =~= s);
        assert(words(s) =~= seq![s]);
    }
}

/// Words that are separated by single spaces, without bars, are a cell as they
/// are: the first word, a space, and the cell of the rest.
pub proof fn cell_begins_with_the_first_word(word: Seq<char>, rest: Seq<char>)
    requires
        word.len() > 0,
        forall|i: int| 0 <= i < word.len() ==> !white(word[i]) && word[i] != '|',
    ensures
        cell_text(word) == word,
        cell_text(rest).len() > 0 ==> cell_text(word.push(' ') + rest) == word.push(' ')
            + cell_text(rest),
        cell_text(rest).len() == 0 ==> cell_text(word.push(' ') + rest) == word,
{
    let bar = "\\|"@;
    let spaced = word.push(' ');
    let r = replaced(rest, '|', bar);
    let sep: Seq<char> = seq![' '];
    nothing_to_replace(word, '|', bar);
    nothing_to_replace(spaced, '|', bar);
    replaced_in_both(spaced, rest, '|', bar);
    solid_text_is_one_word(word);
    assert(spaced.drop_last() =~= word);
    assert(white(' '));
    assert(words(spaced) == seq![word]);
    words_of_both(spaced, r);
    assert(joined(seq![word], sep) == word);
    if words(r).len() == 0 {
        assert(joined(words(r), sep).len() == 0);
        assert(seq![word] + words(r) =~= seq![word]);
    } else {
        words_are_solid(r, 0, 0);
        joined_is_no_shorter(words(r), sep);
        joined_lists(seq![word], words(r), sep);
        assert(word + sep + joined(words(r), sep) =~= spaced + joined(words(r), sep));
    }
}

proof fn joined_is_no_shorter(parts: Seq<Seq<char>>, separator: Seq<char>)
    requires
        parts.len() > 0,
    ensures
        joined(parts, separator).len() >= parts[0].len(),
    decreases parts.len(),
{
    if parts.len() > 1 {
        joined_is_no_shorter(parts.drop_last(), separator);
    }
}

proof fn target_is_announced(target: Seq<char>)
    ensures
        cell_text(target).len() > 0 ==> cell_text("**Cible :** "@ + target) == "**Cible :** "@
            + cell_text(target),
        cell_text(target).len() == 0 ==> cell_text("**Cible :** "@ + target) == "**Cible :**"@,
{
    reveal_strlit("**Cible :** ");
    reveal_strlit("**Cible :**");
    let first: Seq<char> = seq!['*', '*', 'C', 'i', 'b', 'l', 'e'];
    let second: Seq<char> = seq![':', '*', '*'];
    let rest = second.push(' ') + target;
    cell_begins_with_the_first_word(second, target);
    cell_begins_with_the_first_word(first, rest);
    assert("**Cible :** "@ + target =~= first.push(' ') + rest);
    assert("**Cible :**"@ =~= first.push(' ') + second);
    assert("**Cible :** "@ + cell_text(target) =~= first.push(' ') + (second.push(' ')
        + cell_text(target)));
}

/// The last cell of a row: for what is covered, the test; for a gap and for what
/// is out of scope alike, the target, announced as such.
pub proof fn row_ends_with_test_or_target(e: Entry)
    ensures
        ({
            let before = row(e).take(row(e).len() - last_cell(e).len() - 3);
            &&& row(e) == before + last_cell(e) + " |\n"@
            &&& e.status == Status::Covered ==> last_cell(e) == cell_text(e.test@)
            &&& e.status != Status::Covered && cell_text(e.target@).len() > 0 ==> last_cell(e)
                == "**Cible :** "@ + cell_text(e.target@)
            &&& e.status != Status::Covered && cell_text(e.target@).len() == 0 ==> last_cell(e)
                == "**Cible :**"@
        }),
{
    row_holds_the_entry(e);
    target_is_announced(e.target@);
    reveal_strlit(" |\n");
    let before = row(e).take(row(e).len() - last_cell(e).len() - 3);
    assert(row(e) =~= before + last_cell(e) + " |\n"@);
}

/// What the last cell of a row has to say: the test of what is covered, and the
/// target of anything else.
pub open spec fn last_cell(e: Entry) -> Seq<char> {
    match e.status {
        Status::Covered => cell_text(e.test@),
        Status::Gap => cell_text("**Cible :** "@ + e.target@),
        Status::OutOfScope => cell_text("**Cible :** "@ + e.target@),
    }
}

/// The word for a status in the published document.
pub open spec fn status_word(s: Status) -> Seq<char> {
    match s {
        Status::Covered => "couvert"@,
        Status::Gap => "écart documenté"@,
        Status::OutOfScope => "hors périmètre logiciel"@,
    }
}

/// A row has five cells: the clause, the title, the status, the mechanism, and
/// the test or the target.
pub proof fn row_holds_the_entry(e: Entry)
    ensures
        row(e) == "| "@ + cell_text(e.requirement.clause@) + " | "@ + cell_text(
            e.requirement.title@,
        ) + " | "@ + cell_text(status_word(e.status)) + " | "@ + cell_text(e.mechanism@) + " | "@
            + last_cell(e) + " |\n"@,
{
}

/// The rows of a standard are those of the entries that cite it, each once and
/// in their order.
pub proof fn rows_of_both(a: Seq<Entry>, b: Seq<Entry>, standard: Seq<char>)
    ensures
        rows(a + b, standard) == rows(a, standard) + rows(b, standard),
    decreases b.len(),
{
    if b.len() == 0 {
        assert(a + b =~= a);
        assert(rows(a, standard) + rows(b, standard) =~= rows(a, standard));
    } else {
        assert((a + b).drop_last() =~= a + b.drop_last());
        rows_of_both(a, b.drop_last(), standard);
        assert(rows(a + b, standard) =~= rows(a, standard) + rows(b, standard));
    }
}

/// An entry has a row under the standard that it cites, and none under another.
pub proof fn entry_has_one_row(e: Entry, standard: Seq<char>)
    ensures
        rows(seq![e], e.requirement.standard@) == row(e),
        standard != e.requirement.standard@ ==> rows(seq![e], standard).len() == 0,
        rows(seq![], standard).len() == 0,
{
    reveal_with_fuel(rows, 2);
    let one = seq![e];
    assert(one.drop_last() =~= seq![]);
    assert(rows(one, e.requirement.standard@) =~= row(e));
}

/// One standard has a section with its name, the head of the table, and its
/// rows; several have theirs one after the other.
pub proof fn sections_of_both(entries: Seq<Entry>, a: Seq<Seq<char>>, b: Seq<Seq<char>>)
    ensures
        sections(entries, a + b) == sections(entries, a) + sections(entries, b),
    decreases b.len(),
{
    if b.len() == 0 {
        assert(a + b =~= a);
        assert(sections(entries, a) + sections(entries, b) =~= sections(entries, a));
    } else {
        assert((a + b).drop_last() =~= a + b.drop_last());
        sections_of_both(entries, a, b.drop_last());
        assert(sections(entries, a + b) =~= sections(entries, a) + sections(entries, b));
    }
}

/// The heading of a standard, and the head of its table.
pub open spec fn heading(standard: Seq<char>) -> Seq<char> {
    "## "@ + standard + "\n\n"@
        + "| Clause | Exigence | Statut | Mécanisme | Vérification / cible |\n|---|---|---|---|---|\n"@
}

/// The section of a standard.
pub proof fn section_of_one(entries: Seq<Entry>, standard: Seq<char>)
    ensures
        sections(entries, seq![standard]) == heading(standard) + rows(entries, standard) + "\n"@,
        sections(entries, seq![]).len() == 0,
{
    reveal_with_fuel(sections, 2);
    let one = seq![standard];
    assert(one.drop_last() =~= seq![]);
    assert(sections(entries, one) =~= heading(standard) + rows(entries, standard) + "\n"@);
}

proof fn rows_around(entries: Seq<Entry>, i: int, standard: Seq<char>)
    requires
        0 <= i < entries.len(),
        entries[i].requirement.standard@ == standard,
    ensures
        rows(entries, standard) == rows(entries.take(i), standard) + (row(entries[i]) + rows(
            entries.skip(i + 1),
            standard,
        )),
{
    let earlier = entries.take(i);
    let later = entries.skip(i + 1);
    assert(entries =~= earlier + (seq![entries[i]] + later));
    rows_of_both(earlier, seq![entries[i]] + later, standard);
    rows_of_both(seq![entries[i]], later, standard);
    entry_has_one_row(entries[i], standard);
}

proof fn sections_around(entries: Seq<Entry>, list: Seq<Seq<char>>, k: int)
    requires
        0 <= k < list.len(),
    ensures
        sections(entries, list) == sections(entries, list.take(k)) + (heading(list[k]) + rows(
            entries,
            list[k],
        ) + "\n"@ + sections(entries, list.skip(k + 1))),
{
    let before = list.take(k);
    let after = list.skip(k + 1);
    assert(list =~= before + (seq![list[k]] + after));
    sections_of_both(entries, before, seq![list[k]] + after);
    sections_of_both(entries, seq![list[k]], after);
    section_of_one(entries, list[k]);
}

proof fn regrouped(
    o: Seq<char>,
    p: Seq<char>,
    h: Seq<char>,
    r: Seq<char>,
    x: Seq<char>,
    t: Seq<char>,
    n: Seq<char>,
    z: Seq<char>,
)
    ensures
        o + (p + (h + (r + (x + t)) + n + z)) == (o + p) + h + r + x + (t + n + z),
{
    assert(o + (p + (h + (r + (x + t)) + n + z)) =~= (o + p) + h + r + x + (t + n + z));
}

/// Every entry is published: the document holds its row, in the section of the
/// standard that it cites, after the rows of the earlier entries that cite it.
pub proof fn every_entry_is_published(
    entries: Seq<Entry>,
    list: Seq<Seq<char>>,
    i: int,
) -> (split: (Seq<char>, Seq<char>))
    requires
        lists_standards(list, entries),
        0 <= i < entries.len(),
    ensures
        document(entries, list) == split.0 + heading(entries[i].requirement.standard@) + rows(
            entries.take(i),
            entries[i].requirement.standard@,
        ) + row(entries[i]) + split.1,
{
    let s = entries[i].requirement.standard@;
    assert(cites(entries, s));
    assert(list.contains(s));
    let k = choose|k: int| 0 <= k < list.len() && list[k] == s;
    sections_around(entries, list, k);
    rows_around(entries, i, s);
    document_opens_with_the_counts(entries, list);
    let before = sections(entries, list.take(k));
    let after = sections(entries, list.skip(k + 1));
    let later = rows(entries.skip(i + 1), s);
    regrouped(
        opening_text(entries),
        before,
        heading(s),
        rows(entries.take(i), s),
        row(entries[i]),
        later,
        "\n"@,
        after,
    );
    (opening_text(entries) + before, later + "\n"@ + after)
}

/// The title, the counts and the legend.
pub open spec fn opening_text(entries: Seq<Entry>) -> Seq<char> {
    "# Matrice de conformité ETSI\n\n<!-- Document généré par `ca-server conformance --markdown` depuis\n     oe-conformance::system_matrix. Ne pas modifier à la main : toute\n     correction se fait dans le code, pour que la matrice publiée reste\n     celle que le système applique réellement. -->\n\n"@
        + counts_line(entries)
        + "Trois statuts seulement, pour qu'aucune zone grise ne puisse s'y loger :\n\n- **couvert** — l'exigence est appliquée par du code de ce dépôt et vérifiée par un test nommé ci-dessous ;\n- **écart documenté** — l'exigence n'est pas satisfaite en l'état ; la mesure compensatoire en place et la cible sont indiquées ;\n- **hors périmètre logiciel** — exigence organisationnelle, qu'aucun code ne peut établir seul.\n\n"@
}

/// The document opens with the title, the counts and the legend, and the
/// sections follow.
pub proof fn document_opens_with_the_counts(entries: Seq<Entry>, list: Seq<Seq<char>>)
    ensures
        document(entries, list) == opening_text(entries) + sections(entries, list),
{
}

/// The counts are told in figures, and they are those of the entries.
pub proof fn counts_are_told(entries: Seq<Entry>)
    ensures
        counts_line(entries) == "**"@ + crate::text::decimal(entries.len()) + " exigences** — "@
            + crate::text::decimal(count(entries, Status::Covered)) + " couvertes, "@
            + crate::text::decimal(count(entries, Status::Gap)) + " écarts documentés, "@
            + crate::text::decimal(count(entries, Status::OutOfScope))
            + " hors périmètre logiciel.\n\n"@,
{
}

/// Entries are counted one by one: each counts once for its own status and not
/// for another.
pub proof fn entries_are_counted_one_by_one(a: Seq<Entry>, b: Seq<Entry>, e: Entry, s: Status)
    ensures
        count(a + b, s) == count(a, s) + count(b, s),
        count(seq![e], e.status) == 1,
        s != e.status ==> count(seq![e], s) == 0,
    decreases b.len(),
{
    reveal_with_fuel(count, 2);
    let one = seq![e];
    assert(one.drop_last() =~= seq![]);
    if b.len() == 0 {
        assert(a + b =~= a);
    } else {
        assert((a + b).drop_last() =~= a + b.drop_last());
        entries_are_counted_one_by_one(a, b.drop_last(), e, s);
    }
}

/// A matrix is consistent exactly where no clause is cited twice, what is
/// covered names its mechanism and its test, a gap its measure and its target,
/// and what is out of scope its target.
pub proof fn consistent_means_complete(entries: Seq<Entry>, i: int, j: int)
    ensures
        consistent(entries) && 0 <= i < j < entries.len() ==> entries[i].requirement.citation()
            != entries[j].requirement.citation(),
        consistent(entries) && 0 <= i < entries.len() ==> {
            let e = entries[i];
            &&& e.status == Status::Covered ==> e.mechanism@.len() > 0 && e.test@.len() > 0
            &&& e.status == Status::Gap ==> e.mechanism@.len() > 0 && e.target@.len() > 0
            &&& e.status == Status::OutOfScope ==> e.target@.len() > 0
        },
        (forall|k: int, m: int|
            0 <= k < m < entries.len() ==> (#[trigger] entries[k]).requirement.citation() != (
            #[trigger] entries[m]).requirement.citation()) && (forall|k: int|
            0 <= k < entries.len() ==> match (#[trigger] entries[k]).status {
                Status::Covered => entries[k].mechanism@.len() > 0 && entries[k].test@.len() > 0,
                Status::Gap => entries[k].mechanism@.len() > 0 && entries[k].target@.len() > 0,
                Status::OutOfScope => entries[k].target@.len() > 0,
            }) ==> consistent(entries),
{
    if consistent(entries) {
        if 0 <= i < entries.len() {
            assert(crate::conformance::complete(entries[i]));
        }
        if 0 <= i < j < entries.len() {
            assert(entries[i].requirement.citation() != entries[j].requirement.citation());
        }
    }
}

/// Everything that is wrong with an entry is reported, under its citation.
pub proof fn every_problem_is_reported(entries: Seq<Entry>, i: int, j: int)
    requires
        0 <= i < entries.len(),
    ensures
        ({
            let e = entries[i];
            let key = e.requirement.citation();
            let all = problems(entries, entries.len() as int);
            &&& 0 <= j < i && entries[j].requirement.citation() == key ==> all.contains(
                key + ": exigence déclarée deux fois"@,
            )
            &&& e.status == Status::Covered && e.mechanism@.len() == 0 ==> all.contains(
                key + ": couvert mais aucun mécanisme nommé"@,
            )
            &&& e.status == Status::Covered && e.test@.len() == 0 ==> all.contains(
                key + ": couvert mais aucun test nommé"@,
            )
            &&& e.status == Status::Gap && e.mechanism@.len() == 0 ==> all.contains(
                key + ": écart sans mesure compensatoire"@,
            )
            &&& e.status == Status::Gap && e.target@.len() == 0 ==> all.contains(
                key + ": écart sans cible de levée"@,
            )
            &&& e.status == Status::OutOfScope && e.target@.len() == 0 ==> all.contains(
                key + ": hors périmètre sans mesure attendue"@,
            )
        }),
{
    let e = entries[i];
    let key = e.requirement.citation();
    let upto = problems(entries, i + 1);
    let before = problems(entries, i);
    let twice = crate::conformance::problem_if(
        crate::conformance::repeated(entries, i),
        key + ": exigence déclarée deux fois"@,
    );
    let own = crate::conformance::lacks(e);
    assert(upto =~= before + twice + own);
    if 0 <= j < i && entries[j].requirement.citation() == key {
        assert(crate::conformance::repeated(entries, i));
        assert(upto[before.len() as int] == key + ": exigence déclarée deux fois"@);
        stays_reported(entries, i + 1, before.len() as int);
    }
    let start = (before + twice).len() as int;
    if own.len() > 0 {
        assert(upto[start] == own[0]);
        stays_reported(entries, i + 1, start);
    }
    if own.len() > 1 {
        assert(upto[start + 1] == own[1]);
        stays_reported(entries, i + 1, start + 1);
    }
}

proof fn stays_reported(entries: Seq<Entry>, n: int, k: int)
    requires
        0 <= n <= entries.len(),
        0 <= k < problems(entries, n).len(),
    ensures
        problems(entries, entries.len() as int).contains(problems(entries, n)[k]),
    decreases entries.len() - n,
{
    if n < entries.len() {
        assert(problems(entries, n + 1)[k] == problems(entries, n)[k]);
        stays_reported(entries, n + 1, k);
    }
}

/// A clause is cited by its standard and its number, and a standard alone by its
/// name.
pub proof fn citation_is_standard_and_clause(r: Requirement)
    ensures
        r.clause@.len() > 0 ==> r.citation() == r.standard@ + " "@ + r.clause@,
        r.clause@.len() == 0 ==> r.citation() == r.standard@,
{
}

/// The standards of a matrix are those that its entries cite, each once, in
/// alphabetical order.
pub proof fn standards_are_those_cited(
    list: Seq<Seq<char>>,
    entries: Seq<Entry>,
    s: Seq<char>,
    i: int,
    j: int,
)
    requires
        lists_standards(list, entries),
    ensures
        list.contains(s) <==> exists|k: int|
            0 <= k < entries.len() && (#[trigger] entries[k]).requirement.standard@ == s,
        0 <= i < j < list.len() ==> crate::order::text_less(list[i], list[j]),
{
}

/// A finding is told with its severity, its citation, its title and its detail.
pub proof fn finding_is_told_in_full(f: Finding)
    ensures
        f.severity == Severity::Blocking ==> f.message() == "["@ + "bloquant"@ + "] "@
            + f.requirement.citation() + " — "@ + f.requirement.title@ + " : "@ + f.detail@,
        f.severity == Severity::Advisory ==> f.message() == "["@ + "avertissement"@ + "] "@
            + f.requirement.citation() + " — "@ + f.requirement.title@ + " : "@ + f.detail@,
{
}

/// The findings of a severity are all those that have it, in their order.
pub proof fn findings_of_both(a: Seq<Finding>, b: Seq<Finding>, f: Finding, s: Severity)
    ensures
        of_severity(a + b, s) == of_severity(a, s) + of_severity(b, s),
        of_severity(seq![f], f.severity) == seq![f],
        s != f.severity ==> of_severity(seq![f], s).len() == 0,
    decreases b.len(),
{
    reveal_with_fuel(of_severity, 2);
    let one = seq![f];
    assert(one.drop_last() =~= seq![]);
    assert(of_severity(one, f.severity) =~= seq![f]);
    if b.len() == 0 {
        assert(a + b =~= a);
        assert(of_severity(a, s) + of_severity(b, s) =~= of_severity(a, s));
    } else {
        assert((a + b).drop_last() =~= a + b.drop_last());
        findings_of_both(a, b.drop_last(), f, s);
        assert(of_severity(a + b, s) =~= of_severity(a, s) + of_severity(b, s));
    }
}

/// The messages of findings are theirs, one by one.
pub proof fn messages_are_told_one_by_one(findings: Seq<Finding>, i: int)
    requires
        0 <= i < findings.len(),
    ensures
        messages(findings).len() == findings.len(),
        messages(findings)[i] == findings[i].message(),
{
}

/// A bar is escaped, and every other character stays, in its order.
pub proof fn bars_are_escaped(s: Seq<char>, c: char)
    ensures
        c == '|' ==> replaced(s.push(c), '|', "\\|"@) == replaced(s, '|', "\\|"@) + "\\|"@,
        c != '|' ==> replaced(s.push(c), '|', "\\|"@) == replaced(s, '|', "\\|"@).push(c),
{
    assert(s.push(c).drop_last() =~= s);
}

/// The characters of a text that are not white space.
pub open spec fn ink(s: Seq<char>) -> Seq<char>
    decreases s.len(),
{
    if s.len() == 0 {
        seq![]
    } else if white(s.last()) {
        ink(s.drop_last())
    } else {
        ink(s.drop_last()).push(s.last())
    }
}

proof fn ink_of_both(a: Seq<char>, b: Seq<char>)
    ensures
        ink(a + b) == ink(a) + ink(b),
    decreases b.len(),
{
    if b.len() == 0 {
        assert(a + b =~= a);
        assert(ink(a) + ink(b) =~= ink(a));
    } else {
        assert((a + b).drop_last() =~= a + b.drop_last());
        ink_of_both(a, b.drop_last());
        assert(ink(a + b) =~= ink(a) + ink(b));
    }
}

/// A cell loses nothing but white space: its other characters are those of the
/// text, in their order, with the bars escaped.
pub proof fn cell_keeps_every_character(s: Seq<char>)
    ensures
        ink(cell_text(s)) == ink(replaced(s, '|', "\\|"@)),
{
    ink_of_words(replaced(s, '|', "\\|"@));
}

proof fn ink_of_words(s: Seq<char>)
    ensures
        ink(joined(words(s), seq![' '])) == ink(s),
    decreases s.len(),
{
    let sep: Seq<char> = seq![' '];
    if s.len() == 0 {
        assert(joined(words(s), sep) =~= seq![]);
    } else {
        let shorter = s.drop_last();
        let c = s.last();
        let before = words(shorter);
        ink_of_words(shorter);
        if white(c) {
        } else if s.len() >= 2 && !white(s[s.len() - 2]) {
            words_end(shorter);
            let after = words(s);
            assert(after.drop_last() =~= before.drop_last());
            assert(joined(after, sep) =~= joined(before, sep).push(c)) by {
                if before.len() > 1 {
                    assert(joined(before.drop_last(), sep) + sep + before.last().push(c) =~= (joined(
                        before.drop_last(),
                        sep,
                    ) + sep + before.last()).push(c));
                }
            }
            assert(joined(after, sep).drop_last() =~= joined(before, sep));
        } else {
            let after = words(s);
            assert(after.drop_last() =~= before);
            assert(after.last() =~= seq![c]);
            if before.len() == 0 {
                assert(joined(after, sep) =~= seq![c]);
                assert(joined(before, sep) =~= seq![]);
                reveal_with_fuel(ink, 2);
                assert(seq![c].drop_last() =~= seq![]);
                assert(ink(seq![c]) =~= seq![c]);
                assert(ink(s) =~= seq![c]);
            } else {
                reveal_with_fuel(ink, 3);
                let j = joined(before, sep);
                assert(joined(after, sep) =~= j.push(' ').push(c));
                assert(j.push(' ').push(c).drop_last() =~= j.push(' '));
                assert(j.push(' ').drop_last() =~= j);
                assert(white(' '));
            }
        }
    }
}

/// White space is the space, the tabulation, the ends of lines and the like; no
/// visible character of ASCII is.
pub proof fn white_is_white(c: char)
    ensures
        white(' ') && white('\t') && white('\n') && white('\r'),
        0x21 <= c as u32 <= 0x7e ==> !white(c),
        0xc0 <= c as u32 <= 0x24f ==> !white(c),
{
}

/// What is wrong with an entry is told after what is wrong with those before it:
/// first that it occurs again, then what it lacks; and nothing else is told.
pub proof fn problems_are_told_in_order(entries: Seq<Entry>, n: int)
    requires
        0 <= n < entries.len(),
    ensures
        ({
            let e = entries[n];
            let key = e.requirement.citation();
            let before = problems(entries, n);
            let after = problems(entries, n + 1);
            let again = exists|j: int|
                0 <= j < n && (#[trigger] entries[j]).requirement.citation() == key;
            let twice: Seq<Seq<char>> = if again {
                seq![key + ": exigence déclarée deux fois"@]
            } else {
                seq![]
            };
            let sofar = before + twice;
            &&& problems(entries, 0).len() == 0
            &&& e.status == Status::Covered ==> {
                &&& e.mechanism@.len() > 0 && e.test@.len() > 0 ==> after == sofar
                &&& e.mechanism@.len() == 0 && e.test@.len() > 0 ==> after == sofar.push(
                    key + ": couvert mais aucun mécanisme nommé"@,
                )
                &&& e.mechanism@.len() > 0 && e.test@.len() == 0 ==> after == sofar.push(
                    key + ": couvert mais aucun test nommé"@,
                )
                &&& e.mechanism@.len() == 0 && e.test@.len() == 0 ==> after == sofar.push(
                    key + ": couvert mais aucun mécanisme nommé"@,
                ).push(key + ": couvert mais aucun test nommé"@)
            }
            &&& e.status == Status::Gap ==> {
                &&& e.mechanism@.len() > 0 && e.target@.len() > 0 ==> after == sofar
                &&& e.mechanism@.len() == 0 && e.target@.len() > 0 ==> after == sofar.push(
                    key + ": écart sans mesure compensatoire"@,
                )
                &&& e.mechanism@.len() > 0 && e.target@.len() == 0 ==> after == sofar.push(
                    key + ": écart sans cible de levée"@,
                )
                &&& e.mechanism@.len() == 0 && e.target@.len() == 0 ==> after == sofar.push(
                    key + ": écart sans mesure compensatoire"@,
                ).push(key + ": écart sans cible de levée"@)
            }
            &&& e.status == Status::OutOfScope ==> {
                &&& e.target@.len() > 0 ==> after == sofar
                &&& e.target@.len() == 0 ==> after == sofar.push(
                    key + ": hors périmètre sans mesure attendue"@,
                )
            }
        }),
{
    let e = entries[n];
    let key = e.requirement.citation();
    let before = problems(entries, n);
    let twice = crate::conformance::problem_if(
        crate::conformance::repeated(entries, n),
        key + ": exigence déclarée deux fois"@,
    );
    assert(problems(entries, n + 1) =~= before + twice + crate::conformance::lacks(e));
}

proof fn white_has_no_words(w: Seq<char>)
    requires
        forall|i: int| 0 <= i < w.len() ==> white(w[i]),
    ensures
        words(w).len() == 0,
    decreases w.len(),
{
    if w.len() > 0 {
        white_has_no_words(w.drop_last());
    }
}

/// White space at either end of a text does not show in its cell, and neither
/// does how much of it stands between two words.
pub proof fn white_space_collapses(a: Seq<char>, w: Seq<char>, b: Seq<char>)
    requires
        w.len() > 0,
        forall|i: int| 0 <= i < w.len() ==> white(w[i]) && w[i] != '|',
    ensures
        cell_text(w).len() == 0,
        cell_text(w + b) == cell_text(b),
        cell_text(a + w) == cell_text(a),
        cell_text(a + w + b) == cell_text(a + seq![' '] + b),
{
    let bar = "\\|"@;
    let sep: Seq<char> = seq![' '];
    let ra = replaced(a, '|', bar);
    let rb = replaced(b, '|', bar);
    nothing_to_replace(w, '|', bar);
    nothing_to_replace(sep, '|', bar);
    white_has_no_words(w);
    replaced_in_both(w, b, '|', bar);
    replaced_in_both(a, w, '|', bar);
    replaced_in_both(a + w, b, '|', bar);
    replaced_in_both(a, sep, '|', bar);
    replaced_in_both(a + sep, b, '|', bar);
    words_of_both(w, rb);
    assert(words(w) + words(rb) =~= words(rb));
    words_before_white(ra, w);
    words_before_white(ra, sep);
    words_of_both(ra + w, rb);
    words_of_both(ra + sep, rb);
}

proof fn words_before_white(a: Seq<char>, w: Seq<char>)
    requires
        forall|i: int| 0 <= i < w.len() ==> white(w[i]),
    ensures
        words(a + w) == words(a),
    decreases w.len(),
{
    if w.len() == 0 {
        assert(a + w =~= a);
    } else {
        assert((a + w).drop_last() =~= a + w.drop_last());
        words_before_white(a, w.drop_last());
    }
}

} // verus!
