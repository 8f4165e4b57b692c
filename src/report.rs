//! The report model and the per-category summary that every renderer uses.
use vstd::prelude::*;

use crate::text::same_text;

verus! {

/// A vulnerability descriptor attached to a category.
#[derive(Debug, Clone)]
pub struct Vulnerability {
    pub id: String,
    pub severity: String,
}

/// Findings of one detector, with its display name and descriptors.
#[derive(Debug, Clone)]
pub struct Category {
    pub id: String,
    pub name: String,
    pub vulnerabilities: Vec<Vulnerability>,
}

/// One trustworthy finding as the report lists it.
#[derive(Debug, Clone)]
pub struct ReportFinding {
    pub category_id: String,
    pub unit: String,
    pub message: String,
}

/// The aggregate result of one run.
#[derive(Debug, Clone)]
pub struct Report {
    pub date: String,
    pub categories: Vec<Category>,
    pub findings: Vec<ReportFinding>,
}

/// The summary of a report: one row per category that has findings.
#[derive(Debug, Clone)]
pub struct SummaryContext {
    pub date: String,
    pub categories: Vec<SummaryCategory>,
}

#[derive(Debug, Clone)]
pub struct SummaryCategory {
    pub name: String,
    pub link: String,
    pub results_count: usize,
    pub severity: String,
}

/// The upper-case form of one character, as `char::to_uppercase` gives it.
pub uninterp spec fn upper_of(c: char) -> Seq<char>;

/// The text lower-cased by `str::to_lowercase`.
pub uninterp spec fn lower_of(s: Seq<char>) -> Seq<char>;

/// Relies on `char::to_uppercase`: the upper-case form of one character.
#[verifier::external_body]
fn char_to_upper(c: char) -> (r: String)
    ensures
        r@ == upper_of(c),
{
    c.to_uppercase().collect::<String>()
}

/// Relies on `str::to_lowercase`: the lower-case form of a text.
#[verifier::external_body]
fn text_to_lower(s: &str) -> (r: String)
    ensures
        r@ == lower_of(s@),
{
    s.to_lowercase()
}

pub open spec fn capitalized(s: Seq<char>) -> Seq<char> {
    if s.len() == 0 {
        s
    } else {
        upper_of(s[0]) + s.drop_first()
    }
}

/// The text with its first character in upper case.
pub fn capitalize(s: &str) -> (r: String)
    ensures
        r@ == capitalized(s@),
{
    let n = s.unicode_len();
    if n == 0 {
        return String::from_str(s);
    }
    let first = char_to_upper(s.get_char(0));
    let rest = s.substring_char(1, n);
    assert(rest@ =~= s@.drop_first());
    first.concat(rest)
}

pub open spec fn dash_for_space(c: char) -> char {
    if c == ' ' {
        '-'
    } else {
        c
    }
}

/// The anchor a category name links to: lower case, spaces as dashes.
pub open spec fn anchor_of(name: Seq<char>) -> Seq<char> {
    lower_of(name).map_values(|c: char| dash_for_space(c))
}

/// The anchor a category name links to.
pub fn sanitize_category_name(name: &str) -> (r: String)
    ensures
        r@ == anchor_of(name@),
{
    let lower = text_to_lower(name);
    let s = lower.as_str();
    let n = s.unicode_len();
    let mut r = String::new();
    let mut i: usize = 0;
    while i < n
        invariant
            n == s@.len(),
            s@ == lower_of(name@),
            i <= n,
            r@ == s@.take(i as int).map_values(|c: char| dash_for_space(c)),
        decreases n - i,
    {
        let ghost before = r@;
        if s.get_char(i) == ' ' {
            proof {
                reveal_strlit("-");
            }
            r.append("-");
            assert(r@ =~= before.push('-'));
        } else {
            r.append(s.substring_char(i, i + 1));
            assert(r@ =~= before.push(s@[i as int]));
        }
        assert(r@ =~= s@.take(i + 1).map_values(|c: char| dash_for_space(c)));
        i = i + 1;
    }
    assert(s@.take(n as int) =~= s@);
    r
}

/// How many findings belong to the category `id`.
pub open spec fn count_of(fs: Seq<ReportFinding>, id: Seq<char>) -> nat
    decreases fs.len(),
{
    if fs.len() == 0 {
        0
    } else {
        count_of(fs.drop_last(), id) + if fs.last().category_id@ == id {
            1nat
        } else {
            0nat
        }
    }
}

/// The severity shown for a category: that of its first descriptor,
/// capitalized; empty when it has none.
pub open spec fn severity_of(c: Category) -> Seq<char> {
    if c.vulnerabilities@.len() == 0 {
        Seq::empty()
    } else {
        capitalized(c.vulnerabilities@[0].severity@)
    }
}

/// The count and severity of each category, in category order.
pub fn summarize_findings(categories: &Vec<Category>, findings: &Vec<ReportFinding>) -> (r: Vec<(usize, String)>)
    ensures
        r@.len() == categories@.len(),
        forall|i: int|
            0 <= i < r@.len() ==> r@[i].0 == count_of(findings@, categories@[i].id@) && r@[i].1@
                == severity_of(categories@[i]),
{
    let mut r: Vec<(usize, String)> = Vec::new();
    let mut i: usize = 0;
    while i < categories.len()
        invariant
            i <= categories.len(),
            r@.len() == i,
            forall|k: int|
                0 <= k < i ==> r@[k].0 == count_of(findings@, categories@[k].id@) && r@[k].1@
                    == severity_of(categories@[k]),
        decreases categories.len() - i,
    {
        let c = &categories[i];
        let mut count: usize = 0;
        let mut j: usize = 0;
        while j < findings.len()
            invariant
                j <= findings.len(),
                count == count_of(findings@.take(j as int), c.id@),
                count <= j,
            decreases findings.len() - j,
        {
            assert(findings@.take(j + 1).drop_last() =~= findings@.take(j as int));
            if same_text(findings[j].category_id.as_str(), c.id.as_str()) {
                count = count + 1;
            }
            j = j + 1;
        }
        assert(findings@.take(findings.len() as int) =~= findings@);
        let severity = if c.vulnerabilities.len() == 0 {
            String::new()
        } else {
            capitalize(c.vulnerabilities[0].severity.as_str())
        };
        r.push((count, severity));
        i = i + 1;
    }
    r
}

/// A summary row: name, link, count and severity.
pub open spec fn row_view(s: SummaryCategory) -> (Seq<char>, Seq<char>, nat, Seq<char>) {
    (s.name@, s.link@, s.results_count as nat, s.severity@)
}

/// The summary rows of the categories `cs`, in their order, leaving out
/// those without findings.
pub open spec fn summary_rows(cs: Seq<Category>, fs: Seq<ReportFinding>) -> Seq<
    (Seq<char>, Seq<char>, nat, Seq<char>),
>
    decreases cs.len(),
{
    if cs.len() == 0 {
        Seq::empty()
    } else {
        let prev = summary_rows(cs.drop_last(), fs);
        let c = cs.last();
        if count_of(fs, c.id@) > 0 {
            prev.push((c.name@, anchor_of(c.name@), count_of(fs, c.id@), severity_of(c)))
        } else {
            prev
        }
    }
}

/// The summary of a report: its date, and a row for each category that
/// has findings, in category order.
pub fn generate_summary_context(report: &Report) -> (r: SummaryContext)
    ensures
        r.date@ == report.date@,
        r.categories@.map_values(|s: SummaryCategory| row_view(s)) == summary_rows(
            report.categories@,
            report.findings@,
        ),
{
    let cs = &report.categories;
    let summary = summarize_findings(cs, &report.findings);
    let mut rows: Vec<SummaryCategory> = Vec::new();
    let mut i: usize = 0;
    while i < cs.len()
        invariant
            i <= cs.len(),
            summary@.len() == cs@.len(),
            forall|k: int|
                0 <= k < summary@.len() ==> summary@[k].0 == count_of(report.findings@, cs@[k].id@)
                    && summary@[k].1@ == severity_of(cs@[k]),
            rows@.map_values(|s: SummaryCategory| row_view(s)) == summary_rows(
                cs@.take(i as int),
                report.findings@,
            ),
        decreases cs.len() - i,
    {
        let c = &cs[i];
        let ghost before = rows@;
        assert(cs@.take(i + 1).drop_last() =~= cs@.take(i as int));
        if summary[i].0 > 0 {
            rows.push(
                SummaryCategory {
                    name: c.name.clone(),
                    link: sanitize_category_name(c.name.as_str()),
                    results_count: summary[i].0,
                    severity: summary[i].1.clone(),
                },
            );
            assert(rows@.map_values(|s: SummaryCategory| row_view(s)) =~= before.map_values(
                |s: SummaryCategory| row_view(s),
            ).push(row_view(rows@.last())));
        }
        i = i + 1;
    }
    assert(cs@.take(cs.len() as int) =~= cs@);
    SummaryContext { date: report.date.clone(), categories: rows }
}

/// The ids of the categories, in order.
pub open spec fn category_ids(cs: Seq<Category>) -> Seq<Seq<char>> {
    cs.map_values(|c: Category| c.id@)
}

/// The sum of the counts of a list of summary rows.
pub open spec fn total_count(rows: Seq<(Seq<char>, Seq<char>, nat, Seq<char>)>) -> nat
    decreases rows.len(),
{
    if rows.len() == 0 {
        0
    } else {
        total_count(rows.drop_last()) + rows.last().2
    }
}

/// The sum, over the categories, of their finding counts.
pub open spec fn sum_counts(cs: Seq<Category>, fs: Seq<ReportFinding>) -> nat
    decreases cs.len(),
{
    if cs.len() == 0 {
        0
    } else {
        sum_counts(cs.drop_last(), fs) + count_of(fs, cs.last().id@)
    }
}

/// How many findings belong to one of the categories `cs`.
pub open spec fn covered_count(fs: Seq<ReportFinding>, cs: Seq<Category>) -> nat
    decreases fs.len(),
{
    if fs.len() == 0 {
        0
    } else {
        covered_count(fs.drop_last(), cs) + if category_ids(cs).contains(fs.last().category_id@) {
            1nat
        } else {
            0nat
        }
    }
}

proof fn lemma_rows_total(cs: Seq<Category>, fs: Seq<ReportFinding>)
    ensures
        total_count(summary_rows(cs, fs)) == sum_counts(cs, fs),
    decreases cs.len(),
{
    if cs.len() > 0 {
        lemma_rows_total(cs.drop_last(), fs);
        let prev = summary_rows(cs.drop_last(), fs);
        let c = cs.last();
        if count_of(fs, c.id@) > 0 {
            let row = (c.name@, anchor_of(c.name@), count_of(fs, c.id@), severity_of(c));
            assert(prev.push(row).drop_last() =~= prev);
        }
    }
}

proof fn lemma_category_ids_push(cs: Seq<Category>, c: Category)
    ensures
        forall|x: Seq<char>|
            #[trigger] category_ids(cs.push(c)).contains(x) <==> (category_ids(cs).contains(x)
                || x == c.id@),
{
    let a = category_ids(cs);
    let b = category_ids(cs.push(c));
    assert(b =~= a.push(c.id@));
    assert forall|x: Seq<char>| b.contains(x) <==> (a.contains(x) || x == c.id@) by {
        if b.contains(x) {
            let k = choose|k: int| 0 <= k < b.len() && b[k] == x;
            if k < a.len() {
                assert(a[k] == x);
            }
        }
        if a.contains(x) {
            let k = choose|k: int| 0 <= k < a.len() && a[k] == x;
            assert(b[k] == x);
        }
        if x == c.id@ {
            assert(b[a.len() as int] == x);
        }
    }
}

proof fn lemma_covered_push(fs: Seq<ReportFinding>, cs: Seq<Category>, c: Category)
    requires
        !category_ids(cs).contains(c.id@),
    ensures
        covered_count(fs, cs.push(c)) == covered_count(fs, cs) + count_of(fs, c.id@),
    decreases fs.len(),
{
    lemma_category_ids_push(cs, c);
    if fs.len() > 0 {
        lemma_covered_push(fs.drop_last(), cs, c);
    }
}

proof fn lemma_sum_is_covered(cs: Seq<Category>, fs: Seq<ReportFinding>)
    requires
        forall|a: int, b: int| 0 <= a < b < cs.len() ==> cs[a].id@ != cs[b].id@,
    ensures
        sum_counts(cs, fs) == covered_count(fs, cs),
    decreases cs.len(),
{
    if cs.len() == 0 {
        lemma_nothing_covered(fs, cs);
    } else {
        let init = cs.drop_last();
        lemma_sum_is_covered(init, fs);
        if category_ids(init).contains(cs.last().id@) {
            let k = choose|k: int|
                0 <= k < category_ids(init).len() && category_ids(init)[k] == cs.last().id@;
            assert(cs[k].id@ == cs[cs.len() - 1].id@);
        }
        lemma_covered_push(fs, init, cs.last());
        assert(init.push(cs.last()) =~= cs);
    }
}

proof fn lemma_nothing_covered(fs: Seq<ReportFinding>, cs: Seq<Category>)
    requires
        cs.len() == 0,
    ensures
        covered_count(fs, cs) == 0,
    decreases fs.len(),
{
    if fs.len() > 0 {
        lemma_nothing_covered(fs.drop_last(), cs);
    }
}

proof fn lemma_all_covered(fs: Seq<ReportFinding>, cs: Seq<Category>)
    requires
        forall|k: int| 0 <= k < fs.len() ==> category_ids(cs).contains(#[trigger] fs[k].category_id@),
    ensures
        covered_count(fs, cs) == fs.len(),
    decreases fs.len(),
{
    if fs.len() > 0 {
        let init = fs.drop_last();
        assert forall|k: int| 0 <= k < init.len() implies category_ids(cs).contains(
            #[trigger] init[k].category_id@,
        ) by {
            assert(init[k] == fs[k]);
        }
        lemma_all_covered(init, cs);
        assert(category_ids(cs).contains(fs[fs.len() - 1].category_id@));
    }
}

/// When category ids are distinct and every finding belongs to a listed
/// category, the summary counts add up to the number of findings.
pub proof fn lemma_summary_counts_total(cs: Seq<Category>, fs: Seq<ReportFinding>)
    requires
        forall|a: int, b: int| 0 <= a < b < cs.len() ==> cs[a].id@ != cs[b].id@,
        forall|k: int| 0 <= k < fs.len() ==> category_ids(cs).contains(#[trigger] fs[k].category_id@),
    ensures
        total_count(summary_rows(cs, fs)) == fs.len(),
{
    lemma_rows_total(cs, fs);
    lemma_sum_is_covered(cs, fs);
    lemma_all_covered(fs, cs);
}

/// Every summary row comes from a category of the report and carries that
/// category's name, link, finding count and severity.
pub proof fn lemma_rows_count_their_category(cs: Seq<Category>, fs: Seq<ReportFinding>, k: int)
    requires
        0 <= k < summary_rows(cs, fs).len(),
    ensures
        exists|i: int|
            0 <= i < cs.len() && #[trigger] summary_rows(cs, fs)[k] == (
                cs[i].name@,
                anchor_of(cs[i].name@),
                count_of(fs, cs[i].id@),
                severity_of(cs[i]),
            ),
    decreases cs.len(),
{
    let init = cs.drop_last();
    let prev = summary_rows(init, fs);
    if k < prev.len() {
        lemma_rows_count_their_category(init, fs, k);
        let i = choose|i: int|
            0 <= i < init.len() && #[trigger] summary_rows(init, fs)[k] == (
                init[i].name@,
                anchor_of(init[i].name@),
                count_of(fs, init[i].id@),
                severity_of(init[i]),
            );
        assert(init[i] == cs[i]);
        assert(summary_rows(cs, fs)[k] == prev[k]);
    } else {
        let i = cs.len() - 1;
        assert(summary_rows(cs, fs)[k] == (
            cs[i].name@,
            anchor_of(cs[i].name@),
            count_of(fs, cs[i].id@),
            severity_of(cs[i]),
        ));
    }
}

} // verus!
