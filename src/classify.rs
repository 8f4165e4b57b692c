//! Reading the compiler's diagnostic stream, deciding which compilation
//! units built, and sorting findings into trustworthy and suspect ones.
use vstd::prelude::*;

use crate::json::{
    is_json_text, json_member, json_string_of, json_valid, lines_of, member_text, split_lines,
    string_content,
};
use crate::text::{same_text, texts};

verus! {

/// What classification reads of one record of the compiler's stream.
#[derive(Debug, Clone)]
pub struct CompilerMessage {
    /// The record's `reason` tag, when it is a string.
    pub reason: Option<String>,
    /// The record carries a `message` member.
    pub has_message: bool,
    /// The compilation unit the record is addressed to (`target.name`).
    pub unit: Option<String>,
    /// The message's severity (`message.level`), when it is a string.
    pub level: Option<String>,
}

/// One finding reported by a detector: the unit it belongs to, and the
/// detector's message as JSON text.
#[derive(Debug, Clone)]
pub struct Finding {
    pub unit: String,
    pub payload: String,
}

/// A compilation unit and whether it built without a fatal error.
#[derive(Debug, Clone)]
pub struct UnitEntry {
    pub name: String,
    pub built: bool,
}

/// Build status of each compilation unit that the stream mentions.
#[derive(Debug, Clone)]
pub struct UnitStatus {
    pub entries: Vec<UnitEntry>,
}

/// The record is a compiler diagnostic addressed to a unit.
pub open spec fn names_unit(m: CompilerMessage) -> bool {
    m.has_message && (m.reason matches Some(r) && r@ == "compiler-message"@) && m.unit is Some
}

/// The record carries error severity.
pub open spec fn is_error(m: CompilerMessage) -> bool {
    m.level matches Some(l) && l@ == "error"@
}

/// Some diagnostic of `msgs` is addressed to `u`.
pub open spec fn mentioned(msgs: Seq<CompilerMessage>, u: Seq<char>) -> bool {
    exists|i: int| 0 <= i < msgs.len() && names_unit(msgs[i]) && msgs[i].unit->0@ == u
}

/// Some error-level diagnostic of `msgs` is addressed to `u`.
pub open spec fn errored(msgs: Seq<CompilerMessage>, u: Seq<char>) -> bool {
    exists|i: int|
        0 <= i < msgs.len() && names_unit(msgs[i]) && msgs[i].unit->0@ == u && is_error(msgs[i])
}

/// The status of each unit after reading `msgs`: a unit is known once
/// mentioned, and built unless some error-level diagnostic names it.
pub open spec fn status_of(msgs: Seq<CompilerMessage>) -> Map<Seq<char>, bool> {
    Map::new(|u: Seq<char>| mentioned(msgs, u), |u: Seq<char>| !errored(msgs, u))
}

/// A finding of unit `u` is trusted unless `u` is known to have failed.
pub open spec fn trusts(status: Map<Seq<char>, bool>, u: Seq<char>) -> bool {
    !status.contains_key(u) || status[u]
}

pub open spec fn trusted_by(status: Map<Seq<char>, bool>) -> spec_fn(Finding) -> bool {
    |f: Finding| trusts(status, f.unit@)
}

pub open spec fn suspected_by(status: Map<Seq<char>, bool>) -> spec_fn(Finding) -> bool {
    |f: Finding| !trusts(status, f.unit@)
}

/// The trustworthy findings, in their order.
pub open spec fn trustworthy_of(fs: Seq<Finding>, status: Map<Seq<char>, bool>) -> Seq<Finding> {
    fs.filter(trusted_by(status))
}

/// The suspect findings, in their order.
pub open spec fn suspect_of(fs: Seq<Finding>, status: Map<Seq<char>, bool>) -> Seq<Finding> {
    fs.filter(suspected_by(status))
}

impl UnitStatus {
    pub open spec fn view(&self) -> Map<Seq<char>, bool> {
        Map::new(
            |u: Seq<char>| exists|k: int| 0 <= k < self.entries@.len() && self.entries@[k].name@ == u,
            |u: Seq<char>|
                forall|k: int|
                    0 <= k < self.entries@.len() && self.entries@[k].name@ == u
                        ==> self.entries@[k].built,
        )
    }

    /// Each unit has one entry.
    pub open spec fn wf(&self) -> bool {
        forall|a: int, b: int|
            0 <= a < b < self.entries@.len() ==> self.entries@[a].name@ != self.entries@[b].name@
    }

    /// The index of the entry for `unit`.
    fn find(&self, unit: &str) -> (r: Option<usize>)
        ensures
            r matches Some(k) ==> k < self.entries@.len() && self.entries@[k as int].name@ == unit@,
            r is None ==> forall|k: int|
                0 <= k < self.entries@.len() ==> self.entries@[k].name@ != unit@,
    {
        let mut k: usize = 0;
        while k < self.entries.len()
            invariant
                k <= self.entries.len(),
                forall|j: int| 0 <= j < k ==> self.entries@[j].name@ != unit@,
            decreases self.entries.len() - k,
        {
            if same_text(self.entries[k].name.as_str(), unit) {
                return Some(k);
            }
            k = k + 1;
        }
        None
    }

    /// Whether `unit` built: `None` when the stream never mentioned it.
    pub fn built(&self, unit: &str) -> (r: Option<bool>)
        requires
            self.wf(),
        ensures
            r == (if self@.contains_key(unit@) {
                Some(self@[unit@])
            } else {
                None::<bool>
            }),
    {
        match self.find(unit) {
            Some(k) => {
                assert(self@.contains_key(unit@));
                Some(self.entries[k].built)
            },
            None => None,
        }
    }

    /// Some mentioned unit failed to build.
    pub fn any_failed(&self) -> (r: bool)
        ensures
            r == exists|u: Seq<char>| self@.contains_key(u) && !self@[u],
    {
        let mut k: usize = 0;
        while k < self.entries.len()
            invariant
                k <= self.entries.len(),
                forall|j: int| 0 <= j < k ==> self.entries@[j].built,
            decreases self.entries.len() - k,
        {
            if !self.entries[k].built {
                let ghost u = self.entries@[k as int].name@;
                assert(self@.contains_key(u) && !self@[u]);
                return true;
            }
            k = k + 1;
        }
        assert forall|u: Seq<char>| self@.contains_key(u) implies self@[u] by {}
        false
    }
}

/// Reading one more record extends `mentioned` and `errored` by that record.
proof fn lemma_status_step(msgs: Seq<CompilerMessage>, i: int)
    requires
        0 <= i < msgs.len(),
    ensures
        forall|u: Seq<char>|
            #![trigger mentioned(msgs.take(i + 1), u)]
            mentioned(msgs.take(i + 1), u) <==> (mentioned(msgs.take(i), u) || (names_unit(msgs[i])
                && msgs[i].unit->0@ == u)),
        forall|u: Seq<char>|
            #![trigger errored(msgs.take(i + 1), u)]
            errored(msgs.take(i + 1), u) <==> (errored(msgs.take(i), u) || (names_unit(msgs[i])
                && msgs[i].unit->0@ == u && is_error(msgs[i]))),
{
    let a = msgs.take(i);
    let b = msgs.take(i + 1);
    assert forall|u: Seq<char>| mentioned(b, u) <==> (mentioned(a, u) || (names_unit(msgs[i])
        && msgs[i].unit->0@ == u)) by {
        if mentioned(b, u) {
            let j = choose|j: int| 0 <= j < b.len() && names_unit(b[j]) && b[j].unit->0@ == u;
            if j < i {
                assert(a[j] == b[j]);
            }
        }
        if mentioned(a, u) {
            let j = choose|j: int| 0 <= j < a.len() && names_unit(a[j]) && a[j].unit->0@ == u;
            assert(a[j] == b[j]);
        }
        if names_unit(msgs[i]) && msgs[i].unit->0@ == u {
            assert(b[i] == msgs[i]);
        }
    }
    assert forall|u: Seq<char>| errored(b, u) <==> (errored(a, u) || (names_unit(msgs[i])
        && msgs[i].unit->0@ == u && is_error(msgs[i]))) by {
        if errored(b, u) {
            let j = choose|j: int|
                0 <= j < b.len() && names_unit(b[j]) && b[j].unit->0@ == u && is_error(b[j]);
            if j < i {
                assert(a[j] == b[j]);
            }
        }
        if errored(a, u) {
            let j = choose|j: int|
                0 <= j < a.len() && names_unit(a[j]) && a[j].unit->0@ == u && is_error(a[j]);
            assert(a[j] == b[j]);
        }
        if names_unit(msgs[i]) && msgs[i].unit->0@ == u && is_error(msgs[i]) {
            assert(b[i] == msgs[i]);
        }
    }
}

/// Whether the record is a compiler diagnostic addressed to a unit.
fn addressed_unit(m: &CompilerMessage) -> (r: Option<&String>)
    ensures
        r is Some == names_unit(*m),
        r matches Some(u) ==> m.unit == Some(*u),
{
    if !m.has_message {
        return None;
    }
    match (&m.reason, &m.unit) {
        (Some(reason), Some(u)) => if same_text(reason.as_str(), "compiler-message") {
            Some(u)
        } else {
            None
        },
        _ => None,
    }
}

/// Whether the record carries error severity.
fn error_level(m: &CompilerMessage) -> (r: bool)
    ensures
        r == is_error(*m),
{
    match &m.level {
        Some(l) => same_text(l.as_str(), "error"),
        None => false,
    }
}

/// The build status of every unit the records mention. A unit fails on its
/// first error-level diagnostic and stays failed.
pub fn get_crates(msgs: &Vec<CompilerMessage>) -> (r: UnitStatus)
    ensures
        r.wf(),
        r@ == status_of(msgs@),
{
    let mut st = UnitStatus { entries: Vec::new() };
    assert(st@ =~= status_of(msgs@.take(0)));
    let mut i: usize = 0;
    while i < msgs.len()
        invariant
            i <= msgs.len(),
            st.wf(),
            st@ == status_of(msgs@.take(i as int)),
        decreases msgs.len() - i,
    {
        let m = &msgs[i];
        proof {
            lemma_status_step(msgs@, i as int);
        }
        let ghost before = st@;
        let ghost old_entries = st.entries@;
        let ghost next = status_of(msgs@.take(i + 1));
        match addressed_unit(m) {
            Some(u) => {
                let failed = error_level(m);
                assert forall|w: Seq<char>| errored(msgs@.take(i as int), w) implies mentioned(
                    msgs@.take(i as int),
                    w,
                ) by {
                    let j = choose|j: int|
                        0 <= j < msgs@.take(i as int).len() && names_unit(msgs@.take(i as int)[j])
                            && msgs@.take(i as int)[j].unit->0@ == w && is_error(
                            msgs@.take(i as int)[j],
                        );
                }
                match st.find(u.as_str()) {
                    Some(k) => {
                        if failed {
                            st.entries.set(k, UnitEntry { name: u.clone(), built: false });
                        }
                        assert forall|j: int| 0 <= j < st.entries@.len() implies st.entries@[j].name@
                            == old_entries[j].name@ by {}
                        assert forall|w: Seq<char>|
                            #![trigger st@.contains_key(w)]
                            st@.contains_key(w) == before.contains_key(w) by {
                            if before.contains_key(w) {
                                let j = choose|j: int|
                                    0 <= j < old_entries.len() && old_entries[j].name@ == w;
                                assert(st.entries@[j].name@ == w);
                            }
                        }
                        assert(before.contains_key(u@));
                    },
                    None => {
                        st.entries.push(UnitEntry { name: u.clone(), built: !failed });
                        assert forall|w: Seq<char>|
                            #![trigger st@.contains_key(w)]
                            st@.contains_key(w) == (before.contains_key(w) || w == u@) by {
                            if before.contains_key(w) {
                                let j = choose|j: int|
                                    0 <= j < old_entries.len() && old_entries[j].name@ == w;
                                assert(st.entries@[j].name@ == w);
                            }
                            if w == u@ {
                                assert(st.entries@[old_entries.len() as int].name@ == w);
                            }
                        }
                    },
                }
                assert forall|w: Seq<char>|
                    #![trigger next.contains_key(w)]
                    st@.contains_key(w) == next.contains_key(w) by {}
                assert forall|w: Seq<char>| #[trigger] st@.contains_key(w) implies st@[w] == next[w] by {
                    if w != u@ || (!failed && before.contains_key(u@)) {
                        assert forall|j: int|
                            0 <= j < st.entries@.len() && st.entries@[j].name@ == w implies (j
                            < old_entries.len() && st.entries@[j] == old_entries[j]) by {
                            if j < old_entries.len() && st.entries@[j] != old_entries[j] {
                                assert(st.entries@[j].name@ == u@);
                            }
                        }
                        assert forall|j: int|
                            0 <= j < old_entries.len() && old_entries[j].name@ == w implies (
                            st.entries@[j] == old_entries[j]) by {}
                        assert(st@[w] == before[w]);
                    } else if failed {
                        assert(!st@[w]);
                    } else {
                        assert(!mentioned(msgs@.take(i as int), w));
                        assert forall|j: int|
                            0 <= j < st.entries@.len() && st.entries@[j].name@ == w implies
                            st.entries@[j].built by {
                            if j < old_entries.len() {
                                assert(before.contains_key(w));
                            }
                        }
                    }
                }
                assert(st@ =~= next);
            },
            None => {
                assert(st@ =~= next);
            },
        }
        i = i + 1;
    }
    assert(msgs@.take(msgs@.len() as int) =~= msgs@);
    st
}

/// Extending a sequence by one element extends its filter by that element
/// when it passes.
proof fn lemma_filter_take_step<A>(s: Seq<A>, p: spec_fn(A) -> bool, j: int)
    requires
        0 <= j < s.len(),
    ensures
        s.take(j + 1).filter(p) == (if p(s[j]) {
            s.take(j).filter(p).push(s[j])
        } else {
            s.take(j).filter(p)
        }),
{
    reveal(Seq::filter);
    assert(s.take(j + 1).drop_last() =~= s.take(j));
    assert(s.take(j + 1).last() == s[j]);
}

/// Sorts findings by the build status of their unit: a finding is
/// trustworthy unless its unit is known to have failed.
pub fn split_findings(findings: Vec<Finding>, crates: &UnitStatus) -> (r: (Vec<Finding>, Vec<Finding>))
    requires
        crates.wf(),
    ensures
        r.0@ == trustworthy_of(findings@, crates@),
        r.1@ == suspect_of(findings@, crates@),
{
    let ghost all = findings@;
    let ghost st = crates@;
    let ghost p = trusted_by(st);
    let ghost q = suspected_by(st);
    let mut rest = findings;
    let mut successful: Vec<Finding> = Vec::new();
    let mut failed: Vec<Finding> = Vec::new();
    let ghost mut done: int = 0;
    proof {
        reveal(Seq::filter);
        assert(all.take(0) =~= Seq::<Finding>::empty());
    }
    while rest.len() > 0
        invariant
            crates.wf(),
            st == crates@,
            p == trusted_by(st),
            q == suspected_by(st),
            0 <= done <= all.len(),
            rest@ == all.subrange(done, all.len() as int),
            successful@ == all.take(done).filter(p),
            failed@ == all.take(done).filter(q),
        decreases rest.len(),
    {
        let f = rest.remove(0);
        proof {
            assert(f == all[done]);
            lemma_filter_take_step(all, p, done);
            lemma_filter_take_step(all, q, done);
        }
        let trusted = match crates.built(f.unit.as_str()) {
            Some(b) => b,
            None => true,
        };
        if trusted {
            successful.push(f);
        } else {
            failed.push(f);
        }
        proof {
            done = done + 1;
            assert(rest@ =~= all.subrange(done, all.len() as int));
        }
    }
    proof {
        assert(all.take(done) =~= all);
    }
    (successful, failed)
}

/// What classification reads of a diagnostic record: reason, whether a
/// message is present, unit, level.
pub type MessageView = (Option<Seq<char>>, bool, Option<Seq<char>>, Option<Seq<char>>);

pub open spec fn opt_text(o: Option<String>) -> Option<Seq<char>> {
    match o {
        Some(s) => Some(s@),
        None => None,
    }
}

pub open spec fn message_view(m: CompilerMessage) -> MessageView {
    (opt_text(m.reason), m.has_message, opt_text(m.unit), opt_text(m.level))
}

/// The member `key` of the JSON text `t`, if `t` is present.
pub open spec fn and_member(t: Option<Seq<char>>, key: Seq<char>) -> Option<Seq<char>> {
    match t {
        Some(x) => json_member(x, key),
        None => None,
    }
}

/// The string that the JSON text `t` holds, if `t` is present.
pub open spec fn and_string(t: Option<Seq<char>>) -> Option<Seq<char>> {
    match t {
        Some(x) => json_string_of(x),
        None => None,
    }
}

/// What a line of the compiler's stream says: its `reason`, whether it has
/// a `message`, its `target.name` and its `message.level`; `None` when the
/// line is not JSON.
pub open spec fn message_of(line: Seq<char>) -> Option<MessageView> {
    if !is_json_text(line) {
        None
    } else {
        Some(
            (
                and_string(json_member(line, "reason"@)),
                json_member(line, "message"@) is Some,
                and_string(and_member(json_member(line, "target"@), "name"@)),
                and_string(and_member(json_member(line, "message"@), "level"@)),
            ),
        )
    }
}

pub open spec fn finding_view(f: Finding) -> (Seq<char>, Seq<char>) {
    (f.unit@, f.payload@)
}

/// What a side-channel record says: the string under `crate` and the JSON
/// text under `message`; `None` when either is missing.
pub open spec fn finding_of(record: Seq<char>) -> Option<(Seq<char>, Seq<char>)> {
    match (and_string(json_member(record, "crate"@)), json_member(record, "message"@)) {
        (Some(u), Some(p)) => Some((u, p)),
        _ => None,
    }
}

/// The messages read from the lines, in order, skipping lines that are not JSON.
pub open spec fn decoded_messages(lines: Seq<Seq<char>>) -> Seq<MessageView>
    decreases lines.len(),
{
    if lines.len() == 0 {
        Seq::empty()
    } else {
        let prev = decoded_messages(lines.drop_last());
        match message_of(lines.last()) {
            Some(v) => prev.push(v),
            None => prev,
        }
    }
}

/// The findings read from the records, in order, skipping malformed ones.
pub open spec fn decoded_findings(records: Seq<Seq<char>>) -> Seq<(Seq<char>, Seq<char>)>
    decreases records.len(),
{
    if records.len() == 0 {
        Seq::empty()
    } else {
        let prev = decoded_findings(records.drop_last());
        match finding_of(records.last()) {
            Some(v) => prev.push(v),
            None => prev,
        }
    }
}

/// The string held by the member `key` of the JSON text `text`.
fn string_member(text: &str, key: &str) -> (r: Option<String>)
    ensures
        opt_text(r) == and_string(json_member(text@, key@)),
{
    match member_text(text, key) {
        Some(t) => string_content(t.as_str()),
        None => None,
    }
}

/// Reads what classification needs from one line of the compiler's stream;
/// `None` when the line is not JSON.
pub fn read_compiler_message(line: &str) -> (r: Option<CompilerMessage>)
    ensures
        r is Some <==> message_of(line@) is Some,
        r matches Some(m) ==> message_of(line@) == Some(message_view(m)),
{
    if !json_valid(line) {
        return None;
    }
    let reason = string_member(line, "reason");
    let message = member_text(line, "message");
    let unit = match member_text(line, "target") {
        Some(t) => string_member(t.as_str(), "name"),
        None => None,
    };
    let level = match &message {
        Some(m) => string_member(m.as_str(), "level"),
        None => None,
    };
    let m = CompilerMessage { reason, has_message: message.is_some(), unit, level };
    assert(message_of(line@) == Some(message_view(m)));
    Some(m)
}

/// Reads one side-channel finding record: the string under `crate` and the
/// JSON text under `message`; `None` when the record lacks either.
pub fn read_finding(record: &str) -> (r: Option<Finding>)
    ensures
        r is Some <==> finding_of(record@) is Some,
        r matches Some(f) ==> finding_of(record@) == Some(finding_view(f)),
{
    let unit = string_member(record, "crate");
    let payload = member_text(record, "message");
    match (unit, payload) {
        (Some(unit), Some(payload)) => Some(Finding { unit, payload }),
        _ => None,
    }
}

/// The outcome of classification.
#[derive(Debug)]
pub struct Classification {
    /// The diagnostics read from the stream, in order.
    pub messages: Vec<CompilerMessage>,
    /// Build status of each unit the diagnostics mention.
    pub crates: UnitStatus,
    /// Findings whose unit did not fail.
    pub trustworthy: Vec<Finding>,
    /// Findings whose unit failed to build.
    pub suspect: Vec<Finding>,
}

/// Classifies a run: reads the compiler's line-delimited stream, decides
/// the status of each unit, and sorts the side-channel findings by it.
/// Lines and records that cannot be read are skipped; the rest are used.
pub fn classify(raw_stream: &str, side_findings: &Vec<String>) -> (r: Classification)
    ensures
        r.messages@.map_values(|m: CompilerMessage| message_view(m)) == decoded_messages(
            lines_of(raw_stream@),
        ),
        r.crates.wf(),
        r.crates@ == status_of(r.messages@),
        exists|fs: Seq<Finding>|
            #![trigger trustworthy_of(fs, r.crates@)]
            fs.map_values(|f: Finding| finding_view(f)) == decoded_findings(texts(side_findings@))
                && r.trustworthy@ == trustworthy_of(fs, r.crates@) && r.suspect@ == suspect_of(
                fs,
                r.crates@,
            ),
{
    let lines = split_lines(raw_stream);
    let ghost ls = texts(lines@);
    let mut messages: Vec<CompilerMessage> = Vec::new();
    let mut i: usize = 0;
    while i < lines.len()
        invariant
            i <= lines.len(),
            ls == texts(lines@),
            messages@.map_values(|m: CompilerMessage| message_view(m)) == decoded_messages(
                ls.take(i as int),
            ),
        decreases lines.len() - i,
    {
        assert(ls.take(i + 1).drop_last() =~= ls.take(i as int));
        assert(ls.take(i + 1).last() == lines@[i as int]@);
        let ghost before = messages@;
        match read_compiler_message(lines[i].as_str()) {
            Some(m) => {
                messages.push(m);
                assert(messages@.map_values(|m: CompilerMessage| message_view(m)) =~= before.map_values(
                    |m: CompilerMessage| message_view(m),
                ).push(message_view(m)));
            },
            None => {},
        }
        i = i + 1;
    }
    assert(ls.take(lines.len() as int) =~= lines_of(raw_stream@));
    let crates = get_crates(&messages);
    let ghost rs = texts(side_findings@);
    let mut findings: Vec<Finding> = Vec::new();
    let mut k: usize = 0;
    while k < side_findings.len()
        invariant
            k <= side_findings.len(),
            rs == texts(side_findings@),
            findings@.map_values(|f: Finding| finding_view(f)) == decoded_findings(
                rs.take(k as int),
            ),
        decreases side_findings.len() - k,
    {
        assert(rs.take(k + 1).drop_last() =~= rs.take(k as int));
        assert(rs.take(k + 1).last() == side_findings@[k as int]@);
        let ghost before = findings@;
        match read_finding(side_findings[k].as_str()) {
            Some(f) => {
                findings.push(f);
                assert(findings@.map_values(|f: Finding| finding_view(f)) =~= before.map_values(
                    |f: Finding| finding_view(f),
                ).push(finding_view(f)));
            },
            None => {},
        }
        k = k + 1;
    }
    assert(rs.take(side_findings.len() as int) =~= rs);
    let ghost fs = findings@;
    let (trustworthy, suspect) = split_findings(findings, &crates);
    let r = Classification { messages, crates, trustworthy, suspect };
    assert(fs.map_values(|f: Finding| finding_view(f)) == decoded_findings(texts(side_findings@))
        && r.trustworthy@ == trustworthy_of(fs, r.crates@) && r.suspect@ == suspect_of(fs, r.crates@));
    r
}

/// A unit that has failed stays failed however many more diagnostics are
/// read, error-level or not.
pub proof fn lemma_failure_is_permanent(msgs: Seq<CompilerMessage>, i: int, j: int, u: Seq<char>)
    requires
        0 <= i <= j <= msgs.len(),
        status_of(msgs.take(i)).contains_key(u),
        !status_of(msgs.take(i))[u],
    ensures
        status_of(msgs.take(j)).contains_key(u),
        !status_of(msgs.take(j))[u],
{
    let a = msgs.take(i);
    let b = msgs.take(j);
    let x = choose|x: int| 0 <= x < a.len() && names_unit(a[x]) && a[x].unit->0@ == u && is_error(a[x]);
    assert(b[x] == a[x]);
    assert(mentioned(b, u));
    assert(errored(b, u));
}

/// A finding whose unit no diagnostic mentions is trustworthy, never suspect.
pub proof fn lemma_unmentioned_unit_is_trusted(msgs: Seq<CompilerMessage>, fs: Seq<Finding>, k: int)
    requires
        0 <= k < fs.len(),
        !mentioned(msgs, fs[k].unit@),
    ensures
        trustworthy_of(fs, status_of(msgs)).contains(fs[k]),
        !suspect_of(fs, status_of(msgs)).contains(fs[k]),
{
    let st = status_of(msgs);
    let p = trusted_by(st);
    let q = suspected_by(st);
    fs.lemma_filter_contains(p, k);
    if fs.filter(q).contains(fs[k]) {
        let x = choose|x: int| 0 <= x < fs.filter(q).len() && fs.filter(q)[x] == fs[k];
        fs.lemma_filter_pred(q, x);
    }
}

} // verus!
