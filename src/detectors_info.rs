//! Assembling detector metadata from what was read out of each plugin
//! library. Opening libraries and calling their exports happens outside;
//! this module decides what is kept and what is reported.
use vstd::prelude::*;
use vstd::utf8::{decode_utf8, valid_utf8};

use crate::text::same_text;

verus! {

/// The metadata record a plugin fills in, as raw bytes per field (without
/// the terminating nul).
#[derive(Debug, Clone, Default)]
pub struct RawLintInfo {
    pub id: Vec<u8>,
    pub name: Vec<u8>,
    pub short_message: Vec<u8>,
    pub long_message: Vec<u8>,
    pub severity: Vec<u8>,
    pub help: Vec<u8>,
    pub vulnerability_class: Vec<u8>,
}

/// A detector's metadata, as validated text.
#[derive(Debug, Clone, Default)]
pub struct LintInfo {
    pub id: String,
    pub name: String,
    pub short_message: String,
    pub long_message: String,
    pub severity: String,
    pub help: String,
    pub vulnerability_class: String,
}

/// What became of one plugin library.
#[derive(Debug, Clone)]
pub enum ProbeOutcome {
    /// The library could not be opened.
    OpenFailed { cause: String },
    /// The library lacks the metadata export.
    MissingMetadataExport { cause: String },
    /// The metadata export filled in `raw`; `has_entry_point` tells whether
    /// the optional standalone entry point was found.
    Loaded { raw: RawLintInfo, has_entry_point: bool },
}

/// One plugin library and what became of it.
#[derive(Debug, Clone)]
pub struct PluginProbe {
    pub path: String,
    pub outcome: ProbeOutcome,
}

#[derive(Debug, Copy, Clone, PartialEq, Eq, Structural)]
pub enum LoaderErrorKind {
    OpenFailed,
    MissingMetadataExport,
    InvalidEncoding,
    DuplicateId,
}

/// A plugin that was not loaded: the kind of failure, the plugin's path,
/// and the cause (or, for a duplicate, the identifier).
#[derive(Debug, Clone)]
pub struct LoaderError {
    pub kind: LoaderErrorKind,
    pub path: String,
    pub detail: String,
}

/// A plugin with a standalone entry point: its identifier and the index of
/// its probe.
#[derive(Debug, Clone)]
pub struct CustomDetector {
    pub id: String,
    pub index: usize,
}

/// The metadata of every plugin that loaded, keyed by declared identifier,
/// the plugins with an entry point, and a failure for every other plugin.
#[derive(Debug, Clone)]
pub struct DetectorsInfo {
    pub lints: Vec<LintInfo>,
    pub custom_detectors: Vec<CustomDetector>,
    pub errors: Vec<LoaderError>,
}

pub open spec fn raw_fields(r: RawLintInfo) -> Seq<Seq<u8>> {
    seq![r.id@, r.name@, r.short_message@, r.long_message@, r.severity@, r.help@, r.vulnerability_class@]
}

pub open spec fn lint_fields(l: LintInfo) -> Seq<Seq<char>> {
    seq![l.id@, l.name@, l.short_message@, l.long_message@, l.severity@, l.help@, l.vulnerability_class@]
}

/// Every field of the record is valid UTF-8.
pub open spec fn raw_valid(r: RawLintInfo) -> bool {
    forall|k: int| 0 <= k < 7 ==> valid_utf8(#[trigger] raw_fields(r)[k])
}

/// The decoded fields of a valid record.
pub open spec fn decoded_fields(r: RawLintInfo) -> Seq<Seq<char>> {
    raw_fields(r).map_values(|b: Seq<u8>| decode_utf8(b))
}

/// Relies on `std::str::from_utf8`: it accepts exactly valid UTF-8 and
/// yields the characters it encodes.
#[verifier::external_body]
fn decode_text(bytes: &Vec<u8>) -> (r: Option<String>)
    ensures
        r is Some <==> valid_utf8(bytes@),
        r matches Some(s) ==> s@ == decode_utf8(bytes@),
{
    std::str::from_utf8(bytes.as_slice()).ok().map(|s| s.to_string())
}

impl LintInfo {
    /// Transcodes a raw record; `None` when some field is not valid UTF-8.
    pub fn try_from_raw(info: &RawLintInfo) -> (r: Option<LintInfo>)
        ensures
            r is Some <==> raw_valid(*info),
            r matches Some(l) ==> lint_fields(l) == decoded_fields(*info),
    {
        let id = decode_text(&info.id);
        let name = decode_text(&info.name);
        let short_message = decode_text(&info.short_message);
        let long_message = decode_text(&info.long_message);
        let severity = decode_text(&info.severity);
        let help = decode_text(&info.help);
        let vulnerability_class = decode_text(&info.vulnerability_class);
        match (id, name, short_message, long_message, severity, help, vulnerability_class) {
            (Some(id), Some(name), Some(short_message), Some(long_message), Some(severity), Some(help), Some(vulnerability_class)) => {
                let l = LintInfo { id, name, short_message, long_message, severity, help, vulnerability_class };
                assert(lint_fields(l) =~= decoded_fields(*info));
                Some(l)
            },
            _ => {
                assert(!raw_valid(*info)) by {
                    if raw_valid(*info) {
                        assert(valid_utf8(raw_fields(*info)[0]));
                        assert(valid_utf8(raw_fields(*info)[1]));
                        assert(valid_utf8(raw_fields(*info)[2]));
                        assert(valid_utf8(raw_fields(*info)[3]));
                        assert(valid_utf8(raw_fields(*info)[4]));
                        assert(valid_utf8(raw_fields(*info)[5]));
                        assert(valid_utf8(raw_fields(*info)[6]));
                    }
                }
                None
            },
        }
    }
}

pub open spec fn error_view(e: LoaderError) -> (LoaderErrorKind, Seq<char>, Seq<char>) {
    (e.kind, e.path@, e.detail@)
}

pub open spec fn custom_view(c: CustomDetector) -> (Seq<char>, int) {
    (c.id@, c.index as int)
}

/// The identifiers of a list of decoded records.
pub open spec fn ids_of(ls: Seq<Seq<Seq<char>>>) -> Seq<Seq<char>> {
    ls.map_values(|f: Seq<Seq<char>>| f[0])
}

/// What loading the probes `ps`, in order, yields: the decoded records
/// kept, the entry points (identifier, probe index), and the failures.
/// A record whose identifier was already taken is reported, not kept.
pub open spec fn load_view(ps: Seq<PluginProbe>) -> (
    Seq<Seq<Seq<char>>>,
    Seq<(Seq<char>, int)>,
    Seq<(LoaderErrorKind, Seq<char>, Seq<char>)>,
)
    decreases ps.len(),
{
    if ps.len() == 0 {
        (Seq::empty(), Seq::empty(), Seq::empty())
    } else {
        let prev = load_view(ps.drop_last());
        let (ls, cs, es) = prev;
        let p = ps.last();
        match p.outcome {
            ProbeOutcome::OpenFailed { cause } => (
                ls,
                cs,
                es.push((LoaderErrorKind::OpenFailed, p.path@, cause@)),
            ),
            ProbeOutcome::MissingMetadataExport { cause } => (
                ls,
                cs,
                es.push((LoaderErrorKind::MissingMetadataExport, p.path@, cause@)),
            ),
            ProbeOutcome::Loaded { raw, has_entry_point } => if !raw_valid(raw) {
                (ls, cs, es.push((LoaderErrorKind::InvalidEncoding, p.path@, Seq::empty())))
            } else if ids_of(ls).contains(decoded_fields(raw)[0]) {
                (ls, cs, es.push((LoaderErrorKind::DuplicateId, p.path@, decoded_fields(raw)[0])))
            } else {
                (
                    ls.push(decoded_fields(raw)),
                    if has_entry_point {
                        cs.push((decoded_fields(raw)[0], ps.len() - 1))
                    } else {
                        cs
                    },
                    es,
                )
            },
        }
    }
}

/// The probe loaded a valid record that declares `id`.
pub open spec fn probe_declares(p: PluginProbe, id: Seq<char>) -> bool {
    p.outcome matches ProbeOutcome::Loaded { raw, .. } && raw_valid(raw) && decoded_fields(raw)[0]
        == id
}

/// Some probe of `ps` loaded a valid record that declares `id`.
pub open spec fn declares(ps: Seq<PluginProbe>, id: Seq<char>) -> bool {
    exists|k: int| 0 <= k < ps.len() && #[trigger] probe_declares(ps[k], id)
}

/// Whether some kept record has the identifier `id`.
fn has_lint_id(lints: &Vec<LintInfo>, id: &String) -> (r: bool)
    ensures
        r == ids_of(lints@.map_values(|l: LintInfo| lint_fields(l))).contains(id@),
{
    let ghost ids = ids_of(lints@.map_values(|l: LintInfo| lint_fields(l)));
    let mut k: usize = 0;
    while k < lints.len()
        invariant
            k <= lints.len(),
            ids == ids_of(lints@.map_values(|l: LintInfo| lint_fields(l))),
            forall|j: int| 0 <= j < k ==> lints@[j].id@ != id@,
        decreases lints.len() - k,
    {
        if same_text(lints[k].id.as_str(), id.as_str()) {
            assert(ids[k as int] == id@);
            return true;
        }
        k = k + 1;
    }
    assert(!ids.contains(id@)) by {
        if ids.contains(id@) {
            let j = choose|j: int| 0 <= j < ids.len() && ids[j] == id@;
            assert(lints@[j].id@ == id@);
        }
    }
    false
}

/// Keeps the metadata of every plugin whose record decodes, keyed by the
/// identifier it declares, and reports every other plugin: one that could
/// not be opened, lacks the metadata export, has a record that is not
/// valid UTF-8, or declares an identifier already taken. A failure does not
/// stop the plugins after it.
pub fn get_detectors_info(probes: &Vec<PluginProbe>) -> (r: DetectorsInfo)
    ensures
        r.lints@.map_values(|l: LintInfo| lint_fields(l)) == load_view(probes@).0,
        r.custom_detectors@.map_values(|c: CustomDetector| custom_view(c)) == load_view(probes@).1,
        r.errors@.map_values(|e: LoaderError| error_view(e)) == load_view(probes@).2,
{
    let mut lints: Vec<LintInfo> = Vec::new();
    let mut custom_detectors: Vec<CustomDetector> = Vec::new();
    let mut errors: Vec<LoaderError> = Vec::new();
    let mut i: usize = 0;
    while i < probes.len()
        invariant
            i <= probes.len(),
            lints@.map_values(|l: LintInfo| lint_fields(l)) == load_view(probes@.take(i as int)).0,
            custom_detectors@.map_values(|c: CustomDetector| custom_view(c)) == load_view(
                probes@.take(i as int),
            ).1,
            errors@.map_values(|e: LoaderError| error_view(e)) == load_view(
                probes@.take(i as int),
            ).2,
        decreases probes.len() - i,
    {
        let p = &probes[i];
        let ghost ls0 = lints@;
        let ghost cs0 = custom_detectors@;
        let ghost es0 = errors@;
        assert(probes@.take(i + 1).drop_last() =~= probes@.take(i as int));
        assert(probes@.take(i + 1).last() == probes@[i as int]);
        match &p.outcome {
            ProbeOutcome::OpenFailed { cause } => {
                errors.push(
                    LoaderError {
                        kind: LoaderErrorKind::OpenFailed,
                        path: p.path.clone(),
                        detail: cause.clone(),
                    },
                );
            },
            ProbeOutcome::MissingMetadataExport { cause } => {
                errors.push(
                    LoaderError {
                        kind: LoaderErrorKind::MissingMetadataExport,
                        path: p.path.clone(),
                        detail: cause.clone(),
                    },
                );
            },
            ProbeOutcome::Loaded { raw, has_entry_point } => {
                match LintInfo::try_from_raw(raw) {
                    None => {
                        errors.push(
                            LoaderError {
                                kind: LoaderErrorKind::InvalidEncoding,
                                path: p.path.clone(),
                                detail: String::new(),
                            },
                        );
                    },
                    Some(info) => {
                        if has_lint_id(&lints, &info.id) {
                            errors.push(
                                LoaderError {
                                    kind: LoaderErrorKind::DuplicateId,
                                    path: p.path.clone(),
                                    detail: info.id.clone(),
                                },
                            );
                        } else {
                            let id = info.id.clone();
                            lints.push(info);
                            assert(lints@.map_values(|l: LintInfo| lint_fields(l)) =~= ls0.map_values(
                                |l: LintInfo| lint_fields(l),
                            ).push(lint_fields(info)));
                            if *has_entry_point {
                                custom_detectors.push(CustomDetector { id, index: i });
                                assert(custom_detectors@.map_values(|c: CustomDetector| custom_view(c))
                                    =~= cs0.map_values(|c: CustomDetector| custom_view(c)).push(
                                    (id@, i as int),
                                ));
                            }
                        }
                    },
                }
            },
        }
        proof {
            if errors@.len() > es0.len() {
                assert(errors@.map_values(|e: LoaderError| error_view(e)) =~= es0.map_values(
                    |e: LoaderError| error_view(e),
                ).push(error_view(errors@.last())));
            }
        }
        i = i + 1;
    }
    assert(probes@.take(probes.len() as int) =~= probes@);
    DetectorsInfo { lints, custom_detectors, errors }
}

/// The identifiers under which metadata is kept are exactly those that the
/// plugins declare in their own records: never a file name, and none lost.
pub proof fn lemma_kept_ids_are_declared_ids(ps: Seq<PluginProbe>, id: Seq<char>)
    ensures
        ids_of(load_view(ps).0).contains(id) <==> declares(ps, id),
    decreases ps.len(),
{
    if ps.len() > 0 {
        let init = ps.drop_last();
        lemma_kept_ids_are_declared_ids(init, id);
        let ls = load_view(init).0;
        let p = ps.last();
        assert forall|k: int| 0 <= k < init.len() implies init[k] == ps[k] by {}
        if declares(init, id) {
            let k = choose|k: int| 0 <= k < init.len() && probe_declares(init[k], id);
            assert(probe_declares(ps[k], id));
        }
        if declares(ps, id) && !probe_declares(p, id) {
            let k = choose|k: int| 0 <= k < ps.len() && probe_declares(ps[k], id);
            assert(k < init.len());
            assert(probe_declares(init[k], id));
        }
        if probe_declares(p, id) {
            assert(probe_declares(ps[ps.len() - 1], id));
        }
        match p.outcome {
            ProbeOutcome::Loaded { raw, has_entry_point } => {
                if raw_valid(raw) && !ids_of(ls).contains(decoded_fields(raw)[0]) {
                    let f = decoded_fields(raw);
                    assert(ids_of(ls.push(f)) =~= ids_of(ls).push(f[0]));
                    if ids_of(ls.push(f)).contains(id) && id != f[0] {
                        let j = choose|j: int|
                            0 <= j < ids_of(ls.push(f)).len() && ids_of(ls.push(f))[j] == id;
                        assert(ids_of(ls)[j] == id);
                    }
                    if ids_of(ls).contains(id) {
                        let j = choose|j: int| 0 <= j < ids_of(ls).len() && ids_of(ls)[j] == id;
                        assert(ids_of(ls.push(f))[j] == id);
                    }
                    if id == f[0] {
                        assert(ids_of(ls.push(f))[ls.len() as int] == id);
                    }
                }
            },
            _ => {},
        }
    }
}

/// Loading one more plugin keeps every failure reported so far.
proof fn lemma_errors_grow(ps: Seq<PluginProbe>)
    requires
        ps.len() > 0,
    ensures
        load_view(ps).2.len() >= load_view(ps.drop_last()).2.len(),
        forall|j: int|
            0 <= j < load_view(ps.drop_last()).2.len() ==> #[trigger] load_view(ps).2[j] == load_view(
                ps.drop_last(),
            ).2[j],
{
}

/// A plugin that lacks the metadata export is reported as such, under its
/// path, and every other plugin's declared identifier is still kept.
pub proof fn lemma_missing_export_is_reported(ps: Seq<PluginProbe>, k: int)
    requires
        0 <= k < ps.len(),
        ps[k].outcome is MissingMetadataExport,
    ensures
        exists|j: int|
            0 <= j < load_view(ps).2.len() && #[trigger] load_view(ps).2[j].0
                == LoaderErrorKind::MissingMetadataExport && load_view(ps).2[j].1 == ps[k].path@,
        forall|id: Seq<char>|
            #[trigger] ids_of(load_view(ps).0).contains(id) <==> declares(ps, id),
    decreases ps.len(),
{
    assert forall|id: Seq<char>|
        #[trigger] ids_of(load_view(ps).0).contains(id) <==> declares(ps, id) by {
        lemma_kept_ids_are_declared_ids(ps, id);
    }
    let init = ps.drop_last();
    if k == ps.len() - 1 {
        let j = load_view(init).2.len() as int;
        assert(load_view(ps).2[j].0 == LoaderErrorKind::MissingMetadataExport);
    } else {
        assert(init[k] == ps[k]);
        lemma_missing_export_is_reported(init, k);
        let j = choose|j: int|
            0 <= j < load_view(init).2.len() && #[trigger] load_view(init).2[j].0
                == LoaderErrorKind::MissingMetadataExport && load_view(init).2[j].1 == init[k].path@;
        lemma_errors_grow(ps);
        assert(load_view(ps).2[j] == load_view(init).2[j]);
    }
}

} // verus!
