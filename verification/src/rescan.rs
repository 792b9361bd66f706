//! The decisions of rescanning a stored project: whether its file still
//! exists, whether its content changed, and what changed. Reading the file,
//! hashing it, parsing it and writing the database is left to callers, which
//! go step by step: `rescan_start`, then `rescan_after_hash` when asked to
//! hash, then `rescan_after_parse` with what parsing gave.
use vstd::prelude::*;
use crate::numbers::{decimal, format_decimal};
use crate::search::joined;
use crate::text::{lemma_concat_keeps, push_all, str_eq};
use crate::types::{AbletonVersion, KeySignature, Scale, TimeSignature, Tonic};

verus! {

/// What a rescan reports. The updated project itself is read back from the
/// database by the caller.
#[derive(Debug)]
pub struct RescanProjectResult {
    pub success: bool,
    pub was_updated: bool,
    pub scan_summary: String,
    pub error_message: Option<String>,
}

/// A report with its texts as characters.
pub struct RescanProjectResultView {
    pub success: bool,
    pub was_updated: bool,
    pub scan_summary: Seq<char>,
    pub error_message: Option<Seq<char>>,
}

impl View for RescanProjectResult {
    type V = RescanProjectResultView;

    open spec fn view(&self) -> RescanProjectResultView {
        RescanProjectResultView {
            success: self.success,
            was_updated: self.was_updated,
            scan_summary: self.scan_summary@,
            error_message: match self.error_message {
                Some(m) => Some(m@),
                None => None,
            },
        }
    }
}

/// What a rescan does next.
#[derive(Debug)]
pub enum RescanStep {
    /// The rescan is over with this report.
    Finished(RescanProjectResult),
    /// Hash the file and call `rescan_after_hash`.
    ComputeHash,
    /// Parse the file and call `rescan_after_parse`.
    ParseFile,
}

pub open spec fn outcome(success: bool, was_updated: bool, summary: Seq<char>, error: Option<Seq<char>>) -> RescanProjectResultView {
    RescanProjectResultView { success, was_updated, scan_summary: summary, error_message: error }
}

/// The step is over with report `o`.
pub open spec fn finished_with(step: RescanStep, o: RescanProjectResultView) -> bool {
    step matches RescanStep::Finished(r) && r@ == o
}

fn report(success: bool, was_updated: bool, summary: &str, error: Option<String>) -> (res: RescanProjectResult)
    ensures
        res@ == outcome(success, was_updated, summary@, match error { Some(m) => Some(m@), None => None }),
{
    let mut s = String::new();
    push_all(&mut s, summary);
    RescanProjectResult { success, was_updated, scan_summary: s, error_message: error }
}

fn text_of(parts: &str) -> (res: String)
    ensures
        res@ == parts@,
{
    let mut s = String::new();
    push_all(&mut s, parts);
    s
}

/// The first step: a file that no longer exists ends the rescan; a forced
/// rescan parses the file; otherwise the file is hashed first.
pub fn rescan_start(file_exists: bool, force_rescan: bool) -> (res: RescanStep)
    ensures
        !file_exists ==> finished_with(res, outcome(false, false, "Project file no longer exists"@, Some("Project file not found"@))),
        file_exists && force_rescan ==> res is ParseFile,
        file_exists && !force_rescan ==> res is ComputeHash,
{
    if !file_exists {
        return RescanStep::Finished(report(false, false, "Project file no longer exists", Some(text_of("Project file not found"))));
    }
    if force_rescan {
        RescanStep::ParseFile
    } else {
        RescanStep::ComputeHash
    }
}

/// After hashing: a failure ends the rescan, an unchanged hash ends it with
/// nothing to update, a changed one parses the file.
pub fn rescan_after_hash(stored_hash: &str, current_hash: Result<&str, &str>) -> (res: RescanStep)
    ensures
        match current_hash {
            Err(e) => finished_with(res, outcome(false, false, "Failed to calculate file hash"@, Some("Hash calculation error: "@ + e@))),
            Ok(h) => if h@ == stored_hash@ {
                finished_with(res, outcome(true, false, "Project file unchanged, no update needed"@, None))
            } else {
                res is ParseFile
            },
        },
{
    match current_hash {
        Err(e) => {
            let mut m = String::new();
            push_all(&mut m, "Hash calculation error: ");
            push_all(&mut m, e);
            RescanStep::Finished(report(false, false, "Failed to calculate file hash", Some(m)))
        },
        Ok(h) => {
            if str_eq(h, stored_hash) {
                RescanStep::Finished(report(true, false, "Project file unchanged, no update needed", None))
            } else {
                RescanStep::ParseFile
            }
        },
    }
}

/// The report of a rescan whose file could not be parsed.
pub fn rescan_parse_failed(error: &str) -> (res: RescanProjectResult)
    ensures
        res@ == outcome(false, false, "Failed to parse project file"@, Some("Parse error: "@ + error@)),
{
    let mut m = String::new();
    push_all(&mut m, "Parse error: ");
    push_all(&mut m, error);
    report(false, false, "Failed to parse project file", Some(m))
}

/// The report of a completed rescan with these changes.
pub open spec fn finished_summary(changes: Seq<Seq<char>>) -> Seq<char> {
    if changes.len() == 0 {
        "Project rescan completed, no changes detected"@
    } else {
        "Project updated: "@ + joined(changes, ", "@)
    }
}

/// The report of a completed rescan: updated when something changed.
pub fn rescan_finished(changes: &Vec<String>) -> (res: RescanProjectResult)
    ensures
        res@ == outcome(true, changes@.len() > 0, finished_summary(changes@.map_values(|c: String| c@)), None),
{
    if changes.len() == 0 {
        report(true, false, "Project rescan completed, no changes detected", None)
    } else {
        let joined_changes = crate::search::join_strings(changes, ", ");
        let mut s = String::new();
        push_all(&mut s, "Project updated: ");
        push_all(&mut s, joined_changes.as_str());
        RescanProjectResult { success: true, was_updated: true, scan_summary: s, error_message: None }
    }
}

/// What is compared between the stored project and the reparsed one (the
/// tempo, a floating-point number, is compared by the caller).
#[derive(Debug)]
pub struct ProjectSummary {
    pub name: String,
    pub time_signature: TimeSignature,
    pub key_signature: Option<KeySignature>,
    pub ableton_version: AbletonVersion,
    pub plugin_count: usize,
    pub sample_count: usize,
}

pub open spec fn tonic_name(x: Tonic) -> Seq<char> {
    match x {
        Tonic::Empty => "Empty"@,
        Tonic::C => "C"@,
        Tonic::CSharp => "CSharp"@,
        Tonic::D => "D"@,
        Tonic::DSharp => "DSharp"@,
        Tonic::E => "E"@,
        Tonic::F => "F"@,
        Tonic::FSharp => "FSharp"@,
        Tonic::G => "G"@,
        Tonic::GSharp => "GSharp"@,
        Tonic::A => "A"@,
        Tonic::ASharp => "ASharp"@,
        Tonic::B => "B"@,
    }
}

pub open spec fn scale_name(x: Scale) -> Seq<char> {
    match x {
        Scale::Empty => "Empty"@,
        Scale::Major => "Major"@,
        Scale::Minor => "Minor"@,
        Scale::Dorian => "Dorian"@,
        Scale::Mixolydian => "Mixolydian"@,
        Scale::Aeolian => "Aeolian"@,
        Scale::Phrygian => "Phrygian"@,
        Scale::Locrian => "Locrian"@,
        Scale::WholeTone => "WholeTone"@,
        Scale::HalfWholeDim => "HalfWholeDim"@,
        Scale::WholeHalfDim => "WholeHalfDim"@,
        Scale::MinorBlues => "MinorBlues"@,
        Scale::MinorPentatonic => "MinorPentatonic"@,
        Scale::MajorPentatonic => "MajorPentatonic"@,
        Scale::HarmonicMinor => "HarmonicMinor"@,
        Scale::MelodicMinor => "MelodicMinor"@,
        Scale::Dorian4 => "Dorian4"@,
        Scale::PhrygianDominant => "PhrygianDominant"@,
        Scale::LydianDominant => "LydianDominant"@,
        Scale::LydianAugmented => "LydianAugmented"@,
        Scale::HarmonicMajor => "HarmonicMajor"@,
        Scale::SuperLocrian => "SuperLocrian"@,
        Scale::BToneSpanish => "BToneSpanish"@,
        Scale::HungarianMinor => "HungarianMinor"@,
        Scale::Hirajoshi => "Hirajoshi"@,
        Scale::Iwato => "Iwato"@,
        Scale::PelogSelisir => "PelogSelisir"@,
        Scale::PelogTembung => "PelogTembung"@,
        Scale::Messiaen1 => "Messiaen1"@,
        Scale::Messiaen2 => "Messiaen2"@,
        Scale::Messiaen3 => "Messiaen3"@,
        Scale::Messiaen4 => "Messiaen4"@,
        Scale::Messiaen5 => "Messiaen5"@,
        Scale::Messiaen6 => "Messiaen6"@,
        Scale::Messiaen7 => "Messiaen7"@,
    }
}

/// A key as text: tonic and scale by name, or `None`.
pub open spec fn key_text(k: Option<KeySignature>) -> Seq<char> {
    match k {
        Some(k) => tonic_name(k.tonic) + " "@ + scale_name(k.scale),
        None => "None"@,
    }
}

/// A version as text: `major.minor.patch`.
pub open spec fn version_numbers(v: AbletonVersion) -> Seq<char> {
    decimal(v.major as nat) + "."@ + decimal(v.minor as nat) + "."@ + decimal(v.patch as nat)
}

pub open spec fn line_if(changed: bool, line: Seq<char>) -> Seq<Seq<char>> {
    if changed {
        seq![line]
    } else {
        Seq::empty()
    }
}

/// The changes between the stored project and the reparsed one, in this
/// order: name, tempo (the caller's line), time signature, key, Live version
/// (any of its parts, beta included), plugin count, sample count.
pub open spec fn changes_spec(old: ProjectSummary, new: ProjectSummary, tempo_change: Option<Seq<char>>) -> Seq<Seq<char>> {
    line_if(old.name@ != new.name@, "Name: '"@ + old.name@ + "' -> '"@ + new.name@ + "'"@)
        + (match tempo_change { Some(t) => seq![t], None => Seq::empty() })
        + line_if(
            old.time_signature != new.time_signature,
            "Time signature: "@ + decimal(old.time_signature.numerator as nat) + "/"@ + decimal(old.time_signature.denominator as nat)
                + " -> "@ + decimal(new.time_signature.numerator as nat) + "/"@ + decimal(new.time_signature.denominator as nat),
        )
        + line_if(old.key_signature != new.key_signature, "Key signature: "@ + key_text(old.key_signature) + " -> "@ + key_text(new.key_signature))
        + line_if(old.ableton_version != new.ableton_version, "Ableton version: "@ + version_numbers(old.ableton_version) + " -> "@ + version_numbers(new.ableton_version))
        + line_if(old.plugin_count != new.plugin_count, "Plugins: "@ + decimal(old.plugin_count as nat) + " -> "@ + decimal(new.plugin_count as nat))
        + line_if(old.sample_count != new.sample_count, "Samples: "@ + decimal(old.sample_count as nat) + " -> "@ + decimal(new.sample_count as nat))
}

fn tonic_text(x: Tonic) -> (res: &'static str)
    ensures
        res@ == tonic_name(x),
{
    proof {
        reveal_strlit("Empty");
        reveal_strlit("C");
        reveal_strlit("CSharp");
        reveal_strlit("D");
        reveal_strlit("DSharp");
        reveal_strlit("E");
        reveal_strlit("F");
        reveal_strlit("FSharp");
        reveal_strlit("G");
        reveal_strlit("GSharp");
        reveal_strlit("A");
        reveal_strlit("ASharp");
        reveal_strlit("B");
    }
    match x {
        Tonic::Empty => "Empty",
        Tonic::C => "C",
        Tonic::CSharp => "CSharp",
        Tonic::D => "D",
        Tonic::DSharp => "DSharp",
        Tonic::E => "E",
        Tonic::F => "F",
        Tonic::FSharp => "FSharp",
        Tonic::G => "G",
        Tonic::GSharp => "GSharp",
        Tonic::A => "A",
        Tonic::ASharp => "ASharp",
        Tonic::B => "B",
    }
}

fn scale_text(x: Scale) -> (res: &'static str)
    ensures
        res@ == scale_name(x),
{
    proof {
        reveal_strlit("Empty");
        reveal_strlit("Major");
        reveal_strlit("Minor");
        reveal_strlit("Dorian");
        reveal_strlit("Mixolydian");
        reveal_strlit("Aeolian");
        reveal_strlit("Phrygian");
        reveal_strlit("Locrian");
        reveal_strlit("WholeTone");
        reveal_strlit("HalfWholeDim");
        reveal_strlit("WholeHalfDim");
        reveal_strlit("MinorBlues");
        reveal_strlit("MinorPentatonic");
        reveal_strlit("MajorPentatonic");
        reveal_strlit("HarmonicMinor");
        reveal_strlit("MelodicMinor");
        reveal_strlit("Dorian4");
        reveal_strlit("PhrygianDominant");
        reveal_strlit("LydianDominant");
        reveal_strlit("LydianAugmented");
        reveal_strlit("HarmonicMajor");
        reveal_strlit("SuperLocrian");
        reveal_strlit("BToneSpanish");
        reveal_strlit("HungarianMinor");
        reveal_strlit("Hirajoshi");
        reveal_strlit("Iwato");
        reveal_strlit("PelogSelisir");
        reveal_strlit("PelogTembung");
        reveal_strlit("Messiaen1");
        reveal_strlit("Messiaen2");
        reveal_strlit("Messiaen3");
        reveal_strlit("Messiaen4");
        reveal_strlit("Messiaen5");
        reveal_strlit("Messiaen6");
        reveal_strlit("Messiaen7");
    }
    match x {
        Scale::Empty => "Empty",
        Scale::Major => "Major",
        Scale::Minor => "Minor",
        Scale::Dorian => "Dorian",
        Scale::Mixolydian => "Mixolydian",
        Scale::Aeolian => "Aeolian",
        Scale::Phrygian => "Phrygian",
        Scale::Locrian => "Locrian",
        Scale::WholeTone => "WholeTone",
        Scale::HalfWholeDim => "HalfWholeDim",
        Scale::WholeHalfDim => "WholeHalfDim",
        Scale::MinorBlues => "MinorBlues",
        Scale::MinorPentatonic => "MinorPentatonic",
        Scale::MajorPentatonic => "MajorPentatonic",
        Scale::HarmonicMinor => "HarmonicMinor",
        Scale::MelodicMinor => "MelodicMinor",
        Scale::Dorian4 => "Dorian4",
        Scale::PhrygianDominant => "PhrygianDominant",
        Scale::LydianDominant => "LydianDominant",
        Scale::LydianAugmented => "LydianAugmented",
        Scale::HarmonicMajor => "HarmonicMajor",
        Scale::SuperLocrian => "SuperLocrian",
        Scale::BToneSpanish => "BToneSpanish",
        Scale::HungarianMinor => "HungarianMinor",
        Scale::Hirajoshi => "Hirajoshi",
        Scale::Iwato => "Iwato",
        Scale::PelogSelisir => "PelogSelisir",
        Scale::PelogTembung => "PelogTembung",
        Scale::Messiaen1 => "Messiaen1",
        Scale::Messiaen2 => "Messiaen2",
        Scale::Messiaen3 => "Messiaen3",
        Scale::Messiaen4 => "Messiaen4",
        Scale::Messiaen5 => "Messiaen5",
        Scale::Messiaen6 => "Messiaen6",
        Scale::Messiaen7 => "Messiaen7",
    }
}

fn key_string(k: Option<KeySignature>) -> (res: String)
    ensures
        res@ == key_text(k),
{
    proof {
        reveal_strlit(" ");
        reveal_strlit("None");
    }
    let mut s = String::new();
    match k {
        Some(k) => {
            push_all(&mut s, tonic_text(k.tonic));
            push_all(&mut s, " ");
            push_all(&mut s, scale_text(k.scale));
        },
        None => push_all(&mut s, "None"),
    }
    s
}

fn version_string(v: AbletonVersion) -> (res: String)
    ensures
        res@ == version_numbers(v),
{
    proof {
        reveal_strlit(".");
    }
    let mut s = String::new();
    push_all(&mut s, format_decimal(v.major as u64).as_str());
    push_all(&mut s, ".");
    push_all(&mut s, format_decimal(v.minor as u64).as_str());
    push_all(&mut s, ".");
    push_all(&mut s, format_decimal(v.patch as u64).as_str());
    s
}

fn same_key(a: Option<KeySignature>, b: Option<KeySignature>) -> (res: bool)
    ensures
        res == (a == b),
{
    match (a, b) {
        (Some(x), Some(y)) => x.tonic == y.tonic && x.scale == y.scale,
        (None, None) => true,
        _ => false,
    }
}

/// `a`, then `from`, ` -> ` and `to`.
fn change_line(a: &str, from: &str, to: &str) -> (res: String)
    ensures
        res@ == a@ + from@ + " -> "@ + to@,
{
    proof {
        reveal_strlit(" -> ");
    }
    let mut s = String::new();
    push_all(&mut s, a);
    push_all(&mut s, from);
    push_all(&mut s, " -> ");
    push_all(&mut s, to);
    s
}

fn push_line(lines: &mut Vec<String>, line: String)
    ensures
        final(lines)@.map_values(|c: String| c@) == old(lines)@.map_values(|c: String| c@).push(line@),
{
    let ghost before = lines@.map_values(|c: String| c@);
    let ghost l = line@;
    lines.push(line);
    assert(lines@.map_values(|c: String| c@) =~= before.push(l));
}

fn signature_string(t: TimeSignature) -> (res: String)
    ensures
        res@ == decimal(t.numerator as nat) + "/"@ + decimal(t.denominator as nat),
{
    proof {
        reveal_strlit("/");
    }
    let mut s = String::new();
    push_all(&mut s, format_decimal(t.numerator as u64).as_str());
    push_all(&mut s, "/");
    push_all(&mut s, format_decimal(t.denominator as u64).as_str());
    s
}

/// The changes between the stored project and the reparsed one (see
/// `changes_spec`); `tempo_change` is the caller's line for a changed tempo.
pub fn change_summary(old: &ProjectSummary, new: &ProjectSummary, tempo_change: Option<String>) -> (res: Vec<String>)
    ensures
        res@.map_values(|c: String| c@) == changes_spec(*old, *new, match tempo_change {
            Some(t) => Some(t@),
            None => None,
        }),
{
    proof {
        reveal_strlit("Name: '");
        reveal_strlit("' -> '");
        reveal_strlit("'");
        reveal_strlit("Time signature: ");
        reveal_strlit("Key signature: ");
        reveal_strlit("Ableton version: ");
        reveal_strlit("Plugins: ");
        reveal_strlit("Samples: ");
    }
    let mut lines: Vec<String> = Vec::new();
    assert(lines@.map_values(|c: String| c@) =~= Seq::<Seq<char>>::empty());
    let ghost c0 = lines@.map_values(|c: String| c@);
    if !str_eq(old.name.as_str(), new.name.as_str()) {
        let mut s = String::new();
        push_all(&mut s, "Name: '");
        push_all(&mut s, old.name.as_str());
        push_all(&mut s, "' -> '");
        push_all(&mut s, new.name.as_str());
        push_all(&mut s, "'");
        push_line(&mut lines, s);
    }
    let ghost c1 = lines@.map_values(|c: String| c@);
    assert(c1 =~= c0 + line_if(old.name@ != new.name@, "Name: '"@ + old.name@ + "' -> '"@ + new.name@ + "'"@));
    let ghost tv = match tempo_change { Some(ref t) => Some(t@), None => None::<Seq<char>> };
    match tempo_change {
        Some(t) => push_line(&mut lines, t),
        None => {},
    }
    let ghost c2 = lines@.map_values(|c: String| c@);
    assert(c2 =~= c1 + match tv { Some(t) => seq![t], None => Seq::<Seq<char>>::empty() });
    if old.time_signature != new.time_signature {
        let a = signature_string(old.time_signature);
        let b = signature_string(new.time_signature);
        let line = change_line("Time signature: ", a.as_str(), b.as_str());
        assert(line@ =~= "Time signature: "@ + decimal(old.time_signature.numerator as nat) + "/"@ + decimal(old.time_signature.denominator as nat)
            + " -> "@ + decimal(new.time_signature.numerator as nat) + "/"@ + decimal(new.time_signature.denominator as nat));
        push_line(&mut lines, line);
    }
    let ghost c3 = lines@.map_values(|c: String| c@);
    assert(c3 =~= c2 + line_if(
        old.time_signature != new.time_signature,
        "Time signature: "@ + decimal(old.time_signature.numerator as nat) + "/"@ + decimal(old.time_signature.denominator as nat)
            + " -> "@ + decimal(new.time_signature.numerator as nat) + "/"@ + decimal(new.time_signature.denominator as nat),
    ));
    if !same_key(old.key_signature, new.key_signature) {
        let a = key_string(old.key_signature);
        let b = key_string(new.key_signature);
        push_line(&mut lines, change_line("Key signature: ", a.as_str(), b.as_str()));
    }
    let ghost c4 = lines@.map_values(|c: String| c@);
    assert(c4 =~= c3 + line_if(old.key_signature != new.key_signature, "Key signature: "@ + key_text(old.key_signature) + " -> "@ + key_text(new.key_signature)));
    if old.ableton_version != new.ableton_version {
        let a = version_string(old.ableton_version);
        let b = version_string(new.ableton_version);
        push_line(&mut lines, change_line("Ableton version: ", a.as_str(), b.as_str()));
    }
    let ghost c5 = lines@.map_values(|c: String| c@);
    assert(c5 =~= c4 + line_if(old.ableton_version != new.ableton_version, "Ableton version: "@ + version_numbers(old.ableton_version) + " -> "@ + version_numbers(new.ableton_version)));
    if old.plugin_count != new.plugin_count {
        let a = format_decimal(old.plugin_count as u64);
        let b = format_decimal(new.plugin_count as u64);
        push_line(&mut lines, change_line("Plugins: ", a.as_str(), b.as_str()));
    }
    let ghost c6 = lines@.map_values(|c: String| c@);
    assert(c6 =~= c5 + line_if(old.plugin_count != new.plugin_count, "Plugins: "@ + decimal(old.plugin_count as nat) + " -> "@ + decimal(new.plugin_count as nat)));
    if old.sample_count != new.sample_count {
        let a = format_decimal(old.sample_count as u64);
        let b = format_decimal(new.sample_count as u64);
        push_line(&mut lines, change_line("Samples: ", a.as_str(), b.as_str()));
    }
    let ghost c7 = lines@.map_values(|c: String| c@);
    assert(c7 =~= c6 + line_if(old.sample_count != new.sample_count, "Samples: "@ + decimal(old.sample_count as nat) + " -> "@ + decimal(new.sample_count as nat)));
    lines
}

/// Every change line reads `<field>: <stored value> -> <reparsed value>`:
/// a field that differs gives a line with the stored project's value before
/// ` -> ` and the reparsed one after it (the name quoted); the caller's tempo
/// line is kept; and no line at all means that nothing compared differs.
pub proof fn law_change_lines_read_stored_then_reparsed(old: ProjectSummary, new: ProjectSummary, tempo_change: Option<Seq<char>>)
    ensures
        old.name@ != new.name@ ==> changes_spec(old, new, tempo_change).contains(
            "Name: '"@ + old.name@ + "' -> '"@ + new.name@ + "'"@,
        ),
        tempo_change matches Some(t) ==> changes_spec(old, new, tempo_change).contains(t),
        old.time_signature != new.time_signature ==> changes_spec(old, new, tempo_change).contains(
            "Time signature: "@ + decimal(old.time_signature.numerator as nat) + "/"@ + decimal(old.time_signature.denominator as nat)
                + " -> "@ + decimal(new.time_signature.numerator as nat) + "/"@ + decimal(new.time_signature.denominator as nat),
        ),
        old.key_signature != new.key_signature ==> changes_spec(old, new, tempo_change).contains(
            "Key signature: "@ + key_text(old.key_signature) + " -> "@ + key_text(new.key_signature),
        ),
        old.ableton_version != new.ableton_version ==> changes_spec(old, new, tempo_change).contains(
            "Ableton version: "@ + version_numbers(old.ableton_version) + " -> "@ + version_numbers(new.ableton_version),
        ),
        old.plugin_count != new.plugin_count ==> changes_spec(old, new, tempo_change).contains(
            "Plugins: "@ + decimal(old.plugin_count as nat) + " -> "@ + decimal(new.plugin_count as nat),
        ),
        old.sample_count != new.sample_count ==> changes_spec(old, new, tempo_change).contains(
            "Samples: "@ + decimal(old.sample_count as nat) + " -> "@ + decimal(new.sample_count as nat),
        ),
        changes_spec(old, new, tempo_change).len() == 0 ==> {
            &&& old.name@ == new.name@
            &&& tempo_change is None
            &&& old.time_signature == new.time_signature
            &&& old.key_signature == new.key_signature
            &&& old.ableton_version == new.ableton_version
            &&& old.plugin_count == new.plugin_count
            &&& old.sample_count == new.sample_count
        },
{
    let p1 = line_if(old.name@ != new.name@, "Name: '"@ + old.name@ + "' -> '"@ + new.name@ + "'"@);
    let p2: Seq<Seq<char>> = match tempo_change {
        Some(t) => seq![t],
        None => Seq::empty(),
    };
    let l3 = "Time signature: "@ + decimal(old.time_signature.numerator as nat) + "/"@ + decimal(old.time_signature.denominator as nat)
        + " -> "@ + decimal(new.time_signature.numerator as nat) + "/"@ + decimal(new.time_signature.denominator as nat);
    let p3 = line_if(old.time_signature != new.time_signature, l3);
    let l4 = "Key signature: "@ + key_text(old.key_signature) + " -> "@ + key_text(new.key_signature);
    let p4 = line_if(old.key_signature != new.key_signature, l4);
    let l5 = "Ableton version: "@ + version_numbers(old.ableton_version) + " -> "@ + version_numbers(new.ableton_version);
    let p5 = line_if(old.ableton_version != new.ableton_version, l5);
    let l6 = "Plugins: "@ + decimal(old.plugin_count as nat) + " -> "@ + decimal(new.plugin_count as nat);
    let p6 = line_if(old.plugin_count != new.plugin_count, l6);
    let l7 = "Samples: "@ + decimal(old.sample_count as nat) + " -> "@ + decimal(new.sample_count as nat);
    let p7 = line_if(old.sample_count != new.sample_count, l7);
    if p1.len() > 0 {
        assert(p1[0] == "Name: '"@ + old.name@ + "' -> '"@ + new.name@ + "'"@);
        assert(p1.contains("Name: '"@ + old.name@ + "' -> '"@ + new.name@ + "'"@));
    }
    if p2.len() > 0 {
        assert(p2.contains(p2[0]));
    }
    if p3.len() > 0 {
        assert(p3[0] == l3);
        assert(p3.contains(l3));
    }
    if p4.len() > 0 {
        assert(p4[0] == l4);
        assert(p4.contains(l4));
    }
    if p5.len() > 0 {
        assert(p5[0] == l5);
        assert(p5.contains(l5));
    }
    if p6.len() > 0 {
        assert(p6[0] == l6);
        assert(p6.contains(l6));
    }
    if p7.len() > 0 {
        assert(p7[0] == l7);
        assert(p7.contains(l7));
    }
    lemma_concat_keeps(p1, p2);
    lemma_concat_keeps(p1 + p2, p3);
    lemma_concat_keeps(p1 + p2 + p3, p4);
    lemma_concat_keeps(p1 + p2 + p3 + p4, p5);
    lemma_concat_keeps(p1 + p2 + p3 + p4 + p5, p6);
    lemma_concat_keeps(p1 + p2 + p3 + p4 + p5 + p6, p7);
    assert(changes_spec(old, new, tempo_change) == p1 + p2 + p3 + p4 + p5 + p6 + p7);
}

/// A project compared with itself shows no change, and a rescan that finds
/// no change reports no update.
pub proof fn law_no_change_without_difference(p: ProjectSummary)
    ensures
        changes_spec(p, p, None) == Seq::<Seq<char>>::empty(),
        finished_summary(Seq::empty()) == "Project rescan completed, no changes detected"@,
{
    assert(changes_spec(p, p, None) =~= Seq::<Seq<char>>::empty());
}

} // verus!
