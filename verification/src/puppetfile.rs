//! Reading a manifest into its list of declarations.
//!
//! A manifest is read line by line. A registry module stands on one line. A
//! source-controlled module is opened by one line and filled by the
//! attribute lines that follow, until the next module or the end.

use vstd::prelude::*;
use crate::line::{line_of, read_line, Attr, Line, LineView};
use crate::models::{
    default_spec, module_views, GitRef, GitRefView, GitSpec, GitSpecView, Module, ModuleView,
};
use crate::names::{canonical, canonical_name, is_canonical};
use crate::text::{chars_of, split, split_chars, views};
use crate::precedence::VersionView;
use crate::version::{reads_back, semver_parsed, InvalidVersion, Version};

verus! {

/// What has been read of a manifest so far.
pub struct Scan {
    /// The declarations that are complete.
    pub done: Seq<ModuleView>,
    /// The source-controlled module that is open, if any.
    pub open: Option<(Seq<char>, GitSpecView)>,
    /// Whether attribute lines are no longer read.
    pub halted: bool,
    /// What was observed of the lines that were passed over.
    pub notes: Seq<ObservationView>,
}

/// Why a line was passed over.
#[derive(Clone, Copy, Debug, PartialEq, Eq, Structural)]
pub enum Anomaly {
    /// The line fits no shape.
    Unmatched,
    /// An attribute line where no source-controlled module is open.
    StrayAttribute,
    /// An attribute that has no meaning here.
    UnknownAttribute,
}

/// A line that was passed over, and why.
#[derive(Clone, Copy, Debug, PartialEq, Eq)]
pub struct Observation {
    /// The number of the line, counted from 1.
    pub line: usize,
    pub anomaly: Anomaly,
}

pub struct ObservationView {
    pub line: int,
    pub anomaly: Anomaly,
}

impl View for Observation {
    type V = ObservationView;

    open spec fn view(&self) -> ObservationView {
        ObservationView { line: self.line as int, anomaly: self.anomaly }
    }
}

/// The views of a list of observations.
pub open spec fn observation_views(notes: Seq<Observation>) -> Seq<ObservationView> {
    Seq::new(notes.len(), |i: int| notes[i]@)
}

/// The state before the first line.
pub open spec fn start() -> Scan {
    Scan { done: Seq::empty(), open: None, halted: false, notes: Seq::empty() }
}

/// A list of declarations once the module that is open is closed.
pub open spec fn closed_list(done: Seq<ModuleView>, open: Option<(Seq<char>, GitSpecView)>) -> Seq<
    ModuleView,
> {
    match open {
        Some((name, spec)) => done.push(ModuleView::Git(name, spec)),
        None => done,
    }
}

/// The declarations of a state once the open module is closed.
pub open spec fn closed(st: Scan) -> Seq<ModuleView> {
    closed_list(st.done, st.open)
}

/// A specification after one attribute is set. `tag`, `branch` and `commit`
/// each replace the reference; `link` sets the flag whatever its value.
pub open spec fn with_attribute(spec: GitSpecView, key: Attr, value: Seq<char>) -> GitSpecView {
    match key {
        Attr::Git => GitSpecView { url: Some(value), ..spec },
        Attr::Tag => GitSpecView { reference: GitRefView::Tag(value), ..spec },
        Attr::Branch => GitSpecView { reference: GitRefView::Branch(value), ..spec },
        Attr::Commit => GitSpecView { reference: GitRefView::Commit(value), ..spec },
        Attr::Fallback => GitSpecView { fallback: Some(value), ..spec },
        Attr::Link => GitSpecView { link: true, ..spec },
        Attr::Ref => spec,
    }
}

/// The state after line number `number`, or `None` where the line is a
/// registry module whose version is no semantic version. `parsed` is what
/// the version text of a registry line was read as.
///
/// A module line closes the module that is open. An attribute line fills
/// the open module; where none is open, or the attribute is `ref`, which
/// has no meaning here, this is observed and attribute lines are no longer
/// read from there on. A line that fits no shape is observed and passed
/// over.
pub open spec fn step(st: Scan, line: LineView, number: int, parsed: Option<VersionView>) -> Option<
    Scan,
> {
    match line {
        LineView::Registry { name, version } => match parsed {
            Some(v) => Some(
                Scan {
                    done: closed(st).push(ModuleView::Forge(canonical(name), v)),
                    open: None,
                    ..st
                },
            ),
            None => None,
        },
        LineView::Source { name } => Some(
            Scan { done: closed(st), open: Some((name, default_spec())), ..st },
        ),
        LineView::Attribute { key, value } => if st.halted {
            Some(st)
        } else {
            match st.open {
                Some((name, spec)) => if key == Attr::Ref {
                    Some(
                        Scan {
                            halted: true,
                            notes: st.notes.push(
                                ObservationView { line: number, anomaly: Anomaly::UnknownAttribute },
                            ),
                            ..st
                        },
                    )
                } else {
                    Some(Scan { open: Some((name, with_attribute(spec, key, value))), ..st })
                },
                None => Some(
                    Scan {
                        halted: true,
                        notes: st.notes.push(
                            ObservationView { line: number, anomaly: Anomaly::StrayAttribute },
                        ),
                        ..st
                    },
                ),
            }
        },
        LineView::Other => Some(
            Scan {
                notes: st.notes.push(ObservationView { line: number, anomaly: Anomaly::Unmatched }),
                ..st
            },
        ),
        LineView::Blank => Some(st),
    }
}

/// A registry module whose version is no semantic version.
#[derive(Debug, PartialEq, Eq)]
pub struct ParseError {
    /// The number of the line, counted from 1.
    pub line: usize,
    /// The version text as written.
    pub version: String,
}

pub struct ParseErrorView {
    pub line: int,
    pub version: Seq<char>,
}

impl View for ParseError {
    type V = ParseErrorView;

    open spec fn view(&self) -> ParseErrorView {
        ParseErrorView { line: self.line as int, version: self.version@ }
    }
}

/// The version text of a registry line.
pub open spec fn version_text(line: LineView) -> Seq<char> {
    match line {
        LineView::Registry { name, version } => version,
        _ => Seq::empty(),
    }
}

/// What a manifest holds: its declarations, in the order of their first
/// lines, and what was observed of the lines that were passed over.
#[derive(Debug, PartialEq, Eq)]
pub struct Manifest {
    pub modules: Vec<Module>,
    pub observations: Vec<Observation>,
}

pub struct ManifestView {
    pub modules: Seq<ModuleView>,
    pub observations: Seq<ObservationView>,
}

impl View for Manifest {
    type V = ManifestView;

    open spec fn view(&self) -> ManifestView {
        ManifestView {
            modules: module_views(self.modules@),
            observations: observation_views(self.observations@),
        }
    }
}

/// What reading `lines[i..]` from state `st` gives: the manifest, or the
/// first line that cannot be read.
pub open spec fn scan_from(lines: Seq<Seq<char>>, i: int, st: Scan) -> Result<
    ManifestView,
    ParseErrorView,
>
    decreases lines.len() - i,
{
    if i < 0 || i >= lines.len() {
        Ok(ManifestView { modules: closed(st), observations: st.notes })
    } else {
        match step(
            st,
            line_of(lines[i]),
            i + 1,
            semver_parsed(version_text(line_of(lines[i]))),
        ) {
            Some(next) => scan_from(lines, i + 1, next),
            None => Err(
                ParseErrorView { line: i + 1, version: version_text(line_of(lines[i])) },
            ),
        }
    }
}

/// What a manifest says.
pub open spec fn manifest_of(text: Seq<char>) -> Result<ManifestView, ParseErrorView> {
    scan_from(split(text, '\n'), 0, start())
}

/// What a manifest declares.
pub open spec fn modules_of(text: Seq<char>) -> Result<Seq<ModuleView>, ParseErrorView> {
    match manifest_of(text) {
        Ok(m) => Ok(m.modules),
        Err(e) => Err(e),
    }
}

/// Whether a declaration, if it is a registry module, has a canonical name
/// and a version that is read back from its own text.
pub open spec fn is_sound(module: ModuleView) -> bool {
    module matches ModuleView::Forge(name, version) ==> is_canonical(name) && reads_back(version)
}

/// Whether every registry module of a list has a canonical name and a
/// version that is read back from its own text.
pub open spec fn all_sound(modules: Seq<ModuleView>) -> bool {
    forall|i: int| 0 <= i < modules.len() ==> is_sound(#[trigger] modules[i])
}

fn close(done: &mut Vec<Module>, open: Option<(String, GitSpec)>)
    ensures
        module_views(final(done)@) == closed_list(module_views(old(done)@), open_view(open)),
        all_sound(module_views(old(done)@)) ==> all_sound(module_views(final(done)@)),
{
    match open {
        Some((name, spec)) => {
            let ghost before = module_views(done@);
            let ghost added = ModuleView::Git(name@, spec@);
            done.push(Module::Git(name, spec));
            assert(module_views(done@) =~= before.push(added));
        },
        None => {},
    }
}

/// Takes the registry line `line` with the name `name`, together with what
/// its version text was read as.
///
/// Where the text was read as a version, the module that is open is closed
/// and the registry module follows it, under its canonical name. Where it
/// was not, nothing is declared and the line is reported.
pub fn declare_registry(
    done: &mut Vec<Module>,
    open: Option<(String, GitSpec)>,
    name: &str,
    parsed: Result<Version, InvalidVersion>,
    line: usize,
) -> (r: Result<(), ParseError>)
    ensures
        match parsed {
            Ok(version) => r is Ok && module_views(final(done)@) == closed_list(
                module_views(old(done)@),
                open_view(open),
            ).push(ModuleView::Forge(canonical(name@), version@)),
            Err(e) => r matches Err(error) && error.line == line && error.version@ == e.text@
                && final(done)@ == old(done)@,
        },
{
    match parsed {
        Ok(version) => {
            close(done, open);
            let ghost before = module_views(done@);
            let canon = canonical_name(name);
            let ghost added = ModuleView::Forge(canon@, version@);
            done.push(Module::Forge(canon, version));
            assert(module_views(done@) =~= before.push(added));
            Ok(())
        },
        Err(e) => Err(ParseError { line, version: e.text }),
    }
}

fn set_attribute(spec: GitSpec, key: Attr, value: String) -> (out: GitSpec)
    ensures
        out@ == with_attribute(spec@, key, value@),
{
    let mut out = spec;
    match key {
        Attr::Git => {
            out.url = Some(value);
        },
        Attr::Tag => {
            out.reference = GitRef::Tag(value);
        },
        Attr::Branch => {
            out.reference = GitRef::Branch(value);
        },
        Attr::Commit => {
            out.reference = GitRef::Commit(value);
        },
        Attr::Fallback => {
            out.fallback = Some(value);
        },
        Attr::Link => {
            out.link = true;
        },
        Attr::Ref => {},
    }
    out
}

/// The view of the module that is open.
pub open spec fn open_view(open: Option<(String, GitSpec)>) -> Option<(Seq<char>, GitSpecView)> {
    match open {
        Some((name, spec)) => Some((name@, spec@)),
        None => None,
    }
}

/// Reads a manifest.
///
/// Lines that fit no shape are passed over and observed. The one thing that
/// fails the reading is a registry module whose version is no semantic
/// version; the error names the first such line.
pub fn read_manifest(content: &str) -> (r: Result<Manifest, ParseError>)
    ensures
        match r {
            Ok(m) => manifest_of(content@) == Ok::<ManifestView, ParseErrorView>(m@)
                && all_sound(m@.modules),
            Err(e) => manifest_of(content@) == Err::<ManifestView, ParseErrorView>(e@),
        },
{
    let chars = chars_of(content);
    let lines = split_chars(&chars, '\n');
    let mut done: Vec<Module> = Vec::new();
    let mut notes: Vec<Observation> = Vec::new();
    let mut open: Option<(String, GitSpec)> = None;
    let mut halted = false;
    let mut i: usize = 0;
    assert(module_views(done@) =~= start().done);
    assert(observation_views(notes@) =~= start().notes);
    while i < lines.len()
        invariant
            i <= lines.len(),
            views(lines@) == split(content@, '\n'),
            all_sound(module_views(done@)),
            manifest_of(content@) == scan_from(
                views(lines@),
                i as int,
                Scan {
                    done: module_views(done@),
                    open: open_view(open),
                    halted,
                    notes: observation_views(notes@),
                },
            ),
        decreases lines.len() - i,
    {
        assert(views(lines@)[i as int] == lines@[i as int]@);
        let ghost seen = observation_views(notes@);
        match read_line(&lines[i]) {
            Line::Registry { name, version } => {
                let ghost before = module_views(done@);
                let ghost opened = open_view(open);
                let parsed = Version::parse(version.as_str());
                match declare_registry(&mut done, open, name.as_str(), parsed, i + 1) {
                    Ok(()) => {
                        open = None;
                        proof {
                            let v = semver_parsed(version@)->0;
                            lemma_sound_closed(before, opened);
                            lemma_sound_push(
                                closed_list(before, opened),
                                ModuleView::Forge(canonical(name@), v),
                            );
                        }
                    },
                    Err(e) => {
                        return Err(e);
                    },
                }
            },
            Line::Source { name } => {
                close(&mut done, open);
                open = Some(
                    (name, GitSpec { url: None, reference: GitRef::Head, fallback: None, link: false }),
                );
            },
            Line::Attribute { key, value } => {
                if !halted {
                    match open {
                        Some((name, spec)) => {
                            match key {
                                Attr::Ref => {
                                    open = Some((name, spec));
                                    halted = true;
                                    let note = Observation {
                                        line: i + 1,
                                        anomaly: Anomaly::UnknownAttribute,
                                    };
                                    notes.push(note);
                                    assert(observation_views(notes@) =~= seen.push(note@));
                                },
                                _ => {
                                    open = Some((name, set_attribute(spec, key, value)));
                                },
                            }
                        },
                        None => {
                            open = None;
                            halted = true;
                            let note = Observation { line: i + 1, anomaly: Anomaly::StrayAttribute };
                            notes.push(note);
                            assert(observation_views(notes@) =~= seen.push(note@));
                        },
                    }
                }
            },
            Line::Other => {
                let note = Observation { line: i + 1, anomaly: Anomaly::Unmatched };
                notes.push(note);
                assert(observation_views(notes@) =~= seen.push(note@));
            },
            Line::Blank => {},
        }
        i += 1;
    }
    close(&mut done, open);
    Ok(Manifest { modules: done, observations: notes })
}

/// Reads the declarations of a manifest: what `read_manifest` gives,
/// without the observations.
pub fn parse_puppetfile(content: &str) -> (r: Result<Vec<Module>, ParseError>)
    ensures
        match r {
            Ok(modules) => modules_of(content@) == Ok::<Seq<ModuleView>, ParseErrorView>(
                module_views(modules@),
            ) && all_sound(module_views(modules@)),
            Err(e) => modules_of(content@) == Err::<Seq<ModuleView>, ParseErrorView>(e@),
        },
{
    match read_manifest(content) {
        Ok(m) => Ok(m.modules),
        Err(e) => Err(e),
    }
}

/// A sound list with one more sound declaration is sound.
proof fn lemma_sound_push(modules: Seq<ModuleView>, module: ModuleView)
    requires
        all_sound(modules),
        is_sound(module),
    ensures
        all_sound(modules.push(module)),
{
}

/// Closing the open module keeps a list sound.
proof fn lemma_sound_closed(done: Seq<ModuleView>, open: Option<(Seq<char>, GitSpecView)>)
    requires
        all_sound(done),
    ensures
        all_sound(closed_list(done, open)),
{
}

} // verus!
