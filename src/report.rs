//! The validation report: one list of failures per category, and its text.
use vstd::prelude::*;
use crate::manifest::ChecksumError;
use crate::semver::{semver_error_text, SemverError};
use crate::text::{append_decimal, decimal, trim_end, trimmed_end};

verus! {

/// A plugin whose GUID is not a UUID.
#[derive(Debug)]
pub struct GuidError {
    pub plugin_name: String,
    pub error: String,
}

/// A version whose source URL does not parse.
#[derive(Debug)]
pub struct UrlError {
    pub plugin_name: String,
    pub plugin_version: String,
    pub error: String,
}

/// A version whose target ABI, release version, or both are malformed.
#[derive(Debug)]
pub struct VersionError {
    pub plugin_name: String,
    pub plugin_version: String,
    pub abi_error: Option<SemverError>,
    pub version_error: Option<SemverError>,
}

/// One fault of a version's checksum.
#[derive(Debug)]
pub struct ChecksumFailure {
    pub plugin_name: String,
    pub plugin_version: String,
    pub error: ChecksumError,
}

/// A version whose timestamp does not parse.
#[derive(Debug)]
pub struct TimestampError {
    pub plugin_name: String,
    pub plugin_version: String,
    pub error: String,
}

impl View for GuidError {
    type V = (Seq<char>, Seq<char>);

    open spec fn view(&self) -> (Seq<char>, Seq<char>) {
        (self.plugin_name@, self.error@)
    }
}

impl View for UrlError {
    type V = (Seq<char>, Seq<char>, Seq<char>);

    open spec fn view(&self) -> (Seq<char>, Seq<char>, Seq<char>) {
        (self.plugin_name@, self.plugin_version@, self.error@)
    }
}

impl View for VersionError {
    type V = (Seq<char>, Seq<char>, Option<SemverError>, Option<SemverError>);

    open spec fn view(&self) -> (Seq<char>, Seq<char>, Option<SemverError>, Option<SemverError>) {
        (self.plugin_name@, self.plugin_version@, self.abi_error, self.version_error)
    }
}

impl View for ChecksumFailure {
    type V = (Seq<char>, Seq<char>, ChecksumError);

    open spec fn view(&self) -> (Seq<char>, Seq<char>, ChecksumError) {
        (self.plugin_name@, self.plugin_version@, self.error)
    }
}

impl View for TimestampError {
    type V = (Seq<char>, Seq<char>, Seq<char>);

    open spec fn view(&self) -> (Seq<char>, Seq<char>, Seq<char>) {
        (self.plugin_name@, self.plugin_version@, self.error@)
    }
}

/// The failures of one validation run, one optional list per category.
#[derive(Debug)]
pub struct ValidationReport {
    pub guid: Option<Vec<GuidError>>,
    pub url: Option<Vec<UrlError>>,
    pub semver: Option<Vec<VersionError>>,
    pub checksum: Option<Vec<ChecksumFailure>>,
    pub timestamp: Option<Vec<TimestampError>>,
}

/// The sentence of a report without failures.
pub open spec fn success_text() -> Seq<char> {
    "Manifest has passed all validation checks!"@
}

/// The words that open every line about a version.
pub open spec fn version_head(name: Seq<char>, version: Seq<char>) -> Seq<char> {
    "Plugin "@ + name + " version "@ + version + " failed validation! "@
}

pub open spec fn guid_line(f: (Seq<char>, Seq<char>)) -> Seq<char> {
    "Plugin "@ + f.0 + " failed validation! GUID "@ + f.1 + ".\n"@
}

pub open spec fn url_line(f: (Seq<char>, Seq<char>, Seq<char>)) -> Seq<char> {
    version_head(f.0, f.1) + "URL "@ + f.2 + ".\n"@
}

/// The part of a version line about one of the two version fields.
pub open spec fn part_text(label: Seq<char>, e: Option<SemverError>) -> Seq<char> {
    match e {
        Some(e) => label + semver_error_text(e) + " "@,
        None => Seq::<char>::empty(),
    }
}

pub open spec fn version_line(
    f: (Seq<char>, Seq<char>, Option<SemverError>, Option<SemverError>),
) -> Seq<char> {
    version_head(f.0, f.1) + part_text("Target ABI "@, f.2) + part_text("Version "@, f.3) + "\n"@
}

/// The message of a checksum fault.
pub open spec fn checksum_error_text(e: ChecksumError) -> Seq<char> {
    match e {
        ChecksumError::InvalidLength(n) => "Checksum has "@ + decimal(n as nat)
            + " characters but 32 are required"@,
        ChecksumError::InvalidCharacters => "Checksum holds a character that is not hexadecimal"@,
    }
}

pub open spec fn checksum_line(f: (Seq<char>, Seq<char>, ChecksumError)) -> Seq<char> {
    version_head(f.0, f.1) + checksum_error_text(f.2) + "\n"@
}

pub open spec fn timestamp_line(f: (Seq<char>, Seq<char>, Seq<char>)) -> Seq<char> {
    version_head(f.0, f.1) + f.2 + "\n"@
}

/// The lines of `fs`, one after the other.
pub open spec fn lines_text<T>(fs: Seq<T>, line: spec_fn(T) -> Seq<char>) -> Seq<char>
    decreases fs.len(),
{
    if fs.len() == 0 {
        Seq::<char>::empty()
    } else {
        lines_text(fs.drop_last(), line) + line(fs.last())
    }
}

pub open spec fn views_of<T: View>(v: Option<Vec<T>>) -> Seq<T::V> {
    match v {
        Some(v) => v@.map_values(|e: T| e@),
        None => Seq::<T::V>::empty(),
    }
}

impl ValidationReport {
    /// No category holds a list.
    pub open spec fn spec_is_none(&self) -> bool {
        &&& self.guid is None
        &&& self.url is None
        &&& self.semver is None
        &&& self.checksum is None
        &&& self.timestamp is None
    }

    /// The lines of every failure, category by category, before trimming.
    pub open spec fn lines(&self) -> Seq<char> {
        lines_text(views_of(self.guid), |f| guid_line(f)) + lines_text(
            views_of(self.url),
            |f| url_line(f),
        ) + lines_text(views_of(self.semver), |f| version_line(f)) + lines_text(
            views_of(self.checksum),
            |f| checksum_line(f),
        ) + lines_text(views_of(self.timestamp), |f| timestamp_line(f))
    }

    /// The rendered report.
    pub open spec fn text(&self) -> Seq<char> {
        if self.spec_is_none() {
            success_text()
        } else {
            trim_end(self.lines())
        }
    }

    /// Whether no category holds a list.
    pub fn is_none(&self) -> (r: bool)
        ensures
            r == self.spec_is_none(),
    {
        self.guid.is_none() && self.url.is_none() && self.semver.is_none()
            && self.checksum.is_none() && self.timestamp.is_none()
    }
}

proof fn lemma_lines_push<T>(fs: Seq<T>, x: T, line: spec_fn(T) -> Seq<char>)
    ensures
        lines_text(fs.push(x), line) == lines_text(fs, line) + line(x),
{
    assert(fs.push(x).drop_last() =~= fs);
}

fn append_guid_lines(out: &mut String, v: &Vec<GuidError>)
    ensures
        final(out)@ == old(out)@ + lines_text(v@.map_values(|e: GuidError| e@), |f| guid_line(f)),
{
    let mut i: usize = 0;
    while i < v.len()
        invariant
            i <= v@.len(),
            out@ == old(out)@ + lines_text(
                v@.take(i as int).map_values(|e: GuidError| e@),
                |f| guid_line(f),
            ),
        decreases v@.len() - i,
    {
        let e = &v[i];
        let ghost before = out@;
        out.append("Plugin ");
        out.append(e.plugin_name.as_str());
        out.append(" failed validation! GUID ");
        out.append(e.error.as_str());
        out.append(".\n");
        proof {
            let s = v@.take(i as int).map_values(|e: GuidError| e@);
            assert(v@.take(i + 1).map_values(|e: GuidError| e@) =~= s.push(e@));
            lemma_lines_push(s, e@, |f| guid_line(f));
            assert(out@ =~= before + guid_line(e@));
        }
        i = i + 1;
    }
    assert(v@.take(i as int) =~= v@);
}

fn append_head(out: &mut String, name: &String, version: &String)
    ensures
        final(out)@ == old(out)@ + version_head(name@, version@),
{
    let ghost before = out@;
    out.append("Plugin ");
    out.append(name.as_str());
    out.append(" version ");
    out.append(version.as_str());
    out.append(" failed validation! ");
    assert(out@ =~= before + version_head(name@, version@));
}

fn append_checksum_message(out: &mut String, e: ChecksumError)
    ensures
        final(out)@ == old(out)@ + checksum_error_text(e),
{
    let ghost before = out@;
    match e {
        ChecksumError::InvalidLength(n) => {
            out.append("Checksum has ");
            append_decimal(out, n);
            out.append(" characters but 32 are required");
        },
        ChecksumError::InvalidCharacters => {
            out.append("Checksum holds a character that is not hexadecimal");
        },
    }
    assert(out@ =~= before + checksum_error_text(e));
}

fn append_url_lines(out: &mut String, v: &Vec<UrlError>)
    ensures
        final(out)@ == old(out)@ + lines_text(v@.map_values(|e: UrlError| e@), |f| url_line(f)),
{
    let mut i: usize = 0;
    while i < v.len()
        invariant
            i <= v@.len(),
            out@ == old(out)@ + lines_text(
                v@.take(i as int).map_values(|e: UrlError| e@),
                |f| url_line(f),
            ),
        decreases v@.len() - i,
    {
        let e = &v[i];
        let ghost before = out@;
        append_head(out, &e.plugin_name, &e.plugin_version);
        out.append("URL ");
        out.append(e.error.as_str());
        out.append(".\n");
        proof {
            let s = v@.take(i as int).map_values(|e: UrlError| e@);
            assert(v@.take(i + 1).map_values(|e: UrlError| e@) =~= s.push(e@));
            lemma_lines_push(s, e@, |f| url_line(f));
            assert(out@ =~= before + url_line(e@));
        }
        i = i + 1;
    }
    assert(v@.take(i as int) =~= v@);
}

fn append_version_lines(out: &mut String, v: &Vec<VersionError>)
    ensures
        final(out)@ == old(out)@ + lines_text(v@.map_values(|e: VersionError| e@), |f| version_line(f)),
{
    let mut i: usize = 0;
    while i < v.len()
        invariant
            i <= v@.len(),
            out@ == old(out)@ + lines_text(
                v@.take(i as int).map_values(|e: VersionError| e@),
                |f| version_line(f),
            ),
        decreases v@.len() - i,
    {
        let e = &v[i];
        let ghost before = out@;
        append_head(out, &e.plugin_name, &e.plugin_version);
        if let Some(a) = e.abi_error {
            out.append("Target ABI ");
            let m = a.message();
            out.append(m.as_str());
            out.append(" ");
        }
        if let Some(r) = e.version_error {
            out.append("Version ");
            let m = r.message();
            out.append(m.as_str());
            out.append(" ");
        }
        out.append("\n");
        proof {
            let s = v@.take(i as int).map_values(|e: VersionError| e@);
            assert(v@.take(i + 1).map_values(|e: VersionError| e@) =~= s.push(e@));
            lemma_lines_push(s, e@, |f| version_line(f));
            assert(out@ =~= before + version_line(e@));
        }
        i = i + 1;
    }
    assert(v@.take(i as int) =~= v@);
}

fn append_checksum_lines(out: &mut String, v: &Vec<ChecksumFailure>)
    ensures
        final(out)@ == old(out)@ + lines_text(v@.map_values(|e: ChecksumFailure| e@), |f| checksum_line(f)),
{
    let mut i: usize = 0;
    while i < v.len()
        invariant
            i <= v@.len(),
            out@ == old(out)@ + lines_text(
                v@.take(i as int).map_values(|e: ChecksumFailure| e@),
                |f| checksum_line(f),
            ),
        decreases v@.len() - i,
    {
        let e = &v[i];
        let ghost before = out@;
        append_head(out, &e.plugin_name, &e.plugin_version);
        append_checksum_message(out, e.error);
        out.append("\n");
        proof {
            let s = v@.take(i as int).map_values(|e: ChecksumFailure| e@);
            assert(v@.take(i + 1).map_values(|e: ChecksumFailure| e@) =~= s.push(e@));
            lemma_lines_push(s, e@, |f| checksum_line(f));
            assert(out@ =~= before + checksum_line(e@));
        }
        i = i + 1;
    }
    assert(v@.take(i as int) =~= v@);
}

fn append_timestamp_lines(out: &mut String, v: &Vec<TimestampError>)
    ensures
        final(out)@ == old(out)@ + lines_text(v@.map_values(|e: TimestampError| e@), |f| timestamp_line(f)),
{
    let mut i: usize = 0;
    while i < v.len()
        invariant
            i <= v@.len(),
            out@ == old(out)@ + lines_text(
                v@.take(i as int).map_values(|e: TimestampError| e@),
                |f| timestamp_line(f),
            ),
        decreases v@.len() - i,
    {
        let e = &v[i];
        let ghost before = out@;
        append_head(out, &e.plugin_name, &e.plugin_version);
        out.append(e.error.as_str());
        out.append("\n");
        proof {
            let s = v@.take(i as int).map_values(|e: TimestampError| e@);
            assert(v@.take(i + 1).map_values(|e: TimestampError| e@) =~= s.push(e@));
            lemma_lines_push(s, e@, |f| timestamp_line(f));
            assert(out@ =~= before + timestamp_line(e@));
        }
        i = i + 1;
    }
    assert(v@.take(i as int) =~= v@);
}

impl ValidationReport {
    /// The report as text: the success sentence when no category holds a
    /// list, else one line per failure, category by category, with trailing
    /// white space removed.
    pub fn render(&self) -> (r: String)
        ensures
            r@ == self.text(),
    {
        if self.is_none() {
            return "Manifest has passed all validation checks!".to_owned();
        }
        let mut out = String::new();
        if let Some(v) = &self.guid {
            append_guid_lines(&mut out, v);
        }
        if let Some(v) = &self.url {
            append_url_lines(&mut out, v);
        }
        if let Some(v) = &self.semver {
            append_version_lines(&mut out, v);
        }
        if let Some(v) = &self.checksum {
            append_checksum_lines(&mut out, v);
        }
        if let Some(v) = &self.timestamp {
            append_timestamp_lines(&mut out, v);
        }
        assert(out@ =~= self.lines());
        trimmed_end(out.as_str())
    }
}

} // verus!
