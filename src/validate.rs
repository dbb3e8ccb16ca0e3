//! The field checks, and the engine that runs them over a whole manifest.
use vstd::prelude::*;
use crate::manifest::{ChecksumError, ValidatePlugin, ValidatePluginVersion};
use crate::report::{
    checksum_line, guid_line, lines_text, success_text, timestamp_line, url_line, version_line,
    views_of, ChecksumFailure, GuidError, TimestampError, UrlError, ValidationReport, VersionError,
};
use crate::semver::{dotted_outcome, FourPartSemver, SemverError, ThreePartSemver};
use crate::text::{chars_of, trim_end};

verus! {

// ---------------------------------------------------------------------------
// What the outside parsers decide
// ---------------------------------------------------------------------------

pub open spec fn is_hex_digit(c: char) -> bool {
    ('0' <= c && c <= '9') || ('a' <= c && c <= 'f') || ('A' <= c && c <= 'F')
}

/// Whether `s` holds a character that is not a hexadecimal digit.
pub open spec fn has_non_hex(s: Seq<char>) -> bool {
    exists|i: int| 0 <= i < s.len() && !is_hex_digit(#[trigger] s[i])
}

/// Thirty-two hexadecimal digits with hyphens after the 8th, 12th, 16th and 20th.
pub open spec fn is_hyphenated_uuid(s: Seq<char>) -> bool {
    &&& s.len() == 36
    &&& s[8] == '-' && s[13] == '-' && s[18] == '-' && s[23] == '-'
    &&& forall|i: int|
        0 <= i < 36 && i != 8 && i != 13 && i != 18 && i != 23 ==> is_hex_digit(#[trigger] s[i])
}

pub open spec fn ascii_lower(c: char) -> char {
    if 'A' <= c && c <= 'Z' {
        ((c as u32 + 32) as u8) as char
    } else {
        c
    }
}

/// The textual forms of a UUID: simple, hyphenated, braced, and URN (whose
/// `urn:uuid:` prefix is matched without regard to ASCII case).
pub open spec fn is_uuid_text(s: Seq<char>) -> bool {
    ||| (s.len() == 32 && forall|i: int| 0 <= i < 32 ==> is_hex_digit(#[trigger] s[i]))
    ||| is_hyphenated_uuid(s)
    ||| (s.len() == 38 && s[0] == '{' && s[37] == '}' && is_hyphenated_uuid(s.subrange(1, 37)))
    ||| (s.len() == 45 && is_hyphenated_uuid(s.skip(9)) && forall|i: int|
        0 <= i < 9 ==> ascii_lower(#[trigger] s[i]) == "urn:uuid:"@[i])
}

/// The message of the error that UUID parsing reports for `s`.
pub uninterp spec fn uuid_error_message(s: Seq<char>) -> Seq<char>;

/// What URL parsing reports for `s`: `None` when it parses, else its error's message.
pub uninterp spec fn url_parse_failure(s: Seq<char>) -> Option<Seq<char>>;

/// What lenient RFC 3339 parsing reports for `s`: `None` when it parses,
/// else its error's message.
pub uninterp spec fn rfc3339_weak_failure(s: Seq<char>) -> Option<Seq<char>>;

/// Relies on `uuid::Uuid::parse_str`: it accepts exactly the simple,
/// hyphenated, braced and URN forms, hexadecimal digits in either case;
/// otherwise the message of its error.
#[verifier::external_body]
fn parse_guid(s: &str) -> (r: Option<String>)
    ensures
        r is None <==> is_uuid_text(s@),
        r matches Some(m) ==> m@ == uuid_error_message(s@),
{
    match uuid::Uuid::parse_str(s) {
        Ok(_) => None,
        Err(e) => Some(e.to_string()),
    }
}

/// Relies on `url::Url::parse`: whether `s` is an absolute URL, and the
/// message of its error when it is not.
#[verifier::external_body]
fn parse_url(s: &str) -> (r: Option<String>)
    ensures
        match r {
            Some(m) => url_parse_failure(s@) == Some(m@),
            None => url_parse_failure(s@) is None,
        },
{
    match url::Url::parse(s) {
        Ok(_) => None,
        Err(e) => Some(e.to_string()),
    }
}

/// Relies on `humantime::parse_rfc3339_weak`: whether `s` is a lenient
/// RFC 3339 timestamp, and the message of its error when it is not.
#[verifier::external_body]
fn parse_timestamp(s: &str) -> (r: Option<String>)
    ensures
        match r {
            Some(m) => rfc3339_weak_failure(s@) == Some(m@),
            None => rfc3339_weak_failure(s@) is None,
        },
{
    match humantime::parse_rfc3339_weak(s) {
        Ok(_) => None,
        Err(e) => Some(e.to_string()),
    }
}

// ---------------------------------------------------------------------------
// What each record contributes
// ---------------------------------------------------------------------------

pub open spec fn guid_failures_of(p: ValidatePlugin) -> Seq<(Seq<char>, Seq<char>)> {
    if is_uuid_text(p.guid@) {
        seq![]
    } else {
        seq![(p.name@, uuid_error_message(p.guid@))]
    }
}

pub open spec fn url_failures_of(name: Seq<char>, v: ValidatePluginVersion) -> Seq<
    (Seq<char>, Seq<char>, Seq<char>),
> {
    match url_parse_failure(v.source_url@) {
        Some(m) => seq![(name, v.version@, m)],
        None => seq![],
    }
}

pub open spec fn error_of<T>(r: Result<T, SemverError>) -> Option<SemverError> {
    match r {
        Ok(_) => None,
        Err(e) => Some(e),
    }
}

/// What a version record's target ABI (three parts) and release version
/// (four parts) contribute: one record naming each field's error, if any.
pub open spec fn version_failures_of(name: Seq<char>, v: ValidatePluginVersion) -> Seq<
    (Seq<char>, Seq<char>, Option<SemverError>, Option<SemverError>),
> {
    let abi = error_of(dotted_outcome(v.target_abi@, 3));
    let release = error_of(dotted_outcome(v.version@, 4));
    if abi is None && release is None {
        seq![]
    } else {
        seq![(name, v.version@, abi, release)]
    }
}

/// A length fault iff the checksum is not 32 characters long, and a
/// character fault iff some character is not a hexadecimal digit.
pub open spec fn checksum_failures_of(name: Seq<char>, v: ValidatePluginVersion) -> Seq<
    (Seq<char>, Seq<char>, ChecksumError),
> {
    let c = v.checksum@;
    (if c.len() != 32 {
        seq![(name, v.version@, ChecksumError::InvalidLength(c.len() as usize))]
    } else {
        seq![]
    }) + (if has_non_hex(c) {
        seq![(name, v.version@, ChecksumError::InvalidCharacters)]
    } else {
        seq![]
    })
}

pub open spec fn timestamp_failures_of(name: Seq<char>, v: ValidatePluginVersion) -> Seq<
    (Seq<char>, Seq<char>, Seq<char>),
> {
    match rfc3339_weak_failure(v.timestamp@) {
        Some(m) => seq![(name, v.version@, m)],
        None => seq![],
    }
}

// ---------------------------------------------------------------------------
// Manifest order
// ---------------------------------------------------------------------------

/// What `f` gives for each plugin of `m`, in manifest order.
pub open spec fn per_plugin<T>(m: Seq<ValidatePlugin>, f: spec_fn(ValidatePlugin) -> Seq<T>) -> Seq<T>
    decreases m.len(),
{
    if m.len() == 0 {
        Seq::<T>::empty()
    } else {
        per_plugin(m.drop_last(), f) + f(m.last())
    }
}

/// What `f` gives for each version of `vs`, in order, all attributed to `name`.
pub open spec fn in_versions<T>(
    name: Seq<char>,
    vs: Seq<ValidatePluginVersion>,
    f: spec_fn(Seq<char>, ValidatePluginVersion) -> Seq<T>,
) -> Seq<T>
    decreases vs.len(),
{
    if vs.len() == 0 {
        Seq::<T>::empty()
    } else {
        in_versions(name, vs.drop_last(), f) + f(name, vs.last())
    }
}

/// What `f` gives for each version of each plugin of `m`, in manifest order.
pub open spec fn per_version<T>(
    m: Seq<ValidatePlugin>,
    f: spec_fn(Seq<char>, ValidatePluginVersion) -> Seq<T>,
) -> Seq<T>
    decreases m.len(),
{
    if m.len() == 0 {
        Seq::<T>::empty()
    } else {
        per_version(m.drop_last(), f) + in_versions(m.last().name@, m.last().versions@, f)
    }
}

pub open spec fn guid_failures(m: Seq<ValidatePlugin>) -> Seq<(Seq<char>, Seq<char>)> {
    per_plugin(m, |p| guid_failures_of(p))
}

pub open spec fn url_failures(m: Seq<ValidatePlugin>) -> Seq<(Seq<char>, Seq<char>, Seq<char>)> {
    per_version(m, |n, v| url_failures_of(n, v))
}

pub open spec fn version_failures(m: Seq<ValidatePlugin>) -> Seq<
    (Seq<char>, Seq<char>, Option<SemverError>, Option<SemverError>),
> {
    per_version(m, |n, v| version_failures_of(n, v))
}

pub open spec fn checksum_failures(m: Seq<ValidatePlugin>) -> Seq<
    (Seq<char>, Seq<char>, ChecksumError),
> {
    per_version(m, |n, v| checksum_failures_of(n, v))
}

pub open spec fn timestamp_failures(m: Seq<ValidatePlugin>) -> Seq<
    (Seq<char>, Seq<char>, Seq<char>),
> {
    per_version(m, |n, v| timestamp_failures_of(n, v))
}

// ---------------------------------------------------------------------------
// The checks on one record
// ---------------------------------------------------------------------------

/// The GUID check of one plugin: no failure iff its GUID is a UUID in one of
/// the accepted textual forms, else exactly one.
pub fn check_guid(p: &ValidatePlugin) -> (r: Vec<GuidError>)
    ensures
        r@.map_values(|e: GuidError| e@) == guid_failures_of(*p),
        r@.len() == 0 <==> is_uuid_text(p.guid@),
        r@.len() <= 1,
{
    let mut out: Vec<GuidError> = Vec::new();
    if let Some(m) = parse_guid(p.guid.as_str()) {
        out.push(GuidError { plugin_name: p.name.clone(), error: m });
    }
    assert(out@.map_values(|e: GuidError| e@) =~= guid_failures_of(*p));
    out
}

/// The URL check of one version of the plugin named `name`.
pub fn check_url(name: &String, v: &ValidatePluginVersion) -> (r: Vec<UrlError>)
    ensures
        r@.map_values(|e: UrlError| e@) == url_failures_of(name@, *v),
{
    let mut out: Vec<UrlError> = Vec::new();
    if let Some(m) = parse_url(v.source_url.as_str()) {
        out.push(
            UrlError { plugin_name: name.clone(), plugin_version: v.version.clone(), error: m },
        );
    }
    assert(out@.map_values(|e: UrlError| e@) =~= url_failures_of(name@, *v));
    out
}

/// The version check of one version of the plugin named `name`: its target
/// ABI must have three numeric parts and its release version four; one
/// record names the error of each field that fails.
pub fn check_semver(name: &String, v: &ValidatePluginVersion) -> (r: Vec<VersionError>)
    ensures
        r@.map_values(|e: VersionError| e@) == version_failures_of(name@, *v),
        r@.len() == 1 <==> (dotted_outcome(v.target_abi@, 3) is Err || dotted_outcome(
            v.version@,
            4,
        ) is Err),
        r@.len() <= 1,
        r@.len() == 1 ==> r@[0].abi_error == error_of(dotted_outcome(v.target_abi@, 3))
            && r@[0].version_error == error_of(dotted_outcome(v.version@, 4)),
{
    let abi_error = match ThreePartSemver::try_from(v.target_abi.clone()) {
        Ok(_) => None,
        Err(e) => Some(e),
    };
    let version_error = match FourPartSemver::try_from(v.version.clone()) {
        Ok(_) => None,
        Err(e) => Some(e),
    };
    let mut out: Vec<VersionError> = Vec::new();
    if abi_error.is_some() || version_error.is_some() {
        out.push(
            VersionError {
                plugin_name: name.clone(),
                plugin_version: v.version.clone(),
                abi_error,
                version_error,
            },
        );
    }
    assert(out@.map_values(|e: VersionError| e@) =~= version_failures_of(name@, *v));
    out
}

fn is_hex_char(c: char) -> (r: bool)
    ensures
        r == is_hex_digit(c),
{
    ('0' <= c && c <= '9') || ('a' <= c && c <= 'f') || ('A' <= c && c <= 'F')
}

/// The checksum check of one version of the plugin named `name`: a length
/// fault iff the checksum is not 32 characters long, then a character fault
/// iff some character is not a hexadecimal digit.
pub fn check_checksum(name: &String, v: &ValidatePluginVersion) -> (r: Vec<ChecksumFailure>)
    ensures
        r@.map_values(|e: ChecksumFailure| e@) == checksum_failures_of(name@, *v),
        (exists|k: int| 0 <= k < r@.len() && #[trigger] r@[k].error is InvalidLength)
            <==> v.checksum@.len() != 32,
        (exists|k: int|
            0 <= k < r@.len() && #[trigger] r@[k].error == ChecksumError::InvalidCharacters)
            <==> has_non_hex(v.checksum@),
        r@.len() == (if v.checksum@.len() != 32 { 1int } else { 0 })
            + (if has_non_hex(v.checksum@) { 1int } else { 0 }),
{
    let cs = chars_of(v.checksum.as_str());
    let mut out: Vec<ChecksumFailure> = Vec::new();
    if cs.len() != 32 {
        out.push(
            ChecksumFailure {
                plugin_name: name.clone(),
                plugin_version: v.version.clone(),
                error: ChecksumError::InvalidLength(cs.len()),
            },
        );
    }
    let mut all_hex = true;
    let mut i: usize = 0;
    while i < cs.len()
        invariant
            i <= cs@.len(),
            all_hex == forall|j: int| 0 <= j < i ==> is_hex_digit(#[trigger] cs@[j]),
        decreases cs@.len() - i,
    {
        if !is_hex_char(cs[i]) {
            all_hex = false;
        }
        i = i + 1;
    }
    if !all_hex {
        out.push(
            ChecksumFailure {
                plugin_name: name.clone(),
                plugin_version: v.version.clone(),
                error: ChecksumError::InvalidCharacters,
            },
        );
    }
    assert(out@.map_values(|e: ChecksumFailure| e@) =~= checksum_failures_of(name@, *v));
    if cs.len() != 32 {
        assert(out@[0].error is InvalidLength);
    }
    if !all_hex {
        assert(out@[out@.len() - 1].error == ChecksumError::InvalidCharacters);
    }
    out
}

/// The timestamp check of one version of the plugin named `name`.
pub fn check_timestamp(name: &String, v: &ValidatePluginVersion) -> (r: Vec<TimestampError>)
    ensures
        r@.map_values(|e: TimestampError| e@) == timestamp_failures_of(name@, *v),
{
    let mut out: Vec<TimestampError> = Vec::new();
    if let Some(m) = parse_timestamp(v.timestamp.as_str()) {
        out.push(
            TimestampError {
                plugin_name: name.clone(),
                plugin_version: v.version.clone(),
                error: m,
            },
        );
    }
    assert(out@.map_values(|e: TimestampError| e@) =~= timestamp_failures_of(name@, *v));
    out
}

// ---------------------------------------------------------------------------
// The engine
// ---------------------------------------------------------------------------

/// The GUID failures of every plugin of `manifest`, in manifest order.
pub fn validate_guid(manifest: &Vec<ValidatePlugin>) -> (r: Option<Vec<GuidError>>)
    ensures
        views_of(r) == guid_failures(manifest@),
        r matches Some(v) ==> v@.len() > 0,
{
    let mut results: Vec<GuidError> = Vec::new();
    let mut i: usize = 0;
    while i < manifest.len()
        invariant
            i <= manifest@.len(),
            results@.map_values(|e: GuidError| e@) == guid_failures(manifest@.take(i as int)),
        decreases manifest@.len() - i,
    {
        let mut found = check_guid(&manifest[i]);
        let ghost before = results@;
        let ghost added = found@;
        results.append(&mut found);
        proof {
            assert(manifest@.take(i + 1).drop_last() =~= manifest@.take(i as int));
            assert(results@.map_values(|e: GuidError| e@) =~= before.map_values(|e: GuidError| e@)
                + added.map_values(|e: GuidError| e@));
        }
        i = i + 1;
    }
    assert(manifest@.take(i as int) =~= manifest@);
    if results.len() == 0 {
        None
    } else {
        Some(results)
    }
}

/// The URL failures of every version of `manifest`, in manifest order.
pub fn validate_url(manifest: &Vec<ValidatePlugin>) -> (r: Option<Vec<UrlError>>)
    ensures
        views_of(r) == url_failures(manifest@),
        r matches Some(v) ==> v@.len() > 0,
{
    let mut results: Vec<UrlError> = Vec::new();
    let mut i: usize = 0;
    while i < manifest.len()
        invariant
            i <= manifest@.len(),
            results@.map_values(|e: UrlError| e@) == url_failures(manifest@.take(i as int)),
        decreases manifest@.len() - i,
    {
        let p = &manifest[i];
        let mut j: usize = 0;
        while j < p.versions.len()
            invariant
                i < manifest@.len(),
                *p == manifest@[i as int],
                j <= p.versions@.len(),
                results@.map_values(|e: UrlError| e@) == url_failures(manifest@.take(i as int)) + in_versions(
                    p.name@,
                    p.versions@.take(j as int),
                    |n, v| url_failures_of(n, v),
                ),
            decreases p.versions@.len() - j,
        {
            let mut found = check_url(&p.name, &p.versions[j]);
            let ghost before = results@;
            let ghost added = found@;
            results.append(&mut found);
            proof {
                assert(p.versions@.take(j + 1).drop_last() =~= p.versions@.take(j as int));
                assert(results@.map_values(|e: UrlError| e@) =~= before.map_values(|e: UrlError| e@)
                    + added.map_values(|e: UrlError| e@));
            }
            j = j + 1;
        }
        proof {
            assert(p.versions@.take(j as int) =~= p.versions@);
            assert(manifest@.take(i + 1).drop_last() =~= manifest@.take(i as int));
        }
        i = i + 1;
    }
    assert(manifest@.take(i as int) =~= manifest@);
    if results.len() == 0 {
        None
    } else {
        Some(results)
    }
}

/// The version failures of every version of `manifest`, in manifest order.
pub fn validate_semver(manifest: &Vec<ValidatePlugin>) -> (r: Option<Vec<VersionError>>)
    ensures
        views_of(r) == version_failures(manifest@),
        r matches Some(v) ==> v@.len() > 0,
{
    let mut results: Vec<VersionError> = Vec::new();
    let mut i: usize = 0;
    while i < manifest.len()
        invariant
            i <= manifest@.len(),
            results@.map_values(|e: VersionError| e@) == version_failures(manifest@.take(i as int)),
        decreases manifest@.len() - i,
    {
        let p = &manifest[i];
        let mut j: usize = 0;
        while j < p.versions.len()
            invariant
                i < manifest@.len(),
                *p == manifest@[i as int],
                j <= p.versions@.len(),
                results@.map_values(|e: VersionError| e@) == version_failures(manifest@.take(i as int)) + in_versions(
                    p.name@,
                    p.versions@.take(j as int),
                    |n, v| version_failures_of(n, v),
                ),
            decreases p.versions@.len() - j,
        {
            let mut found = check_semver(&p.name, &p.versions[j]);
            let ghost before = results@;
            let ghost added = found@;
            results.append(&mut found);
            proof {
                assert(p.versions@.take(j + 1).drop_last() =~= p.versions@.take(j as int));
                assert(results@.map_values(|e: VersionError| e@) =~= before.map_values(|e: VersionError| e@)
                    + added.map_values(|e: VersionError| e@));
            }
            j = j + 1;
        }
        proof {
            assert(p.versions@.take(j as int) =~= p.versions@);
            assert(manifest@.take(i + 1).drop_last() =~= manifest@.take(i as int));
        }
        i = i + 1;
    }
    assert(manifest@.take(i as int) =~= manifest@);
    if results.len() == 0 {
        None
    } else {
        Some(results)
    }
}

/// The checksum failures of every version of `manifest`, in manifest order.
pub fn validate_checksum(manifest: &Vec<ValidatePlugin>) -> (r: Option<Vec<ChecksumFailure>>)
    ensures
        views_of(r) == checksum_failures(manifest@),
        r matches Some(v) ==> v@.len() > 0,
{
    let mut results: Vec<ChecksumFailure> = Vec::new();
    let mut i: usize = 0;
    while i < manifest.len()
        invariant
            i <= manifest@.len(),
            results@.map_values(|e: ChecksumFailure| e@) == checksum_failures(manifest@.take(i as int)),
        decreases manifest@.len() - i,
    {
        let p = &manifest[i];
        let mut j: usize = 0;
        while j < p.versions.len()
            invariant
                i < manifest@.len(),
                *p == manifest@[i as int],
                j <= p.versions@.len(),
                results@.map_values(|e: ChecksumFailure| e@) == checksum_failures(manifest@.take(i as int)) + in_versions(
                    p.name@,
                    p.versions@.take(j as int),
                    |n, v| checksum_failures_of(n, v),
                ),
            decreases p.versions@.len() - j,
        {
            let mut found = check_checksum(&p.name, &p.versions[j]);
            let ghost before = results@;
            let ghost added = found@;
            results.append(&mut found);
            proof {
                assert(p.versions@.take(j + 1).drop_last() =~= p.versions@.take(j as int));
                assert(results@.map_values(|e: ChecksumFailure| e@) =~= before.map_values(|e: ChecksumFailure| e@)
                    + added.map_values(|e: ChecksumFailure| e@));
            }
            j = j + 1;
        }
        proof {
            assert(p.versions@.take(j as int) =~= p.versions@);
            assert(manifest@.take(i + 1).drop_last() =~= manifest@.take(i as int));
        }
        i = i + 1;
    }
    assert(manifest@.take(i as int) =~= manifest@);
    if results.len() == 0 {
        None
    } else {
        Some(results)
    }
}

/// The timestamp failures of every version of `manifest`, in manifest order.
pub fn validate_timestamp(manifest: &Vec<ValidatePlugin>) -> (r: Option<Vec<TimestampError>>)
    ensures
        views_of(r) == timestamp_failures(manifest@),
        r matches Some(v) ==> v@.len() > 0,
{
    let mut results: Vec<TimestampError> = Vec::new();
    let mut i: usize = 0;
    while i < manifest.len()
        invariant
            i <= manifest@.len(),
            results@.map_values(|e: TimestampError| e@) == timestamp_failures(manifest@.take(i as int)),
        decreases manifest@.len() - i,
    {
        let p = &manifest[i];
        let mut j: usize = 0;
        while j < p.versions.len()
            invariant
                i < manifest@.len(),
                *p == manifest@[i as int],
                j <= p.versions@.len(),
                results@.map_values(|e: TimestampError| e@) == timestamp_failures(manifest@.take(i as int)) + in_versions(
                    p.name@,
                    p.versions@.take(j as int),
                    |n, v| timestamp_failures_of(n, v),
                ),
            decreases p.versions@.len() - j,
        {
            let mut found = check_timestamp(&p.name, &p.versions[j]);
            let ghost before = results@;
            let ghost added = found@;
            results.append(&mut found);
            proof {
                assert(p.versions@.take(j + 1).drop_last() =~= p.versions@.take(j as int));
                assert(results@.map_values(|e: TimestampError| e@) =~= before.map_values(|e: TimestampError| e@)
                    + added.map_values(|e: TimestampError| e@));
            }
            j = j + 1;
        }
        proof {
            assert(p.versions@.take(j as int) =~= p.versions@);
            assert(manifest@.take(i + 1).drop_last() =~= manifest@.take(i as int));
        }
        i = i + 1;
    }
    assert(manifest@.take(i as int) =~= manifest@);
    if results.len() == 0 {
        None
    } else {
        Some(results)
    }
}

/// The report of `m`: each category holds its failures in manifest order,
/// and is absent where it has none.
pub open spec fn report_of(m: Seq<ValidatePlugin>, r: ValidationReport) -> bool {
    &&& views_of(r.guid) == guid_failures(m)
    &&& views_of(r.url) == url_failures(m)
    &&& views_of(r.semver) == version_failures(m)
    &&& views_of(r.checksum) == checksum_failures(m)
    &&& views_of(r.timestamp) == timestamp_failures(m)
    &&& r.guid matches Some(v) ==> v@.len() > 0
    &&& r.url matches Some(v) ==> v@.len() > 0
    &&& r.semver matches Some(v) ==> v@.len() > 0
    &&& r.checksum matches Some(v) ==> v@.len() > 0
    &&& r.timestamp matches Some(v) ==> v@.len() > 0
}

/// Runs every check on every plugin and version of `manifest`.
pub fn validate(manifest: &Vec<ValidatePlugin>) -> (r: ValidationReport)
    ensures
        report_of(manifest@, r),
{
    ValidationReport {
        guid: validate_guid(manifest),
        url: validate_url(manifest),
        semver: validate_semver(manifest),
        checksum: validate_checksum(manifest),
        timestamp: validate_timestamp(manifest),
    }
}

/// The text of the report of `m`.
pub open spec fn manifest_report_text(m: Seq<ValidatePlugin>) -> Seq<char> {
    if guid_failures(m).len() == 0 && url_failures(m).len() == 0 && version_failures(m).len() == 0
        && checksum_failures(m).len() == 0 && timestamp_failures(m).len() == 0 {
        success_text()
    } else {
        trim_end(
            lines_text(guid_failures(m), |f| guid_line(f)) + lines_text(
                url_failures(m),
                |f| url_line(f),
            ) + lines_text(version_failures(m), |f| version_line(f)) + lines_text(
                checksum_failures(m),
                |f| checksum_line(f),
            ) + lines_text(timestamp_failures(m), |f| timestamp_line(f)),
        )
    }
}

proof fn lemma_report_text(m: Seq<ValidatePlugin>, r: ValidationReport)
    requires
        report_of(m, r),
    ensures
        r.text() == manifest_report_text(m),
{
}

/// Validates `manifest` and renders the report.
pub fn validate_manifest(manifest: &Vec<ValidatePlugin>) -> (r: String)
    ensures
        r@ == manifest_report_text(manifest@),
{
    let report = validate(manifest);
    proof {
        lemma_report_text(manifest@, report);
    }
    report.render()
}

// ---------------------------------------------------------------------------
// Laws
// ---------------------------------------------------------------------------

/// Two validations of one manifest render the same text.
pub proof fn lemma_validation_repeatable(
    m: Seq<ValidatePlugin>,
    first: ValidationReport,
    second: ValidationReport,
)
    requires
        report_of(m, first),
        report_of(m, second),
    ensures
        first.text() == second.text(),
{
    lemma_report_text(m, first);
    lemma_report_text(m, second);
}

proof fn lemma_per_plugin_concat<T>(
    a: Seq<ValidatePlugin>,
    b: Seq<ValidatePlugin>,
    f: spec_fn(ValidatePlugin) -> Seq<T>,
)
    ensures
        per_plugin(a + b, f) == per_plugin(a, f) + per_plugin(b, f),
    decreases b.len(),
{
    if b.len() == 0 {
        assert(a + b =~= a);
        assert(per_plugin(a, f) + per_plugin(b, f) =~= per_plugin(a, f));
    } else {
        assert((a + b).drop_last() =~= a + b.drop_last());
        lemma_per_plugin_concat(a, b.drop_last(), f);
        assert(per_plugin(a + b, f) =~= per_plugin(a, f) + per_plugin(b, f));
    }
}

proof fn lemma_per_version_concat<T>(
    a: Seq<ValidatePlugin>,
    b: Seq<ValidatePlugin>,
    f: spec_fn(Seq<char>, ValidatePluginVersion) -> Seq<T>,
)
    ensures
        per_version(a + b, f) == per_version(a, f) + per_version(b, f),
    decreases b.len(),
{
    if b.len() == 0 {
        assert(a + b =~= a);
        assert(per_version(a, f) + per_version(b, f) =~= per_version(a, f));
    } else {
        assert((a + b).drop_last() =~= a + b.drop_last());
        lemma_per_version_concat(a, b.drop_last(), f);
        assert(per_version(a + b, f) =~= per_version(a, f) + per_version(b, f));
    }
}

/// The failures of two manifests laid end to end are those of the first,
/// then those of the second, in every category: each category lists its
/// failures in manifest order, whatever records between them are clean.
pub proof fn lemma_order_preserved(a: Seq<ValidatePlugin>, b: Seq<ValidatePlugin>)
    ensures
        guid_failures(a + b) == guid_failures(a) + guid_failures(b),
        url_failures(a + b) == url_failures(a) + url_failures(b),
        version_failures(a + b) == version_failures(a) + version_failures(b),
        checksum_failures(a + b) == checksum_failures(a) + checksum_failures(b),
        timestamp_failures(a + b) == timestamp_failures(a) + timestamp_failures(b),
{
    lemma_per_plugin_concat(a, b, |p| guid_failures_of(p));
    lemma_per_version_concat(a, b, |n, v| url_failures_of(n, v));
    lemma_per_version_concat(a, b, |n, v| version_failures_of(n, v));
    lemma_per_version_concat(a, b, |n, v| checksum_failures_of(n, v));
    lemma_per_version_concat(a, b, |n, v| timestamp_failures_of(n, v));
}

/// Every field of `v` passes its check.
pub open spec fn version_is_valid(v: ValidatePluginVersion) -> bool {
    &&& v.checksum@.len() == 32
    &&& forall|i: int| 0 <= i < v.checksum@.len() ==> is_hex_digit(#[trigger] v.checksum@[i])
    &&& url_parse_failure(v.source_url@) is None
    &&& dotted_outcome(v.target_abi@, 3) is Ok
    &&& dotted_outcome(v.version@, 4) is Ok
    &&& rfc3339_weak_failure(v.timestamp@) is None
}

/// The GUID of `p` and every field of each of its versions pass their checks.
pub open spec fn plugin_is_valid(p: ValidatePlugin) -> bool {
    &&& is_uuid_text(p.guid@)
    &&& forall|j: int| 0 <= j < p.versions@.len() ==> version_is_valid(#[trigger] p.versions@[j])
}

proof fn lemma_per_plugin_empty<T>(m: Seq<ValidatePlugin>, f: spec_fn(ValidatePlugin) -> Seq<T>)
    requires
        forall|i: int| 0 <= i < m.len() ==> #[trigger] f(m[i]).len() == 0,
    ensures
        per_plugin(m, f).len() == 0,
    decreases m.len(),
{
    if m.len() > 0 {
        assert(f(m[m.len() - 1]).len() == 0);
        lemma_per_plugin_empty(m.drop_last(), f);
    }
}

proof fn lemma_in_versions_empty<T>(
    name: Seq<char>,
    vs: Seq<ValidatePluginVersion>,
    f: spec_fn(Seq<char>, ValidatePluginVersion) -> Seq<T>,
)
    requires
        forall|j: int| 0 <= j < vs.len() ==> #[trigger] f(name, vs[j]).len() == 0,
    ensures
        in_versions(name, vs, f).len() == 0,
    decreases vs.len(),
{
    if vs.len() > 0 {
        assert(f(name, vs[vs.len() - 1]).len() == 0);
        lemma_in_versions_empty(name, vs.drop_last(), f);
    }
}

proof fn lemma_per_version_empty<T>(
    m: Seq<ValidatePlugin>,
    f: spec_fn(Seq<char>, ValidatePluginVersion) -> Seq<T>,
)
    requires
        forall|i: int, j: int|
            0 <= i < m.len() && 0 <= j < m[i].versions@.len() ==> #[trigger] f(
                m[i].name@,
                m[i].versions@[j],
            ).len() == 0,
    ensures
        per_version(m, f).len() == 0,
    decreases m.len(),
{
    if m.len() > 0 {
        let last = m[m.len() - 1];
        assert forall|j: int| 0 <= j < last.versions@.len() implies #[trigger] f(
            last.name@,
            last.versions@[j],
        ).len() == 0 by {
            assert(f(m[m.len() - 1].name@, m[m.len() - 1].versions@[j]).len() == 0);
        }
        lemma_in_versions_empty(last.name@, last.versions@, f);
        assert forall|i: int, j: int|
            0 <= i < m.drop_last().len() && 0 <= j < m.drop_last()[i].versions@.len() implies #[trigger] f(
            m.drop_last()[i].name@,
            m.drop_last()[i].versions@[j],
        ).len() == 0 by {
            assert(f(m[i].name@, m[i].versions@[j]).len() == 0);
        }
        lemma_per_version_empty(m.drop_last(), f);
    }
}

/// A manifest without plugins renders the success sentence.
pub proof fn lemma_empty_manifest_passes(m: Seq<ValidatePlugin>)
    requires
        m.len() == 0,
    ensures
        manifest_report_text(m) == success_text(),
{
}

/// A manifest whose every field is valid renders the success sentence.
pub proof fn lemma_valid_manifest_passes(m: Seq<ValidatePlugin>)
    requires
        forall|i: int| 0 <= i < m.len() ==> plugin_is_valid(#[trigger] m[i]),
    ensures
        manifest_report_text(m) == success_text(),
{
    assert forall|i: int| 0 <= i < m.len() implies #[trigger] guid_failures_of(m[i]).len() == 0 by {
        assert(plugin_is_valid(m[i]));
    }
    lemma_per_plugin_empty(m, |p| guid_failures_of(p));
    assert forall|i: int, j: int| 0 <= i < m.len() && 0 <= j < m[i].versions@.len() implies {
        &&& #[trigger] url_failures_of(m[i].name@, m[i].versions@[j]).len() == 0
        &&& version_failures_of(m[i].name@, m[i].versions@[j]).len() == 0
        &&& checksum_failures_of(m[i].name@, m[i].versions@[j]).len() == 0
        &&& timestamp_failures_of(m[i].name@, m[i].versions@[j]).len() == 0
    } by {
        assert(plugin_is_valid(m[i]));
        assert(version_is_valid(m[i].versions@[j]));
    }
    lemma_per_version_empty(m, |n, v| url_failures_of(n, v));
    lemma_per_version_empty(m, |n, v| version_failures_of(n, v));
    lemma_per_version_empty(m, |n, v| checksum_failures_of(n, v));
    lemma_per_version_empty(m, |n, v| timestamp_failures_of(n, v));
}

} // verus!
