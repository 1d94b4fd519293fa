//! Version and consistency reporting: parsing version fields out of
//! manifest texts and judging whether the local and remote component
//! versions agree. Reading files and fetching remote texts belong to the
//! shell; everything here is a function of the texts alone.

use vstd::prelude::*;

use crate::strutil::str_eq;
use crate::strutil::trim;
use crate::strutil::trimmed;
use crate::strutil::starts_with_str;
use crate::worker::is_prefix;

verus! {

/// The version/consistency report.
#[derive(Clone, Debug)]
pub struct VersionInfo {
    pub current: String,
    pub latest: Option<String>,
    pub is_latest: Option<bool>,
    pub consistency: Option<String>,
    pub release_url: Option<String>,
}

/// A trimmed version with every leading `v` removed.
pub open spec fn strip_leading_v(s: Seq<char>) -> Seq<char>
    decreases s.len(),
{
    if s.len() > 0 && s[0] == 'v' {
        strip_leading_v(s.drop_first())
    } else {
        s
    }
}

/// The normalized form of a raw version string.
pub open spec fn normalized_version(s: Seq<char>) -> Seq<char> {
    strip_leading_v(trimmed(s))
}

/// Normalizes a raw version string: trims it and strips leading `v`s.
pub fn normalize_version(raw: &str) -> (r: String)
    ensures
        r@ == normalized_version(raw@),
{
    let t = trim(raw);
    let len = t.unicode_len();
    proof {
        assert(t@.subrange(0, len as int) =~= t@);
    }
    let mut i: usize = 0;
    while i < len && t.get_char(i) == 'v'
        invariant
            len == t@.len(),
            0 <= i <= len,
            strip_leading_v(t@) == strip_leading_v(t@.subrange(i as int, len as int)),
        decreases len - i,
    {
        proof {
            let suf = t@.subrange(i as int, len as int);
            assert(suf[0] == t@[i as int]);
            assert(suf.drop_first() =~= t@.subrange(i + 1, len as int));
        }
        i = i + 1;
    }
    proof {
        let suf = t@.subrange(i as int, len as int);
        if i < len {
            assert(suf[0] == t@[i as int]);
        }
        assert(strip_leading_v(suf) == suf);
    }
    t.substring_char(i, len).to_owned()
}

/// The label a version gets in a mismatch message.
pub open spec fn label_of(v: Option<Seq<char>>) -> Seq<char> {
    match v {
        Some(s) => "v"@ + s,
        None => "missing"@,
    }
}

/// Renders a version for a mismatch message: `v1.2.3` or `missing`.
pub fn version_label(value: &Option<String>) -> (r: String)
    ensures
        r@ == label_of(value.deep_view()),
{
    match value {
        Some(v) => "v".to_owned().concat(v.as_str()),
        None => "missing".to_owned(),
    }
}

/// Three versions agree when all three are known and equal.
pub open spec fn all3_match(a: Option<Seq<char>>, b: Option<Seq<char>>, c: Option<Seq<char>>) -> bool {
    match (a, b, c) {
        (Some(x), Some(y), Some(z)) => x == y && y == z,
        _ => false,
    }
}

/// The consistency verdict, in order: local component disagreement,
/// remote component disagreement, local-to-remote drift, or nothing.
pub open spec fn consistency_spec(
    b: Option<Seq<char>>,
    r: Option<Seq<char>>,
    f: Option<Seq<char>>,
    rb: Option<Seq<char>>,
    rr: Option<Seq<char>>,
    rf: Option<Seq<char>>,
    remote_present: bool,
) -> Option<Seq<char>> {
    if !all3_match(b, r, f) {
        Some(
            "Local mismatch: backend "@ + label_of(b) + ", root "@ + label_of(r) + ", frontend "@
                + label_of(f),
        )
    } else if !remote_present {
        None
    } else if !all3_match(rb, rr, rf) {
        Some(
            "Remote mismatch: backend "@ + label_of(rb) + ", root "@ + label_of(rr)
                + ", frontend "@ + label_of(rf),
        )
    } else if b is Some && rb is Some && b != rb {
        Some("Local v"@ + b->Some_0 + " differs from remote v"@ + rb->Some_0)
    } else {
        None
    }
}

/// Whether three already-normalized versions all agree.
fn all3_eq(a: &Option<String>, b: &Option<String>, c: &Option<String>) -> (r: bool)
    ensures
        r == all3_match(a.deep_view(), b.deep_view(), c.deep_view()),
{
    match (a, b, c) {
        (Some(x), Some(y), Some(z)) => {
            str_eq(x.as_str(), y.as_str()) && str_eq(y.as_str(), z.as_str())
        },
        _ => false,
    }
}

/// Builds the consistency message out of already-normalized versions.
pub fn build_consistency_message(
    backend: &Option<String>,
    root: &Option<String>,
    frontend: &Option<String>,
    remote_backend: &Option<String>,
    remote_root: &Option<String>,
    remote_frontend: &Option<String>,
    remote_present: bool,
) -> (r: Option<String>)
    ensures
        r.deep_view() == consistency_spec(
            backend.deep_view(),
            root.deep_view(),
            frontend.deep_view(),
            remote_backend.deep_view(),
            remote_root.deep_view(),
            remote_frontend.deep_view(),
            remote_present,
        ),
{
    if !all3_eq(backend, root, frontend) {
        let msg = "Local mismatch: backend ".to_owned().concat(
            version_label(backend).as_str(),
        ).concat(", root ").concat(version_label(root).as_str()).concat(", frontend ").concat(
            version_label(frontend).as_str(),
        );
        return Some(msg);
    }
    if !remote_present {
        return None;
    }
    if !all3_eq(remote_backend, remote_root, remote_frontend) {
        let msg = "Remote mismatch: backend ".to_owned().concat(
            version_label(remote_backend).as_str(),
        ).concat(", root ").concat(version_label(remote_root).as_str()).concat(
            ", frontend ",
        ).concat(version_label(remote_frontend).as_str());
        return Some(msg);
    }
    match (backend, remote_backend) {
        (Some(local), Some(remote)) => {
            if !str_eq(local.as_str(), remote.as_str()) {
                let msg = "Local v".to_owned().concat(local.as_str()).concat(
                    " differs from remote v",
                ).concat(remote.as_str());
                Some(msg)
            } else {
                None
            }
        },
        _ => None,
    }
}

/// The index of the first newline, or the length if there is none.
pub open spec fn first_nl(s: Seq<char>) -> int
    decreases s.len(),
{
    if s.len() == 0 {
        0
    } else if s[0] == '\n' {
        0
    } else {
        1 + first_nl(s.drop_first())
    }
}

proof fn lemma_first_nl_bounds(s: Seq<char>)
    ensures
        0 <= first_nl(s) <= s.len(),
        first_nl(s) < s.len() ==> s[first_nl(s)] == '\n',
        forall|l: int| 0 <= l < first_nl(s) ==> s[l] != '\n',
    decreases s.len(),
{
    if s.len() > 0 && s[0] != '\n' {
        lemma_first_nl_bounds(s.drop_first());
        assert forall|l: int| 0 <= l < first_nl(s) implies s[l] != '\n' by {
            if l > 0 {
                assert(s.drop_first()[l - 1] == s[l]);
            }
        }
        if first_nl(s) < s.len() {
            assert(s.drop_first()[first_nl(s.drop_first())] == s[first_nl(s)]);
        }
    }
}

/// A line with its trailing carriage return removed.
pub open spec fn strip_cr(l: Seq<char>) -> Seq<char> {
    if l.len() > 0 && l.last() == '\r' {
        l.drop_last()
    } else {
        l
    }
}

/// The lines of a text: split on newlines, each line's trailing carriage
/// return removed; a trailing newline produces no empty final line.
pub open spec fn split_lines(s: Seq<char>) -> Seq<Seq<char>>
    decreases s.len(),
    via split_lines_decreases
{
    if s.len() == 0 {
        Seq::empty()
    } else {
        let k = first_nl(s);
        if k < s.len() {
            seq![strip_cr(s.take(k))] + split_lines(s.subrange(k + 1, s.len() as int))
        } else {
            seq![strip_cr(s)]
        }
    }
}

#[via_fn]
proof fn split_lines_decreases(s: Seq<char>) {
    lemma_first_nl_bounds(s);
}

proof fn lemma_first_nl_at(s: Seq<char>, d: int)
    requires
        0 <= d <= s.len(),
        forall|l: int| 0 <= l < d ==> s[l] != '\n',
        d < s.len() ==> s[d] == '\n',
    ensures
        d < s.len() ==> first_nl(s) == d,
        d == s.len() ==> first_nl(s) == s.len(),
    decreases s.len(),
{
    if s.len() > 0 && d > 0 {
        assert(forall|l: int|
            0 <= l < s.drop_first().len() ==> #[trigger] s.drop_first()[l] == s[l + 1]);
        lemma_first_nl_at(s.drop_first(), d - 1);
    }
}

/// Splits a text into its lines.
pub fn split_into_lines(content: &str) -> (r: Vec<String>)
    ensures
        r.deep_view() == split_lines(content@),
{
    let len = content.unicode_len();
    let mut out: Vec<String> = Vec::new();
    proof {
        assert(content@.subrange(0, len as int) =~= content@);
        assert(out.deep_view() =~= Seq::<Seq<char>>::empty());
        assert(out.deep_view() + split_lines(content@) =~= split_lines(content@));
    }
    let mut pos: usize = 0;
    while pos < len
        invariant
            len == content@.len(),
            0 <= pos <= len,
            split_lines(content@) == out.deep_view() + split_lines(
                content@.subrange(pos as int, len as int),
            ),
        decreases len - pos,
    {
        let ghost suffix = content@.subrange(pos as int, len as int);
        // Find the next newline.
        let mut q: usize = pos;
        while q < len && content.get_char(q) != '\n'
            invariant
                len == content@.len(),
                pos <= q <= len,
                forall|l: int| pos <= l < q ==> content@[l] != '\n',
            decreases len - q,
        {
            q = q + 1;
        }
        proof {
            assert(forall|l: int| 0 <= l < q - pos ==> #[trigger] suffix[l] == content@[pos + l]);
            if q < len {
                assert(suffix[(q - pos) as int] == content@[q as int]);
            }
            lemma_first_nl_at(suffix, q - pos);
        }
        // The line body, with a trailing carriage return removed.
        let line_end = if q > pos && content.get_char(q - 1) == '\r' {
            q - 1
        } else {
            q
        };
        let line = content.substring_char(pos, line_end);
        proof {
            if q < len {
                assert(suffix.take(q - pos) =~= content@.subrange(pos as int, q as int));
            } else {
                assert(suffix =~= content@.subrange(pos as int, q as int));
            }
            let body = content@.subrange(pos as int, q as int);
            if q > pos && content@[q - 1] == '\r' {
                assert(body.last() == content@[q - 1]);
                assert(body.drop_last() =~= content@.subrange(pos as int, line_end as int));
            }
            assert(line@ == strip_cr(body));
        }
        out.push(line.to_owned());
        proof {
            if q < len {
                assert(suffix.subrange(q - pos + 1, suffix.len() as int) =~= content@.subrange(
                    q + 1,
                    len as int,
                ));
                assert(split_lines(suffix) =~= seq![strip_cr(
                    content@.subrange(pos as int, q as int),
                )] + split_lines(content@.subrange(q + 1, len as int)));
            } else {
                assert(split_lines(suffix) =~= seq![strip_cr(
                    content@.subrange(pos as int, q as int),
                )]);
            }
            assert(split_lines(content@) =~= out.deep_view() + split_lines(
                content@.subrange(
                    if q < len {
                        q + 1
                    } else {
                        len as int
                    },
                    len as int,
                ),
            ));
        }
        pos = if q < len {
            q + 1
        } else {
            len
        };
    }
    proof {
        assert(content@.subrange(pos as int, len as int).len() == 0);
        assert(split_lines(content@.subrange(pos as int, len as int)) =~= Seq::<Seq<char>>::empty());
        assert(split_lines(content@) =~= out.deep_view());
    }
    out
}

/// A trimmed line that opens a manifest section: `[name]`.
pub open spec fn is_section_header(t: Seq<char>) -> bool {
    t.len() > 0 && t[0] == '[' && t[t.len() - 1] == ']'
}

/// The index of the first `=`, or the length if there is none.
pub open spec fn first_eq(s: Seq<char>) -> int
    decreases s.len(),
{
    if s.len() == 0 {
        0
    } else if s[0] == '=' {
        0
    } else {
        1 + first_eq(s.drop_first())
    }
}

proof fn lemma_first_eq_bounds(s: Seq<char>)
    ensures
        0 <= first_eq(s) <= s.len(),
    decreases s.len(),
{
    if s.len() > 0 && s[0] != '=' {
        lemma_first_eq_bounds(s.drop_first());
    }
}

proof fn lemma_first_eq_at(s: Seq<char>, d: int)
    requires
        0 <= d <= s.len(),
        forall|l: int| 0 <= l < d ==> s[l] != '=',
        d < s.len() ==> s[d] == '=',
    ensures
        d < s.len() ==> first_eq(s) == d,
        d == s.len() ==> first_eq(s) == s.len(),
    decreases s.len(),
{
    if s.len() > 0 && d > 0 {
        assert(forall|l: int|
            0 <= l < s.drop_first().len() ==> #[trigger] s.drop_first()[l] == s[l + 1]);
        lemma_first_eq_at(s.drop_first(), d - 1);
    }
}

/// The quoted value of a `version = "..."` line, if it is one.
pub open spec fn extract_quoted_value(t: Seq<char>) -> Option<Seq<char>> {
    let e = first_eq(t);
    if e >= t.len() {
        None
    } else {
        let v = trimmed(t.subrange(e + 1, t.len() as int));
        if v.len() >= 2 && v[0] == '"' && v[v.len() - 1] == '"' {
            Some(v.subrange(1, v.len() - 1))
        } else {
            None
        }
    }
}

/// Extracts the quoted value after the first `=` of a line.
fn quoted_value(t: &str) -> (r: Option<String>)
    ensures
        r.deep_view() == extract_quoted_value(t@),
{
    let len = t.unicode_len();
    let mut e: usize = 0;
    while e < len && t.get_char(e) != '='
        invariant
            len == t@.len(),
            0 <= e <= len,
            forall|l: int| 0 <= l < e ==> t@[l] != '=',
        decreases len - e,
    {
        e = e + 1;
    }
    proof {
        lemma_first_eq_at(t@, e as int);
    }
    if e >= len {
        return None;
    }
    let rhs = t.substring_char(e + 1, len);
    let v = trim(rhs);
    let vlen = v.unicode_len();
    if vlen >= 2 && v.get_char(0) == '"' && v.get_char(vlen - 1) == '"' {
        Some(v.substring_char(1, vlen - 1).to_owned())
    } else {
        None
    }
}

/// The version a manifest text declares: the first `version = "..."`
/// line inside the `[package]` section.
pub open spec fn version_in_lines(lines: Seq<Seq<char>>, in_package: bool) -> Option<Seq<char>>
    decreases lines.len(),
{
    if lines.len() == 0 {
        None
    } else {
        let t = trimmed(lines[0]);
        let rest = lines.drop_first();
        if is_section_header(t) {
            version_in_lines(rest, t == "[package]"@)
        } else if in_package && is_prefix("version"@, t) {
            match extract_quoted_value(t) {
                Some(v) => Some(v),
                None => version_in_lines(rest, in_package),
            }
        } else {
            version_in_lines(rest, in_package)
        }
    }
}

/// The version a whole manifest text declares.
pub open spec fn cargo_version_of(content: Seq<char>) -> Option<Seq<char>> {
    version_in_lines(split_lines(content), false)
}

/// Reads the `[package]` version out of a manifest text.
pub fn read_cargo_version_from_str(content: &str) -> (r: Option<String>)
    ensures
        r.deep_view() == cargo_version_of(content@),
{
    let lines = split_into_lines(content);
    let ghost all = lines.deep_view();
    let n = lines.len();
    proof {
        assert(all.subrange(0, n as int) =~= all);
    }
    let mut in_package = false;
    let mut i: usize = 0;
    while i < n
        invariant
            n == lines@.len(),
            all == lines.deep_view(),
            0 <= i <= n,
            cargo_version_of(content@) == version_in_lines(
                all.subrange(i as int, n as int),
                in_package,
            ),
        decreases n - i,
    {
        let ghost rest = all.subrange(i as int, n as int);
        proof {
            assert(rest[0] == all[i as int]);
            assert(all[i as int] == lines@[i as int]@);
            assert(rest.drop_first() =~= all.subrange(i + 1, n as int));
        }
        let t = trim(lines[i].as_str());
        let tlen = t.unicode_len();
        let is_section = tlen > 0 && t.get_char(0) == '[' && t.get_char(tlen - 1) == ']';
        if is_section {
            in_package = str_eq(t, "[package]");
        } else if in_package && starts_with_str(t, "version") {
            match quoted_value(t) {
                Some(v) => {
                    return Some(v);
                },
                None => {},
            }
        }
        i = i + 1;
    }
    proof {
        assert(all.subrange(n as int, n as int).len() == 0);
    }
    None
}

/// The "version" field of a package metadata document; a function of the
/// document text alone.
pub uninterp spec fn json_version_of(s: Seq<char>) -> Option<Seq<char>>;

/// Relies on `serde_json::from_str` and `Value::get`/`Value::as_str`:
/// the string under the top-level "version" key of a JSON document, or
/// nothing when the document does not parse or has no such string.
#[verifier::external_body]
fn json_version_field(content: &str) -> (r: Option<String>)
    ensures
        r.deep_view() == json_version_of(content@),
{
    let json: serde_json::Value = match serde_json::from_str(content) {
        Ok(v) => v,
        Err(_) => return None,
    };
    json.get("version").and_then(|value| value.as_str()).map(|value| value.to_string())
}

/// Reads the "version" field out of a package metadata text.
pub fn read_package_version_from_str(content: &str) -> (r: Option<String>)
    ensures
        r.deep_view() == json_version_of(content@),
{
    json_version_field(content)
}

/// Normalizes an optional raw version.
fn normalize_opt(raw: &Option<String>) -> (r: Option<String>)
    ensures
        r.deep_view() == match raw.deep_view() {
            Some(s) => Some(normalized_version(s)),
            None => None::<Seq<char>>,
        },
{
    match raw {
        Some(s) => Some(normalize_version(s.as_str())),
        None => None,
    }
}

/// The whole version report, computed from the three local raw versions,
/// the three remote raw versions, and whether all remote texts were
/// fetched. `current` and `latest` fall back to `v0.0.0` when unknown;
/// `is_latest` states whether the three local versions agree; the
/// consistency verdict is `consistency_spec` over the normalized
/// versions; the release URL is always left empty.
pub fn version_report(
    backend: Option<String>,
    root: Option<String>,
    frontend: Option<String>,
    remote_backend: Option<String>,
    remote_root: Option<String>,
    remote_frontend: Option<String>,
    remote_present: bool,
) -> (r: VersionInfo)
    ensures
        ({
            let nb = match backend.deep_view() {
                Some(s) => Some(normalized_version(s)),
                None => None::<Seq<char>>,
            };
            let nr = match root.deep_view() {
                Some(s) => Some(normalized_version(s)),
                None => None::<Seq<char>>,
            };
            let nf = match frontend.deep_view() {
                Some(s) => Some(normalized_version(s)),
                None => None::<Seq<char>>,
            };
            let nrb = match remote_backend.deep_view() {
                Some(s) => Some(normalized_version(s)),
                None => None::<Seq<char>>,
            };
            let nrr = match remote_root.deep_view() {
                Some(s) => Some(normalized_version(s)),
                None => None::<Seq<char>>,
            };
            let nrf = match remote_frontend.deep_view() {
                Some(s) => Some(normalized_version(s)),
                None => None::<Seq<char>>,
            };
            &&& r.current@ == match nb {
                Some(v) => "v"@ + v,
                None => "v0.0.0"@,
            }
            &&& r.is_latest == Some(all3_match(nb, nr, nf))
            &&& r.latest.deep_view() == Some(
                if all3_match(nrb, nrr, nrf) {
                    match nrb {
                        Some(v) => "v"@ + v,
                        None => "v0.0.0"@,
                    }
                } else {
                    "v0.0.0"@
                },
            )
            &&& r.consistency.deep_view() == consistency_spec(
                nb,
                nr,
                nf,
                nrb,
                nrr,
                nrf,
                remote_present,
            )
            &&& r.release_url is None
        }),
{
    let nb = normalize_opt(&backend);
    let nr = normalize_opt(&root);
    let nf = normalize_opt(&frontend);
    let nrb = normalize_opt(&remote_backend);
    let nrr = normalize_opt(&remote_root);
    let nrf = normalize_opt(&remote_frontend);

    let current = match &nb {
        Some(v) => "v".to_owned().concat(v.as_str()),
        None => "v0.0.0".to_owned(),
    };
    let all_match = all3_eq(&nb, &nr, &nf);
    let remote_all_match = all3_eq(&nrb, &nrr, &nrf);
    let latest = if remote_all_match {
        match &nrb {
            Some(v) => Some("v".to_owned().concat(v.as_str())),
            None => Some("v0.0.0".to_owned()),
        }
    } else {
        Some("v0.0.0".to_owned())
    };
    let consistency = build_consistency_message(
        &nb,
        &nr,
        &nf,
        &nrb,
        &nrr,
        &nrf,
        remote_present,
    );
    VersionInfo { current, latest, is_latest: Some(all_match), consistency, release_url: None }
}

} // verus!
