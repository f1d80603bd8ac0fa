//! Self-update support: reading the latest release from the GitHub releases
//! API response, comparing versions, and choosing the archive for a platform.

use crate::text::{
    all_digits, before_char, char_at_byte, char_index_at_byte, find_from, find_from_exec,
    is_digit, lemma_decimal, lemma_digits_exclude, lemma_find_absent, lemma_find_after_prefix,
    lemma_find_from, lemma_parse_decimal, matches_at, push_char, trim_start, trim_start_range,
    utf8_len, utf8_len_prefix, chars_of, contains, contains_exec, decimal, decimal_string,
    ends_with, ends_with_exec, parse_u32, parse_u32_range, split_field, split_once_range,
};
use crate::media::{
    escape_char, fill_label, hex_char, hex_digit_value, is_hex_digit, json_decode,
    json_escape_spec, json_plan_spec,
    json_string_body, no_controls, opt_string, target_label, Fill, Plan,
};
use vstd::prelude::*;

verus! {

// ---------------------------------------------------------------------------
// Versions
// ---------------------------------------------------------------------------

/// `str::trim_start_matches('v')`: drops every leading `v`.
pub open spec fn strip_v(s: Seq<char>) -> Seq<char>
    decreases s.len(),
{
    if s.len() > 0 && s[0] == 'v' {
        strip_v(s.drop_first())
    } else {
        s
    }
}

/// A version `major.minor.patch`: leading `v`s are dropped, then everything
/// from the first `-` on; the first three `.`-separated fields must each be a
/// `u32` (further fields are ignored).
pub open spec fn semver_spec(s: Seq<char>) -> Option<(u32, u32, u32)> {
    let core = before_char(strip_v(s), '-');
    match (split_field(core, '.', 0), split_field(core, '.', 1), split_field(core, '.', 2)) {
        (Some(a), Some(b), Some(c)) => match (parse_u32(a), parse_u32(b), parse_u32(c)) {
            (Some(x), Some(y), Some(z)) => Some((x, y, z)),
            _ => None,
        },
        _ => None,
    }
}

/// Parses a version (see `semver_spec`).
pub fn parse_semver(s: &str) -> (r: Option<(u32, u32, u32)>)
    ensures
        r == semver_spec(s@),
{
    let v = chars_of(s);
    let mut k: usize = 0;
    assert(v@.subrange(0, v@.len() as int) =~= v@);
    while k < v.len() && v[k] == 'v'
        invariant
            k <= v@.len(),
            strip_v(v@.subrange(k as int, v@.len() as int)) == strip_v(v@),
        decreases v@.len() - k,
    {
        assert(v@.subrange(k as int, v@.len() as int).drop_first() =~= v@.subrange(
            k + 1,
            v@.len() as int,
        ));
        k = k + 1;
    }
    let ghost stripped = strip_v(v@);
    assert(stripped == v@.subrange(k as int, v@.len() as int));
    let (core_end, _) = split_once_range(v.as_slice(), k, v.len(), '-');
    let ghost core = before_char(stripped, '-');
    assert(core == v@.subrange(k as int, core_end as int));
    let (e0, n0) = split_once_range(v.as_slice(), k, core_end, '.');
    proof {
        reveal_with_fuel(split_field, 3);
    }
    let a = parse_u32_range(v.as_slice(), k, e0);
    let n0 = match n0 {
        Some(n) => n,
        None => return None,
    };
    let (e1, n1) = split_once_range(v.as_slice(), n0, core_end, '.');
    let b = parse_u32_range(v.as_slice(), n0, e1);
    let n1 = match n1 {
        Some(n) => n,
        None => return None,
    };
    let (e2, _) = split_once_range(v.as_slice(), n1, core_end, '.');
    let c = parse_u32_range(v.as_slice(), n1, e2);
    match (a, b, c) {
        (Some(x), Some(y), Some(z)) => Some((x, y, z)),
        _ => None,
    }
}

/// Lexicographic order on `(major, minor, patch)`.
pub open spec fn version_gt(a: (u32, u32, u32), b: (u32, u32, u32)) -> bool {
    a.0 > b.0 || (a.0 == b.0 && (a.1 > b.1 || (a.1 == b.1 && a.2 > b.2)))
}

pub open spec fn is_newer_spec(latest: Seq<char>, current: Seq<char>) -> bool {
    match (semver_spec(latest), semver_spec(current)) {
        (Some(l), Some(c)) => version_gt(l, c),
        _ => false,
    }
}

/// Whether `latest` is a strictly higher `major.minor.patch` than `current`;
/// never when either does not parse.
pub fn is_newer(latest: &str, current: &str) -> (r: bool)
    ensures
        r == is_newer_spec(latest@, current@),
{
    match (parse_semver(latest), parse_semver(current)) {
        (Some(l), Some(c)) => l.0 > c.0 || (l.0 == c.0 && (l.1 > c.1 || (l.1 == c.1 && l.2
            > c.2))),
        _ => false,
    }
}

/// `is_newer` is a strict order: no version is newer than itself, of two
/// versions at most one is newer than the other, and newer-than chains.
pub proof fn law_is_newer_strict_order(a: Seq<char>, b: Seq<char>, c: Seq<char>)
    ensures
        !is_newer_spec(a, a),
        is_newer_spec(a, b) ==> !is_newer_spec(b, a),
        is_newer_spec(a, b) && is_newer_spec(b, c) ==> is_newer_spec(a, c),
{
}

/// A text that is not a version is never newer, nor older, than anything.
pub proof fn law_unparsable_is_never_newer(a: Seq<char>, b: Seq<char>)
    requires
        semver_spec(a) is None,
    ensures
        !is_newer_spec(a, b),
        !is_newer_spec(b, a),
{
}

/// A leading `v` does not change a version.
pub proof fn law_semver_ignores_v_prefix(s: Seq<char>)
    ensures
        semver_spec(seq!['v'] + s) == semver_spec(s),
{
    assert((seq!['v'] + s).drop_first() =~= s);
}

/// The version text a release reports parses back to the same version.
pub proof fn law_version_text_parses_back(v: (u32, u32, u32))
    ensures
        semver_spec(version_text(v)) == Some(v),
{
    let da = decimal(v.0 as nat);
    let db = decimal(v.1 as nat);
    let dc = decimal(v.2 as nat);
    lemma_decimal(v.0 as nat);
    lemma_decimal(v.1 as nat);
    lemma_decimal(v.2 as nat);
    lemma_parse_decimal(v.0);
    lemma_parse_decimal(v.1);
    lemma_parse_decimal(v.2);
    lemma_digits_exclude(da, '.');
    lemma_digits_exclude(db, '.');
    lemma_digits_exclude(dc, '.');
    lemma_digits_exclude(dc, '-');
    let t = version_text(v);
    reveal_strlit(".");
    let bc = db + seq!['.'] + dc;
    assert(t =~= da + seq!['.'] + bc);
    // the text starts with a digit, so no `v` is stripped
    assert(is_digit(da[0]));
    assert(t[0] == da[0]);
    assert(strip_v(t) == t);
    // no `-` anywhere
    assert(!t.contains('-')) by {
        if t.contains('-') {
            let i = choose|i: int| 0 <= i < t.len() && t[i] == '-';
            if i < da.len() {
                assert(t[i] == da[i]);
                assert(is_digit(da[i]));
            } else if i > da.len() && i < da.len() + 1 + db.len() {
                assert(t[i] == db[i - da.len() - 1]);
                assert(is_digit(db[i - da.len() - 1]));
            } else if i > da.len() + 1 + db.len() {
                assert(t[i] == dc[i - da.len() - 2 - db.len()]);
                assert(is_digit(dc[i - da.len() - 2 - db.len()]));
            }
        }
    }
    lemma_find_absent(t, '-', 0);
    assert(before_char(t, '-') == t);
    lemma_find_after_prefix(da, '.', bc);
    assert((da + seq!['.'] + bc).take(da.len() as int) =~= da);
    assert((da + seq!['.'] + bc).skip(da.len() as int + 1) =~= bc);
    lemma_find_after_prefix(db, '.', dc);
    assert((db + seq!['.'] + dc).take(db.len() as int) =~= db);
    assert((db + seq!['.'] + dc).skip(db.len() as int + 1) =~= dc);
    lemma_find_absent(dc, '.', 0);
    reveal_with_fuel(split_field, 3);
    assert(split_field(t, '.', 0) == Some(da));
    assert(split_field(t, '.', 1) == Some(db));
    assert(split_field(t, '.', 2) == Some(dc));
}

/// The version a parsed release reports parses back to the version of its tag.
pub proof fn law_release_version_parses_back(json: Seq<char>)
    requires
        release_spec(json) is Ok,
    ensures
        extract_spec(json, "tag_name"@) matches Some(tag) && semver_spec(release_spec(json)->Ok_0.0)
            == semver_spec(tag),
{
    let tag = extract_spec(json, "tag_name"@).unwrap();
    law_version_text_parses_back(semver_spec(tag).unwrap());
}

// ---------------------------------------------------------------------------
// Release assets
// ---------------------------------------------------------------------------

/// A downloadable file of a release.
#[derive(Clone, Debug, PartialEq)]
pub struct ReleaseAsset {
    /// File name, e.g. `vertify-v0.2.0-abc1234-linux-x64.tar.gz`.
    pub name: String,
    /// Direct download URL.
    pub browser_download_url: String,
}

/// The latest release: its version and its assets.
#[derive(Clone, Debug)]
pub struct ReleaseInfo {
    /// `major.minor.patch`, e.g. `0.2.0`.
    pub version: String,
    pub assets: Vec<ReleaseAsset>,
}

/// The platforms release archives are built for.
#[derive(Copy, Clone, Debug, PartialEq, Eq, Structural)]
pub enum Platform {
    Linux,
    Windows,
    Macos,
    Other,
}

pub open spec fn platform_suffix(p: Platform) -> Seq<char> {
    match p {
        Platform::Linux => "linux-x64"@,
        Platform::Windows => "windows-x64"@,
        Platform::Macos => "macos-arm64"@,
        Platform::Other => ""@,
    }
}

/// The part of an archive name that marks its platform; empty when no
/// archive is built for the platform.
pub fn platform_asset_suffix(p: Platform) -> (r: &'static str)
    ensures
        r@ == platform_suffix(p),
{
    match p {
        Platform::Linux => "linux-x64",
        Platform::Windows => "windows-x64",
        Platform::Macos => "macos-arm64",
        Platform::Other => "",
    }
}

/// An asset is the platform's archive when its name holds the platform
/// suffix and it is not an installer `.exe`.
pub open spec fn is_platform_archive(name: Seq<char>, suffix: Seq<char>) -> bool {
    contains(name, suffix) && !ends_with(name, ".exe"@)
}

/// The first asset that is the platform's archive; none on a platform
/// without archives.
pub fn select_asset(assets: &[ReleaseAsset], platform: Platform) -> (r: Option<&ReleaseAsset>)
    ensures
        match r {
            Some(a) => platform_suffix(platform).len() > 0 && exists|i: int|
                0 <= i < assets@.len() && assets@[i] == *a && is_platform_archive(
                    assets@[i].name@,
                    platform_suffix(platform),
                ) && forall|j: int|
                    0 <= j < i ==> !is_platform_archive(
                        #[trigger] assets@[j].name@,
                        platform_suffix(platform),
                    ),
            None => platform_suffix(platform).len() == 0 || forall|j: int|
                0 <= j < assets@.len() ==> !is_platform_archive(
                    #[trigger] assets@[j].name@,
                    platform_suffix(platform),
                ),
        },
{
    let suffix = platform_asset_suffix(platform);
    let sv = chars_of(suffix);
    if sv.len() == 0 {
        return None;
    }
    let exe = chars_of(".exe");
    let mut i: usize = 0;
    while i < assets.len()
        invariant
            i <= assets@.len(),
            sv@ == platform_suffix(platform),
            sv@.len() > 0,
            exe@ == ".exe"@,
            forall|j: int|
                0 <= j < i ==> !is_platform_archive(
                    #[trigger] assets@[j].name@,
                    platform_suffix(platform),
                ),
        decreases assets@.len() - i,
    {
        let name = chars_of(assets[i].name.as_str());
        if contains_exec(name.as_slice(), sv.as_slice()) && !ends_with_exec(
            name.as_slice(),
            exe.as_slice(),
        ) {
            let a = &assets[i];
            assert(is_platform_archive(assets@[i as int].name@, platform_suffix(platform)));
            assert(assets@[i as int] == *a);
            return Some(a);
        }
        i = i + 1;
    }
    None
}


// ---------------------------------------------------------------------------
// Reading string values out of the API's JSON
// ---------------------------------------------------------------------------

/// `"key":` as it introduces a field.
pub open spec fn key_needle(key: Seq<char>) -> Seq<char> {
    seq!['"'] + key + seq!['"', ':']
}

/// The text of a JSON string body up to its closing quote: a backslash keeps
/// the character after it, whatever it is; the text ends at an unescaped `"`
/// or at the end of the input.
pub open spec fn unescape(s: Seq<char>, escaped: bool) -> Seq<char>
    decreases s.len(),
{
    if s.len() == 0 {
        Seq::empty()
    } else if escaped {
        seq![s[0]] + unescape(s.drop_first(), false)
    } else if s[0] == '\\' {
        unescape(s.drop_first(), true)
    } else if s[0] == '"' {
        Seq::empty()
    } else {
        seq![s[0]] + unescape(s.drop_first(), false)
    }
}

/// The string value that `s` starts with, after optional whitespace.
pub open spec fn quoted_value(s: Seq<char>) -> Option<Seq<char>> {
    let rest = trim_start(s);
    if rest.len() > 0 && rest[0] == '"' {
        Some(unescape(rest.drop_first(), false))
    } else {
        None
    }
}

/// The value of the first field introduced by `needle`, when a string follows it.
pub open spec fn extract_with(s: Seq<char>, needle: Seq<char>) -> Option<Seq<char>> {
    match find_from(s, needle, 0) {
        Some(i) => quoted_value(s.skip(i + needle.len())),
        None => None,
    }
}

/// The string value of the first `"key":` in `json` (`None` when the key is
/// missing or no string follows it).
pub open spec fn extract_spec(json: Seq<char>, key: Seq<char>) -> Option<Seq<char>> {
    extract_with(json, key_needle(key))
}

/// Reads the string value at the start of `v[lo..hi]` (see `quoted_value`).
fn read_quoted(v: &[char], lo: usize, hi: usize) -> (r: Option<String>)
    requires
        lo <= hi <= v@.len(),
    ensures
        opt_string(r) == quoted_value(v@.subrange(lo as int, hi as int)),
{
    let p = trim_start_range(v, lo, hi);
    if p == hi || v[p] != '"' {
        assert(p < hi ==> v@.subrange(p as int, hi as int)[0] == v@[p as int]);
        return None;
    }
    let ghost rest = v@.subrange(p as int, hi as int);
    assert(rest[0] == v@[p as int]);
    assert(rest.drop_first() =~= v@.subrange(p + 1, hi as int));
    let mut value = String::new();
    let mut escaped = false;
    let mut i = p + 1;
    while i < hi
        invariant_except_break
            p + 1 <= i <= hi <= v@.len(),
            value@ + unescape(v@.subrange(i as int, hi as int), escaped) == unescape(
                v@.subrange(p + 1, hi as int),
                false,
            ),
        ensures
            value@ == unescape(v@.subrange(p + 1, hi as int), false),
        decreases hi - i,
    {
        let c = v[i];
        let ghost sub = v@.subrange(i as int, hi as int);
        assert(sub[0] == c);
        assert(sub.drop_first() =~= v@.subrange(i + 1, hi as int));
        let ghost before = value@;
        if escaped {
            push_char(&mut value, c);
            escaped = false;
            assert(value@ + unescape(v@.subrange(i + 1, hi as int), escaped) =~= before
                + unescape(sub, true));
        } else if c == '\\' {
            escaped = true;
        } else if c == '"' {
            assert(unescape(sub, false) =~= Seq::<char>::empty());
            assert(value@ =~= value@ + unescape(sub, false));
            break ;
        } else {
            push_char(&mut value, c);
            assert(value@ + unescape(v@.subrange(i + 1, hi as int), escaped) =~= before
                + unescape(sub, false));
        }
        i = i + 1;
    }
    proof {
        if i == hi {
            assert(v@.subrange(i as int, hi as int) =~= Seq::<char>::empty());
            assert(value@ =~= value@ + unescape(v@.subrange(i as int, hi as int), escaped));
        }
    }
    Some(value)
}

/// The value of the first field introduced by `needle` in `v[lo..hi]`.
fn extract_range(v: &[char], lo: usize, hi: usize, needle: &[char]) -> (r: Option<String>)
    requires
        lo <= hi <= v@.len(),
    ensures
        opt_string(r) == extract_with(v@.subrange(lo as int, hi as int), needle@),
{
    let ghost s = v@.subrange(lo as int, hi as int);
    let sub = &v[lo..hi];
    assert(sub@ == s);
    match find_from_exec(sub, needle, 0) {
        Some(i) => {
            proof {
                lemma_find_from(s, needle@, 0int);
            }
            assert(s.skip(i + needle@.len()) =~= v@.subrange(lo + i + needle@.len(), hi as int));
            read_quoted(v, lo + i + needle.len(), hi)
        },
        None => None,
    }
}

/// Escaping can be read from the front: the first character's escape comes first.
proof fn lemma_escape_front(c: char, v: Seq<char>)
    ensures
        json_escape_spec(seq![c] + v) == escape_char(c) + json_escape_spec(v),
    decreases v.len(),
{
    let w = seq![c] + v;
    if v.len() == 0 {
        assert(w.drop_last() =~= Seq::<char>::empty());
        assert(json_escape_spec(w.drop_last()) =~= Seq::<char>::empty());
        assert(w.last() == c);
        assert(json_escape_spec(w) =~= escape_char(c));
        assert(json_escape_spec(v) =~= Seq::<char>::empty());
    } else {
        assert(w.drop_last() =~= seq![c] + v.drop_last());
        lemma_escape_front(c, v.drop_last());
        assert(json_escape_spec(w) =~= escape_char(c) + json_escape_spec(v));
    }
}

/// One escaped character keeps a valid JSON string body valid.
proof fn lemma_escape_char_body(c: char, t: Seq<char>)
    requires
        json_string_body(t),
    ensures
        json_string_body(escape_char(c) + t),
{
    let s = escape_char(c) + t;
    if c == '\\' || c == '"' || c == '\n' || c == '\r' || c == '\t' {
        assert(s.skip(2) =~= t);
    } else if (c as u32) < 0x20 {
        let n = c as u32;
        assert(is_hex_digit(hex_char(n / 16)));
        assert(is_hex_digit(hex_char(n % 16)));
        assert(s.skip(6) =~= t);
    } else {
        assert(s.drop_first() =~= t);
    }
}

/// Escaped text is a valid JSON string body: whatever a path holds, the
/// JSON plan's `output_path` is a well-formed JSON string.
pub proof fn law_json_escape_is_json_string(v: Seq<char>)
    ensures
        json_string_body(json_escape_spec(v)),
    decreases v.len(),
{
    if v.len() == 0 {
        assert(json_escape_spec(v) =~= Seq::<char>::empty());
    } else {
        let c = v[0];
        let rest = v.drop_first();
        assert(v =~= seq![c] + rest);
        lemma_escape_front(c, rest);
        law_json_escape_is_json_string(rest);
        lemma_escape_char_body(c, json_escape_spec(rest));
    }
}

/// Decoding one escaped character gives it back.
proof fn lemma_decode_escape_char(c: char, t: Seq<char>)
    ensures
        json_decode(escape_char(c) + t) == seq![c] + json_decode(t),
{
    let s = escape_char(c) + t;
    if c == '\\' || c == '"' || c == '\n' || c == '\r' || c == '\t' {
        assert(s.skip(2) =~= t);
    } else if (c as u32) < 0x20 {
        let n = c as u32;
        let hi = hex_char(n / 16);
        let lo = hex_char(n % 16);
        assert(hex_digit_value(hi) == n / 16);
        assert(hex_digit_value(lo) == n % 16);
        assert(hex_digit_value('0') == 0);
        assert(s[2] == '0' && s[3] == '0');
        assert(s.skip(6) =~= t);
        assert((n as int) as char == c);
    } else {
        assert(s.drop_first() =~= t);
    }
}

/// Decoding escaped text gives the text back, whatever it holds: the JSON
/// plan's `output_path` decodes to the plan's output path.
pub proof fn law_json_escape_decodes(v: Seq<char>)
    ensures
        json_decode(json_escape_spec(v)) == v,
    decreases v.len(),
{
    if v.len() == 0 {
        assert(json_escape_spec(v) =~= Seq::<char>::empty());
    } else {
        let c = v[0];
        let rest = v.drop_first();
        assert(v =~= seq![c] + rest);
        lemma_escape_front(c, rest);
        law_json_escape_decodes(rest);
        lemma_decode_escape_char(c, json_escape_spec(rest));
    }
}

/// Reading an escaped string up to its closing quote gives the original text,
/// for text without control characters (those are written as `\n`, `\u00XX`
/// and so on, which the reader keeps as written).
proof fn lemma_unescape_escape(v: Seq<char>, tail: Seq<char>)
    requires
        no_controls(v),
    ensures
        unescape(json_escape_spec(v) + seq!['"'] + tail, false) == v,
    decreases v.len(),
{
    if v.len() == 0 {
        assert(json_escape_spec(v) =~= Seq::<char>::empty());
        assert((json_escape_spec(v) + seq!['"'] + tail)[0] == '"');
    } else {
        let c = v[0];
        let rest = v.drop_first();
        assert(v =~= seq![c] + rest);
        assert((c as u32) >= 0x20);
        assert(no_controls(rest)) by {
            assert forall|i: int| 0 <= i < rest.len() implies (#[trigger] rest[i] as u32) >= 0x20 by {
                assert(rest[i] == v[i + 1]);
            }
        }
        lemma_escape_front(c, rest);
        lemma_unescape_escape(rest, tail);
        let after = json_escape_spec(rest) + seq!['"'] + tail;
        let s = json_escape_spec(v) + seq!['"'] + tail;
        assert(s =~= escape_char(c) + after);
        if c == '\\' || c == '"' {
            assert(s.drop_first() =~= seq![c] + after);
            assert((seq![c] + after).drop_first() =~= after);
            assert(unescape(s, false) == unescape(seq![c] + after, true));
            assert(unescape(s, false) =~= seq![c] + unescape(after, false));
        } else {
            assert(s.drop_first() =~= after);
            assert(unescape(s, false) =~= seq![c] + unescape(after, false));
        }
    }
}

/// A field written as `"key":"` + escaped text + `"` reads back as the text:
/// `extract_json_string` undoes `json_escape` for text without control
/// characters (the reader keeps `\n` as the two characters it reads).
pub proof fn law_extract_reads_escaped_field(key: Seq<char>, value: Seq<char>, tail: Seq<char>)
    requires
        no_controls(value),
    ensures
        extract_spec(key_needle(key) + seq!['"'] + json_escape_spec(value) + seq!['"'] + tail, key)
            == Some(value),
{
    let n = key_needle(key);
    let body = seq!['"'] + json_escape_spec(value) + seq!['"'] + tail;
    let doc = key_needle(key) + seq!['"'] + json_escape_spec(value) + seq!['"'] + tail;
    assert(doc =~= n + body);
    assert(matches_at(doc, n, 0)) by {
        assert forall|j: int| 0 <= j < n.len() implies #[trigger] doc[0 + j] == n[j] by {
            assert(doc[j] == n[j]);
        }
    }
    assert(find_from(doc, n, 0) == Some(0int));
    assert(doc.skip(n.len() as int) =~= body);
    assert(trim_start(body) == body);
    assert(body.drop_first() =~= json_escape_spec(value) + seq!['"'] + tail);
    lemma_unescape_escape(value, tail);
}

/// No `"output_path":` occurs inside the part of a JSON plan before that field.
proof fn lemma_plan_prefix_has_no_path_key(
    label: Seq<char>,
    dw: Seq<char>,
    dh: Seq<char>,
    rest: Seq<char>,
)
    requires
        label == "9:16"@ || label == "16:9"@ || label == "auto"@,
        all_digits(dw),
        all_digits(dh),
    ensures
        ({
            let doc = "{\"target\":\""@ + label + "\",\"output_width\":"@ + dw
                + ",\"output_height\":"@ + dh + ",\"output_path\":\""@ + rest;
            let pre = 11 + label.len() as int + 17 + dw.len() + 17 + dh.len() + 1;
            &&& matches_at(doc, key_needle("output_path"@), pre)
            &&& forall|i: int| 0 <= i < pre ==> !#[trigger] matches_at(
                doc,
                key_needle("output_path"@),
                i,
            )
        }),
{
    reveal_strlit("{\"target\":\"");
    reveal_strlit("\",\"output_width\":");
    reveal_strlit(",\"output_height\":");
    reveal_strlit(",\"output_path\":\"");
    reveal_strlit("output_path");
    reveal_strlit("9:16");
    reveal_strlit("16:9");
    reveal_strlit("auto");
    let a = "{\"target\":\""@;
    let b = "\",\"output_width\":"@;
    let c = ",\"output_height\":"@;
    let d = ",\"output_path\":\""@;
    let n = key_needle("output_path"@);
    let doc = a + label + b + dw + c + dh + d + rest;
    let r1 = 11int;
    let r2 = r1 + label.len();
    let r3 = r2 + 17;
    let r4 = r3 + dw.len();
    let r5 = r4 + 17;
    let r6 = r5 + dh.len();
    let pre = r6 + 1;
    assert(a.len() == 11 && b.len() == 17 && c.len() == 17 && d.len() == 16);
    assert(n =~= seq!['"', 'o', 'u', 't', 'p', 'u', 't', '_', 'p', 'a', 't', 'h', '"', ':']);
    assert(label.len() == 4);
    assert(label[0] != 'o' && label[0] != '"' && label[1] != '"' && label[2] != '"' && label[3]
        != '"');
    assert forall|j: int| 0 <= j < r1 implies doc[j] == a[j] by {}
    assert forall|j: int| r1 <= j < r2 implies doc[j] == label[j - r1] by {}
    assert forall|j: int| r2 <= j < r3 implies doc[j] == b[j - r2] by {}
    assert forall|j: int| r3 <= j < r4 implies doc[j] == dw[j - r3] by {}
    assert forall|j: int| r4 <= j < r5 implies doc[j] == c[j - r4] by {}
    assert forall|j: int| r5 <= j < r6 implies doc[j] == dh[j - r5] by {}
    assert forall|j: int| r6 <= j < r6 + 16 implies doc[j] == d[j - r6] by {}
    assert(matches_at(doc, n, pre)) by {
        assert forall|k: int| 0 <= k < n.len() implies #[trigger] doc[pre + k] == n[k] by {
            assert(doc[pre + k] == d[k + 1]);
        }
    }
    assert forall|i: int| 0 <= i < pre implies !#[trigger] matches_at(doc, n, i) by {
        if matches_at(doc, n, i) {
            assert(doc[i + 0] == n[0]);
            assert(doc[i + 1] == n[1]);
            assert(doc[i + 8] == n[8]);
            if r3 <= i < r4 {
                assert(is_digit(dw[i - r3]));
            } else if r5 <= i < r6 {
                assert(is_digit(dh[i - r5]));
            }
        }
    }
}

/// A JSON plan's `output_path` field reads back as the plan's output path
/// when the path holds no control character.
pub proof fn law_json_plan_output_path_reads_back(plan: Plan, fill: Fill)
    requires
        no_controls(plan.output@),
    ensures
        extract_spec(json_plan_spec(plan, fill), "output_path"@) == Some(plan.output@),
{
    let label = target_label(plan.target);
    let dw = decimal(plan.out_w as nat);
    let dh = decimal(plan.out_h as nat);
    lemma_decimal(plan.out_w as nat);
    lemma_decimal(plan.out_h as nat);
    let esc = json_escape_spec(plan.output@);
    let tail = "\",\"fill\":\""@ + fill_label(fill) + "\"}"@;
    reveal_strlit("\",\"fill\":\"");
    reveal_strlit(",\"output_path\":\"");
    let rest = esc + tail;
    lemma_plan_prefix_has_no_path_key(label, dw, dh, rest);
    let doc = "{\"target\":\""@ + label + "\",\"output_width\":"@ + dw + ",\"output_height\":"@
        + dh + ",\"output_path\":\""@ + rest;
    assert(doc =~= json_plan_spec(plan, fill));
    let n = key_needle("output_path"@);
    let pre = 11 + label.len() as int + 17 + dw.len() + 17 + dh.len() + 1;
    lemma_find_from(doc, n, 0);
    assert(find_from(doc, n, 0) == Some(pre));
    reveal_strlit("output_path");
    assert(n.len() == 14);
    reveal_strlit("{\"target\":\"");
    reveal_strlit("\",\"output_width\":");
    reveal_strlit(",\"output_height\":");
    let q = "{\"target\":\""@ + label + "\",\"output_width\":"@ + dw + ",\"output_height\":"@
        + dh + ",\"output_path\":\""@;
    assert(q.len() == pre + 15);
    assert(doc =~= q + rest);
    assert(q[pre + 14] == ",\"output_path\":\""@[15]);
    assert(q[pre + 14] == '"');
    let body = doc.skip(pre + 14);
    assert(body =~= seq!['"'] + esc + tail);
    assert(trim_start(body) == body);
    assert(tail[0] == '"');
    assert(tail =~= seq!['"'] + tail.drop_first());
    assert(body.drop_first() =~= esc + seq!['"'] + tail.drop_first());
    lemma_unescape_escape(plan.output@, tail.drop_first());
}

/// `"key":` as characters.
fn needle_for(key: &str) -> (r: Vec<char>)
    ensures
        r@ == key_needle(key@),
{
    let mut n: Vec<char> = Vec::new();
    n.push('"');
    let k = chars_of(key);
    let mut i: usize = 0;
    while i < k.len()
        invariant
            i <= k@.len(),
            n@ == seq!['"'] + k@.take(i as int),
        decreases k@.len() - i,
    {
        n.push(k[i]);
        i = i + 1;
        assert(n@ =~= seq!['"'] + k@.take(i as int));
    }
    n.push('"');
    n.push(':');
    assert(k@.take(k@.len() as int) =~= k@);
    assert(n@ =~= key_needle(key@));
    n
}

/// The string value of the first `"key":` in `json`: optional whitespace
/// after the colon, then a string whose `\`-escaped characters are kept.
pub fn extract_json_string(json: &str, key: &str) -> (r: Option<String>)
    ensures
        opt_string(r) == extract_spec(json@, key@),
{
    let v = chars_of(json);
    let needle = needle_for(key);
    assert(v@.subrange(0, v@.len() as int) =~= v@);
    extract_range(v.as_slice(), 0, v.len(), needle.as_slice())
}

/// The value of the last field introduced by `needle` in `s` at or after
/// `pos` that has a string value, or `acc` when there is none. Each search
/// resumes after the previous `needle`.
pub open spec fn last_value_from(
    s: Seq<char>,
    needle: Seq<char>,
    pos: int,
    acc: Option<Seq<char>>,
) -> Option<Seq<char>>
    decreases s.len() - pos,
{
    if needle.len() == 0 || pos < 0 || pos > s.len() {
        acc
    } else {
        match find_from(s, needle, pos) {
            Some(i) => if pos <= i && i + needle.len() <= s.len() {
                last_value_from(
                    s,
                    needle,
                    i + needle.len(),
                    match quoted_value(s.skip(i + needle.len())) {
                        Some(v) => Some(v),
                        None => acc,
                    },
                )
            } else {
                acc
            },
            None => acc,
        }
    }
}

/// The string value of the last `"key":` in `s` that has one.
pub open spec fn last_json_string_spec(s: Seq<char>, key: Seq<char>) -> Option<Seq<char>> {
    last_value_from(s, key_needle(key), 0, None)
}

/// The value of the last field introduced by `needle` in `v[lo..hi]`.
fn last_value_range(v: &[char], lo: usize, hi: usize, needle: &[char]) -> (r: Option<String>)
    requires
        lo <= hi <= v@.len(),
        needle@.len() > 0,
    ensures
        opt_string(r) == last_value_from(v@.subrange(lo as int, hi as int), needle@, 0, None),
{
    let ghost s = v@.subrange(lo as int, hi as int);
    let sub = &v[lo..hi];
    assert(sub@ == s);
    let mut last: Option<String> = None;
    let mut pos: usize = 0;
    loop
        invariant
            sub@ == s,
            s == v@.subrange(lo as int, hi as int),
            lo <= hi <= v@.len(),
            needle@.len() > 0,
            pos <= s.len(),
            last_value_from(s, needle@, 0, None) == last_value_from(
                s,
                needle@,
                pos as int,
                opt_string(last),
            ),
        decreases s.len() + 1 - pos,
    {
        match find_from_exec(sub, needle, pos) {
            Some(i) => {
                proof {
                    lemma_find_from(s, needle@, pos as int);
                }
                let end = i + needle.len();
                assert(s.skip(end as int) =~= v@.subrange(lo + end, hi as int));
                match read_quoted(v, lo + end, hi) {
                    Some(value) => {
                        last = Some(value);
                    },
                    None => {},
                }
                pos = end;
            },
            None => {
                return last;
            },
        }
    }
}

/// The string value of the last `"key":` in `s` that has one.
pub fn find_last_json_string(s: &str, key: &str) -> (r: Option<String>)
    ensures
        opt_string(r) == last_json_string_spec(s@, key@),
{
    let v = chars_of(s);
    let needle = needle_for(key);
    assert(v@.subrange(0, v@.len() as int) =~= v@);
    last_value_range(v.as_slice(), 0, v.len(), needle.as_slice())
}


// ---------------------------------------------------------------------------
// The asset list
// ---------------------------------------------------------------------------

/// Each asset is found by its download URL field.
pub open spec fn url_marker() -> Seq<char> {
    "\"browser_download_url\""@
}

/// How far before a URL field the asset's name is looked for, in bytes.
pub open spec fn name_window() -> int {
    2048
}

/// The character index where the name window before the URL field at
/// character `a` begins: 2048 bytes back, or the start of the text. `None`
/// when that byte offset falls inside a character, where slicing the text
/// there panics.
pub open spec fn window_start(s: Seq<char>, a: int) -> Option<int> {
    let b = utf8_len(s.take(a));
    if b < name_window() {
        Some(0)
    } else {
        char_at_byte(s, b - name_window())
    }
}

/// The URL of the field at `a` (empty when no string value follows it).
pub open spec fn url_at(s: Seq<char>, a: int) -> Seq<char> {
    match extract_spec(s.skip(a), "browser_download_url"@) {
        Some(u) => u,
        None => Seq::empty(),
    }
}

/// The asset a URL field at `a` contributes: the last `name` before it within
/// the window, with the URL, when both are non-empty.
pub open spec fn asset_at(s: Seq<char>, a: int) -> Seq<(Seq<char>, Seq<char>)> {
    match window_start(s, a) {
        Some(w) => match last_json_string_spec(s.subrange(w, a), "name"@) {
            Some(n) => if n.len() > 0 && url_at(s, a).len() > 0 {
                seq![(n, url_at(s, a))]
            } else {
                Seq::empty()
            },
            None => Seq::empty(),
        },
        None => Seq::empty(),
    }
}

/// The assets of every URL field at or after `pos`, in order.
pub open spec fn assets_from(s: Seq<char>, pos: int) -> Seq<(Seq<char>, Seq<char>)>
    decreases s.len() - pos,
{
    if pos < 0 || pos > s.len() {
        Seq::empty()
    } else {
        match find_from(s, url_marker(), pos) {
            Some(a) => if pos <= a < s.len() {
                asset_at(s, a) + assets_from(s, a + 1)
            } else {
                Seq::empty()
            },
            None => Seq::empty(),
        }
    }
}

/// No URL field sits where its name window would start inside a character.
pub open spec fn assets_parse_safely(s: Seq<char>) -> bool {
    forall|a: int| #[trigger] matches_at(s, url_marker(), a) ==> window_start(s, a) is Some
}

pub open spec fn asset_view(a: ReleaseAsset) -> (Seq<char>, Seq<char>) {
    (a.name@, a.browser_download_url@)
}

pub open spec fn asset_views(v: Seq<ReleaseAsset>) -> Seq<(Seq<char>, Seq<char>)> {
    v.map_values(|a: ReleaseAsset| asset_view(a))
}

/// Lists the assets in a releases API response: for each download URL, the
/// closest preceding `name` within 2048 bytes; assets with an empty name or
/// URL are skipped.
pub fn parse_assets(json: &str) -> (r: Vec<ReleaseAsset>)
    requires
        assets_parse_safely(json@),
    ensures
        asset_views(r@) == assets_from(json@, 0),
{
    let v = chars_of(json);
    let marker = chars_of("\"browser_download_url\"");
    let url_needle = needle_for("browser_download_url");
    let name_needle = needle_for("name");
    proof {
        reveal_strlit("\"browser_download_url\"");
        reveal_strlit("name");
    }
    assert(marker@.len() > 0);
    let mut assets: Vec<ReleaseAsset> = Vec::new();
    let mut pos: usize = 0;
    loop
        invariant
            v@ == json@,
            marker@ == url_marker(),
            marker@.len() > 0,
            url_needle@ == key_needle("browser_download_url"@),
            name_needle@ == key_needle("name"@),
            name_needle@.len() > 0,
            assets_parse_safely(v@),
            pos <= v@.len(),
            asset_views(assets@) + assets_from(v@, pos as int) == assets_from(v@, 0),
        decreases v@.len() + 1 - pos,
    {
        let a = match find_from_exec(v.as_slice(), marker.as_slice(), pos) {
            Some(a) => a,
            None => {
                assert(assets_from(v@, pos as int) =~= Seq::empty());
                assert(asset_views(assets@) =~= asset_views(assets@) + Seq::<(Seq<char>, Seq<char>)>::empty());
                return assets;
            },
        };
        proof {
            lemma_find_from(v@, marker@, pos as int);
        }
        assert(v@.subrange(a as int, v@.len() as int) =~= v@.skip(a as int));
        let url = match extract_range(v.as_slice(), a, v.len(), url_needle.as_slice()) {
            Some(u) => u,
            None => String::new(),
        };
        assert(url@ == url_at(v@, a as int));
        let b = utf8_len_prefix(v.as_slice(), a);
        let w = if b < 2048 {
            0
        } else {
            match char_index_at_byte(v.as_slice(), a, b - 2048) {
                Some(w) => w,
                None => {
                    assert(window_start(v@, a as int) is Some);
                    assert(false);
                    0
                },
            }
        };
        assert(window_start(v@, a as int) == Some(w as int));
        proof {
            if b >= 2048 {
                let j = choose|j: int| 0 <= j <= v@.len() && #[trigger] utf8_len(v@.take(j)) == b - 2048;
                if j > a {
                    crate::text::lemma_utf8_len_increasing(v@, a as int, j);
                }
            }
        }
        assert(w <= a);
        let ghost entry = asset_at(v@, a as int);
        let ghost before = asset_views(assets@);
        match last_value_range(v.as_slice(), w, a, name_needle.as_slice()) {
            Some(name) => {
                if !name.as_str().is_empty() && !url.as_str().is_empty() {
                    proof {
                        reveal_strlit("");
                    }
                    assets.push(ReleaseAsset { name, browser_download_url: url.clone() });
                    assert(asset_views(assets@) =~= before + entry);
                } else {
                    assert(entry =~= Seq::<(Seq<char>, Seq<char>)>::empty());
                    assert(asset_views(assets@) =~= before + entry);
                }
            },
            None => {
                assert(asset_views(assets@) =~= before + entry);
            },
        }
        assert(assets_from(v@, pos as int) == entry + assets_from(v@, a + 1));
        assert(asset_views(assets@) + assets_from(v@, a + 1) =~= before + assets_from(
            v@,
            pos as int,
        ));
        pos = a + 1;
    }
}

/// Whether `parse_assets` would slice a character in two on this text (see
/// `assets_parse_safely`); callers test it before parsing.
pub fn assets_would_panic(json: &str) -> (r: bool)
    ensures
        r == !assets_parse_safely(json@),
{
    let v = chars_of(json);
    let marker = chars_of("\"browser_download_url\"");
    proof {
        reveal_strlit("\"browser_download_url\"");
    }
    let mut pos: usize = 0;
    loop
        invariant
            v@ == json@,
            marker@ == url_marker(),
            marker@.len() > 0,
            pos <= v@.len(),
            forall|a: int|
                0 <= a < pos && #[trigger] matches_at(v@, url_marker(), a) ==> window_start(
                    v@,
                    a,
                ) is Some,
        decreases v@.len() + 1 - pos,
    {
        let a = match find_from_exec(v.as_slice(), marker.as_slice(), pos) {
            Some(a) => a,
            None => {
                proof {
                    lemma_find_from(v@, marker@, pos as int);
                }
                return false;
            },
        };
        proof {
            lemma_find_from(v@, marker@, pos as int);
        }
        let b = utf8_len_prefix(v.as_slice(), a);
        if b >= 2048 {
            if char_index_at_byte(v.as_slice(), a, b - 2048).is_none() {
                return true;
            }
        }
        pos = a + 1;
    }
}

/// Whether `parse_release_json` would slice a character in two on this text
/// (see `release_parses_safely`).
pub fn release_would_panic(json: &str) -> (r: bool)
    ensures
        r == !release_parses_safely(json@),
{
    let tag = match extract_json_string(json, "tag_name") {
        Some(t) => t,
        None => return false,
    };
    if parse_semver(tag.as_str()).is_none() {
        return false;
    }
    assets_would_panic(json)
}

// ---------------------------------------------------------------------------
// The release
// ---------------------------------------------------------------------------

/// Why a releases API response could not be read.
#[derive(Copy, Clone, Debug, PartialEq, Eq, Structural)]
pub enum ReleaseError {
    /// No `tag_name` string.
    MissingTag,
    /// The tag is not a version.
    BadVersion,
}

impl ReleaseError {
    pub fn message(&self) -> (r: &'static str)
        ensures
            r@ == (match *self {
                ReleaseError::MissingTag => "could not find tag_name in GitHub API response"@,
                ReleaseError::BadVersion => "could not parse semver from tag"@,
            }),
    {
        match self {
            ReleaseError::MissingTag => "could not find tag_name in GitHub API response",
            ReleaseError::BadVersion => "could not parse semver from tag",
        }
    }
}

/// `major.minor.patch` as text.
pub open spec fn version_text(v: (u32, u32, u32)) -> Seq<char> {
    decimal(v.0 as nat) + "."@ + decimal(v.1 as nat) + "."@ + decimal(v.2 as nat)
}

/// A release: the version of its `tag_name` and its assets.
pub open spec fn release_spec(json: Seq<char>) -> Result<
    (Seq<char>, Seq<(Seq<char>, Seq<char>)>),
    ReleaseError,
> {
    match extract_spec(json, "tag_name"@) {
        None => Err(ReleaseError::MissingTag),
        Some(tag) => match semver_spec(tag) {
            None => Err(ReleaseError::BadVersion),
            Some(ver) => Ok((version_text(ver), assets_from(json, 0))),
        },
    }
}

/// The assets are read only once the tag is; only then can their window panic.
pub open spec fn release_parses_safely(json: Seq<char>) -> bool {
    (extract_spec(json, "tag_name"@) matches Some(tag) && semver_spec(tag) is Some)
        ==> assets_parse_safely(json)
}

/// Reads the latest release from a releases API response.
pub fn parse_release_json(json: &str) -> (r: Result<ReleaseInfo, ReleaseError>)
    requires
        release_parses_safely(json@),
    ensures
        match (r, release_spec(json@)) {
            (Ok(info), Ok((version, assets))) => info.version@ == version && asset_views(
                info.assets@,
            ) == assets,
            (Err(e), Err(f)) => e == f,
            _ => false,
        },
{
    let tag = match extract_json_string(json, "tag_name") {
        Some(t) => t,
        None => return Err(ReleaseError::MissingTag),
    };
    let (ma, mi, pa) = match parse_semver(tag.as_str()) {
        Some(v) => v,
        None => return Err(ReleaseError::BadVersion),
    };
    let mut version = decimal_string(ma);
    version.append(".");
    version.append(decimal_string(mi).as_str());
    version.append(".");
    version.append(decimal_string(pa).as_str());
    assert(version@ =~= version_text((ma, mi, pa)));
    let assets = parse_assets(json);
    Ok(ReleaseInfo { version, assets })
}


// ---------------------------------------------------------------------------
// Installing a downloaded release
// ---------------------------------------------------------------------------

/// How a release archive is unpacked.
#[derive(Copy, Clone, Debug, PartialEq, Eq, Structural)]
pub enum ArchiveKind {
    TarGz,
    Zip,
}

pub open spec fn archive_kind_spec(name: Seq<char>) -> Option<ArchiveKind> {
    if ends_with(name, ".tar.gz"@) || ends_with(name, ".tgz"@) {
        Some(ArchiveKind::TarGz)
    } else if ends_with(name, ".zip"@) {
        Some(ArchiveKind::Zip)
    } else {
        None
    }
}

/// The archive format an asset name announces; `None` for an unknown one.
pub fn archive_kind(name: &str) -> (r: Option<ArchiveKind>)
    ensures
        r == archive_kind_spec(name@),
{
    let v = chars_of(name);
    if ends_with_exec(v.as_slice(), chars_of(".tar.gz").as_slice()) || ends_with_exec(
        v.as_slice(),
        chars_of(".tgz").as_slice(),
    ) {
        Some(ArchiveKind::TarGz)
    } else if ends_with_exec(v.as_slice(), chars_of(".zip").as_slice()) {
        Some(ArchiveKind::Zip)
    } else {
        None
    }
}

/// The error for an asset of unknown format.
pub fn unknown_archive_message(name: &str) -> (r: String)
    ensures
        r@ == "unknown archive format: "@ + name@,
{
    let mut s = "unknown archive format: ".to_owned();
    s.append(name);
    s
}

/// The hidden file a new binary is staged in beside the old one:
/// `.{exe}.new`.
pub fn staging_file_name(exe_file_name: &str) -> (r: String)
    ensures
        r@ == "."@ + exe_file_name@ + ".new"@,
{
    let mut s = ".".to_owned();
    s.append(exe_file_name);
    s.append(".new");
    s
}

/// Where Windows moves the running binary aside: `{exe}.old`.
pub fn old_binary_file_name(exe_file_name: &str) -> (r: String)
    ensures
        r@ == exe_file_name@ + ".old"@,
{
    let mut s = exe_file_name.to_owned();
    s.append(".old");
    s
}

/// The per-process working directory of an update: `vertify-update-{pid}`.
pub fn update_dir_name(pid: u32) -> (r: String)
    ensures
        r@ == "vertify-update-"@ + decimal(pid as nat),
{
    let mut s = "vertify-update-".to_owned();
    s.append(decimal_string(pid).as_str());
    s
}

/// The user agent sent to GitHub: `vertify/{version}`.
pub fn user_agent(version: &str) -> (r: String)
    ensures
        r@ == "vertify/"@ + version@,
{
    let mut s = "vertify/".to_owned();
    s.append(version);
    s
}

} // verus!

verus! {

/// Versions compare as numbers, most significant part first: a larger major
/// number is newer whatever follows; with equal majors a larger minor number
/// is newer (so `0.10.0` is newer than `0.9.0`); with equal majors and minors
/// a larger patch; a version is never newer than an equal or larger one.
/// The same holds of the version texts `major.minor.patch` themselves.
pub proof fn law_is_newer_numeric(
    l: Seq<char>,
    c: Seq<char>,
    x: (u32, u32, u32),
    y: (u32, u32, u32),
)
    requires
        semver_spec(l) == Some(x),
        semver_spec(c) == Some(y),
    ensures
        x.0 > y.0 ==> is_newer_spec(l, c),
        x.0 == y.0 && x.1 > y.1 ==> is_newer_spec(l, c),
        x.0 == y.0 && x.1 == y.1 && x.2 > y.2 ==> is_newer_spec(l, c),
        x.0 < y.0 ==> !is_newer_spec(l, c),
        x.0 == y.0 && x.1 < y.1 ==> !is_newer_spec(l, c),
        x.0 == y.0 && x.1 == y.1 && x.2 <= y.2 ==> !is_newer_spec(l, c),
        is_newer_spec(version_text(x), version_text(y)) == is_newer_spec(l, c),
{
    law_version_text_parses_back(x);
    law_version_text_parses_back(y);
}

} // verus!
