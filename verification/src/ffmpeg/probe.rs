//! Encoder discovery.
//!
//! `ffmpeg -encoders` only lists compiled-in encoders, not whether a driver
//! is present, so discovery parses that list for candidates and then checks
//! each candidate with a 1-frame encode. `h264_vulkan` is manual-select only.

use crate::ipc_types::EncoderInfo;
use crate::text::{chars_of, is_ws, owned, push_lit, str_eq, str_views, string_of, views, ws};
use vstd::prelude::*;

verus! {

/// Candidates for auto-selection, in priority order.
pub const AUTO_CANDIDATES: [&'static str; 4] = ["h264_nvenc", "h264_qsv", "h264_amf", "h264_vaapi"];

/// The manual-select list shown in the UI (vulkan included).
pub const MANUAL_ENCODERS: [&'static str; 7] = [
    "auto",
    "libx264",
    "h264_nvenc",
    "h264_qsv",
    "h264_amf",
    "h264_vaapi",
    "h264_vulkan",
];

/// The number of leading white-space characters of `s` from `i` on.
pub open spec fn ws_run(s: Seq<char>, i: int) -> int
    decreases s.len() - i,
{
    if i < 0 || i >= s.len() || !is_ws(s[i]) {
        0
    } else {
        1 + ws_run(s, i + 1)
    }
}

/// The position after the flag field where the encoder name starts: the
/// first space after at least one upper-case flag letter; none when a
/// lower-case letter comes first (a description line).
pub open spec fn name_start(t: Seq<char>, j: int, saw_letter: bool) -> Option<int>
    decreases t.len() - j,
{
    if j < 0 || j >= t.len() {
        None
    } else if 'A' <= t[j] && t[j] <= 'Z' {
        name_start(t, j + 1, true)
    } else if t[j] == ' ' && saw_letter {
        Some(j)
    } else if 'a' <= t[j] && t[j] <= 'z' {
        None
    } else {
        name_start(t, j + 1, saw_letter)
    }
}

/// The length of the run of non-white-space characters of `s` from `i` on.
pub open spec fn token_len(s: Seq<char>, i: int) -> int
    decreases s.len() - i,
{
    if i < 0 || i >= s.len() || is_ws(s[i]) {
        0
    } else {
        1 + token_len(s, i + 1)
    }
}

/// The encoder name listed on one line of `ffmpeg -encoders`, if any: after
/// leading white space, a flag field (upper-case letters and dots), a space,
/// then the first white-space separated word. A legend line
/// (`<flags> = <meaning>`) names no encoder.
pub open spec fn line_name(line: Seq<char>) -> Option<Seq<char>> {
    let t = line.skip(ws_run(line, 0));
    match name_start(t, 0, false) {
        Some(i) => {
            let k = i + ws_run(t, i);
            let n = token_len(t, k);
            if n > 0 && !(n == 1 && t[k] == '=') {
                Some(t.subrange(k, k + n))
            } else {
                None
            }
        },
        None => None,
    }
}

/// `s` split at each `c` (always at least one piece).
pub open spec fn split_on(s: Seq<char>, c: char) -> Seq<Seq<char>>
    decreases s.len(),
{
    if s.len() == 0 {
        seq![seq![]]
    } else if s.last() == c {
        split_on(s.drop_last(), c).push(seq![])
    } else {
        let p = split_on(s.drop_last(), c);
        p.update(p.len() - 1, p.last().push(s.last()))
    }
}

/// Encoder names of `lines` in order of first appearance, each once.
pub open spec fn names_of(lines: Seq<Seq<char>>) -> Seq<Seq<char>>
    decreases lines.len(),
{
    if lines.len() == 0 {
        seq![]
    } else {
        let prev = names_of(lines.drop_last());
        match line_name(lines.last()) {
            Some(n) => if prev.contains(n) {
                prev
            } else {
                prev.push(n)
            },
            None => prev,
        }
    }
}

/// The encoder names listed in an `ffmpeg -encoders` output.
pub open spec fn listed_encoders(output: Seq<char>) -> Seq<Seq<char>> {
    names_of(split_on(output, '\n'))
}

/// Every name appears once.
pub proof fn lemma_names_distinct(lines: Seq<Seq<char>>)
    ensures
        names_of(lines).no_duplicates(),
    decreases lines.len(),
{
    if lines.len() > 0 {
        lemma_names_distinct(lines.drop_last());
        let prev = names_of(lines.drop_last());
        match line_name(lines.last()) {
            Some(n) => if !prev.contains(n) {
                assert forall|a: int, b: int|
                    0 <= a < prev.push(n).len() && 0 <= b < prev.push(n).len() && a != b implies prev.push(
                    n,
                )[a] != prev.push(n)[b] by {
                    if a == prev.len() {
                        assert(prev[b] != n);
                    } else if b == prev.len() {
                        assert(prev[a] != n);
                    }
                }
            },
            None => {},
        }
    }
}

/// Index of the first non-white-space character of `s` at or after `i`.
fn skip_ws(s: &[char], i: usize) -> (k: usize)
    requires
        i <= s@.len(),
    ensures
        k == i + ws_run(s@, i as int),
        k <= s@.len(),
    decreases s@.len() - i,
{
    if i < s.len() && ws(s[i]) {
        skip_ws(s, i + 1)
    } else {
        i
    }
}

fn token_end(s: &[char], i: usize) -> (k: usize)
    requires
        i <= s@.len(),
    ensures
        k == i + token_len(s@, i as int),
        k <= s@.len(),
    decreases s@.len() - i,
{
    if i < s.len() && !ws(s[i]) {
        token_end(s, i + 1)
    } else {
        i
    }
}

fn find_name_start(t: &[char], j: usize, saw_letter: bool) -> (r: Option<usize>)
    requires
        j <= t@.len(),
    ensures
        match r {
            Some(i) => name_start(t@, j as int, saw_letter) == Some(i as int) && i < t@.len(),
            None => name_start(t@, j as int, saw_letter) is None,
        },
    decreases t@.len() - j,
{
    if j >= t.len() {
        None
    } else if 'A' <= t[j] && t[j] <= 'Z' {
        find_name_start(t, j + 1, true)
    } else if t[j] == ' ' && saw_letter {
        Some(j)
    } else if 'a' <= t[j] && t[j] <= 'z' {
        None
    } else {
        find_name_start(t, j + 1, saw_letter)
    }
}

fn sub_chars(s: &[char], from: usize, to: usize) -> (r: Vec<char>)
    requires
        from <= to <= s@.len(),
    ensures
        r@ == s@.subrange(from as int, to as int),
{
    let mut r: Vec<char> = Vec::new();
    let mut i = from;
    while i < to
        invariant
            from <= i <= to <= s@.len(),
            r@ == s@.subrange(from as int, i as int),
        decreases to - i,
    {
        r.push(s[i]);
        i = i + 1;
    }
    r
}

/// The encoder name on one line.
fn name_on_line(line: &[char]) -> (r: Option<Vec<char>>)
    ensures
        match r {
            Some(n) => line_name(line@) == Some(n@),
            None => line_name(line@) is None,
        },
{
    let start = skip_ws(line, 0);
    let t = sub_chars(line, start, line.len());
    assert(t@ == line@.skip(ws_run(line@, 0)));
    match find_name_start(&t, 0, false) {
        Some(i) => {
            let k = skip_ws(&t, i);
            let e = token_end(&t, k);
            if e > k && !(e == k + 1 && t[k] == '=') {
                Some(sub_chars(&t, k, e))
            } else {
                None
            }
        },
        None => None,
    }
}

fn chars_eq(a: &[char], b: &[char]) -> (r: bool)
    ensures
        r == (a@ == b@),
{
    if a.len() != b.len() {
        return false;
    }
    let mut i: usize = 0;
    while i < a.len()
        invariant
            a@.len() == b@.len(),
            i <= a@.len(),
            forall|j: int| 0 <= j < i ==> a@[j] == b@[j],
        decreases a@.len() - i,
    {
        if a[i] != b[i] {
            return false;
        }
        i = i + 1;
    }
    assert(a@ =~= b@);
    true
}

/// The views of a sequence of character vectors.
pub open spec fn char_views(v: Seq<Vec<char>>) -> Seq<Seq<char>> {
    v.map_values(|x: Vec<char>| x@)
}

fn contains_name(found: &Vec<Vec<char>>, name: &[char]) -> (r: bool)
    ensures
        r == char_views(found@).contains(name@),
{
    let mut i: usize = 0;
    while i < found.len()
        invariant
            i <= found@.len(),
            forall|j: int| 0 <= j < i ==> found@[j]@ != name@,
        decreases found@.len() - i,
    {
        if chars_eq(&found[i], name) {
            assert(char_views(found@)[i as int] == name@);
            return true;
        }
        i = i + 1;
    }
    assert forall|j: int| 0 <= j < char_views(found@).len() implies char_views(found@)[j] != name@ by {
        assert(char_views(found@)[j] == found@[j]@);
    }
    false
}

fn add_line(found: &mut Vec<Vec<char>>, line: &[char])
    ensures
        char_views(final(found)@) == (match line_name(line@) {
            Some(n) => if char_views(old(found)@).contains(n) {
                char_views(old(found)@)
            } else {
                char_views(old(found)@).push(n)
            },
            None => char_views(old(found)@),
        }),
{
    match name_on_line(line) {
        Some(n) => {
            if !contains_name(found, &n) {
                let ghost prev = found@;
                found.push(n);
                assert(char_views(found@) =~= char_views(prev).push(line_name(line@)->0));
            }
        },
        None => {},
    }
}

/// Parses the output of `ffmpeg -encoders`: the listed encoder names in order
/// of first appearance, each once.
/// Lines look like ` VFINLT h264_nvenc           NVIDIA NVENC H.264 encoder`.
pub fn parse_encoders(output: &str) -> (r: Vec<String>)
    ensures
        views(r@) == listed_encoders(output@),
        views(r@).no_duplicates(),
{
    let v = chars_of(output);
    let mut found: Vec<Vec<char>> = Vec::new();
    let mut cur: Vec<char> = Vec::new();
    let mut i: usize = 0;
    assert(v@.take(0) == Seq::<char>::empty());
    while i < v.len()
        invariant
            i <= v@.len(),
            v@ == output@,
            split_on(v@.take(i as int), '\n').len() >= 1,
            char_views(found@) == names_of(split_on(v@.take(i as int), '\n').drop_last()),
            cur@ == split_on(v@.take(i as int), '\n').last(),
        decreases v@.len() - i,
    {
        let ghost pre = split_on(v@.take(i as int), '\n');
        assert(v@.take(i + 1).drop_last() == v@.take(i as int));
        if v[i] == '\n' {
            add_line(&mut found, &cur);
            assert(split_on(v@.take(i + 1), '\n') == pre.push(seq![]));
            assert(pre.push(seq![]).drop_last() == pre);
            assert(pre.drop_last().push(pre.last()) == pre);
            cur = Vec::new();
        } else {
            cur.push(v[i]);
            assert(split_on(v@.take(i + 1), '\n').drop_last() == pre.drop_last());
        }
        i = i + 1;
    }
    assert(v@.take(v@.len() as int) == v@);
    let ghost all = split_on(v@, '\n');
    add_line(&mut found, &cur);
    assert(all.drop_last().push(all.last()) == all);
    let mut r: Vec<String> = Vec::new();
    let mut j: usize = 0;
    while j < found.len()
        invariant
            j <= found@.len(),
            views(r@) == char_views(found@).take(j as int),
        decreases found@.len() - j,
    {
        let ghost prev = r@;
        r.push(string_of(&found[j]));
        assert(views(r@) =~= views(prev).push(found@[j as int]@));
        assert(char_views(found@).take(j + 1) == char_views(found@).take(j as int).push(
            found@[j as int]@,
        ));
        j = j + 1;
    }
    assert(char_views(found@).take(found@.len() as int) == char_views(found@));
    proof {
        lemma_names_distinct(all);
    }
    r
}

/// Command args for the 1-frame functional test of an encoder.
pub open spec fn encode_test_args(encoder: Seq<char>) -> Seq<Seq<char>> {
    seq![
        "-f"@,
        "lavfi"@,
        "-i"@,
        "testsrc=duration=0.1:size=320x240:rate=30"@,
        "-c:v"@,
        encoder,
        "-f"@,
        "null"@,
        "-"@,
    ]
}

/// Command args for the 1-frame functional test of an encoder.
pub fn test_encode_args(encoder: &str) -> (r: Vec<String>)
    ensures
        views(r@) == encode_test_args(encoder@),
{
    let mut r: Vec<String> = Vec::new();
    push_lit(&mut r, "-f");
    push_lit(&mut r, "lavfi");
    push_lit(&mut r, "-i");
    push_lit(&mut r, "testsrc=duration=0.1:size=320x240:rate=30");
    push_lit(&mut r, "-c:v");
    push_lit(&mut r, encoder);
    push_lit(&mut r, "-f");
    push_lit(&mut r, "null");
    push_lit(&mut r, "-");
    r
}

/// Auto-selection over functionally verified encoders: NVENC, then QSV, then
/// AMF on Windows, then VAAPI on Linux, else libx264.
pub open spec fn best_encoder(usable: Seq<Seq<char>>, is_windows: bool, is_linux: bool) -> Seq<char> {
    if usable.contains("h264_nvenc"@) {
        "h264_nvenc"@
    } else if usable.contains("h264_qsv"@) {
        "h264_qsv"@
    } else if is_windows && usable.contains("h264_amf"@) {
        "h264_amf"@
    } else if is_linux && usable.contains("h264_vaapi"@) {
        "h264_vaapi"@
    } else {
        "libx264"@
    }
}

fn has_encoder(usable: &[String], e: &str) -> (r: bool)
    ensures
        r == views(usable@).contains(e@),
{
    let mut i: usize = 0;
    while i < usable.len()
        invariant
            i <= usable@.len(),
            forall|j: int| 0 <= j < i ==> usable@[j]@ != e@,
        decreases usable@.len() - i,
    {
        if crate::text::str_eq(usable[i].as_str(), e) {
            assert(views(usable@)[i as int] == e@);
            return true;
        }
        i = i + 1;
    }
    assert forall|j: int| 0 <= j < views(usable@).len() implies views(usable@)[j] != e@ by {
        assert(views(usable@)[j] == usable@[j]@);
    }
    false
}

/// Auto-selection over a list of functionally verified encoders. Platform
/// independent: the platform is passed in.
pub fn probe_best_in(usable: &[String], is_windows: bool, is_linux: bool) -> (r: &'static str)
    ensures
        r@ == best_encoder(views(usable@), is_windows, is_linux),
{
    if has_encoder(usable, "h264_nvenc") {
        return "h264_nvenc";
    }
    if has_encoder(usable, "h264_qsv") {
        return "h264_qsv";
    }
    if is_windows && has_encoder(usable, "h264_amf") {
        return "h264_amf";
    }
    if is_linux && has_encoder(usable, "h264_vaapi") {
        return "h264_vaapi";
    }
    "libx264"
}

/// The entries of `candidates` that `listed` contains, in their order.
pub open spec fn keep_listed(candidates: Seq<Seq<char>>, listed: Seq<Seq<char>>) -> Seq<Seq<char>>
    decreases candidates.len(),
{
    if candidates.len() == 0 {
        seq![]
    } else {
        let rest = keep_listed(candidates.drop_last(), listed);
        if listed.contains(candidates.last()) {
            rest.push(candidates.last())
        } else {
            rest
        }
    }
}

/// The auto-selection candidates worth a functional test: those that
/// `ffmpeg -encoders` listed, in priority order.
pub fn candidates_to_test(listed: &[String]) -> (r: Vec<&'static str>)
    ensures
        str_views(r@) == keep_listed(str_views(AUTO_CANDIDATES@), views(listed@)),
{
    let mut r: Vec<&'static str> = Vec::new();
    let mut i: usize = 0;
    while i < AUTO_CANDIDATES.len()
        invariant
            i <= 4,
            str_views(r@) == keep_listed(str_views(AUTO_CANDIDATES@).take(i as int), views(listed@)),
        decreases 4 - i,
    {
        let c = AUTO_CANDIDATES[i];
        assert(str_views(AUTO_CANDIDATES@).take(i + 1).drop_last() == str_views(AUTO_CANDIDATES@).take(
            i as int,
        ));
        assert(str_views(AUTO_CANDIDATES@).take(i + 1).last() == c@);
        if has_encoder(listed, c) {
            let ghost prev = r@;
            r.push(c);
            assert(str_views(r@) =~= str_views(prev).push(c@));
        }
        i = i + 1;
    }
    assert(str_views(AUTO_CANDIDATES@).take(4) == str_views(AUTO_CANDIDATES@));
    r
}

/// Why a listed encoder is reported unusable.
pub open spec fn test_failed_reason() -> Seq<char> {
    "1-frame encode test failed (driver missing?)"@
}

/// Whether `e` reports encoder `name` as `usable`, with `reason`.
pub open spec fn reports(e: EncoderInfo, name: Seq<char>, usable: bool, reason: Option<Seq<char>>) -> bool {
    &&& e.name@ == name
    &&& e.usable == usable
    &&& match (e.reason, reason) {
        (Some(a), Some(b)) => a@ == b,
        (None, None) => true,
        _ => false,
    }
}

/// The probe report: each tested candidate with its result (a failed one
/// with the reason), then libx264, which always works.
pub open spec fn is_report(r: Seq<EncoderInfo>, tested: Seq<(&str, bool)>) -> bool {
    &&& r.len() == tested.len() + 1
    &&& forall|i: int|
        0 <= i < tested.len() ==> reports(
            #[trigger] r[i],
            tested[i].0@,
            tested[i].1,
            if tested[i].1 {
                None
            } else {
                Some(test_failed_reason())
            },
        )
    &&& reports(r[tested.len() as int], "libx264"@, true, None)
}

/// Builds the probe report from the functional test results.
pub fn encoder_report(tested: &[(&str, bool)]) -> (r: Vec<EncoderInfo>)
    ensures
        is_report(r@, tested@),
{
    let mut r: Vec<EncoderInfo> = Vec::new();
    let mut i: usize = 0;
    while i < tested.len()
        invariant
            i <= tested@.len(),
            r@.len() == i,
            forall|k: int|
                0 <= k < i ==> reports(
                    #[trigger] r@[k],
                    tested@[k].0@,
                    tested@[k].1,
                    if tested@[k].1 {
                        None
                    } else {
                        Some(test_failed_reason())
                    },
                ),
        decreases tested@.len() - i,
    {
        let (name, usable) = tested[i];
        let reason = if usable {
            None
        } else {
            Some(owned("1-frame encode test failed (driver missing?)"))
        };
        r.push(EncoderInfo { name: owned(name), usable, reason });
        i = i + 1;
    }
    r.push(EncoderInfo { name: owned("libx264"), usable: true, reason: None });
    r
}

/// The report when the ffmpeg binary is missing: libx264, unusable.
pub fn missing_ffmpeg_report() -> (r: Vec<EncoderInfo>)
    ensures
        r@.len() == 1,
        reports(r@[0], "libx264"@, false, Some("ffmpeg binary not found"@)),
{
    let mut r: Vec<EncoderInfo> = Vec::new();
    r.push(
        EncoderInfo {
            name: owned("libx264"),
            usable: false,
            reason: Some(owned("ffmpeg binary not found")),
        },
    );
    r
}

/// A stored probe result with the identity of the ffmpeg binary it was
/// made with: its path, `-version` first line, modification time (seconds)
/// and size.
#[derive(Debug, Clone, PartialEq)]
pub struct EncoderCacheFile {
    pub ffmpeg: String,
    pub version: String,
    pub mtime: u64,
    pub size: u64,
    pub encoders: Vec<EncoderInfo>,
}

/// Whether a stored result was made with this very binary.
pub open spec fn cache_matches(
    c: EncoderCacheFile,
    ffmpeg: Seq<char>,
    version: Seq<char>,
    mtime: u64,
    size: u64,
) -> bool {
    c.ffmpeg@ == ffmpeg && c.version@ == version && c.mtime == mtime && c.size == size
}

/// The stored encoders when the binary's identity still matches: any change
/// of path, version line, time or size means probing again.
pub fn cached_encoders(cache: EncoderCacheFile, ffmpeg: &str, version: &str, mtime: u64, size: u64) -> (r:
    Option<Vec<EncoderInfo>>)
    ensures
        match r {
            Some(e) => cache_matches(cache, ffmpeg@, version@, mtime, size) && e@ == cache.encoders@,
            None => !cache_matches(cache, ffmpeg@, version@, mtime, size),
        },
{
    if !str_eq(cache.ffmpeg.as_str(), ffmpeg) || !str_eq(cache.version.as_str(), version) {
        return None;
    }
    if cache.mtime != mtime || cache.size != size {
        return None;
    }
    Some(cache.encoders)
}

/// What `keep_listed` keeps comes from the candidates.
proof fn lemma_keep_listed_subset(candidates: Seq<Seq<char>>, listed: Seq<Seq<char>>, x: Seq<char>)
    requires
        keep_listed(candidates, listed).contains(x),
    ensures
        candidates.contains(x),
    decreases candidates.len(),
{
    if candidates.len() > 0 {
        let rest = keep_listed(candidates.drop_last(), listed);
        if rest.contains(x) {
            lemma_keep_listed_subset(candidates.drop_last(), listed, x);
            let i = choose|i: int| 0 <= i < candidates.drop_last().len() && candidates.drop_last()[i]
                == x;
            assert(candidates[i] == x);
        } else {
            assert(candidates[candidates.len() - 1] == x);
        }
    }
}

/// `h264_vulkan` is manual-select only: auto-selection never picks it,
/// whatever is usable, and it is never among the candidates tested for it.
pub proof fn lemma_auto_never_vulkan(
    usable: Seq<Seq<char>>,
    listed: Seq<Seq<char>>,
    is_windows: bool,
    is_linux: bool,
)
    ensures
        best_encoder(usable, is_windows, is_linux) != "h264_vulkan"@,
        !keep_listed(str_views(AUTO_CANDIDATES@), listed).contains("h264_vulkan"@),
{
    reveal_strlit("h264_vulkan");
    reveal_strlit("h264_nvenc");
    reveal_strlit("h264_qsv");
    reveal_strlit("h264_amf");
    reveal_strlit("h264_vaapi");
    reveal_strlit("libx264");
    assert("h264_vulkan"@.len() == 11);
    assert("h264_nvenc"@.len() == 10);
    assert("h264_qsv"@.len() == 8);
    assert("h264_amf"@.len() == 8);
    assert("h264_vaapi"@.len() == 10);
    assert("libx264"@.len() == 7);
    let c = str_views(AUTO_CANDIDATES@);
    assert(c =~= seq!["h264_nvenc"@, "h264_qsv"@, "h264_amf"@, "h264_vaapi"@]);
    if keep_listed(c, listed).contains("h264_vulkan"@) {
        lemma_keep_listed_subset(c, listed, "h264_vulkan"@);
        let i = choose|i: int| 0 <= i < c.len() && c[i] == "h264_vulkan"@;
        assert(c[i].len() != 11);
    }
}

} // verus!
