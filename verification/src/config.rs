//! Streaming profiles, Topaz limits and stream-key validation.

use crate::error::{Error, Result};
use crate::text::{chars_of, concat, decimal, decimal_string, owned, views};
use vstd::prelude::*;

verus! {

pub const CONFIG_DIR_NAME: &'static str = "ezTopaz";
pub const CONFIG_FILE_NAME: &'static str = "profiles.json";
pub const SCHEMA_VERSION: u32 = 2;

/// Topaz hard limit for the video bitrate, in kbit/s.
pub const MAX_VIDEO_KBPS: u32 = 2000;
/// Topaz hard limit for the audio bitrate, in kbit/s.
pub const MAX_AUDIO_KBPS: u32 = 320;

/// One output profile: frame size, rate and bitrates.
#[derive(Debug, Clone, PartialEq)]
pub struct Profile {
    /// i18n key of the display name.
    pub name: String,
    pub w: u32,
    pub h: u32,
    pub fps: u32,
    pub v_kbps: u32,
    pub a_kbps: u32,
    /// Encoder preference of the profile (`"auto"` by default).
    pub encoder: String,
    /// i18n key of a warning shown with the profile.
    pub warn: Option<String>,
}

/// What is captured: a whole display or one window.
#[derive(Debug, Clone, Copy, PartialEq, Eq, Default, Structural)]
pub enum ScreenTargetKind {
    #[default]
    Display,
    Window,
}

/// The capture target chosen in the UI (`id` such as `"display:1"`).
#[derive(Debug, Clone, PartialEq, Default)]
pub struct ScreenTarget {
    pub kind: ScreenTargetKind,
    pub id: String,
}

/// The view of an optional string.
pub open spec fn opt_view(o: Option<String>) -> Option<Seq<char>> {
    match o {
        Some(s) => Some(s@),
        None => None,
    }
}

/// GOP length in frames: two seconds at the profile frame rate.
pub open spec fn spec_gop(fps: u32) -> int {
    fps * 2
}

impl Profile {
    /// GOP = 2 seconds.
    pub fn gop(&self) -> (g: u32)
        requires
            spec_gop(self.fps) <= u32::MAX,
        ensures
            g == spec_gop(self.fps),
    {
        self.fps * 2
    }
}

/// Whether the two bitrates are within the Topaz limits.
pub open spec fn within_limits(v_kbps: u32, a_kbps: u32) -> bool {
    v_kbps <= MAX_VIDEO_KBPS && a_kbps <= MAX_AUDIO_KBPS
}

/// Rejects (never clamps) bitrates over the Topaz hard limits, so the UI can
/// show the offending numbers.
pub fn validate_bitrate(v_kbps: u32, a_kbps: u32) -> (r: Result<()>)
    ensures
        r is Ok <==> within_limits(v_kbps, a_kbps),
        r matches Err(e) ==> e == (Error::BitrateOver { v_kbps, a_kbps }),
{
    if v_kbps > MAX_VIDEO_KBPS || a_kbps > MAX_AUDIO_KBPS {
        return Err(Error::BitrateOver { v_kbps, a_kbps });
    }
    Ok(())
}

/// A character accepted in a stream key.
pub open spec fn key_char(c: char) -> bool {
    ('a' <= c && c <= 'z') || ('A' <= c && c <= 'Z') || ('0' <= c && c <= '9') || c == '-' || c
        == '_'
}

/// A stream key: 3 to 64 characters, each ASCII alphanumeric, `-` or `_`.
pub open spec fn valid_stream_key(key: Seq<char>) -> bool {
    &&& 3 <= key.len() <= 64
    &&& forall|i: int| 0 <= i < key.len() ==> key_char(#[trigger] key[i])
}

fn is_key_char(c: char) -> (r: bool)
    ensures
        r == key_char(c),
{
    ('a' <= c && c <= 'z') || ('A' <= c && c <= 'Z') || ('0' <= c && c <= '9') || c == '-' || c
        == '_'
}

/// Checks the shape of a stream key; the error carries the refused key.
pub fn validate_stream_key(key: &str) -> (r: Result<()>)
    ensures
        r is Ok <==> valid_stream_key(key@),
        r matches Err(e) ==> e matches Error::StreamKey(k) && k@ == key@,
{
    let v = chars_of(key);
    let mut ok = 3 <= v.len() && v.len() <= 64;
    let mut i: usize = 0;
    while ok && i < v.len()
        invariant
            v@ == key@,
            i <= v@.len(),
            ok ==> 3 <= v@.len() <= 64,
            ok ==> forall|j: int| 0 <= j < i ==> key_char(#[trigger] v@[j]),
            !ok ==> !valid_stream_key(key@),
        decreases v@.len() - i,
    {
        if !is_key_char(v[i]) {
            ok = false;
        }
        i = i + 1;
    }
    if ok {
        Ok(())
    } else {
        Err(Error::StreamKey(owned(key)))
    }
}

/// Whether `p` is the profile with these fields and encoder `"auto"`.
pub open spec fn profile_is(
    p: Profile,
    name: Seq<char>,
    w: u32,
    h: u32,
    fps: u32,
    v_kbps: u32,
    a_kbps: u32,
    warn: Option<Seq<char>>,
) -> bool {
    &&& p.name@ == name
    &&& p.w == w
    &&& p.h == h
    &&& p.fps == fps
    &&& p.v_kbps == v_kbps
    &&& p.a_kbps == a_kbps
    &&& p.encoder@ == "auto"@
    &&& opt_view(p.warn) == warn
}

fn make_profile(
    name: &str,
    w: u32,
    h: u32,
    fps: u32,
    v_kbps: u32,
    a_kbps: u32,
    warn: Option<&str>,
) -> (p: Profile)
    ensures
        profile_is(
            p,
            name@,
            w,
            h,
            fps,
            v_kbps,
            a_kbps,
            match warn {
                Some(s) => Some(s@),
                None => None,
            },
        ),
{
    Profile {
        name: owned(name),
        w,
        h,
        fps,
        v_kbps,
        a_kbps,
        encoder: owned("auto"),
        warn: match warn {
            Some(s) => Some(owned(s)),
            None => None,
        },
    }
}

/// Whether no two entries of a profile table share an id (what a map keyed
/// by id guarantees).
pub open spec fn ids_unique(table: Seq<(String, Profile)>) -> bool {
    forall|i: int, j: int| 0 <= i < j < table.len() ==> table[i].0@ != table[j].0@
}

/// The built-in profiles, keyed by id and ordered by id.
pub fn default_profiles() -> (r: Vec<(String, Profile)>)
    ensures
        ids_unique(r@),
        r@.len() == 4,
        r@[0].0@ == "1080p"@,
        profile_is(r@[0].1, "profile.1080p"@, 1920, 1080, 30, 2000, 320, Some("warn.topaz1080p"@)),
        r@[1].0@ == "high"@,
        profile_is(r@[1].1, "profile.high"@, 1280, 720, 60, 2000, 320, None),
        r@[2].0@ == "low"@,
        profile_is(r@[2].1, "profile.low"@, 854, 480, 30, 800, 128, None),
        r@[3].0@ == "mid"@,
        profile_is(r@[3].1, "profile.mid"@, 1280, 720, 30, 1500, 192, None),
        forall|i: int|
            0 <= i < r@.len() ==> within_limits(#[trigger] r@[i].1.v_kbps, r@[i].1.a_kbps) && spec_gop(
                r@[i].1.fps,
            ) <= u32::MAX,
{
    let mut r: Vec<(String, Profile)> = Vec::new();
    r.push(
        (
            owned("1080p"),
            make_profile("profile.1080p", 1920, 1080, 30, 2000, 320, Some("warn.topaz1080p")),
        ),
    );
    r.push((owned("high"), make_profile("profile.high", 1280, 720, 60, 2000, 320, None)));
    r.push((owned("low"), make_profile("profile.low", 854, 480, 30, 800, 128, None)));
    r.push((owned("mid"), make_profile("profile.mid", 1280, 720, 30, 1500, 192, None)));
    proof {
        reveal_strlit("1080p");
        reveal_strlit("high");
        reveal_strlit("low");
        reveal_strlit("mid");
        assert(r@[0].0@[0] != r@[1].0@[0] && r@[0].0@[0] != r@[2].0@[0] && r@[0].0@[0] != r@[3].0@[0]);
        assert(r@[1].0@[0] != r@[2].0@[0] && r@[1].0@[0] != r@[3].0@[0]);
        assert(r@[2].0@[0] != r@[3].0@[0]);
    }
    r
}

/// The entry of `table` with id `id`: the first one where several share it.
pub open spec fn lookup(table: Seq<(String, Profile)>, id: Seq<char>) -> Option<Profile>
    decreases table.len(),
{
    if table.len() == 0 {
        None
    } else if table[0].0@ == id {
        Some(table[0].1)
    } else {
        lookup(table.drop_first(), id)
    }
}

/// Finds the profile with id `id` in a profile table.
pub fn find_profile<'a>(table: &'a [(String, Profile)], id: &str) -> (r: Option<&'a Profile>)
    ensures
        match r {
            Some(p) => lookup(table@, id@) == Some(*p),
            None => lookup(table@, id@) is None,
        },
{
    let mut i: usize = 0;
    assert(table@.skip(0) == table@);
    while i < table.len()
        invariant
            i <= table@.len(),
            lookup(table@, id@) == lookup(table@.skip(i as int), id@),
        decreases table@.len() - i,
    {
        assert(table@.skip(i as int).drop_first() == table@.skip(i + 1));
        if crate::text::str_eq(table[i].0.as_str(), id) {
            return Some(&table[i].1);
        }
        i = i + 1;
    }
    None
}

/// Whether `s` starts with `prefix` (std `str::starts_with`).
pub open spec fn starts_with(s: Seq<char>, prefix: Seq<char>) -> bool {
    prefix.len() <= s.len() && s.take(prefix.len() as int) == prefix
}

/// Whether `s` starts with `prefix`.
pub fn has_prefix(s: &str, prefix: &str) -> (r: bool)
    ensures
        r == starts_with(s@, prefix@),
{
    let v = chars_of(s);
    let p = chars_of(prefix);
    if p.len() > v.len() {
        return false;
    }
    let mut i: usize = 0;
    while i < p.len()
        invariant
            p@ == prefix@,
            v@ == s@,
            p@.len() <= v@.len(),
            i <= p@.len(),
            forall|j: int| 0 <= j < i ==> v@[j] == p@[j],
        decreases p@.len() - i,
    {
        if v[i] != p[i] {
            assert(s@.take(prefix@.len() as int)[i as int] != prefix@[i as int]);
            return false;
        }
        i = i + 1;
    }
    assert(s@.take(prefix@.len() as int) =~= prefix@);
    true
}

/// The message that refuses a profile over the Topaz limits.
pub open spec fn over_limit_message(id: Seq<char>, v_kbps: u32, a_kbps: u32) -> Seq<char> {
    id + ": video "@ + decimal(v_kbps as nat) + "/audio "@ + decimal(a_kbps as nat)
        + "kbps exceeds limits ("@ + decimal(MAX_VIDEO_KBPS as nat) + "k/"@ + decimal(
        MAX_AUDIO_KBPS as nat,
    ) + "k)"@
}

/// The position of the first profile of `table` over the Topaz limits.
pub open spec fn first_over_limit(table: Seq<(String, Profile)>) -> Option<int>
    decreases table.len(),
{
    if table.len() == 0 {
        None
    } else if !within_limits(table[0].1.v_kbps, table[0].1.a_kbps) {
        Some(0)
    } else {
        match first_over_limit(table.drop_first()) {
            Some(i) => Some(i + 1),
            None => None,
        }
    }
}

/// Where an ingest URL must start.
pub open spec fn rtmp_scheme() -> Seq<char> {
    "rtmp://"@
}

/// What a settings file may be saved with: every profile (in table order)
/// within the Topaz limits, then an `rtmp://` ingest URL.
pub open spec fn settings_check(table: Seq<(String, Profile)>, ingest_url: Seq<char>) -> Option<
    Seq<char>,
> {
    match first_over_limit(table) {
        Some(i) => Some(over_limit_message(table[i].0@, table[i].1.v_kbps, table[i].1.a_kbps)),
        None => if starts_with(ingest_url, rtmp_scheme()) {
            None
        } else {
            Some("ingest URL must start with rtmp://"@)
        },
    }
}

/// The message refusing the profile `id`.
fn over_limit_text(id: &str, v_kbps: u32, a_kbps: u32) -> (r: String)
    ensures
        r@ == over_limit_message(id@, v_kbps, a_kbps),
{
    let mut r = concat(owned(id), ": video ");
    crate::text::push_str(&mut r, decimal_string(v_kbps as u64).as_str());
    crate::text::push_str(&mut r, "/audio ");
    crate::text::push_str(&mut r, decimal_string(a_kbps as u64).as_str());
    crate::text::push_str(&mut r, "kbps exceeds limits (");
    crate::text::push_str(&mut r, decimal_string(MAX_VIDEO_KBPS as u64).as_str());
    crate::text::push_str(&mut r, "k/");
    crate::text::push_str(&mut r, decimal_string(MAX_AUDIO_KBPS as u64).as_str());
    crate::text::push_str(&mut r, "k)");
    r
}

/// The check before settings are saved: each profile against the Topaz
/// limits, in table order, then the ingest URL's scheme. The error is the
/// message shown to the user.
pub fn validate_settings(profiles: &[(String, Profile)], ingest_url: &str) -> (r: core::result::Result<
    (),
    String,
>)
    ensures
        match r {
            Ok(()) => settings_check(profiles@, ingest_url@) is None,
            Err(m) => settings_check(profiles@, ingest_url@) == Some(m@),
        },
{
    let mut i: usize = 0;
    assert(profiles@.skip(0) == profiles@);
    while i < profiles.len()
        invariant
            i <= profiles@.len(),
            first_over_limit(profiles@) == match first_over_limit(profiles@.skip(i as int)) {
                Some(k) => Some(k + i),
                None => None,
            },
        decreases profiles@.len() - i,
    {
        assert(profiles@.skip(i as int).drop_first() == profiles@.skip(i + 1));
        let p = &profiles[i].1;
        if validate_bitrate(p.v_kbps, p.a_kbps).is_err() {
            return Err(over_limit_text(profiles[i].0.as_str(), p.v_kbps, p.a_kbps));
        }
        i = i + 1;
    }
    if has_prefix(ingest_url, "rtmp://") {
        Ok(())
    } else {
        Err(owned("ingest URL must start with rtmp://"))
    }
}

/// Where the settings directory lies, as path components: under `%APPDATA%`
/// on Windows (the working directory itself when that is unset); on other
/// systems under `$XDG_CONFIG_HOME`, else `$HOME/.config`, else the working
/// directory.
pub open spec fn config_dir_parts(
    is_windows: bool,
    appdata: Option<Seq<char>>,
    xdg_config_home: Option<Seq<char>>,
    home: Option<Seq<char>>,
) -> Seq<Seq<char>> {
    if is_windows {
        match appdata {
            Some(d) => seq![d, CONFIG_DIR_NAME@],
            None => seq!["."@],
        }
    } else {
        match xdg_config_home {
            Some(x) => seq![x, CONFIG_DIR_NAME@],
            None => match home {
                Some(h) => seq![h, ".config"@, CONFIG_DIR_NAME@],
                None => seq!["."@, CONFIG_DIR_NAME@],
            },
        }
    }
}

/// The settings directory as path components, from the platform and the
/// environment variables it depends on (each `None` when unset).
pub fn config_dir_from(
    is_windows: bool,
    appdata: Option<&str>,
    xdg_config_home: Option<&str>,
    home: Option<&str>,
) -> (r: Vec<String>)
    ensures
        views(r@) == config_dir_parts(
            is_windows,
            match appdata {
                Some(d) => Some(d@),
                None => None,
            },
            match xdg_config_home {
                Some(x) => Some(x@),
                None => None,
            },
            match home {
                Some(h) => Some(h@),
                None => None,
            },
        ),
{
    let mut r: Vec<String> = Vec::new();
    if is_windows {
        match appdata {
            Some(d) => {
                crate::text::push_lit(&mut r, d);
                crate::text::push_lit(&mut r, CONFIG_DIR_NAME);
            },
            None => {
                crate::text::push_lit(&mut r, ".");
            },
        }
    } else {
        match xdg_config_home {
            Some(x) => {
                crate::text::push_lit(&mut r, x);
                crate::text::push_lit(&mut r, CONFIG_DIR_NAME);
            },
            None => match home {
                Some(h) => {
                    crate::text::push_lit(&mut r, h);
                    crate::text::push_lit(&mut r, ".config");
                    crate::text::push_lit(&mut r, CONFIG_DIR_NAME);
                },
                None => {
                    crate::text::push_lit(&mut r, ".");
                    crate::text::push_lit(&mut r, CONFIG_DIR_NAME);
                },
            },
        }
    }
    r
}

/// A settings file's path from its directory's components: the directory
/// with `file` appended.
pub fn config_file_in(dir: Vec<String>, file: &str) -> (r: Vec<String>)
    ensures
        views(r@) == views(dir@).push(file@),
{
    let mut r = dir;
    crate::text::push_lit(&mut r, file);
    r
}

/// The path of `profiles.json` as components, from the same inputs as
/// [`config_dir_from`].
pub fn config_path(
    is_windows: bool,
    appdata: Option<&str>,
    xdg_config_home: Option<&str>,
    home: Option<&str>,
) -> (r: Vec<String>)
    ensures
        views(r@) == config_dir_parts(
            is_windows,
            match appdata {
                Some(d) => Some(d@),
                None => None,
            },
            match xdg_config_home {
                Some(x) => Some(x@),
                None => None,
            },
            match home {
                Some(h) => Some(h@),
                None => None,
            },
        ).push(CONFIG_FILE_NAME@),
{
    config_file_in(config_dir_from(is_windows, appdata, xdg_config_home, home), CONFIG_FILE_NAME)
}

/// The UI language for a `LANG` value: Japanese when it starts with `ja`
/// in any letter case, English otherwise.
pub open spec fn locale_for(lang: Seq<char>) -> Seq<char> {
    if lang.len() >= 2 && (lang[0] == 'j' || lang[0] == 'J') && (lang[1] == 'a' || lang[1] == 'A') {
        "ja"@
    } else {
        "en"@
    }
}

/// The UI language for a `LANG` value (empty when unset).
pub fn default_locale(lang: &str) -> (r: &'static str)
    ensures
        r@ == locale_for(lang@),
{
    let v = chars_of(lang);
    if v.len() >= 2 && (v[0] == 'j' || v[0] == 'J') && (v[1] == 'a' || v[1] == 'A') {
        "ja"
    } else {
        "en"
    }
}

/// In a table whose ids are unique, looking an entry's id up finds that very
/// entry: the table behaves as the map from ids to profiles.
pub proof fn lemma_lookup_unique_ids(table: Seq<(String, Profile)>, i: int)
    requires
        ids_unique(table),
        0 <= i < table.len(),
    ensures
        lookup(table, table[i].0@) == Some(table[i].1),
    decreases i,
{
    if i > 0 {
        let t = table.drop_first();
        assert forall|a: int, b: int| 0 <= a < b < t.len() implies t[a].0@ != t[b].0@ by {
            assert(t[a] == table[a + 1] && t[b] == table[b + 1]);
        }
        assert(t[i - 1] == table[i]);
        assert(table[0].0@ != table[i].0@);
        lemma_lookup_unique_ids(t, i - 1);
    }
}

/// A stream key is accepted exactly when it has 3 to 64 characters, each an
/// ASCII digit, an ASCII letter, `-` or `_`.
pub proof fn lemma_stream_key_alphabet(key: Seq<char>)
    ensures
        valid_stream_key(key) <==> (3 <= key.len() <= 64 && forall|i: int|
            0 <= i < key.len() ==> ('0' <= #[trigger] key[i] <= '9' || 'a' <= key[i] <= 'z' || 'A'
                <= key[i] <= 'Z' || key[i] == '-' || key[i] == '_')),
{
}

} // verus!
