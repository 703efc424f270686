//! What the Windows capture backend computes around the system calls:
//! which WASAPI streams an audio selection needs, and how monitors, windows
//! and audio sessions are named for the UI.

use crate::capture::MIC_ID;
use crate::ffmpeg::hw::display_index;
use crate::ipc_types::{AppAudio, DeviceInfo, Display, WindowInfo};
use crate::text::{after_last, after_last_char, chars_of, concat, decimal, decimal_string, lemma_decimal_injective, owned,
    parse_u32, parse_u32_chars, parse_usize_chars, str_eq, string_of, sub_chars, trim, trim_chars,
    views};
use vstd::prelude::*;

verus! {

/// One WASAPI capture stream.
#[derive(Debug, Clone, Copy, PartialEq, Eq, Structural)]
pub enum AudioLeg {
    /// Loopback of the default render device.
    System,
    /// The default capture device.
    Mic,
    /// Loopback of one process tree.
    Process(u32),
}

/// The process streams of the selected applications: each one's process id
/// is the number after the last `:` of its id; ids without one are skipped.
pub open spec fn process_legs(apps: Seq<Seq<char>>) -> Seq<AudioLeg>
    decreases apps.len(),
{
    if apps.len() == 0 {
        seq![]
    } else {
        let rest = process_legs(apps.drop_last());
        match parse_u32(after_last(apps.last(), ':')) {
            Some(pid) => rest.push(AudioLeg::Process(pid as u32)),
            None => rest,
        }
    }
}

/// The streams of an audio selection: system loopback in `"system"` mode,
/// the microphone when enabled, one process loopback per application in
/// `"apps"` mode.
pub open spec fn legs_of(mode: Seq<char>, mic_enabled: bool, apps: Seq<Seq<char>>) -> Seq<AudioLeg> {
    (if mode == "system"@ {
        seq![AudioLeg::System]
    } else {
        seq![]
    }) + (if mic_enabled {
        seq![AudioLeg::Mic]
    } else {
        seq![]
    }) + (if mode == "apps"@ {
        process_legs(apps)
    } else {
        seq![]
    })
}

/// The WASAPI streams for an audio selection, in start order.
pub fn audio_legs(mode: &str, mic_enabled: bool, apps: &[String]) -> (r: Vec<AudioLeg>)
    ensures
        r@ == legs_of(mode@, mic_enabled, views(apps@)),
{
    let mut r: Vec<AudioLeg> = Vec::new();
    if str_eq(mode, "system") {
        r.push(AudioLeg::System);
    }
    if mic_enabled {
        r.push(AudioLeg::Mic);
    }
    let ghost head = r@;
    if str_eq(mode, "apps") {
        let mut i: usize = 0;
        while i < apps.len()
            invariant
                i <= apps@.len(),
                r@ == head + process_legs(views(apps@).take(i as int)),
            decreases apps@.len() - i,
        {
            let ghost v = views(apps@);
            assert(v.take(i + 1).drop_last() == v.take(i as int));
            assert(v.take(i + 1).last() == apps@[i as int]@);
            let tail = after_last_char(apps[i].as_str(), ':');
            match parse_u32_chars(&tail) {
                Some(pid) => {
                    r.push(AudioLeg::Process(pid));
                },
                None => {},
            }
            i = i + 1;
        }
        assert(views(apps@).take(apps@.len() as int) == views(apps@));
    }
    r
}

/// The mixer source id a stream feeds.
pub open spec fn leg_id(leg: AudioLeg) -> Seq<char> {
    match leg {
        AudioLeg::System => "system"@,
        AudioLeg::Mic => MIC_ID@,
        AudioLeg::Process(pid) => "pid:"@ + decimal(pid as nat),
    }
}

/// The mixer source id of a stream.
pub fn leg_source_id(leg: &AudioLeg) -> (r: String)
    ensures
        r@ == leg_id(*leg),
{
    match leg {
        AudioLeg::System => owned("system"),
        AudioLeg::Mic => owned(MIC_ID),
        AudioLeg::Process(pid) => concat(owned("pid:"), decimal_string(*pid as u64).as_str()),
    }
}

/// The part of a path after its last `\` or `/`.
pub open spec fn last_component(s: Seq<char>) -> Seq<char>
    decreases s.len(),
{
    if s.len() == 0 {
        s
    } else if s.last() == '\\' || s.last() == '/' {
        seq![]
    } else {
        last_component(s.drop_last()).push(s.last())
    }
}

/// `s` without its trailing `.exe`s (std `trim_end_matches(".exe")`).
pub open spec fn trim_exe(s: Seq<char>) -> Seq<char>
    decreases s.len(),
{
    if s.len() >= 4 && s.skip(s.len() - 4) == ".exe"@ {
        trim_exe(s.take(s.len() - 4))
    } else {
        s
    }
}

/// The characters after the last `\` or `/` of `v`.
fn last_component_chars(v: &[char]) -> (r: Vec<char>)
    ensures
        r@ == last_component(v@),
{
    let mut start: usize = v.len();
    assert(v@.take(start as int) == v@);
    assert(v@.skip(start as int) == Seq::<char>::empty());
    while start > 0 && v[start - 1] != '\\' && v[start - 1] != '/'
        invariant
            start <= v@.len(),
            last_component(v@) == last_component(v@.take(start as int)) + v@.skip(start as int),
        decreases start,
    {
        assert(v@.take(start as int).drop_last() == v@.take(start - 1));
        assert(v@.skip(start - 1) == seq![v@[start - 1]] + v@.skip(start as int));
        start = start - 1;
    }
    assert(last_component(v@.take(start as int)) == Seq::<char>::empty());
    let r = sub_chars(v, start, v.len());
    assert(r@ =~= last_component(v@));
    r
}

/// `v` without its trailing `.exe`s.
fn trim_exe_chars(v: &[char]) -> (r: Vec<char>)
    ensures
        r@ == trim_exe(v@),
{
    let mut end: usize = v.len();
    assert(v@.take(end as int) == v@);
    while end >= 4 && v[end - 4] == '.' && v[end - 3] == 'e' && v[end - 2] == 'x' && v[end - 1]
        == 'e'
        invariant
            end <= v@.len(),
            trim_exe(v@) == trim_exe(v@.take(end as int)),
        decreases end,
    {
        proof {
            let t = v@.take(end as int);
            assert(t.skip(t.len() - 4) =~= ".exe"@) by {
                reveal_strlit(".exe");
            }
            assert(t.take(t.len() - 4) == v@.take(end - 4));
        }
        end = end - 4;
    }
    proof {
        let t = v@.take(end as int);
        if t.len() >= 4 && t.skip(t.len() - 4) == ".exe"@ {
            reveal_strlit(".exe");
            assert(t.skip(t.len() - 4)[0] == v@[end - 4]);
            assert(t.skip(t.len() - 4)[1] == v@[end - 3]);
            assert(t.skip(t.len() - 4)[2] == v@[end - 2]);
            assert(t.skip(t.len() - 4)[3] == v@[end - 1]);
        }
    }
    let r = sub_chars(v, 0, end);
    assert(r@ == v@.take(end as int));
    r
}

/// A process's name from the path of its image: the file name without
/// `.exe`.
pub fn image_base_name(path: &str) -> (r: String)
    ensures
        r@ == trim_exe(last_component(path@)),
{
    let name = last_component_chars(&chars_of(path));
    string_of(&trim_exe_chars(&name))
}

/// The entry for the monitor at position `idx`: id `monitor:<idx>`,
/// labelled by its device name, or `Monitor <idx>` when that is empty.
pub fn display_entry(idx: usize, device: &str, w: u32, h: u32) -> (r: Display)
    ensures
        r.id@ == "monitor:"@ + decimal(idx as nat),
        r.label@ == if device@.len() == 0 {
            "Monitor "@ + decimal(idx as nat)
        } else {
            device@
        },
        r.w == w && r.h == h,
{
    let n = decimal_string(idx as u64);
    let label = if device.is_empty() {
        concat(owned("Monitor "), n.as_str())
    } else {
        owned(device)
    };
    Display { id: concat(owned("monitor:"), n.as_str()), label, w, h }
}

/// The entry for a visible top-level window: its title trimmed (windows
/// with a blank title are skipped), id `hwnd:<handle>`, and the name of its
/// process (empty when unknown).
pub fn window_entry(hwnd: usize, title: &str, app: Option<&str>) -> (r: Option<WindowInfo>)
    ensures
        trim(title@).len() == 0 ==> r is None,
        trim(title@).len() > 0 ==> (r matches Some(w) && w.id@ == "hwnd:"@ + decimal(hwnd as nat)
            && w.title@ == trim(title@) && w.app@ == match app {
            Some(a) => a@,
            None => Seq::<char>::empty(),
        }),
{
    let t = trim_chars(&chars_of(title));
    if t.len() == 0 {
        return None;
    }
    let app_name = match app {
        Some(a) => owned(a),
        None => String::new(),
    };
    Some(
        WindowInfo {
            id: concat(owned("hwnd:"), decimal_string(hwnd as u64).as_str()),
            title: string_of(&t),
            app: app_name,
        },
    )
}

/// The entry for an active audio endpoint: the default one of its direction
/// is the one whose id the system reports as default (none when it reports
/// none).
pub fn device_entry(id: String, label: String, default_id: Option<&str>) -> (r: DeviceInfo)
    ensures
        r.id@ == id@ && r.label@ == label@,
        r.is_default == match default_id {
            Some(d) => d@ == id@,
            None => false,
        },
{
    let is_default = match default_id {
        Some(d) => str_eq(d, id.as_str()),
        None => false,
    };
    DeviceInfo { id, label, is_default }
}

/// The process ids of `s`.
pub open spec fn pids(s: Seq<(u32, Option<String>)>) -> Seq<u32> {
    s.map_values(|e: (u32, Option<String>)| e.0)
}

/// The applications of the default device's audio sessions (each a process
/// id with its name when known): every process once, at its first session;
/// the system session (id 0) and processes without a name are left out.
pub open spec fn session_list(s: Seq<(u32, Option<String>)>) -> Seq<(Seq<char>, Seq<char>)>
    decreases s.len(),
{
    if s.len() == 0 {
        seq![]
    } else {
        let rest = session_list(s.drop_last());
        let (pid, name) = s.last();
        if pid != 0 && !pids(s.drop_last()).contains(pid) && name is Some {
            rest.push(("pid:"@ + decimal(pid as nat), name->0@))
        } else {
            rest
        }
    }
}

/// The id and label of each entry.
pub open spec fn app_views(a: Seq<AppAudio>) -> Seq<(Seq<char>, Seq<char>)> {
    a.map_values(|e: AppAudio| (e.id@, e.label@))
}

/// Whether `pid` is among the first `n` sessions.
fn seen_before(sessions: &[(u32, Option<String>)], n: usize, pid: u32) -> (r: bool)
    requires
        n <= sessions@.len(),
    ensures
        r == pids(sessions@.take(n as int)).contains(pid),
{
    let mut j: usize = 0;
    while j < n
        invariant
            n <= sessions@.len(),
            j <= n,
            forall|k: int| 0 <= k < j ==> sessions@[k].0 != pid,
        decreases n - j,
    {
        if sessions[j].0 == pid {
            assert(pids(sessions@.take(n as int))[j as int] == pid);
            return true;
        }
        j = j + 1;
    }
    assert forall|k: int| 0 <= k < pids(sessions@.take(n as int)).len() implies pids(
        sessions@.take(n as int),
    )[k] != pid by {
        assert(pids(sessions@.take(n as int))[k] == sessions@[k].0);
    }
    false
}

/// The application list of the audio sessions.
pub fn session_apps(sessions: &[(u32, Option<String>)]) -> (r: Vec<AppAudio>)
    ensures
        app_views(r@) == session_list(sessions@),
{
    let mut r: Vec<AppAudio> = Vec::new();
    let mut i: usize = 0;
    assert(sessions@.take(0) =~= Seq::<(u32, Option<String>)>::empty());
    while i < sessions.len()
        invariant
            i <= sessions@.len(),
            app_views(r@) == session_list(sessions@.take(i as int)),
        decreases sessions@.len() - i,
    {
        let ghost t = sessions@.take(i + 1);
        assert(t.drop_last() == sessions@.take(i as int));
        assert(t.last() == sessions@[i as int]);
        let pid = sessions[i].0;
        if pid != 0 && !seen_before(sessions, i, pid) {
            match &sessions[i].1 {
                Some(name) => {
                    let ghost before = r@;
                    r.push(
                        AppAudio {
                            id: concat(owned("pid:"), decimal_string(pid as u64).as_str()),
                            label: name.clone(),
                        },
                    );
                    assert(app_views(r@) =~= app_views(before).push(
                        ("pid:"@ + decimal(pid as nat), name@),
                    ));
                },
                None => {},
            }
        }
        i = i + 1;
    }
    assert(sessions@.take(sessions@.len() as int) == sessions@);
    r
}

/// The number a target id ends with (`monitor:<N>`, `hwnd:<N>`): the part
/// after its last `:` read as a number, 0 when it is none.
pub fn target_index(id: &str) -> (r: usize)
    ensures
        r == display_index(id@),
{
    let tail = after_last_char(id, ':');
    match parse_usize_chars(&tail) {
        Some(n) => n,
        None => 0,
    }
}

/// Each entry of the session list belongs to a distinct non-system process
/// among the sessions.
proof fn lemma_session_entries(s: Seq<(u32, Option<String>)>)
    ensures
        forall|i: int|
            0 <= i < session_list(s).len() ==> exists|k: int|
                0 <= k < s.len() && s[k].0 != 0 && #[trigger] session_list(s)[i].0 == "pid:"@
                    + decimal(s[k].0 as nat),
        session_list(s).map_values(|e: (Seq<char>, Seq<char>)| e.0).no_duplicates(),
    decreases s.len(),
{
    if s.len() > 0 {
        let t = s.drop_last();
        lemma_session_entries(t);
        let (pid, name) = s.last();
        let prev = session_list(t);
        assert forall|i: int| 0 <= i < prev.len() implies exists|k: int|
            0 <= k < s.len() && s[k].0 != 0 && #[trigger] prev[i].0 == "pid:"@ + decimal(
                s[k].0 as nat,
            ) by {
            let k = choose|k: int|
                0 <= k < t.len() && t[k].0 != 0 && #[trigger] prev[i].0 == "pid:"@ + decimal(
                    t[k].0 as nat,
                );
            assert(t[k] == s[k]);
        }
        if pid != 0 && !pids(t).contains(pid) && name is Some {
            let id = "pid:"@ + decimal(pid as nat);
            let cur = prev.push((id, name->0@));
            assert(cur[prev.len() as int].0 == "pid:"@ + decimal(s[s.len() - 1].0 as nat));
            assert forall|i: int| 0 <= i < prev.len() implies prev[i].0 != id by {
                let k = choose|k: int|
                    0 <= k < t.len() && t[k].0 != 0 && #[trigger] prev[i].0 == "pid:"@ + decimal(
                        t[k].0 as nat,
                    );
                if prev[i].0 == id {
                    reveal_strlit("pid:");
                    assert(("pid:"@ + decimal(t[k].0 as nat)).skip(4) == decimal(t[k].0 as nat));
                    assert(id.skip(4) == decimal(pid as nat));
                    lemma_decimal_injective(t[k].0 as nat, pid as nat);
                    assert(pids(t)[k] == pid);
                }
            }
            let ids = cur.map_values(|e: (Seq<char>, Seq<char>)| e.0);
            let prev_ids = prev.map_values(|e: (Seq<char>, Seq<char>)| e.0);
            assert(ids == prev_ids.push(id));
            assert forall|a: int, b: int| 0 <= a < b < ids.len() implies ids[a] != ids[b] by {
                if b < prev_ids.len() {
                    assert(prev_ids[a] != prev_ids[b]);
                } else {
                    assert(ids[a] == prev[a].0);
                }
            }
        }
    }
}

/// Every process appears at most once in the application list.
pub proof fn lemma_sessions_listed_once(s: Seq<(u32, Option<String>)>)
    ensures
        session_list(s).map_values(|e: (Seq<char>, Seq<char>)| e.0).no_duplicates(),
{
    lemma_session_entries(s);
}

} // verus!
