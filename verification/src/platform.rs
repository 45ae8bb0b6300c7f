//! Linux integration decided from plain values: XDG directory resolution,
//! the download directory from `user-dirs.dirs`, the autostart desktop
//! entry, and the single-instance handshake over a Unix socket.

use vstd::prelude::*;
use vstd::string::*;
use crate::text::{
    chars_of, has_prefix, join_path, joined, owned, path_join, replace_all, replace_chars, string_of,
    trim, trim_range,
};
use crate::types::{opt_string_view, AppError};

verus! {

/// The application's XDG base directories, each ending in `whatnull`.
pub struct XdgPaths {
    pub config_dir: String,
    pub data_dir: String,
    pub cache_dir: String,
    pub state_dir: String,
}

/// `<XDG variable, or home joined with fallback>/whatnull`.
pub open spec fn xdg_dir(var: Option<Seq<char>>, home: Seq<char>, fallback: Seq<char>) -> Seq<char> {
    let base = match var {
        Some(v) => v,
        None => path_join(home, fallback),
    };
    path_join(base, "whatnull"@)
}

fn xdg_dir_of(var: Option<String>, home: &str, fallback: &str) -> (r: String)
    ensures
        r@ == xdg_dir(opt_string_view(var), home@, fallback@),
{
    let base = match var {
        Some(v) => v,
        None => join_path(home, fallback),
    };
    join_path(base.as_str(), "whatnull")
}

impl XdgPaths {
    /// Resolves the directories from the values of `HOME`, `XDG_CONFIG_HOME`,
    /// `XDG_DATA_HOME`, `XDG_CACHE_HOME` and `XDG_STATE_HOME` (`None` where a
    /// variable is unset or not Unicode). Without `HOME` this fails.
    pub fn from_env(
        home: Option<String>,
        config_home: Option<String>,
        data_home: Option<String>,
        cache_home: Option<String>,
        state_home: Option<String>,
    ) -> (r: Result<XdgPaths, AppError>)
        ensures
            home is None <==> r is Err,
            r matches Err(e) ==> e matches AppError::Platform(m) && m@
                == "HOME environment variable not set"@,
            r matches Ok(p) ==> {
                let h = home->0@;
                &&& p.config_dir@ == xdg_dir(opt_string_view(config_home), h, ".config"@)
                &&& p.data_dir@ == xdg_dir(opt_string_view(data_home), h, ".local/share"@)
                &&& p.cache_dir@ == xdg_dir(opt_string_view(cache_home), h, ".cache"@)
                &&& p.state_dir@ == xdg_dir(opt_string_view(state_home), h, ".local/state"@)
            },
    {
        let home = match home {
            Some(h) => h,
            None => return Err(AppError::Platform(owned("HOME environment variable not set"))),
        };
        Ok(XdgPaths {
            config_dir: xdg_dir_of(config_home, home.as_str(), ".config"),
            data_dir: xdg_dir_of(data_home, home.as_str(), ".local/share"),
            cache_dir: xdg_dir_of(cache_home, home.as_str(), ".cache"),
            state_dir: xdg_dir_of(state_home, home.as_str(), ".local/state"),
        })
    }
}

/// A line as `str::lines` yields it: without its `\n`, and without a `\r`
/// that came right before that `\n`.
pub open spec fn strip_cr(line: Seq<char>) -> Seq<char> {
    if line.len() > 0 && line.last() == '\r' {
        line.drop_last()
    } else {
        line
    }
}

/// The lines of `s[start..]` that `str::lines` yields, given that no `\n`
/// occurs in `s[start..i]`.
pub open spec fn lines_from(s: Seq<char>, start: int, i: int) -> Seq<Seq<char>>
    decreases s.len() - i,
{
    if i < start || i >= s.len() {
        if 0 <= start < s.len() {
            seq![s.subrange(start, s.len() as int)]
        } else {
            seq![]
        }
    } else if s[i] == '\n' {
        seq![strip_cr(s.subrange(start, i))] + lines_from(s, i + 1, i + 1)
    } else {
        lines_from(s, start, i + 1)
    }
}

/// `str::lines`: `s` split at each `\n`, a `\r` before the `\n` dropped, and
/// no empty line after a final `\n`.
pub open spec fn lines(s: Seq<char>) -> Seq<Seq<char>> {
    lines_from(s, 0, 0)
}

/// The key that sets the download directory in `user-dirs.dirs`.
pub open spec fn download_key() -> Seq<char> {
    "XDG_DOWNLOAD_DIR="@
}

/// The raw value a line assigns to the download directory: the trimmed line
/// must start with `XDG_DOWNLOAD_DIR=` and split at `=` into exactly two
/// parts; the value is the second part.
pub open spec fn download_entry(line: Seq<char>) -> Option<Seq<char>> {
    let t = trim(line);
    if has_prefix(t, download_key()) && !t.skip(download_key().len() as int).contains('=') {
        Some(t.skip(download_key().len() as int))
    } else {
        None
    }
}

/// The value of the first line among `ls` that assigns the download directory.
pub open spec fn first_download_entry(ls: Seq<Seq<char>>) -> Option<Seq<char>>
    decreases ls.len(),
{
    if ls.len() == 0 {
        None
    } else if download_entry(ls[0]) is Some {
        download_entry(ls[0])
    } else {
        first_download_entry(ls.drop_first())
    }
}

/// `s` without leading double quotes.
pub open spec fn trim_start_quotes(s: Seq<char>) -> Seq<char>
    decreases s.len(),
{
    if s.len() > 0 && s[0] == '"' {
        trim_start_quotes(s.drop_first())
    } else {
        s
    }
}

/// `s` without trailing double quotes.
pub open spec fn trim_end_quotes(s: Seq<char>) -> Seq<char>
    decreases s.len(),
{
    if s.len() > 0 && s.last() == '"' {
        trim_end_quotes(s.drop_last())
    } else {
        s
    }
}

/// The directory an entry names: surrounding quotes removed (`trim_matches`),
/// then `$HOME` and afterwards `${HOME}` replaced by the home directory.
pub open spec fn expand_download_entry(entry: Seq<char>, home: Seq<char>) -> Seq<char> {
    let unquoted = trim_end_quotes(trim_start_quotes(entry));
    replace_all(replace_all(unquoted, "$HOME"@, home), "${HOME}"@, home)
}

/// The download directory for the home directory `home`, given the contents
/// of `~/.config/user-dirs.dirs` (or `None` when it cannot be read). `None`
/// means that `home` is empty, in which case the system temporary directory
/// is used. Without a usable entry it is `~/Downloads`.
pub open spec fn download_dir(home: Seq<char>, user_dirs: Option<Seq<char>>) -> Option<Seq<char>> {
    if home.len() == 0 {
        None
    } else {
        match user_dirs {
            Some(content) => match first_download_entry(lines(content)) {
                Some(entry) => Some(expand_download_entry(entry, home)),
                None => Some(path_join(home, "Downloads"@)),
            },
            None => Some(path_join(home, "Downloads"@)),
        }
    }
}

proof fn lemma_trim_quotes_start(s: Seq<char>, i: int)
    requires
        0 <= i <= s.len(),
        forall|k: int| 0 <= k < i ==> #[trigger] s[k] == '"',
    ensures
        trim_start_quotes(s) == trim_start_quotes(s.subrange(i, s.len() as int)),
    decreases i,
{
    if i > 0 {
        assert(s.drop_first().subrange(i - 1, s.drop_first().len() as int) =~= s.subrange(i, s.len() as int));
        lemma_trim_quotes_start(s.drop_first(), i - 1);
    } else {
        assert(s.subrange(0, s.len() as int) =~= s);
    }
}

proof fn lemma_trim_quotes_end(s: Seq<char>, j: int)
    requires
        0 <= j <= s.len(),
        forall|k: int| j <= k < s.len() ==> #[trigger] s[k] == '"',
    ensures
        trim_end_quotes(s) == trim_end_quotes(s.subrange(0, j)),
    decreases s.len() - j,
{
    if j < s.len() {
        assert(s.drop_last().subrange(0, j) =~= s.subrange(0, j));
        lemma_trim_quotes_end(s.drop_last(), j);
    } else {
        assert(s.subrange(0, j) =~= s);
    }
}

/// The bounds of `c[from..to]` without surrounding double quotes.
fn trim_quotes_range(c: &Vec<char>, from: usize, to: usize) -> (r: (usize, usize))
    requires
        from <= to <= c@.len(),
    ensures
        from <= r.0 <= r.1 <= to,
        c@.subrange(r.0 as int, r.1 as int) == trim_end_quotes(
            trim_start_quotes(c@.subrange(from as int, to as int)),
        ),
{
    let ghost v = c@.subrange(from as int, to as int);
    let mut i: usize = from;
    while i < to && c[i] == '"'
        invariant
            from <= i <= to <= c@.len(),
            v == c@.subrange(from as int, to as int),
            forall|k: int| 0 <= k < i - from ==> #[trigger] v[k] == '"',
        decreases to - i,
    {
        i = i + 1;
    }
    proof {
        lemma_trim_quotes_start(v, i - from);
        assert(v.subrange(i - from, v.len() as int) =~= c@.subrange(i as int, to as int));
    }
    let ghost rest = c@.subrange(i as int, to as int);
    assert(trim_start_quotes(rest) == rest);
    let mut j: usize = to;
    while j > i && c[j - 1] == '"'
        invariant
            from <= i <= j <= to <= c@.len(),
            rest == c@.subrange(i as int, to as int),
            forall|k: int| j <= k < to ==> #[trigger] c@[k] == '"',
        decreases j,
    {
        j = j - 1;
    }
    proof {
        assert forall|k: int| j - i <= k < rest.len() implies #[trigger] rest[k] == '"' by {
            assert(rest[k] == c@[k + i]);
        }
        lemma_trim_quotes_end(rest, j - i);
        let t = rest.subrange(0, j - i);
        assert(t =~= c@.subrange(i as int, j as int));
        if t.len() > 0 {
            assert(t.last() == c@[j - 1]);
        }
        assert(trim_end_quotes(t) == t);
    }
    (i, j)
}

/// The bounds of the value that `c[from..to]`, as a line, assigns to the
/// download directory.
fn line_entry(c: &Vec<char>, from: usize, to: usize) -> (r: Option<(usize, usize)>)
    requires
        from <= to <= c@.len(),
    ensures
        match r {
            Some((a, b)) => a <= b <= c@.len() && download_entry(c@.subrange(from as int, to as int))
                == Some(c@.subrange(a as int, b as int)),
            None => download_entry(c@.subrange(from as int, to as int)) is None,
        },
{
    let (ts, te) = trim_range(c, from, to);
    let ghost t = c@.subrange(ts as int, te as int);
    let key = chars_of("XDG_DOWNLOAD_DIR=");
    let kn = key.len();
    assert(key@ == download_key());
    assert(t == trim(c@.subrange(from as int, to as int)));
    if te - ts < kn {
        return None;
    }
    let mut k: usize = 0;
    while k < kn
        invariant
            kn == key@.len(),
            key@ == download_key(),
            ts + kn <= te <= c@.len(),
            t == c@.subrange(ts as int, te as int),
            t == trim(c@.subrange(from as int, to as int)),
            k <= kn,
            forall|j: int| 0 <= j < k ==> t[j] == key@[j],
        decreases kn - k,
    {
        if c[ts + k] != key[k] {
            assert(t.subrange(0, kn as int)[k as int] != key@[k as int]);
            return None;
        }
        k = k + 1;
    }
    assert(t.subrange(0, kn as int) =~= download_key());
    let start = ts + kn;
    let mut i: usize = start;
    while i < te
        invariant
            ts + kn == start,
            kn == download_key().len(),
            start <= i <= te <= c@.len(),
            t == c@.subrange(ts as int, te as int),
            t == trim(c@.subrange(from as int, to as int)),
            has_prefix(t, download_key()),
            forall|j: int| start <= j < i ==> c@[j] != '=',
        decreases te - i,
    {
        if c[i] == '=' {
            assert(t.skip(kn as int)[i - start] == '=');
            return None;
        }
        i = i + 1;
    }
    assert(t.skip(kn as int) =~= c@.subrange(start as int, te as int));
    assert forall|j: int| 0 <= j < t.skip(kn as int).len() implies t.skip(kn as int)[j] != '=' by {
        assert(t.skip(kn as int)[j] == c@[start + j]);
    }
    Some((start, te))
}

proof fn lemma_first_entry_cons(x: Seq<char>, rest: Seq<Seq<char>>)
    ensures
        first_download_entry(seq![x] + rest) == if download_entry(x) is Some {
            download_entry(x)
        } else {
            first_download_entry(rest)
        },
{
    assert((seq![x] + rest)[0] == x);
    assert((seq![x] + rest).drop_first() =~= rest);
}

/// The value of the first line of `c` that assigns the download directory.
fn find_download_entry(c: &Vec<char>) -> (r: Option<(usize, usize)>)
    ensures
        match r {
            Some((a, b)) => a <= b <= c@.len() && first_download_entry(lines(c@)) == Some(
                c@.subrange(a as int, b as int),
            ),
            None => first_download_entry(lines(c@)) is None,
        },
{
    let n = c.len();
    let mut start: usize = 0;
    let mut i: usize = 0;
    while i < n
        invariant
            n == c@.len(),
            start <= i <= n,
            first_download_entry(lines(c@)) == first_download_entry(
                lines_from(c@, start as int, i as int),
            ),
        decreases n - i,
    {
        if c[i] == '\n' {
            let mut end = i;
            if end > start && c[end - 1] == '\r' {
                end = end - 1;
            }
            proof {
                let line = c@.subrange(start as int, i as int);
                assert(strip_cr(line) =~= c@.subrange(start as int, end as int));
                lemma_first_entry_cons(strip_cr(line), lines_from(c@, i + 1, i + 1));
            }
            match line_entry(c, start, end) {
                Some(range) => {
                    return Some(range);
                },
                None => {},
            }
            start = i + 1;
        }
        i = i + 1;
    }
    if start < n {
        proof {
            let line = c@.subrange(start as int, n as int);
            assert(lines_from(c@, start as int, n as int) == seq![line]);
            lemma_first_entry_cons(line, seq![]);
            assert(seq![line] + Seq::<Seq<char>>::empty() =~= seq![line]);
            assert(first_download_entry(Seq::<Seq<char>>::empty()) is None);
        }
        line_entry(c, start, n)
    } else {
        None
    }
}

/// Where downloads go for the home directory `home`, given the contents of
/// `~/.config/user-dirs.dirs` when it could be read. `None` means that `home`
/// is empty and the system temporary directory is to be used.
pub fn download_dir_for(home: &str, user_dirs: Option<String>) -> (r: Option<String>)
    ensures
        opt_string_view(r) == download_dir(home@, opt_string_view(user_dirs)),
{
    if home.unicode_len() == 0 {
        return None;
    }
    match user_dirs {
        Some(content) => {
            let c = chars_of(content.as_str());
            match find_download_entry(&c) {
                Some((a, b)) => {
                    let (qa, qb) = trim_quotes_range(&c, a, b);
                    let mut unquoted: Vec<char> = Vec::new();
                    let mut k: usize = qa;
                    while k < qb
                        invariant
                            qa <= k <= qb <= c@.len(),
                            unquoted@ == c@.subrange(qa as int, k as int),
                        decreases qb - k,
                    {
                        unquoted.push(c[k]);
                        assert(unquoted@ =~= c@.subrange(qa as int, k + 1));
                        k = k + 1;
                    }
                    let h = chars_of(home);
                    let dollar_home = chars_of("$HOME");
                    let braced_home = chars_of("${HOME}");
                    proof {
                        reveal_strlit("$HOME");
                        reveal_strlit("${HOME}");
                    }
                    let once = replace_chars(&unquoted, &dollar_home, &h);
                    let twice = replace_chars(&once, &braced_home, &h);
                    let out = string_of(&twice, 0, twice.len());
                    assert(twice@.subrange(0, twice@.len() as int) =~= twice@);
                    Some(out)
                },
                None => Some(join_path(home, "Downloads")),
            }
        },
        None => Some(join_path(home, "Downloads")),
    }
}

/// Where autostart desktop entries live for the user.
pub struct AutostartManager {
    autostart_dir: String,
}

/// The desktop entry that starts WhatNull at login, running `exe`.
pub open spec fn desktop_entry_text(exe: Seq<char>) -> Seq<char> {
    "[Desktop Entry]\nType=Application\nVersion=1.0\nName=WhatNull\nComment=WhatsApp Desktop Client\nExec="@
        + exe + " --started-at-boot\nIcon=whatnull\nTerminal=false\nCategories=Network;InstantMessaging;\nX-GNOME-Autostart-enabled=true\n"@
}

impl AutostartManager {
    /// The autostart directory.
    pub closed spec fn dir(self) -> Seq<char> {
        self.autostart_dir@
    }

    /// Uses `<home>/.config/autostart` for the value of `HOME`; fails
    /// without it.
    pub fn new(home: Option<String>) -> (r: Result<Self, AppError>)
        ensures
            home is None <==> r is Err,
            r matches Err(e) ==> e matches AppError::Platform(m) && m@
                == "HOME environment variable not set"@,
            r matches Ok(a) ==> a.dir() == path_join(home->0@, ".config/autostart"@),
    {
        match home {
            Some(h) => Ok(AutostartManager { autostart_dir: join_path(h.as_str(), ".config/autostart") }),
            None => Err(AppError::Platform(owned("HOME environment variable not set"))),
        }
    }

    /// The autostart directory.
    pub fn autostart_dir(&self) -> (r: &str)
        ensures
            r@ == self.dir(),
    {
        self.autostart_dir.as_str()
    }

    /// `<autostart dir>/whatnull.desktop`, whose presence means autostart is on.
    pub fn desktop_file_path(&self) -> (r: String)
        ensures
            r@ == path_join(self.dir(), "whatnull.desktop"@),
    {
        join_path(self.autostart_dir.as_str(), "whatnull.desktop")
    }

    /// The contents written to the desktop file, for the executable `exe`.
    pub fn desktop_entry(exe: &str) -> (r: String)
        ensures
            r@ == desktop_entry_text(exe@),
    {
        let mut r = owned(
            "[Desktop Entry]\nType=Application\nVersion=1.0\nName=WhatNull\nComment=WhatsApp Desktop Client\nExec=",
        );
        r.append(exe);
        r.append(
            " --started-at-boot\nIcon=whatnull\nTerminal=false\nCategories=Network;InstantMessaging;\nX-GNOME-Autostart-enabled=true\n",
        );
        r
    }
}

/// `<runtime dir>/whatnull-<profile_id>.sock`, the socket that makes one
/// instance per profile.
pub open spec fn socket_path_of(runtime_dir: Seq<char>, profile_id: Seq<char>) -> Seq<char> {
    path_join(runtime_dir, "whatnull-"@ + profile_id + ".sock"@)
}

/// The socket path of the instance for `profile_id`, under `runtime_dir`
/// (`XDG_RUNTIME_DIR`, or the temporary directory when it is unset).
pub fn socket_path(runtime_dir: &str, profile_id: &str) -> (r: String)
    ensures
        r@ == socket_path_of(runtime_dir@, profile_id@),
{
    let mut name = joined("whatnull-", profile_id);
    name.append(".sock");
    join_path(runtime_dir, name.as_str())
}

/// The bytes a second instance sends to ask the first to show its window.
pub open spec fn focus_signal() -> Seq<u8> {
    seq![0x66u8, 0x6fu8, 0x63u8, 0x75u8, 0x73u8]
}

/// Whether the bytes read from a connection are the focus request `focus`.
pub fn is_focus_signal(received: &[u8]) -> (r: bool)
    ensures
        r == (received@ == focus_signal()),
{
    let r = received.len() == 5 && received[0] == 0x66 && received[1] == 0x6f && received[2] == 0x63
        && received[3] == 0x75 && received[4] == 0x73;
    proof {
        if r {
            assert(received@ =~= focus_signal());
        }
    }
    r
}

/// The step of the single-instance handshake that just ran.
#[derive(Debug, Clone, Copy, PartialEq, Eq, Structural)]
pub enum InstanceStep {
    /// Binding the socket for the first time.
    Bind,
    /// Connecting to the instance that holds the socket.
    Connect,
    /// Binding again after removing a stale socket file.
    Rebind,
}

/// What that step reported.
pub enum InstanceEvent {
    Bound,
    BindFailed { address_in_use: bool, message: String },
    Connected,
    ConnectFailed,
}

/// What to do next.
pub enum InstanceAction {
    /// This is the primary instance: keep the socket and listen on it.
    BecomePrimary,
    /// Another instance may hold the socket: connect to it.
    ConnectToPrimary,
    /// Another instance is running: send it the focus request and exit.
    SignalPrimary,
    /// Nobody answers on the socket: remove the stale file and bind again.
    RemoveStaleAndRebind,
    /// Give up with this error.
    Fail(AppError),
}

/// Whether `event` can follow `step`.
pub open spec fn event_fits(step: InstanceStep, event: InstanceEvent) -> bool {
    match step {
        InstanceStep::Bind | InstanceStep::Rebind => event is Bound || event is BindFailed,
        InstanceStep::Connect => event is Connected || event is ConnectFailed,
    }
}

/// The single-instance handshake: bind the profile's socket; if its address
/// is in use, connect to it and, when that works, hand over to the running
/// instance; when nobody answers, remove the stale socket and bind once more.
pub fn next_instance_action(step: InstanceStep, event: InstanceEvent) -> (r: InstanceAction)
    requires
        event_fits(step, event),
    ensures
        match (step, event) {
            (InstanceStep::Bind, InstanceEvent::Bound) => r is BecomePrimary,
            (InstanceStep::Bind, InstanceEvent::BindFailed { address_in_use, message }) =>
                if address_in_use {
                    r is ConnectToPrimary
                } else {
                    r matches InstanceAction::Fail(AppError::Platform(m)) && m@
                        == "Failed to bind to socket: "@ + message@
                },
            (InstanceStep::Connect, InstanceEvent::Connected) => r is SignalPrimary,
            (InstanceStep::Connect, InstanceEvent::ConnectFailed) => r is RemoveStaleAndRebind,
            (InstanceStep::Rebind, InstanceEvent::Bound) => r is BecomePrimary,
            (InstanceStep::Rebind, InstanceEvent::BindFailed { message, .. }) => r matches InstanceAction::Fail(
                AppError::Platform(m),
            ) && m@ == "Failed to bind to socket after removing stale file: "@ + message@,
            _ => false,
        },
{
    match (step, event) {
        (InstanceStep::Bind, InstanceEvent::Bound) => InstanceAction::BecomePrimary,
        (InstanceStep::Bind, InstanceEvent::BindFailed { address_in_use, message }) => {
            if address_in_use {
                InstanceAction::ConnectToPrimary
            } else {
                InstanceAction::Fail(
                    AppError::Platform(joined("Failed to bind to socket: ", message.as_str())),
                )
            }
        },
        (InstanceStep::Connect, InstanceEvent::Connected) => InstanceAction::SignalPrimary,
        (InstanceStep::Connect, _) => InstanceAction::RemoveStaleAndRebind,
        (_, InstanceEvent::Bound) => InstanceAction::BecomePrimary,
        (_, InstanceEvent::BindFailed { message, .. }) => InstanceAction::Fail(
            AppError::Platform(
                joined("Failed to bind to socket after removing stale file: ", message.as_str()),
            ),
        ),
        (_, _) => InstanceAction::ConnectToPrimary,
    }
}

} // verus!
