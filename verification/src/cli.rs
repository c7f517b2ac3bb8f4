//! The command-line tool's decisions: where its files live, the daemon's PID file,
//! and self-update (version comparison, platform asset, checksum, cached checks).
use vstd::prelude::*;
use crate::prompt::{path_join, join_path, config_dir_for, config_dir_from, home_dir};
use crate::text::{owned, push_str, str_eq, is_ws, is_whitespace, trim, trimmed, chars_of, string_of, decimal, join,
    join_strings, views};
use crate::lines::{lines, lines_of};
use crate::crypto::{hex, to_hex};
use crate::mqtt::{lowercase, to_lowercase};

verus! {

broadcast use vstd::string::group_string_axioms;

/// The configuration directory: `~/.opencrust` (`.opencrust` when the home
/// directory is unknown).
pub fn opencrust_dir() -> (r: String)
    ensures
        exists|home: Option<Seq<char>>| r@ == config_dir_for(home),
{
    let home = home_dir();
    config_dir_from(&home)
}

/// The daemon's PID file, `opencrust.pid` in the configuration directory.
pub fn pid_file_path() -> (r: String)
    ensures
        exists|home: Option<Seq<char>>| r@ == path_join(config_dir_for(home), "opencrust.pid"@),
{
    join_path(opencrust_dir().as_str(), "opencrust.pid")
}

/// The daemon's log file, `opencrust.log` in the configuration directory.
pub fn log_file_path() -> (r: String)
    ensures
        exists|home: Option<Seq<char>>| r@ == path_join(config_dir_for(home), "opencrust.log"@),
{
    join_path(opencrust_dir().as_str(), "opencrust.log")
}

/// The update-check cache, `update-check.json` in the configuration directory.
pub fn cache_path() -> (r: String)
    ensures
        exists|home: Option<Seq<char>>| r@ == path_join(config_dir_for(home), "update-check.json"@),
{
    join_path(opencrust_dir().as_str(), "update-check.json")
}

/// Whether `c` is an ASCII digit.
pub open spec fn is_digit(c: char) -> bool {
    '0' <= c && c <= '9'
}

/// The value of a string of decimal digits.
pub open spec fn digits_value(s: Seq<char>) -> nat
    decreases s.len(),
{
    if s.len() == 0 {
        0
    } else {
        digits_value(s.drop_last()) * 10 + ((s.last() as u32) - 48) as nat
    }
}

/// What `str::parse::<u32>` gives: an optional `+`, then at least one digit and
/// nothing else, with a value that fits.
pub open spec fn parsed_u32(s: Seq<char>) -> Option<u32> {
    if digit_part(s).len() > 0 && all_digits(digit_part(s)) && digits_value(digit_part(s)) <= u32::MAX {
        Some(digits_value(digit_part(s)) as u32)
    } else {
        None
    }
}

/// `s` without one leading `+`.
pub open spec fn digit_part(s: Seq<char>) -> Seq<char> {
    if s.len() > 0 && s[0] == '+' {
        s.drop_first()
    } else {
        s
    }
}

/// Whether every character is a digit.
pub open spec fn all_digits(d: Seq<char>) -> bool {
    forall|i: int| 0 <= i < d.len() ==> is_digit(#[trigger] d[i])
}

/// `s` parsed as a `u32` (`str::parse`).
pub fn parse_u32(s: &str) -> (r: Option<u32>)
    ensures
        r == parsed_u32(s@),
{
    let v = chars_of(s);
    let start: usize = if v.len() > 0 && v[0] == '+' { 1 } else { 0 };
    let ghost d = digit_part(s@);
    assert(d =~= v@.subrange(start as int, v@.len() as int));
    if start == v.len() {
        return None;
    }
    let mut value: u64 = 0;
    let mut i: usize = start;
    while i < v.len()
        invariant
            v@ == s@,
            start <= i <= v@.len(),
            d == v@.subrange(start as int, v@.len() as int),
            d == digit_part(s@),
            forall|k: int| start <= k < i ==> is_digit(#[trigger] v@[k]),
            value == digits_value(v@.subrange(start as int, i as int)),
            value <= u32::MAX,
        decreases v@.len() - i,
    {
        let c = v[i];
        if !('0' <= c && c <= '9') {
            assert(d[i - start] == v@[i as int]);
            assert(!is_digit(d[i - start]));
            assert(!all_digits(d));
            assert(parsed_u32(s@) is None);
            return None;
        }
        assert(v@.subrange(start as int, i + 1).drop_last() =~= v@.subrange(start as int, i as int));
        let next = value * 10 + ((c as u32) - 48) as u64;
        if next > 4294967295u64 {
            proof {
                assert(digits_value(v@.subrange(start as int, i + 1)) > u32::MAX);
                if all_digits(d) {
                    assert(d.take(i + 1 - start) =~= v@.subrange(start as int, i + 1));
                    lemma_digits_grow(d, (i + 1 - start) as int);
                }
                assert(parsed_u32(s@) is None);
            }
            return None;
        }
        value = next;
        i += 1;
    }
    assert(v@.subrange(start as int, i as int) =~= d);
    Some(value as u32)
}

/// A longer run of digits has at least the value of its prefix.
pub proof fn lemma_digits_grow(d: Seq<char>, k: int)
    requires
        0 <= k <= d.len(),
        all_digits(d),
    ensures
        digits_value(d) >= digits_value(d.take(k)),
    decreases d.len(),
{
    if k < d.len() {
        assert(d.drop_last().take(k) =~= d.take(k));
        lemma_digits_grow(d.drop_last(), k);
    } else {
        assert(d.take(k) =~= d);
    }
}

/// The PID in the PID file's text: the trimmed text parsed as a number.
pub fn parse_pid(text: &str) -> (r: Option<u32>)
    ensures
        r == parsed_u32(trim(text@)),
{
    let t = trimmed(text);
    parse_u32(t.as_str())
}

/// The value of a digit character.
pub proof fn lemma_digit_char_value(k: nat)
    requires
        k < 10,
    ensures
        is_digit(crate::text::digit_char(k)),
        ((crate::text::digit_char(k) as u32) - 48) as nat == k,
{
}

/// The decimal text of a number is all digits, with that value.
pub proof fn lemma_decimal_digits(n: nat)
    ensures
        decimal(n).len() > 0,
        all_digits(decimal(n)),
        digits_value(decimal(n)) == n,
        !is_ws(decimal(n)[0]),
        !is_ws(decimal(n).last()),
        decimal(n)[0] != '+',
    decreases n,
{
    let d = decimal(n);
    if n < 10 {
        lemma_digit_char_value(n);
        assert(d == seq![crate::text::digit_char(n)]);
        assert(d.drop_last() =~= Seq::<char>::empty());
        assert(d.last() == crate::text::digit_char(n));
        assert(digits_value(d.drop_last()) == 0);
        assert(digits_value(d) == digits_value(d.drop_last()) * 10 + ((d.last() as u32) - 48) as nat);
    } else {
        lemma_decimal_digits(n / 10);
        lemma_digit_char_value(n % 10);
        let p = decimal(n / 10);
        assert(d == p.push(crate::text::digit_char(n % 10)));
        assert(d.drop_last() =~= p);
        assert forall|i: int| 0 <= i < d.len() implies is_digit(#[trigger] d[i]) by {
            if i < p.len() {
                assert(d[i] == p[i]);
            }
        }
        assert(d[0] == p[0]);
        assert(d.last() == crate::text::digit_char(n % 10));
        assert(digits_value(d) == digits_value(p) * 10 + ((d.last() as u32) - 48) as nat);
        assert((n / 10) * 10 + n % 10 == n) by (nonlinear_arith);
    }
}

/// A PID written as its decimal text is read back as the same PID.
pub proof fn lemma_pid_round_trip(pid: u32)
    ensures
        parsed_u32(trim(decimal(pid as nat))) == Some(pid),
{
    let d = decimal(pid as nat);
    lemma_decimal_digits(pid as nat);
    crate::text::lemma_trim_start_at(d, 0);
    assert(d.subrange(0, d.len() as int) =~= d);
    crate::text::lemma_trim_end_at(d, d.len() as int);
    assert(trim(d) == d);
    assert(digit_part(d) == d);
}

/// The error when there is no PID file.
pub fn missing_pid_message(pid_path: &str) -> (r: String)
    ensures
        r@ == "no PID file found at "@ + pid_path@,
{
    let mut m = owned("no PID file found at ");
    push_str(&mut m, pid_path);
    m
}

/// `tag` without one leading `v`.
pub open spec fn without_v(tag: Seq<char>) -> Seq<char> {
    if tag.len() > 0 && tag[0] == 'v' {
        tag.drop_first()
    } else {
        tag
    }
}

/// Strip the leading `v` of a version tag.
pub fn strip_v(tag: &str) -> (r: String)
    ensures
        r@ == without_v(tag@),
{
    let v = chars_of(tag);
    if v.len() > 0 && v[0] == 'v' {
        assert(v@.subrange(1, v@.len() as int) =~= tag@.drop_first());
        string_of(&v, 1, v.len())
    } else {
        owned(tag)
    }
}

/// The release asset for a platform, by `std::env::consts::OS` and `ARCH`.
pub open spec fn asset_for(os: Seq<char>, arch: Seq<char>) -> Option<Seq<char>> {
    if os == "macos"@ && arch == "aarch64"@ {
        Some("opencrust-macos-aarch64"@)
    } else if os == "macos"@ && arch == "x86_64"@ {
        Some("opencrust-macos-x86_64"@)
    } else if os == "linux"@ && arch == "x86_64"@ {
        Some("opencrust-linux-x86_64"@)
    } else if os == "linux"@ && arch == "aarch64"@ {
        Some("opencrust-linux-aarch64"@)
    } else if os == "windows"@ && arch == "x86_64"@ {
        Some("opencrust-windows-x86_64.exe"@)
    } else {
        None
    }
}

/// Every release asset is named for its platform: it starts with
/// `opencrust-<os>-<arch>`.
pub proof fn lemma_asset_named_for_platform(os: Seq<char>, arch: Seq<char>)
    ensures
        asset_for(os, arch) matches Some(a) ==> crate::text::is_prefix("opencrust-"@ + os + "-"@ + arch, a),
{
    reveal_strlit("macos");
    reveal_strlit("linux");
    reveal_strlit("windows");
    reveal_strlit("aarch64");
    reveal_strlit("x86_64");
    reveal_strlit("opencrust-");
    reveal_strlit("-");
    reveal_strlit("opencrust-macos-aarch64");
    reveal_strlit("opencrust-macos-x86_64");
    reveal_strlit("opencrust-linux-x86_64");
    reveal_strlit("opencrust-linux-aarch64");
    reveal_strlit("opencrust-windows-x86_64.exe");
    if let Some(a) = asset_for(os, arch) {
        let p = "opencrust-"@ + os + "-"@ + arch;
        if os == "windows"@ {
            assert(a.subrange(0, p.len() as int) =~= p);
        } else {
            assert(a =~= p);
            assert(a.subrange(0, p.len() as int) =~= p);
        }
    }
}

/// Distinct platforms get distinct release assets.
pub proof fn lemma_asset_names_distinct(os1: Seq<char>, arch1: Seq<char>, os2: Seq<char>, arch2: Seq<char>)
    requires
        asset_for(os1, arch1) is Some,
        asset_for(os1, arch1) == asset_for(os2, arch2),
    ensures
        os1 == os2,
        arch1 == arch2,
{
    lemma_asset_named_for_platform(os1, arch1);
    lemma_asset_named_for_platform(os2, arch2);
    reveal_strlit("macos");
    reveal_strlit("linux");
    reveal_strlit("windows");
    reveal_strlit("aarch64");
    reveal_strlit("x86_64");
    reveal_strlit("opencrust-macos-aarch64");
    reveal_strlit("opencrust-macos-x86_64");
    reveal_strlit("opencrust-linux-x86_64");
    reveal_strlit("opencrust-linux-aarch64");
    reveal_strlit("opencrust-windows-x86_64.exe");
    let a = asset_for(os1, arch1)->0;
    // Each supported name is told apart from the others by one of its characters.
    assert("opencrust-macos-aarch64"@[10] == 'm' && "opencrust-linux-x86_64"@[10] == 'l'
        && "opencrust-windows-x86_64.exe"@[10] == 'w');
    assert("opencrust-macos-aarch64"@[16] == 'a' && "opencrust-macos-x86_64"@[16] == 'x');
    assert("opencrust-linux-x86_64"@[16] == 'x' && "opencrust-linux-aarch64"@[16] == 'a');
}

/// The release asset for a platform, or the unsupported-platform error.
pub fn platform_asset_name(os: &str, arch: &str) -> (r: Result<String, String>)
    ensures
        match asset_for(os@, arch@) {
            Some(a) => r matches Ok(s) && s@ == a,
            None => r matches Err(m) && m@ == "unsupported platform: "@ + os@ + "/"@ + arch@,
        },
{
    if str_eq(os, "macos") && str_eq(arch, "aarch64") {
        Ok(owned("opencrust-macos-aarch64"))
    } else if str_eq(os, "macos") && str_eq(arch, "x86_64") {
        Ok(owned("opencrust-macos-x86_64"))
    } else if str_eq(os, "linux") && str_eq(arch, "x86_64") {
        Ok(owned("opencrust-linux-x86_64"))
    } else if str_eq(os, "linux") && str_eq(arch, "aarch64") {
        Ok(owned("opencrust-linux-aarch64"))
    } else if str_eq(os, "windows") && str_eq(arch, "x86_64") {
        Ok(owned("opencrust-windows-x86_64.exe"))
    } else {
        let mut m = owned("unsupported platform: ");
        push_str(&mut m, os);
        push_str(&mut m, "/");
        push_str(&mut m, arch);
        Err(m)
    }
}

/// The notice shown when the cached latest version differs from the running one.
pub fn update_notice(current: &str, cached_latest: &str) -> (r: Option<String>)
    ensures
        without_v(cached_latest@) == current@ ==> r is None,
        without_v(cached_latest@) != current@ ==> (r matches Some(n) && n@ == "Update available: v"@ + current@
            + " -> v"@ + without_v(cached_latest@) + "  \u{2014}  run `opencrust update`"@),
{
    let latest = strip_v(cached_latest);
    if str_eq(latest.as_str(), current) {
        None
    } else {
        let mut m = owned("Update available: v");
        push_str(&mut m, current);
        push_str(&mut m, " -> v");
        push_str(&mut m, latest.as_str());
        push_str(&mut m, "  \u{2014}  run `opencrust update`");
        Some(m)
    }
}

/// Seconds a cached update check stays fresh.
pub const CHECK_TTL_SECS: u64 = 86400;

/// Whether a check made at `checked_at` is still fresh at `now` (a clock that went
/// back counts as fresh).
pub fn check_is_fresh(now: u64, checked_at: u64) -> (r: bool)
    ensures
        r == (if now >= checked_at {
            now - checked_at < CHECK_TTL_SECS
        } else {
            true
        }),
{
    now.saturating_sub(checked_at) < CHECK_TTL_SECS
}

/// How many times stopping the daemon checks whether it exited.
pub const STOP_POLLS: u32 = 20;

/// The pause before each of those checks, in milliseconds.
pub const STOP_POLL_MS: u64 = 250;

/// What stopping the daemon does after a check.
#[derive(Debug, Clone, Copy, PartialEq, Eq, Structural)]
pub enum StopWait {
    /// The process exited: report it and remove the PID file.
    Stopped,
    /// Still running: pause and check again.
    Poll,
    /// Still running after the last check: report that it may still be shutting down.
    GiveUp,
}

/// The step after check number `polls` (counted from 1) found the process
/// `running` or not.
pub fn stop_wait(polls: u32, running: bool) -> (r: StopWait)
    ensures
        r == (if !running {
            StopWait::Stopped
        } else if polls < STOP_POLLS {
            StopWait::Poll
        } else {
            StopWait::GiveUp
        }),
{
    if !running {
        StopWait::Stopped
    } else if polls < STOP_POLLS {
        StopWait::Poll
    } else {
        StopWait::GiveUp
    }
}

/// Seconds since the Unix epoch.
pub fn epoch_secs() -> (t: u64) {
    crate::wechat_fmt::unix_now_secs()
}

/// The release notes shown before updating: their first 20 lines, and whether
/// there are more.
pub fn notes_preview(notes: &str) -> (r: (String, bool))
    ensures
        r.0@ == join(lines(notes@).take(if lines(notes@).len() < 20 { lines(notes@).len() as int } else { 20 }), "\n"@),
        r.1 == (lines(notes@).len() > 20),
{
    let all = lines_of(notes);
    let n = if all.len() < 20 { all.len() } else { 20 };
    let mut first: Vec<String> = Vec::new();
    let mut i: usize = 0;
    while i < n
        invariant
            i <= n <= all@.len(),
            views(first@) == views(all@).take(i as int),
        decreases n - i,
    {
        let ghost before = first@;
        first.push(all[i].clone());
        assert(views(first@) =~= views(before).push(all@[i as int]@));
        assert(views(all@).take(i + 1) =~= views(all@).take(i as int).push(all@[i as int]@));
        i += 1;
    }
    (join_strings(&first, "\n"), all.len() > 20)
}

/// The first whitespace-separated word of `s`.
pub open spec fn first_word(s: Seq<char>) -> Option<Seq<char>> {
    let t = crate::text::trim_start(s);
    if t.len() == 0 {
        None
    } else {
        Some(t.take(word_end(t) as int))
    }
}

/// The length of the leading run of non-whitespace characters.
pub open spec fn word_end(t: Seq<char>) -> nat
    decreases t.len(),
{
    if t.len() == 0 || is_ws(t[0]) {
        0
    } else {
        1 + word_end(t.drop_first())
    }
}

/// The SHA-256 digest of `data`, as ring computes it.
pub uninterp spec fn sha256(data: Seq<u8>) -> Seq<u8>;

/// `ring::digest::digest(&SHA256, data)`. The contract claims that the result is
/// the named function of the data and, as the algorithm fixes, 32 bytes long.
#[verifier::external_body]
pub fn sha256_digest(data: &[u8]) -> (r: Vec<u8>)
    ensures
        r@ == sha256(data@),
        r@.len() == 32,
{
    ring::digest::digest(&ring::digest::SHA256, data).as_ref().to_vec()
}

fn first_word_of(s: &str) -> (r: Option<String>)
    ensures
        match first_word(s@) {
            Some(w) => r matches Some(x) && x@ == w,
            None => r is None,
        },
{
    let v = chars_of(s);
    let mut a: usize = 0;
    while a < v.len() && is_whitespace(v[a])
        invariant
            v@ == s@,
            a <= v@.len(),
            forall|j: int| 0 <= j < a ==> is_ws(#[trigger] v@[j]),
        decreases v@.len() - a,
    {
        a += 1;
    }
    proof {
        crate::text::lemma_trim_start_at(s@, a as int);
    }
    if a == v.len() {
        return None;
    }
    let ghost t = v@.subrange(a as int, v@.len() as int);
    let mut b: usize = a;
    assert(t.skip(0) =~= t);
    while b < v.len() && !is_whitespace(v[b])
        invariant
            v@ == s@,
            a <= b <= v@.len(),
            t == v@.subrange(a as int, v@.len() as int),
            word_end(t) == (b - a) + word_end(t.skip(b - a)),
        decreases v@.len() - b,
    {
        assert(t.skip(b - a)[0] == v@[b as int]);
        assert(t.skip(b - a).drop_first() =~= t.skip(b - a + 1));
        b += 1;
    }
    proof {
        if b < v.len() {
            assert(t.skip(b - a)[0] == v@[b as int]);
        } else {
            assert(t.skip(b - a).len() == 0);
        }
    }
    assert(t.take((b - a) as int) =~= v@.subrange(a as int, b as int));
    Some(string_of(&v, a, b))
}

/// The outcome of checking a download against its checksum file: the file's first
/// word, lower-cased, must be the lower-case hex SHA-256 of the download.
pub open spec fn checksum_outcome(binary: Seq<u8>, checksum_text: Seq<char>) -> Result<(), Seq<char>> {
    match first_word(checksum_text) {
        None => Err("invalid checksum file format"@),
        Some(w) => if lowercase(w) == hex(sha256(binary)) {
            Ok(())
        } else {
            Err("checksum mismatch!\n  expected: "@ + lowercase(w) + "\n  got:      "@ + hex(sha256(binary))
                + "\n\nDownload may be corrupted. Update aborted."@)
        },
    }
}

/// Check a download against the text of its checksum file.
pub fn verify_checksum(binary: &[u8], checksum_text: &str) -> (r: Result<(), String>)
    ensures
        match checksum_outcome(binary@, checksum_text@) {
            Ok(()) => r is Ok,
            Err(m) => r matches Err(e) && e@ == m,
        },
{
    let word = match first_word_of(checksum_text) {
        Some(w) => w,
        None => return Err(owned("invalid checksum file format")),
    };
    let expected = to_lowercase(word.as_str());
    let digest = sha256_digest(binary);
    let actual = to_hex(&digest);
    if str_eq(actual.as_str(), expected.as_str()) {
        Ok(())
    } else {
        let mut m = owned("checksum mismatch!\n  expected: ");
        push_str(&mut m, expected.as_str());
        push_str(&mut m, "\n  got:      ");
        push_str(&mut m, actual.as_str());
        push_str(&mut m, "\n\nDownload may be corrupted. Update aborted.");
        Err(m)
    }
}

/// The name of an asset's checksum file.
pub fn checksum_name(asset_name: &str) -> (r: String)
    ensures
        r@ == asset_name@ + ".sha256"@,
{
    let mut s = owned(asset_name);
    push_str(&mut s, ".sha256");
    s
}

} // verus!
