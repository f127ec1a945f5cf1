//! Log file naming, retention and level filters.
use crate::text::{
    chars_eq, chars_ends_with, chars_of, chars_starts_with, decimal, ends_with, push_chars,
    push_decimal, push_str, starts_with, string_from, string_of, sub_chars,
};
use vstd::prelude::*;

verus! {

/// How long log files are kept, in seconds (seven days).
pub const LOG_RETENTION_SECONDS: u64 = 604800;

/// The tracing filter directive for a settings log level.
pub open spec fn log_filter(level: Seq<char>) -> Seq<char> {
    if level == "Debug"@ {
        "debug"@
    } else if level == "Warning"@ {
        "warn"@
    } else if level == "Error"@ {
        "error"@
    } else {
        "info"@
    }
}

/// The tracing filter directive for a settings log level; unknown levels log
/// at `info`.
pub fn log_filter_for_level(level: &str) -> (r: &'static str)
    ensures
        r@ == log_filter(level@),
{
    let cs = chars_of(level);
    let debug = chars_of("Debug");
    let warning = chars_of("Warning");
    let error = chars_of("Error");
    if chars_eq(cs.as_slice(), debug.as_slice()) {
        "debug"
    } else if chars_eq(cs.as_slice(), warning.as_slice()) {
        "warn"
    } else if chars_eq(cs.as_slice(), error.as_slice()) {
        "error"
    } else {
        "info"
    }
}

/// The new name of a log file in the old daily naming `voiceinsert.log.DATE`:
/// `voiceinsert.DATE.log`. Other names are not migrated.
pub open spec fn legacy_target(file_name: Seq<char>) -> Option<Seq<char>> {
    let prefix = "voiceinsert.log."@;
    if starts_with(file_name, prefix) && file_name.len() > prefix.len() {
        Some("voiceinsert."@ + file_name.skip(prefix.len() as int) + ".log"@)
    } else {
        None
    }
}

/// The name a log file with the old naming is migrated to.
pub fn legacy_log_target_name(file_name: &str) -> (r: Option<String>)
    ensures
        match legacy_target(file_name@) {
            Some(t) => r matches Some(s) && s@ == t,
            None => r is None,
        },
{
    let cs = chars_of(file_name);
    let prefix = chars_of("voiceinsert.log.");
    if !chars_starts_with(cs.as_slice(), prefix.as_slice()) || cs.len() <= prefix.len() {
        return None;
    }
    let date = sub_chars(cs.as_slice(), prefix.len(), cs.len());
    let mut out = string_from("voiceinsert.");
    push_chars(&mut out, date.as_slice());
    push_str(&mut out, ".log");
    proof {
        assert(date@ =~= file_name@.skip(prefix.len() as int));
    }
    Some(out)
}

/// A log file name without its `.log` extension.
pub open spec fn log_stem(name: Seq<char>) -> Seq<char> {
    if ends_with(name, ".log"@) {
        name.take(name.len() - 4)
    } else {
        name
    }
}

/// The `k`-th alternative name for a migrated log file.
pub open spec fn legacy_candidate(name: Seq<char>, k: nat) -> Seq<char> {
    log_stem(name) + ".legacy-"@ + decimal(k) + ".log"@
}

/// The alternative name used once all numbered ones are taken.
pub open spec fn legacy_fallback(name: Seq<char>) -> Seq<char> {
    log_stem(name) + ".legacy.log"@
}

/// `name` is among the names in `taken`.
pub open spec fn name_listed(taken: Seq<String>, name: Seq<char>) -> bool {
    exists|i: int| 0 <= i < taken.len() && (#[trigger] taken[i])@ == name
}

/// The first numbered alternative from the `k`-th to the 99th that is free.
pub open spec fn first_free_candidate(name: Seq<char>, taken: Seq<String>, k: nat) -> Option<nat>
    decreases 100 - k,
{
    if k >= 100 {
        None
    } else if !name_listed(taken, legacy_candidate(name, k)) {
        Some(k)
    } else {
        first_free_candidate(name, taken, k + 1)
    }
}

/// The name a migrated log file gets when the names `taken` exist: its own
/// name when free, else the first free `.legacy-N` name for `N` in `1..100`,
/// else the `.legacy` name.
pub open spec fn available_name(name: Seq<char>, taken: Seq<String>) -> Seq<char> {
    if !name_listed(taken, name) {
        name
    } else {
        match first_free_candidate(name, taken, 1) {
            Some(k) => legacy_candidate(name, k),
            None => legacy_fallback(name),
        }
    }
}

fn listed(taken: &[String], name: &[char]) -> (r: bool)
    ensures
        r == name_listed(taken@, name@),
{
    let mut i: usize = 0;
    while i < taken.len()
        invariant
            i <= taken.len(),
            forall|j: int| 0 <= j < i ==> (#[trigger] taken@[j])@ != name@,
        decreases taken.len() - i,
    {
        let cs = chars_of(taken[i].as_str());
        if chars_eq(cs.as_slice(), name) {
            return true;
        }
        i = i + 1;
    }
    false
}

fn stem_chars(name: &[char]) -> (r: Vec<char>)
    ensures
        r@ == log_stem(name@),
{
    let ext = chars_of(".log");
    proof {
        reveal_strlit(".log");
    }
    if chars_ends_with(name, ext.as_slice()) {
        sub_chars(name, 0, name.len() - ext.len())
    } else {
        let r = sub_chars(name, 0, name.len());
        proof {
            assert(r@ =~= name@);
        }
        r
    }
}

fn candidate_chars(stem: &[char], k: u64) -> (r: Vec<char>)
    ensures
        r@ == stem@ + ".legacy-"@ + decimal(k as nat) + ".log"@,
{
    let mut s = string_of(stem);
    push_str(&mut s, ".legacy-");
    push_decimal(&mut s, k);
    push_str(&mut s, ".log");
    chars_of(s.as_str())
}

/// The name for a migrated log file, given the names that exist in the logs folder.
pub fn available_log_name(file_name: &str, taken: &[String]) -> (r: String)
    ensures
        r@ == available_name(file_name@, taken@),
{
    let name = chars_of(file_name);
    if !listed(taken, name.as_slice()) {
        return string_from(file_name);
    }
    let stem = stem_chars(name.as_slice());
    let mut k: u64 = 1;
    while k < 100
        invariant
            1 <= k <= 100,
            stem@ == log_stem(file_name@),
            name_listed(taken@, file_name@),
            first_free_candidate(file_name@, taken@, 1) == first_free_candidate(
                file_name@,
                taken@,
                k as nat,
            ),
        decreases 100 - k,
    {
        let candidate = candidate_chars(stem.as_slice(), k);
        assert(candidate@ == legacy_candidate(file_name@, k as nat));
        if !listed(taken, candidate.as_slice()) {
            assert(first_free_candidate(file_name@, taken@, k as nat) == Some(k as nat));
            assert(name_listed(taken@, file_name@));
            assert(available_name(file_name@, taken@) == legacy_candidate(file_name@, k as nat));
            return string_of(candidate.as_slice());
        }
        assert(first_free_candidate(file_name@, taken@, k as nat) == first_free_candidate(
            file_name@,
            taken@,
            (k + 1) as nat,
        ));
        k = k + 1;
    }
    assert(first_free_candidate(file_name@, taken@, 100) == None::<nat>);
    let mut s = string_of(stem.as_slice());
    push_str(&mut s, ".legacy.log");
    s
}

/// Whether a log file last modified at `modified` is past `retention` at
/// `now` (times in nanoseconds from the Unix epoch, possibly negative). A file
/// modified after `now` is kept.
pub fn should_delete_log_file(modified: i128, now: i128, retention: u128) -> (r: bool)
    requires
        -0x4000_0000_0000_0000_0000_0000_0000_0000 < modified < 0x4000_0000_0000_0000_0000_0000_0000_0000,
        -0x4000_0000_0000_0000_0000_0000_0000_0000 < now < 0x4000_0000_0000_0000_0000_0000_0000_0000,
    ensures
        r == (modified <= now && now - modified > retention),
{
    if now < modified {
        return false;
    }
    let age = (now - modified) as u128;
    age > retention
}

} // verus!
