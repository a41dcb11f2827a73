//! Rules of the recording commands: state conflicts, recording names and
//! recording summaries.
use vstd::prelude::*;

use crate::error::AutomationError;
use crate::model::recording::{total_delay_us, Recording};
use crate::model::state::EngineState;
use crate::text::{
    ascii_alphanumeric, chars_of, char_is_alphanumeric, is_alphanumeric, string_from_chars, trim,
    trim_bounds,
};

verus! {

/// The longest accepted recording name, in bytes.
pub const NAME_MAX_LEN: usize = 100;

/// The error for a recording command that found the engine in `actual`.
pub open spec fn recording_conflict(actual: EngineState) -> AutomationError {
    match actual {
        EngineState::Recording => AutomationError::AlreadyRecording,
        EngineState::Replaying => AutomationError::AlreadyReplaying,
        EngineState::Stopping => AutomationError::AlreadyReplaying,
        EngineState::Idle => AutomationError::NotRecording,
    }
}

/// Maps the state that blocked a recording command to its error.
pub fn state_conflict(actual: EngineState) -> (e: AutomationError)
    ensures
        e == recording_conflict(actual),
{
    match actual {
        EngineState::Recording => AutomationError::AlreadyRecording,
        EngineState::Replaying | EngineState::Stopping => AutomationError::AlreadyReplaying,
        EngineState::Idle => AutomationError::NotRecording,
    }
}

/// Why recording cannot start without the input listener.
pub open spec fn listener_missing_message() -> Seq<char> {
    "input listener is not running (check accessibility permission)"@
}

/// Recording needs the input listener: once the engine has switched to
/// recording, a listener that is not running makes the command fail with
/// this error (and the engine goes back to idle).
pub fn require_listener(running: bool) -> (r: Result<(), AutomationError>)
    ensures
        running <==> r is Ok,
        !running ==> (r matches Err(AutomationError::ListenerUnavailable(m)) && m@
            == listener_missing_message()),
{
    if running {
        Ok(())
    } else {
        Err(
            AutomationError::ListenerUnavailable(
                String::from_str("input listener is not running (check accessibility permission)"),
            ),
        )
    }
}

/// Characters kept in a recording name: letters, digits, `-`, `_`, space
/// and `.`.
pub open spec fn name_char_allowed(c: char) -> bool {
    char_is_alphanumeric(c) || c == '-' || c == '_' || c == ' ' || c == '.'
}

/// `s` with the characters that are not allowed in names dropped.
pub open spec fn keep_name_chars(s: Seq<char>) -> Seq<char>
    decreases s.len(),
{
    if s.len() == 0 {
        s
    } else if name_char_allowed(s.last()) {
        keep_name_chars(s.drop_last()).push(s.last())
    } else {
        keep_name_chars(s.drop_last())
    }
}

/// Whether a name keeps `c`, given whether `c` is a letter or digit.
pub open spec fn name_char_kept(c: char, alphanumeric: bool) -> bool {
    alphanumeric || c == '-' || c == '_' || c == ' ' || c == '.'
}

/// `s` with the characters that are not allowed in names dropped, where
/// `flags[i]` tells whether `s[i]` is a letter or digit.
pub open spec fn keep_flagged(s: Seq<char>, flags: Seq<bool>) -> Seq<char>
    decreases s.len(),
{
    if s.len() == 0 {
        s
    } else if name_char_kept(s.last(), flags[s.len() - 1]) {
        keep_flagged(s.drop_last(), flags.drop_last()).push(s.last())
    } else {
        keep_flagged(s.drop_last(), flags.drop_last())
    }
}

/// Flags that agree with ASCII: no ASCII character but a letter or digit is
/// flagged as one.
pub open spec fn flags_fit_ascii(s: Seq<char>, flags: Seq<bool>) -> bool {
    forall|i: int|
        0 <= i < s.len() && #[trigger] flags[i] && (s[i] as u32) < 0x80 ==> ascii_alphanumeric(s[i])
}

/// Whether `s` holds a path separator, `/` or `\`.
pub open spec fn has_path_separator(s: Seq<char>) -> bool {
    exists|i: int| 0 <= i < s.len() && (s[i] == '/' || s[i] == '\\')
}

/// The outcome of sanitizing a name: the cleaned name, or the message of
/// the error.
pub open spec fn sanitized_name(name: Seq<char>) -> Result<Seq<char>, Seq<char>> {
    let t = trim(name);
    if t.len() == 0 {
        Err("recording name must not be empty"@)
    } else if utf8_len(t) > NAME_MAX_LEN {
        Err("recording name too long (max 100 chars)"@)
    } else {
        let c = keep_name_chars(t);
        if trim(c).len() == 0 || c[0] == '.' {
            Err("recording name contains no usable characters"@)
        } else {
            Ok(c)
        }
    }
}

/// The number of bytes of `c` in UTF-8.
pub open spec fn utf8_width(c: char) -> nat {
    if (c as u32) < 0x80 {
        1
    } else if (c as u32) < 0x800 {
        2
    } else if (c as u32) < 0x10000 {
        3
    } else {
        4
    }
}

/// The number of bytes of `s` in UTF-8.
pub open spec fn utf8_len(s: Seq<char>) -> nat
    decreases s.len(),
{
    if s.len() == 0 {
        0
    } else {
        utf8_len(s.drop_last()) + utf8_width(s.last())
    }
}

proof fn lemma_utf8_len_prefix(s: Seq<char>, i: int)
    requires
        0 <= i <= s.len(),
    ensures
        utf8_len(s.take(i)) <= utf8_len(s),
    decreases s.len() - i,
{
    if i < s.len() {
        lemma_utf8_len_prefix(s, i + 1);
        assert(s.take(i + 1).drop_last() =~= s.take(i));
    } else {
        assert(s.take(i) =~= s);
    }
}

fn char_width(c: char) -> (w: usize)
    ensures
        w == utf8_width(c),
{
    let v = c as u32;
    if v < 0x80 {
        1
    } else if v < 0x800 {
        2
    } else if v < 0x10000 {
        3
    } else {
        4
    }
}

/// Whether `chars[from..to]` takes more than `limit` bytes in UTF-8.
fn utf8_len_exceeds(chars: &Vec<char>, from: usize, to: usize, limit: usize) -> (r: bool)
    requires
        from <= to <= chars.len(),
        limit < usize::MAX - 4,
    ensures
        r == (utf8_len(chars@.subrange(from as int, to as int)) > limit),
{
    let ghost s = chars@.subrange(from as int, to as int);
    let mut total: usize = 0;
    let mut k = from;
    while k < to
        invariant
            from <= k <= to <= chars.len(),
            s == chars@.subrange(from as int, to as int),
            total == utf8_len(s.take(k - from)),
            total <= limit,
            limit < usize::MAX - 4,
        decreases to - k,
    {
        proof {
            assert(s.take(k - from + 1).drop_last() =~= s.take(k - from));
        }
        total = total + char_width(chars[k]);
        k = k + 1;
        if total > limit {
            proof {
                lemma_utf8_len_prefix(s, k - from);
            }
            return true;
        }
    }
    assert(s.take(k - from) =~= s);
    false
}

/// Keeps the characters of `chars` allowed in names: those flagged as
/// letters or digits in `alphanumeric`, and `-`, `_`, space and `.`.
pub fn keep_allowed_chars(chars: &Vec<char>, alphanumeric: &Vec<bool>) -> (kept: Vec<char>)
    requires
        alphanumeric.len() == chars.len(),
    ensures
        kept@ == keep_flagged(chars@, alphanumeric@),
{
    let mut kept: Vec<char> = Vec::new();
    let mut i: usize = 0;
    while i < chars.len()
        invariant
            i <= chars.len(),
            alphanumeric.len() == chars.len(),
            kept@ == keep_flagged(chars@.take(i as int), alphanumeric@.take(i as int)),
        decreases chars.len() - i,
    {
        proof {
            assert(chars@.take(i + 1).drop_last() =~= chars@.take(i as int));
            assert(alphanumeric@.take(i + 1).drop_last() =~= alphanumeric@.take(i as int));
        }
        let c = chars[i];
        if alphanumeric[i] || c == '-' || c == '_' || c == ' ' || c == '.' {
            kept.push(c);
        }
        i = i + 1;
    }
    assert(chars@.take(i as int) =~= chars@);
    assert(alphanumeric@.take(i as int) =~= alphanumeric@);
    kept
}

proof fn lemma_keep_flagged_is_keep_name_chars(s: Seq<char>, flags: Seq<bool>)
    requires
        flags.len() == s.len(),
        forall|i: int| 0 <= i < s.len() ==> flags[i] == char_is_alphanumeric(s[i]),
    ensures
        keep_flagged(s, flags) == keep_name_chars(s),
    decreases s.len(),
{
    if s.len() > 0 {
        let n = s.len() - 1;
        assert(flags[n] == char_is_alphanumeric(s[n]));
        lemma_keep_flagged_is_keep_name_chars(s.drop_last(), flags.drop_last());
    }
}

proof fn lemma_keep_flagged_no_separator(s: Seq<char>, flags: Seq<bool>)
    requires
        flags.len() == s.len(),
        flags_fit_ascii(s, flags),
    ensures
        !has_path_separator(keep_flagged(s, flags)),
    decreases s.len(),
{
    if s.len() > 0 {
        let init = s.drop_last();
        let finit = flags.drop_last();
        assert forall|i: int|
            0 <= i < init.len() && #[trigger] finit[i] && (init[i] as u32) < 0x80 implies ascii_alphanumeric(
            init[i],
        ) by {
            assert(flags[i] == finit[i] && s[i] == init[i]);
        }
        lemma_keep_flagged_no_separator(init, finit);
        let k = keep_flagged(init, finit);
        let n = s.len() - 1;
        if name_char_kept(s.last(), flags[n]) {
            let k2 = k.push(s.last());
            assert(flags[n] && (s[n] as u32) < 0x80 ==> ascii_alphanumeric(s[n]));
            assert(s.last() != '/' && s.last() != '\\');
            if has_path_separator(k2) {
                let j = choose|j: int| 0 <= j < k2.len() && (k2[j] == '/' || k2[j] == '\\');
                if j < k.len() {
                    assert(k2[j] == k[j]);
                }
            }
        }
    }
}

/// A copy of `chars[from..to]`.
fn chars_in(chars: &Vec<char>, from: usize, to: usize) -> (v: Vec<char>)
    requires
        from <= to <= chars.len(),
    ensures
        v@ == chars@.subrange(from as int, to as int),
{
    let mut v: Vec<char> = Vec::new();
    let mut k: usize = from;
    while k < to
        invariant
            from <= k <= to <= chars.len(),
            v@ == chars@.subrange(from as int, k as int),
        decreases to - k,
    {
        v.push(chars[k]);
        k = k + 1;
        assert(v@ =~= chars@.subrange(from as int, k as int));
    }
    v
}

/// The letter-or-digit flags of `chars[from..to]`, from `char::is_alphanumeric`.
fn alphanumeric_flags(chars: &Vec<char>, from: usize, to: usize) -> (flags: Vec<bool>)
    requires
        from <= to <= chars.len(),
    ensures
        flags.len() == to - from,
        forall|i: int|
            0 <= i < to - from ==> flags@[i] == char_is_alphanumeric(chars@[from + i]),
        flags_fit_ascii(chars@.subrange(from as int, to as int), flags@),
{
    let mut flags: Vec<bool> = Vec::new();
    let mut k: usize = from;
    while k < to
        invariant
            from <= k <= to <= chars.len(),
            flags.len() == k - from,
            forall|i: int|
                0 <= i < k - from ==> flags@[i] == char_is_alphanumeric(chars@[from + i]),
            forall|i: int|
                0 <= i < k - from && #[trigger] flags@[i] && (chars@[from + i] as u32) < 0x80
                    ==> ascii_alphanumeric(chars@[from + i]),
        decreases to - k,
    {
        let b = is_alphanumeric(chars[k]);
        flags.push(b);
        k = k + 1;
    }
    let ghost t = chars@.subrange(from as int, to as int);
    assert forall|i: int|
        0 <= i < t.len() && #[trigger] flags@[i] && (t[i] as u32) < 0x80 implies ascii_alphanumeric(
        t[i],
    ) by {
        assert(t[i] == chars@[from + i]);
    }
    flags
}

/// Makes a user-given name usable as a file name: trims it, rejects empty
/// and over-long names, drops every character but letters, digits, `-`,
/// `_`, space and `.`, and rejects what is left if it is blank or starts
/// with a dot.
pub fn sanitize_name(name: &str) -> (r: Result<String, AutomationError>)
    ensures
        match sanitized_name(name@) {
            Ok(c) => r matches Ok(s) && s@ == c,
            Err(m) => r matches Err(e) && e matches AutomationError::InvalidFile(s) && s@ == m,
        },
        r matches Ok(s) ==> !has_path_separator(s@),
{
    let chars = chars_of(name);
    let (from, to) = trim_bounds(&chars);
    if from == to {
        return Err(
            AutomationError::InvalidFile(String::from_str("recording name must not be empty")),
        );
    }
    if utf8_len_exceeds(&chars, from, to, NAME_MAX_LEN) {
        return Err(
            AutomationError::InvalidFile(
                String::from_str("recording name too long (max 100 chars)"),
            ),
        );
    }
    let flags = alphanumeric_flags(&chars, from, to);
    let sub = chars_in(&chars, from, to);
    let cleaned = keep_allowed_chars(&sub, &flags);
    proof {
        assert forall|i: int| 0 <= i < sub@.len() implies flags@[i] == char_is_alphanumeric(
            sub@[i],
        ) by {
            assert(sub@[i] == chars@[from + i]);
        }
        lemma_keep_flagged_is_keep_name_chars(sub@, flags@);
        lemma_keep_flagged_no_separator(sub@, flags@);
    }
    let (cfrom, cto) = trim_bounds(&cleaned);
    assert(cleaned@.subrange(cfrom as int, cto as int).len() == cto - cfrom);
    if cfrom == cto || cleaned[0] == '.' {
        return Err(
            AutomationError::InvalidFile(
                String::from_str("recording name contains no usable characters"),
            ),
        );
    }
    let out = string_from_chars(&cleaned, 0, cleaned.len());
    assert(cleaned@.subrange(0, cleaned@.len() as int) =~= cleaned@);
    Ok(out)
}

/// `idx` picks `a` out of `b`: it names, in increasing order, a position of
/// `b` for each character of `a`, holding that character.
pub open spec fn picks(idx: Seq<int>, a: Seq<char>, b: Seq<char>) -> bool {
    &&& idx.len() == a.len()
    &&& forall|i: int, j: int| 0 <= i < j < idx.len() ==> idx[i] < idx[j]
    &&& forall|i: int| 0 <= i < idx.len() ==> 0 <= #[trigger] idx[i] < b.len() && a[i] == b[idx[i]]
}

/// `a` is `b` with some characters left out (and none added or reordered).
pub open spec fn is_subsequence(a: Seq<char>, b: Seq<char>) -> bool {
    exists|idx: Seq<int>| #[trigger] picks(idx, a, b)
}

/// The positions of `s` whose characters [`keep_name_chars`] keeps.
spec fn kept_positions(s: Seq<char>) -> Seq<int>
    decreases s.len(),
{
    if s.len() == 0 {
        Seq::empty()
    } else if name_char_allowed(s.last()) {
        kept_positions(s.drop_last()).push(s.len() - 1)
    } else {
        kept_positions(s.drop_last())
    }
}

proof fn lemma_keep_name_chars(s: Seq<char>)
    ensures
        picks(kept_positions(s), keep_name_chars(s), s),
        forall|i: int|
            0 <= i < keep_name_chars(s).len() ==> name_char_allowed(#[trigger] keep_name_chars(s)[i]),
        utf8_len(keep_name_chars(s)) <= utf8_len(s),
    decreases s.len(),
{
    if s.len() > 0 {
        let init = s.drop_last();
        lemma_keep_name_chars(init);
        let k = keep_name_chars(init);
        let p = kept_positions(init);
        if name_char_allowed(s.last()) {
            let k2 = k.push(s.last());
            let p2 = p.push(s.len() - 1);
            assert(k2.drop_last() =~= k);
            assert forall|i: int| 0 <= i < p2.len() implies 0 <= #[trigger] p2[i] < s.len() && k2[i]
                == s[p2[i]] by {
                if i < p.len() {
                    assert(p2[i] == p[i]);
                    assert(k2[i] == k[i]);
                    assert(s[p[i]] == init[p[i]]);
                }
            }
            assert forall|i: int, j: int| 0 <= i < j < p2.len() implies p2[i] < p2[j] by {
                if j < p.len() {
                    assert(p2[i] == p[i] && p2[j] == p[j]);
                } else {
                    assert(p2[i] == p[i]);
                    assert(0 <= p[i] < init.len());
                }
            }
            assert forall|i: int| 0 <= i < k2.len() implies name_char_allowed(#[trigger] k2[i]) by {
                if i < k.len() {
                    assert(k2[i] == k[i]);
                }
            }
        } else {
            assert forall|i: int| 0 <= i < p.len() implies 0 <= #[trigger] p[i] < s.len() && k[i]
                == s[p[i]] by {
                assert(s[p[i]] == init[p[i]]);
            }
        }
    }
}

/// What an accepted name is: when [`sanitize_name`] accepts `name`, the
/// result is not blank, takes at most [`NAME_MAX_LEN`] bytes in UTF-8, does
/// not start with a dot, holds only letters, digits, `-`, `_`, space and
/// `.`, and is the trimmed name with some characters left out. (That it
/// holds no path separator, [`sanitize_name`] states itself: which
/// characters are letters or digits is known there, from the call that
/// decides it.)
pub proof fn lemma_accepted_name(name: Seq<char>)
    requires
        sanitized_name(name) is Ok,
    ensures
        ({
            let c = sanitized_name(name)->Ok_0;
            &&& trim(c).len() > 0
            &&& utf8_len(c) <= NAME_MAX_LEN
            &&& c[0] != '.'
            &&& forall|i: int| 0 <= i < c.len() ==> name_char_allowed(#[trigger] c[i])
            &&& is_subsequence(c, trim(name))
        }),
{
    let t = trim(name);
    lemma_keep_name_chars(t);
    assert(picks(kept_positions(t), keep_name_chars(t), t));
}

/// A saved recording's summary.
#[derive(Debug, Clone)]
pub struct RecordingMeta {
    pub name: String,
    pub version: u32,
    pub action_count: usize,
    pub duration_ms: u64,
}

/// The summary of `recording` saved under `name`.
pub fn meta_of(name: &str, recording: &Recording) -> (m: RecordingMeta)
    requires
        total_delay_us(recording.actions@) <= u64::MAX,
    ensures
        m.name@ == name@,
        m.version == recording.version,
        m.action_count == recording.actions@.len(),
        m.duration_ms == total_delay_us(recording.actions@) / 1000,
{
    RecordingMeta {
        name: String::from_str(name),
        version: recording.version,
        action_count: recording.actions.len(),
        duration_ms: recording.total_duration_ms(),
    }
}

/// Lexicographic order of names by code point (the byte order of their
/// UTF-8 text): whether `a` comes strictly before `b`.
pub open spec fn name_lt(a: Seq<char>, b: Seq<char>) -> bool
    decreases a.len(),
{
    if b.len() == 0 {
        false
    } else if a.len() == 0 {
        true
    } else if a[0] != b[0] {
        (a[0] as int) < (b[0] as int)
    } else {
        name_lt(a.drop_first(), b.drop_first())
    }
}

/// Inserts `m` into a list ordered by descending name, after every entry
/// whose name is not smaller (so equal names keep their arrival order).
pub open spec fn insert_by_name_desc(sorted: Seq<RecordingMeta>, m: RecordingMeta) -> Seq<
    RecordingMeta,
>
    decreases sorted.len(),
{
    if sorted.len() == 0 {
        seq![m]
    } else if !name_lt(sorted.last().name@, m.name@) {
        sorted.push(m)
    } else {
        insert_by_name_desc(sorted.drop_last(), m).push(sorted.last())
    }
}

/// `metas` stably sorted by descending name.
pub open spec fn sorted_by_name_desc(metas: Seq<RecordingMeta>) -> Seq<RecordingMeta>
    decreases metas.len(),
{
    if metas.len() == 0 {
        metas
    } else {
        insert_by_name_desc(sorted_by_name_desc(metas.drop_last()), metas.last())
    }
}

proof fn lemma_name_lt_skip(a: Seq<char>, b: Seq<char>, i: int)
    requires
        0 <= i < a.len(),
        i < b.len(),
        a[i] == b[i],
    ensures
        name_lt(a.skip(i), b.skip(i)) == name_lt(a.skip(i + 1), b.skip(i + 1)),
{
    assert(a.skip(i).drop_first() =~= a.skip(i + 1));
    assert(b.skip(i).drop_first() =~= b.skip(i + 1));
}

/// Whether name `a` comes strictly before name `b`.
fn name_less(a: &String, b: &String) -> (r: bool)
    ensures
        r == name_lt(a@, b@),
{
    let x = chars_of(a.as_str());
    let y = chars_of(b.as_str());
    let mut i: usize = 0;
    assert(x@.skip(0) =~= x@);
    assert(y@.skip(0) =~= y@);
    while i < x.len() && i < y.len()
        invariant
            i <= x.len(),
            i <= y.len(),
            x@ == a@,
            y@ == b@,
            name_lt(a@, b@) == name_lt(x@.skip(i as int), y@.skip(i as int)),
        decreases x.len() - i,
    {
        if x[i] != y[i] {
            return x[i] < y[i];
        }
        proof {
            lemma_name_lt_skip(x@, y@, i as int);
        }
        i = i + 1;
    }
    i < y.len()
}

proof fn lemma_insert_from(s: Seq<RecordingMeta>, m: RecordingMeta, k: int)
    requires
        0 <= k <= s.len(),
        forall|j: int| k <= j < s.len() ==> name_lt(#[trigger] s[j].name@, m.name@),
    ensures
        insert_by_name_desc(s, m) == insert_by_name_desc(s.take(k), m) + s.skip(k),
    decreases s.len() - k,
{
    if k < s.len() {
        lemma_insert_from(s, m, k + 1);
        let t = s.take(k + 1);
        assert(t.drop_last() =~= s.take(k));
        assert(t.last() == s[k]);
        assert(insert_by_name_desc(s.take(k + 1), m) == insert_by_name_desc(s.take(k), m).push(
            s[k],
        ));
        assert(insert_by_name_desc(s.take(k), m).push(s[k]) + s.skip(k + 1) =~= insert_by_name_desc(
            s.take(k),
            m,
        ) + s.skip(k));
    } else {
        assert(s.take(k) =~= s);
        assert(s.skip(k) =~= Seq::<RecordingMeta>::empty());
        assert(insert_by_name_desc(s, m) + s.skip(k) =~= insert_by_name_desc(s, m));
    }
}

fn insert_desc(out: &mut Vec<RecordingMeta>, m: RecordingMeta)
    ensures
        final(out)@ == insert_by_name_desc(old(out)@, m),
{
    let ghost s = out@;
    let mut k = out.len();
    while k > 0 && name_less(&out[k - 1].name, &m.name)
        invariant
            k <= out.len(),
            out@ == s,
            forall|j: int| k <= j < s.len() ==> name_lt(#[trigger] s[j].name@, m.name@),
        decreases k,
    {
        k = k - 1;
    }
    proof {
        lemma_insert_from(s, m, k as int);
        let t = s.take(k as int);
        if k > 0 {
            assert(t.last() == s[k - 1]);
            assert(insert_by_name_desc(t, m) == t.push(m));
        } else {
            assert(t =~= Seq::<RecordingMeta>::empty());
        }
        assert(insert_by_name_desc(t, m) + s.skip(k as int) =~= s.insert(k as int, m));
    }
    out.insert(k, m);
}

/// Orders recording summaries by descending name; summaries with equal
/// names keep their order.
pub fn sort_by_name_desc(metas: &mut Vec<RecordingMeta>)
    ensures
        final(metas)@ == sorted_by_name_desc(old(metas)@),
{
    let mut input: Vec<RecordingMeta> = Vec::new();
    std::mem::swap(&mut input, metas);
    let ghost orig = input@;
    let n = input.len();
    let mut out: Vec<RecordingMeta> = Vec::new();
    assert(orig.skip(0) =~= orig);
    assert(orig.take(0) =~= Seq::<RecordingMeta>::empty());
    while input.len() > 0
        invariant
            input.len() <= n == orig.len(),
            input@ == orig.skip(n - input.len()),
            out@ == sorted_by_name_desc(orig.take(n - input.len())),
        decreases input.len(),
    {
        let ghost done = n - input.len();
        let m = input.remove(0);
        proof {
            assert(orig.take(done + 1).drop_last() =~= orig.take(done));
            assert(orig.take(done + 1).last() == m);
            assert(input@ =~= orig.skip(done + 1));
        }
        insert_desc(&mut out, m);
    }
    assert(orig.take(n as int) =~= orig);
    *metas = out;
}

proof fn lemma_name_lt_asymmetric(a: Seq<char>, b: Seq<char>)
    ensures
        name_lt(a, b) ==> !name_lt(b, a),
    decreases a.len(),
{
    if a.len() > 0 && b.len() > 0 && a[0] == b[0] {
        lemma_name_lt_asymmetric(a.drop_first(), b.drop_first());
    }
}

proof fn lemma_name_lt_split(a: Seq<char>, b: Seq<char>, c: Seq<char>)
    ensures
        name_lt(a, c) ==> name_lt(a, b) || name_lt(b, c),
    decreases a.len(),
{
    if a.len() > 0 && b.len() > 0 && c.len() > 0 && a[0] == b[0] && b[0] == c[0] {
        lemma_name_lt_split(a.drop_first(), b.drop_first(), c.drop_first());
    }
}

proof fn lemma_insert_multiset(s: Seq<RecordingMeta>, m: RecordingMeta)
    ensures
        insert_by_name_desc(s, m).to_multiset() == s.to_multiset().insert(m),
    decreases s.len(),
{
    broadcast use vstd::seq_lib::group_to_multiset_ensures;

    if s.len() == 0 {
        assert(seq![m] =~= Seq::<RecordingMeta>::empty().push(m));
    } else if !name_lt(s.last().name@, m.name@) {
    } else {
        let init = s.drop_last();
        lemma_insert_multiset(init, m);
        assert(s =~= init.push(s.last()));
        assert(insert_by_name_desc(s, m).to_multiset() =~= s.to_multiset().insert(m));
    }
}

/// Whether `s` is ordered by descending name.
pub open spec fn is_name_desc(s: Seq<RecordingMeta>) -> bool {
    forall|i: int, j: int|
        0 <= i < j < s.len() ==> !name_lt(#[trigger] s[i].name@, #[trigger] s[j].name@)
}

proof fn lemma_insert_sorted(s: Seq<RecordingMeta>, m: RecordingMeta)
    requires
        is_name_desc(s),
    ensures
        is_name_desc(insert_by_name_desc(s, m)),
    decreases s.len(),
{
    broadcast use vstd::seq_lib::group_to_multiset_ensures;

    if s.len() == 0 {
    } else if !name_lt(s.last().name@, m.name@) {
        let r = s.push(m);
        assert forall|i: int, j: int| 0 <= i < j < r.len() implies !name_lt(
            #[trigger] r[i].name@,
            #[trigger] r[j].name@,
        ) by {
            if j == s.len() {
                if i < s.len() - 1 {
                    assert(!name_lt(s[i].name@, s[s.len() - 1].name@));
                    lemma_name_lt_split(s[i].name@, s.last().name@, m.name@);
                }
            } else {
                assert(r[i] == s[i] && r[j] == s[j]);
            }
        }
    } else {
        let init = s.drop_last();
        let last = s.last();
        assert(is_name_desc(init)) by {
            assert forall|i: int, j: int| 0 <= i < j < init.len() implies !name_lt(
                #[trigger] init[i].name@,
                #[trigger] init[j].name@,
            ) by {
                assert(init[i] == s[i] && init[j] == s[j]);
            }
        }
        lemma_insert_sorted(init, m);
        lemma_insert_multiset(init, m);
        let t = insert_by_name_desc(init, m);
        let r = t.push(last);
        lemma_name_lt_asymmetric(last.name@, m.name@);
        assert forall|i: int, j: int| 0 <= i < j < r.len() implies !name_lt(
            #[trigger] r[i].name@,
            #[trigger] r[j].name@,
        ) by {
            if j == t.len() {
                let x = t[i];
                assert(t.to_multiset().count(x) > 0);
                assert(t.contains(x));
                if x != m {
                    assert(init.to_multiset().count(x) > 0);
                    let k = choose|k: int| 0 <= k < init.len() && init[k] == x;
                    assert(s[k] == x);
                    assert(!name_lt(s[k].name@, s[s.len() - 1].name@));
                }
            } else {
                assert(r[i] == t[i] && r[j] == t[j]);
            }
        }
    }
}

/// The summaries come out ordered by descending name, each summary exactly
/// as often as it came in.
pub proof fn lemma_sorted_by_name_desc(metas: Seq<RecordingMeta>)
    ensures
        is_name_desc(sorted_by_name_desc(metas)),
        sorted_by_name_desc(metas).to_multiset() == metas.to_multiset(),
    decreases metas.len(),
{
    broadcast use vstd::seq_lib::group_to_multiset_ensures;

    if metas.len() > 0 {
        let init = metas.drop_last();
        lemma_sorted_by_name_desc(init);
        lemma_insert_sorted(sorted_by_name_desc(init), metas.last());
        lemma_insert_multiset(sorted_by_name_desc(init), metas.last());
        assert(metas =~= init.push(metas.last()));
    }
}

} // verus!
