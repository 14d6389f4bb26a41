//! Commit-message templates. A template may hold the placeholders
//! `{timestamp}`, `{date}` and `{time}`; rendering replaces each occurrence,
//! left to right and without overlap, by the current local time. The
//! substitution is a literal substring replacement: double braces are not
//! special, and unmatched tokens pass through unchanged.

use vstd::prelude::*;
use crate::strutil::{matches_at, check_match_at, to_chars, from_chars};

verus! {

/// `s` with every occurrence of `pat` replaced by `sub`, scanning left to
/// right without overlap — the semantics of `str::replace`.
pub open spec fn spec_replace(s: Seq<char>, pat: Seq<char>, sub: Seq<char>) -> Seq<char>
    recommends
        pat.len() > 0,
    decreases s.len(),
{
    if s.len() < pat.len() || pat.len() == 0 {
        s
    } else if s.subrange(0, pat.len() as int) == pat {
        sub + spec_replace(s.skip(pat.len() as int), pat, sub)
    } else {
        seq![s[0]] + spec_replace(s.skip(1), pat, sub)
    }
}

/// The timestamp, date and time placeholders.
pub open spec fn spec_timestamp_token() -> Seq<char> {
    "{timestamp}"@
}

pub open spec fn spec_date_token() -> Seq<char> {
    "{date}"@
}

pub open spec fn spec_time_token() -> Seq<char> {
    "{time}"@
}

/// A template rendered against the given timestamp, date and time strings:
/// first `{timestamp}`, then `{date}`, then `{time}` is replaced.
pub open spec fn spec_rendered(
    template: Seq<char>,
    timestamp: Seq<char>,
    date: Seq<char>,
    time: Seq<char>,
) -> Seq<char> {
    spec_replace(
        spec_replace(spec_replace(template, spec_timestamp_token(), timestamp), spec_date_token(), date),
        spec_time_token(),
        time,
    )
}

/// The current local time, rendered three ways.
pub struct LocalStamp {
    /// `YYYY-MM-DD HH:MM:SS`
    pub timestamp: String,
    /// `YYYY-MM-DD`
    pub date: String,
    /// `HH:MM:SS`
    pub time: String,
}

/// Relies on chrono's `Local::now` and `DateTime::format`: one instant is
/// read and formatted with `%Y-%m-%d %H:%M:%S`, `%Y-%m-%d` and `%H:%M:%S`,
/// so the timestamp is the date, one space, and the time; `%H`, `%M` and
/// `%S` are two digits each, and `%Y` at least four.
#[verifier::external_body]
pub fn local_stamp() -> (r: LocalStamp)
    ensures
        r.timestamp@ == r.date@ + " "@ + r.time@,
        r.time@.len() == 8,
        r.date@.len() >= 10,
{
    let now = chrono::Local::now();
    LocalStamp {
        timestamp: now.format("%Y-%m-%d %H:%M:%S").to_string(),
        date: now.format("%Y-%m-%d").to_string(),
        time: now.format("%H:%M:%S").to_string(),
    }
}

/// Replaces every occurrence of `pat` in `s` by `sub`, left to right.
pub fn replace_chars(s: &Vec<char>, pat: &Vec<char>, sub: &Vec<char>) -> (r: Vec<char>)
    requires
        pat@.len() > 0,
    ensures
        r@ == spec_replace(s@, pat@, sub@),
{
    let mut r: Vec<char> = Vec::new();
    let mut i: usize = 0;
    proof {
        assert(s@.skip(0) =~= s@);
    }
    while i < s.len()
        invariant
            pat@.len() > 0,
            i <= s@.len(),
            spec_replace(s@, pat@, sub@) == r@ + spec_replace(s@.skip(i as int), pat@, sub@),
        decreases s@.len() - i,
    {
        let ghost r_before = r@;
        if check_match_at(s, i, pat) {
            proof {
                let rest = s@.skip(i as int);
                assert(rest.subrange(0, pat@.len() as int) =~= s@.subrange(
                    i as int,
                    i + pat@.len() as int,
                ));
                assert(rest.skip(pat@.len() as int) =~= s@.skip(i + pat@.len() as int));
                assert(spec_replace(rest, pat@, sub@) == sub@ + spec_replace(
                    s@.skip(i + pat@.len() as int),
                    pat@,
                    sub@,
                ));
            }
            let mut k: usize = 0;
            while k < sub.len()
                invariant
                    k <= sub@.len(),
                    r@ =~= r_before + sub@.subrange(0, k as int),
                decreases sub@.len() - k,
            {
                r.push(sub[k]);
                k = k + 1;
            }
            proof {
                assert(r@ =~= r_before + sub@);
                assert((r_before + sub@) + spec_replace(s@.skip(i + pat@.len() as int), pat@, sub@)
                    =~= r_before + (sub@ + spec_replace(s@.skip(i + pat@.len() as int), pat@, sub@)));
            }
            i = i + pat.len();
        } else {
            proof {
                let rest = s@.skip(i as int);
                if rest.len() >= pat@.len() {
                    assert(rest.subrange(0, pat@.len() as int) =~= s@.subrange(
                        i as int,
                        i + pat@.len() as int,
                    ));
                    assert(rest.subrange(0, pat@.len() as int) != pat@);
                }
                assert(rest.skip(1) =~= s@.skip(i + 1));
                assert(rest =~= seq![s@[i as int]] + s@.skip(i + 1));
                assert(spec_replace(rest, pat@, sub@) == seq![s@[i as int]] + spec_replace(
                    s@.skip(i + 1),
                    pat@,
                    sub@,
                ));
                assert((r_before + seq![s@[i as int]]) + spec_replace(s@.skip(i + 1), pat@, sub@)
                    =~= r_before + (seq![s@[i as int]] + spec_replace(s@.skip(i + 1), pat@, sub@)));
            }
            r.push(s[i]);
            i = i + 1;
        }
    }
    proof {
        assert(s@.skip(s@.len() as int) =~= Seq::<char>::empty());
    }
    r
}

/// `template` with each placeholder replaced by the matching field of
/// `stamp`: `{timestamp}` first, then `{date}`, then `{time}`.
pub fn render_template(template: &str, stamp: &LocalStamp) -> (r: String)
    ensures
        r@ == spec_rendered(template@, stamp.timestamp@, stamp.date@, stamp.time@),
{
    let tpl = to_chars(template);
    let ts_tok = to_chars("{timestamp}");
    let d_tok = to_chars("{date}");
    let t_tok = to_chars("{time}");
    proof {
        reveal_strlit("{timestamp}");
        reveal_strlit("{date}");
        reveal_strlit("{time}");
    }
    let ts = to_chars(stamp.timestamp.as_str());
    let d = to_chars(stamp.date.as_str());
    let t = to_chars(stamp.time.as_str());
    let step1 = replace_chars(&tpl, &ts_tok, &ts);
    let step2 = replace_chars(&step1, &d_tok, &d);
    let step3 = replace_chars(&step2, &t_tok, &t);
    from_chars(&step3)
}

/// The commit message for a template, rendered at the current local time:
/// the result is the template with `{timestamp}`, `{date}` and `{time}`
/// replaced by the strings of one freshly read local instant.
pub fn format_commit_message(template: &str) -> (r: String)
    ensures
        exists|date: Seq<char>, time: Seq<char>|
            {
                &&& r@ == spec_rendered(template@, date + " "@ + time, date, time)
                &&& time.len() == 8
                &&& date.len() >= 10
            },
{
    let stamp = local_stamp();
    let r = render_template(template, &stamp);
    proof {
        let date = stamp.date@;
        let time = stamp.time@;
        assert(r@ == spec_rendered(template@, date + " "@ + time, date, time));
    }
    r
}

/// Replacement never changes a string in which the pattern does not occur.
pub proof fn lemma_replace_absent(s: Seq<char>, pat: Seq<char>, sub: Seq<char>)
    requires
        pat.len() > 0,
        forall|i: int| 0 <= i <= s.len() - pat.len() ==> !matches_at(s, i, pat),
    ensures
        spec_replace(s, pat, sub) == s,
    decreases s.len(),
{
    if s.len() < pat.len() {
    } else if s.subrange(0, pat.len() as int) == pat {
        assert(matches_at(s, 0, pat));
    } else {
        assert forall|i: int| 0 <= i <= s.skip(1).len() - pat.len() implies !matches_at(
            s.skip(1),
            i,
            pat,
        ) by {
            if matches_at(s.skip(1), i, pat) {
                assert(s.skip(1).subrange(i, i + pat.len() as int) =~= s.subrange(
                    i + 1,
                    i + 1 + pat.len() as int,
                ));
                assert(matches_at(s, i + 1, pat));
            }
        }
        lemma_replace_absent(s.skip(1), pat, sub);
        assert(seq![s[0]] + s.skip(1) =~= s);
    }
}

/// A template that holds no `{` holds no placeholder, so rendering leaves
/// it unchanged, whatever the timestamp, date and time are.
pub proof fn lemma_template_without_brace_unchanged(
    template: Seq<char>,
    timestamp: Seq<char>,
    date: Seq<char>,
    time: Seq<char>,
)
    requires
        forall|i: int| 0 <= i < template.len() ==> template[i] != '{',
    ensures
        spec_rendered(template, timestamp, date, time) == template,
{
    reveal_strlit("{timestamp}");
    reveal_strlit("{date}");
    reveal_strlit("{time}");
    assert forall|i: int| 0 <= i <= template.len() - spec_timestamp_token().len() implies !matches_at(
        template,
        i,
        spec_timestamp_token(),
    ) by {
        if matches_at(template, i, spec_timestamp_token()) {
            assert(template.subrange(i, i + spec_timestamp_token().len() as int)[0] == '{');
            assert(template[i] == '{');
        }
    }
    lemma_replace_absent(template, spec_timestamp_token(), timestamp);
    assert forall|i: int| 0 <= i <= template.len() - spec_date_token().len() implies !matches_at(
        template,
        i,
        spec_date_token(),
    ) by {
        if matches_at(template, i, spec_date_token()) {
            assert(template.subrange(i, i + spec_date_token().len() as int)[0] == '{');
            assert(template[i] == '{');
        }
    }
    lemma_replace_absent(template, spec_date_token(), date);
    assert forall|i: int| 0 <= i <= template.len() - spec_time_token().len() implies !matches_at(
        template,
        i,
        spec_time_token(),
    ) by {
        if matches_at(template, i, spec_time_token()) {
            assert(template.subrange(i, i + spec_time_token().len() as int)[0] == '{');
            assert(template[i] == '{');
        }
    }
    lemma_replace_absent(template, spec_time_token(), time);
}

} // verus!
