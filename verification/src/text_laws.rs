//! What texts, names and numbers are written as.

use vstd::prelude::*;

use crate::change::lock_prefix;
use crate::claimed::{loss_phase_text, no_handler_text, LossPhase};
use crate::environment::{environment_text, Environment};
use crate::error::StoreError;
use crate::job::{finished, mode_text, status_text, JobKeyMode, JobStatus};
use crate::reply::violates;
use crate::source::{hex_char, hex_digits, id_text};
use crate::text::{
    ascii_lower, decimal, digit_char, same_but_for_case, text_of, texts, trimmed, trimmed_end,
    trimmed_start, white_space,
};
use crate::worker::lock_owner_text;
use crate::zone::{answers_to, found_under, is_utc, zone_name};

verus! {

/// An optional text holds what is in it, and a list of texts holds each of them.
pub proof fn law_what_texts_hold(text: String, list: Seq<String>)
    ensures
        text_of(Some(text)) == Some(text@),
        text_of(None) is None,
        texts(list).len() == list.len(),
        forall|i: int| 0 <= i < list.len() ==> #[trigger] texts(list)[i] == list[i]@,
{
}

/// Trimming cuts white space off both ends, and nothing else: what is left stands in the text between
/// two stretches of white space, and neither begins nor ends with any. The lengths of those stretches
/// are the ones that are returned.
pub proof fn law_trimming_cuts_white_space(text: Seq<char>) -> (cut: (int, int))
    ensures
        0 <= cut.0,
        0 <= cut.1,
        cut.0 + cut.1 + trimmed(text).len() == text.len(),
        trimmed(text) == text.subrange(cut.0, text.len() - cut.1),
        forall|i: int| 0 <= i < cut.0 ==> white_space(#[trigger] text[i]),
        forall|i: int| text.len() - cut.1 <= i < text.len() ==> white_space(#[trigger] text[i]),
        trimmed(text).len() > 0 ==> !white_space(trimmed(text).first()) && !white_space(
            trimmed(text).last(),
        ),
{
    let front = lemma_trimmed_start(text);
    let rest = trimmed_start(text);
    let back = lemma_trimmed_end(rest);
    assert forall|i: int| text.len() - back <= i < text.len() implies white_space(
        #[trigger] text[i],
    ) by {
        assert(rest[i - front] == text[i]);
    }
    assert(trimmed(text) =~= text.subrange(front, text.len() - back));
    (front, back)
}

proof fn lemma_trimmed_start(text: Seq<char>) -> (cut: int)
    ensures
        0 <= cut <= text.len(),
        trimmed_start(text) == text.subrange(cut, text.len() as int),
        forall|i: int| 0 <= i < cut ==> white_space(#[trigger] text[i]),
        trimmed_start(text).len() > 0 ==> !white_space(trimmed_start(text).first()),
    decreases text.len(),
{
    if text.len() > 0 && white_space(text.first()) {
        let rest = text.drop_first();
        let cut = lemma_trimmed_start(rest);
        assert forall|i: int| 0 <= i < cut + 1 implies white_space(#[trigger] text[i]) by {
            if i > 0 {
                assert(rest[i - 1] == text[i]);
            }
        }
        assert(trimmed_start(text) =~= text.subrange(cut + 1, text.len() as int));
        cut + 1
    } else {
        assert(text =~= text.subrange(0, text.len() as int));
        0
    }
}

proof fn lemma_trimmed_end(text: Seq<char>) -> (cut: int)
    ensures
        0 <= cut <= text.len(),
        trimmed_end(text) == text.subrange(0, text.len() - cut),
        forall|i: int| text.len() - cut <= i < text.len() ==> white_space(#[trigger] text[i]),
        trimmed_end(text).len() > 0 ==> !white_space(trimmed_end(text).last()),
    decreases text.len(),
{
    if text.len() > 0 && white_space(text.last()) {
        let rest = text.drop_last();
        let cut = lemma_trimmed_end(rest);
        assert forall|i: int| text.len() - cut - 1 <= i < text.len() implies white_space(
            #[trigger] text[i],
        ) by {
            if i < rest.len() {
                assert(rest[i] == text[i]);
            }
        }
        assert(trimmed_end(text) =~= text.subrange(0, text.len() - (cut + 1)));
        cut + 1
    } else {
        assert(text =~= text.subrange(0, text.len() as int));
        0
    }
}

/// White space is the tab, the line feed and what stands between it and the carriage return, the
/// space, the next-line character, and the spaces and separators of Unicode beyond them. No visible
/// ASCII character is one.
pub proof fn law_white_space(c: char)
    ensures
        c == ' ' || c == '\t' || c == '\n' || c == '\r' ==> white_space(c),
        c == '\u{b}' || c == '\u{c}' || c == '\u{85}' || c == '\u{a0}' ==> white_space(c),
        c == '\u{1680}' || c == '\u{2028}' || c == '\u{2029}' || c == '\u{202f}' ==> white_space(c),
        c == '\u{205f}' || c == '\u{3000}' ==> white_space(c),
        0x2000 <= c as u32 <= 0x200a ==> white_space(c),
        c as u32 <= 0x7f && !(9 <= c as u32 <= 13 || c as u32 == 32) ==> !white_space(c),
        white_space(c) && c as u32 > 0x7f ==> c as u32 == 0x85 || c as u32 == 0xa0 || c as u32
            == 0x1680 || 0x2000 <= c as u32 <= 0x200a || 0x2028 <= c as u32 <= 0x2029 || c as u32
            == 0x202f || c as u32 == 0x205f || c as u32 == 0x3000,
{
}

/// Texts are the same but for case where each character of the one is that of the other, or its
/// capital or small letter of the 26 of ASCII.
pub proof fn law_same_but_for_case(left: Seq<char>, right: Seq<char>)
    ensures
        same_but_for_case(left, right) <==> left.len() == right.len() && forall|i: int|
            0 <= i < left.len() ==> {
                let one = (#[trigger] left[i]) as u32;
                let other = right[i] as u32;
                ||| one == other
                ||| 97 <= one <= 122 && one == other + 32
                ||| 97 <= other <= 122 && other == one + 32
            },
{
    assert forall|a: char, b: char|
        (#[trigger] ascii_lower(a) == #[trigger] ascii_lower(b)) == ({
            let one = a as u32;
            let other = b as u32;
            ||| one == other
            ||| 97 <= one <= 122 && one == other + 32
            ||| 97 <= other <= 122 && other == one + 32
        }) by {
        lemma_same_letter(a, b);
    }
    if left.len() == right.len() && forall|i: int|
        0 <= i < left.len() ==> {
            let one = (#[trigger] left[i]) as u32;
            let other = right[i] as u32;
            ||| one == other
            ||| 97 <= one <= 122 && one == other + 32
            ||| 97 <= other <= 122 && other == one + 32
        } {
        assert forall|i: int| 0 <= i < left.len() implies ascii_lower(#[trigger] left[i])
            == ascii_lower(right[i]) by {}
    }
    if same_but_for_case(left, right) {
        assert forall|i: int| 0 <= i < left.len() implies {
            let one = (#[trigger] left[i]) as u32;
            let other = right[i] as u32;
            ||| one == other
            ||| 97 <= one <= 122 && one == other + 32
            ||| 97 <= other <= 122 && other == one + 32
        } by {
            assert(ascii_lower(left[i]) == ascii_lower(right[i]));
        }
    }
}

proof fn lemma_same_letter(a: char, b: char)
    ensures
        (ascii_lower(a) == ascii_lower(b)) == ({
            let one = a as u32;
            let other = b as u32;
            ||| one == other
            ||| 97 <= one <= 122 && one == other + 32
            ||| 97 <= other <= 122 && other == one + 32
        }),
{
    let one = a as u32;
    let other = b as u32;
    assert(ascii_lower(a) as u32 == if 65 <= one <= 90 {
        (one + 32) as u32
    } else {
        one
    });
    assert(ascii_lower(b) as u32 == if 65 <= other <= 90 {
        (other + 32) as u32
    } else {
        other
    });
    assert(ascii_lower(a) == ascii_lower(b) <==> ascii_lower(a) as u32 == ascii_lower(b) as u32);
}

/// The number that decimal digits write.
pub open spec fn value(digits: Seq<char>) -> int
    decreases digits.len(),
{
    if digits.len() == 0 {
        0
    } else {
        10 * value(digits.drop_last()) + (digits.last() as u32 - '0' as u32)
    }
}

/// A number in decimal consists of digits that write it, and begins with no zero but where it is
/// zero.
pub proof fn law_decimal_writes_the_number(number: nat)
    ensures
        value(decimal(number)) == number,
        decimal(number).len() > 0,
        forall|i: int|
            0 <= i < decimal(number).len() ==> '0' as u32 <= (#[trigger] decimal(number)[i]) as u32
                <= '9' as u32,
        number > 0 ==> decimal(number)[0] != '0',
        number == 0 ==> decimal(number) == seq!['0'],
    decreases number,
{
    assert(forall|digit: nat| digit < 10 ==> (#[trigger] digit_char(digit)) as u32 == 48 + digit);
    if number < 10 {
        let one = decimal(number);
        assert(one =~= seq![digit_char(number)]);
        assert(one.drop_last() =~= Seq::empty());
        assert(value(one.drop_last()) == 0);
        assert(value(one) == number);
        if number == 0 {
            assert(digit_char(0) == '0');
        }
    } else {
        let rest = decimal(number / 10);
        law_decimal_writes_the_number(number / 10);
        let all = decimal(number);
        assert(all.drop_last() =~= rest);
        assert(all.last() == digit_char(number % 10));
        assert forall|i: int| 0 <= i < all.len() implies '0' as u32 <= (#[trigger] all[i]) as u32
            <= '9' as u32 by {
            if i < rest.len() {
                assert(all[i] == rest[i]);
            }
        }
        assert(all[0] == rest[0]);
    }
}

/// An id is written in 36 characters: hyphens at four places, and lower-case hexadecimal digits at all
/// others.
pub proof fn law_shape_of_ids(id: u128, i: int)
    requires
        0 <= i < 36,
    ensures
        id_text(id).len() == 36,
        i == 8 || i == 13 || i == 18 || i == 23 ==> id_text(id)[i] == '-',
        i != 8 && i != 13 && i != 18 && i != 23 ==> {
            let code = id_text(id)[i] as u32;
            '0' as u32 <= code <= '9' as u32 || 'a' as u32 <= code <= 'f' as u32
        },
{
    lemma_hex_digits(id as nat, 32);
    let digits = hex_digits(id as nat, 32);
    assert(forall|k: int|
        0 <= k < 32 ==> '0' as u32 <= (#[trigger] digits[k]) as u32 <= '9' as u32 || 'a' as u32
            <= digits[k] as u32 <= 'f' as u32);
}

proof fn lemma_hex_digits(number: nat, count: nat)
    ensures
        hex_digits(number, count).len() == count,
        forall|k: int|
            0 <= k < count ==> '0' as u32 <= (#[trigger] hex_digits(number, count)[k]) as u32
                <= '9' as u32 || 'a' as u32 <= hex_digits(number, count)[k] as u32 <= 'f' as u32,
    decreases count,
{
    assert(forall|digit: nat|
        digit < 16 ==> '0' as u32 <= (#[trigger] hex_char(digit)) as u32 <= '9' as u32 || 'a' as u32
            <= hex_char(digit) as u32 <= 'f' as u32);
    if count > 0 {
        lemma_hex_digits(number / 16, (count - 1) as nat);
    }
}

/// The owner of a lock is written as the worker, the number of its claim loop and the id, with colons
/// between them; what it begins with is the worker and a colon.
pub proof fn law_lock_owner(worker_id: Seq<char>, index: nat, id: u128)
    ensures
        lock_owner_text(worker_id, index, id) == worker_id + seq![':'] + decimal(index) + seq![':']
            + id_text(id),
        lock_prefix(worker_id) == worker_id + seq![':'],
{
    reveal_strlit(":");
    assert(":"@ =~= seq![':']);
}

/// The names of the statuses, and which of them are final.
pub proof fn law_statuses()
    ensures
        status_text(JobStatus::Queued) == "queued"@,
        status_text(JobStatus::Running) == "running"@,
        status_text(JobStatus::Succeeded) == "succeeded"@,
        status_text(JobStatus::Failed) == "failed"@,
        status_text(JobStatus::Cancelled) == "cancelled"@,
        !finished(JobStatus::Queued),
        !finished(JobStatus::Running),
        finished(JobStatus::Succeeded),
        finished(JobStatus::Failed),
        finished(JobStatus::Cancelled),
{
}

/// The names of the modes of job keys.
pub proof fn law_modes()
    ensures
        mode_text(JobKeyMode::Dedupe) == "dedupe"@,
        mode_text(JobKeyMode::Replace) == "replace"@,
        mode_text(JobKeyMode::PreserveRunAt) == "preserve_run_at"@,
{
}

/// The names of the environments.
pub proof fn law_environments()
    ensures
        environment_text(Environment::Production) == "production"@,
        environment_text(Environment::Staging) == "staging"@,
        environment_text(Environment::Development) == "development"@,
        environment_text(Environment::Local) == "local"@,
        environment_text(Environment::Test) == "test"@,
{
}

/// The names of the moments at which a lock is seen to be lost, and what is said of a job without a
/// handler: its name, after a fixed text.
pub proof fn law_texts_of_a_run(name: Seq<char>)
    ensures
        loss_phase_text(LossPhase::Renewal) == "renewal"@,
        loss_phase_text(LossPhase::Completion) == "completion"@,
        loss_phase_text(LossPhase::FailureUpdate) == "failure update"@,
        no_handler_text(name) == "no handler registered for job "@ + name,
{
}

/// A time zone is found under its own name, in whatever case that is written, and under no other; one
/// without a name is found as an unknown zone. What is found under the name of UTC is UTC.
pub proof fn law_names_of_zones(
    zone: jiff::tz::TimeZone,
    own: Seq<char>,
    name: Seq<char>,
)
    ensures
        found_under(Some(own), own),
        found_under(Some(own), name) <==> same_but_for_case(own, name),
        found_under(None, name) <==> same_but_for_case(name, "Etc/Unknown"@),
        answers_to(zone, name) ==> found_under(zone_name(zone), name),
        answers_to(zone, name) && same_but_for_case(name, "UTC"@) ==> is_utc(zone),
{
}

/// A refusal is a violation of a unique constraint where the database refused, with the code for that
/// and the name of the constraint; no other refusal is.
pub proof fn law_violations(error: StoreError, constraint: Seq<char>)
    ensures
        violates(error, constraint) <==> {
            &&& error is Database
            &&& error->Database_0.code is Some
            &&& error->Database_0.code->0@ == "23505"@
            &&& error->Database_0.constraint is Some
            &&& error->Database_0.constraint->0@ == constraint
        },
{
}

} // verus!
