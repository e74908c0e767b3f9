//! The local time, in the forms in which it is shown and stored.
use chrono::Local;
use vstd::prelude::*;

verus! {

/// Whether `s` follows `pattern`, in which `0` stands for any decimal digit and
/// every other character for itself.
pub open spec fn follows(s: Seq<char>, pattern: Seq<char>) -> bool {
    &&& s.len() == pattern.len()
    &&& forall|i: int|
        0 <= i < s.len() ==> if pattern[i] == '0' {
            '0' <= #[trigger] s[i] <= '9'
        } else {
            s[i] == pattern[i]
        }
}

/// Whether `s` is a year of at least four characters, and behind it what follows
/// `pattern`.
pub open spec fn year_then(s: Seq<char>, pattern: Seq<char>) -> bool {
    s.len() >= 4 + pattern.len() && follows(s.skip(s.len() - pattern.len()), pattern)
}

/// The number that the two digits from `at` on stand for.
pub open spec fn number_at(s: Seq<char>, at: int) -> int {
    (s[at] as int - '0' as int) * 10 + (s[at + 1] as int - '0' as int)
}

/// Whether hour, minute and second stand from `at` on, with one character
/// between them. A leap second is the second 60.
pub open spec fn time_at(s: Seq<char>, at: int) -> bool {
    &&& 0 <= number_at(s, at) <= 23
    &&& 0 <= number_at(s, at + 3) <= 59
    &&& 0 <= number_at(s, at + 6) <= 60
}

/// Whether a month and a day stand from `at` on, with one character between them.
pub open spec fn month_day_at(s: Seq<char>, at: int) -> bool {
    &&& 1 <= number_at(s, at) <= 12
    &&& 1 <= number_at(s, at + 3) <= 31
}

/// A time of day, such as 09:05:00.
pub open spec fn is_time_of_day(s: Seq<char>) -> bool {
    follows(s, "00:00:00"@) && time_at(s, 0)
}

/// A date with the time of day, such as 2024-01-31 09:05:00.
pub open spec fn is_date_time(s: Seq<char>) -> bool {
    year_then(s, "-00-00 00:00:00"@) && month_day_at(s, s.len() - 14) && time_at(s, s.len() - 8)
}

/// A date with the time of day as it stands in a file name, such as
/// 2024-01-31_09-05-00.
pub open spec fn is_file_stamp(s: Seq<char>) -> bool {
    year_then(s, "-00-00_00-00-00"@) && month_day_at(s, s.len() - 14) && time_at(s, s.len() - 8)
}

/// `Local::now` in the given format: two digits each for the month, day, hour,
/// minute and second, each in its range, and at least four characters for the
/// year. Which time it is, is left open. `chrono` expects the system's clock to stand after 1970.
#[verifier::external_body]
fn local_now(format: &str) -> (res: String)
    requires
        format@ == "%H:%M:%S"@ || format@ == "%Y-%m-%d %H:%M:%S"@ || format@
            == "%Y-%m-%d_%H-%M-%S"@,
    ensures
        format@ == "%H:%M:%S"@ ==> is_time_of_day(res@),
        format@ == "%Y-%m-%d %H:%M:%S"@ ==> is_date_time(res@),
        format@ == "%Y-%m-%d_%H-%M-%S"@ ==> is_file_stamp(res@),
{
    Local::now().format(format).to_string()
}

/// The local time of day.
pub fn time_of_day() -> (res: String)
    ensures
        is_time_of_day(res@),
{
    local_now("%H:%M:%S")
}

/// The local date and time.
pub fn date_time() -> (res: String)
    ensures
        is_date_time(res@),
{
    local_now("%Y-%m-%d %H:%M:%S")
}

/// The local date and time in the form that file names use.
pub fn file_stamp() -> (res: String)
    ensures
        is_file_stamp(res@),
{
    local_now("%Y-%m-%d_%H-%M-%S")
}

} // verus!
