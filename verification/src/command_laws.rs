//! What the log and the user's number make of the commands that tell them.

use vstd::prelude::*;
use vstd::utf8::*;

use crate::commands::report;
use crate::commands::stamp;
use crate::commands::user_number;
use crate::effect::OutputView;
use crate::native::decoded;
use crate::native::quotation;
use crate::text::decimal;
use crate::text::signed_decimal;
use crate::text::trim;
use crate::text::white_space;
use crate::text_laws::law_trim_takes_what_was_added;
use crate::version_laws::all_digits;
use crate::version_laws::law_signed_decimal_reads_back;
use crate::version_laws::value;

verus! {

/// Bytes that encode a text are read as that text.
pub proof fn law_text_is_read_as_written(t: Seq<char>)
    ensures
        decoded(encode_utf8(t)) == t,
{
    encode_utf8_valid_utf8(t);
    encode_utf8_decode_utf8(t);
}

/// Whether a text is white space, and nothing else.
pub open spec fn blank(s: Seq<char>) -> bool {
    forall|i: int| 0 <= i < s.len() ==> white_space(#[trigger] s[i])
}

/// Whether a text neither begins nor ends in white space.
pub open spec fn bare(s: Seq<char>) -> bool {
    s.len() > 0 ==> !white_space(s[0]) && !white_space(s.last())
}

/// The log takes the time that `date` wrote, without the white space around it, where `date`
/// ended with success, and the beginning of 1970 otherwise.
pub proof fn law_log_tells_the_time(
    o: OutputView,
    before: Seq<char>,
    time: Seq<char>,
    behind: Seq<char>,
)
    requires
        o.stdout == encode_utf8(before + time + behind),
        blank(before),
        blank(behind),
        bare(time),
    ensures
        o.success ==> stamp(Some(o)) == time,
        !o.success ==> stamp(Some(o)) == "1970-01-01 00:00:00"@,
        stamp(None) == "1970-01-01 00:00:00"@,
{
    law_text_is_read_as_written(before + time + behind);
    law_trim_takes_what_was_added(before, time, behind);
}

/// The user's number is what `id` wrote, without the white space around it, however `id` ended;
/// it is 0 where `id` could not be run or wrote no text.
pub proof fn law_user_goes_by_number(
    o: OutputView,
    bad: OutputView,
    before: Seq<char>,
    number: Seq<char>,
    behind: Seq<char>,
)
    requires
        o.stdout == encode_utf8(before + number + behind),
        !valid_utf8(bad.stdout),
        blank(before),
        blank(behind),
        bare(number),
    ensures
        user_number(Some(o)) == number,
        user_number(Some(bad)) == "0"@,
        user_number(None) == "0"@,
{
    law_text_is_read_as_written(before + number + behind);
    encode_utf8_valid_utf8(before + number + behind);
    law_trim_takes_what_was_added(before, number, behind);
}

/// Whether a text tells an exit code, or -1 where there is none.
pub open spec fn tells_code(text: Seq<char>, code: Option<i32>) -> bool {
    match code {
        Some(c) => if c < 0 {
            text[0] == '-' && all_digits(text.skip(1)) && value(text.skip(1)) == -c
        } else {
            all_digits(text) && value(text) == c
        },
        None => text == "-1"@,
    }
}

/// The line on how a command ended tells, behind the command, its exit code, -1 where it has
/// none, and what it wrote to its two outputs, in this order.
pub proof fn law_ending_is_told(line: Seq<char>, o: OutputView)
    ensures
        exists|code: Seq<char>| #[trigger]
            tells_code(code, o.code) && report(line, o) == line + " -> exit "@ + code + " stdout="@
                + quotation(trim(decoded(o.stdout))) + " stderr="@ + quotation(
                trim(decoded(o.stderr)),
            ),
{
    let n: int = match o.code {
        Some(c) => c as int,
        None => -1,
    };
    let code = signed_decimal(n);
    law_signed_decimal_reads_back(n);
    if o.code is None {
        reveal_strlit("-1");
        assert(decimal(1) =~= seq!['1']) by {
            assert((48 + 1u8) as char == '1');
        }
        assert(code =~= "-1"@);
    }
    assert(tells_code(code, o.code));
}

} // verus!
