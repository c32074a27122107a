//! Reading a list of step counts off a text such as `5000, 10000,20000`.
use vstd::prelude::*;
use vstd::string::StrSliceExecFns;

verus! {

/// Why a text holds no list of step counts.
#[derive(Clone, Copy, Debug, PartialEq, Eq, Structural)]
pub enum StepsIssue {
    /// The token from character `start` up to character `end` is no count
    /// that fits the machine word.
    Invalid { start: usize, end: usize },
    /// A count is zero.
    Zero,
    /// The text holds no count at all.
    Empty,
}

/// White space as Unicode has it.
pub open spec fn is_space(c: char) -> bool {
    let u = c as u32;
    (0x09 <= u <= 0x0D) || u == 0x20 || u == 0x85 || u == 0xA0 || u == 0x1680 || (0x2000 <= u
        <= 0x200A) || u == 0x2028 || u == 0x2029 || u == 0x202F || u == 0x205F || u == 0x3000
}

/// Where the chunk that begins at `from` ends: at the next comma, or at
/// the end of the text.
pub open spec fn chunk_end(text: Seq<char>, from: int) -> int
    decreases text.len() - from,
{
    if from >= text.len() {
        text.len() as int
    } else if text[from] == ',' {
        from
    } else {
        chunk_end(text, from + 1)
    }
}

/// The first place from `from` on, before `end`, that holds no white
/// space; `end` where there is none.
pub open spec fn token_start(text: Seq<char>, from: int, end: int) -> int
    decreases end - from,
{
    if from >= end {
        end
    } else if is_space(text[from]) {
        token_start(text, from + 1, end)
    } else {
        from
    }
}

/// The place behind the last character before `end`, not before `start`,
/// that is no white space; `start` where there is none.
pub open spec fn token_end(text: Seq<char>, start: int, end: int) -> int
    decreases end - start,
{
    if end <= start {
        start
    } else if is_space(text[end - 1]) {
        token_end(text, start, end - 1)
    } else {
        end
    }
}

/// The value of a decimal digit.
pub open spec fn digit(c: char) -> Option<nat> {
    if '0' <= c <= '9' {
        Some((c as u32 - 48) as nat)
    } else {
        None
    }
}

/// The number that the digits from `from` up to `to` spell; nothing if
/// one of the characters is no digit.
pub open spec fn value(text: Seq<char>, from: int, to: int) -> Option<nat>
    decreases to - from,
{
    if to <= from {
        Some(0)
    } else {
        match (value(text, from, to - 1), digit(text[to - 1])) {
            (Some(v), Some(d)) => Some(10 * v + d),
            _ => None,
        }
    }
}

/// The count that the token from `start` up to `end` spells: digits, with
/// one `+` allowed in front, whose number fits the machine word.
pub open spec fn count_of(text: Seq<char>, start: int, end: int) -> Option<usize> {
    let from = if text[start] == '+' {
        start + 1
    } else {
        start
    };
    if from >= end {
        None
    } else {
        match value(text, from, end) {
            Some(v) => if v <= usize::MAX {
                Some(v as usize)
            } else {
                None
            },
            None => None,
        }
    }
}

/// What the token from `start` up to `stop` adds to the counts `found`:
/// nothing where it is empty, its count where it spells a positive one.
pub open spec fn taken(text: Seq<char>, start: int, stop: int, found: Seq<usize>) -> Result<
    Seq<usize>,
    StepsIssue,
> {
    if start == stop {
        Ok(found)
    } else {
        match count_of(text, start, stop) {
            None => Err(StepsIssue::Invalid { start: start as usize, end: stop as usize }),
            Some(n) => if n == 0 {
                Err(StepsIssue::Zero)
            } else {
                Ok(found.push(n))
            },
        }
    }
}

/// The counts of the chunks from `from` on, behind those `found` already:
/// chunks are parted by commas, white space around a token is dropped, an
/// empty token is passed over, and the first token that is no count, or
/// is zero, ends the reading.
pub open spec fn steps_from(text: Seq<char>, from: int, found: Seq<usize>) -> Result<
    Seq<usize>,
    StepsIssue,
>
    decreases text.len() - from,
{
    let end = chunk_end(text, from);
    let start = token_start(text, from, end);
    let stop = token_end(text, start, end);
    match taken(text, start, stop, found) {
        Ok(so_far) => if from <= end < text.len() {
            steps_from(text, end + 1, so_far)
        } else {
            Ok(so_far)
        },
        Err(e) => Err(e),
    }
}

/// The list of step counts that a text holds; at least one is asked for.
pub open spec fn multi_steps(text: Seq<char>) -> Result<Seq<usize>, StepsIssue> {
    match steps_from(text, 0, Seq::empty()) {
        Ok(found) => if found.len() == 0 {
            Err(StepsIssue::Empty)
        } else {
            Ok(found)
        },
        Err(e) => Err(e),
    }
}

/// A character that is no digit spoils every number that reaches past it.
proof fn lemma_value_stays_none(text: Seq<char>, from: int, at: int, to: int)
    requires
        from <= at <= to,
        value(text, from, at) is None,
    ensures
        value(text, from, to) is None,
    decreases to - at,
{
    if at < to {
        lemma_value_stays_none(text, from, at, to - 1);
    }
}

/// More digits never spell a smaller number.
proof fn lemma_value_grows(text: Seq<char>, from: int, at: int, to: int)
    requires
        from <= at <= to,
        value(text, from, to) is Some,
    ensures
        value(text, from, at) is Some,
        value(text, from, at)->Some_0 <= value(text, from, to)->Some_0,
    decreases to - at,
{
    if at < to {
        lemma_value_grows(text, from, at, to - 1);
    }
}

fn space(c: char) -> (r: bool)
    ensures
        r == is_space(c),
{
    let u: u32 = c as u32;
    (0x09 <= u && u <= 0x0D) || u == 0x20 || u == 0x85 || u == 0xA0 || u == 0x1680 || (0x2000 <= u
        && u <= 0x200A) || u == 0x2028 || u == 0x2029 || u == 0x202F || u == 0x205F || u == 0x3000
}

fn find_chunk_end(raw: &str, from: usize, len: usize) -> (end: usize)
    requires
        len == raw@.len(),
        from <= len,
    ensures
        end == chunk_end(raw@, from as int),
        from <= end <= len,
{
    let mut i: usize = from;
    while i < len
        invariant
            len == raw@.len(),
            from <= i <= len,
            chunk_end(raw@, from as int) == chunk_end(raw@, i as int),
        decreases len - i,
    {
        if raw.get_char(i) == ',' {
            return i;
        }
        i += 1;
    }
    i
}

fn find_token_start(raw: &str, from: usize, end: usize) -> (start: usize)
    requires
        from <= end <= raw@.len(),
    ensures
        start == token_start(raw@, from as int, end as int),
        from <= start <= end,
{
    let mut i: usize = from;
    while i < end
        invariant
            from <= i <= end <= raw@.len(),
            token_start(raw@, from as int, end as int) == token_start(raw@, i as int, end as int),
        decreases end - i,
    {
        if !space(raw.get_char(i)) {
            return i;
        }
        i += 1;
    }
    i
}

fn find_token_end(raw: &str, start: usize, end: usize) -> (stop: usize)
    requires
        start <= end <= raw@.len(),
    ensures
        stop == token_end(raw@, start as int, end as int),
        start <= stop <= end,
{
    let mut i: usize = end;
    while i > start
        invariant
            start <= i <= end <= raw@.len(),
            token_end(raw@, start as int, end as int) == token_end(raw@, start as int, i as int),
        decreases i,
    {
        if !space(raw.get_char(i - 1)) {
            return i;
        }
        i -= 1;
    }
    i
}

fn read_count(raw: &str, start: usize, end: usize) -> (r: Option<usize>)
    requires
        start < end <= raw@.len(),
    ensures
        r == count_of(raw@, start as int, end as int),
{
    let from: usize = if raw.get_char(start) == '+' {
        start + 1
    } else {
        start
    };
    if from >= end {
        return None;
    }
    let mut acc: usize = 0;
    let mut i: usize = from;
    while i < end
        invariant
            from <= i <= end <= raw@.len(),
            from == (if raw@[start as int] == '+' {
                start + 1
            } else {
                start as int
            }),
            value(raw@, from as int, i as int) == Some(acc as nat),
        decreases end - i,
    {
        let c = raw.get_char(i);
        if !('0' <= c && c <= '9') {
            proof {
                assert(value(raw@, from as int, i + 1) is None);
                lemma_value_stays_none(raw@, from as int, i + 1, end as int);
            }
            return None;
        }
        let d: usize = (c as u32 - 48) as usize;
        if acc > (usize::MAX - d) / 10 {
            proof {
                assert(value(raw@, from as int, i + 1) == Some((10 * acc + d) as nat));
                if value(raw@, from as int, end as int) is Some {
                    lemma_value_grows(raw@, from as int, i + 1, end as int);
                }
            }
            return None;
        }
        acc = acc * 10 + d;
        i += 1;
    }
    Some(acc)
}

/// Reads a list of step counts parted by commas. White space around a
/// count and empty places between commas are passed over; every count must
/// be a positive whole number, and there must be at least one.
pub fn parse_multi_steps(raw: &str) -> (r: Result<Vec<usize>, StepsIssue>)
    ensures
        match r {
            Ok(steps) => multi_steps(raw@) == Ok::<Seq<usize>, StepsIssue>(steps@),
            Err(e) => multi_steps(raw@) == Err::<Seq<usize>, StepsIssue>(e),
        },
{
    let len = raw.unicode_len();
    let mut out: Vec<usize> = Vec::new();
    let mut from: usize = 0;
    loop
        invariant_except_break
            steps_from(raw@, 0, Seq::empty()) == steps_from(raw@, from as int, out@),
        invariant
            len == raw@.len(),
            from <= len,
        ensures
            steps_from(raw@, 0, Seq::empty()) == Ok::<Seq<usize>, StepsIssue>(out@),
        decreases len - from,
    {
        let end = find_chunk_end(raw, from, len);
        let start = find_token_start(raw, from, end);
        let stop = find_token_end(raw, start, end);
        if start != stop {
            match read_count(raw, start, stop) {
                None => {
                    return Err(StepsIssue::Invalid { start, end: stop });
                },
                Some(n) => {
                    if n == 0 {
                        return Err(StepsIssue::Zero);
                    }
                    out.push(n);
                },
            }
        }
        if end == len {
            break ;
        }
        from = end + 1;
    }
    if out.len() == 0 {
        Err(StepsIssue::Empty)
    } else {
        Ok(out)
    }
}

} // verus!
