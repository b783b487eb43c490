//! The shell's input processing: folding raw console input into a clean
//! command line (backspace handling, escape-sequence stripping, printable
//! filtering) and splitting a command line into pieces at unquoted
//! separators. The interactive read-print loop around these lives in the
//! runtime; the processing itself works character by character and is
//! specified as an exact fold over the input.

use vstd::prelude::*;

verus! {

/// Why a command line does not parse.
#[derive(Debug, PartialEq, Eq)]
pub enum ParseError {
    UnknownProgram(Vec<char>),
    QuoteUnclosed,
}

/// The delete (backspace) character the console sends.
pub const DELETE_CHAR: char = '\u{7f}';

/// The escape character opening a two-byte control sequence.
pub const ESCAPE_CHAR: char = '\u{1b}';

/// The running state of the input-cleaning fold: the cleaned text so
/// far, how many already-clean characters deletes have removed, whether
/// every delete could be applied, and how many characters of an escape
/// sequence are still to be skipped.
pub struct ProcessState {
    pub cleared: Seq<char>,
    pub deletions: int,
    pub finished: bool,
    pub skip: int,
}

/// One step of the input-cleaning fold: a pending escape sequence
/// swallows the character; a delete erases the last clean character, or —
/// with nothing left to erase — is kept and marks the text unfinished; a
/// printable character or a newline is kept; an escape opens a two-
/// character sequence; anything else is dropped.
pub open spec fn spec_process_step(st: ProcessState, c: char) -> ProcessState {
    if st.skip > 0 {
        ProcessState { skip: st.skip - 1, ..st }
    } else if c == DELETE_CHAR {
        if st.cleared.len() > 0 && st.cleared.last() != DELETE_CHAR {
            ProcessState { cleared: st.cleared.drop_last(), deletions: st.deletions + 1, ..st }
        } else {
            ProcessState { cleared: st.cleared.push(c), finished: false, ..st }
        }
    } else if (' ' <= c && c <= '~') || c == '\n' {
        ProcessState { cleared: st.cleared.push(c), ..st }
    } else if c == ESCAPE_CHAR {
        ProcessState { skip: 2, ..st }
    } else {
        st
    }
}

/// The input-cleaning fold from position `i` on.
pub open spec fn spec_process_from(input: Seq<char>, i: int, st: ProcessState) -> ProcessState
    decreases input.len() - i,
{
    if i < 0 || i >= input.len() {
        st
    } else {
        spec_process_from(input, i + 1, spec_process_step(st, input[i]))
    }
}

/// The clean state the whole input folds to, starting from empty text.
pub open spec fn spec_process(input: Seq<char>) -> ProcessState {
    spec_process_from(
        input,
        0,
        ProcessState { cleared: Seq::empty(), deletions: 0, finished: true, skip: 0 },
    )
}

/// Cleans raw console input in place: applies deletes to the text
/// itself, strips two-character escape sequences, keeps printable
/// characters and newlines, and drops the rest. Returns whether the
/// input was processed completely (no delete was left stranded at the
/// front) and how many already-clean characters the deletes removed.
#[verifier::loop_isolation(false)]
pub fn process_input(string: &mut Vec<char>) -> (r: (bool, usize))
    ensures
        ({
            let st = spec_process(old(string)@);
            &&& final(string)@ == st.cleared
            &&& r.0 == st.finished
            &&& r.1 == st.deletions
        }),
{
    let ghost input = string@;
    let mut cleared: Vec<char> = Vec::new();
    let mut deletions: usize = 0;
    let mut finished: bool = true;
    let mut skip: usize = 0;
    let n = string.len();
    let mut i: usize = 0;
    while i < n
        invariant
            i <= n,
            n == input.len(),
            string@ == input,
            deletions <= i,
            spec_process(input) == spec_process_from(
                input,
                i as int,
                ProcessState {
                    cleared: cleared@,
                    deletions: deletions as int,
                    finished,
                    skip: skip as int,
                },
            ),
        decreases n - i,
    {
        let c = string[i];
        let ghost st = ProcessState {
            cleared: cleared@,
            deletions: deletions as int,
            finished,
            skip: skip as int,
        };
        if skip > 0 {
            skip = skip - 1;
        } else if c == DELETE_CHAR {
            let erase = cleared.len() > 0 && *cleared.last().unwrap() != DELETE_CHAR;
            if erase {
                cleared.pop();
                deletions = deletions + 1;
            } else {
                cleared.push(c);
                finished = false;
            }
        } else if (' ' <= c && c <= '~') || c == '\n' {
            cleared.push(c);
        } else if c == ESCAPE_CHAR {
            skip = 2;
        }
        proof {
            let st2 = ProcessState {
                cleared: cleared@,
                deletions: deletions as int,
                finished,
                skip: skip as int,
            };
            assert(st2 == spec_process_step(st, c));
        }
        i = i + 1;
    }
    *string = cleared;
    (finished, deletions)
}

/// The whitespace the shell trims from the edges of a piece.
pub open spec fn spec_is_space(c: char) -> bool {
    c == ' ' || c == '\t' || c == '\n' || c == '\r'
}

/// `s` without its leading whitespace.
pub open spec fn spec_trim_leading(s: Seq<char>) -> Seq<char>
    decreases s.len(),
{
    if s.len() > 0 && spec_is_space(s[0]) {
        spec_trim_leading(s.drop_first())
    } else {
        s
    }
}

/// `s` without its trailing whitespace.
pub open spec fn spec_trim_trailing(s: Seq<char>) -> Seq<char>
    decreases s.len(),
{
    if s.len() > 0 && spec_is_space(s.last()) {
        spec_trim_trailing(s.drop_last())
    } else {
        s
    }
}

/// `s` without whitespace at either edge.
pub open spec fn spec_trim(s: Seq<char>) -> Seq<char> {
    spec_trim_trailing(spec_trim_leading(s))
}

/// Runtime whitespace test matching `spec_is_space`.
fn is_space_char(c: char) -> (r: bool)
    ensures
        r == spec_is_space(c),
{
    c == ' ' || c == '\t' || c == '\n' || c == '\r'
}

proof fn lemma_trim_leading_skip(s: Seq<char>, from: int, start: int, to: int)
    requires
        0 <= from <= start <= to <= s.len(),
        forall|j: int| from <= j < start ==> spec_is_space(#[trigger] s[j]),
    ensures
        spec_trim_leading(s.subrange(from, to)) == spec_trim_leading(s.subrange(start, to)),
    decreases start - from,
{
    if from < start {
        assert(s.subrange(from, to).drop_first() =~= s.subrange(from + 1, to));
        lemma_trim_leading_skip(s, from + 1, start, to);
    }
}

proof fn lemma_trim_trailing_skip(s: Seq<char>, start: int, end: int, to: int)
    requires
        0 <= start <= end <= to <= s.len(),
        forall|j: int| end <= j < to ==> spec_is_space(#[trigger] s[j]),
    ensures
        spec_trim_trailing(s.subrange(start, to)) == spec_trim_trailing(s.subrange(start, end)),
    decreases to - end,
{
    if end < to {
        assert(s.subrange(start, to).drop_last() =~= s.subrange(start, to - 1));
        lemma_trim_trailing_skip(s, start, end, to - 1);
    }
}

/// The characters of `s[from..to]` with whitespace trimmed off both
/// edges.
#[verifier::loop_isolation(false)]
fn trim_chars(s: &Vec<char>, from: usize, to: usize) -> (r: Vec<char>)
    requires
        from <= to <= s@.len(),
    ensures
        r@ == spec_trim(s@.subrange(from as int, to as int)),
{
    let mut start = from;
    while start < to && is_space_char(s[start])
        invariant
            from <= start <= to,
            forall|j: int| from <= j < start ==> spec_is_space(#[trigger] s@[j]),
        decreases to - start,
    {
        start = start + 1;
    }
    proof {
        lemma_trim_leading_skip(s@, from as int, start as int, to as int);
        assert(spec_trim_leading(s@.subrange(start as int, to as int)) == s@.subrange(
            start as int,
            to as int,
        ));
    }
    let mut end = to;
    while end > start && is_space_char(s[end - 1])
        invariant
            start <= end <= to,
            forall|j: int| end <= j < to ==> spec_is_space(#[trigger] s@[j]),
        decreases end,
    {
        end = end - 1;
    }
    proof {
        lemma_trim_trailing_skip(s@, start as int, end as int, to as int);
        assert(spec_trim_trailing(s@.subrange(start as int, end as int)) == s@.subrange(
            start as int,
            end as int,
        ));
    }
    let mut r: Vec<char> = Vec::new();
    let mut i = start;
    while i < end
        invariant
            start <= i <= end,
            r@ =~= s@.subrange(start as int, i as int),
        decreases end - i,
    {
        r.push(s[i]);
        proof {
            assert(r@ =~= s@.subrange(start as int, i as int + 1));
        }
        i = i + 1;
    }
    proof {
        assert(r@ =~= s@.subrange(start as int, end as int));
    }
    r
}

/// Whether `v` holds `c`.
#[verifier::loop_isolation(false)]
fn contains_char(v: &Vec<char>, c: char) -> (r: bool)
    ensures
        r == v@.contains(c),
{
    let n = v.len();
    let mut i: usize = 0;
    while i < n
        invariant
            i <= n,
            forall|j: int| 0 <= j < i ==> v@[j] != c,
        decreases n - i,
    {
        if v[i] == c {
            return true;
        }
        i = i + 1;
    }
    false
}

/// The views of a list of character vectors, in order.
pub open spec fn spec_views(pieces: Seq<Vec<char>>) -> Seq<Seq<char>> {
    Seq::new(pieces.len(), |j: int| pieces[j]@)
}

/// The running state of the splitting fold: the trimmed pieces cut so
/// far, whether the scan stands inside quotes, and where the piece being
/// scanned began.
pub struct SplitState {
    pub pieces: Seq<Seq<char>>,
    pub in_quotes: bool,
    pub last: int,
}

/// One step of the splitting fold at position `i`: a quote character
/// toggles the quote state; an unquoted separator ends the piece that
/// began at `last`, trimmed; anything else extends the current piece.
pub open spec fn spec_split_step(
    input: Seq<char>,
    quotes: Seq<char>,
    spliters: Seq<char>,
    st: SplitState,
    i: int,
) -> SplitState {
    let c = input[i];
    if quotes.contains(c) {
        SplitState { in_quotes: !st.in_quotes, ..st }
    } else if !st.in_quotes && spliters.contains(c) {
        SplitState {
            pieces: st.pieces.push(spec_trim(input.subrange(st.last, i))),
            last: i + 1,
            ..st
        }
    } else {
        st
    }
}

/// The splitting fold from position `i` on.
pub open spec fn spec_split_from(
    input: Seq<char>,
    quotes: Seq<char>,
    spliters: Seq<char>,
    i: int,
    st: SplitState,
) -> SplitState
    decreases input.len() - i,
{
    if i < 0 || i >= input.len() {
        st
    } else {
        spec_split_from(
            input,
            quotes,
            spliters,
            i + 1,
            spec_split_step(input, quotes, spliters, st, i),
        )
    }
}

/// What splitting the whole input yields: the pieces cut at unquoted
/// separators, each trimmed, with the tail piece appended unless the
/// input ended exactly on a separator.
pub open spec fn spec_split(
    input: Seq<char>,
    quotes: Seq<char>,
    spliters: Seq<char>,
) -> SplitState {
    spec_split_from(
        input,
        quotes,
        spliters,
        0,
        SplitState { pieces: Seq::empty(), in_quotes: false, last: 0 },
    )
}

/// Splits a command line at the separators that stand outside quotes,
/// trimming each piece; quote characters toggle the quote state without
/// ending a piece. A line whose quotes never close does not parse.
#[verifier::loop_isolation(false)]
pub fn shell_split(input: &Vec<char>, quotes: &Vec<char>, spliters: &Vec<char>) -> (r: Result<
    Vec<Vec<char>>,
    ParseError,
>)
    ensures
        ({
            let st = spec_split(input@, quotes@, spliters@);
            match r {
                Ok(pieces) => {
                    &&& !st.in_quotes
                    &&& spec_views(pieces@) == (if st.last != input@.len() {
                        st.pieces.push(spec_trim(input@.subrange(st.last, input@.len() as int)))
                    } else {
                        st.pieces
                    })
                },
                Err(e) => {
                    &&& st.in_quotes
                    &&& e == ParseError::QuoteUnclosed
                },
            }
        }),
{
    let n = input.len();
    let mut pieces: Vec<Vec<char>> = Vec::new();
    let mut in_quotes: bool = false;
    let mut last: usize = 0;
    let mut i: usize = 0;
    proof {
        assert(spec_views(pieces@) =~= Seq::<Seq<char>>::empty());
    }
    while i < n
        invariant
            i <= n,
            last <= i,
            spec_split(input@, quotes@, spliters@) == spec_split_from(
                input@,
                quotes@,
                spliters@,
                i as int,
                SplitState { pieces: spec_views(pieces@), in_quotes, last: last as int },
            ),
        decreases n - i,
    {
        let ghost st = SplitState { pieces: spec_views(pieces@), in_quotes, last: last as int };
        let c = input[i];
        if contains_char(quotes, c) {
            in_quotes = !in_quotes;
        } else if !in_quotes && contains_char(spliters, c) {
            let piece = trim_chars(input, last, i);
            pieces.push(piece);
            last = i + 1;
            proof {
                assert(spec_views(pieces@) =~= st.pieces.push(piece@));
            }
        }
        proof {
            let st2 = SplitState {
                pieces: spec_views(pieces@),
                in_quotes,
                last: last as int,
            };
            assert(st2.pieces =~= spec_split_step(input@, quotes@, spliters@, st, i as int)
                .pieces);
            assert(st2 == spec_split_step(input@, quotes@, spliters@, st, i as int));
        }
        i = i + 1;
    }
    let ghost st_end = SplitState { pieces: spec_views(pieces@), in_quotes, last: last as int };
    if last != n {
        let piece = trim_chars(input, last, n);
        pieces.push(piece);
        proof {
            assert(spec_views(pieces@) =~= st_end.pieces.push(piece@));
        }
    }
    if in_quotes {
        return Err(ParseError::QuoteUnclosed);
    }
    proof {
        assert(spec_split(input@, quotes@, spliters@) == st_end);
    }
    Ok(pieces)
}


/// `s` without its leading delete characters.
pub open spec fn spec_drop_leading_deletes(s: Seq<char>) -> Seq<char>
    decreases s.len(),
{
    if s.len() > 0 && s[0] == DELETE_CHAR {
        spec_drop_leading_deletes(s.drop_first())
    } else {
        s
    }
}

proof fn lemma_drop_leading_deletes_skip(s: Seq<char>, from: int, k: int)
    requires
        0 <= from <= k <= s.len(),
        forall|j: int| from <= j < k ==> #[trigger] s[j] == DELETE_CHAR,
    ensures
        spec_drop_leading_deletes(s.subrange(from, s.len() as int))
            == spec_drop_leading_deletes(s.subrange(k, s.len() as int)),
    decreases k - from,
{
    if from < k {
        assert(s.subrange(from, s.len() as int).drop_first() =~= s.subrange(
            from + 1,
            s.len() as int,
        ));
        lemma_drop_leading_deletes_skip(s, from + 1, k);
    }
}

/// What the console must show after new input was folded in: wipe that
/// many characters before the cursor, then echo these.
#[derive(Debug, PartialEq, Eq)]
pub struct InputEcho {
    pub erase: usize,
    pub echo: Vec<char>,
}

/// Folds freshly read console input into the command line: the input is
/// cleaned first and appended; if its deletes could not all be applied,
/// the whole line is cleaned again so they reach into the earlier text,
/// and deletes still stranded at the very front of the line are dropped.
/// Returns how many characters of the earlier text the console must
/// wipe, and the cleaned input to echo.
#[verifier::loop_isolation(false)]
pub fn add_new_input(command_line: &mut Vec<char>, new_input: Vec<char>) -> (r: InputEcho)
    ensures
        ({
            let st1 = spec_process(new_input@);
            let combined = old(command_line)@ + st1.cleared;
            &&& r.echo@ == st1.cleared
            &&& if st1.finished {
                &&& final(command_line)@ == combined
                &&& r.erase == 0
            } else {
                let st2 = spec_process(combined);
                &&& r.erase == st2.deletions
                &&& final(command_line)@ == (if st2.finished {
                    st2.cleared
                } else {
                    spec_drop_leading_deletes(st2.cleared)
                })
            }
        }),
{
    let mut cleaned = new_input;
    let (finished, _deletions) = process_input(&mut cleaned);
    let ghost appended = old(command_line)@ + cleaned@;
    let n = cleaned.len();
    let mut j: usize = 0;
    while j < n
        invariant
            j <= n,
            n == cleaned@.len(),
            command_line@ == old(command_line)@ + cleaned@.subrange(0, j as int),
        decreases n - j,
    {
        command_line.push(cleaned[j]);
        proof {
            assert(command_line@ =~= old(command_line)@ + cleaned@.subrange(0, j as int + 1));
        }
        j = j + 1;
    }
    proof {
        assert(command_line@ =~= appended);
    }
    if finished {
        return InputEcho { erase: 0, echo: cleaned };
    }
    let (finished2, new_deletions) = process_input(command_line);
    if !finished2 {
        let ghost processed = command_line@;
        let len = command_line.len();
        let mut k: usize = 0;
        while k < len && command_line[k] == DELETE_CHAR
            invariant
                k <= len,
                forall|j2: int| 0 <= j2 < k ==> #[trigger] command_line@[j2] == DELETE_CHAR,
            decreases len - k,
        {
            k = k + 1;
        }
        let mut tail: Vec<char> = Vec::new();
        let mut m = k;
        while m < len
            invariant
                k <= m <= len,
                tail@ =~= command_line@.subrange(k as int, m as int),
            decreases len - m,
        {
            tail.push(command_line[m]);
            proof {
                assert(tail@ =~= command_line@.subrange(k as int, m as int + 1));
            }
            m = m + 1;
        }
        proof {
            lemma_drop_leading_deletes_skip(processed, 0, k as int);
            assert(processed.subrange(0, processed.len() as int) =~= processed);
            if k < len {
                assert(spec_drop_leading_deletes(
                    processed.subrange(k as int, processed.len() as int),
                ) == processed.subrange(k as int, processed.len() as int));
            }
            assert(tail@ =~= processed.subrange(k as int, processed.len() as int));
        }
        *command_line = tail;
    }
    InputEcho { erase: new_deletions, echo: cleaned }
}


/// Whether two character vectors hold the same text.
#[verifier::loop_isolation(false)]
fn chars_equal(a: &Vec<char>, b: &Vec<char>) -> (r: bool)
    ensures
        r == (a@ == b@),
{
    let n = a.len();
    if n != b.len() {
        return false;
    }
    let mut i: usize = 0;
    while i < n
        invariant
            i <= n,
            forall|j: int| 0 <= j < i ==> a@[j] == b@[j],
        decreases n - i,
    {
        if a[i] != b[i] {
            return false;
        }
        i = i + 1;
    }
    proof {
        assert(a@ =~= b@);
    }
    true
}

/// A copy of the characters of `v`.
#[verifier::loop_isolation(false)]
fn copy_chars(v: &Vec<char>) -> (r: Vec<char>)
    ensures
        r@ == v@,
{
    let n = v.len();
    let mut r: Vec<char> = Vec::new();
    let mut i: usize = 0;
    while i < n
        invariant
            i <= n,
            r@ =~= v@.subrange(0, i as int),
        decreases n - i,
    {
        r.push(v[i]);
        proof {
            assert(r@ =~= v@.subrange(0, i as int + 1));
        }
        i = i + 1;
    }
    proof {
        assert(r@ =~= v@);
    }
    r
}

/// The position of the first program whose name is exactly `name`.
#[verifier::loop_isolation(false)]
pub fn find_program(name: &Vec<char>, programs: &Vec<Vec<char>>) -> (r: Option<usize>)
    ensures
        match r {
            Some(i) => {
                &&& i < programs@.len()
                &&& programs@[i as int]@ == name@
                &&& forall|j: int| 0 <= j < i ==> programs@[j]@ != name@
            },
            None => forall|j: int| 0 <= j < programs@.len() ==> programs@[j]@ != name@,
        },
{
    let n = programs.len();
    let mut i: usize = 0;
    while i < n
        invariant
            i <= n,
            forall|j: int| 0 <= j < i ==> programs@[j]@ != name@,
        decreases n - i,
    {
        if chars_equal(&programs[i], name) {
            return Some(i);
        }
        i = i + 1;
    }
    None
}

/// Decides what one command runs: the command is split into words at the
/// unquoted separators, the first word must name a registered program,
/// and the remaining words become its arguments. A command whose quotes
/// never close, or that names no word, or whose first word names no
/// program, does not run and carries its own text in the error.
#[verifier::loop_isolation(false)]
pub fn run_command(
    command: &Vec<char>,
    quotes: &Vec<char>,
    spliters: &Vec<char>,
    programs: &Vec<Vec<char>>,
) -> (r: Result<(usize, Vec<Vec<char>>), ParseError>)
    ensures
        ({
            let st = spec_split(command@, quotes@, spliters@);
            let words = if st.last != command@.len() {
                st.pieces.push(spec_trim(command@.subrange(st.last, command@.len() as int)))
            } else {
                st.pieces
            };
            match r {
                Err(ParseError::QuoteUnclosed) => st.in_quotes,
                Err(ParseError::UnknownProgram(c)) => {
                    &&& !st.in_quotes
                    &&& c@ == command@
                    &&& words.len() == 0 || (words.len() > 0 && forall|j: int|
                        0 <= j < programs@.len() ==> programs@[j]@ != words[0])
                },
                Ok((idx, args)) => {
                    &&& !st.in_quotes
                    &&& words.len() > 0
                    &&& idx < programs@.len()
                    &&& programs@[idx as int]@ == words[0]
                    &&& forall|j: int| 0 <= j < idx ==> programs@[j]@ != words[0]
                    &&& spec_views(args@) == words.drop_first()
                },
            }
        }),
{
    let mut words = match shell_split(command, quotes, spliters) {
        Ok(w) => w,
        Err(e) => {
            return Err(e);
        },
    };
    if words.len() == 0 {
        return Err(ParseError::UnknownProgram(copy_chars(command)));
    }
    let ghost all_words = spec_views(words@);
    let head = words.remove(0);
    proof {
        assert(head@ == all_words[0]);
        assert(spec_views(words@) =~= all_words.drop_first());
    }
    match find_program(&head, programs) {
        Some(idx) => Ok((idx, words)),
        None => Err(ParseError::UnknownProgram(copy_chars(command))),
    }
}

} // verus!
