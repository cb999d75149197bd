//! From the text of the log to a matrix of numbers.
//!
//! The log is a table without a header: one record per line, the values of
//! a record separated by commas. Reading it takes two steps. `tokenize`
//! cuts the text into the tokens of each record. Each token is then read as
//! a number by the caller, and `parse_matrix` builds the matrix from what
//! was read, leaving out every token that is no number.
use vstd::prelude::*;
use crate::double::Double;

verus! {

/// The characters with the Unicode property `White_Space`.
pub open spec fn whitespace(c: char) -> bool {
    let u = c as u32;
    ||| 0x09 <= u <= 0x0D
    ||| u == 0x20
    ||| u == 0x85
    ||| u == 0xA0
    ||| u == 0x1680
    ||| 0x2000 <= u <= 0x200A
    ||| u == 0x2028
    ||| u == 0x2029
    ||| u == 0x202F
    ||| u == 0x205F
    ||| u == 0x3000
}

/// Whether every character of `s` is whitespace.
pub open spec fn blank(s: Seq<char>) -> bool {
    forall|i: int| 0 <= i < s.len() ==> whitespace(#[trigger] s[i])
}

/// `s` without its whitespace characters.
pub open spec fn squeezed(s: Seq<char>) -> Seq<char>
    decreases s.len(),
{
    if s.len() == 0 {
        s
    } else if whitespace(s.last()) {
        squeezed(s.drop_last())
    } else {
        squeezed(s.drop_last()).push(s.last())
    }
}

/// The pieces of `s` between occurrences of `sep`. A text with `n`
/// separators has `n + 1` pieces, some of which may be empty.
pub open spec fn split(s: Seq<char>, sep: char) -> Seq<Seq<char>>
    decreases s.len(),
{
    if s.len() == 0 {
        seq![Seq::empty()]
    } else {
        let before = split(s.drop_last(), sep);
        if s.last() == sep {
            before.push(Seq::empty())
        } else {
            before.drop_last().push(before.last().push(s.last()))
        }
    }
}

/// The pieces that are not blank, in order.
pub open spec fn nonblank(pieces: Seq<Seq<char>>) -> Seq<Seq<char>>
    decreases pieces.len(),
{
    if pieces.len() == 0 {
        pieces
    } else if blank(pieces.last()) {
        nonblank(pieces.drop_last())
    } else {
        nonblank(pieces.drop_last()).push(pieces.last())
    }
}

/// The records of a text: its lines, without those that hold nothing but
/// whitespace.
pub open spec fn lines(text: Seq<char>) -> Seq<Seq<char>> {
    nonblank(split(text, '\n'))
}

/// The tokens of a record: all whitespace is taken out first, then the rest
/// is cut at the commas.
pub open spec fn tokens(line: Seq<char>) -> Seq<Seq<char>> {
    split(squeezed(line), ',')
}

/// The tokens of every record of a text.
pub open spec fn token_grid(text: Seq<char>) -> Seq<Seq<Seq<char>>> {
    lines(text).map_values(|line: Seq<char>| tokens(line))
}

/// The text of each string.
pub open spec fn views(strings: Seq<String>) -> Seq<Seq<char>> {
    strings.map_values(|s: String| s@)
}

/// The text of each string of each row.
pub open spec fn grid_views(rows: Seq<Vec<String>>) -> Seq<Seq<Seq<char>>> {
    rows.map_values(|row: Vec<String>| views(row@))
}

/// The numbers among `readings`, in order.
pub open spec fn numbers(readings: Seq<Option<Double>>) -> Seq<Double>
    decreases readings.len(),
{
    if readings.len() == 0 {
        Seq::empty()
    } else {
        match readings.last() {
            Some(d) => numbers(readings.drop_last()).push(d),
            None => numbers(readings.drop_last()),
        }
    }
}

/// The numbers of each row of readings.
pub open spec fn matrix_of(readings: Seq<Vec<Option<Double>>>) -> Seq<Seq<Double>> {
    readings.map_values(|row: Vec<Option<Double>>| numbers(row@))
}

/// The numbers of each row of a matrix.
pub open spec fn rows_of(matrix: Seq<Vec<Double>>) -> Seq<Seq<Double>> {
    matrix.map_values(|row: Vec<Double>| row@)
}

/// Whether `c` is a whitespace character.
pub fn is_whitespace(c: char) -> (b: bool)
    ensures
        b == whitespace(c),
{
    let u: u32 = c as u32;
    (0x09 <= u && u <= 0x0D) || u == 0x20 || u == 0x85 || u == 0xA0 || u == 0x1680 || (0x2000 <= u
        && u <= 0x200A) || u == 0x2028 || u == 0x2029 || u == 0x202F || u == 0x205F || u == 0x3000
}

/// Splits a text into its records. Lines that are empty or hold only
/// whitespace are left out, so a newline at the end makes no record.
pub fn newline_split(inp: &str) -> (rows: Vec<String>)
    ensures
        views(rows@) == lines(inp@),
{
    let mut rows: Vec<String> = Vec::new();
    let mut current = String::new();
    let mut empty = true;
    assert(inp@.take(0) =~= Seq::empty());
    assert(views(rows@) =~= nonblank(split(inp@.take(0), '\n').drop_last()));
    for c in it: inp.chars()
        invariant
            it.seq() == inp@,
            views(rows@) == nonblank(split(inp@.take(it.index() as int), '\n').drop_last()),
            current@ == split(inp@.take(it.index() as int), '\n').last(),
            empty == blank(current@),
    {
        let ghost seen = inp@.take(it.index() as int);
        let ghost next = inp@.take(it.index() + 1);
        proof {
            assert(next.drop_last() =~= seen);
            assert(next.last() == c);
            lemma_split_nonempty(seen, '\n');
        }
        if c == '\n' {
            if !empty {
                let ghost before = rows@;
                rows.push(current);
                assert(views(rows@) =~= views(before).push(current@));
            }
            assert(split(next, '\n').drop_last() =~= split(seen, '\n'));
            assert(split(seen, '\n').drop_last().push(split(seen, '\n').last()) =~= split(
                seen,
                '\n',
            ));
            current = String::new();
            empty = true;
        } else {
            let ghost line = current@;
            if !is_whitespace(c) {
                empty = false;
            }
            current.push(c);
            assert(split(next, '\n').drop_last() =~= split(seen, '\n').drop_last());
            assert(blank(line.push(c)) == (blank(line) && whitespace(c))) by {
                if blank(line) && whitespace(c) {
                    assert forall|i: int| 0 <= i < line.push(c).len() implies whitespace(
                        #[trigger] line.push(c)[i],
                    ) by {
                        if i < line.len() {
                            assert(line.push(c)[i] == line[i]);
                        }
                    }
                } else if blank(line.push(c)) {
                    assert(line.push(c)[line.len() as int] == c);
                    assert forall|i: int| 0 <= i < line.len() implies whitespace(
                        #[trigger] line[i],
                    ) by {
                        assert(line.push(c)[i] == line[i]);
                    }
                }
            }
        }
    }
    proof {
        assert(inp@.take(inp@.len() as int) =~= inp@);
        lemma_split_nonempty(inp@, '\n');
        assert(split(inp@, '\n').drop_last().push(split(inp@, '\n').last()) =~= split(inp@, '\n'));
    }
    if !empty {
        let ghost before = rows@;
        rows.push(current);
        assert(views(rows@) =~= views(before).push(current@));
    }
    rows
}

/// Cuts a record into its tokens. Whitespace anywhere in the record is
/// dropped before the record is cut at its commas; a record with `n`
/// commas has `n + 1` tokens, and a token may be empty.
pub fn csv_split(inp: &str) -> (fields: Vec<String>)
    ensures
        views(fields@) == tokens(inp@),
{
    let mut done: Vec<String> = Vec::new();
    let mut current = String::new();
    assert(inp@.take(0) =~= Seq::empty());
    assert(views(done@) =~= split(squeezed(inp@.take(0)), ',').drop_last());
    for c in it: inp.chars()
        invariant
            it.seq() == inp@,
            views(done@) == split(squeezed(inp@.take(it.index() as int)), ',').drop_last(),
            current@ == split(squeezed(inp@.take(it.index() as int)), ',').last(),
    {
        let ghost seen = inp@.take(it.index() as int);
        let ghost next = inp@.take(it.index() + 1);
        proof {
            assert(next.drop_last() =~= seen);
            assert(next.last() == c);
            lemma_split_nonempty(squeezed(seen), ',');
        }
        if !is_whitespace(c) {
            let ghost kept = squeezed(seen);
            assert(squeezed(next) == kept.push(c));
            assert(kept.push(c).drop_last() =~= kept);
            if c == ',' {
                let ghost before = done@;
                done.push(current);
                current = String::new();
                assert(views(done@) =~= views(before).push(split(kept, ',').last()));
                assert(split(kept, ',').drop_last().push(split(kept, ',').last()) =~= split(
                    kept,
                    ',',
                ));
                assert(split(kept.push(c), ',').drop_last() =~= split(kept, ','));
            } else {
                current.push(c);
                assert(split(kept.push(c), ',').drop_last() =~= split(kept, ',').drop_last());
            }
        }
    }
    proof {
        assert(inp@.take(inp@.len() as int) =~= inp@);
        lemma_split_nonempty(squeezed(inp@), ',');
        assert(split(squeezed(inp@), ',').drop_last().push(split(squeezed(inp@), ',').last())
            =~= split(squeezed(inp@), ','));
    }
    let ghost before = done@;
    done.push(current);
    assert(views(done@) =~= views(before).push(current@));
    done
}

/// Cuts a text into the tokens of each of its records.
pub fn tokenize(text: &str) -> (grid: Vec<Vec<String>>)
    ensures
        grid_views(grid@) == token_grid(text@),
{
    let rows = newline_split(text);
    let mut grid: Vec<Vec<String>> = Vec::new();
    let mut i: usize = 0;
    while i < rows.len()
        invariant
            i <= rows.len(),
            views(rows@) == lines(text@),
            grid_views(grid@) =~= token_grid(text@).take(i as int),
        decreases rows.len() - i,
    {
        let fields = csv_split(rows[i].as_str());
        let ghost before = grid@;
        grid.push(fields);
        proof {
            assert(views(rows@)[i as int] == rows@[i as int]@);
            assert(token_grid(text@)[i as int] == tokens(lines(text@)[i as int]));
            assert(grid_views(grid@) =~= grid_views(before).push(views(fields@)));
            assert(token_grid(text@).take(i + 1) =~= token_grid(text@).take(i as int).push(
                token_grid(text@)[i as int],
            ));
        }
        i += 1;
    }
    assert(token_grid(text@).take(rows.len() as int) =~= token_grid(text@));
    grid
}

/// Keeps the numbers of a record. A token that was no number leaves no
/// trace: it is not replaced by zero, so what follows it moves one column
/// to the left.
pub fn parse_row(readings: &Vec<Option<Double>>) -> (row: Vec<Double>)
    ensures
        row@ == numbers(readings@),
{
    let mut row: Vec<Double> = Vec::new();
    let mut i: usize = 0;
    assert(readings@.take(0) =~= Seq::empty());
    while i < readings.len()
        invariant
            i <= readings.len(),
            row@ == numbers(readings@.take(i as int)),
        decreases readings.len() - i,
    {
        proof {
            assert(readings@.take(i + 1).drop_last() =~= readings@.take(i as int));
            assert(readings@.take(i + 1).last() == readings@[i as int]);
        }
        match readings[i] {
            Some(d) => {
                row.push(d);
            },
            None => {},
        }
        i += 1;
    }
    assert(readings@.take(readings.len() as int) =~= readings@);
    row
}

/// Builds the matrix from what each token of each record was read as. The
/// rows keep the order of the records; no records gives an empty matrix.
pub fn parse_matrix(readings: &Vec<Vec<Option<Double>>>) -> (matrix: Vec<Vec<Double>>)
    ensures
        rows_of(matrix@) == matrix_of(readings@),
{
    let mut matrix: Vec<Vec<Double>> = Vec::new();
    let mut i: usize = 0;
    while i < readings.len()
        invariant
            i <= readings.len(),
            rows_of(matrix@) =~= matrix_of(readings@).take(i as int),
        decreases readings.len() - i,
    {
        let row = parse_row(&readings[i]);
        let ghost before = matrix@;
        matrix.push(row);
        proof {
            assert(rows_of(matrix@) =~= rows_of(before).push(row@));
            assert(matrix_of(readings@).take(i + 1) =~= matrix_of(readings@).take(i as int).push(
                numbers(readings@[i as int]@),
            ));
        }
        i += 1;
    }
    assert(matrix_of(readings@).take(readings.len() as int) =~= matrix_of(readings@));
    matrix
}

/// The pieces put together again, with `sep` between each two.
pub open spec fn joined(pieces: Seq<Seq<char>>, sep: char) -> Seq<char>
    decreases pieces.len(),
{
    if pieces.len() == 0 {
        Seq::empty()
    } else if pieces.len() == 1 {
        pieces[0]
    } else {
        joined(pieces.drop_last(), sep).push(sep) + pieces.last()
    }
}

/// A split always has at least one piece.
pub proof fn lemma_split_nonempty(s: Seq<char>, sep: char)
    ensures
        split(s, sep).len() >= 1,
    decreases s.len(),
{
    if s.len() > 0 {
        lemma_split_nonempty(s.drop_last(), sep);
    }
}

/// Splitting loses nothing and cuts at every separator: no piece holds the
/// separator, and the pieces joined by it are the text again.
pub proof fn lemma_split_joined(s: Seq<char>, sep: char)
    ensures
        forall|i: int, j: int|
            0 <= i < split(s, sep).len() && 0 <= j < split(s, sep)[i].len() ==> split(
                s,
                sep,
            )[i][j] != sep,
        joined(split(s, sep), sep) == s,
    decreases s.len(),
{
    if s.len() > 0 {
        let before = split(s.drop_last(), sep);
        let c = s.last();
        lemma_split_joined(s.drop_last(), sep);
        lemma_split_nonempty(s.drop_last(), sep);
        assert(s =~= s.drop_last().push(c));
        if c == sep {
            let pieces = before.push(Seq::empty());
            assert(pieces.drop_last() =~= before);
            assert(joined(pieces, sep) =~= s);
        } else {
            let grown = before.last().push(c);
            let pieces = before.drop_last().push(grown);
            assert(pieces.drop_last() =~= before.drop_last());
            if before.len() == 1 {
                assert(joined(pieces, sep) =~= s);
            } else {
                assert(joined(pieces, sep) =~= joined(before, sep).push(c));
            }
            assert forall|i: int, j: int|
                0 <= i < pieces.len() && 0 <= j < pieces[i].len() implies pieces[i][j] != sep by {
                if i < pieces.len() - 1 {
                    assert(pieces[i] == before[i]);
                } else if j < before.last().len() {
                    assert(pieces[i][j] == before[before.len() - 1][j]);
                }
            }
        }
    } else {
        assert(joined(split(s, sep), sep) =~= s);
    }
}

/// Squeezing takes out all whitespace and nothing else: none is left, and
/// a text without whitespace stays as it is.
pub proof fn lemma_squeezed(s: Seq<char>)
    ensures
        forall|i: int| 0 <= i < squeezed(s).len() ==> !whitespace(#[trigger] squeezed(s)[i]),
        (forall|i: int| 0 <= i < s.len() ==> !whitespace(#[trigger] s[i])) ==> squeezed(s) == s,
        blank(s) <==> squeezed(s).len() == 0,
    decreases s.len(),
{
    if s.len() > 0 {
        lemma_squeezed(s.drop_last());
        assert(s =~= s.drop_last().push(s.last()));
        if forall|i: int| 0 <= i < s.len() ==> !whitespace(#[trigger] s[i]) {
            assert forall|i: int| 0 <= i < s.drop_last().len() implies !whitespace(
                #[trigger] s.drop_last()[i],
            ) by {
                assert(s.drop_last()[i] == s[i]);
            }
            assert(!whitespace(s[s.len() - 1]));
        }
        if blank(s) {
            assert forall|i: int| 0 <= i < s.drop_last().len() implies whitespace(
                #[trigger] s.drop_last()[i],
            ) by {
                assert(s.drop_last()[i] == s[i]);
            }
            assert(whitespace(s[s.len() - 1]));
        }
        if squeezed(s).len() == 0 {
            assert forall|i: int| 0 <= i < s.len() implies whitespace(#[trigger] s[i]) by {
                if i < s.len() - 1 {
                    assert(s.drop_last()[i] == s[i]);
                }
            }
        }
    }
}

/// A newline at the end of a text makes no record, and a text without
/// characters has none.
pub proof fn lemma_trailing_newline(text: Seq<char>)
    ensures
        lines(text.push('\n')) == lines(text),
        lines(Seq::empty()) == Seq::<Seq<char>>::empty(),
{
    let pieces = split(text, '\n');
    assert(text.push('\n').drop_last() =~= text);
    assert(pieces.push(Seq::empty()).drop_last() =~= pieces);
    assert(blank(Seq::<char>::empty()));
    let one = split(Seq::<char>::empty(), '\n');
    assert(one =~= seq![Seq::<char>::empty()]);
    assert(one.drop_last() =~= Seq::<Seq<char>>::empty());
    assert(one.last() =~= Seq::<char>::empty());
    assert(nonblank(one.drop_last()) =~= Seq::<Seq<char>>::empty());
}

} // verus!
