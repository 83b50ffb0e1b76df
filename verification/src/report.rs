//! The comma-separated report: structural facts about each parameter set. Latencies are not in it.

use vstd::arithmetic::div_mod::*;
use vstd::arithmetic::power2::*;
use vstd::bits::*;
use vstd::prelude::*;
use vstd::string::*;

use crate::bootstrap::THREAD_COUNT;
use crate::params::CoreParams;

verus! {

/// The character of a decimal digit.
pub open spec fn digit(d: nat) -> char {
    (48 + d) as char
}

/// A number in decimal.
pub open spec fn decimal(n: nat) -> Seq<char>
    decreases n,
{
    if n < 10 {
        seq![digit(n)]
    } else {
        decimal(n / 10).push(digit(n % 10))
    }
}

/// A number of thousandths in decimal, with three decimals.
pub open spec fn three_decimals(thousandths: nat) -> Seq<char> {
    (decimal(thousandths / 1000) + "."@).push(digit(thousandths / 100 % 10)).push(
        digit(thousandths / 10 % 10),
    ).push(digit(thousandths % 10))
}

/// The fields of a line, with a comma between neighbours.
pub open spec fn joined(fields: Seq<Seq<char>>) -> Seq<char>
    decreases fields.len(),
{
    if fields.len() == 0 {
        Seq::empty()
    } else if fields.len() == 1 {
        fields[0]
    } else {
        joined(fields.drop_last()) + ","@ + fields.last()
    }
}

/// The column names.
pub open spec fn columns() -> Seq<Seq<char>> {
    seq![
        "param_set"@,
        "grouping_factor_g"@,
        "ggsw_per_element_2^g"@,
        "input_dim_n"@,
        "groups_n_div_g"@,
        "std_bsk_size_mb"@,
        "keygen_time_s"@,
        "decomp_base_log"@,
        "decomp_level"@,
        "correct"@,
        "domain"@,
        "notes"@,
    ]
}

/// The notes on how a row came about, quoted.
pub open spec fn notes() -> Seq<char> {
    "\"threads="@ + decimal(THREAD_COUNT as nat)
        + "; identity LUT; native 2^64; latency in criterion report\""@
}

/// The fields of the row of one parameter set, in the order of the columns.
pub open spec fn row_fields(
    label: Seq<char>,
    p: CoreParams,
    thousandths_of_mb: u64,
    keygen_time_ms: u64,
    correct: bool,
) -> Seq<Seq<char>> {
    seq![
        label,
        decimal(p.grouping_factor as nat),
        decimal(pow2(p.grouping_factor as nat)),
        decimal(p.input_lwe_dimension as nat),
        decimal(p.key_shape().groups()),
        three_decimals(thousandths_of_mb as nat),
        three_decimals(keygen_time_ms as nat),
        decimal(p.decomp_base_log as nat),
        decimal(p.decomp_level_count as nat),
        if correct {
            "Y"@
        } else {
            "N"@
        },
        "Fourier"@,
        notes(),
    ]
}

/// Appends a digit.
fn append_digit(text: &mut String, d: u64)
    requires
        d < 10,
    ensures
        final(text)@ == old(text)@.push(digit(d as nat)),
{
    proof {
        reveal_strlit("0");
        reveal_strlit("1");
        reveal_strlit("2");
        reveal_strlit("3");
        reveal_strlit("4");
        reveal_strlit("5");
        reveal_strlit("6");
        reveal_strlit("7");
        reveal_strlit("8");
        reveal_strlit("9");
    }
    let character = match d {
        0 => "0",
        1 => "1",
        2 => "2",
        3 => "3",
        4 => "4",
        5 => "5",
        6 => "6",
        7 => "7",
        8 => "8",
        _ => "9",
    };
    text.append(character);
    assert(text@ =~= old(text)@.push(digit(d as nat)));
}

/// Appends a number in decimal.
fn append_decimal(text: &mut String, n: u64)
    ensures
        final(text)@ == old(text)@ + decimal(n as nat),
    decreases n,
{
    if n >= 10 {
        append_decimal(text, n / 10);
    }
    append_digit(text, n % 10);
    assert(text@ =~= old(text)@ + decimal(n as nat));
}

/// A number in decimal, as a text of its own.
fn decimal_text(n: u64) -> (text: String)
    ensures
        text@ == decimal(n as nat),
{
    let mut text = String::new();
    append_decimal(&mut text, n);
    assert(text@ =~= decimal(n as nat));
    text
}

/// A number of thousandths in decimal, as a text of its own.
fn three_decimals_text(thousandths: u64) -> (text: String)
    ensures
        text@ == three_decimals(thousandths as nat),
{
    let mut text = decimal_text(thousandths / 1000);
    text.append(".");
    append_digit(&mut text, thousandths / 100 % 10);
    append_digit(&mut text, thousandths / 10 % 10);
    append_digit(&mut text, thousandths % 10);
    text
}

/// Appends the field at `i` of `all` to a line that holds the fields before it.
fn append_field(
    line: &mut String,
    field: &str,
    Ghost(all): Ghost<Seq<Seq<char>>>,
    Ghost(i): Ghost<int>,
)
    requires
        1 <= i < all.len(),
        field@ == all[i],
        old(line)@ == joined(all.take(i)),
    ensures
        final(line)@ == joined(all.take(i + 1)),
{
    line.append(",");
    line.append(field);
    assert(all.take(i + 1).drop_last() =~= all.take(i));
}

/// The first line of the report.
pub fn csv_header() -> (line: String)
    ensures
        line@ == joined(columns()) + "\n"@,
{
    let ghost all = columns();
    let mut line = String::from_str("param_set");
    assert(line@ == joined(all.take(1)));
    append_field(&mut line, "grouping_factor_g", Ghost(all), Ghost(1));
    append_field(&mut line, "ggsw_per_element_2^g", Ghost(all), Ghost(2));
    append_field(&mut line, "input_dim_n", Ghost(all), Ghost(3));
    append_field(&mut line, "groups_n_div_g", Ghost(all), Ghost(4));
    append_field(&mut line, "std_bsk_size_mb", Ghost(all), Ghost(5));
    append_field(&mut line, "keygen_time_s", Ghost(all), Ghost(6));
    append_field(&mut line, "decomp_base_log", Ghost(all), Ghost(7));
    append_field(&mut line, "decomp_level", Ghost(all), Ghost(8));
    append_field(&mut line, "correct", Ghost(all), Ghost(9));
    append_field(&mut line, "domain", Ghost(all), Ghost(10));
    append_field(&mut line, "notes", Ghost(all), Ghost(11));
    assert(all.take(12) =~= all);
    line.append("\n");
    line
}

/// What is written before the rows: the first line where the report is new, nothing where it is
/// already there.
pub fn csv_header_if_new(exists_already: bool) -> (line: Option<String>)
    ensures
        exists_already ==> line is None,
        !exists_already ==> line is Some && line->0@ == joined(columns()) + "\n"@,
{
    if exists_already {
        None
    } else {
        Some(csv_header())
    }
}

/// The row of one parameter set. The key size in MiB and the key-generation time in seconds are
/// written with three decimals.
pub fn csv_row(
    label: &str,
    p: &CoreParams,
    thousandths_of_mb: u64,
    keygen_time_ms: u64,
    correct: bool,
) -> (line: String)
    requires
        1 <= p.grouping_factor < usize::BITS,
    ensures
        line@ == joined(row_fields(label@, *p, thousandths_of_mb, keygen_time_ms, correct)) + "\n"@,
{
    proof {
        lemma_usize_pow2_no_overflow(p.grouping_factor as nat);
        lemma_usize_shl_is_mul(1, p.grouping_factor);
    }
    let g: usize = p.grouping_factor;
    let n: usize = p.input_lwe_dimension;
    let ghost all = row_fields(label@, *p, thousandths_of_mb, keygen_time_ms, correct);
    let mut line = String::from_str(label);
    assert(line@ == joined(all.take(1)));
    append_field(&mut line, decimal_text(g as u64).as_str(), Ghost(all), Ghost(1));
    append_field(&mut line, decimal_text((1usize << g) as u64).as_str(), Ghost(all), Ghost(2));
    append_field(&mut line, decimal_text(n as u64).as_str(), Ghost(all), Ghost(3));
    append_field(&mut line, decimal_text((n / g) as u64).as_str(), Ghost(all), Ghost(4));
    append_field(&mut line, three_decimals_text(thousandths_of_mb).as_str(), Ghost(all), Ghost(5));
    append_field(&mut line, three_decimals_text(keygen_time_ms).as_str(), Ghost(all), Ghost(6));
    append_field(&mut line, decimal_text(p.decomp_base_log as u64).as_str(), Ghost(all), Ghost(7));
    append_field(
        &mut line,
        decimal_text(p.decomp_level_count as u64).as_str(),
        Ghost(all),
        Ghost(8),
    );
    append_field(
        &mut line,
        if correct {
            "Y"
        } else {
            "N"
        },
        Ghost(all),
        Ghost(9),
    );
    append_field(&mut line, "Fourier", Ghost(all), Ghost(10));
    let mut notes_text = String::from_str("\"threads=");
    append_decimal(&mut notes_text, THREAD_COUNT as u64);
    notes_text.append("; identity LUT; native 2^64; latency in criterion report\"");
    append_field(&mut line, notes_text.as_str(), Ghost(all), Ghost(11));
    assert(all.take(12) =~= all);
    line.append("\n");
    line
}

/// The character `c` does not occur in the text.
pub open spec fn free_of(text: Seq<char>, c: char) -> bool {
    forall|i: int| 0 <= i < text.len() ==> #[trigger] text[i] != c
}

/// The pieces of a text that its commas separate.
pub open spec fn split(text: Seq<char>) -> Seq<Seq<char>>
    decreases text.len(),
{
    if text.len() == 0 {
        seq![Seq::empty()]
    } else {
        let pieces = split(text.drop_last());
        if text.last() == ',' {
            pieces.push(Seq::empty())
        } else {
            pieces.drop_last().push(pieces.last().push(text.last()))
        }
    }
}

proof fn lemma_split_piece(text: Seq<char>)
    requires
        free_of(text, ','),
    ensures
        split(text) == seq![text],
    decreases text.len(),
{
    if text.len() == 0 {
        assert(text =~= Seq::empty());
    } else {
        lemma_split_piece(text.drop_last());
        assert(text.drop_last().push(text.last()) =~= text);
        assert(split(text) =~= seq![text]);
    }
}

proof fn lemma_split_at_the_last_comma(text: Seq<char>, piece: Seq<char>)
    requires
        free_of(piece, ','),
    ensures
        split(text + ","@ + piece) == split(text).push(piece),
    decreases piece.len(),
{
    reveal_strlit(",");
    let whole = text + ","@ + piece;
    if piece.len() == 0 {
        assert(whole.drop_last() =~= text);
        assert(piece =~= Seq::empty());
    } else {
        lemma_split_at_the_last_comma(text, piece.drop_last());
        assert(whole.drop_last() =~= text + ","@ + piece.drop_last());
        assert(piece.drop_last().push(piece.last()) =~= piece);
        assert(split(whole) =~= split(text).push(piece));
    }
}

/// Splitting a line at its commas undoes joining its fields, as long as no field holds a comma.
pub proof fn splitting_undoes_joining(fields: Seq<Seq<char>>)
    requires
        fields.len() >= 1,
        forall|i: int| 0 <= i < fields.len() ==> free_of(#[trigger] fields[i], ','),
    ensures
        split(joined(fields)) == fields,
    decreases fields.len(),
{
    if fields.len() == 1 {
        lemma_split_piece(fields[0]);
        assert(seq![fields[0]] =~= fields);
    } else {
        splitting_undoes_joining(fields.drop_last());
        lemma_split_at_the_last_comma(joined(fields.drop_last()), fields.last());
        assert(fields.drop_last().push(fields.last()) =~= fields);
    }
}

proof fn lemma_joined_is_free_of(fields: Seq<Seq<char>>, c: char)
    requires
        c != ',',
        forall|i: int| 0 <= i < fields.len() ==> free_of(#[trigger] fields[i], c),
    ensures
        free_of(joined(fields), c),
    decreases fields.len(),
{
    if fields.len() > 1 {
        reveal_strlit(",");
        lemma_joined_is_free_of(fields.drop_last(), c);
        assert(free_of(fields.last(), c));
    }
}

proof fn lemma_decimal_is_free_of(n: nat, c: char)
    requires
        c == ',' || c == '\n',
    ensures
        free_of(decimal(n), c),
    decreases n,
{
    if n >= 10 {
        lemma_decimal_is_free_of(n / 10, c);
    }
}

proof fn lemma_three_decimals_are_free_of(thousandths: nat, c: char)
    requires
        c == ',' || c == '\n',
    ensures
        free_of(three_decimals(thousandths), c),
{
    reveal_strlit(".");
    lemma_decimal_is_free_of(thousandths / 1000, c);
}

proof fn lemma_row_is_free_of(
    label: Seq<char>,
    p: CoreParams,
    thousandths_of_mb: u64,
    keygen_time_ms: u64,
    correct: bool,
    c: char,
)
    requires
        c == ',' || c == '\n',
        free_of(label, c),
    ensures
        ({
            let fields = row_fields(label, p, thousandths_of_mb, keygen_time_ms, correct);
            forall|i: int| 0 <= i < fields.len() ==> free_of(#[trigger] fields[i], c)
        }),
{
    lemma_decimal_is_free_of(p.grouping_factor as nat, c);
    lemma_decimal_is_free_of(pow2(p.grouping_factor as nat), c);
    lemma_decimal_is_free_of(p.input_lwe_dimension as nat, c);
    lemma_decimal_is_free_of(p.key_shape().groups(), c);
    lemma_three_decimals_are_free_of(thousandths_of_mb as nat, c);
    lemma_three_decimals_are_free_of(keygen_time_ms as nat, c);
    lemma_decimal_is_free_of(p.decomp_base_log as nat, c);
    lemma_decimal_is_free_of(p.decomp_level_count as nat, c);
    lemma_decimal_is_free_of(THREAD_COUNT as nat, c);
    reveal_strlit("Y");
    reveal_strlit("N");
    reveal_strlit("Fourier");
    reveal_strlit("\"threads=");
    reveal_strlit("; identity LUT; native 2^64; latency in criterion report\"");
    assert(free_of(notes(), c));
}

proof fn lemma_columns_are_free_of(c: char)
    requires
        c == ',' || c == '\n',
    ensures
        forall|i: int| 0 <= i < columns().len() ==> free_of(#[trigger] columns()[i], c),
{
    reveal_strlit("param_set");
    reveal_strlit("grouping_factor_g");
    reveal_strlit("ggsw_per_element_2^g");
    reveal_strlit("input_dim_n");
    reveal_strlit("groups_n_div_g");
    reveal_strlit("std_bsk_size_mb");
    reveal_strlit("keygen_time_s");
    reveal_strlit("decomp_base_log");
    reveal_strlit("decomp_level");
    reveal_strlit("correct");
    reveal_strlit("domain");
    reveal_strlit("notes");
}

/// The character is one of the ten digits.
pub open spec fn is_digit(c: char) -> bool {
    '0' <= c <= '9'
}

/// The number that a text of digits reads as.
pub open spec fn number_read(text: Seq<char>) -> int
    decreases text.len(),
{
    if text.len() == 0 {
        0
    } else {
        10 * number_read(text.drop_last()) + (text.last() as int - '0' as int)
    }
}

/// The text reads as the number `n`: it consists of digits, without a leading zero.
pub open spec fn reads_as(text: Seq<char>, n: int) -> bool {
    &&& text.len() >= 1
    &&& forall|i: int| 0 <= i < text.len() ==> is_digit(#[trigger] text[i])
    &&& text.len() > 1 ==> text[0] != '0'
    &&& number_read(text) == n
}

/// The text reads as `thousandths` of one: a number, a point, and three digits.
pub open spec fn reads_as_thousandths(text: Seq<char>, thousandths: int) -> bool {
    let whole = text.take(text.len() - 4);
    let rest = text.skip(text.len() - 3);
    &&& text.len() >= 5
    &&& reads_as(whole, number_read(whole))
    &&& text[text.len() - 4] == '.'
    &&& forall|i: int| 0 <= i < 3 ==> is_digit(#[trigger] rest[i])
    &&& number_read(whole) * 1000 + number_read(rest) == thousandths
}

/// Reading a number back gives the number that was written.
pub proof fn numbers_read_back(n: nat)
    ensures
        reads_as(decimal(n), n as int),
        n >= 1 ==> decimal(n)[0] != '0',
    decreases n,
{
    if n >= 10 {
        numbers_read_back(n / 10);
        assert(decimal(n).drop_last() =~= decimal(n / 10));
    } else {
        assert(decimal(n).drop_last() =~= Seq::empty());
        assert(number_read(decimal(n).drop_last()) == 0);
    }
}

/// Reading a number with three decimals back gives the thousandths that were written.
pub proof fn thousandths_read_back(thousandths: nat)
    ensures
        reads_as_thousandths(three_decimals(thousandths), thousandths as int),
{
    let (a, b, c) = (thousandths / 100 % 10, thousandths / 10 % 10, thousandths % 10);
    let text = three_decimals(thousandths);
    let whole = decimal(thousandths / 1000);
    let rest = seq![digit(a), digit(b), digit(c)];
    lemma_digits_of_thousandths(thousandths);
    lemma_three_digits(a, b, c);
    numbers_read_back(thousandths / 1000);
    assert(text[text.len() - 4] == '.' && text.take(text.len() - 4) == whole && text.skip(
        text.len() - 3,
    ) == rest) by {
        reveal_strlit(".");
        assert(text.take(text.len() - 4) =~= whole);
        assert(text.skip(text.len() - 3) =~= rest);
    }
}

proof fn lemma_digits_of_thousandths(n: nat)
    ensures
        n == 1000 * (n / 1000) + (100 * (n / 100 % 10) + 10 * (n / 10 % 10) + n % 10),
{
    let tens = n / 10;
    let hundreds = tens / 10;
    assert(n == 10 * tens + n % 10);
    assert(tens == 10 * hundreds + tens % 10);
    assert(hundreds == 10 * (hundreds / 10) + hundreds % 10);
    lemma_div_denominator(n as int, 10, 10);
    lemma_div_denominator(n as int, 100, 10);
}

proof fn lemma_three_digits(a: nat, b: nat, c: nat)
    requires
        a < 10,
        b < 10,
        c < 10,
    ensures
        number_read(seq![digit(a), digit(b), digit(c)]) == 100 * a + 10 * b + c,
        is_digit(digit(a)),
        is_digit(digit(b)),
        is_digit(digit(c)),
{
    let one = seq![digit(a)];
    let two = seq![digit(a), digit(b)];
    let three = seq![digit(a), digit(b), digit(c)];
    assert(one.drop_last() =~= Seq::empty());
    assert(number_read(one.drop_last()) == 0);
    assert(two.drop_last() =~= one);
    assert(number_read(two) == 10 * number_read(one) + b);
    assert(three.drop_last() =~= two);
}

/// Reading a row back gives what it was made of: its commas separate the label, and then each
/// quantity in its own place.
pub proof fn rows_read_back(
    label: Seq<char>,
    p: CoreParams,
    thousandths_of_mb: u64,
    keygen_time_ms: u64,
    correct: bool,
)
    requires
        free_of(label, ','),
        p.grouping_factor >= 1,
    ensures
        ({
            let row = joined(row_fields(label, p, thousandths_of_mb, keygen_time_ms, correct));
            let fields = split(row);
            let n = p.input_lwe_dimension as int;
            let g = p.grouping_factor as int;
            &&& fields.len() == 12
            &&& fields[0] == label
            &&& reads_as(fields[1], g)
            &&& reads_as(fields[2], pow2(g as nat) as int)
            &&& reads_as(fields[3], n)
            &&& exists|groups: int| #[trigger]
                reads_as(fields[4], groups) && groups * g <= n < (groups + 1) * g
            &&& reads_as_thousandths(fields[5], thousandths_of_mb as int)
            &&& reads_as_thousandths(fields[6], keygen_time_ms as int)
            &&& reads_as(fields[7], p.decomp_base_log as int)
            &&& reads_as(fields[8], p.decomp_level_count as int)
            &&& correct ==> fields[9] == seq!['Y']
            &&& !correct ==> fields[9] == seq!['N']
            &&& fields[10] == "Fourier"@
            &&& fields[11]
                == "\"threads=8; identity LUT; native 2^64; latency in criterion report\""@
        }),
{
    let n = p.input_lwe_dimension as int;
    let g = p.grouping_factor as int;
    lemma_row_is_free_of(label, p, thousandths_of_mb, keygen_time_ms, correct, ',');
    splitting_undoes_joining(row_fields(label, p, thousandths_of_mb, keygen_time_ms, correct));
    numbers_read_back(g as nat);
    numbers_read_back(pow2(g as nat));
    numbers_read_back(n as nat);
    numbers_read_back(p.key_shape().groups());
    lemma_fundamental_div_mod(n, g);
    lemma_mod_bound(n, g);
    assert((n / g) * g == g * (n / g) && (n / g + 1) * g == g * (n / g) + g) by (nonlinear_arith);
    thousandths_read_back(thousandths_of_mb as nat);
    thousandths_read_back(keygen_time_ms as nat);
    numbers_read_back(p.decomp_base_log as nat);
    numbers_read_back(p.decomp_level_count as nat);
    reveal_strlit("Y");
    reveal_strlit("N");
    assert("Y"@ =~= seq!['Y']);
    assert("N"@ =~= seq!['N']);
    reveal_strlit("\"threads=");
    reveal_strlit("; identity LUT; native 2^64; latency in criterion report\"");
    reveal_strlit("\"threads=8; identity LUT; native 2^64; latency in criterion report\"");
    assert(notes()
        =~= "\"threads=8; identity LUT; native 2^64; latency in criterion report\""@);
}

/// Every row splits into the columns: where the label holds neither a comma nor a line break, a row
/// and the first line are one line each, and their commas separate exactly the twelve fields and the
/// twelve column names, in the same order.
pub proof fn rows_split_into_the_columns(
    label: Seq<char>,
    p: CoreParams,
    thousandths_of_mb: u64,
    keygen_time_ms: u64,
    correct: bool,
)
    requires
        free_of(label, ','),
        free_of(label, '\n'),
    ensures
        columns().len() == 12,
        row_fields(label, p, thousandths_of_mb, keygen_time_ms, correct).len() == 12,
        split(joined(columns())) == columns(),
        split(joined(row_fields(label, p, thousandths_of_mb, keygen_time_ms, correct)))
            == row_fields(label, p, thousandths_of_mb, keygen_time_ms, correct),
        free_of(joined(columns()), '\n'),
        free_of(
            joined(row_fields(label, p, thousandths_of_mb, keygen_time_ms, correct)),
            '\n',
        ),
{
    let fields = row_fields(label, p, thousandths_of_mb, keygen_time_ms, correct);
    lemma_columns_are_free_of(',');
    lemma_columns_are_free_of('\n');
    splitting_undoes_joining(columns());
    lemma_joined_is_free_of(columns(), '\n');
    lemma_row_is_free_of(label, p, thousandths_of_mb, keygen_time_ms, correct, ',');
    lemma_row_is_free_of(label, p, thousandths_of_mb, keygen_time_ms, correct, '\n');
    splitting_undoes_joining(fields);
    lemma_joined_is_free_of(fields, '\n');
}

} // verus!
