//! Text for reports: decimal numbers and comma-separated lines.

use vstd::prelude::*;
use vstd::string::*;

verus! {

/// The digit character for a value below ten.
pub open spec fn digit(d: nat) -> char {
    (48 + d) as char
}

/// `n` in decimal notation.
pub open spec fn decimal(n: nat) -> Seq<char>
    decreases n,
{
    if n < 10 {
        seq![digit(n)]
    } else {
        decimal(n / 10).push(digit(n % 10))
    }
}

/// The digit for a value below ten, as text.
fn digit_text(d: u64) -> (r: &'static str)
    requires
        d < 10,
    ensures
        r@ == seq![digit(d as nat)],
{
    proof {
        reveal_strlit("0");
        reveal_strlit("1");
        reveal_strlit("2");
        reveal_strlit("3");
        reveal_strlit("4");
        reveal_strlit("5");
        reveal_strlit("6");
        reveal_strlit("7");
        reveal_strlit("8");
        reveal_strlit("9");
    }
    match d {
        0 => "0",
        1 => "1",
        2 => "2",
        3 => "3",
        4 => "4",
        5 => "5",
        6 => "6",
        7 => "7",
        8 => "8",
        _ => "9",
    }
}

/// `n` in decimal notation.
pub fn decimal_text(n: u64) -> (r: String)
    ensures
        r@ == decimal(n as nat),
    decreases n,
{
    if n < 10 {
        digit_text(n).to_owned()
    } else {
        let mut text: String = decimal_text(n / 10);
        text.append(digit_text(n % 10));
        assert(text@ =~= decimal(n as nat));
        text
    }
}

/// The texts of a list.
pub open spec fn texts(list: Seq<String>) -> Seq<Seq<char>> {
    list.map_values(|s: String| s@)
}

/// Adds a line.
pub fn push_line(lines: &mut Vec<String>, line: String)
    ensures
        texts(final(lines)@) == texts(old(lines)@).push(line@),
{
    lines.push(line);
    assert(texts(lines@) =~= texts(old(lines)@).push(line@));
}

/// Adds lines.
pub fn push_lines(lines: &mut Vec<String>, more: Vec<String>)
    ensures
        texts(final(lines)@) == texts(old(lines)@) + texts(more@),
{
    let mut more: Vec<String> = more;
    let ghost added = more@;
    lines.append(&mut more);
    assert(texts(lines@) =~= texts(old(lines)@) + texts(added));
}

/// The texts of a list of slices.
pub open spec fn slices(list: Seq<&str>) -> Seq<Seq<char>> {
    list.map_values(|s: &str| s@)
}

/// The parts in order, nothing between them.
pub open spec fn joined(parts: Seq<Seq<char>>) -> Seq<char>
    decreases parts.len(),
{
    if parts.len() == 0 {
        seq![]
    } else {
        joined(parts.drop_last()) + parts.last()
    }
}

/// The parts in order, nothing between them.
pub fn joined_text(parts: Vec<&str>) -> (r: String)
    ensures
        r@ == joined(slices(parts@)),
{
    let mut text: String = String::new();
    let mut i: usize = 0;
    while i < parts.len()
        invariant
            i <= parts.len(),
            text@ == joined(slices(parts@).take(i as int)),
        decreases parts.len() - i,
    {
        text.append(parts[i]);
        proof {
            let all = slices(parts@);
            assert(all.take(i + 1).drop_last() =~= all.take(i as int));
            assert(all.take(i + 1).last() == parts@[i as int]@);
        }
        i = i + 1;
    }
    assert(slices(parts@).take(i as int) =~= slices(parts@));
    text
}

/// The fields in order, with a comma between neighbours.
pub open spec fn comma_separated(fields: Seq<Seq<char>>) -> Seq<char>
    decreases fields.len(),
{
    if fields.len() == 0 {
        seq![]
    } else if fields.len() == 1 {
        fields[0]
    } else {
        comma_separated(fields.drop_last()) + ","@ + fields.last()
    }
}

/// The fields in order, with a comma between neighbours.
pub fn comma_line(fields: &Vec<String>) -> (r: String)
    ensures
        r@ == comma_separated(texts(fields@)),
{
    let mut line: String = String::new();
    let mut i: usize = 0;
    while i < fields.len()
        invariant
            i <= fields.len(),
            line@ == comma_separated(texts(fields@).take(i as int)),
        decreases fields.len() - i,
    {
        let ghost all = texts(fields@);
        if i > 0 {
            line.append(",");
        }
        line.append(fields[i].as_str());
        proof {
            assert(all.take(i + 1).drop_last() =~= all.take(i as int));
            assert(all.take(i + 1).last() == fields@[i as int]@);
            assert(line@ =~= comma_separated(all.take(i + 1)));
        }
        i = i + 1;
    }
    assert(texts(fields@).take(i as int) =~= texts(fields@));
    line
}

/// Commas in a text.
pub open spec fn commas(text: Seq<char>) -> nat
    decreases text.len(),
{
    if text.len() == 0 {
        0
    } else {
        commas(text.drop_last()) + if text.last() == ',' {
            1nat
        } else {
            0nat
        }
    }
}

proof fn lemma_commas_add(a: Seq<char>, b: Seq<char>)
    ensures
        commas(a + b) == commas(a) + commas(b),
    decreases b.len(),
{
    if b.len() == 0 {
        assert(a + b =~= a);
    } else {
        assert((a + b).drop_last() =~= a + b.drop_last());
        lemma_commas_add(a, b.drop_last());
    }
}

/// A line of fields without commas has as many columns as fields: one comma fewer.
pub proof fn law_columns(fields: Seq<Seq<char>>)
    requires
        fields.len() > 0,
        forall|i: int| 0 <= i < fields.len() ==> commas(#[trigger] fields[i]) == 0,
    ensures
        commas(comma_separated(fields)) == fields.len() - 1,
    decreases fields.len(),
{
    if fields.len() > 1 {
        law_columns(fields.drop_last());
        reveal_strlit(",");
        let head = comma_separated(fields.drop_last());
        assert(","@ =~= seq![',']);
        assert(commas(seq![',']) == 1) by {
            assert(seq![','].drop_last() =~= Seq::<char>::empty());
            assert(commas(Seq::<char>::empty()) == 0);
        }
        lemma_commas_add(head, ","@);
        lemma_commas_add(head + ","@, fields.last());
    }
}

/// A text in which no character is a comma holds no comma.
pub proof fn lemma_no_comma(text: Seq<char>)
    requires
        forall|i: int| 0 <= i < text.len() ==> text[i] != ',',
    ensures
        commas(text) == 0,
    decreases text.len(),
{
    if text.len() > 0 {
        lemma_no_comma(text.drop_last());
    }
}

/// Decimal notation holds no comma.
pub proof fn lemma_decimal_has_no_comma(n: nat)
    ensures
        commas(decimal(n)) == 0,
    decreases n,
{
    if n >= 10 {
        lemma_decimal_has_no_comma(n / 10);
        assert(decimal(n).drop_last() =~= decimal(n / 10));
    } else {
        assert(decimal(n).drop_last() =~= Seq::<char>::empty());
        assert(commas(Seq::<char>::empty()) == 0);
    }
}

// ---------------------------------------------------------------------------
// What the text functions give
// ---------------------------------------------------------------------------

/// The number that decimal digits spell.
pub open spec fn spelled(text: Seq<char>) -> int
    decreases text.len(),
{
    if text.len() == 0 {
        0
    } else {
        10 * spelled(text.drop_last()) + (text.last() as int - '0' as int)
    }
}

proof fn lemma_decimal_spells(n: nat)
    ensures
        spelled(decimal(n)) == n,
        decimal(n).len() >= 1,
        forall|k: int| 0 <= k < decimal(n).len() ==> '0' <= #[trigger] decimal(n)[k] <= '9',
        n > 0 ==> decimal(n)[0] != '0',
    decreases n,
{
    if n < 10 {
        assert(decimal(n).drop_last() =~= Seq::<char>::empty());
        assert(spelled(Seq::<char>::empty()) == 0);
    } else {
        lemma_decimal_spells(n / 10);
        assert(decimal(n).drop_last() =~= decimal(n / 10));
    }
}

/// Decimal notation spells the number, in digits alone and without a leading zero.
pub proof fn law_decimal_spells_the_number(n: u64, r: String)
    requires
        call_ensures(decimal_text, (n,), r),
    ensures
        r@ == decimal(n as nat),
        spelled(r@) == n,
        r@.len() >= 1,
        forall|k: int| 0 <= k < r@.len() ==> '0' <= #[trigger] r@[k] <= '9',
        n > 0 ==> r@[0] != '0',
{
    lemma_decimal_spells(n as nat);
}

/// One more part adds just that part, and no parts make an empty text.
pub proof fn law_joined_text_grows(parts: Vec<&str>, more: Vec<&str>, text: String, longer: String)
    requires
        call_ensures(joined_text, (parts,), text),
        call_ensures(joined_text, (more,), longer),
        more@.len() == parts@.len() + 1,
        more@.drop_last() == parts@,
    ensures
        parts@.len() == 0 ==> text@.len() == 0,
        longer@ == text@ + more@.last()@,
{
    assert(slices(more@).drop_last() =~= slices(parts@));
}

/// One more field adds a comma, where there was a field before, and just that field; no fields
/// make an empty line.
pub proof fn law_comma_line_grows(
    fields: Vec<String>,
    more: Vec<String>,
    line: String,
    longer: String,
)
    requires
        call_ensures(comma_line, (&fields,), line),
        call_ensures(comma_line, (&more,), longer),
        more@.len() == fields@.len() + 1,
        more@.drop_last() == fields@,
    ensures
        fields@.len() == 0 ==> line@.len() == 0 && longer@ == more@.last()@,
        fields@.len() > 0 ==> longer@ == line@ + seq![','] + more@.last()@,
{
    reveal_strlit(",");
    assert(","@ =~= seq![',']);
    assert(texts(more@).drop_last() =~= texts(fields@));
}

/// The same of the sequences that contracts speak of.
pub proof fn law_parts_and_fields(parts: Seq<Seq<char>>, part: Seq<char>)
    ensures
        joined(Seq::empty()).len() == 0,
        joined(parts.push(part)) == joined(parts) + part,
        comma_separated(Seq::empty()).len() == 0,
        comma_separated(seq![part]) == part,
        parts.len() > 0 ==> comma_separated(parts.push(part)) == comma_separated(parts) + seq![',']
            + part,
{
    reveal_strlit(",");
    assert(","@ =~= seq![',']);
    assert(parts.push(part).drop_last() =~= parts);
}

/// Adding lines keeps those that were there and puts the new ones behind them, unchanged.
pub proof fn law_lines_are_added(lines: &mut Vec<String>, line: String)
    requires
        call_ensures(push_line, (lines, line), ()),
    ensures
        final(lines)@.len() == old(lines)@.len() + 1,
        forall|k: int|
            0 <= k < old(lines)@.len() ==> #[trigger] final(lines)@[k]@ == old(lines)@[k]@,
        final(lines)@.last()@ == line@,
{
    let (before, after) = (old(lines)@, final(lines)@);
    assert(texts(after).len() == after.len() && texts(before).len() == before.len());
    assert forall|k: int| 0 <= k < before.len() implies #[trigger] after[k]@ == before[k]@ by {
        assert(texts(after)[k] == texts(before)[k]);
    }
    assert(texts(after).last() == line@);
}

/// Adding a list of lines keeps those that were there and puts all of the list behind them.
pub proof fn law_lists_are_added(lines: &mut Vec<String>, more: Vec<String>)
    requires
        call_ensures(push_lines, (lines, more), ()),
    ensures
        final(lines)@.len() == old(lines)@.len() + more@.len(),
        forall|k: int|
            0 <= k < old(lines)@.len() ==> #[trigger] final(lines)@[k]@ == old(lines)@[k]@,
        forall|k: int|
            0 <= k < more@.len() ==> #[trigger] more@[k]@ == final(lines)@[old(lines)@.len() + k]@,
{
    let (before, after) = (old(lines)@, final(lines)@);
    assert(texts(after).len() == after.len() && texts(before).len() == before.len());
    assert(texts(more@).len() == more@.len());
    assert forall|k: int| 0 <= k < before.len() implies #[trigger] after[k]@ == before[k]@ by {
        assert(texts(after)[k] == texts(before)[k]);
    }
    assert forall|k: int| 0 <= k < more@.len() implies #[trigger] more@[k]@ == after[before.len()
        + k]@ by {
        assert(texts(after)[before.len() + k] == texts(more@)[k]);
    }
}

} // verus!
