//! Which logging filters can be read.
//!
//! A filter is a list of directives, parted by commas. The reader goes through a directive
//! without its outer white space, and there takes the places, in bytes, of names, spans,
//! fields and levels. Then it cuts the whole directive at these places. Where white space
//! leads, the places are off by its length, and one of them can lie inside a character.

use vstd::prelude::*;
use vstd::string::*;

verus! {

// ---------------------------------------------------------------------------
// Characters and places
// ---------------------------------------------------------------------------

/// Whether a character is white space.
pub open spec fn is_white(c: char) -> bool {
    let n = c as u32;
    ||| 0x9 <= n <= 0xd
    ||| n == 0x20
    ||| n == 0x85
    ||| n == 0xa0
    ||| n == 0x1680
    ||| 0x2000 <= n <= 0x200a
    ||| n == 0x2028
    ||| n == 0x2029
    ||| n == 0x202f
    ||| n == 0x205f
    ||| n == 0x3000
}

/// Whether a character is white space.
fn white(c: char) -> (r: bool)
    ensures
        r == is_white(c),
{
    let n: u32 = c as u32;
    (0x9 <= n && n <= 0xd) || n == 0x20 || n == 0x85 || n == 0xa0 || n == 0x1680 || (0x2000 <= n
        && n <= 0x200a) || n == 0x2028 || n == 0x2029 || n == 0x202f || n == 0x205f || n == 0x3000
}

/// The bytes of a character.
pub open spec fn width(c: char) -> nat {
    let n = c as u32;
    if n <= 0x7f {
        1
    } else if n <= 0x7ff {
        2
    } else if n <= 0xffff {
        3
    } else {
        4
    }
}

/// The bytes of a character.
fn width_of(c: char) -> (r: u128)
    ensures
        r == width(c),
{
    let n: u32 = c as u32;
    if n <= 0x7f {
        1
    } else if n <= 0x7ff {
        2
    } else if n <= 0xffff {
        3
    } else {
        4
    }
}

/// The bytes of a text.
pub open spec fn bytes(text: Seq<char>) -> nat
    decreases text.len(),
{
    if text.len() == 0 {
        0
    } else {
        bytes(text.drop_last()) + width(text.last())
    }
}

/// Whether a place, in bytes, lies between two characters of a text or at an end of it.
pub open spec fn between(text: Seq<char>, place: nat) -> bool {
    exists|n: int| 0 <= n <= text.len() && #[trigger] bytes(text.take(n)) == place
}

/// The text without the white space in front.
pub open spec fn without_lead(text: Seq<char>) -> Seq<char>
    decreases text.len(),
{
    if text.len() > 0 && is_white(text.first()) {
        without_lead(text.drop_first())
    } else {
        text
    }
}

/// The text without the white space behind.
pub open spec fn without_trail(text: Seq<char>) -> Seq<char>
    decreases text.len(),
{
    if text.len() > 0 && is_white(text.last()) {
        without_trail(text.drop_last())
    } else {
        text
    }
}

/// The text without its outer white space.
pub open spec fn trimmed(text: Seq<char>) -> Seq<char> {
    without_trail(without_lead(text))
}

// ---------------------------------------------------------------------------
// One directive
// ---------------------------------------------------------------------------

/// Where the reader of a directive stands, and from which character on what it reads goes.
#[derive(Clone, Copy, PartialEq, Eq, Structural)]
pub enum Reading {
    /// Nothing is read.
    Start,
    /// In a level or target, which goes from the first character on.
    Name,
    /// In the name of a span.
    Span(usize),
    /// In the fields of a span.
    Field(usize),
    /// Behind the fields of a span.
    Fields,
    /// Behind a span.
    Target,
    /// In a level.
    Level(usize),
    /// The directive is refused.
    Refused,
}

/// Whether a directive can start with the character. Beyond ASCII every character is taken
/// to be a letter.
pub open spec fn leads(c: char) -> bool {
    let n = c as u32;
    ||| c == '-'
    ||| c == ':'
    ||| c == '_'
    ||| 0x30 <= n <= 0x39
    ||| 0x41 <= n <= 0x5a
    ||| 0x61 <= n <= 0x7a
    ||| n > 0x7f
}

/// Whether a directive can start with the character.
fn can_lead(c: char) -> (r: bool)
    ensures
        r == leads(c),
{
    let n: u32 = c as u32;
    c == '-' || c == ':' || c == '_' || (0x30 <= n && n <= 0x39) || (0x41 <= n && n <= 0x5a) || (
    0x61 <= n && n <= 0x7a) || n > 0x7f
}

/// Where the reader stands after the character with number `i`. A field that is not empty is
/// taken to be one that can be read.
pub open spec fn after(reading: Reading, c: char, i: int) -> Reading {
    let next = (i + 1) as usize;
    match reading {
        Reading::Start => if c == '[' {
            Reading::Span(next)
        } else if leads(c) {
            Reading::Name
        } else {
            Reading::Refused
        },
        Reading::Name => if c == '=' {
            Reading::Level(next)
        } else if c == '[' {
            Reading::Span(next)
        } else {
            reading
        },
        Reading::Span(_) => if c == ']' {
            Reading::Target
        } else if c == '{' {
            Reading::Field(next)
        } else {
            reading
        },
        Reading::Field(from) => if c == '}' {
            if from == i {
                Reading::Refused
            } else {
                Reading::Fields
            }
        } else {
            reading
        },
        Reading::Fields => if c == ']' {
            Reading::Target
        } else {
            Reading::Refused
        },
        Reading::Target => if c == '=' {
            Reading::Level(next)
        } else {
            Reading::Refused
        },
        Reading::Level(_) => reading,
        Reading::Refused => reading,
    }
}

/// Where the reader stands after the first `n` characters.
pub open spec fn reading(text: Seq<char>, n: int) -> Reading
    decreases n,
{
    if n <= 0 {
        Reading::Start
    } else {
        after(reading(text, n - 1), text[n - 1], n - 1)
    }
}

/// Whether a directive can be cut at the place that the character with number `i` has in the
/// text.
pub open spec fn can_cut(directive: Seq<char>, text: Seq<char>, i: int) -> bool {
    between(directive, bytes(text.take(i)))
}

/// Whether the cuts that the character with number `i` asks for can be made.
pub open spec fn cuts_well(
    directive: Seq<char>,
    text: Seq<char>,
    reading: Reading,
    c: char,
    i: int,
) -> bool {
    match reading {
        Reading::Name => c == '=' || c == '[' ==> can_cut(directive, text, i),
        Reading::Span(from) => c == ']' || c == '{' ==> can_cut(directive, text, from as int)
            && can_cut(directive, text, i),
        Reading::Field(from) => c == '}' ==> can_cut(directive, text, from as int) && can_cut(
            directive,
            text,
            i,
        ),
        _ => true,
    }
}

/// Whether the cut that the end of the text asks for can be made.
pub open spec fn ends_well(directive: Seq<char>, text: Seq<char>, reading: Reading) -> bool {
    match reading {
        Reading::Level(from) => can_cut(directive, text, from as int),
        _ => true,
    }
}

/// Whether a directive can be read: the reader can make all its cuts.
pub open spec fn readable_directive(directive: Seq<char>) -> bool {
    let text = trimmed(directive);
    &&& forall|i: int|
        0 <= i < text.len() ==> cuts_well(directive, text, #[trigger] reading(text, i), text[i], i)
    &&& ends_well(directive, text, reading(text, text.len() as int))
}

// ---------------------------------------------------------------------------
// A filter
// ---------------------------------------------------------------------------

/// Whether the characters from `from` to `to` are a directive of the filter.
pub open spec fn is_directive(filter: Seq<char>, from: int, to: int) -> bool {
    &&& 0 <= from <= to <= filter.len()
    &&& from == 0 || filter[from - 1] == ','
    &&& to == filter.len() || filter[to] == ','
    &&& forall|k: int| from <= k < to ==> #[trigger] filter[k] != ','
}

/// Whether a filter can be read: all its directives can.
pub open spec fn readable(filter: Seq<char>) -> bool {
    forall|from: int, to: int| #[trigger]
        is_directive(filter, from, to) ==> readable_directive(filter.subrange(from, to))
}

/// The characters of a text without its outer white space.
fn trim(text: &Vec<char>) -> (r: Vec<char>)
    ensures
        r@ == trimmed(text@),
{
    let mut from: usize = 0;
    assert(text@.skip(0) =~= text@);
    while from < text.len() && white(text[from])
        invariant
            from <= text@.len(),
            without_lead(text@.skip(from as int)) == without_lead(text@),
        decreases text@.len() - from,
    {
        assert(text@.skip(from as int).drop_first() =~= text@.skip(from + 1));
        from = from + 1;
    }
    let ghost led = text@.skip(from as int);
    let mut to: usize = text.len();
    assert(text@.subrange(from as int, to as int) =~= led);
    while from < to && white(text[to - 1])
        invariant
            from <= to <= text@.len(),
            without_trail(text@.subrange(from as int, to as int)) == without_trail(led),
        decreases to - from,
    {
        assert(text@.subrange(from as int, to as int).drop_last() =~= text@.subrange(
            from as int,
            to - 1,
        ));
        to = to - 1;
    }
    let mut r: Vec<char> = Vec::new();
    let mut i: usize = from;
    while i < to
        invariant
            from <= i <= to <= text@.len(),
            r@ =~= text@.subrange(from as int, i as int),
        decreases to - i,
    {
        r.push(text[i]);
        i = i + 1;
    }
    r
}

/// The place of every character in a text, and of its end.
fn places(text: &Vec<char>) -> (r: Vec<u128>)
    ensures
        r@.len() == text@.len() + 1,
        forall|n: int| 0 <= n <= text@.len() ==> #[trigger] r@[n] == bytes(text@.take(n)),
{
    let mut r: Vec<u128> = Vec::new();
    let mut place: u128 = 0;
    r.push(place);
    let mut i: usize = 0;
    while i < text.len()
        invariant
            i <= text@.len(),
            r@.len() == i + 1,
            place == bytes(text@.take(i as int)),
            place <= 4 * i,
            forall|n: int| 0 <= n <= i ==> #[trigger] r@[n] == bytes(text@.take(n)),
        decreases text@.len() - i,
    {
        assert(text@.take(i + 1).drop_last() =~= text@.take(i as int));
        place = place + width_of(text[i]);
        r.push(place);
        i = i + 1;
    }
    r
}

/// Whether the place of the character with number `i` is among the places.
fn finds(cuts: &Vec<u128>, places: &Vec<u128>, i: usize) -> (r: bool)
    requires
        i < places@.len(),
    ensures
        r == exists|n: int| 0 <= n < cuts@.len() && #[trigger] cuts@[n] == places@[i as int],
{
    let mut n: usize = 0;
    while n < cuts.len()
        invariant
            n <= cuts@.len(),
            i < places@.len(),
            forall|k: int| 0 <= k < n ==> #[trigger] cuts@[k] != places@[i as int],
        decreases cuts@.len() - n,
    {
        if cuts[n] == places[i] {
            return true;
        }
        n = n + 1;
    }
    false
}

/// Whether a directive can be read.
fn can_read_directive(directive: &Vec<char>) -> (r: bool)
    ensures
        r == readable_directive(directive@),
{
    let text: Vec<char> = trim(directive);
    let cuts: Vec<u128> = places(directive);
    let spots: Vec<u128> = places(&text);
    let mut state: Reading = Reading::Start;
    let mut i: usize = 0;
    proof {
        assert forall|k: int| 0 <= k <= text@.len() implies #[trigger] can_cut(
            directive@,
            text@,
            k,
        ) == (exists|n: int| 0 <= n < cuts@.len() && #[trigger] cuts@[n] == spots@[k]) by {
            lemma_found(directive@, text@, cuts@, spots@, k);
        }
    }
    while i < text.len()
        invariant
            i <= text@.len(),
            text@ == trimmed(directive@),
            spots@.len() == text@.len() + 1,
            state == reading(text@, i as int),
            begins_by(state, i as int),
            forall|k: int|
                0 <= k <= text@.len() ==> #[trigger] can_cut(directive@, text@, k) == (exists|
                    n: int,
                | 0 <= n < cuts@.len() && #[trigger] cuts@[n] == spots@[k]),
            forall|k: int|
                0 <= k < i ==> cuts_well(
                    directive@,
                    text@,
                    #[trigger] reading(text@, k),
                    text@[k],
                    k,
                ),
        decreases text@.len() - i,
    {
        let c: char = text[i];
        let well: bool = match state {
            Reading::Name => !(c == '=' || c == '[') || finds(&cuts, &spots, i),
            Reading::Span(from) => !(c == ']' || c == '{') || (finds(&cuts, &spots, from) && finds(
                &cuts,
                &spots,
                i,
            )),
            Reading::Field(from) => c != '}' || (finds(&cuts, &spots, from) && finds(
                &cuts,
                &spots,
                i,
            )),
            _ => true,
        };
        assert(well == cuts_well(directive@, text@, state, c, i as int));
        if !well {
            assert(!cuts_well(
                directive@,
                text@,
                reading(text@, i as int),
                text@[i as int],
                i as int,
            ));
            return false;
        }
        state = read(state, c, i);
        i = i + 1;
    }
    match state {
        Reading::Level(from) => finds(&cuts, &spots, from),
        _ => true,
    }
}

/// What is read goes from a character on that is not behind the one with number `n`.
spec fn begins_by(reading: Reading, n: int) -> bool {
    match reading {
        Reading::Span(from) => from <= n,
        Reading::Field(from) => from <= n,
        Reading::Level(from) => from <= n,
        _ => true,
    }
}

/// A directive can be cut at a place just where it is among the places of its characters.
proof fn lemma_found(
    directive: Seq<char>,
    text: Seq<char>,
    cuts: Seq<u128>,
    spots: Seq<u128>,
    k: int,
)
    requires
        cuts.len() == directive.len() + 1,
        forall|n: int| 0 <= n <= directive.len() ==> #[trigger] cuts[n] == bytes(directive.take(n)),
        0 <= k < spots.len(),
        spots[k] == bytes(text.take(k)),
    ensures
        can_cut(directive, text, k) == (exists|n: int|
            0 <= n < cuts.len() && #[trigger] cuts[n] == spots[k]),
{
    if can_cut(directive, text, k) {
        let n = choose|n: int|
            0 <= n <= directive.len() && #[trigger] bytes(directive.take(n)) == bytes(text.take(k));
        assert(cuts[n] == spots[k]);
    }
    if exists|n: int| 0 <= n < cuts.len() && #[trigger] cuts[n] == spots[k] {
        let n = choose|n: int| 0 <= n < cuts.len() && #[trigger] cuts[n] == spots[k];
        assert(bytes(directive.take(n)) == bytes(text.take(k)));
    }
}

/// Where the reader stands after the character with number `i`.
fn read(reading: Reading, c: char, i: usize) -> (r: Reading)
    requires
        i < usize::MAX,
    ensures
        r == after(reading, c, i as int),
{
    match reading {
        Reading::Start => if c == '[' {
            Reading::Span(i + 1)
        } else if can_lead(c) {
            Reading::Name
        } else {
            Reading::Refused
        },
        Reading::Name => if c == '=' {
            Reading::Level(i + 1)
        } else if c == '[' {
            Reading::Span(i + 1)
        } else {
            reading
        },
        Reading::Span(_) => if c == ']' {
            Reading::Target
        } else if c == '{' {
            Reading::Field(i + 1)
        } else {
            reading
        },
        Reading::Field(from) => if c == '}' {
            if from == i {
                Reading::Refused
            } else {
                Reading::Fields
            }
        } else {
            reading
        },
        Reading::Fields => if c == ']' {
            Reading::Target
        } else {
            Reading::Refused
        },
        Reading::Target => if c == '=' {
            Reading::Level(i + 1)
        } else {
            Reading::Refused
        },
        Reading::Level(_) => reading,
        Reading::Refused => reading,
    }
}

/// Whether a filter can be read.
pub fn can_read(filter: &str) -> (r: bool)
    ensures
        r == readable(filter@),
{
    let len: usize = filter.unicode_len();
    let mut directive: Vec<char> = Vec::new();
    let ghost mut from: int = 0;
    let mut i: usize = 0;
    while i < len
        invariant
            len == filter@.len(),
            0 <= from <= i <= len,
            from == 0 || filter@[from - 1] == ',',
            forall|k: int| from <= k < i ==> #[trigger] filter@[k] != ',',
            directive@ =~= filter@.subrange(from, i as int),
            forall|a: int, b: int|
                #![trigger is_directive(filter@, a, b)]
                is_directive(filter@, a, b) && b < from ==> readable_directive(
                    filter@.subrange(a, b),
                ),
        decreases len - i,
    {
        let c: char = filter.get_char(i);
        if c == ',' {
            assert(is_directive(filter@, from, i as int));
            if !can_read_directive(&directive) {
                return false;
            }
            directive = Vec::new();
            proof {
                let old_from = from;
                from = i + 1;
                assert forall|a: int, b: int|
                    #![trigger is_directive(filter@, a, b)]
                    is_directive(filter@, a, b) && b < from implies readable_directive(
                    filter@.subrange(a, b),
                ) by {
                    lemma_one_directive(filter@, old_from, i as int, a, b);
                }
            }
        } else {
            directive.push(c);
        }
        i = i + 1;
    }
    assert(is_directive(filter@, from, len as int));
    if !can_read_directive(&directive) {
        return false;
    }
    proof {
        assert forall|a: int, b: int| #[trigger] is_directive(filter@, a, b) implies
            readable_directive(filter@.subrange(a, b)) by {
            lemma_one_directive(filter@, from, len as int, a, b);
        }
    }
    true
}

/// A directive that does not end behind another ends before it starts or is the same.
proof fn lemma_one_directive(filter: Seq<char>, from: int, to: int, a: int, b: int)
    requires
        is_directive(filter, from, to),
        is_directive(filter, a, b),
        b <= to,
    ensures
        b < from || (a == from && b == to),
{
    if b >= from {
        if b < to {
            assert(filter[b] != ',');
        }
        if a < from {
            assert(filter[from - 1] != ',');
        }
        if a > from {
            assert(filter[a - 1] != ',');
        }
    }
}

// ---------------------------------------------------------------------------
// Filters that can always be read
// ---------------------------------------------------------------------------

/// Text without white space behind is a start of the text.
proof fn lemma_without_trail(text: Seq<char>)
    ensures
        without_trail(text).len() <= text.len(),
        without_trail(text) == text.take(without_trail(text).len() as int),
    decreases text.len(),
{
    if text.len() > 0 && is_white(text.last()) {
        lemma_without_trail(text.drop_last());
        let n = without_trail(text).len() as int;
        assert(text.drop_last().take(n) =~= text.take(n));
    } else {
        assert(text.take(text.len() as int) =~= text);
    }
}

/// Text without white space in front is an end of the text.
proof fn lemma_without_lead(text: Seq<char>)
    ensures
        without_lead(text).len() <= text.len(),
        without_lead(text) == text.skip(text.len() - without_lead(text).len()),
    decreases text.len(),
{
    if text.len() > 0 && is_white(text.first()) {
        lemma_without_lead(text.drop_first());
        let n = without_lead(text).len() as int;
        assert(text.drop_first().skip(text.len() - 1 - n) =~= text.skip(text.len() - n));
    } else {
        assert(text.skip(0) =~= text);
    }
}

/// The reader never looks behind where it stands.
proof fn lemma_begins_by(text: Seq<char>, n: int)
    requires
        0 <= n <= usize::MAX,
    ensures
        begins_by(reading(text, n), n),
    decreases n,
{
    if n > 0 {
        lemma_begins_by(text, n - 1);
    }
}

/// Where a directive can be cut at every place of its text, it can be read.
proof fn lemma_readable_directive(directive: Seq<char>)
    requires
        directive.len() <= usize::MAX,
        forall|i: int|
            0 <= i <= trimmed(directive).len() ==> #[trigger] can_cut(
                directive,
                trimmed(directive),
                i,
            ),
    ensures
        readable_directive(directive),
{
    let text = trimmed(directive);
    lemma_without_lead(directive);
    lemma_without_trail(without_lead(directive));
    assert forall|i: int| 0 <= i < text.len() implies cuts_well(
        directive,
        text,
        #[trigger] reading(text, i),
        text[i],
        i,
    ) by {
        lemma_begins_by(text, i);
        assert(can_cut(directive, text, i));
    }
    lemma_begins_by(text, text.len() as int);
}

/// A filter can be read where no directive of it starts with white space.
pub proof fn law_unpadded_is_readable(filter: Seq<char>)
    requires
        filter.len() <= usize::MAX,
        forall|from: int, to: int|
            #![trigger is_directive(filter, from, to)]
            is_directive(filter, from, to) && from < to ==> !is_white(filter[from]),
    ensures
        readable(filter),
{
    assert forall|from: int, to: int| #[trigger] is_directive(filter, from, to) implies
        readable_directive(filter.subrange(from, to)) by {
        let directive = filter.subrange(from, to);
        let text = trimmed(directive);
        assert(without_lead(directive) == directive);
        lemma_without_trail(directive);
        assert forall|i: int| 0 <= i <= text.len() implies #[trigger] can_cut(
            directive,
            text,
            i,
        ) by {
            assert(text.take(i) =~= directive.take(i));
        }
        lemma_readable_directive(directive);
    }
}

/// ASCII text has as many bytes as characters.
proof fn lemma_ascii(text: Seq<char>)
    requires
        forall|k: int| 0 <= k < text.len() ==> width(#[trigger] text[k]) == 1,
    ensures
        bytes(text) == text.len(),
    decreases text.len(),
{
    if text.len() > 0 {
        assert forall|k: int| 0 <= k < text.len() - 1 implies width(
            #[trigger] text.drop_last()[k],
        ) == 1 by {
            assert(width(text[k]) == 1);
        }
        lemma_ascii(text.drop_last());
        assert(width(text[text.len() - 1]) == 1);
    }
}

/// A filter of ASCII characters can be read.
pub proof fn law_ascii_is_readable(filter: Seq<char>)
    requires
        filter.len() <= usize::MAX,
        forall|k: int| 0 <= k < filter.len() ==> width(#[trigger] filter[k]) == 1,
    ensures
        readable(filter),
{
    assert forall|from: int, to: int| #[trigger] is_directive(filter, from, to) implies
        readable_directive(filter.subrange(from, to)) by {
        let directive = filter.subrange(from, to);
        let led = without_lead(directive);
        let text = trimmed(directive);
        lemma_without_lead(directive);
        lemma_without_trail(led);
        assert forall|k: int| 0 <= k < text.len() implies width(#[trigger] text[k]) == 1 by {
            assert(text[k] == filter[from + directive.len() - led.len() + k]);
        }
        assert forall|i: int| 0 <= i <= text.len() implies #[trigger] can_cut(
            directive,
            text,
            i,
        ) by {
            lemma_ascii(text.take(i));
            lemma_ascii(directive.take(i));
            assert(bytes(directive.take(i)) == bytes(text.take(i)));
        }
        lemma_readable_directive(directive);
    }
}

/// The first `n` characters have no more bytes than all, and at least those of the first one.
proof fn lemma_bytes_of_start(text: Seq<char>, n: int)
    requires
        1 <= n <= text.len(),
    ensures
        bytes(text.take(n)) >= width(text[0]),
        n >= 2 ==> bytes(text.take(n)) >= width(text[0]) + width(text[1]),
        n == 1 ==> bytes(text.take(n)) == width(text[0]),
    decreases n,
{
    assert(text.take(n).drop_last() =~= text.take(n - 1));
    if n == 1 {
        assert(bytes(text.take(0)) == 0);
    } else {
        lemma_bytes_of_start(text, n - 1);
    }
}

/// What is left of a text without white space behind starts as the text does, up to a character
/// that is no white space.
proof fn lemma_keeps_start(text: Seq<char>, k: int)
    requires
        0 <= k < text.len(),
        !is_white(text[k]),
    ensures
        k < without_trail(text).len() <= text.len(),
        without_trail(text) == text.take(without_trail(text).len() as int),
    decreases text.len(),
{
    lemma_without_trail(text);
    if is_white(text.last()) {
        lemma_keeps_start(text.drop_last(), k);
    }
}

/// A filter can be read where every directive starts with an ASCII character that is not blank,
/// whatever stands behind it, and where it is all ASCII.
pub proof fn law_common_filters_can_be_read(filter: &str, r: bool)
    requires
        filter@.len() <= usize::MAX,
        call_ensures(can_read, (filter,), r),
    ensures
        (forall|k: int|
            0 <= k < filter@.len() && (k == 0 || filter@[k - 1] == ',') ==> '!'
                <= #[trigger] filter@[k] <= '~') ==> r,
        (forall|k: int| 0 <= k < filter@.len() ==> (#[trigger] filter@[k] as u32) <= 0x7f) ==> r,
{
    if forall|k: int|
        0 <= k < filter@.len() && (k == 0 || filter@[k - 1] == ',') ==> '!' <= #[trigger] filter@[k]
            <= '~' {
        law_unpadded_is_readable(filter@);
    }
    if forall|k: int| 0 <= k < filter@.len() ==> (#[trigger] filter@[k] as u32) <= 0x7f {
        law_ascii_is_readable(filter@);
    }
}

/// A filter can be read where there is nothing to cut at: no level behind a target and no span.
pub proof fn law_plain_names_can_be_read(filter: &str, r: bool)
    requires
        call_ensures(can_read, (filter,), r),
        forall|k: int|
            0 <= k < filter@.len() ==> (#[trigger] filter@[k]) != '=' && filter@[k] != '[',
    ensures
        r,
{
    assert forall|from: int, to: int| #[trigger] is_directive(filter@, from, to) implies
        readable_directive(filter@.subrange(from, to)) by {
        let directive = filter@.subrange(from, to);
        let led = without_lead(directive);
        let text = trimmed(directive);
        lemma_without_lead(directive);
        lemma_without_trail(led);
        assert forall|k: int| 0 <= k < text.len() implies (#[trigger] text[k]) != '=' && text[k]
            != '[' by {
            assert(text[k] == filter@[from + directive.len() - led.len() + k]);
        }
        assert forall|i: int| 0 <= i <= text.len() implies (#[trigger] reading(text, i)) is Start
            || reading(text, i) is Name || reading(text, i) is Refused by {
            lemma_plain(text, i);
        }
    }
}

proof fn lemma_plain(text: Seq<char>, n: int)
    requires
        0 <= n <= text.len(),
        forall|k: int| 0 <= k < text.len() ==> (#[trigger] text[k]) != '=' && text[k] != '[',
    ensures
        reading(text, n) is Start || reading(text, n) is Name || reading(text, n) is Refused,
    decreases n,
{
    if n > 0 {
        lemma_plain(text, n - 1);
        assert(text[n - 1] != '=');
    }
}

/// A filter cannot be read where a target is cut inside a character: where a letter and its level
/// stand behind an ideographic or a no-break space, and where a letter of more than one byte and
/// its level stand behind a blank.
pub proof fn law_targets_cut_inside_a_character(filter: &str, r: bool)
    requires
        call_ensures(can_read, (filter,), r),
        filter@.len() >= 3,
        filter@[2] == '=',
        forall|k: int| 0 <= k < filter@.len() ==> #[trigger] filter@[k] != ',',
        ((filter@[0] as u32 == 0x3000 || filter@[0] as u32 == 0xa0) && 'a' <= filter@[1] <= 'z')
            || (filter@[0] == ' ' && 0xc0 <= (filter@[1] as u32) && (filter@[1] as u32) <= 0x24f),
    ensures
        !r,
{
    let directive = filter@;
    let len = directive.len() as int;
    assert(is_directive(filter@, 0, len));
    assert(filter@.subrange(0, len) =~= directive);
    let led = directive.drop_first();
    assert(without_lead(led) == led);
    assert(without_lead(directive) == led);
    let text = trimmed(directive);
    lemma_keeps_start(led, 1);
    lemma_without_trail(led);
    assert(text[0] == led[0] && text[1] == led[1]);
    assert(text[0] == filter@[1] && text[1] == '=');
    assert(reading(text, 0) is Start);
    assert(reading(text, 1) is Name) by {
        assert(after(reading(text, 0), text[0], 0) is Name);
    }
    lemma_bytes_of_start(text, 1);
    if between(directive, bytes(text.take(1))) {
        let n = choose|n: int|
            0 <= n <= directive.len() && #[trigger] bytes(directive.take(n)) == bytes(
                text.take(1),
            );
        if n >= 1 {
            lemma_bytes_of_start(directive, n);
        } else {
            assert(bytes(directive.take(0)) == 0);
        }
        assert(false);
    }
    assert(!cuts_well(directive, text, reading(text, 1), text[1], 1));
}

/// How many bytes a text has: none without characters, and one more character adds as many as
/// its code point takes in UTF-8.
pub proof fn law_bytes(text: Seq<char>, c: char)
    ensures
        bytes(Seq::empty()) == 0,
        bytes(text.push(c)) == bytes(text) + (if c as u32 <= 0x7f {
            1nat
        } else if c as u32 <= 0x7ff {
            2nat
        } else if c as u32 <= 0xffff {
            3nat
        } else {
            4nat
        }),
{
    assert(text.push(c).drop_last() =~= text);
}

/// White space in front goes, up to a character that is none.
proof fn lemma_lead_goes(lead: Seq<char>, text: Seq<char>)
    requires
        forall|k: int| 0 <= k < lead.len() ==> is_white(#[trigger] lead[k]),
        text.len() > 0,
        !is_white(text[0]),
    ensures
        without_lead(lead + text) == text,
    decreases lead.len(),
{
    if lead.len() == 0 {
        assert(lead + text =~= text);
    } else {
        assert((lead + text).drop_first() =~= lead.drop_first() + text);
        lemma_lead_goes(lead.drop_first(), text);
    }
}

/// The text that is read of white space and what follows it: all up to a character that is none.
proof fn lemma_read_text(filter: Seq<char>, lead: Seq<char>, text: Seq<char>, k: int)
    requires
        filter == lead + text,
        forall|j: int| 0 <= j < lead.len() ==> is_white(#[trigger] lead[j]),
        0 <= k < text.len(),
        !is_white(text[0]),
        !is_white(text[k]),
    ensures
        k < trimmed(filter).len() <= text.len(),
        trimmed(filter) == text.take(trimmed(filter).len() as int),
{
    lemma_lead_goes(lead, text);
    lemma_keeps_start(text, k);
}

/// A filter without commas is one directive.
proof fn lemma_whole_filter(filter: Seq<char>)
    requires
        forall|k: int| 0 <= k < filter.len() ==> #[trigger] filter[k] != ',',
    ensures
        readable(filter) == readable_directive(filter),
{
    assert(is_directive(filter, 0, filter.len() as int));
    assert(filter.subrange(0, filter.len() as int) =~= filter);
    assert forall|from: int, to: int| #[trigger] is_directive(filter, from, to) implies from == 0
        && to == filter.len() by {
        if from > 0 {
            assert(filter[from - 1] != ',');
        }
        if to < filter.len() {
            assert(filter[to] != ',');
        }
    }
}

/// The end of a level lies at the end of the text.
proof fn lemma_level_stays(text: Seq<char>, at: int, n: int)
    requires
        0 <= at <= n <= text.len(),
        reading(text, at) is Level,
    ensures
        reading(text, n) == reading(text, at),
    decreases n - at,
{
    if at < n {
        lemma_level_stays(text, at, n - 1);
    }
}

proof fn lemma_name_stays(text: Seq<char>, n: int)
    requires
        1 <= n <= text.len(),
        'a' <= text[0] <= 'z',
        forall|k: int| 0 <= k < n ==> (#[trigger] text[k]) != '=' && text[k] != '[',
    ensures
        reading(text, n) is Name,
    decreases n,
{
    assert(text[n - 1] != '=');
    if n > 1 {
        lemma_name_stays(text, n - 1);
    } else {
        assert(reading(text, 0) is Start);
        assert(leads(text[0]));
    }
}

/// A filter of one target and its level can be read if and only if the place of the target's end,
/// and the one behind the equals sign, counted without the white space in front, lie between
/// characters of the whole filter.
pub proof fn law_targets_are_cut_well(
    filter: &str,
    lead: Seq<char>,
    name: Seq<char>,
    level: Seq<char>,
    r: bool,
)
    requires
        call_ensures(can_read, (filter,), r),
        filter@.len() <= usize::MAX,
        filter@ == lead + name + seq!['='] + level,
        forall|k: int| 0 <= k < filter@.len() ==> #[trigger] filter@[k] != ',',
        forall|k: int| 0 <= k < lead.len() ==> is_white(#[trigger] lead[k]),
        name.len() > 0,
        'a' <= name[0] <= 'z',
        forall|k: int| 0 <= k < name.len() ==> (#[trigger] name[k]) != '=' && name[k] != '[',
    ensures
        r <==> (exists|n: int|
            0 <= n <= filter@.len() && #[trigger] bytes(filter@.take(n)) == bytes(name)) && (exists|
            n: int,
        |
            0 <= n <= filter@.len() && #[trigger] bytes(filter@.take(n)) == bytes(name) + 1),
{
    let rest = name + seq!['='] + level;
    let m = name.len() as int;
    assert(filter@ =~= lead + rest);
    assert(rest[0] == name[0] && rest[m] == '=');
    lemma_read_text(filter@, lead, rest, m);
    lemma_whole_filter(filter@);
    let text = trimmed(filter@);
    assert forall|k: int| 0 <= k < m implies (#[trigger] text[k]) != '=' && text[k] != '[' by {
        assert(text[k] == name[k]);
    }
    assert(text[0] == name[0] && text[m] == '=');
    lemma_name_stays(text, m);
    assert(text.take(m) =~= name);
    assert(reading(text, m + 1) == Reading::Level((m + 1) as usize));
    lemma_level_stays(text, m + 1, text.len() as int);
    assert(text.take(m + 1) =~= name.push('='));
    assert(name.push('=').drop_last() =~= name);
    assert(r ==> cuts_well(filter@, text, reading(text, m), text[m], m));
    if can_cut(filter@, text, m) && can_cut(filter@, text, m + 1) {
        assert forall|i: int| 0 <= i < text.len() implies cuts_well(
            filter@,
            text,
            #[trigger] reading(text, i),
            text[i],
            i,
        ) by {
            if 0 < i < m {
                lemma_name_stays(text, i);
                assert(text[i] != '=');
            } else if i > m {
                lemma_level_stays(text, m + 1, i);
            } else if i == 0 {
                assert(reading(text, 0) is Start);
            }
        }
    }
}

/// A filter of two lists of directives can be read if and only if each of the lists can.
pub proof fn law_directives_are_read_apart(
    filter: &str,
    first: &str,
    second: &str,
    r: bool,
    r1: bool,
    r2: bool,
)
    requires
        call_ensures(can_read, (filter,), r),
        call_ensures(can_read, (first,), r1),
        call_ensures(can_read, (second,), r2),
        filter@ == first@ + seq![','] + second@,
    ensures
        r <==> r1 && r2,
{
    let f = filter@;
    let a = first@;
    let b = second@;
    let m = a.len() as int;
    assert(f[m] == ',');
    if r {
        assert forall|from: int, to: int| #[trigger] is_directive(a, from, to) implies
            readable_directive(a.subrange(from, to)) by {
            assert forall|k: int| from <= k < to implies #[trigger] f[k] != ',' by {
                assert(f[k] == a[k]);
            }
            assert(is_directive(f, from, to));
            assert(f.subrange(from, to) =~= a.subrange(from, to));
        }
        assert forall|from: int, to: int| #[trigger] is_directive(b, from, to) implies
            readable_directive(b.subrange(from, to)) by {
            assert forall|k: int| from + m + 1 <= k < to + m + 1 implies #[trigger] f[k] != ',' by {
                assert(f[k] == b[k - m - 1]);
            }
            assert(is_directive(f, from + m + 1, to + m + 1));
            assert(f.subrange(from + m + 1, to + m + 1) =~= b.subrange(from, to));
        }
    }
    if r1 && r2 {
        assert forall|from: int, to: int| #[trigger] is_directive(f, from, to) implies
            readable_directive(f.subrange(from, to)) by {
            if to <= m {
                assert forall|k: int| from <= k < to implies #[trigger] a[k] != ',' by {
                    assert(a[k] == f[k]);
                }
                assert(is_directive(a, from, to));
                assert(f.subrange(from, to) =~= a.subrange(from, to));
            } else {
                if from <= m {
                    assert(f[m] != ',');
                }
                assert forall|k: int| from - m - 1 <= k < to - m - 1 implies #[trigger] b[k]
                    != ',' by {
                    assert(b[k] == f[k + m + 1]);
                }
                assert(is_directive(b, from - m - 1, to - m - 1));
                assert(f.subrange(from, to) =~= b.subrange(from - m - 1, to - m - 1));
            }
        }
    }
}

/// A filter of one directive can be read where all places in its text, counted without the white
/// space in front, lie between characters of the whole filter.
pub proof fn law_fitting_places_can_be_read(
    filter: &str,
    lead: Seq<char>,
    text: Seq<char>,
    r: bool,
)
    requires
        call_ensures(can_read, (filter,), r),
        filter@.len() <= usize::MAX,
        filter@ == lead + text,
        forall|k: int| 0 <= k < filter@.len() ==> #[trigger] filter@[k] != ',',
        forall|k: int| 0 <= k < lead.len() ==> is_white(#[trigger] lead[k]),
        text.len() > 0,
        !is_white(text[0]),
        forall|k: int|
            #![trigger text.take(k)]
            0 <= k <= text.len() ==> exists|n: int|
                0 <= n <= filter@.len() && #[trigger] bytes(filter@.take(n)) == bytes(text.take(k)),
    ensures
        r,
{
    lemma_read_text(filter@, lead, text, 0);
    lemma_whole_filter(filter@);
    let read = trimmed(filter@);
    assert forall|i: int| 0 <= i <= read.len() implies #[trigger] can_cut(filter@, read, i) by {
        assert(read.take(i) =~= text.take(i));
    }
    lemma_readable_directive(filter@);
}

/// The blanks, line ends and other spaces of Unicode are white space, from the tab to the
/// ideographic space; letters, digits, marks and signs of ASCII are not, nor is anything beyond.
proof fn law_white_space(c: char, r: bool)
    requires
        call_ensures(white, (c,), r),
    ensures
        c == ' ' || c == '\t' || c == '\n' || c == '\r' || c as u32 == 0xb || c as u32 == 0xc ==> r,
        c as u32 == 0x85 || c as u32 == 0xa0 || c as u32 == 0x1680 || c as u32 == 0x3000 ==> r,
        0x2000 <= (c as u32) && (c as u32) <= 0x200a ==> r,
        c as u32 == 0x2028 || c as u32 == 0x2029 || c as u32 == 0x202f || c as u32 == 0x205f ==> r,
        '!' <= c <= '~' || (c as u32) < 9 || 0xa0 < (c as u32) && (c as u32) < 0x1680 || c as u32
            > 0x3000 ==> !r,
        0x0e <= (c as u32) && (c as u32) < 0x20 || 0x7f <= (c as u32) && (c as u32) < 0x85 || 0x85
            < (c as u32) && (c as u32) < 0xa0 ==> !r,
        0x1680 < (c as u32) && (c as u32) < 0x2000 || 0x200a < (c as u32) && (c as u32) < 0x2028
            || 0x205f < (c as u32) && (c as u32) < 0x3000 ==> !r,
{
}

/// A directive starts with a letter, a digit, a line, a colon, or a character beyond ASCII.
proof fn law_first_characters(c: char, r: bool)
    requires
        call_ensures(can_lead, (c,), r),
    ensures
        r <==> 'a' <= c <= 'z' || 'A' <= c <= 'Z' || '0' <= c <= '9' || c == '_' || c == '-' || c
            == ':' || c as u32 >= 0x80,
{
}

proof fn lemma_span_stays(text: Seq<char>, n: int)
    requires
        1 <= n <= text.len(),
        text[0] == '[',
        forall|k: int| 1 <= k < n ==> (#[trigger] text[k]) != ']' && text[k] != '{',
    ensures
        reading(text, n) == Reading::Span(1),
    decreases n,
{
    if n > 1 {
        lemma_span_stays(text, n - 1);
        assert(text[n - 1] != ']');
    } else {
        assert(reading(text, 0) is Start);
    }
}

/// Where a filter can be read, the places of a span's start and end, counted without the white
/// space in front, lie between characters of the whole filter; `close` is what ends the span.
pub proof fn law_read_spans_are_cut_well(
    filter: &str,
    lead: Seq<char>,
    span: Seq<char>,
    close: char,
    more: Seq<char>,
)
    requires
        call_ensures(can_read, (filter,), true),
        filter@.len() <= usize::MAX,
        filter@ == lead + seq!['['] + span + seq![close] + more,
        close == ']' || close == '{',
        forall|k: int| 0 <= k < filter@.len() ==> #[trigger] filter@[k] != ',',
        forall|k: int| 0 <= k < lead.len() ==> is_white(#[trigger] lead[k]),
        forall|k: int| 0 <= k < span.len() ==> (#[trigger] span[k]) != ']' && span[k] != '{',
    ensures
        exists|n: int| 0 <= n <= filter@.len() && #[trigger] bytes(filter@.take(n)) == 1,
        exists|n: int|
            0 <= n <= filter@.len() && #[trigger] bytes(filter@.take(n)) == 1 + bytes(span),
{
    let rest = seq!['['] + span + seq![close] + more;
    let m = 1 + span.len() as int;
    assert(filter@ =~= lead + rest);
    assert(rest[0] == '[' && rest[m] == close);
    lemma_read_text(filter@, lead, rest, m);
    lemma_whole_filter(filter@);
    let text = trimmed(filter@);
    assert forall|k: int| 1 <= k < m implies (#[trigger] text[k]) != ']' && text[k] != '{' by {
        assert(text[k] == span[k - 1]);
    }
    assert(text[0] == '[' && text[m] == close);
    lemma_span_stays(text, m);
    assert(cuts_well(filter@, text, reading(text, m), text[m], m));
    assert(text.take(1) =~= seq!['[']);
    lemma_bytes_add(seq!['['], Seq::empty());
    lemma_one_byte('[');
    assert(text.take(m) =~= seq!['['] + span);
    lemma_bytes_add(seq!['['], span);
    assert(can_cut(filter@, text, 1) && can_cut(filter@, text, m));
}

proof fn lemma_one_byte(c: char)
    requires
        width(c) == 1,
    ensures
        bytes(seq![c]) == 1,
{
    assert(seq![c].drop_last() =~= Seq::<char>::empty());
    assert(bytes(Seq::<char>::empty()) == 0);
}

proof fn lemma_bytes_add(a: Seq<char>, b: Seq<char>)
    ensures
        bytes(a + b) == bytes(a) + bytes(b),
    decreases b.len(),
{
    if b.len() == 0 {
        assert(a + b =~= a);
    } else {
        assert((a + b).drop_last() =~= a + b.drop_last());
        lemma_bytes_add(a, b.drop_last());
    }
}

proof fn lemma_field_stays(text: Seq<char>, at: int, n: int)
    requires
        1 <= at <= n <= text.len(),
        at <= usize::MAX,
        reading(text, at) == Reading::Field(at as usize),
        forall|k: int| at <= k < n ==> (#[trigger] text[k]) != '}',
    ensures
        reading(text, n) == Reading::Field(at as usize),
    decreases n - at,
{
    if at < n {
        lemma_field_stays(text, at, n - 1);
        assert(text[n - 1] != '}');
    }
}

/// Where a filter can be read, the places of a field's start and end, counted without the white
/// space in front, lie between characters of the whole filter.
pub proof fn law_read_fields_are_cut_well(
    filter: &str,
    lead: Seq<char>,
    span: Seq<char>,
    field: Seq<char>,
    more: Seq<char>,
)
    requires
        call_ensures(can_read, (filter,), true),
        filter@.len() <= usize::MAX,
        filter@ == lead + seq!['['] + span + seq!['{'] + field + seq!['}'] + more,
        forall|k: int| 0 <= k < filter@.len() ==> #[trigger] filter@[k] != ',',
        forall|k: int| 0 <= k < lead.len() ==> is_white(#[trigger] lead[k]),
        forall|k: int| 0 <= k < span.len() ==> (#[trigger] span[k]) != ']' && span[k] != '{',
        forall|k: int| 0 <= k < field.len() ==> #[trigger] field[k] != '}',
    ensures
        exists|n: int|
            0 <= n <= filter@.len() && #[trigger] bytes(filter@.take(n)) == 2 + bytes(span),
        exists|n: int|
            0 <= n <= filter@.len() && #[trigger] bytes(filter@.take(n)) == 2 + bytes(span) + bytes(
                field,
            ),
{
    let rest = seq!['['] + span + seq!['{'] + field + seq!['}'] + more;
    let m = 1 + span.len() as int;
    let e = m + 1 + field.len();
    assert(filter@ =~= lead + rest);
    assert(rest[0] == '[' && rest[m] == '{' && rest[e] == '}');
    lemma_read_text(filter@, lead, rest, e);
    lemma_whole_filter(filter@);
    let text = trimmed(filter@);
    assert forall|k: int| 1 <= k < m implies (#[trigger] text[k]) != ']' && text[k] != '{' by {
        assert(text[k] == span[k - 1]);
    }
    assert forall|k: int| m + 1 <= k < e implies (#[trigger] text[k]) != '}' by {
        assert(text[k] == field[k - m - 1]);
    }
    assert(text[0] == '[' && text[m] == '{' && text[e] == '}');
    lemma_span_stays(text, m);
    assert(reading(text, m + 1) == Reading::Field((m + 1) as usize));
    lemma_field_stays(text, m + 1, e);
    assert(cuts_well(filter@, text, reading(text, e), text[e], e));
    lemma_one_byte('[');
    lemma_one_byte('{');
    assert(text.take(m + 1) =~= seq!['['] + span + seq!['{']);
    lemma_bytes_add(seq!['['], span);
    lemma_bytes_add(seq!['['] + span, seq!['{']);
    assert(text.take(e) =~= seq!['['] + span + seq!['{'] + field);
    lemma_bytes_add(seq!['['] + span + seq!['{'], field);
    assert(can_cut(filter@, text, m + 1) && can_cut(filter@, text, e));
}

} // verus!
